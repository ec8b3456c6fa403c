use tais_core::routing::{
    detect_intent, extract_concept, extract_skill_name, is_bind_code, mode_switch, pick_strategy,
    quick_command, safe_truncate, should_crystallize, wants_agent, Intent, QuickCommand, SessionMode,
};

#[test]
fn questions_are_detected() {
    let (i, c) = detect_intent("什么是牛顿第二定律？");
    assert_eq!(i, Intent::Question);
    assert_eq!(c.as_deref(), Some("牛顿第二定律"));
    let (i, c) = detect_intent("How does gravity work");
    assert_eq!(i, Intent::Question);
    assert_eq!(c, None);
    let (i, c) = detect_intent("status");
    assert_eq!(i, Intent::Command);
    assert_eq!(c, None);
}

#[test]
fn concept_from_brackets_and_prefixes() {
    assert_eq!(extract_concept("请讲「动量守恒」吧").as_deref(), Some("动量守恒"));
    assert_eq!(extract_concept("关于 电场 磁场 的 区别").as_deref(), Some("电场 磁场 的"));
    assert_eq!(extract_concept("教我 微积分,谢谢").as_deref(), Some("微积分 谢谢"));
    assert_eq!(extract_concept("你好"), None);
    assert_eq!(extract_concept("什么是？"), None);
}

#[test]
fn strategies() {
    assert_eq!(pick_strategy("这样对吗"), "counterexample");
    assert_eq!(pick_strategy("举个例子"), "analogy");
    assert_eq!(pick_strategy("步骤是什么"), "scaffold");
    assert_eq!(pick_strategy("hello"), "clarification");
}

#[test]
fn truncation_respects_char_boundaries() {
    assert_eq!(safe_truncate("hello", 10), "hello");
    assert_eq!(safe_truncate("hello", 3), "hel");
    assert_eq!(safe_truncate("你好世界", 7), "你好");
    assert_eq!(safe_truncate("你好", 2), "");
}

#[test]
fn skill_names() {
    assert_eq!(extract_skill_name("查询武汉天气"), "weather_query");
    assert_eq!(extract_skill_name("Translate this"), "translator");
    assert_eq!(extract_skill_name("Open Sesame now"), "open_sesame");
    assert_eq!(extract_skill_name("hi"), "agent_skill");
}

#[test]
fn crystallize_decision() {
    let progress = vec!["⚡ Agent 执行代码".to_string(), "📤 执行结果: 20°C".to_string()];
    assert!(should_crystallize(&progress, "武汉今天晴，气温二十度左右", "weather_query"));
    assert!(!should_crystallize(&progress, "短", "weather_query"));
    assert!(!should_crystallize(&progress, "武汉今天晴，气温二十度左右", "open_sesame"));
    assert!(!should_crystallize(&progress, "调用失败了，请稍后重试吧", "weather_query"));
    assert!(!should_crystallize(&vec![], "武汉今天晴，气温二十度左右", "weather_query"));
}

#[test]
fn mode_switch_words() {
    assert_eq!(mode_switch("切换到学习模式"), Some(SessionMode::Learning));
    assert_eq!(mode_switch("进入命令模式"), Some(SessionMode::Command));
    assert_eq!(mode_switch("general"), Some(SessionMode::General));
    assert_eq!(mode_switch("hello"), None);
    // learning is checked before general
    assert_eq!(mode_switch("通用教学"), Some(SessionMode::Learning));
}

#[test]
fn general_quick_commands() {
    assert_eq!(quick_command("help"), Some(QuickCommand::Help));
    assert_eq!(quick_command("现在几点"), Some(QuickCommand::Time));
    assert_eq!(quick_command("habits"), Some(QuickCommand::Habits));
    assert_eq!(quick_command("天气"), None);
    assert!(wants_agent(true, "查天气", "查天气"));
    assert!(!wants_agent(false, "查天气", "查天气"));
    assert!(!wants_agent(true, "hi", "hi"));
    assert!(!wants_agent(true, "help me", "help me"));
}

#[test]
fn bind_codes() {
    assert!(is_bind_code("123456"));
    assert!(!is_bind_code("12345"));
    assert!(!is_bind_code("12345a"));
    assert!(!is_bind_code("１２３４５６"));
}
