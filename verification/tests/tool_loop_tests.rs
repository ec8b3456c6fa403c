use tais_core::tool_loop::{
    code_block_in, extract_code_block, find_next_code, system_prompt, LoopAction, LoopEvent, LoopPhase, ToolKind,
    ToolLoop, MAX_TOOL_ROUNDS,
};

fn ask(a: &LoopAction) -> &str {
    match a {
        LoopAction::Ask(p) => p.as_str(),
        other => panic!("expected a prompt, got {:?}", other),
    }
}

#[test]
fn code_block_is_read_between_the_fences() {
    let reply = "计划：先打印\n```python\nprint(1)\n```\n完成";
    assert_eq!(extract_code_block(reply, "python"), Some("print(1)".to_string()));
    assert_eq!(extract_code_block(reply, "bash"), None);
}

#[test]
fn code_block_language_is_matched_case_insensitively() {
    assert_eq!(extract_code_block("```Python\nx = 1\n```", "PYTHON"), Some("x = 1".to_string()));
    assert_eq!(extract_code_block("``` bash\nls -la\n```", "bash"), Some("ls -la".to_string()));
}

#[test]
fn code_block_closing_fence_on_the_same_line() {
    assert_eq!(extract_code_block("```python\nprint(2)```", "python"), Some("print(2)".to_string()));
}

#[test]
fn code_block_without_closing_fence_is_none() {
    assert_eq!(extract_code_block("```python\nprint(3)\n", "python"), None);
}

#[test]
fn code_block_marker_line_rest_is_skipped() {
    assert_eq!(extract_code_block("```python title\n  a = 2  \n```", "python"), Some("a = 2".to_string()));
}

#[test]
fn code_block_read_at_the_lowercase_byte_offset() {
    // U+0130 lowercases to a longer encoding, so the marker's end in the
    // lowercase copy falls further into the reply.
    let reply = "İ\n```python\nprint(4)\n```";
    assert_eq!(extract_code_block(reply, "python"), Some(String::new()));
    assert_eq!(extract_code_block("Ⱥ```python\nprint(1)\n```", "python"), Some(String::new()));
}

#[test]
fn code_block_none_when_the_offset_splits_a_character() {
    // the lowercase copy is one byte longer before the marker, so its end
    // falls inside the next (three-byte) character of the reply
    assert_eq!(extract_code_block("Ⱥ```python好\nx\n```", "python"), None);
}

#[test]
fn code_block_in_reads_the_reply_at_the_copy_offsets() {
    let reply = "```PYTHON\nPrint(5)\n```";
    let lower = "```python\nprint(5)\n```";
    assert_eq!(code_block_in(reply, lower, "python"), Some("Print(5)".to_string()));
}

#[test]
fn next_code_prefers_browser_then_python_then_shell() {
    let both = "```python\nprint(1)\n```\n```browser\nnew_tab('x')\n```";
    assert_eq!(find_next_code(both), Some((ToolKind::Browser, "new_tab('x')".to_string())));
    assert_eq!(find_next_code("```bash\nls\n```"), Some((ToolKind::Shell, "ls".to_string())));
    assert_eq!(find_next_code("```powershell\ndir\n```"), Some((ToolKind::Shell, "dir".to_string())));
    assert_eq!(find_next_code("no code here"), None);
}

#[test]
fn loop_plan_run_answer() {
    let (mut run, a) = ToolLoop::start("算 1+1");
    assert!(ask(&a).starts_with("用户需求: 算 1+1\n\n请先给出一个简短的执行计划"));
    assert_eq!(run.progress, vec!["📋 **任务规划**:".to_string()]);

    let a = run.step(LoopEvent::Reply("📋 计划:\n1. 计算\n```python\nprint(1+1)\n```".to_string()));
    match a {
        LoopAction::Run(ToolKind::Python, ref code) => assert_eq!(code, "print(1+1)"),
        ref other => panic!("unexpected {:?}", other),
    }
    assert_eq!(run.progress[1], "📋 计划:\n1. 计算");
    assert_eq!(run.progress[2], "⚡ 执行代码 (1 行):\n```python\nprint(1+1)\n```");

    let a = run.step(LoopEvent::Output("2\n".to_string()));
    assert_eq!(ask(&a), "代码执行结果:\n[Code Output]\n2\n\n[/Code Output]\n\n继续执行或总结回答用户: 「算 1+1」");
    assert_eq!(run.progress[3], "📤 执行结果:\n```\n2\n\n```");

    let a = run.step(LoopEvent::Reply("答案是 2".to_string()));
    match a {
        LoopAction::Finish(ref answer) => assert_eq!(answer, "答案是 2"),
        ref other => panic!("unexpected {:?}", other),
    }
    assert_eq!(run.round, 1);
    assert!(matches!(run.phase, LoopPhase::Done));
}

#[test]
fn loop_plan_failure_is_reported() {
    let (mut run, _) = ToolLoop::start("q");
    match run.step(LoopEvent::Failed("timeout".to_string())) {
        LoopAction::Finish(answer) => assert_eq!(answer, "❌ LLM 调用失败: timeout"),
        other => panic!("unexpected {:?}", other),
    }
}

#[test]
fn loop_followup_failure_answers_with_the_output() {
    let (mut run, _) = ToolLoop::start("q");
    run.step(LoopEvent::Reply("```bash\necho hi\n```".to_string()));
    let a = run.step(LoopEvent::Output("hi".to_string()));
    assert_eq!(ask(&a), "脚本执行结果:\nhi\n\n继续或总结回答: 「q」");
    match run.step(LoopEvent::Failed("down".to_string())) {
        LoopAction::Finish(answer) => assert_eq!(answer, "脚本输出:\nhi"),
        other => panic!("unexpected {:?}", other),
    }
}

#[test]
fn loop_stops_after_three_rounds() {
    let code = "```python\nprint(0)\n```";
    let (mut run, _) = ToolLoop::start("q");
    let mut a = run.step(LoopEvent::Reply(code.to_string()));
    let mut runs = 0;
    let mut asks = 1;
    loop {
        match a {
            LoopAction::Run(_, _) => {
                runs += 1;
                a = run.step(LoopEvent::Output("0".to_string()));
            },
            LoopAction::Ask(_) => {
                asks += 1;
                a = run.step(LoopEvent::Reply(code.to_string()))
            },
            LoopAction::Finish(answer) => {
                assert_eq!(answer, code);
                break;
            },
        }
    }
    assert_eq!(runs, MAX_TOOL_ROUNDS);
    assert_eq!(asks, MAX_TOOL_ROUNDS + 1);
    assert_eq!(run.round, MAX_TOOL_ROUNDS);
}

#[test]
fn loop_long_browser_script_is_clipped_with_its_line_count() {
    let script = format!("{}\n{}", "a".repeat(200), "b".repeat(200));
    let (mut run, _) = ToolLoop::start("q");
    run.step(LoopEvent::Reply(format!("```browser\n{}\n```", script)));
    let shown = run.progress.last().unwrap().clone();
    assert_eq!(shown, format!("🌐 操控浏览器:\n```python\n{}...(2 行)\n```", &script[..300]));
    let a = run.step(LoopEvent::Output("x".repeat(600)));
    assert!(ask(&a).starts_with("浏览器操作结果:\n[Browser Output]\n"));
    assert_eq!(run.progress.last().unwrap(), &format!("🌐 浏览器输出:\n```\n{}...\n```", "x".repeat(500)));
}

#[test]
fn system_prompt_adds_history_only_when_given() {
    let plain = system_prompt("小明", "2024-01-01 00:00", "");
    assert!(plain.contains("用户: 小明 | UTC: 2024-01-01 00:00\n⚠️ 代码必须在"));
    assert!(!plain.contains("最近的对话上下文"));
    let with = system_prompt("小明", "t", "学生: 你好");
    assert!(with.contains("用户: 小明 | UTC: t\n**最近的对话上下文**:\n学生: 你好\n请基于以上上下文回答。"));
    assert!(with.starts_with("# 角色: TAIS 自进化 AI Agent\n"));
}
