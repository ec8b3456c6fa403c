use tais_core::hot_memory::HotMemory;
use tais_core::replies::{hot_add_reply, hot_memory_reply, hot_remove_reply};
use tais_core::agent::LoopState;
use tais_core::goal::GeneProfile;
use tais_core::llm::{LlmConfig, ProviderType};
use tais_core::replies::{
    cuts_cleanly, default_target, direct_reply, general_fallback, general_status_reply, help_reply, llm_added_reply,
    llm_list_reply, llm_status_reply, memory_reply, mode_label, sessions_reply, short_id, skills_reply, status_reply,
    tools_reply, unknown_reply, whoami_reply,
};
use tais_core::routing::SessionMode;
use tais_core::user::UserLlmConfig;

fn config(id: &str, name: &str, key: &str, is_default: bool) -> LlmConfig {
    LlmConfig {
        id: id.to_string(),
        name: name.to_string(),
        provider: ProviderType::OpenAI,
        base_url: "https://api.example.com/v1".to_string(),
        api_key: key.to_string(),
        model: "gpt-4o".to_string(),
        is_default,
        is_active: true,
    }
}

#[test]
fn cut_points_follow_character_boundaries() {
    assert!(cuts_cleanly("abc", 8));
    assert!(cuts_cleanly("abcdefghij", 8));
    // each CJK character takes three bytes: byte 8 falls inside the third one
    assert!(!cuts_cleanly("一二三四", 8));
    assert!(cuts_cleanly("一二三四", 9));
    assert_eq!(short_id("0123456789abcdef", 8), "01234567");
    assert_eq!(short_id("abc", 8), "abc");
}

#[test]
fn help_names_user_session_gene_and_mode() {
    let r = help_reply("小明", "abcd1234", "mentor", SessionMode::General);
    assert!(r.starts_with("🔧 **TAIS 命令列表**\n\n**💬 通用模式**（推荐日常使用）\n"));
    assert!(r.contains("├─ `命令模式` / `管理模式` — 切换到命令模式（当前模式）\n"));
    assert!(r.ends_with("\n\n👤 用户: 小明\n📝 会话: abcd1234\n🧬 基因: mentor\n🔄 模式: 学习"));
    assert_eq!(mode_label(SessionMode::Command), "命令");
    assert_eq!(mode_label(SessionMode::Learning), "学习");
}

#[test]
fn status_lists_the_agent_counters() {
    let mut st = LoopState::new();
    st.total_rounds = 5;
    st.successful_rounds = 4;
    st.failed_rounds = 1;
    st.fast_path_rounds = 2;
    st.deployed_strategies = 3;
    let r = status_reply("u", "s", "scholar", SessionMode::Command, &st, "key");
    assert_eq!(
        r,
        "📊 **系统状态**\n用户: u\n会话: s\n基因: scholar\n模式: 命令\n总轮次: 5\n成功: 4 / 失败: 1\n快速路径: 2\n部署策略: 3\n工作记忆: key"
    );
    assert_eq!(general_status_reply(&st), "📊 总轮次: 5 | 成功: 4 | 快速路径: 2 | 模式: 通用");
}

#[test]
fn tools_shows_ten_and_counts_the_rest() {
    let tools: Vec<(String, String)> = (1..=12).map(|i| (format!("t{i}"), format!("d{i}"))).collect();
    let r = tools_reply(&tools);
    assert!(r.starts_with("🔌 **MCP 工具 (12个)**\n\n1. t1 — d1\n2. t2 — d2\n"));
    assert!(r.contains("10. t10 — d10\n"));
    assert!(!r.contains("t11"));
    assert!(r.ends_with("... 还有 2 个工具"));
    let few = vec![("a".to_string(), "b".to_string())];
    assert_eq!(tools_reply(&few), "🔌 **MCP 工具 (1个)**\n\n1. a — b\n");
}

#[test]
fn skills_lists_the_habit_rules() {
    let rules = vec![("H01".to_string(), "复盘".to_string())];
    let r = skills_reply(&rules);
    assert!(r.starts_with("📦 **可用技能胶囊 (35个)**\n\n**TAIS 教学 (7)**\n"));
    assert!(r.ends_with("**习惯 (7)**\n├─ H01: 复盘\n\n💡 用 `tools` 查看 MCP 工具列表"));
}

#[test]
fn sessions_shows_short_ids_and_turns() {
    let sessions: Vec<(String, usize)> = (0..11).map(|i| (format!("session-{i:02}-xyz"), i)).collect();
    let r = sessions_reply(&sessions);
    assert!(r.starts_with("📋 **活跃会话 (11个)**\n\n├─ session-... (0 轮)\n├─ session-... (1 轮)\n"));
    assert!(r.ends_with("... 还有 1 个\n"));
    assert_eq!(memory_reply(3, "abcd1234", "小明"), "🧠 **会话记忆**\n活跃会话: 3 个\n当前会话: abcd1234\n用户: 小明\n\n💡 用 `sessions` 查看所有会话");
}

#[test]
fn direct_reply_cuts_the_question() {
    let q = "x".repeat(250);
    let r = direct_reply(&q);
    assert!(r.starts_with(&format!("📝 **直接回答模式**\n\n你的问题: {}\n\n", "x".repeat(200))));
}

#[test]
fn llm_status_and_list() {
    let configs = vec![config("id-0001-aaaa", "main", "sk-1234567890", true), config("id-0002-bbbb", "spare", "short", false)];
    let personal = Some(UserLlmConfig {
        provider: "ollama".to_string(),
        base_url: "http://localhost:11434".to_string(),
        api_key: String::new(),
        model: "qwen".to_string(),
    });
    let s = llm_status_reply(&personal, 1, 2, 2, &configs);
    assert_eq!(
        s,
        "🧑 **你的 LLM**: ollama / qwen | base: http://localhost:11434\n\n🖥️ **系统**: 1 已连接 / 2 活跃 / 2 总计\n1. main [openai/gpt-4o] ★默认\n2. spare [openai/gpt-4o]\n"
    );
    let none: Option<UserLlmConfig> = None;
    let l = llm_list_reply(&none, &configs);
    assert_eq!(
        l,
        "📋 **LLM 配置**\n\n🖥️ **系统 LLM**:\n1. `main` openai | model=gpt-4o | key=sk-12345...\n2. `spare` openai | model=gpt-4o | key=***\n"
    );
    assert_eq!(llm_list_reply(&none, &Vec::new()), "📋 **LLM 配置**\n\n🖥️ **系统 LLM**:\n(空) 在 Dashboard 或个人仪表盘配置 LLM\n");
    assert_eq!(llm_added_reply("main", "id-0001-aaaa"), "✅ LLM 配置已创建: main (id=id-0001-)");
}

#[test]
fn default_target_by_name_or_id_prefix() {
    let configs = vec![config("aaa-1", "main", "k", false), config("bbb-2", "spare", "k", false)];
    assert_eq!(default_target(&configs, "spare"), Some(1));
    assert_eq!(default_target(&configs, "aaa"), Some(0));
    assert_eq!(default_target(&configs, "zzz"), None);
}

#[test]
fn whoami_and_unknown() {
    assert_eq!(
        whoami_reply(None, Some("u1"), "hacker", "abcd1234"),
        "👤 用户: 未知\n🆔 User ID: u1\n🧬 基因: hacker\n🔄 模式: 命令\n📝 会话: abcd1234"
    );
    assert_eq!(unknown_reply("foo"), "⚙️ 收到: 「foo」\n未识别的指令。输入 `help` 查看所有命令。");
}

#[test]
fn general_fallback_question_greeting_default() {
    let g = GeneProfile::default();
    let q = general_fallback("什么是力？", "什么是力？", "", "小明", &g.personality);
    assert_eq!(q, "🤔 关于「什么是力？」\n\n💡 配置 LLM 后我可以直接回答你的问题。\n输入 `help` 查看我能做什么。");
    let q2 = general_fallback("Why?", "why?", "牛顿定律", "小明", "mentor");
    assert_eq!(q2, "🤔 关于「Why?」\n\n💡 配置 LLM 后我可以直接回答。\n当前学习主题: 牛顿定律\n输入 `help` 查看功能，或切换到「学习模式」让我引导你思考。");
    let hi = general_fallback("Hello", "hello", "", "小明", "mentor");
    assert_eq!(hi, "👋 你好 小明！我是 TAIS。\n当前: 💬 通用模式 | 🧬 mentor\n有什么我可以帮你的？输入 `help` 看功能。");
    let other = general_fallback("ok", "ok", "", "小明", "mentor");
    assert_eq!(other, "💬 收到。「ok」\n输入 `help` 查看我能做什么，或直接告诉我你的需求。");
}

#[test]
fn memory_add_stores_a_hot_memory_fact() {
    let mut hm = HotMemory::initial();
    assert_eq!(hot_add_reply(&mut hm, "我喜欢物理"), "✅ 已添加: 我喜欢物理");
    assert_eq!(hm.content(), "# TAIS Hot Memory\n§\n我喜欢物理 §\n");
    assert_eq!(hot_add_reply(&mut hm, "物理"), "❌ duplicate: 物理");
    assert_eq!(
        hot_memory_reply(&hm),
        "🧠 **热记忆** (9/500 字符)\n\n§\n我喜欢物理 §\n\n管理: `memory add <事实>` | `memory rm <关键词>` | `memory list`"
    );
    assert_eq!(hot_remove_reply(&mut hm, "物理"), "✅ 已移除包含「物理」的条目");
    assert_eq!(hot_remove_reply(&mut hm, "物理"), "❌ not found: 物理");
}
