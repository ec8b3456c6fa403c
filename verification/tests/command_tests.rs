use tais_core::command::{classify_command, parse_command, Command};
use tais_core::llm::ProviderType;

#[test]
fn help_and_status() {
    assert!(matches!(parse_command("HELP"), Command::Help));
    assert!(matches!(parse_command("？"), Command::Help));
    assert!(matches!(parse_command("help me"), Command::Help));
    // "llm status" holds "status", which is checked first
    assert!(matches!(parse_command("llm status"), Command::Status));
    assert!(matches!(parse_command("llm"), Command::LlmStatus));
}

#[test]
fn gene_commands() {
    assert!(matches!(parse_command("gene"), Command::ShowGene));
    match parse_command("gene Hacker") {
        Command::SetGene(g) => assert_eq!(g, "hacker"),
        other => panic!("unexpected {:?}", other),
    }
    assert!(matches!(parse_command("gene poet"), Command::Unknown));
}

#[test]
fn arguments_keep_their_case() {
    match parse_command("checkpoint  Step 3 done ") {
        Command::Checkpoint(k) => assert_eq!(k, "Step 3 done"),
        other => panic!("unexpected {:?}", other),
    }
    match parse_command("concept Newton") {
        Command::Concept(c) => assert_eq!(c, "newton"),
        other => panic!("unexpected {:?}", other),
    }
    match parse_command("set grade 高二") {
        Command::SetGrade(g) => assert_eq!(g, "高二"),
        other => panic!("unexpected {:?}", other),
    }
}

#[test]
fn hot_memory_commands_come_before_the_session_summary() {
    match parse_command("memory add 我喜欢物理") {
        Command::HotAdd(f) => assert_eq!(f, "我喜欢物理"),
        other => panic!("unexpected {:?}", other),
    }
    match parse_command("memory rm 物理") {
        Command::HotRemove(k) => assert_eq!(k, "物理"),
        other => panic!("unexpected {:?}", other),
    }
    match parse_command("memory remove 物理") {
        Command::HotRemove(k) => assert_eq!(k, "物理"),
        other => panic!("unexpected {:?}", other),
    }
    assert!(matches!(parse_command("memory"), Command::HotShow));
    assert!(matches!(parse_command("记忆"), Command::HotShow));
    assert!(matches!(parse_command("memory list"), Command::HotList));
    assert!(matches!(parse_command("show my memory"), Command::Memory));
}

#[test]
fn crystallize_arguments() {
    match parse_command("crystallize physics_newton 牛顿 定律") {
        Command::Crystallize { name, description } => {
            assert_eq!(name, "physics_newton");
            assert_eq!(description, "牛顿 定律");
        }
        other => panic!("unexpected {:?}", other),
    }
    match parse_command("crystallize solo") {
        Command::Crystallize { name, description } => {
            assert_eq!(name, "solo");
            assert_eq!(description, "no description");
        }
        other => panic!("unexpected {:?}", other),
    }
}

#[test]
fn llm_add_parsing() {
    match parse_command("llm add my openai gpt-4o https://api.openai.com sk-abc def") {
        Command::LlmAdd { name, provider, model, base_url, api_key } => {
            assert_eq!(name, "my");
            assert_eq!(provider, ProviderType::OpenAI);
            assert_eq!(model, "gpt-4o");
            assert_eq!(base_url, "https://api.openai.com");
            assert_eq!(api_key, "sk-abc def");
        }
        other => panic!("unexpected {:?}", other),
    }
    assert!(matches!(parse_command("llm add a b c"), Command::LlmAddUsage));
    assert!(matches!(parse_command("llm add a gemini m u k"), Command::LlmAddBadProvider));
}

#[test]
fn passwords_need_six_bytes() {
    assert!(matches!(parse_command("passwd 12345"), Command::PasswdTooShort));
    match parse_command("passwd Secret1") {
        Command::Passwd(p) => assert_eq!(p, "Secret1"),
        other => panic!("unexpected {:?}", other),
    }
}

#[test]
fn other_commands() {
    assert!(matches!(parse_command("whoami"), Command::Whoami));
    assert!(matches!(parse_command("清空"), Command::Clear));
    assert!(matches!(parse_command("sessions"), Command::Sessions));
    assert!(matches!(parse_command("进化"), Command::Evolution));
    assert!(matches!(parse_command("tools"), Command::Tools));
    assert!(matches!(parse_command("llm list"), Command::LlmList));
    assert!(matches!(parse_command("llm clear"), Command::LlmClear));
    match parse_command("llm del openai-1234") {
        Command::LlmDel(id) => assert_eq!(id, "openai-1234"),
        other => panic!("unexpected {:?}", other),
    }
    match classify_command("直接回答：F=ma", "直接回答：f=ma") {
        Command::Direct(q) => assert_eq!(q, "f=ma"),
        other => panic!("unexpected {:?}", other),
    }
    assert!(matches!(parse_command("random words"), Command::Unknown));
}
