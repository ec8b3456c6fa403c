use tais_core::llm::{LlmStatus, ModelStatus, ProviderType};
use tais_core::page::{html_escape, llm_rows_html, run_output, shell_output};

#[test]
fn escapes_the_five_special_characters() {
    assert_eq!(html_escape("<a href=\"x\">'&'</a>"), "&lt;a href=&quot;x&quot;&gt;&#39;&amp;&#39;&lt;/a&gt;");
    assert_eq!(html_escape("&amp;"), "&amp;amp;");
    assert_eq!(html_escape("普通文本"), "普通文本");
}

fn model(name: &str, p: ProviderType, connected: bool, default: bool) -> ModelStatus {
    ModelStatus {
        id: format!("{name}-id"),
        name: name.to_string(),
        provider_type: p,
        model: "m1".to_string(),
        is_default: default,
        is_active: true,
        is_connected: connected,
    }
}

#[test]
fn no_models_gives_the_notice() {
    let st = LlmStatus { total_configs: 0, active_configs: 0, connected_count: 0, models: Vec::new() };
    let html = llm_rows_html(&st);
    assert!(html.starts_with("<div class=\"empty\">🧠 暂未配置 LLM 模型"));
    assert!(html.contains("/api/llm/configs"));
}

#[test]
fn one_row_per_model() {
    let st = LlmStatus {
        total_configs: 2,
        active_configs: 2,
        connected_count: 1,
        models: vec![model("主模型", ProviderType::OpenAI, true, true), model("备用", ProviderType::Ollama, false, false)],
    };
    let html = llm_rows_html(&st);
    assert!(html.starts_with("<table>"));
    assert!(html.ends_with("</tbody></table>"));
    assert_eq!(html.matches("<tr>\n").count(), 3);
    assert!(html.contains("<td><strong>主模型</strong></td>"));
    assert!(html.contains("<span class=\"badge badge-openai\">openai</span>"));
    assert!(html.contains("<span class=\"badge badge-ollama\">ollama</span>"));
    assert!(html.contains("🟢 已连接"));
    assert!(html.contains("🔴 未连接"));
    assert_eq!(html.matches("badge-default").count(), 1);
    assert!(html.find("主模型").unwrap() < html.find("备用").unwrap());
}

#[test]
fn code_run_replies() {
    assert_eq!(run_output("", ""), "(无输出)");
    assert_eq!(run_output("", "  boom \n"), "(stderr): boom");
    assert_eq!(run_output(" 42\n", ""), "42");
    assert_eq!(run_output("out\n", "warn\n"), "out\n(stderr): warn");
    assert_eq!(shell_output(""), "(无输出)");
    assert_eq!(shell_output("  ls\n"), "ls");
}

#[test]
fn chat_page_fills_in_the_session() {
    let p = tais_core::ui::chat_page("abcdefghijk", Some("u1"), None);
    assert!(p.contains("<title>u1 的 TAIS 会话</title>"));
    assert!(p.contains("<span id=\"sessionIdShort\">abcdefgh</span>"));
    assert!(p.contains("href=\"/dashboard/u1\""));
    assert!(p.contains("const serverSessionId = 'abcdefghijk';"));
    let guest = tais_core::ui::chat_page("s", None, None);
    assert!(guest.contains("<title>访客 的 TAIS 会话</title>"));
    assert!(guest.contains("href=\"/\""));
    assert!(tais_core::ui::login_page().starts_with("<!DOCTYPE html>"));
    assert!(tais_core::ui::login_page().contains("<title>TAIS — 登录</title>"));
}
