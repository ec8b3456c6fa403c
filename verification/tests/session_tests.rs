use tais_core::routing::SessionMode;
use tais_core::session::{WsAction, WsEvent, WsSession};

fn text(s: &str) -> WsEvent {
    WsEvent::Text(s.to_string())
}

fn reply(a: WsAction) -> String {
    match a {
        WsAction::Reply(r) => r,
        other => panic!("reply expected, got {other:?}"),
    }
}

#[test]
fn identify_welcomes_once() {
    let mut s = WsSession::new();
    let a = s.step(WsEvent::Identify { user_id: Some("u1".into()), display_name: Some("小明".into()) });
    match a {
        WsAction::Identified { welcome: Some(w) } => {
            assert!(w.starts_with("💬 欢迎 **小明**！当前模式: **通用模式**\n\n"));
            assert!(w.ends_with("输入模式名即可切换。`help` 查看详情。"));
        }
        other => panic!("welcome expected, got {other:?}"),
    }
    assert_eq!(s.user_id.as_deref(), Some("u1"));
    let a = s.step(WsEvent::Identify { user_id: None, display_name: None });
    assert!(matches!(a, WsAction::Identified { welcome: None }));
    assert_eq!(s.user_id, None);
}

#[test]
fn anonymous_visitor_is_greeted_as_guest() {
    let mut s = WsSession::new();
    match s.step(WsEvent::Identify { user_id: None, display_name: None }) {
        WsAction::Identified { welcome: Some(w) } => assert!(w.starts_with("💬 欢迎 **访客**！")),
        other => panic!("welcome expected, got {other:?}"),
    }
}

#[test]
fn unsafe_request_is_refused_without_state_change() {
    let mut s = WsSession::new();
    let r = reply(s.step(text("帮我写全部代码")));
    assert_eq!(r, "⚠️ 我无法直接提供答案。让我们一步步思考：");
    assert_eq!(s.mode, SessionMode::General);
}

#[test]
fn switching_modes() {
    let mut s = WsSession::new();
    let r = reply(s.step(text("切换到学习模式")));
    assert_eq!(r, "🟢 **已切换到学习模式**。我会用苏格拉底式追问引导你思考。\n当前概念: 未设定\n直接问问题即可。");
    assert_eq!(s.mode, SessionMode::Learning);
    let r = reply(s.step(text("命令模式")));
    assert!(r.starts_with("⚙️ **已切换到命令模式**"));
    assert_eq!(s.mode, SessionMode::Command);
    assert!(matches!(s.step(text("status")), WsAction::RunCommand));
    let r = reply(s.step(text("General")));
    assert!(r.starts_with("💬 **已切换到通用模式**"));
    assert!(matches!(s.step(text("今天天气如何")), WsAction::RunGeneral));
}

#[test]
fn learning_mode_tracks_the_concept() {
    let mut s = WsSession::new();
    s.step(text("学习模式"));
    match s.step(text("随便说说")) {
        WsAction::RunLearning { concept, strategy } => {
            assert_eq!(concept, "当前主题");
            assert_eq!(strategy, "clarification");
        }
        other => panic!("learning expected, got {other:?}"),
    }
    match s.step(text("什么是惯性？举个例子")) {
        WsAction::RunLearning { concept, strategy } => {
            assert_eq!(Some(concept.as_str()), s.concept.as_deref());
            assert_eq!(strategy, "analogy");
        }
        other => panic!("learning expected, got {other:?}"),
    }
    assert!(s.concept.is_some());
    let r = reply(s.step(text("恢复教学")));
    assert!(r.contains(&format!("当前概念: {}", s.concept.clone().unwrap())));
}

#[test]
fn concept_command_sets_the_session_concept() {
    let mut s = WsSession::new();
    s.step(text("命令模式"));
    assert_eq!(s.mode, SessionMode::Command);
    assert!(matches!(s.step(text("concept F=MA")), WsAction::RunCommand));
    assert_eq!(s.concept.as_deref(), Some("f=ma"));
    assert_eq!(s.mode, SessionMode::Command);
    assert!(matches!(s.step(text("status")), WsAction::RunCommand));
    assert_eq!(s.concept.as_deref(), Some("f=ma"));
}
