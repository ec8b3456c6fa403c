//! The state of one chat connection and what each incoming message asks
//! for: identifying the user, refusing an unsafe request, switching mode,
//! or handing the message to the command, general or learning handler.
//! The caller performs the action (sending, recording, running skills).

use vstd::prelude::*;
use crate::command::{classify_command, command_of, Command, CommandView};
use crate::gene::{passes_safety, GeneGateway};
use crate::goal::GeneProfile;
use crate::routing::{
    detect_intent, is_question, message_concept, mode_switch, mode_switch_spec, pick_strategy, strategy_spec,
    SessionMode,
};
use crate::text::{lowercase, owned, push_str, to_lowercase};

verus! {

/// A message arriving on a chat connection.
#[derive(Debug)]
pub enum WsEvent {
    /// The page says who is chatting
    Identify { user_id: Option<String>, display_name: Option<String> },
    /// Anything else the student typed
    Text(String),
}

/// What the connection does with a message.
#[derive(Debug)]
pub enum WsAction {
    /// Acknowledge the identity (linking the session to the user, if any),
    /// then send the welcome when there is one
    Identified { welcome: Option<String> },
    /// Send this answer and wait for the next message
    Reply(String),
    /// Run the message as a command
    RunCommand,
    /// Answer the message in general mode
    RunGeneral,
    /// Tutor the student on this concept with this strategy
    RunLearning { concept: String, strategy: &'static str },
}

/// The state of one chat connection.
#[derive(Debug)]
pub struct WsSession {
    pub user_id: Option<String>,
    pub display_name: Option<String>,
    pub concept: Option<String>,
    pub mode: SessionMode,
    pub welcomed: bool,
}

/// The greeting sent once a user is identified.
pub open spec fn welcome_text(name: Seq<char>) -> Seq<char> {
    "💬 欢迎 **"@ + name + "**！当前模式: **通用模式**\n\n🎯 **三种模式**:\n├─ 💬 通用模式 — 自然对话，直接回答\n├─ 📚 学习模式 — TAIS 技能胶囊，苏格拉底追问\n└─ ⚙️ 命令模式 — `llm`, `passwd`, `habits`, `status`\n\n输入模式名即可切换。`help` 查看详情。"@
}

/// The answer to a request the risk control refuses.
pub open spec fn refusal_text() -> Seq<char> {
    "⚠️ 我无法直接提供答案。让我们一步步思考："@
}

/// The answer to a switch to learning mode, naming the current concept.
pub open spec fn learning_text(concept: Seq<char>) -> Seq<char> {
    "🟢 **已切换到学习模式**。我会用苏格拉底式追问引导你思考。\n当前概念: "@ + concept + "\n直接问问题即可。"@
}

/// The answer to a switch to command mode.
pub open spec fn command_text() -> Seq<char> {
    "⚙️ **已切换到命令模式**。你可以输入指令来操作 TAIS。\n输入 `help` 查看所有可用命令。\n输入「通用模式」或「学习模式」切换。"@
}

/// The answer to a switch to general mode.
pub open spec fn general_text() -> Seq<char> {
    "💬 **已切换到通用模式**。我会自然地回答你的问题，不追问也不限指令。\n你可以直接提问、聊天、或输入指令。\n输入「学习模式」或「命令模式」切换。"@
}

/// The concept a learning-mode message names: that of a question, if any.
pub open spec fn named_concept(text: Seq<char>) -> Option<Seq<char>> {
    if is_question(lowercase(text)) {
        message_concept(text)
    } else {
        None
    }
}

/// The view of an optional string.
pub open spec fn opt_view(o: Option<String>) -> Option<Seq<char>> {
    match o {
        Some(s) => Some(s@),
        None => None,
    }
}

impl WsSession {
    /// A new connection: nobody identified, general mode, not welcomed.
    pub fn new() -> (r: WsSession)
        ensures
            r.user_id is None,
            r.display_name is None,
            r.concept is None,
            r.mode == SessionMode::General,
            !r.welcomed,
    {
        WsSession { user_id: None, display_name: None, concept: None, mode: SessionMode::General, welcomed: false }
    }

    /// Handles one message: the new state is left in `self`, the action
    /// returned. In command mode a `concept` command sets the session's
    /// concept; the caller answers it.
    pub fn step(&mut self, event: WsEvent) -> (a: WsAction)
        ensures
            match event {
                WsEvent::Identify { user_id, display_name } => {
                    &&& opt_view(final(self).user_id) == opt_view(user_id)
                    &&& opt_view(final(self).display_name) == opt_view(display_name)
                    &&& final(self).welcomed
                    &&& opt_view(final(self).concept) == opt_view(old(self).concept)
                    &&& final(self).mode == old(self).mode
                    &&& a matches WsAction::Identified { welcome } && if old(self).welcomed {
                        welcome is None
                    } else {
                        welcome matches Some(w) && w@ == welcome_text(
                            match display_name {
                                Some(n) => n@,
                                None => "访客"@,
                            },
                        )
                    }
                },
                WsEvent::Text(text) => {
                    &&& opt_view(final(self).user_id) == opt_view(old(self).user_id)
                    &&& opt_view(final(self).display_name) == opt_view(old(self).display_name)
                    &&& final(self).welcomed == old(self).welcomed
                    &&& if !passes_safety(text@, "strict"@) {
                        &&& a matches WsAction::Reply(m) && m@ == refusal_text()
                        &&& final(self).mode == old(self).mode
                        &&& opt_view(final(self).concept) == opt_view(old(self).concept)
                    } else {
                        match mode_switch_spec(lowercase(text@)) {
                            Some(m) => {
                                &&& final(self).mode == m
                                &&& opt_view(final(self).concept) == opt_view(old(self).concept)
                                &&& a matches WsAction::Reply(r) && r@ == match m {
                                    SessionMode::Learning => learning_text(
                                        match opt_view(old(self).concept) {
                                            Some(c) => c,
                                            None => "未设定"@,
                                        },
                                    ),
                                    SessionMode::Command => command_text(),
                                    SessionMode::General => general_text(),
                                }
                            },
                            None => {
                                &&& final(self).mode == old(self).mode
                                &&& match old(self).mode {
                                    SessionMode::Command => {
                                        &&& a is RunCommand
                                        &&& opt_view(final(self).concept) == match command_of(text@, lowercase(text@)) {
                                            CommandView::Concept(c) => Some(c),
                                            _ => opt_view(old(self).concept),
                                        }
                                    },
                                    SessionMode::General => {
                                        &&& a is RunGeneral
                                        &&& opt_view(final(self).concept) == opt_view(old(self).concept)
                                    },
                                    SessionMode::Learning => {
                                        &&& opt_view(final(self).concept) == match named_concept(text@) {
                                            Some(c) => Some(c),
                                            None => opt_view(old(self).concept),
                                        }
                                        &&& a matches WsAction::RunLearning { concept, strategy } && concept@ == match opt_view(
                                            final(self).concept,
                                        ) {
                                            Some(c) => c,
                                            None => "当前主题"@,
                                        } && strategy@ == strategy_spec(lowercase(text@))
                                    },
                                }
                            },
                        }
                    }
                },
            },
    {
        match event {
            WsEvent::Identify { user_id, display_name } => {
                self.user_id = user_id;
                self.display_name = display_name;
                if self.welcomed {
                    WsAction::Identified { welcome: None }
                } else {
                    self.welcomed = true;
                    let mut w = owned("💬 欢迎 **");
                    match &self.display_name {
                        Some(n) => push_str(&mut w, n.as_str()),
                        None => push_str(&mut w, "访客"),
                    }
                    push_str(
                        &mut w,
                        "**！当前模式: **通用模式**\n\n🎯 **三种模式**:\n├─ 💬 通用模式 — 自然对话，直接回答\n├─ 📚 学习模式 — TAIS 技能胶囊，苏格拉底追问\n└─ ⚙️ 命令模式 — `llm`, `passwd`, `habits`, `status`\n\n输入模式名即可切换。`help` 查看详情。",
                    );
                    WsAction::Identified { welcome: Some(w) }
                }
            },
            WsEvent::Text(text) => {
                let gene = GeneProfile::default();
                if !GeneGateway::check_safety(text.as_str(), &gene) {
                    return WsAction::Reply(owned("⚠️ 我无法直接提供答案。让我们一步步思考："));
                }
                let lower = to_lowercase(text.as_str());
                match mode_switch(lower.as_str()) {
                    Some(SessionMode::Learning) => {
                        self.mode = SessionMode::Learning;
                        let mut r = owned("🟢 **已切换到学习模式**。我会用苏格拉底式追问引导你思考。\n当前概念: ");
                        match &self.concept {
                            Some(c) => push_str(&mut r, c.as_str()),
                            None => push_str(&mut r, "未设定"),
                        }
                        push_str(&mut r, "\n直接问问题即可。");
                        WsAction::Reply(r)
                    },
                    Some(SessionMode::Command) => {
                        self.mode = SessionMode::Command;
                        WsAction::Reply(
                            owned(
                                "⚙️ **已切换到命令模式**。你可以输入指令来操作 TAIS。\n输入 `help` 查看所有可用命令。\n输入「通用模式」或「学习模式」切换。",
                            ),
                        )
                    },
                    Some(SessionMode::General) => {
                        self.mode = SessionMode::General;
                        WsAction::Reply(
                            owned(
                                "💬 **已切换到通用模式**。我会自然地回答你的问题，不追问也不限指令。\n你可以直接提问、聊天、或输入指令。\n输入「学习模式」或「命令模式」切换。",
                            ),
                        )
                    },
                    None => match self.mode {
                        SessionMode::Command => {
                            match classify_command(text.as_str(), lower.as_str()) {
                                Command::Concept(c) => {
                                    self.concept = Some(c);
                                },
                                _ => {},
                            }
                            WsAction::RunCommand
                        },
                        SessionMode::General => WsAction::RunGeneral,
                        SessionMode::Learning => {
                            let (_, extracted) = detect_intent(text.as_str());
                            match extracted {
                                Some(c) => {
                                    self.concept = Some(c);
                                },
                                None => {},
                            }
                            let concept = match &self.concept {
                                Some(c) => c.clone(),
                                None => owned("当前主题"),
                            };
                            WsAction::RunLearning { concept, strategy: pick_strategy(text.as_str()) }
                        },
                    },
                }
            },
        }
    }
}

} // verus!
