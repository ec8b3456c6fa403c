//! The agent's tool-using loop: the model is asked for a plan, and each
//! reply is searched for a fenced code block (browser script, Python or
//! shell) to run; the output goes back to the model, for at most three
//! rounds. This module decides each step; the caller talks to the model and
//! runs the code.

use vstd::prelude::*;
use crate::lines::{lines, split_lines};
use crate::routing::{safe_truncate, truncated};
use crate::text::{
    chars_of, clip, clip_bytes, concat, dec, decimal, find_from, find_from_spec, lemma_utf8_len_prefix, lowercase, owned,
    prefix_within, push_str, byte_len, string_from_chars, slice_chars, to_lowercase, trim, trim_chars, utf8_len, views,
};

verus! {

/// The code of a fence whose opening marker ends at `start` of `resp`: the
/// rest of the marker's line is skipped, and the code runs to the first
/// `\n```` (or, without one, the first ```` ``` ````), trimmed.
pub open spec fn fence_body(resp: Seq<char>, start: int) -> Option<Seq<char>> {
    let after = resp.skip(start);
    let begin = match find_from_spec(after, seq!['\n'], 0) {
        Some(n) => n + 1,
        None => 0,
    };
    let rest = after.skip(begin);
    match find_from_spec(rest, "\n```"@, 0) {
        Some(e) => Some(trim(rest.take(e))),
        None => match find_from_spec(rest, "```"@, 0) {
            Some(e) => Some(trim(rest.take(e))),
            None => None,
        },
    }
}

/// The position in `s` where its encoding's byte `b` starts a character
/// (or `s.len()` for its last byte plus one), if `b` is such a boundary.
pub open spec fn byte_pos(s: Seq<char>, b: int) -> Option<int> {
    if exists|k: int| 0 <= k <= s.len() && utf8_len(#[trigger] s.take(k)) == b {
        Some(choose|k: int| 0 <= k <= s.len() && utf8_len(#[trigger] s.take(k)) == b)
    } else {
        None
    }
}

/// The code after the first opening marker `p`, looked up in `lower`: the
/// marker's end, as a byte offset of `lower`, is where the fence is read
/// from `resp`. Where that offset is no character boundary of `resp`, no
/// code is read.
pub open spec fn block_after(resp: Seq<char>, lower: Seq<char>, p: Seq<char>) -> Option<Seq<char>> {
    match find_from_spec(lower, p, 0) {
        Some(st) => match byte_pos(resp, utf8_len(lower.take(st + p.len())) as int) {
            Some(k) => fence_body(resp, k),
            None => None,
        },
        None => None,
    }
}

/// The code block of language `lang` in `resp`, whose lowercase copy is
/// `lower`: the markers ```` ```lang ````, ```` ``` lang ```` and
/// ```` ```lang\r ```` are tried in turn.
pub open spec fn code_block(resp: Seq<char>, lower: Seq<char>, lang: Seq<char>) -> Option<Seq<char>> {
    match block_after(resp, lower, "```"@ + lang) {
        Some(c) => Some(c),
        None => match block_after(resp, lower, "``` "@ + lang) {
            Some(c) => Some(c),
            None => block_after(resp, lower, "```"@ + lang + "\r"@),
        },
    }
}

fn fence_body_of(resp: &Vec<char>, start: usize) -> (r: Option<Vec<char>>)
    requires
        start <= resp.len(),
    ensures
        r matches Some(c) ==> fence_body(resp@, start as int) == Some(c@),
        r is None ==> fence_body(resp@, start as int) is None,
{
    let after = slice_chars(resp, start, resp.len());
    assert(after@ =~= resp@.skip(start as int));
    let nl = vec!['\n'];
    assert(nl@ =~= seq!['\n']);
    let begin = match find_from(&after, &nl, 0) {
        Some(n) => n + 1,
        None => 0,
    };
    let rest = slice_chars(&after, begin, after.len());
    assert(rest@ =~= after@.skip(begin as int));
    let close_nl = chars_of("\n```");
    let close = chars_of("```");
    match find_from(&rest, &close_nl, 0) {
        Some(e) => {
            let body = slice_chars(&rest, 0, e);
            assert(body@ =~= rest@.take(e as int));
            Some(trim_chars(&body))
        },
        None => match find_from(&rest, &close, 0) {
            Some(e) => {
                let body = slice_chars(&rest, 0, e);
                assert(body@ =~= rest@.take(e as int));
                Some(trim_chars(&body))
            },
            None => None,
        },
    }
}

proof fn lemma_prefix_len_increases(s: Seq<char>, i: int, j: int)
    requires
        0 <= i < j <= s.len(),
    ensures
        utf8_len(s.take(i)) < utf8_len(s.take(j)),
{
    lemma_utf8_len_prefix(s.take(j), i);
    assert(s.take(j).take(i) =~= s.take(i));
}

fn prefix_bytes(s: &Vec<char>, k: usize) -> (r: usize)
    requires
        k <= s.len(),
    ensures
        r == utf8_len(s@.take(k as int)),
{
    let p = slice_chars(s, 0, k);
    assert(p@ =~= s@.take(k as int));
    byte_len(string_from_chars(p.as_slice()).as_str())
}

fn char_at_byte(s: &Vec<char>, b: usize) -> (r: Option<usize>)
    ensures
        match r {
            Some(k) => byte_pos(s@, b as int) == Some(k as int) && k <= s.len(),
            None => byte_pos(s@, b as int) is None,
        },
{
    let k = prefix_within(s, b);
    let used = prefix_bytes(s, k);
    if used == b {
        proof {
            let c = choose|j: int| 0 <= j <= s@.len() && utf8_len(#[trigger] s@.take(j)) == b as int;
            if c < k {
                lemma_prefix_len_increases(s@, c, k as int);
            } else if c > k {
                lemma_prefix_len_increases(s@, k as int, c);
            }
        }
        Some(k)
    } else {
        proof {
            assert forall|j: int| 0 <= j <= s@.len() implies utf8_len(#[trigger] s@.take(j)) != b as int by {
                if j < k {
                    lemma_prefix_len_increases(s@, j, k as int);
                } else if j > k {
                    if k + 1 < j {
                        lemma_prefix_len_increases(s@, k + 1, j);
                    }
                }
            }
        }
        None
    }
}

fn block_after_of(resp: &Vec<char>, lower: &Vec<char>, p: &Vec<char>) -> (r: Option<Vec<char>>)
    ensures
        r matches Some(c) ==> block_after(resp@, lower@, p@) == Some(c@),
        r is None ==> block_after(resp@, lower@, p@) is None,
{
    match find_from(lower, p, 0) {
        Some(st) => {
            assert(crate::text::occurs_at(lower@, p@, st as int));
            let plen = p.len();
            assert(st + plen <= lower.len());
            let end = st + plen;
            let b = prefix_bytes(lower, end);
            match char_at_byte(resp, b) {
                Some(k) => fence_body_of(resp, k),
                None => None,
            }
        },
        None => None,
    }
}

/// The code block of language `lang` in `resp`, found through `lower`, a
/// copy of `resp` of the same length (its lowercase form).
pub fn code_block_in(resp: &str, lower: &str, lang: &str) -> (r: Option<String>)
    ensures
        r matches Some(c) ==> code_block(resp@, lower@, lang@) == Some(c@),
        r is None ==> code_block(resp@, lower@, lang@) is None,
{
    let rc = chars_of(resp);
    let lc = chars_of(lower);
    let p1 = chars_of(concat("```", lang).as_str());
    match block_after_of(&rc, &lc, &p1) {
        Some(c) => return Some(string_from_chars(c.as_slice())),
        None => {},
    }
    let p2 = chars_of(concat("``` ", lang).as_str());
    match block_after_of(&rc, &lc, &p2) {
        Some(c) => return Some(string_from_chars(c.as_slice())),
        None => {},
    }
    let p3 = chars_of(concat(concat("```", lang).as_str(), "\r").as_str());
    match block_after_of(&rc, &lc, &p3) {
        Some(c) => Some(string_from_chars(c.as_slice())),
        None => None,
    }
}

/// The code block of language `lang` (compared case-insensitively) in a
/// model's reply. The marker is searched in the lowercased reply and the
/// code read from the reply at the same byte offset.
pub fn extract_code_block(response: &str, lang: &str) -> (r: Option<String>)
    ensures
        r matches Some(c) ==> code_block(response@, lowercase(response@), lowercase(lang@)) == Some(c@),
        r is None ==> code_block(response@, lowercase(response@), lowercase(lang@)) is None,
{
    let lower = to_lowercase(response);
    let lang_lower = to_lowercase(lang);
    code_block_in(response, lower.as_str(), lang_lower.as_str())
}

/// The tools a code block can be run with.
#[derive(Debug, Clone, Copy, PartialEq, Eq, Structural)]
pub enum ToolKind {
    /// A browser-control script
    Browser,
    /// Python
    Python,
    /// PowerShell or bash
    Shell,
}

/// What happened since the last action.
#[derive(Debug)]
pub enum LoopEvent {
    /// The model answered
    Reply(String),
    /// The model could not be reached; the error's message
    Failed(String),
    /// The code ran and printed this
    Output(String),
}

/// What the caller does next.
#[derive(Debug)]
pub enum LoopAction {
    /// Send this prompt to the model (with the loop's system prompt)
    Ask(String),
    /// Run this code with this tool
    Run(ToolKind, String),
    /// Stop; this is the answer
    Finish(String),
}

/// Where the loop stands.
#[derive(Debug)]
pub enum LoopPhase {
    /// Waiting for the model's plan
    Planning,
    /// Waiting for the output of a tool
    Running(ToolKind),
    /// Waiting for the model's answer to a tool's output; if it fails, this
    /// is the answer
    Following(String),
    /// Finished
    Done,
}

/// The state of one run of the loop.
#[derive(Debug)]
pub struct ToolLoop {
    /// The user's request
    pub query: String,
    /// How many tool outputs the model has answered
    pub round: u32,
    /// The model's latest reply
    pub response: String,
    pub phase: LoopPhase,
    /// What the user is shown of the work, in order
    pub progress: Vec<String>,
}

/// Most tool outputs the model is asked to answer.
pub const MAX_TOOL_ROUNDS: u32 = 3;

/// The system prompt of the loop, for the user `name` at time `time`, with
/// the recent conversation `history` when there is one.
pub open spec fn system_text(name: Seq<char>, time: Seq<char>, history: Seq<char>) -> Seq<char> {
    let context = if history.len() == 0 {
        Seq::empty()
    } else {
        "\n**最近的对话上下文**:\n"@ + history
            + "\n请基于以上上下文回答。如果用户提到\"上文\"、\"刚才\"、\"之前\"等，请引用上下文中的内容。\n"@
    };
    "# 角色: TAIS 自进化 AI Agent\n你有完整的执行权限: 代码运行、文件读写、浏览器控制、系统操作。\n永远不要说\"做不到\"——用工具探测，用结果说话。用中文回复。\n\n## 行动原则\n- 探测优先: 失败时先收集信息(日志/状态)，关键发现记入工作记忆，再决定重试还是换方案\n- 失败升级: 1次→读错误理解原因，2次→探测环境，3次→深度分析后换方案或问用户\n- 禁止无信息重复: 永远不要用同样的参数重试同样的操作\n\n## 工具\n**Python 代码块** ```python (已预导入以下函数):\nfile_read(path,start,count,keyword), file_write(path,content,mode)\nfile_patch(path,old,new), ask_user(question,candidates)\nHTTP: urllib.request (标准库)\n\n**浏览器操控** ```browser:\nnew_tab(url), page_info(), capture_screenshot()\nclick_at_xy(x,y), js(script), http_get(url), wait_for_load()\n\n用户: "@
        + name + " | UTC: "@ + time + context + "\n⚠️ 代码必须在 ```块中，否则不执行。先给计划再执行。"@
}

/// The system prompt of the loop.
pub fn system_prompt(name: &str, time: &str, history: &str) -> (r: String)
    ensures
        r@ == system_text(name@, time@, history@),
{
    let ghost context = if history@.len() == 0 {
        Seq::<char>::empty()
    } else {
        "\n**最近的对话上下文**:\n"@ + history@
            + "\n请基于以上上下文回答。如果用户提到\"上文\"、\"刚才\"、\"之前\"等，请引用上下文中的内容。\n"@
    };
    let mut s = owned("# 角色: TAIS 自进化 AI Agent\n你有完整的执行权限: 代码运行、文件读写、浏览器控制、系统操作。\n永远不要说\"做不到\"——用工具探测，用结果说话。用中文回复。\n\n## 行动原则\n- 探测优先: 失败时先收集信息(日志/状态)，关键发现记入工作记忆，再决定重试还是换方案\n- 失败升级: 1次→读错误理解原因，2次→探测环境，3次→深度分析后换方案或问用户\n- 禁止无信息重复: 永远不要用同样的参数重试同样的操作\n\n## 工具\n**Python 代码块** ```python (已预导入以下函数):\nfile_read(path,start,count,keyword), file_write(path,content,mode)\nfile_patch(path,old,new), ask_user(question,candidates)\nHTTP: urllib.request (标准库)\n\n**浏览器操控** ```browser:\nnew_tab(url), page_info(), capture_screenshot()\nclick_at_xy(x,y), js(script), http_get(url), wait_for_load()\n\n用户: ");
    push_str(&mut s, name);
    push_str(&mut s, " | UTC: ");
    push_str(&mut s, time);
    let ghost before = s@;
    if chars_of(history).len() > 0 {
        push_str(&mut s, "\n**最近的对话上下文**:\n");
        push_str(&mut s, history);
        push_str(&mut s, "\n请基于以上上下文回答。如果用户提到\"上文\"、\"刚才\"、\"之前\"等，请引用上下文中的内容。\n");
    }
    assert(s@ =~= before + context);
    push_str(&mut s, "\n⚠️ 代码必须在 ```块中，否则不执行。先给计划再执行。");
    s
}

/// The first prompt: a plan, then code.
pub open spec fn plan_text(query: Seq<char>) -> Seq<char> {
    "用户需求: "@ + query
        + "\n\n请先给出一个简短的执行计划（3-5步），然后再编写代码。计划格式:\n📋 计划:\n1. xxx\n2. xxx\n然后写代码。"@
}

/// The plan shown to the user: the reply before its first fence, trimmed,
/// when that is not empty.
pub open spec fn plan_line(reply: Seq<char>) -> Option<Seq<char>> {
    match find_from_spec(reply, "```"@, 0) {
        Some(e) => if trim(reply.take(e)).len() > 0 {
            Some(trim(reply.take(e)))
        } else {
            None
        },
        None => None,
    }
}

/// The block of language `lang` (given in lowercase) in a reply.
pub open spec fn block_of(reply: Seq<char>, lang: Seq<char>) -> Option<Seq<char>> {
    code_block(reply, lowercase(reply), lang)
}

/// The code a reply asks to run, and with which tool: a browser script
/// first, then Python, then PowerShell, then bash.
pub open spec fn next_code(reply: Seq<char>) -> Option<(ToolKind, Seq<char>)> {
    match block_of(reply, "browser"@) {
        Some(c) => Some((ToolKind::Browser, c)),
        None => match block_of(reply, "python"@) {
            Some(c) => Some((ToolKind::Python, c)),
            None => match block_of(reply, "powershell"@) {
                Some(c) => Some((ToolKind::Shell, c)),
                None => match block_of(reply, "bash"@) {
                    Some(c) => Some((ToolKind::Shell, c)),
                    None => None,
                },
            },
        },
    }
}

/// The code to run after a reply when `round` tool outputs have been
/// answered: none once the rounds are used up.
pub open spec fn to_run(round: u32, reply: Seq<char>) -> Option<(ToolKind, Seq<char>)> {
    if round < MAX_TOOL_ROUNDS {
        next_code(reply)
    } else {
        None
    }
}

/// Where the loop goes once the model has replied `reply` after `round`
/// answered tool outputs, the user having been shown `base`: the reply's
/// code is run and shown, or the reply is the answer.
pub open spec fn settled(
    phase: PhaseView,
    progress: Seq<Seq<char>>,
    a: ActionView,
    base: Seq<Seq<char>>,
    round: u32,
    reply: Seq<char>,
) -> bool {
    match to_run(round, reply) {
        Some(kc) => {
            &&& a == ActionView::Run(kc.0, kc.1)
            &&& phase == PhaseView::Running(kc.0)
            &&& progress == base.push(code_line(kc.0, kc.1))
        },
        None => {
            &&& a == ActionView::Finish(reply)
            &&& phase == PhaseView::Done
            &&& progress == base
        },
    }
}

/// What the user is shown before code runs.
pub open spec fn code_line(k: ToolKind, code: Seq<char>) -> Seq<char> {
    match k {
        ToolKind::Browser => "🌐 操控浏览器:\n```python\n"@ + (if utf8_len(code) > 300 {
            truncated(code, 300) + "...("@ + dec(lines(code).len()) + " 行)"@
        } else {
            code
        }) + "\n```"@,
        ToolKind::Python => "⚡ 执行代码 ("@ + dec(lines(code).len()) + " 行):\n```python\n"@ + clip_bytes(code, 200)
            + "\n```"@,
        ToolKind::Shell => "⚡ 执行脚本:\n```\n"@ + truncated(code, 200) + "\n```"@,
    }
}

/// What the user is shown of a tool's output.
pub open spec fn output_line(k: ToolKind, out: Seq<char>) -> Seq<char> {
    match k {
        ToolKind::Browser => "🌐 浏览器输出:\n```\n"@ + clip_bytes(out, 500) + "\n```"@,
        ToolKind::Python => "📤 执行结果:\n```\n"@ + clip_bytes(out, 500) + "\n```"@,
        ToolKind::Shell => "📤 脚本输出:\n```\n"@ + clip_bytes(out, 500) + "\n```"@,
    }
}

/// The prompt that hands a tool's output back to the model.
pub open spec fn followup_text(k: ToolKind, out: Seq<char>, query: Seq<char>) -> Seq<char> {
    match k {
        ToolKind::Browser => "浏览器操作结果:\n[Browser Output]\n"@ + out
            + "\n[/Browser Output]\n\n继续执行或总结结果回答用户: 「"@ + query + "」"@,
        ToolKind::Python => "代码执行结果:\n[Code Output]\n"@ + out + "\n[/Code Output]\n\n继续执行或总结回答用户: 「"@
            + query + "」"@,
        ToolKind::Shell => "脚本执行结果:\n"@ + out + "\n\n继续或总结回答: 「"@ + query + "」"@,
    }
}

/// The answer when the model cannot take up a tool's output.
pub open spec fn fallback_text(k: ToolKind, out: Seq<char>) -> Seq<char> {
    match k {
        ToolKind::Browser => "浏览器操作结果:\n"@ + out,
        ToolKind::Python => "代码执行结果:\n"@ + out,
        ToolKind::Shell => "脚本输出:\n"@ + out,
    }
}

/// The answer when the model cannot be reached for a plan.
pub open spec fn plan_failure_text(err: Seq<char>) -> Seq<char> {
    "❌ LLM 调用失败: "@ + err
}

fn clipped(s: &str, n: usize) -> (r: String)
    ensures
        r@ == clip_bytes(s@, n as int),
{
    let cs = chars_of(s);
    let c = clip(&cs, n);
    string_from_chars(c.as_slice())
}

fn line_count(s: &str) -> (r: String)
    ensures
        r@ == dec(lines(s@).len()),
{
    let cs = chars_of(s);
    let ls = split_lines(&cs);
    assert(ls@.map_values(|w: Vec<char>| w@).len() == ls@.len());
    decimal(ls.len() as u64)
}

fn code_line_of(k: ToolKind, code: &str) -> (r: String)
    ensures
        r@ == code_line(k, code@),
{
    match k {
        ToolKind::Browser => {
            let mut s = owned("🌐 操控浏览器:\n```python\n");
            let ghost head = s@;
            if byte_len(code) > 300 {
                push_str(&mut s, safe_truncate(code, 300).as_str());
                push_str(&mut s, "...(");
                push_str(&mut s, line_count(code).as_str());
                push_str(&mut s, " 行)");
                assert(s@ =~= head + (truncated(code@, 300) + "...("@ + dec(lines(code@).len()) + " 行)"@));
            } else {
                push_str(&mut s, code);
            }
            push_str(&mut s, "\n```");
            s
        },
        ToolKind::Python => {
            let mut s = owned("⚡ 执行代码 (");
            push_str(&mut s, line_count(code).as_str());
            push_str(&mut s, " 行):\n```python\n");
            push_str(&mut s, clipped(code, 200).as_str());
            push_str(&mut s, "\n```");
            s
        },
        ToolKind::Shell => {
            let mut s = owned("⚡ 执行脚本:\n```\n");
            push_str(&mut s, safe_truncate(code, 200).as_str());
            push_str(&mut s, "\n```");
            s
        },
    }
}

fn output_line_of(k: ToolKind, out: &str) -> (r: String)
    ensures
        r@ == output_line(k, out@),
{
    let mut s = match k {
        ToolKind::Browser => owned("🌐 浏览器输出:\n```\n"),
        ToolKind::Python => owned("📤 执行结果:\n```\n"),
        ToolKind::Shell => owned("📤 脚本输出:\n```\n"),
    };
    push_str(&mut s, clipped(out, 500).as_str());
    push_str(&mut s, "\n```");
    s
}

fn followup_of(k: ToolKind, out: &str, query: &str) -> (r: String)
    ensures
        r@ == followup_text(k, out@, query@),
{
    let mut s = match k {
        ToolKind::Browser => owned("浏览器操作结果:\n[Browser Output]\n"),
        ToolKind::Python => owned("代码执行结果:\n[Code Output]\n"),
        ToolKind::Shell => owned("脚本执行结果:\n"),
    };
    push_str(&mut s, out);
    match k {
        ToolKind::Browser => push_str(&mut s, "\n[/Browser Output]\n\n继续执行或总结结果回答用户: 「"),
        ToolKind::Python => push_str(&mut s, "\n[/Code Output]\n\n继续执行或总结回答用户: 「"),
        ToolKind::Shell => push_str(&mut s, "\n\n继续或总结回答: 「"),
    }
    push_str(&mut s, query);
    push_str(&mut s, "」");
    s
}

fn fallback_of(k: ToolKind, out: &str) -> (r: String)
    ensures
        r@ == fallback_text(k, out@),
{
    match k {
        ToolKind::Browser => concat("浏览器操作结果:\n", out),
        ToolKind::Python => concat("代码执行结果:\n", out),
        ToolKind::Shell => concat("脚本输出:\n", out),
    }
}

/// The code a reply asks to run, with its tool.
pub fn find_next_code(reply: &str) -> (r: Option<(ToolKind, String)>)
    ensures
        r matches Some((k, c)) ==> next_code(reply@) == Some((k, c@)),
        r is None ==> next_code(reply@) is None,
{
    let lower = to_lowercase(reply);
    match code_block_in(reply, lower.as_str(), "browser") {
        Some(c) => return Some((ToolKind::Browser, c)),
        None => {},
    }
    match code_block_in(reply, lower.as_str(), "python") {
        Some(c) => return Some((ToolKind::Python, c)),
        None => {},
    }
    match code_block_in(reply, lower.as_str(), "powershell") {
        Some(c) => return Some((ToolKind::Shell, c)),
        None => {},
    }
    match code_block_in(reply, lower.as_str(), "bash") {
        Some(c) => Some((ToolKind::Shell, c)),
        None => None,
    }
}

/// The view of a loop phase.
pub enum PhaseView {
    Planning,
    Running(ToolKind),
    Following(Seq<char>),
    Done,
}

impl View for LoopPhase {
    type V = PhaseView;

    open spec fn view(&self) -> PhaseView {
        match self {
            LoopPhase::Planning => PhaseView::Planning,
            LoopPhase::Running(k) => PhaseView::Running(*k),
            LoopPhase::Following(f) => PhaseView::Following(f@),
            LoopPhase::Done => PhaseView::Done,
        }
    }
}

/// The view of an action.
pub enum ActionView {
    Ask(Seq<char>),
    Run(ToolKind, Seq<char>),
    Finish(Seq<char>),
}

impl View for LoopAction {
    type V = ActionView;

    open spec fn view(&self) -> ActionView {
        match self {
            LoopAction::Ask(p) => ActionView::Ask(p@),
            LoopAction::Run(k, c) => ActionView::Run(*k, c@),
            LoopAction::Finish(a) => ActionView::Finish(a@),
        }
    }
}

impl ToolLoop {
    /// Rounds stay within the limit, and a tool is only run, or its output
    /// only answered, while a round is left.
    pub open spec fn wf(&self) -> bool {
        &&& self.round <= MAX_TOOL_ROUNDS
        &&& (self.phase@ is Running || self.phase@ is Following) ==> self.round < MAX_TOOL_ROUNDS
    }

    /// How many more times the loop may still run code.
    pub open spec fn runs_left(&self) -> nat {
        match self.phase@ {
            PhaseView::Planning => (MAX_TOOL_ROUNDS - self.round) as nat,
            PhaseView::Running(_) => (MAX_TOOL_ROUNDS - self.round - 1) as nat,
            PhaseView::Following(_) => (MAX_TOOL_ROUNDS - self.round - 1) as nat,
            PhaseView::Done => 0,
        }
    }

    /// How many more times the loop may still ask the model.
    pub open spec fn asks_left(&self) -> nat {
        match self.phase@ {
            PhaseView::Planning => (MAX_TOOL_ROUNDS - self.round) as nat,
            PhaseView::Running(_) => (MAX_TOOL_ROUNDS - self.round) as nat,
            PhaseView::Following(_) => (MAX_TOOL_ROUNDS - self.round - 1) as nat,
            PhaseView::Done => 0,
        }
    }

    /// Whether `ev` is what the loop is waiting for: the model's reply (or
    /// failure) while planning or following up, a tool's output while a
    /// tool runs, nothing once done.
    pub open spec fn awaits(&self, ev: &LoopEvent) -> bool {
        match self.phase@ {
            PhaseView::Planning => ev is Reply || ev is Failed,
            PhaseView::Following(_) => ev is Reply || ev is Failed,
            PhaseView::Running(_) => ev is Output,
            PhaseView::Done => false,
        }
    }

    /// A new run for `query`: the user is told a plan is coming and the
    /// model is asked for one.
    pub fn start(query: &str) -> (r: (ToolLoop, LoopAction))
        ensures
            r.0.query@ == query@,
            r.0.round == 0,
            r.0.response@ == Seq::<char>::empty(),
            r.0.phase@ == PhaseView::Planning,
            r.0.wf(),
            r.0.runs_left() == MAX_TOOL_ROUNDS,
            r.0.asks_left() == MAX_TOOL_ROUNDS,
            views(r.0.progress@) == seq!["📋 **任务规划**:"@],
            r.1@ == ActionView::Ask(plan_text(query@)),
    {
        let mut progress: Vec<String> = Vec::new();
        progress.push(owned("📋 **任务规划**:"));
        assert(views(progress@) =~= seq!["📋 **任务规划**:"@]);
        let prompt = concat(
            concat("用户需求: ", query).as_str(),
            "\n\n请先给出一个简短的执行计划（3-5步），然后再编写代码。计划格式:\n📋 计划:\n1. xxx\n2. xxx\n然后写代码。",
        );
        let l = ToolLoop { query: owned(query), round: 0, response: String::new(), phase: LoopPhase::Planning, progress };
        (l, LoopAction::Ask(prompt))
    }

    /// After a reply: run the code it holds, while rounds are left; else
    /// finish with it.
    fn decide(&mut self) -> (a: LoopAction)
        requires
            old(self).round <= MAX_TOOL_ROUNDS,
        ensures
            final(self).query == old(self).query,
            final(self).round == old(self).round,
            final(self).response == old(self).response,
            settled(
                final(self).phase@,
                views(final(self).progress@),
                a@,
                views(old(self).progress@),
                old(self).round,
                old(self).response@,
            ),
    {
        if self.round < MAX_TOOL_ROUNDS {
            match find_next_code(self.response.as_str()) {
                Some((k, c)) => {
                    let line = code_line_of(k, c.as_str());
                    let ghost before = views(self.progress@);
                    self.progress.push(line);
                    assert(views(self.progress@) =~= before.push(code_line(k, c@)));
                    self.phase = LoopPhase::Running(k);
                    return LoopAction::Run(k, c);
                },
                None => {},
            }
        }
        self.phase = LoopPhase::Done;
        LoopAction::Finish(self.response.clone())
    }

    /// Takes in what happened and says what to do next.
    ///
    /// - The plan arrives: the text before its first fence, trimmed, is
    ///   shown when not empty; then the reply's code runs (a browser script,
    ///   else Python, else PowerShell, else bash), or the reply is the answer.
    /// - The model fails on the plan: the answer reports the failure.
    /// - A tool's output arrives: it is shown (clipped to 500 bytes) and
    ///   handed back to the model.
    /// - The model answers an output: one more round is counted, and its
    ///   reply is handled as the plan's was, while fewer than three rounds
    ///   have passed; after the third the reply is the answer.
    /// - The model fails on an output: the output itself is the answer.
    pub fn step(&mut self, ev: LoopEvent) -> (a: LoopAction)
        requires
            old(self).wf(),
            old(self).awaits(&ev),
        ensures
            final(self).wf(),
            final(self).query == old(self).query,
            final(self).runs_left() + (if a@ is Run { 1int } else { 0int }) <= old(self).runs_left(),
            final(self).asks_left() + (if a@ is Ask { 1int } else { 0int }) <= old(self).asks_left(),
            match (old(self).phase@, ev) {
                (PhaseView::Planning, LoopEvent::Reply(r)) => {
                    &&& final(self).response@ == r@
                    &&& final(self).round == old(self).round
                    &&& settled(
                        final(self).phase@,
                        views(final(self).progress@),
                        a@,
                        match plan_line(r@) {
                            Some(p) => views(old(self).progress@).push(p),
                            None => views(old(self).progress@),
                        },
                        old(self).round,
                        r@,
                    )
                },
                (PhaseView::Following(_), LoopEvent::Reply(r)) => {
                    &&& final(self).response@ == r@
                    &&& final(self).round == old(self).round + 1
                    &&& settled(
                        final(self).phase@,
                        views(final(self).progress@),
                        a@,
                        views(old(self).progress@),
                        (old(self).round + 1) as u32,
                        r@,
                    )
                },
                (PhaseView::Planning, LoopEvent::Failed(e)) => {
                    &&& a@ == ActionView::Finish(plan_failure_text(e@))
                    &&& final(self).phase@ == PhaseView::Done
                    &&& final(self).round == old(self).round
                    &&& final(self).response == old(self).response
                    &&& views(final(self).progress@) == views(old(self).progress@)
                },
                (PhaseView::Following(fb), LoopEvent::Failed(_)) => {
                    &&& a@ == ActionView::Finish(fb)
                    &&& final(self).phase@ == PhaseView::Done
                    &&& final(self).round == old(self).round
                    &&& final(self).response == old(self).response
                    &&& views(final(self).progress@) == views(old(self).progress@)
                },
                (PhaseView::Running(k), LoopEvent::Output(o)) => {
                    &&& a@ == ActionView::Ask(followup_text(k, o@, old(self).query@))
                    &&& final(self).phase@ == PhaseView::Following(fallback_text(k, o@))
                    &&& final(self).round == old(self).round
                    &&& final(self).response == old(self).response
                    &&& views(final(self).progress@) == views(old(self).progress@).push(output_line(k, o@))
                },
                _ => false,
            },
    {
        let ghost before = views(self.progress@);
        match ev {
            LoopEvent::Reply(r) => {
                let following = match self.phase {
                    LoopPhase::Following(_) => true,
                    _ => false,
                };
                if following {
                    self.round = self.round + 1;
                } else {
                    let rc = chars_of(r.as_str());
                    let fence = chars_of("```");
                    match find_from(&rc, &fence, 0) {
                        Some(e) => {
                            let head = slice_chars(&rc, 0, e);
                            assert(head@ =~= r@.take(e as int));
                            let p = trim_chars(&head);
                            if p.len() > 0 {
                                self.progress.push(string_from_chars(p.as_slice()));
                                assert(views(self.progress@) =~= before.push(p@));
                            }
                        },
                        None => {},
                    }
                }
                self.response = r;
                self.decide()
            },
            LoopEvent::Failed(e) => {
                let following = match &self.phase {
                    LoopPhase::Following(fb) => Some(fb.clone()),
                    _ => None,
                };
                self.phase = LoopPhase::Done;
                match following {
                    Some(fb) => LoopAction::Finish(fb),
                    None => LoopAction::Finish(concat("❌ LLM 调用失败: ", e.as_str())),
                }
            },
            LoopEvent::Output(o) => {
                let k = match self.phase {
                    LoopPhase::Running(k) => k,
                    _ => ToolKind::Shell,
                };
                self.progress.push(output_line_of(k, o.as_str()));
                assert(views(self.progress@) =~= before.push(output_line(k, o@)));
                self.phase = LoopPhase::Following(fallback_of(k, o.as_str()));
                LoopAction::Ask(followup_of(k, o.as_str(), self.query.as_str()))
            },
        }
    }
}

/// How many of `acts` run code.
pub open spec fn count_runs(acts: Seq<ActionView>) -> nat
    decreases acts.len(),
{
    if acts.len() == 0 {
        0
    } else {
        count_runs(acts.drop_last()) + if acts.last() is Run {
            1nat
        } else {
            0nat
        }
    }
}

/// How many of `acts` ask the model.
pub open spec fn count_asks(acts: Seq<ActionView>) -> nat
    decreases acts.len(),
{
    if acts.len() == 0 {
        0
    } else {
        count_asks(acts.drop_last()) + if acts.last() is Ask {
            1nat
        } else {
            0nat
        }
    }
}

/// Over a whole run of the tool loop, code is run at most three times and
/// the model is asked at most three times after the plan: `loops` are the
/// states from the one `start` gives onwards, and `acts[i]` is what the
/// step from `loops[i]` to `loops[i + 1]` returned, so that each step used
/// up its budgets as `step` ensures.
pub proof fn law_run_budget(loops: Seq<ToolLoop>, acts: Seq<ActionView>)
    requires
        loops.len() == acts.len() + 1,
        loops[0].runs_left() == MAX_TOOL_ROUNDS,
        loops[0].asks_left() == MAX_TOOL_ROUNDS,
        forall|i: int|
            0 <= i < acts.len() ==> loops[i + 1].runs_left() + (if (#[trigger] acts[i]) is Run {
                1int
            } else {
                0int
            }) <= loops[i].runs_left() && loops[i + 1].asks_left() + (if acts[i] is Ask {
                1int
            } else {
                0int
            }) <= loops[i].asks_left(),
    ensures
        count_runs(acts) <= MAX_TOOL_ROUNDS,
        count_asks(acts) <= MAX_TOOL_ROUNDS,
{
    lemma_budget_prefix(loops, acts, acts.len() as int);
    assert(acts.take(acts.len() as int) =~= acts);
}

proof fn lemma_budget_prefix(loops: Seq<ToolLoop>, acts: Seq<ActionView>, k: int)
    requires
        loops.len() == acts.len() + 1,
        0 <= k <= acts.len(),
        loops[0].runs_left() == MAX_TOOL_ROUNDS,
        loops[0].asks_left() == MAX_TOOL_ROUNDS,
        forall|i: int|
            0 <= i < acts.len() ==> loops[i + 1].runs_left() + (if (#[trigger] acts[i]) is Run {
                1int
            } else {
                0int
            }) <= loops[i].runs_left() && loops[i + 1].asks_left() + (if acts[i] is Ask {
                1int
            } else {
                0int
            }) <= loops[i].asks_left(),
    ensures
        count_runs(acts.take(k)) + loops[k].runs_left() <= MAX_TOOL_ROUNDS,
        count_asks(acts.take(k)) + loops[k].asks_left() <= MAX_TOOL_ROUNDS,
    decreases k,
{
    if k > 0 {
        lemma_budget_prefix(loops, acts, k - 1);
        assert(acts.take(k).drop_last() =~= acts.take(k - 1));
        assert(acts.take(k).last() == acts[k - 1]);
    } else {
        assert(acts.take(0) =~= Seq::<ActionView>::empty());
    }
}

} // verus!
