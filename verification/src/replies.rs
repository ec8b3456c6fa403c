//! The replies of command mode: each command's answer, built from the
//! values the caller gathered (the session, the agent's counters, the
//! configured models, the stored sessions).

use vstd::prelude::*;
use crate::agent::LoopState;
use crate::goal::GeneProfile;
use crate::hot_memory::{add_outcome, read_spec, remove_outcome, HotMemory};
use crate::llm::{ConfigView, LlmConfig};
use crate::routing::{safe_truncate, truncated, SessionMode};
use crate::text::{
    byte_len, chars_of, chars_within, concat, contains, dec, decimal, owned, prefix_within, push_str, slice_chars,
    starts_with, str_contains, str_eq, str_starts_with, string_from_chars, utf8_len,
};
use crate::user::UserLlmConfig;

verus! {

/// Cutting `s` after `n` bytes lands on a character boundary, or `s` has no
/// more than `n` bytes: `&s[..n]` (or the whole of `s`) can be taken.
pub open spec fn cuts_at(s: Seq<char>, n: int) -> bool {
    utf8_len(s) <= n || utf8_len(s.take(chars_within(s, n) as int)) == n
}

/// Whether `s` can be cut after `n` bytes (or is no longer than that).
pub fn cuts_cleanly(s: &str, n: usize) -> (r: bool)
    ensures
        r == cuts_at(s@, n as int),
{
    if byte_len(s) <= n {
        return true;
    }
    let cs = chars_of(s);
    let k = prefix_within(&cs, n);
    let p = slice_chars(&cs, 0, k);
    let ps = string_from_chars(p.as_slice());
    assert(ps@ == s@.take(chars_within(s@, n as int) as int));
    byte_len(ps.as_str()) == n
}

/// The first `n` bytes of `s` (all of it when shorter); the cut must fall
/// on a character boundary.
pub fn short_id(s: &str, n: usize) -> (r: String)
    requires
        cuts_at(s@, n as int),
    ensures
        r@ == truncated(s@, n as int),
{
    safe_truncate(s, n)
}

/// How a mode is named in replies: command mode as such, any other as
/// learning mode.
pub open spec fn mode_text(m: SessionMode) -> Seq<char> {
    if m == SessionMode::Command {
        "命令"@
    } else {
        "学习"@
    }
}

/// How a mode is named in replies.
pub fn mode_label(m: SessionMode) -> (r: &'static str)
    ensures
        r@ == mode_text(m),
{
    match m {
        SessionMode::Command => "命令",
        _ => "学习",
    }
}

/// The text a `bool` prints as.
pub open spec fn bool_text(b: bool) -> Seq<char> {
    if b {
        "true"@
    } else {
        "false"@
    }
}

fn bool_str(b: bool) -> (r: &'static str)
    ensures
        r@ == bool_text(b),
{
    if b {
        "true"
    } else {
        "false"
    }
}

/// The command list, for user `name` in session `sid`.
pub open spec fn help_text(name: Seq<char>, sid: Seq<char>, personality: Seq<char>, mode: SessionMode) -> Seq<char> {
    "🔧 **TAIS 命令列表**\n\n**💬 通用模式**（推荐日常使用）\n├─ `通用模式` / `聊天模式` — 自然对话，不追问不限指令\n├─ 适合日常提问、闲聊、时间查询等\n\n**📚 教学模式**（引导式学习）\n├─ `学习模式` / `教学模式` — 切换到苏格拉底追问引导\n├─ `concept <概念>` — 设定当前学习主题\n\n**⚙️ 命令模式**（系统控制）\n├─ `命令模式` / `管理模式` — 切换到命令模式（当前模式）\n├─ `help` — 显示此帮助\n├─ `status` — 查看系统运行状态\n├─ `habits` — 查看 7 个习惯胶囊状态\n├─ `gene` — 查看当前基因人格\n├─ `gene <scholar|mentor|hacker>` — 设置 AI 人格\n├─ `skills` — 列出 35 个可用技能\n├─ `tools` — 列出 MCP 工具\n├─ `memory` ✧ `sessions` — 记忆与会话\n├─ `evolution` — 查看进化引擎状态\n├─ `crystallize <name> <desc>` — 结晶当前技能为 SOP\n├─ `checkpoint <内容>` — 设置工作记忆\n├─ `clear` — 清除工作记忆\n├─ `llm` — LLM 状态\n├─ `llm list` — 列出所有 LLM 配置\n├─ `llm add <名> <provider> <模型> <url> <key>` — 添加 LLM\n├─ `llm del <id>` — 删除单个 LLM\n├─ `llm clear` — 删除所有系统 LLM\n├─ `llm set default <名>` — 设为默认 LLM\n├─ `whoami` — 查看当前用户\n├─ `passwd <新密码>` — 修改密码\n├─ `set grade <年级>` — 设置年级 (如: 高一, 初二)\n├─ `set style <风格>` — 设置学习风格 (visual/verbal/hands-on)\n└─ `学习模式` ✧ `通用模式` — 切换模式\n\n👤 用户: "@ + name + "\n📝 会话: "@ + sid + "\n🧬 基因: "@ + personality + "\n🔄 模式: "@ + mode_text(mode)
}

/// The command list.
pub fn help_reply(name: &str, sid: &str, personality: &str, mode: SessionMode) -> (r: String)
    ensures
        r@ == help_text(name@, sid@, personality@, mode),
{
    let mut s = owned("🔧 **TAIS 命令列表**\n\n**💬 通用模式**（推荐日常使用）\n├─ `通用模式` / `聊天模式` — 自然对话，不追问不限指令\n├─ 适合日常提问、闲聊、时间查询等\n\n**📚 教学模式**（引导式学习）\n├─ `学习模式` / `教学模式` — 切换到苏格拉底追问引导\n├─ `concept <概念>` — 设定当前学习主题\n\n**⚙️ 命令模式**（系统控制）\n├─ `命令模式` / `管理模式` — 切换到命令模式（当前模式）\n├─ `help` — 显示此帮助\n├─ `status` — 查看系统运行状态\n├─ `habits` — 查看 7 个习惯胶囊状态\n├─ `gene` — 查看当前基因人格\n├─ `gene <scholar|mentor|hacker>` — 设置 AI 人格\n├─ `skills` — 列出 35 个可用技能\n├─ `tools` — 列出 MCP 工具\n├─ `memory` ✧ `sessions` — 记忆与会话\n├─ `evolution` — 查看进化引擎状态\n├─ `crystallize <name> <desc>` — 结晶当前技能为 SOP\n├─ `checkpoint <内容>` — 设置工作记忆\n├─ `clear` — 清除工作记忆\n├─ `llm` — LLM 状态\n├─ `llm list` — 列出所有 LLM 配置\n├─ `llm add <名> <provider> <模型> <url> <key>` — 添加 LLM\n├─ `llm del <id>` — 删除单个 LLM\n├─ `llm clear` — 删除所有系统 LLM\n├─ `llm set default <名>` — 设为默认 LLM\n├─ `whoami` — 查看当前用户\n├─ `passwd <新密码>` — 修改密码\n├─ `set grade <年级>` — 设置年级 (如: 高一, 初二)\n├─ `set style <风格>` — 设置学习风格 (visual/verbal/hands-on)\n└─ `学习模式` ✧ `通用模式` — 切换模式\n\n👤 用户: ");
    push_str(&mut s, name);
    push_str(&mut s, "\n📝 会话: ");
    push_str(&mut s, sid);
    push_str(&mut s, "\n🧬 基因: ");
    push_str(&mut s, personality);
    push_str(&mut s, "\n🔄 模式: ");
    push_str(&mut s, mode_label(mode));
    s
}

/// The system status: the session, the agent's round counters and the
/// working memory.
pub open spec fn status_text(
    name: Seq<char>,
    sid: Seq<char>,
    personality: Seq<char>,
    mode: SessionMode,
    st: LoopState,
    cp: Seq<char>,
) -> Seq<char> {
    "📊 **系统状态**\n用户: "@ + name + "\n会话: "@ + sid + "\n基因: "@ + personality + "\n模式: "@ + mode_text(mode)
        + "\n总轮次: "@ + dec(st.total_rounds as nat) + "\n成功: "@ + dec(st.successful_rounds as nat) + " / 失败: "@
        + dec(st.failed_rounds as nat) + "\n快速路径: "@ + dec(st.fast_path_rounds as nat) + "\n部署策略: "@
        + dec(st.deployed_strategies as nat) + "\n工作记忆: "@ + cp
}

/// The system status.
pub fn status_reply(name: &str, sid: &str, personality: &str, mode: SessionMode, st: &LoopState, cp: &str) -> (r: String)
    ensures
        r@ == status_text(name@, sid@, personality@, mode, *st, cp@),
{
    let mut s = owned("📊 **系统状态**\n用户: ");
    push_str(&mut s, name);
    push_str(&mut s, "\n会话: ");
    push_str(&mut s, sid);
    push_str(&mut s, "\n基因: ");
    push_str(&mut s, personality);
    push_str(&mut s, "\n模式: ");
    push_str(&mut s, mode_label(mode));
    push_str(&mut s, "\n总轮次: ");
    push_str(&mut s, decimal(st.total_rounds).as_str());
    push_str(&mut s, "\n成功: ");
    push_str(&mut s, decimal(st.successful_rounds).as_str());
    push_str(&mut s, " / 失败: ");
    push_str(&mut s, decimal(st.failed_rounds).as_str());
    push_str(&mut s, "\n快速路径: ");
    push_str(&mut s, decimal(st.fast_path_rounds).as_str());
    push_str(&mut s, "\n部署策略: ");
    push_str(&mut s, decimal(st.deployed_strategies as u64).as_str());
    push_str(&mut s, "\n工作记忆: ");
    push_str(&mut s, cp);
    s
}

/// The gene profile in use.
pub fn gene_reply(g: &GeneProfile) -> (r: String)
    ensures
        r@ == "🧬 **当前基因人格**: "@ + g.personality@ + "\n思维: "@ + g.thinking@ + "\n风控: "@ + g.risk_level@
            + "\n行为: "@ + g.behavior@
            + "\n\n可用人格: scholar(学者) | mentor(导师) | hacker(黑客)\n切换: `gene hacker`"@,
{
    let mut s = owned("🧬 **当前基因人格**: ");
    push_str(&mut s, g.personality.as_str());
    push_str(&mut s, "\n思维: ");
    push_str(&mut s, g.thinking.as_str());
    push_str(&mut s, "\n风控: ");
    push_str(&mut s, g.risk_level.as_str());
    push_str(&mut s, "\n行为: ");
    push_str(&mut s, g.behavior.as_str());
    push_str(&mut s, "\n\n可用人格: scholar(学者) | mentor(导师) | hacker(黑客)\n切换: `gene hacker`");
    s
}

/// The answer to choosing a gene personality.
pub fn gene_set_reply(g: &str) -> (r: String)
    ensures
        r@ == "✅ 基因人格设置: **"@ + g@ + "**\n（注：当前版本基因在会话级固定，新会话生效）"@,
{
    let mut s = owned("✅ 基因人格设置: **");
    push_str(&mut s, g);
    push_str(&mut s, "**\n（注：当前版本基因在会话级固定，新会话生效）");
    s
}

/// The answer to setting the learning topic.
pub fn concept_reply(c: &str) -> (r: String)
    ensures
        r@ == "✅ 学习主题已设定: **"@ + c@ + "**\n之后的提问将围绕此概念展开。"@,
{
    let mut s = owned("✅ 学习主题已设定: **");
    push_str(&mut s, c);
    push_str(&mut s, "**\n之后的提问将围绕此概念展开。");
    s
}

/// One line per habit rule (id and name).
pub open spec fn rule_lines(rules: Seq<(Seq<char>, Seq<char>)>) -> Seq<char>
    decreases rules.len(),
{
    if rules.len() == 0 {
        Seq::empty()
    } else {
        rule_lines(rules.drop_last()) + "├─ "@ + rules.last().0 + ": "@ + rules.last().1 + "\n"@
    }
}

/// The pairs of strings, as character sequences.
pub open spec fn pair_views(v: Seq<(String, String)>) -> Seq<(Seq<char>, Seq<char>)> {
    v.map_values(|p: (String, String)| (p.0@, p.1@))
}

/// The skill capsules, with the habit rules (id, name) listed.
pub fn skills_reply(rules: &Vec<(String, String)>) -> (r: String)
    ensures
        r@ == "📦 **可用技能胶囊 (35个)**\n\n**TAIS 教学 (7)**\n├─ tais-workflow | tais-learning-analyst | tais-socratic-tutor\n├─ tais-resource-pusher | tais-skill-coach\n├─ tais-feedback-collector | tais-evolution\n\n**OO 工程 (14)**: prd-generator → code-scaffold\n**基因 (7)**: personality → heredity\n**习惯 (7)**\n"@ + rule_lines(pair_views(rules@)) + "\n💡 用 `tools` 查看 MCP 工具列表"@,
{
    let mut s = owned("📦 **可用技能胶囊 (35个)**\n\n**TAIS 教学 (7)**\n├─ tais-workflow | tais-learning-analyst | tais-socratic-tutor\n├─ tais-resource-pusher | tais-skill-coach\n├─ tais-feedback-collector | tais-evolution\n\n**OO 工程 (14)**: prd-generator → code-scaffold\n**基因 (7)**: personality → heredity\n**习惯 (7)**\n");
    let ghost head = s@;
    let ghost rs = pair_views(rules@);
    let mut i: usize = 0;
    while i < rules.len()
        invariant
            i <= rules.len(),
            rs == pair_views(rules@),
            s@ == head + rule_lines(rs.take(i as int)),
        decreases rules.len() - i,
    {
        push_str(&mut s, "├─ ");
        push_str(&mut s, rules[i].0.as_str());
        push_str(&mut s, ": ");
        push_str(&mut s, rules[i].1.as_str());
        push_str(&mut s, "\n");
        assert(rs.take(i + 1).drop_last() =~= rs.take(i as int));
        i += 1;
    }
    assert(rs.take(rules.len() as int) =~= rs);
    push_str(&mut s, "\n💡 用 `tools` 查看 MCP 工具列表");
    s
}

/// Numbered lines, one per tool (name and description), counting from 1.
pub open spec fn tool_lines(ts: Seq<(Seq<char>, Seq<char>)>) -> Seq<char>
    decreases ts.len(),
{
    if ts.len() == 0 {
        Seq::empty()
    } else {
        tool_lines(ts.drop_last()) + dec(ts.len()) + ". "@ + ts.last().0 + " — "@ + ts.last().1 + "\n"@
    }
}

/// How many entries of a listing are shown.
pub const LISTED: usize = 10;

/// The tool list: its size, the first ten tools, and how many more there are.
pub open spec fn tools_text(ts: Seq<(Seq<char>, Seq<char>)>) -> Seq<char> {
    "🔌 **MCP 工具 ("@ + dec(ts.len()) + "个)**\n\n"@ + tool_lines(ts.take(if ts.len() < 10 { ts.len() as int } else { 10 }))
        + if ts.len() > 10 {
        "... 还有 "@ + dec((ts.len() - 10) as nat) + " 个工具"@
    } else {
        Seq::empty()
    }
}

/// The tool list.
pub fn tools_reply(tools: &Vec<(String, String)>) -> (r: String)
    ensures
        r@ == tools_text(pair_views(tools@)),
{
    let ghost ts = pair_views(tools@);
    let mut s = owned("🔌 **MCP 工具 (");
    push_str(&mut s, decimal(tools.len() as u64).as_str());
    push_str(&mut s, "个)**\n\n");
    let ghost head = s@;
    let shown = if tools.len() < LISTED { tools.len() } else { LISTED };
    let mut i: usize = 0;
    while i < shown
        invariant
            i <= shown <= tools.len(),
            ts == pair_views(tools@),
            s@ == head + tool_lines(ts.take(i as int)),
        decreases shown - i,
    {
        push_str(&mut s, decimal((i + 1) as u64).as_str());
        push_str(&mut s, ". ");
        push_str(&mut s, tools[i].0.as_str());
        push_str(&mut s, " — ");
        push_str(&mut s, tools[i].1.as_str());
        push_str(&mut s, "\n");
        assert(ts.take(i + 1).drop_last() =~= ts.take(i as int));
        i += 1;
    }
    if tools.len() > LISTED {
        push_str(&mut s, "... 还有 ");
        push_str(&mut s, decimal((tools.len() - LISTED) as u64).as_str());
        push_str(&mut s, " 个工具");
    }
    s
}

/// The answer in direct mode without a configured model; the question is
/// shown cut to 200 bytes.
pub fn direct_reply(q: &str) -> (r: String)
    ensures
        r@ == "📝 **直接回答模式**\n\n你的问题: "@ + truncated(q@, 200)
            + "\n\n💡 当前 LLM 未配置，无法生成实时回答。\n配置 LLM 后（`tais.toml` 或环境变量），我会用 AI 直接回答。\n\n可配置: OpenAI / Anthropic / Ollama / DeepSeek"@,
{
    let mut s = owned("📝 **直接回答模式**\n\n你的问题: ");
    push_str(&mut s, safe_truncate(q, 200).as_str());
    push_str(&mut s, "\n\n💡 当前 LLM 未配置，无法生成实时回答。\n配置 LLM 后（`tais.toml` 或环境变量），我会用 AI 直接回答。\n\n可配置: OpenAI / Anthropic / Ollama / DeepSeek");
    s
}

/// The session memory summary.
pub fn memory_reply(count: usize, sid: &str, name: &str) -> (r: String)
    ensures
        r@ == "🧠 **会话记忆**\n活跃会话: "@ + dec(count as nat) + " 个\n当前会话: "@ + sid@ + "\n用户: "@ + name@
            + "\n\n💡 用 `sessions` 查看所有会话"@,
{
    let mut s = owned("🧠 **会话记忆**\n活跃会话: ");
    push_str(&mut s, decimal(count as u64).as_str());
    push_str(&mut s, " 个\n当前会话: ");
    push_str(&mut s, sid);
    push_str(&mut s, "\n用户: ");
    push_str(&mut s, name);
    push_str(&mut s, "\n\n💡 用 `sessions` 查看所有会话");
    s
}

/// The hot memory's facts and how to manage them.
pub fn hot_memory_reply(hm: &HotMemory) -> (r: String)
    ensures
        r@ == "🧠 **热记忆** ("@ + dec(read_spec(hm@).len()) + "/500 字符)\n\n"@ + read_spec(hm@)
            + "\n\n管理: `memory add <事实>` | `memory rm <关键词>` | `memory list`"@,
{
    let size = hm.size();
    let mut s = owned("🧠 **热记忆** (");
    push_str(&mut s, decimal(size as u64).as_str());
    push_str(&mut s, "/500 字符)\n\n");
    push_str(&mut s, hm.read().as_str());
    push_str(&mut s, "\n\n管理: `memory add <事实>` | `memory rm <关键词>` | `memory list`");
    s
}

/// Adds a fact to the hot memory and answers: the fact when it was added,
/// else the refusal and the fact.
pub fn hot_add_reply(hm: &mut HotMemory, fact: &str) -> (r: String)
    ensures
        match add_outcome(old(hm)@, fact@) {
            Ok(c) => final(hm)@ == c && r@ == "✅ 已添加: "@ + fact@,
            Err(m) => final(hm)@ == old(hm)@ && r@ == "❌ "@ + m + ": "@ + fact@,
        },
{
    match hm.add(fact) {
        Ok(()) => concat("✅ 已添加: ", fact),
        Err(e) => {
            let mut s = concat("❌ ", e.as_str());
            push_str(&mut s, ": ");
            push_str(&mut s, fact);
            s
        },
    }
}

/// Removes the hot-memory lines holding a keyword and answers: the keyword
/// when lines were removed, else the refusal.
pub fn hot_remove_reply(hm: &mut HotMemory, keyword: &str) -> (r: String)
    ensures
        match remove_outcome(old(hm)@, keyword@) {
            Ok(c) => final(hm)@ == c && r@ == "✅ 已移除包含「"@ + keyword@ + "」的条目"@,
            Err(m) => final(hm)@ == old(hm)@ && r@ == "❌ "@ + m,
        },
{
    match hm.remove(keyword) {
        Ok(()) => {
            let mut s = concat("✅ 已移除包含「", keyword);
            push_str(&mut s, "」的条目");
            s
        },
        Err(e) => concat("❌ ", e.as_str()),
    }
}

/// One line per session: its id's first eight bytes and its turn count.
pub open spec fn session_lines(ss: Seq<(Seq<char>, usize)>) -> Seq<char>
    decreases ss.len(),
{
    if ss.len() == 0 {
        Seq::empty()
    } else {
        session_lines(ss.drop_last()) + "├─ "@ + truncated(ss.last().0, 8) + "... ("@ + dec(ss.last().1 as nat)
            + " 轮)\n"@
    }
}

/// The sessions (id, turn count), as character sequences.
pub open spec fn session_views(v: Seq<(String, usize)>) -> Seq<(Seq<char>, usize)> {
    v.map_values(|p: (String, usize)| (p.0@, p.1))
}

/// The session list: its size, the first ten sessions, and how many more.
pub open spec fn sessions_text(ss: Seq<(Seq<char>, usize)>) -> Seq<char> {
    "📋 **活跃会话 ("@ + dec(ss.len()) + "个)**\n\n"@ + session_lines(ss.take(if ss.len() < 10 { ss.len() as int } else { 10 }))
        + if ss.len() > 10 {
        "... 还有 "@ + dec((ss.len() - 10) as nat) + " 个\n"@
    } else {
        Seq::empty()
    }
}

/// The session list; each listed id must cut cleanly after eight bytes.
pub fn sessions_reply(sessions: &Vec<(String, usize)>) -> (r: String)
    requires
        forall|k: int| 0 <= k < sessions@.len() && k < 10 ==> cuts_at(#[trigger] sessions@[k].0@, 8),
    ensures
        r@ == sessions_text(session_views(sessions@)),
{
    let ghost ss = session_views(sessions@);
    let mut s = owned("📋 **活跃会话 (");
    push_str(&mut s, decimal(sessions.len() as u64).as_str());
    push_str(&mut s, "个)**\n\n");
    let ghost head = s@;
    let shown = if sessions.len() < LISTED { sessions.len() } else { LISTED };
    let mut i: usize = 0;
    while i < shown
        invariant
            i <= shown <= sessions.len(),
            shown <= 10,
            ss == session_views(sessions@),
            forall|k: int| 0 <= k < sessions@.len() && k < 10 ==> cuts_at(#[trigger] sessions@[k].0@, 8),
            s@ == head + session_lines(ss.take(i as int)),
        decreases shown - i,
    {
        push_str(&mut s, "├─ ");
        push_str(&mut s, short_id(sessions[i].0.as_str(), 8).as_str());
        push_str(&mut s, "... (");
        push_str(&mut s, decimal(sessions[i].1 as u64).as_str());
        push_str(&mut s, " 轮)\n");
        assert(ss.take(i + 1).drop_last() =~= ss.take(i as int));
        i += 1;
    }
    if sessions.len() > LISTED {
        push_str(&mut s, "... 还有 ");
        push_str(&mut s, decimal((sessions.len() - LISTED) as u64).as_str());
        push_str(&mut s, " 个\n");
    }
    s
}

/// The answer to setting the working memory; the text is shown cut to 100 bytes.
pub fn checkpoint_reply(k: &str) -> (r: String)
    ensures
        r@ == "✅ 工作记忆已设置: "@ + truncated(k@, 100),
{
    let mut s = owned("✅ 工作记忆已设置: ");
    push_str(&mut s, safe_truncate(k, 100).as_str());
    s
}

/// The answer to a crystallized skill: its name, its file, and whether the
/// skill index was updated.
pub fn crystallized_reply(skill: &str, path: &str, updated: bool) -> (r: String)
    ensures
        r@ == "✅ 技能已结晶: "@ + skill@ + "\n文件: "@ + path@ + "\n索引更新: "@ + bool_text(updated),
{
    let mut s = owned("✅ 技能已结晶: ");
    push_str(&mut s, skill);
    push_str(&mut s, "\n文件: ");
    push_str(&mut s, path);
    push_str(&mut s, "\n索引更新: ");
    push_str(&mut s, bool_str(updated));
    s
}

/// The answer to removing the system models.
pub fn llm_cleared_reply(deleted: usize) -> (r: String)
    ensures
        r@ == "✅ 已删除 "@ + dec(deleted as nat) + " 个系统 LLM 配置。个人 LLM 不受影响。"@,
{
    let mut s = owned("✅ 已删除 ");
    push_str(&mut s, decimal(deleted as u64).as_str());
    push_str(&mut s, " 个系统 LLM 配置。个人 LLM 不受影响。");
    s
}

/// The views of a list of configurations.
pub open spec fn config_views(v: Seq<LlmConfig>) -> Seq<ConfigView> {
    v.map_values(|c: LlmConfig| c@)
}

/// Numbered lines, one per system model: name, provider and model, and a
/// mark on the default.
pub open spec fn status_lines(cs: Seq<ConfigView>) -> Seq<char>
    decreases cs.len(),
{
    if cs.len() == 0 {
        Seq::empty()
    } else {
        status_lines(cs.drop_last()) + status_line(cs.len(), cs.last())
    }
}

/// The status line of the `n`-th system model.
pub open spec fn status_line(n: nat, c: ConfigView) -> Seq<char> {
    dec(n) + ". "@ + c.name + " ["@ + c.provider.spec_name() + "/"@ + c.model + "]"@ + (if c.is_default {
        " ★默认"@
    } else {
        Seq::empty()
    }) + "\n"@
}

fn status_line_of(n: u64, c: &LlmConfig) -> (r: String)
    ensures
        r@ == status_line(n as nat, c@),
{
    let mut s = decimal(n);
    push_str(&mut s, ". ");
    push_str(&mut s, c.name.as_str());
    push_str(&mut s, " [");
    push_str(&mut s, c.provider.name());
    push_str(&mut s, "/");
    push_str(&mut s, c.model.as_str());
    push_str(&mut s, "]");
    if c.is_default {
        push_str(&mut s, " ★默认");
    }
    push_str(&mut s, "\n");
    s
}

/// The student's own model, if set, then the system's counts and models.
pub open spec fn llm_status_text(
    personal: Option<(Seq<char>, Seq<char>, Seq<char>)>,
    connected: u32,
    active: u32,
    total: u32,
    cs: Seq<ConfigView>,
) -> Seq<char> {
    (match personal {
        Some(p) => "🧑 **你的 LLM**: "@ + p.0 + " / "@ + p.1 + " | base: "@ + p.2 + "\n"@,
        None => "🧑 **你的 LLM**: 未配置 (在仪表盘设置)\n"@,
    }) + "\n🖥️ **系统**: "@ + dec(connected as nat) + " 已连接 / "@ + dec(active as nat) + " 活跃 / "@ + dec(total as nat)
        + " 总计\n"@ + status_lines(cs)
}

/// A student's model as the status shows it: provider, model, base URL.
pub open spec fn personal_view(p: Option<UserLlmConfig>) -> Option<(Seq<char>, Seq<char>, Seq<char>)> {
    match p {
        Some(c) => Some((c.provider@, c.model@, c.base_url@)),
        None => None,
    }
}

/// The model status.
pub fn llm_status_reply(
    personal: &Option<UserLlmConfig>,
    connected: u32,
    active: u32,
    total: u32,
    configs: &Vec<LlmConfig>,
) -> (r: String)
    ensures
        r@ == llm_status_text(personal_view(*personal), connected, active, total, config_views(configs@)),
{
    let mut s = match personal {
        Some(p) => {
            let mut s = owned("🧑 **你的 LLM**: ");
            push_str(&mut s, p.provider.as_str());
            push_str(&mut s, " / ");
            push_str(&mut s, p.model.as_str());
            push_str(&mut s, " | base: ");
            push_str(&mut s, p.base_url.as_str());
            push_str(&mut s, "\n");
            s
        },
        None => owned("🧑 **你的 LLM**: 未配置 (在仪表盘设置)\n"),
    };
    push_str(&mut s, "\n🖥️ **系统**: ");
    push_str(&mut s, decimal(connected as u64).as_str());
    push_str(&mut s, " 已连接 / ");
    push_str(&mut s, decimal(active as u64).as_str());
    push_str(&mut s, " 活跃 / ");
    push_str(&mut s, decimal(total as u64).as_str());
    push_str(&mut s, " 总计\n");
    let ghost head = s@;
    let ghost cs = config_views(configs@);
    let mut i: usize = 0;
    while i < configs.len()
        invariant
            i <= configs.len(),
            cs == config_views(configs@),
            s@ == head + status_lines(cs.take(i as int)),
        decreases configs.len() - i,
    {
        let line = status_line_of((i + 1) as u64, &configs[i]);
        push_str(&mut s, line.as_str());
        assert(cs.take(i + 1).drop_last() =~= cs.take(i as int));
        assert(cs.take(i + 1).last() == configs@[i as int]@);
        i += 1;
    }
    assert(cs.take(configs.len() as int) =~= cs);
    s
}

/// A key as the model list shows it: its first eight bytes and `...`, or
/// `***` for a key of eight bytes or fewer.
pub open spec fn key8(key: Seq<char>) -> Seq<char> {
    if utf8_len(key) > 8 {
        truncated(key, 8) + "..."@
    } else {
        "***"@
    }
}

fn key8_of(key: &str) -> (r: String)
    requires
        cuts_at(key@, 8),
    ensures
        r@ == key8(key@),
{
    if byte_len(key) > 8 {
        let mut s = safe_truncate(key, 8);
        push_str(&mut s, "...");
        s
    } else {
        owned("***")
    }
}

/// Numbered lines, one per system model, with its key shown as `key8`.
pub open spec fn list_lines(cs: Seq<ConfigView>) -> Seq<char>
    decreases cs.len(),
{
    if cs.len() == 0 {
        Seq::empty()
    } else {
        list_lines(cs.drop_last()) + list_line(cs.len(), cs.last())
    }
}

/// The list line of the `n`-th system model.
pub open spec fn list_line(n: nat, c: ConfigView) -> Seq<char> {
    dec(n) + ". `"@ + c.name + "` "@ + c.provider.spec_name() + " | model="@ + c.model + " | key="@ + key8(c.api_key)
        + "\n"@
}

fn list_line_of(n: u64, c: &LlmConfig) -> (r: String)
    requires
        cuts_at(c.api_key@, 8),
    ensures
        r@ == list_line(n as nat, c@),
{
    let mut s = decimal(n);
    push_str(&mut s, ". `");
    push_str(&mut s, c.name.as_str());
    push_str(&mut s, "` ");
    push_str(&mut s, c.provider.name());
    push_str(&mut s, " | model=");
    push_str(&mut s, c.model.as_str());
    push_str(&mut s, " | key=");
    push_str(&mut s, key8_of(c.api_key.as_str()).as_str());
    push_str(&mut s, "\n");
    s
}

/// The model list: the student's own model first, then the system's, or a
/// hint when there are none.
pub open spec fn llm_list_text(personal: Option<UserLlmConfig>, cs: Seq<ConfigView>) -> Seq<char> {
    "📋 **LLM 配置**\n\n"@ + (match personal {
        Some(p) => "🧑 **你的 LLM** (个人)\n   "@ + p.provider@ + " | model="@ + p.model@ + " | base="@ + p.base_url@
            + " | key="@ + key8(p.api_key@) + "\n\n"@,
        None => Seq::empty(),
    }) + "🖥️ **系统 LLM**:\n"@ + list_lines(cs) + if cs.len() == 0 && personal is None {
        "(空) 在 Dashboard 或个人仪表盘配置 LLM\n"@
    } else {
        Seq::empty()
    }
}

/// The model list; every key shown must cut cleanly after eight bytes.
pub fn llm_list_reply(personal: &Option<UserLlmConfig>, configs: &Vec<LlmConfig>) -> (r: String)
    requires
        personal matches Some(p) ==> cuts_at(p.api_key@, 8),
        forall|k: int| 0 <= k < configs@.len() ==> cuts_at(#[trigger] configs@[k].api_key@, 8),
    ensures
        r@ == llm_list_text(*personal, config_views(configs@)),
{
    let mut s = owned("📋 **LLM 配置**\n\n");
    match personal {
        Some(p) => {
            push_str(&mut s, "🧑 **你的 LLM** (个人)\n   ");
            push_str(&mut s, p.provider.as_str());
            push_str(&mut s, " | model=");
            push_str(&mut s, p.model.as_str());
            push_str(&mut s, " | base=");
            push_str(&mut s, p.base_url.as_str());
            push_str(&mut s, " | key=");
            push_str(&mut s, key8_of(p.api_key.as_str()).as_str());
            push_str(&mut s, "\n\n");
        },
        None => {},
    }
    push_str(&mut s, "🖥️ **系统 LLM**:\n");
    let ghost head = s@;
    let ghost cs = config_views(configs@);
    let mut i: usize = 0;
    while i < configs.len()
        invariant
            i <= configs.len(),
            cs == config_views(configs@),
            forall|k: int| 0 <= k < configs@.len() ==> cuts_at(#[trigger] configs@[k].api_key@, 8),
            s@ == head + list_lines(cs.take(i as int)),
        decreases configs.len() - i,
    {
        let line = list_line_of((i + 1) as u64, &configs[i]);
        push_str(&mut s, line.as_str());
        assert(cs.take(i + 1).drop_last() =~= cs.take(i as int));
        assert(cs.take(i + 1).last() == configs@[i as int]@);
        i += 1;
    }
    assert(cs.take(configs.len() as int) =~= cs);
    if configs.len() == 0 && personal.is_none() {
        push_str(&mut s, "(空) 在 Dashboard 或个人仪表盘配置 LLM\n");
    }
    s
}

/// The answer to a created model configuration: its name and the first
/// eight bytes of its id.
pub fn llm_added_reply(name: &str, id: &str) -> (r: String)
    requires
        utf8_len(id@) >= 8,
        cuts_at(id@, 8),
    ensures
        r@ == "✅ LLM 配置已创建: "@ + name@ + " (id="@ + truncated(id@, 8) + ")"@,
{
    let mut s = owned("✅ LLM 配置已创建: ");
    push_str(&mut s, name);
    push_str(&mut s, " (id=");
    push_str(&mut s, safe_truncate(id, 8).as_str());
    push_str(&mut s, ")");
    s
}

/// The configuration `llm set default` picks: the first whose name is
/// `target` or whose id starts with it.
pub open spec fn default_target_spec(cs: Seq<ConfigView>, target: Seq<char>) -> Option<int>
    decreases cs.len(),
{
    if cs.len() == 0 {
        None
    } else {
        match default_target_spec(cs.drop_last(), target) {
            Some(i) => Some(i),
            None => if cs.last().name == target || starts_with(cs.last().id, target) {
                Some(cs.len() - 1)
            } else {
                None
            },
        }
    }
}

/// The position of the configuration `llm set default` picks.
pub fn default_target(configs: &Vec<LlmConfig>, target: &str) -> (r: Option<usize>)
    ensures
        r matches Some(i) ==> default_target_spec(config_views(configs@), target@) == Some(i as int),
        r is None ==> default_target_spec(config_views(configs@), target@) is None,
{
    let ghost cs = config_views(configs@);
    let mut i: usize = 0;
    while i < configs.len()
        invariant
            i <= configs.len(),
            cs == config_views(configs@),
            default_target_spec(cs.take(i as int), target@) is None,
        decreases configs.len() - i,
    {
        assert(cs.take(i + 1).drop_last() =~= cs.take(i as int));
        assert(cs.take(i + 1).last() == configs@[i as int]@);
        if str_eq(configs[i].name.as_str(), target) || str_starts_with(configs[i].id.as_str(), target) {
            proof {
                lemma_default_target_prefix(cs, target@, i + 1);
            }
            return Some(i);
        }
        i += 1;
    }
    assert(cs.take(configs.len() as int) =~= cs);
    None
}

proof fn lemma_default_target_prefix(cs: Seq<ConfigView>, target: Seq<char>, n: int)
    requires
        0 < n <= cs.len(),
        default_target_spec(cs.take(n), target) is Some,
    ensures
        default_target_spec(cs, target) == default_target_spec(cs.take(n), target),
    decreases cs.len() - n,
{
    if n < cs.len() {
        assert(cs.take(n + 1).drop_last() =~= cs.take(n));
        lemma_default_target_prefix(cs, target, n + 1);
    } else {
        assert(cs.take(n) =~= cs);
    }
}

/// The answer to `whoami`: the display name (or 未知), the user id (or
/// unknown), the gene personality and the session.
pub fn whoami_reply(display_name: Option<&str>, user_id: Option<&str>, personality: &str, sid: &str) -> (r: String)
    ensures
        r@ == "👤 用户: "@ + (match display_name {
            Some(n) => n@,
            None => "未知"@,
        }) + "\n🆔 User ID: "@ + (match user_id {
            Some(u) => u@,
            None => "unknown"@,
        }) + "\n🧬 基因: "@ + personality@ + "\n🔄 模式: 命令\n📝 会话: "@ + sid@,
{
    let mut s = owned("👤 用户: ");
    match display_name {
        Some(n) => push_str(&mut s, n),
        None => push_str(&mut s, "未知"),
    }
    push_str(&mut s, "\n🆔 User ID: ");
    match user_id {
        Some(u) => push_str(&mut s, u),
        None => push_str(&mut s, "unknown"),
    }
    push_str(&mut s, "\n🧬 基因: ");
    push_str(&mut s, personality);
    push_str(&mut s, "\n🔄 模式: 命令\n📝 会话: ");
    push_str(&mut s, sid);
    s
}

/// The answer to an unrecognised command; the message is shown up to its
/// first 80 bytes, which must end on a character boundary.
pub fn unknown_reply(text: &str) -> (r: String)
    requires
        cuts_at(text@, 80),
    ensures
        r@ == "⚙️ 收到: 「"@ + truncated(text@, 80) + "」\n未识别的指令。输入 `help` 查看所有命令。"@,
{
    let mut s = owned("⚙️ 收到: 「");
    push_str(&mut s, safe_truncate(text, 80).as_str());
    push_str(&mut s, "」\n未识别的指令。输入 `help` 查看所有命令。");
    s
}

/// The quick help of general mode.
pub fn general_help_reply(name: &str, personality: &str) -> (r: String)
    ensures
        r@ == "💬 **通用模式** — 我是你的 AI 助手，可以自然对话。\n\n**快捷指令**（通用模式下也可用）:\n├─ `help` — 此帮助\n├─ `status` — 系统状态\n├─ `habits` — 习惯引擎\n├─ `gene` — 基因人格\n├─ `学习模式` — 切换教学引导\n├─ `命令模式` — 切换指令控制\n├─ `time` / `时间` — 当前时间\n└─ 直接提问或聊天即可\n\n👤 "@
            + name@ + " | 🧬 "@ + personality@ + " | 💬 通用模式"@,
{
    let mut s = owned("💬 **通用模式** — 我是你的 AI 助手，可以自然对话。\n\n**快捷指令**（通用模式下也可用）:\n├─ `help` — 此帮助\n├─ `status` — 系统状态\n├─ `habits` — 习惯引擎\n├─ `gene` — 基因人格\n├─ `学习模式` — 切换教学引导\n├─ `命令模式` — 切换指令控制\n├─ `time` / `时间` — 当前时间\n└─ 直接提问或聊天即可\n\n👤 ");
    push_str(&mut s, name);
    push_str(&mut s, " | 🧬 ");
    push_str(&mut s, personality);
    push_str(&mut s, " | 💬 通用模式");
    s
}

/// The one-line status of general mode.
pub fn general_status_reply(st: &LoopState) -> (r: String)
    ensures
        r@ == "📊 总轮次: "@ + dec(st.total_rounds as nat) + " | 成功: "@ + dec(st.successful_rounds as nat)
            + " | 快速路径: "@ + dec(st.fast_path_rounds as nat) + " | 模式: 通用"@,
{
    let mut s = owned("📊 总轮次: ");
    push_str(&mut s, decimal(st.total_rounds).as_str());
    push_str(&mut s, " | 成功: ");
    push_str(&mut s, decimal(st.successful_rounds).as_str());
    push_str(&mut s, " | 快速路径: ");
    push_str(&mut s, decimal(st.fast_path_rounds).as_str());
    push_str(&mut s, " | 模式: 通用");
    s
}

/// The one-line gene profile of general mode.
pub fn general_gene_reply(g: &GeneProfile) -> (r: String)
    ensures
        r@ == "🧬 当前基因: "@ + g.personality@ + " | 思维: "@ + g.thinking@ + " | 风控: "@ + g.risk_level@
            + " | 行为: "@ + g.behavior@,
{
    let mut s = owned("🧬 当前基因: ");
    push_str(&mut s, g.personality.as_str());
    push_str(&mut s, " | 思维: ");
    push_str(&mut s, g.thinking.as_str());
    push_str(&mut s, " | 风控: ");
    push_str(&mut s, g.risk_level.as_str());
    push_str(&mut s, " | 行为: ");
    push_str(&mut s, g.behavior.as_str());
    s
}

/// A lowercased message asks something: a question mark, a leading
/// what/怎么/如何/为什么, or 什么是 anywhere.
pub open spec fn asks(lower: Seq<char>) -> bool {
    contains(lower, "?"@) || contains(lower, "？"@) || starts_with(lower, "what"@) || starts_with(lower, "怎么"@)
        || starts_with(lower, "如何"@) || starts_with(lower, "为什么"@) || contains(lower, "什么是"@)
}

/// A lowercased message greets: hello, 你好, hi or hey anywhere, or just 嗨.
pub open spec fn greets(lower: Seq<char>) -> bool {
    contains(lower, "hello"@) || contains(lower, "你好"@) || contains(lower, "hi"@) || lower == "嗨"@ || contains(
        lower,
        "hey"@,
    )
}

/// The answer of general mode when no model takes the message: a question
/// is echoed (its first 120 bytes) with a hint that names the learning topic
/// when there is one; a greeting is returned; anything else is echoed (its
/// first 60 bytes).
pub open spec fn general_fallback_text(
    text: Seq<char>,
    lower: Seq<char>,
    concept: Seq<char>,
    name: Seq<char>,
    personality: Seq<char>,
) -> Seq<char> {
    if asks(lower) {
        "🤔 关于「"@ + truncated(text, 120) + "」\n\n"@ + if concept.len() > 0 {
            "💡 配置 LLM 后我可以直接回答。\n当前学习主题: "@ + concept
                + "\n输入 `help` 查看功能，或切换到「学习模式」让我引导你思考。"@
        } else {
            "💡 配置 LLM 后我可以直接回答你的问题。\n输入 `help` 查看我能做什么。"@
        }
    } else if greets(lower) {
        "👋 你好 "@ + name + "！我是 TAIS。\n当前: 💬 通用模式 | 🧬 "@ + personality
            + "\n有什么我可以帮你的？输入 `help` 看功能。"@
    } else {
        "💬 收到。「"@ + truncated(text, 60) + "」\n输入 `help` 查看我能做什么，或直接告诉我你的需求。"@
    }
}

fn has(s: &str, pat: &str) -> (r: bool)
    ensures
        r == contains(s@, pat@),
{
    str_contains(s, pat)
}

fn begins(s: &str, pat: &str) -> (r: bool)
    ensures
        r == starts_with(s@, pat@),
{
    str_starts_with(s, pat)
}

/// Whether a lowercased message asks something.
pub fn asks_something(lower: &str) -> (r: bool)
    ensures
        r == asks(lower@),
{
    has(lower, "?") || has(lower, "？") || begins(lower, "what") || begins(lower, "怎么") || begins(lower, "如何")
        || begins(lower, "为什么") || has(lower, "什么是")
}

/// Whether a lowercased message greets.
pub fn is_greeting(lower: &str) -> (r: bool)
    ensures
        r == greets(lower@),
{
    has(lower, "hello") || has(lower, "你好") || has(lower, "hi") || str_eq(lower, "嗨") || has(lower, "hey")
}

/// The answer of general mode when no model takes the message, given the
/// message, its lowercase form and the learning topic (empty when none).
/// The part of the message echoed must end on a character boundary.
pub fn general_fallback(text: &str, lower: &str, concept: &str, name: &str, personality: &str) -> (r: String)
    requires
        asks(lower@) ==> cuts_at(text@, 120),
        !asks(lower@) && !greets(lower@) ==> cuts_at(text@, 60),
    ensures
        r@ == general_fallback_text(text@, lower@, concept@, name@, personality@),
{
    if asks_something(lower) {
        let mut s = owned("🤔 关于「");
        push_str(&mut s, safe_truncate(text, 120).as_str());
        push_str(&mut s, "」\n\n");
        if chars_of(concept).len() > 0 {
            push_str(&mut s, "💡 配置 LLM 后我可以直接回答。\n当前学习主题: ");
            push_str(&mut s, concept);
            push_str(&mut s, "\n输入 `help` 查看功能，或切换到「学习模式」让我引导你思考。");
        } else {
            push_str(&mut s, "💡 配置 LLM 后我可以直接回答你的问题。\n输入 `help` 查看我能做什么。");
        }
        s
    } else if is_greeting(lower) {
        let mut s = owned("👋 你好 ");
        push_str(&mut s, name);
        push_str(&mut s, "！我是 TAIS。\n当前: 💬 通用模式 | 🧬 ");
        push_str(&mut s, personality);
        push_str(&mut s, "\n有什么我可以帮你的？输入 `help` 看功能。");
        s
    } else {
        let mut s = owned("💬 收到。「");
        push_str(&mut s, safe_truncate(text, 60).as_str());
        push_str(&mut s, "」\n输入 `help` 查看我能做什么，或直接告诉我你的需求。");
        s
    }
}

} // verus!
