//! The command language of command mode: which command a message is, with
//! its arguments read off the message. The checks run in a fixed order and
//! the first that matches decides; the caller carries the command out.

use vstd::prelude::*;
use crate::llm::ProviderType;
use crate::routing::{strip_all, strip_prefixes};
use crate::text::{
    byte_len, chars_of, contains, find_from, find_from_spec, lowercase, owned, slice_chars,
    starts_with, str_contains, str_eq, str_starts_with, string_from_chars, to_lowercase, trim,
    trim_chars, utf8_len,
};

verus! {

/// A command of command mode.
#[derive(Debug)]
pub enum Command {
    Help,
    Status,
    Habits,
    ShowGene,
    SetGene(String),
    Concept(String),
    Skills,
    Tools,
    Direct(String),
    /// `memory`: the hot memory's facts
    HotShow,
    /// `memory list`
    HotList,
    /// `memory add <fact>`
    HotAdd(String),
    /// `memory rm <keyword>` or `memory remove <keyword>`
    HotRemove(String),
    Memory,
    Sessions,
    Evolution,
    Checkpoint(String),
    Clear,
    Crystallize { name: String, description: String },
    LlmClear,
    LlmStatus,
    LlmList,
    /// `llm add` with fewer than five arguments
    LlmAddUsage,
    /// `llm add` naming an unknown provider
    LlmAddBadProvider,
    LlmAdd { name: String, provider: ProviderType, model: String, base_url: String, api_key: String },
    LlmDel(String),
    LlmSetDefault(String),
    SetGrade(String),
    SetStyle(String),
    Whoami,
    /// `passwd` with fewer than six bytes
    PasswdTooShort,
    Passwd(String),
    Unknown,
}

/// The mathematical content of a `Command`.
pub enum CommandView {
    Help,
    Status,
    Habits,
    ShowGene,
    SetGene(Seq<char>),
    Concept(Seq<char>),
    Skills,
    Tools,
    Direct(Seq<char>),
    HotShow,
    HotList,
    HotAdd(Seq<char>),
    HotRemove(Seq<char>),
    Memory,
    Sessions,
    Evolution,
    Checkpoint(Seq<char>),
    Clear,
    Crystallize { name: Seq<char>, description: Seq<char> },
    LlmClear,
    LlmStatus,
    LlmList,
    LlmAddUsage,
    LlmAddBadProvider,
    LlmAdd {
        name: Seq<char>,
        provider: ProviderType,
        model: Seq<char>,
        base_url: Seq<char>,
        api_key: Seq<char>,
    },
    LlmDel(Seq<char>),
    LlmSetDefault(Seq<char>),
    SetGrade(Seq<char>),
    SetStyle(Seq<char>),
    Whoami,
    PasswdTooShort,
    Passwd(Seq<char>),
    Unknown,
}

impl View for Command {
    type V = CommandView;

    open spec fn view(&self) -> CommandView {
        match self {
            Command::Help => CommandView::Help,
            Command::Status => CommandView::Status,
            Command::Habits => CommandView::Habits,
            Command::ShowGene => CommandView::ShowGene,
            Command::SetGene(g) => CommandView::SetGene(g@),
            Command::Concept(c) => CommandView::Concept(c@),
            Command::Skills => CommandView::Skills,
            Command::Tools => CommandView::Tools,
            Command::Direct(q) => CommandView::Direct(q@),
            Command::HotShow => CommandView::HotShow,
            Command::HotList => CommandView::HotList,
            Command::HotAdd(f) => CommandView::HotAdd(f@),
            Command::HotRemove(k) => CommandView::HotRemove(k@),
            Command::Memory => CommandView::Memory,
            Command::Sessions => CommandView::Sessions,
            Command::Evolution => CommandView::Evolution,
            Command::Checkpoint(k) => CommandView::Checkpoint(k@),
            Command::Clear => CommandView::Clear,
            Command::Crystallize { name, description } => CommandView::Crystallize {
                name: name@,
                description: description@,
            },
            Command::LlmClear => CommandView::LlmClear,
            Command::LlmStatus => CommandView::LlmStatus,
            Command::LlmList => CommandView::LlmList,
            Command::LlmAddUsage => CommandView::LlmAddUsage,
            Command::LlmAddBadProvider => CommandView::LlmAddBadProvider,
            Command::LlmAdd { name, provider, model, base_url, api_key } => CommandView::LlmAdd {
                name: name@,
                provider: *provider,
                model: model@,
                base_url: base_url@,
                api_key: api_key@,
            },
            Command::LlmDel(i) => CommandView::LlmDel(i@),
            Command::LlmSetDefault(n) => CommandView::LlmSetDefault(n@),
            Command::SetGrade(g) => CommandView::SetGrade(g@),
            Command::SetStyle(s) => CommandView::SetStyle(s@),
            Command::Whoami => CommandView::Whoami,
            Command::PasswdTooShort => CommandView::PasswdTooShort,
            Command::Passwd(p) => CommandView::Passwd(p@),
            Command::Unknown => CommandView::Unknown,
        }
    }
}

/// At most `n` pieces of `s` split at single spaces; the last piece keeps
/// the rest, as `str::splitn(n, ' ')` yields them.
pub open spec fn splitn_space(s: Seq<char>, n: nat) -> Seq<Seq<char>>
    decreases n,
{
    if n <= 1 {
        seq![s]
    } else {
        match find_from_spec(s, seq![' '], 0) {
            Some(i) => seq![s.take(i)] + splitn_space(s.skip(i + 1), (n - 1) as nat),
            None => seq![s],
        }
    }
}

/// `trim(strip_all(s, p))`.
pub open spec fn arg_after(s: Seq<char>, p: Seq<char>) -> Seq<char> {
    trim(strip_all(s, p))
}

/// The personality names `gene <name>` accepts.
pub open spec fn valid_gene(g: Seq<char>) -> bool {
    g == "scholar"@ || g == "mentor"@ || g == "hacker"@
}

/// What `llm add` with the rest `rest` asks for.
pub open spec fn llm_add_spec(rest: Seq<char>) -> CommandView {
    let parts = splitn_space(rest, 5);
    if parts.len() < 5 {
        CommandView::LlmAddUsage
    } else {
        match ProviderType::spec_from_name(parts[1]) {
            Some(p) => CommandView::LlmAdd {
                name: parts[0],
                provider: p,
                model: parts[2],
                base_url: parts[3],
                api_key: parts[4],
            },
            None => CommandView::LlmAddBadProvider,
        }
    }
}

/// What `crystallize` with the rest `rest` asks for: the first word names
/// the skill, the remainder describes it.
pub open spec fn crystallize_spec(rest: Seq<char>) -> CommandView {
    let parts = splitn_space(rest, 2);
    CommandView::Crystallize {
        name: parts[0],
        description: if parts.len() > 1 {
            parts[1]
        } else {
            "no description"@
        },
    }
}

/// Commands that show help.
pub open spec fn is_help(lower: Seq<char>) -> bool {
    lower == "help"@ || lower == "?"@ || lower == "？"@ || lower == "你能做什么"@ || starts_with(
        lower,
        "help "@,
    ) || starts_with(lower, "? "@) || starts_with(lower, "？ "@)
}

/// The first half of the command checks.
pub open spec fn command_head(text: Seq<char>, lower: Seq<char>) -> Option<CommandView> {
    if is_help(lower) {
        Some(CommandView::Help)
    } else if contains(lower, "status"@) {
        Some(CommandView::Status)
    } else if contains(lower, "habit"@) {
        Some(CommandView::Habits)
    } else if lower == "gene"@ || lower == "基因"@ {
        Some(CommandView::ShowGene)
    } else if starts_with(lower, "gene "@) && valid_gene(arg_after(lower, "gene "@)) {
        Some(CommandView::SetGene(arg_after(lower, "gene "@)))
    } else if starts_with(lower, "concept "@) || starts_with(lower, "概念 "@) {
        Some(CommandView::Concept(trim(strip_all(strip_all(lower, "concept "@), "概念 "@))))
    } else if lower == "skills"@ || lower == "技能"@ {
        Some(CommandView::Skills)
    } else if lower == "tools"@ || lower == "工具"@ {
        Some(CommandView::Tools)
    } else if starts_with(lower, "direct "@) || starts_with(lower, "直接回答 "@) || starts_with(
        lower,
        "直接回答："@,
    ) {
        Some(
            CommandView::Direct(
                trim(strip_all(strip_all(strip_all(lower, "direct "@), "直接回答 "@), "直接回答："@)),
            ),
        )
    } else if lower == "memory"@ || lower == "记忆"@ {
        Some(CommandView::HotShow)
    } else if lower == "memory list"@ {
        Some(CommandView::HotList)
    } else if starts_with(lower, "memory add "@) {
        Some(CommandView::HotAdd(arg_after(text, "memory add "@)))
    } else if starts_with(lower, "memory rm "@) || starts_with(lower, "memory remove "@) {
        Some(CommandView::HotRemove(trim(strip_all(strip_all(text, "memory rm "@), "memory remove "@))))
    } else if contains(lower, "memory"@) {
        Some(CommandView::Memory)
    } else if lower == "sessions"@ {
        Some(CommandView::Sessions)
    } else if contains(lower, "evolution"@) || contains(lower, "进化"@) {
        Some(CommandView::Evolution)
    } else if starts_with(lower, "checkpoint "@) {
        Some(CommandView::Checkpoint(arg_after(text, "checkpoint "@)))
    } else if lower == "clear"@ || lower == "清除"@ || lower == "清空"@ {
        Some(CommandView::Clear)
    } else if starts_with(lower, "crystallize "@) {
        Some(crystallize_spec(arg_after(text, "crystallize "@)))
    } else {
        None
    }
}

/// The second half of the command checks.
pub open spec fn command_tail(text: Seq<char>, lower: Seq<char>) -> CommandView {
    if lower == "llm clear"@ {
        CommandView::LlmClear
    } else if lower == "llm"@ || lower == "llm status"@ {
        CommandView::LlmStatus
    } else if lower == "llm list"@ {
        CommandView::LlmList
    } else if starts_with(lower, "llm add "@) {
        llm_add_spec(arg_after(text, "llm add "@))
    } else if starts_with(lower, "llm del "@) {
        CommandView::LlmDel(arg_after(text, "llm del "@))
    } else if starts_with(lower, "llm set default "@) {
        CommandView::LlmSetDefault(arg_after(text, "llm set default "@))
    } else if starts_with(lower, "set grade "@) {
        CommandView::SetGrade(arg_after(text, "set grade "@))
    } else if starts_with(lower, "set style "@) {
        CommandView::SetStyle(arg_after(text, "set style "@))
    } else if lower == "whoami"@ || lower == "我是谁"@ {
        CommandView::Whoami
    } else if starts_with(lower, "passwd "@) {
        if utf8_len(arg_after(text, "passwd "@)) < 6 {
            CommandView::PasswdTooShort
        } else {
            CommandView::Passwd(arg_after(text, "passwd "@))
        }
    } else {
        CommandView::Unknown
    }
}

/// The command a message is, given its lowercased form. Keyword checks
/// read the lowercased text; the arguments of `checkpoint`, `crystallize`,
/// `llm add|del|set default`, `set grade|style` and `passwd` are read off
/// the message as typed.
pub open spec fn command_of(text: Seq<char>, lower: Seq<char>) -> CommandView {
    match command_head(text, lower) {
        Some(c) => c,
        None => command_tail(text, lower),
    }
}

/// Splits `s` at single spaces into at most `n` pieces.
pub fn splitn_spaces(s: &Vec<char>, n: usize) -> (r: Vec<Vec<char>>)
    requires
        n >= 1,
    ensures
        r@.map_values(|w: Vec<char>| w@) == splitn_space(s@, n as nat),
    decreases n,
{
    let sp = vec![' '];
    assert(sp@ =~= seq![' ']);
    if n <= 1 {
        let mut out: Vec<Vec<char>> = Vec::new();
        out.push(slice_chars(s, 0, s.len()));
        assert(s@.subrange(0, s@.len() as int) =~= s@);
        assert(out@.map_values(|w: Vec<char>| w@) =~= seq![s@]);
        return out;
    }
    match find_from(s, &sp, 0) {
        Some(i) => {
            let head = slice_chars(s, 0, i);
            let rest = slice_chars(s, i + 1, s.len());
            assert(rest@ =~= s@.skip(i + 1));
            assert(head@ =~= s@.take(i as int));
            let tail = splitn_spaces(&rest, n - 1);
            let mut out: Vec<Vec<char>> = Vec::new();
            out.push(head);
            let mut k: usize = 0;
            while k < tail.len()
                invariant
                    k <= tail.len(),
                    out@.map_values(|w: Vec<char>| w@) == seq![s@.take(i as int)] + tail@.map_values(
                        |w: Vec<char>| w@,
                    ).take(k as int),
                decreases tail.len() - k,
            {
                let ghost before = out@.map_values(|w: Vec<char>| w@);
                out.push(slice_chars(&tail[k], 0, tail[k].len()));
                assert(tail@[k as int]@.subrange(0, tail@[k as int]@.len() as int) =~= tail@[k as int]@);
                assert(out@.map_values(|w: Vec<char>| w@) =~= before.push(tail@[k as int]@));
                assert(tail@.map_values(|w: Vec<char>| w@).take(k + 1) =~= tail@.map_values(
                    |w: Vec<char>| w@,
                ).take(k as int).push(tail@[k as int]@));
                k = k + 1;
            }
            assert(tail@.map_values(|w: Vec<char>| w@).take(tail.len() as int) =~= tail@.map_values(
                |w: Vec<char>| w@,
            ));
            out
        },
        None => {
            let mut out: Vec<Vec<char>> = Vec::new();
            out.push(slice_chars(s, 0, s.len()));
            assert(s@.subrange(0, s@.len() as int) =~= s@);
            assert(out@.map_values(|w: Vec<char>| w@) =~= seq![s@]);
            out
        },
    }
}

fn arg(s: &str, p: &str) -> (r: String)
    ensures
        r@ == arg_after(s@, p@),
{
    let stripped = strip_prefixes(&chars_of(s), &chars_of(p));
    string_from_chars(trim_chars(&stripped).as_slice())
}

fn vec_to_string(v: &Vec<char>) -> (r: String)
    ensures
        r@ == v@,
{
    string_from_chars(v.as_slice())
}

fn parse_llm_add(rest: &str) -> (r: Command)
    ensures
        r@ == llm_add_spec(rest@),
{
    let parts = splitn_spaces(&chars_of(rest), 5);
    let ghost ps = parts@.map_values(|w: Vec<char>| w@);
    assert(ps.len() == parts.len());
    if parts.len() < 5 {
        return Command::LlmAddUsage;
    }
    let p1 = vec_to_string(&parts[1]);
    assert(p1@ == ps[1]);
    match ProviderType::from_name(p1.as_str()) {
        Some(p) => {
            assert(ps[0] == parts@[0]@);
            assert(ps[2] == parts@[2]@);
            assert(ps[3] == parts@[3]@);
            assert(ps[4] == parts@[4]@);
            Command::LlmAdd {
                name: vec_to_string(&parts[0]),
                provider: p,
                model: vec_to_string(&parts[2]),
                base_url: vec_to_string(&parts[3]),
                api_key: vec_to_string(&parts[4]),
            }
        },
        None => Command::LlmAddBadProvider,
    }
}

fn parse_crystallize(rest: &str) -> (r: Command)
    ensures
        r@ == crystallize_spec(rest@),
{
    let parts = splitn_spaces(&chars_of(rest), 2);
    let ghost ps = parts@.map_values(|w: Vec<char>| w@);
    assert(ps.len() == parts.len());
    assert(parts.len() >= 1) by {
        reveal_with_fuel(splitn_space, 2);
    }
    assert(ps[0] == parts@[0]@);
    let name = vec_to_string(&parts[0]);
    let description = if parts.len() > 1 {
        assert(ps[1] == parts@[1]@);
        vec_to_string(&parts[1])
    } else {
        owned("no description")
    };
    Command::Crystallize { name, description }
}

fn head_command(text: &str, lower: &str) -> (r: Option<Command>)
    ensures
        match command_head(text@, lower@) {
            Some(c) => r matches Some(x) && x@ == c,
            None => r is None,
        },
{
    if str_eq(lower, "help") || str_eq(lower, "?") || str_eq(lower, "？") || str_eq(lower, "你能做什么")
        || str_starts_with(lower, "help ") || str_starts_with(lower, "? ") || str_starts_with(
        lower,
        "？ ",
    ) {
        return Some(Command::Help);
    }
    if str_contains(lower, "status") {
        return Some(Command::Status);
    }
    if str_contains(lower, "habit") {
        return Some(Command::Habits);
    }
    if str_eq(lower, "gene") || str_eq(lower, "基因") {
        return Some(Command::ShowGene);
    }
    if str_starts_with(lower, "gene ") {
        let g = arg(lower, "gene ");
        if str_eq(g.as_str(), "scholar") || str_eq(g.as_str(), "mentor") || str_eq(g.as_str(), "hacker") {
            return Some(Command::SetGene(g));
        }
    }
    if str_starts_with(lower, "concept ") || str_starts_with(lower, "概念 ") {
        let a = strip_prefixes(&chars_of(lower), &chars_of("concept "));
        let b = strip_prefixes(&a, &chars_of("概念 "));
        return Some(Command::Concept(string_from_chars(trim_chars(&b).as_slice())));
    }
    if str_eq(lower, "skills") || str_eq(lower, "技能") {
        return Some(Command::Skills);
    }
    if str_eq(lower, "tools") || str_eq(lower, "工具") {
        return Some(Command::Tools);
    }
    if str_starts_with(lower, "direct ") || str_starts_with(lower, "直接回答 ") || str_starts_with(
        lower,
        "直接回答：",
    ) {
        let a = strip_prefixes(&chars_of(lower), &chars_of("direct "));
        let b = strip_prefixes(&a, &chars_of("直接回答 "));
        let c = strip_prefixes(&b, &chars_of("直接回答："));
        return Some(Command::Direct(string_from_chars(trim_chars(&c).as_slice())));
    }
    if str_eq(lower, "memory") || str_eq(lower, "记忆") {
        return Some(Command::HotShow);
    }
    if str_eq(lower, "memory list") {
        return Some(Command::HotList);
    }
    if str_starts_with(lower, "memory add ") {
        return Some(Command::HotAdd(arg(text, "memory add ")));
    }
    if str_starts_with(lower, "memory rm ") || str_starts_with(lower, "memory remove ") {
        let a = strip_prefixes(&chars_of(text), &chars_of("memory rm "));
        let b = strip_prefixes(&a, &chars_of("memory remove "));
        return Some(Command::HotRemove(string_from_chars(trim_chars(&b).as_slice())));
    }
    if str_contains(lower, "memory") {
        return Some(Command::Memory);
    }
    if str_eq(lower, "sessions") {
        return Some(Command::Sessions);
    }
    if str_contains(lower, "evolution") || str_contains(lower, "进化") {
        return Some(Command::Evolution);
    }
    if str_starts_with(lower, "checkpoint ") {
        return Some(Command::Checkpoint(arg(text, "checkpoint ")));
    }
    if str_eq(lower, "clear") || str_eq(lower, "清除") || str_eq(lower, "清空") {
        return Some(Command::Clear);
    }
    if str_starts_with(lower, "crystallize ") {
        let rest = arg(text, "crystallize ");
        return Some(parse_crystallize(rest.as_str()));
    }
    None
}

fn tail_command(text: &str, lower: &str) -> (r: Command)
    ensures
        r@ == command_tail(text@, lower@),
{
    if str_eq(lower, "llm clear") {
        return Command::LlmClear;
    }
    if str_eq(lower, "llm") || str_eq(lower, "llm status") {
        return Command::LlmStatus;
    }
    if str_eq(lower, "llm list") {
        return Command::LlmList;
    }
    if str_starts_with(lower, "llm add ") {
        let rest = arg(text, "llm add ");
        return parse_llm_add(rest.as_str());
    }
    if str_starts_with(lower, "llm del ") {
        return Command::LlmDel(arg(text, "llm del "));
    }
    if str_starts_with(lower, "llm set default ") {
        return Command::LlmSetDefault(arg(text, "llm set default "));
    }
    if str_starts_with(lower, "set grade ") {
        return Command::SetGrade(arg(text, "set grade "));
    }
    if str_starts_with(lower, "set style ") {
        return Command::SetStyle(arg(text, "set style "));
    }
    if str_eq(lower, "whoami") || str_eq(lower, "我是谁") {
        return Command::Whoami;
    }
    if str_starts_with(lower, "passwd ") {
        let pw = arg(text, "passwd ");
        if byte_len(pw.as_str()) < 6 {
            return Command::PasswdTooShort;
        }
        return Command::Passwd(pw);
    }
    Command::Unknown
}

/// The command a message is, given the message and its lowercased form.
pub fn classify_command(text: &str, lower: &str) -> (r: Command)
    ensures
        r@ == command_of(text@, lower@),
{
    match head_command(text, lower) {
        Some(c) => c,
        None => tail_command(text, lower),
    }
}

/// The command a message is.
pub fn parse_command(text: &str) -> (r: Command)
    ensures
        r@ == command_of(text@, lowercase(text@)),
{
    let lower = to_lowercase(text);
    classify_command(text, lower.as_str())
}

} // verus!
