//! Teaching goals and the rule-based parser that reads them from a teacher's
//! sentence.
//!
//! The parser lowercases the sentence, then decides by keywords: the
//! teaching mode, the students' level and the subject; the concept is the
//! text between the first `「` and the next `」`, or the whole sentence.

use vstd::prelude::*;
use crate::text::{
    chars_of, contains, find_from, find_from_spec, owned, slice_chars, str_contains,
    string_from_chars, to_lowercase, lowercase,
};

verus! {

/// How a lesson is taught.
#[derive(Debug, Clone, Copy, PartialEq, Eq, Structural)]
pub enum TeachingMode {
    InquiryBased,
    DirectInstruction,
    ProjectBased,
    FlippedClassroom,
    SocraticDialogue,
}

/// The level the lesson aims at.
#[derive(Debug, Clone, Copy, PartialEq, Eq, Structural)]
pub enum StudentLevel {
    Beginner,
    Intermediate,
    Advanced,
}

/// What happens when a human-in-the-loop trigger fires.
#[derive(Debug, Clone, Copy, PartialEq, Eq, Structural)]
pub enum HitlAction {
    EscalateToTeacher,
    PauseAndNotify,
    FlagForReview,
}

/// A teacher's teaching goal.
#[derive(Debug)]
pub struct TeachingGoal {
    pub subject: String,
    pub concept: String,
    pub mode: TeachingMode,
    pub target_level: StudentLevel,
    pub constraints: Vec<String>,
    pub teacher_id: String,
}

/// Gene profile applied across a whole workflow.
#[derive(Debug)]
pub struct GeneProfile {
    /// "scholar" | "mentor" | "hacker"
    pub personality: String,
    /// "first_principles" | "analogical" | "systems"
    pub thinking: String,
    /// "strict" | "moderate" | "permissive"
    pub risk_level: String,
    /// "precise" | "concise" | "verbose"
    pub behavior: String,
}

impl Default for GeneProfile {
    /// The scholar profile: first principles, strict, precise.
    fn default() -> (r: GeneProfile)
        ensures
            r.personality@ == "scholar"@,
            r.thinking@ == "first_principles"@,
            r.risk_level@ == "strict"@,
            r.behavior@ == "precise"@,
    {
        GeneProfile {
            personality: owned("scholar"),
            thinking: owned("first_principles"),
            risk_level: owned("strict"),
            behavior: owned("precise"),
        }
    }
}

/// Teaching mode named by a lowercased sentence; the first keyword group
/// that matches wins.
pub open spec fn mode_of(s: Seq<char>) -> TeachingMode {
    if contains(s, "探究"@) || contains(s, "inquiry"@) {
        TeachingMode::InquiryBased
    } else if contains(s, "苏格拉底"@) || contains(s, "socratic"@) {
        TeachingMode::SocraticDialogue
    } else if contains(s, "项目"@) || contains(s, "project"@) {
        TeachingMode::ProjectBased
    } else if contains(s, "翻转"@) || contains(s, "flipped"@) {
        TeachingMode::FlippedClassroom
    } else {
        TeachingMode::DirectInstruction
    }
}

/// How a goal sentence picks its teaching mode, with the keywords spelled
/// out: inquiry ("探究", "inquiry") before Socratic dialogue ("苏格拉底",
/// "socratic") before project-based ("项目", "project") before flipped
/// classroom ("翻转", "flipped"); direct instruction when none is named.
pub proof fn law_teaching_mode_keywords(s: Seq<char>)
    ensures
        contains(s, "探究"@) || contains(s, "inquiry"@) ==> mode_of(s) == TeachingMode::InquiryBased,
        !(contains(s, "探究"@) || contains(s, "inquiry"@)) && (contains(s, "苏格拉底"@) || contains(s, "socratic"@))
            ==> mode_of(s) == TeachingMode::SocraticDialogue,
        !(contains(s, "探究"@) || contains(s, "inquiry"@) || contains(s, "苏格拉底"@) || contains(s, "socratic"@))
            && (contains(s, "项目"@) || contains(s, "project"@)) ==> mode_of(s) == TeachingMode::ProjectBased,
        !(contains(s, "探究"@) || contains(s, "inquiry"@) || contains(s, "苏格拉底"@) || contains(s, "socratic"@)
            || contains(s, "项目"@) || contains(s, "project"@)) && (contains(s, "翻转"@) || contains(s, "flipped"@))
            ==> mode_of(s) == TeachingMode::FlippedClassroom,
        !(contains(s, "探究"@) || contains(s, "inquiry"@) || contains(s, "苏格拉底"@) || contains(s, "socratic"@)
            || contains(s, "项目"@) || contains(s, "project"@) || contains(s, "翻转"@) || contains(s, "flipped"@))
            ==> mode_of(s) == TeachingMode::DirectInstruction,
{
}

/// Student level named by a lowercased sentence (Intermediate by default).
pub open spec fn level_of(s: Seq<char>) -> StudentLevel {
    if contains(s, "基础"@) || contains(s, "初"@) || contains(s, "beginner"@) {
        StudentLevel::Beginner
    } else if contains(s, "高级"@) || contains(s, "advanced"@) {
        StudentLevel::Advanced
    } else {
        StudentLevel::Intermediate
    }
}

/// Subject named by a sentence ("通用", general, by default).
pub open spec fn subject_of(s: Seq<char>) -> Seq<char> {
    if contains(s, "物理"@) {
        "物理"@
    } else if contains(s, "数学"@) {
        "数学"@
    } else if contains(s, "化学"@) {
        "化学"@
    } else if contains(s, "编程"@) || contains(s, "代码"@) {
        "编程"@
    } else if contains(s, "写作"@) {
        "写作"@
    } else {
        "通用"@
    }
}

/// The text between the first `「` and the first `」` after it; the whole
/// sentence when there is no such pair.
pub open spec fn concept_of(s: Seq<char>) -> Seq<char> {
    match find_from_spec(s, seq!['「'], 0) {
        Some(i) => match find_from_spec(s, seq!['」'], i) {
            Some(j) => s.subrange(i + 1, j),
            None => s,
        },
        None => s,
    }
}

/// The subject a sentence names.
pub fn extract_subject(input: &str) -> (r: String)
    ensures
        r@ == subject_of(input@),
{
    if str_contains(input, "物理") {
        owned("物理")
    } else if str_contains(input, "数学") {
        owned("数学")
    } else if str_contains(input, "化学") {
        owned("化学")
    } else if str_contains(input, "编程") || str_contains(input, "代码") {
        owned("编程")
    } else if str_contains(input, "写作") {
        owned("写作")
    } else {
        owned("通用")
    }
}

/// The concept a sentence names between `「` and `」`, else the sentence.
pub fn extract_concept(input: &str) -> (r: String)
    ensures
        r@ == concept_of(input@),
{
    let cs = chars_of(input);
    let open = vec!['「'];
    let close = vec!['」'];
    assert(open@ =~= seq!['「']);
    assert(close@ =~= seq!['」']);
    match find_from(&cs, &open, 0) {
        Some(i) => match find_from(&cs, &close, i) {
            Some(j) => {
                assert(i < j) by {
                    assert(cs@[i as int] == '「');
                    assert(cs@.subrange(j as int, j + 1)[0] == '」');
                };
                let inner = slice_chars(&cs, i + 1, j);
                string_from_chars(inner.as_slice())
            },
            None => owned(input),
        },
        None => owned(input),
    }
}

/// The goal a lowercased sentence describes: mode, level, subject and
/// concept by the keyword rules, no constraints.
pub fn goal_from_lowercase(input_lower: &str, teacher_id: &str) -> (r: TeachingGoal)
    ensures
        r.mode == mode_of(input_lower@),
        !(contains(input_lower@, "探究"@) || contains(input_lower@, "inquiry"@) || contains(input_lower@, "苏格拉底"@)
            || contains(input_lower@, "socratic"@)) && (contains(input_lower@, "项目"@) || contains(
            input_lower@,
            "project"@,
        )) ==> r.mode == TeachingMode::ProjectBased,
        contains(input_lower@, "探究"@) || contains(input_lower@, "inquiry"@) ==> r.mode
            == TeachingMode::InquiryBased,
        !(contains(input_lower@, "探究"@) || contains(input_lower@, "inquiry"@)) && (contains(input_lower@, "苏格拉底"@)
            || contains(input_lower@, "socratic"@)) ==> r.mode == TeachingMode::SocraticDialogue,
        !(contains(input_lower@, "探究"@) || contains(input_lower@, "inquiry"@) || contains(input_lower@, "苏格拉底"@)
            || contains(input_lower@, "socratic"@) || contains(input_lower@, "项目"@) || contains(input_lower@, "project"@))
            && (contains(input_lower@, "翻转"@) || contains(input_lower@, "flipped"@)) ==> r.mode
            == TeachingMode::FlippedClassroom,
        !(contains(input_lower@, "探究"@) || contains(input_lower@, "inquiry"@) || contains(input_lower@, "苏格拉底"@)
            || contains(input_lower@, "socratic"@) || contains(input_lower@, "项目"@) || contains(input_lower@, "project"@)
            || contains(input_lower@, "翻转"@) || contains(input_lower@, "flipped"@)) ==> r.mode
            == TeachingMode::DirectInstruction,
        r.target_level == level_of(input_lower@),
        contains(input_lower@, "基础"@) || contains(input_lower@, "初"@) || contains(input_lower@, "beginner"@)
            ==> r.target_level == StudentLevel::Beginner,
        !(contains(input_lower@, "基础"@) || contains(input_lower@, "初"@) || contains(input_lower@, "beginner"@))
            && (contains(input_lower@, "高级"@) || contains(input_lower@, "advanced"@)) ==> r.target_level
            == StudentLevel::Advanced,
        !(contains(input_lower@, "基础"@) || contains(input_lower@, "初"@) || contains(input_lower@, "beginner"@)
            || contains(input_lower@, "高级"@) || contains(input_lower@, "advanced"@)) ==> r.target_level
            == StudentLevel::Intermediate,
        r.subject@ == subject_of(input_lower@),
        r.concept@ == concept_of(input_lower@),
        r.constraints@.len() == 0,
        r.teacher_id@ == teacher_id@,
{
    let mode = if str_contains(input_lower, "探究") || str_contains(input_lower, "inquiry") {
        TeachingMode::InquiryBased
    } else if str_contains(input_lower, "苏格拉底") || str_contains(input_lower, "socratic") {
        TeachingMode::SocraticDialogue
    } else if str_contains(input_lower, "项目") || str_contains(input_lower, "project") {
        TeachingMode::ProjectBased
    } else if str_contains(input_lower, "翻转") || str_contains(input_lower, "flipped") {
        TeachingMode::FlippedClassroom
    } else {
        TeachingMode::DirectInstruction
    };
    let level = if str_contains(input_lower, "基础") || str_contains(input_lower, "初")
        || str_contains(input_lower, "beginner") {
        StudentLevel::Beginner
    } else if str_contains(input_lower, "高级") || str_contains(input_lower, "advanced") {
        StudentLevel::Advanced
    } else {
        StudentLevel::Intermediate
    };
    TeachingGoal {
        subject: extract_subject(input_lower),
        concept: extract_concept(input_lower),
        mode,
        target_level: level,
        constraints: Vec::new(),
        teacher_id: owned(teacher_id),
    }
}

/// Rule-based goal parser: fast and deterministic. It always finds a goal;
/// the keyword rules read the lowercased sentence.
pub fn parse_goal(input: &str, teacher_id: &str) -> (r: Option<TeachingGoal>)
    ensures
        r matches Some(g) && {
            let s = lowercase(input@);
            &&& g.mode == mode_of(s)
            &&& g.target_level == level_of(s)
            &&& g.subject@ == subject_of(s)
            &&& g.concept@ == concept_of(s)
            &&& g.constraints@.len() == 0
            &&& g.teacher_id@ == teacher_id@
        },
        r matches Some(g) ==> ({
            let s = lowercase(input@);
            !(contains(s, "探究"@) || contains(s, "inquiry"@) || contains(s, "苏格拉底"@) || contains(s, "socratic"@))
                && (contains(s, "项目"@) || contains(s, "project"@)) ==> g.mode == TeachingMode::ProjectBased
        }),
{
    let lower = to_lowercase(input);
    Some(goal_from_lowercase(lower.as_str(), teacher_id))
}

/// Gene capsule suited to the goal's level: mentor for beginners, scholar
/// in between, hacker for advanced students.
pub open spec fn level_gene(level: StudentLevel) -> Seq<char> {
    match level {
        StudentLevel::Beginner => "gene-mentor"@,
        StudentLevel::Intermediate => "gene-scholar"@,
        StudentLevel::Advanced => "gene-hacker"@,
    }
}

/// The gene capsule to inject for a goal, chosen by its target level.
pub fn goal_level_gene(goal: &TeachingGoal) -> (r: String)
    ensures
        r@ == level_gene(goal.target_level),
{
    match goal.target_level {
        StudentLevel::Beginner => owned("gene-mentor"),
        StudentLevel::Intermediate => owned("gene-scholar"),
        StudentLevel::Advanced => owned("gene-hacker"),
    }
}

/// The mode a model names in its reply; an unknown name means direct
/// instruction.
pub open spec fn mode_named(s: Seq<char>) -> TeachingMode {
    if s == "socratic_dialogue"@ {
        TeachingMode::SocraticDialogue
    } else if s == "project_based"@ {
        TeachingMode::ProjectBased
    } else if s == "flipped_classroom"@ {
        TeachingMode::FlippedClassroom
    } else if s == "inquiry_based"@ {
        TeachingMode::InquiryBased
    } else {
        TeachingMode::DirectInstruction
    }
}

/// The level a model names in its reply; an unknown name means intermediate.
pub open spec fn level_named(s: Seq<char>) -> StudentLevel {
    if s == "beginner"@ {
        StudentLevel::Beginner
    } else if s == "advanced"@ {
        StudentLevel::Advanced
    } else {
        StudentLevel::Intermediate
    }
}

/// The goal for a teacher's sentence once a model was asked (see
/// `goal_prompt`): read from the fields of its JSON reply when it gave one
/// (`goal_from_reply`), else the rule-based reading of the sentence.
pub fn goal_after_model(
    reply: Option<(Option<&str>, Option<&str>, Option<&str>, Option<&str>)>,
    input: &str,
    teacher_id: &str,
) -> (g: TeachingGoal)
    ensures
        g.constraints@.len() == 0,
        g.teacher_id@ == teacher_id@,
        match reply {
            Some((subject, concept, mode, level)) => {
                &&& g.subject@ == (match subject {
                    Some(s) => s@,
                    None => "通用"@,
                })
                &&& g.concept@ == (match concept {
                    Some(c) => c@,
                    None => input@,
                })
                &&& g.mode == (match mode {
                    Some(m) => mode_named(m@),
                    None => TeachingMode::DirectInstruction,
                })
                &&& g.target_level == (match level {
                    Some(l) => level_named(l@),
                    None => StudentLevel::Intermediate,
                })
            },
            None => {
                let s = lowercase(input@);
                &&& g.mode == mode_of(s)
                &&& g.target_level == level_of(s)
                &&& g.subject@ == subject_of(s)
                &&& g.concept@ == concept_of(s)
            },
        },
{
    match reply {
        Some((subject, concept, mode, level)) => goal_from_reply(subject, concept, mode, level, input, teacher_id),
        None => {
            let lower = to_lowercase(input);
            goal_from_lowercase(lower.as_str(), teacher_id)
        },
    }
}

/// The prompt asking a model to read a teaching goal out of `input`.
pub fn goal_prompt(input: &str) -> (r: String)
    ensures
        r@ == "You are a teaching goal parser. Extract from: \""@ + input@
            + "\"\nReturn ONLY a JSON object: {\"subject\":\"...\",\"concept\":\"...\",\"mode\":\"inquiry_based|direct_instruction|project_based|flipped_classroom|socratic_dialogue\",\"level\":\"beginner|intermediate|advanced\"}\nNo explanation, no markdown."@,
{
    let mut s = owned("You are a teaching goal parser. Extract from: \"");
    crate::text::push_str(&mut s, input);
    crate::text::push_str(
        &mut s,
        "\"\nReturn ONLY a JSON object: {\"subject\":\"...\",\"concept\":\"...\",\"mode\":\"inquiry_based|direct_instruction|project_based|flipped_classroom|socratic_dialogue\",\"level\":\"beginner|intermediate|advanced\"}\nNo explanation, no markdown.",
    );
    s
}

/// The goal a model's reply describes, given the reply's `subject`,
/// `concept`, `mode` and `level` fields (each `None` when absent or not a
/// string): the subject defaults to 通用, the concept to the teacher's
/// sentence, the mode to direct instruction and the level to intermediate.
pub fn goal_from_reply(
    subject: Option<&str>,
    concept: Option<&str>,
    mode: Option<&str>,
    level: Option<&str>,
    input: &str,
    teacher_id: &str,
) -> (g: TeachingGoal)
    ensures
        g.subject@ == (match subject {
            Some(s) => s@,
            None => "通用"@,
        }),
        g.concept@ == (match concept {
            Some(c) => c@,
            None => input@,
        }),
        g.mode == (match mode {
            Some(m) => mode_named(m@),
            None => TeachingMode::DirectInstruction,
        }),
        g.target_level == (match level {
            Some(l) => level_named(l@),
            None => StudentLevel::Intermediate,
        }),
        g.constraints@.len() == 0,
        g.teacher_id@ == teacher_id@,
{
    let mode = match mode {
        Some(m) => if crate::text::str_eq(m, "socratic_dialogue") {
            TeachingMode::SocraticDialogue
        } else if crate::text::str_eq(m, "project_based") {
            TeachingMode::ProjectBased
        } else if crate::text::str_eq(m, "flipped_classroom") {
            TeachingMode::FlippedClassroom
        } else if crate::text::str_eq(m, "inquiry_based") {
            TeachingMode::InquiryBased
        } else {
            TeachingMode::DirectInstruction
        },
        None => TeachingMode::DirectInstruction,
    };
    let target_level = match level {
        Some(l) => if crate::text::str_eq(l, "beginner") {
            StudentLevel::Beginner
        } else if crate::text::str_eq(l, "advanced") {
            StudentLevel::Advanced
        } else {
            StudentLevel::Intermediate
        },
        None => StudentLevel::Intermediate,
    };
    TeachingGoal {
        subject: match subject {
            Some(s) => owned(s),
            None => owned("通用"),
        },
        concept: match concept {
            Some(c) => owned(c),
            None => owned(input),
        },
        mode,
        target_level,
        constraints: Vec::new(),
        teacher_id: owned(teacher_id),
    }
}

} // verus!
