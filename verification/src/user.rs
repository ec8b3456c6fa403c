//! Per-student settings and mastery bands.

use vstd::prelude::*;
use crate::text::{concat, owned, push_str, str_eq};

verus! {

/// A student's own language-model settings.
#[derive(Debug)]
pub struct UserLlmConfig {
    /// "openai" | "anthropic" | "ollama"
    pub provider: String,
    pub base_url: String,
    /// The student's own key (empty by default)
    pub api_key: String,
    pub model: String,
}

/// How well a concept is mastered.
#[derive(Debug, Clone, Copy, PartialEq, Eq, Structural)]
pub enum MasteryCategory {
    Unknown,
    Beginner,
    Struggling,
    Developing,
    Mastered,
}

/// A misunderstanding a student showed, and how often.
#[derive(Debug)]
pub struct Misconception {
    pub description: String,
    pub related_concept: String,
    pub occurrences: u32,
    pub resolved: bool,
}

/// The mathematical content of a `Misconception`.
pub struct MisconceptionView {
    pub description: Seq<char>,
    pub related_concept: Seq<char>,
    pub occurrences: u32,
    pub resolved: bool,
}

impl View for Misconception {
    type V = MisconceptionView;

    open spec fn view(&self) -> MisconceptionView {
        MisconceptionView {
            description: self.description@,
            related_concept: self.related_concept@,
            occurrences: self.occurrences,
            resolved: self.resolved,
        }
    }
}

/// The views of a list of misconceptions.
pub open spec fn misconception_views(ms: Seq<Misconception>) -> Seq<MisconceptionView> {
    ms.map_values(|m: Misconception| m@)
}

/// Index of the first misconception described as `d`.
pub open spec fn first_described(ms: Seq<MisconceptionView>, d: Seq<char>) -> Option<int>
    decreases ms.len(),
{
    if ms.len() == 0 {
        None
    } else {
        match first_described(ms.drop_last(), d) {
            Some(i) => Some(i),
            None => if ms.last().description == d {
                Some(ms.len() - 1)
            } else {
                None
            },
        }
    }
}

/// The misconceptions after one more sighting of `d` about `concept`: the
/// first one described so counts one more occurrence, or a new unresolved
/// one is added.
pub open spec fn sighted(ms: Seq<MisconceptionView>, d: Seq<char>, concept: Seq<char>) -> Seq<MisconceptionView> {
    match first_described(ms, d) {
        Some(i) => ms.update(i, MisconceptionView { occurrences: (ms[i].occurrences + 1) as u32, ..ms[i] }),
        None => ms.push(MisconceptionView { description: d, related_concept: concept, occurrences: 1, resolved: false }),
    }
}

proof fn lemma_first_is(ms: Seq<MisconceptionView>, d: Seq<char>, i: int)
    requires
        0 <= i < ms.len(),
        ms[i].description == d,
        forall|j: int| 0 <= j < i ==> (#[trigger] ms[j]).description != d,
    ensures
        first_described(ms, d) == Some(i),
    decreases ms.len(),
{
    if i == ms.len() - 1 {
        lemma_none_before(ms.drop_last(), d);
    } else {
        lemma_first_is(ms.drop_last(), d, i);
    }
}

proof fn lemma_none_before(ms: Seq<MisconceptionView>, d: Seq<char>)
    requires
        forall|j: int| 0 <= j < ms.len() ==> (#[trigger] ms[j]).description != d,
    ensures
        first_described(ms, d) is None,
    decreases ms.len(),
{
    if ms.len() > 0 {
        lemma_none_before(ms.drop_last(), d);
    }
}

/// Counts a sighting of the misconception `description` about `concept`.
pub fn record_misconception(list: &mut Vec<Misconception>, description: &str, concept: &str)
    requires
        forall|j: int|
            0 <= j < old(list).len() && (#[trigger] old(list)[j]).description@ == description@
                ==> old(list)[j].occurrences < u32::MAX,
    ensures
        misconception_views(final(list)@) == sighted(misconception_views(old(list)@), description@, concept@),
{
    let ghost ms = misconception_views(list@);
    let mut i: usize = 0;
    while i < list.len()
        invariant
            i <= list.len(),
            ms == misconception_views(list@),
            list@ == old(list)@,
            forall|j: int| 0 <= j < i ==> (#[trigger] ms[j]).description != description@,
            forall|j: int|
                0 <= j < old(list).len() && (#[trigger] old(list)[j]).description@ == description@
                    ==> old(list)[j].occurrences < u32::MAX,
        decreases list.len() - i,
    {
        if str_eq(list[i].description.as_str(), description) {
            proof {
                lemma_first_is(ms, description@, i as int);
            }
            let n = list[i].occurrences + 1;
            let m = Misconception {
                description: list[i].description.clone(),
                related_concept: list[i].related_concept.clone(),
                occurrences: n,
                resolved: list[i].resolved,
            };
            list.set(i, m);
            assert(misconception_views(list@) =~= sighted(ms, description@, concept@));
            return;
        }
        i = i + 1;
    }
    proof {
        lemma_none_before(ms, description@);
    }
    list.push(Misconception {
        description: owned(description),
        related_concept: owned(concept),
        occurrences: 1,
        resolved: false,
    });
    assert(misconception_views(list@) =~= sighted(ms, description@, concept@));
}

/// Positions of the misconceptions not yet resolved, in order.
pub fn active_misconceptions(list: &Vec<Misconception>) -> (r: Vec<usize>)
    ensures
        forall|k: int| 0 <= k < r.len() ==> (#[trigger] r[k]) < list.len() && !list[r[k] as int].resolved,
        forall|k: int, l: int| 0 <= k < l < r.len() ==> r[k] < r[l],
        forall|j: int| 0 <= j < list.len() && !list[j].resolved ==> r@.contains(j as usize),
{
    let mut out: Vec<usize> = Vec::new();
    let mut i: usize = 0;
    while i < list.len()
        invariant
            i <= list.len(),
            forall|k: int| 0 <= k < out.len() ==> (#[trigger] out[k]) < i && !list[out[k] as int].resolved,
            forall|k: int, l: int| 0 <= k < l < out.len() ==> out[k] < out[l],
            forall|j: int| 0 <= j < i && !list[j].resolved ==> out@.contains(j as usize),
        decreases list.len() - i,
    {
        if !list[i].resolved {
            let ghost before = out@;
            out.push(i);
            proof {
                assert forall|j: int| 0 <= j < i + 1 && !list[j].resolved implies out@.contains(j as usize) by {
                    if j < i {
                        let k = choose|k: int| 0 <= k < before.len() && before[k] == j as usize;
                        assert(out@[k] == j as usize);
                    } else {
                        assert(out@[out.len() - 1] == i);
                    }
                }
            }
        }
        i = i + 1;
    }
    out
}

/// The view of an optional name.
pub open spec fn name_view(o: Option<String>) -> Option<Seq<char>> {
    match o {
        Some(x) => Some(x@),
        None => None,
    }
}

/// Whether some account has the id `id`.
pub open spec fn id_taken(ids: Seq<String>, id: Seq<char>) -> bool {
    exists|i: int| 0 <= i < ids.len() && (#[trigger] ids[i])@ == id
}

/// Whether some account shows the name `name`.
pub open spec fn name_taken(names: Seq<Option<String>>, name: Seq<char>) -> bool {
    exists|i: int| 0 <= i < names.len() && name_view(#[trigger] names[i]) == Some(name)
}

/// Why a new account cannot be made, given the ids and display names of
/// the accounts there are: its id is taken, or (checked second) its
/// display name is. `None` when it may be made.
pub fn account_conflict(
    ids: &Vec<String>,
    names: &Vec<Option<String>>,
    user_id: &str,
    display_name: Option<&str>,
) -> (r: Option<String>)
    ensures
        id_taken(ids@, user_id@) ==> (r matches Some(e) && e@ == "用户名 '"@ + user_id@ + "' 已存在"@),
        !id_taken(ids@, user_id@) ==> match display_name {
            Some(n) => if name_taken(names@, n@) {
                (r matches Some(e) && e@ == "显示名 '"@ + n@ + "' 已被使用"@)
            } else {
                r is None
            },
            None => r is None,
        },
{
    let mut i: usize = 0;
    while i < ids.len()
        invariant
            i <= ids.len(),
            forall|j: int| 0 <= j < i ==> (#[trigger] ids@[j])@ != user_id@,
        decreases ids.len() - i,
    {
        if str_eq(ids[i].as_str(), user_id) {
            let mut e = concat("用户名 '", user_id);
            push_str(&mut e, "' 已存在");
            return Some(e);
        }
        i = i + 1;
    }
    assert(!id_taken(ids@, user_id@));
    match display_name {
        Some(n) => {
            let mut k: usize = 0;
            while k < names.len()
                invariant
                    k <= names.len(),
                    !id_taken(ids@, user_id@),
                    display_name == Some(n),
                    forall|j: int| 0 <= j < k ==> name_view(#[trigger] names@[j]) != Some(n@),
                decreases names.len() - k,
            {
                let same = match &names[k] {
                    Some(x) => str_eq(x.as_str(), n),
                    None => false,
                };
                if same {
                    assert(name_view(names@[k as int]) == Some(n@));
                    let mut e = concat("显示名 '", n);
                    push_str(&mut e, "' 已被使用");
                    return Some(e);
                }
                k = k + 1;
            }
            None
        },
        None => None,
    }
}

/// Whether the account at `i` is known as `name`: by id or display name.
pub open spec fn known_as(ids: Seq<String>, names: Seq<Option<String>>, i: int, name: Seq<char>) -> bool {
    ids[i]@ == name || name_view(names[i]) == Some(name)
}

/// The first account whose id or display name is `name`, given the
/// accounts' ids and display names side by side.
pub fn find_account(ids: &Vec<String>, names: &Vec<Option<String>>, name: &str) -> (r: Option<usize>)
    requires
        ids.len() == names.len(),
    ensures
        match r {
            Some(i) => i < ids.len() && known_as(ids@, names@, i as int, name@) && forall|j: int|
                0 <= j < i ==> !known_as(ids@, names@, j, name@),
            None => forall|j: int| 0 <= j < ids.len() ==> !known_as(ids@, names@, j, name@),
        },
{
    let mut i: usize = 0;
    while i < ids.len()
        invariant
            i <= ids.len(),
            ids.len() == names.len(),
            forall|j: int| 0 <= j < i ==> !known_as(ids@, names@, j, name@),
        decreases ids.len() - i,
    {
        let by_name = match &names[i] {
            Some(x) => str_eq(x.as_str(), name),
            None => false,
        };
        if str_eq(ids[i].as_str(), name) || by_name {
            return Some(i);
        }
        i = i + 1;
    }
    None
}

} // verus!
