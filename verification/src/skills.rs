//! The skills bus: which skill definitions are installed and which skills
//! are registered to run. A skill can only be registered once installed,
//! and cannot be uninstalled while registered, so every registered skill
//! is installed.
//!
//! The skill objects themselves (which call language models) are kept by
//! the caller under the names this registry admits.

use vstd::prelude::*;
use crate::text::{clone_strings, concat, str_eq, views};

verus! {

/// Kind of a skill.
#[derive(Debug, Clone, Copy, PartialEq, Eq, Structural)]
pub enum SkillCategory {
    Teaching,
    Analysis,
    Resource,
    Coaching,
    Feedback,
    Orchestration,
    Evolution,
    Custom,
}

/// Errors of the skills bus.
#[derive(Debug)]
pub enum SkillError {
    ExecutionError(String),
    InvalidInput(String),
    NotInstalled(String),
    NotRegistered(String),
    StillRegistered(String),
}

impl SkillError {
    /// The error's message.
    pub open spec fn spec_message(&self) -> Seq<char> {
        match self {
            SkillError::ExecutionError(s) => "Skill execution failed: "@ + s@,
            SkillError::InvalidInput(s) => "Invalid input: "@ + s@,
            SkillError::NotInstalled(s) => "Skill not installed: "@ + s@,
            SkillError::NotRegistered(s) => "Skill not registered: "@ + s@,
            SkillError::StillRegistered(s) => "Cannot uninstall while registered: "@ + s@,
        }
    }

    /// The error's message.
    pub fn message(&self) -> (r: String)
        ensures
            r@ == self.spec_message(),
    {
        match self {
            SkillError::ExecutionError(s) => concat("Skill execution failed: ", s.as_str()),
            SkillError::InvalidInput(s) => concat("Invalid input: ", s.as_str()),
            SkillError::NotInstalled(s) => concat("Skill not installed: ", s.as_str()),
            SkillError::NotRegistered(s) => concat("Skill not registered: ", s.as_str()),
            SkillError::StillRegistered(s) => concat("Cannot uninstall while registered: ", s.as_str()),
        }
    }
}

/// What the bus knows of an installed skill definition.
#[derive(Debug)]
pub struct SkillInfo {
    pub name: String,
    pub display_name: String,
    pub version: String,
    pub description: String,
    pub category: SkillCategory,
    pub binds: Vec<String>,
}

/// The mathematical content of a `SkillInfo`.
pub struct SkillInfoView {
    pub name: Seq<char>,
    pub display_name: Seq<char>,
    pub version: Seq<char>,
    pub description: Seq<char>,
    pub category: SkillCategory,
    pub binds: Seq<Seq<char>>,
}

impl View for SkillInfo {
    type V = SkillInfoView;

    open spec fn view(&self) -> SkillInfoView {
        SkillInfoView {
            name: self.name@,
            display_name: self.display_name@,
            version: self.version@,
            description: self.description@,
            category: self.category,
            binds: views(self.binds@),
        }
    }
}

/// Status of one installed skill.
#[derive(Debug)]
pub struct SkillStatus {
    pub name: String,
    pub display_name: String,
    pub version: String,
    pub description: String,
    pub category: SkillCategory,
    pub installed: bool,
    pub registered: bool,
    pub binds: Vec<String>,
}

/// Whether a name occurs in a list of names.
pub open spec fn listed(names: Seq<Seq<char>>, n: Seq<char>) -> bool {
    names.contains(n)
}

/// Index of the definition installed under `name`.
pub open spec fn def_index(defs: Seq<SkillInfoView>, name: Seq<char>) -> Option<int> {
    if exists|i: int| 0 <= i < defs.len() && (#[trigger] defs[i]).name == name {
        Some(choose|i: int| 0 <= i < defs.len() && (#[trigger] defs[i]).name == name)
    } else {
        None
    }
}

/// The names of a list of definitions.
pub open spec fn def_names(defs: Seq<SkillInfoView>) -> Seq<Seq<char>> {
    defs.map_values(|d: SkillInfoView| d.name)
}

/// The skills bus.
pub struct SkillsBus {
    definitions: Vec<SkillInfo>,
    active: Vec<String>,
}

impl SkillsBus {
    /// Installed definitions, in the order they were first installed.
    pub closed spec fn defs(&self) -> Seq<SkillInfoView> {
        self.definitions@.map_values(|d: SkillInfo| d@)
    }

    /// Registered skill names, in the order they were registered.
    pub closed spec fn registered(&self) -> Seq<Seq<char>> {
        views(self.active@)
    }

    /// The bus's invariant: names are unique in both lists and every
    /// registered skill is installed.
    pub open spec fn wf(&self) -> bool {
        &&& forall|i: int, j: int|
            0 <= i < j < self.defs().len() ==> (#[trigger] self.defs()[i]).name != (
            #[trigger] self.defs()[j]).name
        &&& self.registered().no_duplicates()
        &&& forall|n: Seq<char>|
            #[trigger] self.registered().contains(n) ==> def_names(self.defs()).contains(n)
    }

    /// An empty bus.
    pub fn new() -> (r: SkillsBus)
        ensures
            r.wf(),
            r.defs() == Seq::<SkillInfoView>::empty(),
            r.registered() == Seq::<Seq<char>>::empty(),
    {
        let r = SkillsBus { definitions: Vec::new(), active: Vec::new() };
        assert(r.defs() =~= Seq::<SkillInfoView>::empty());
        assert(r.registered() =~= Seq::<Seq<char>>::empty());
        r
    }

    fn find_def(&self, name: &str) -> (r: Option<usize>)
        requires
            self.wf(),
        ensures
            match r {
                Some(i) => i < self.defs().len() && self.defs()[i as int].name == name@ && def_index(
                    self.defs(),
                    name@,
                ) == Some(i as int),
                None => def_index(self.defs(), name@) is None && !def_names(self.defs()).contains(
                    name@,
                ),
            },
    {
        let mut i: usize = 0;
        while i < self.definitions.len()
            invariant
                i <= self.definitions.len(),
                self.wf(),
                forall|j: int| 0 <= j < i ==> (#[trigger] self.defs()[j]).name != name@,
            decreases self.definitions.len() - i,
        {
            assert(self.defs()[i as int] == self.definitions@[i as int]@);
            if str_eq(self.definitions[i].name.as_str(), name) {
                proof {
                    let c = choose|j: int| 0 <= j < self.defs().len() && (#[trigger] self.defs()[j]).name == name@;
                    if c != i {
                        if c < i {
                            assert(self.defs()[c].name != self.defs()[i as int].name);
                        } else {
                            assert(self.defs()[i as int].name != self.defs()[c].name);
                        }
                    }
                }
                return Some(i);
            }
            i = i + 1;
        }
        proof {
            if def_names(self.defs()).contains(name@) {
                let k = choose|k: int| 0 <= k < def_names(self.defs()).len() && def_names(self.defs())[k] == name@;
                assert(self.defs()[k].name == name@);
            }
        }
        None
    }

    fn find_active(&self, name: &str) -> (r: Option<usize>)
        ensures
            match r {
                Some(i) => i < self.registered().len() && self.registered()[i as int] == name@,
                None => !self.registered().contains(name@),
            },
    {
        let mut i: usize = 0;
        while i < self.active.len()
            invariant
                i <= self.active.len(),
                forall|j: int| 0 <= j < i ==> (#[trigger] self.registered()[j]) != name@,
            decreases self.active.len() - i,
        {
            assert(self.registered()[i as int] == self.active@[i as int]@);
            if str_eq(self.active[i].as_str(), name) {
                return Some(i);
            }
            i = i + 1;
        }
        None
    }

    /// Installs a definition, replacing one installed under the same name.
    pub fn install(&mut self, def: SkillInfo)
        requires
            old(self).wf(),
        ensures
            final(self).wf(),
            final(self).registered() == old(self).registered(),
            match def_index(old(self).defs(), def@.name) {
                Some(i) => final(self).defs() == old(self).defs().update(i, def@),
                None => final(self).defs() == old(self).defs().push(def@),
            },
    {
        let ghost dv = def@;
        match self.find_def(def.name.as_str()) {
            Some(i) => {
                self.definitions.set(i, def);
                proof {
                    assert(self.defs() =~= old(self).defs().update(i as int, dv));
                    assert(def_names(self.defs()) =~= def_names(old(self).defs()));
                    assert forall|a: int, b: int| 0 <= a < b < self.defs().len() implies (
                    #[trigger] self.defs()[a]).name != (#[trigger] self.defs()[b]).name by {
                        assert(old(self).defs()[a].name != old(self).defs()[b].name);
                    }
                }
            },
            None => {
                self.definitions.push(def);
                proof {
                    let o = old(self).defs();
                    assert(self.defs() =~= o.push(dv));
                    assert(def_names(self.defs()) =~= def_names(o).push(dv.name));
                    assert forall|a: int, b: int| 0 <= a < b < self.defs().len() implies (
                    #[trigger] self.defs()[a]).name != (#[trigger] self.defs()[b]).name by {
                        if b == o.len() {
                            assert(def_names(o)[a] == o[a].name);
                        } else {
                            assert(o[a].name != o[b].name);
                        }
                    }
                    assert forall|n: Seq<char>| #[trigger] self.registered().contains(n) implies def_names(
                        self.defs(),
                    ).contains(n) by {
                        assert(def_names(o).contains(n));
                        let k = choose|k: int| 0 <= k < def_names(o).len() && def_names(o)[k] == n;
                        assert(def_names(self.defs())[k] == n);
                    }
                }
            },
        }
    }

    /// Uninstalls a definition: refused while the skill is registered or
    /// when nothing is installed under the name.
    pub fn uninstall(&mut self, name: &str) -> (r: Result<(), SkillError>)
        requires
            old(self).wf(),
        ensures
            final(self).wf(),
            final(self).registered() == old(self).registered(),
            old(self).registered().contains(name@) ==> (r matches Err(SkillError::StillRegistered(n))
                && n@ == name@ && final(self).defs() == old(self).defs()),
            !old(self).registered().contains(name@) ==> match def_index(old(self).defs(), name@) {
                Some(i) => r is Ok && final(self).defs() == old(self).defs().remove(i),
                None => r matches Err(SkillError::NotInstalled(n)) && n@ == name@ && final(self).defs()
                    == old(self).defs(),
            },
    {
        match self.find_active(name) {
            Some(_) => return Err(SkillError::StillRegistered(crate::text::owned(name))),
            None => {},
        }
        match self.find_def(name) {
            Some(i) => {
                self.definitions.remove(i);
                proof {
                    let o = old(self).defs();
                    assert(self.defs() =~= o.remove(i as int));
                    assert forall|a: int, b: int| 0 <= a < b < self.defs().len() implies (
                    #[trigger] self.defs()[a]).name != (#[trigger] self.defs()[b]).name by {
                        if a < i {
                            if b < i {
                                assert(o[a].name != o[b].name);
                            } else {
                                assert(o[a].name != o[b + 1].name);
                            }
                        } else {
                            assert(o[a + 1].name != o[b + 1].name);
                        }
                    }
                    assert forall|n: Seq<char>| #[trigger] self.registered().contains(n) implies def_names(
                        self.defs(),
                    ).contains(n) by {
                        assert(def_names(o).contains(n));
                        let k = choose|k: int| 0 <= k < def_names(o).len() && def_names(o)[k] == n;
                        assert(n != name@);
                        assert(k != i);
                        if k < i {
                            assert(def_names(self.defs())[k] == n);
                        } else {
                            assert(def_names(self.defs())[k - 1] == n);
                        }
                    }
                }
                Ok(())
            },
            None => Err(SkillError::NotInstalled(crate::text::owned(name))),
        }
    }

    /// Registers an installed skill to run (registering again changes
    /// nothing); refused for a skill that is not installed.
    pub fn register(&mut self, name: &str) -> (r: Result<(), SkillError>)
        requires
            old(self).wf(),
        ensures
            final(self).wf(),
            final(self).defs() == old(self).defs(),
            def_names(old(self).defs()).contains(name@) ==> r is Ok && final(self).registered()
                == if old(self).registered().contains(name@) {
                old(self).registered()
            } else {
                old(self).registered().push(name@)
            },
            !def_names(old(self).defs()).contains(name@) ==> (r matches Err(SkillError::NotInstalled(n))
                && n@ == name@ && final(self).registered() == old(self).registered()),
    {
        match self.find_def(name) {
            None => return Err(SkillError::NotInstalled(crate::text::owned(name))),
            Some(i) => {
                assert(def_names(self.defs())[i as int] == name@);
                assert(def_names(self.defs()).contains(name@));
            },
        }
        match self.find_active(name) {
            Some(_) => Ok(()),
            None => {
                let ghost o = self.registered();
                self.active.push(crate::text::owned(name));
                proof {
                    assert(self.registered() =~= o.push(name@));
                    assert forall|a: int, b: int|
                        0 <= a < self.registered().len() && 0 <= b < self.registered().len() && a
                            != b implies self.registered()[a] != self.registered()[b] by {
                        if b == o.len() {
                            assert(o.contains(o[a]));
                        } else if a == o.len() {
                            assert(o.contains(o[b]));
                        }
                    }
                    assert forall|n: Seq<char>| #[trigger] self.registered().contains(n) implies def_names(
                        self.defs(),
                    ).contains(n) by {
                        if n != name@ {
                            let k = choose|k: int| 0 <= k < self.registered().len() && self.registered()[k] == n;
                            assert(o[k] == n);
                            assert(o.contains(n));
                        }
                    }
                }
                Ok(())
            },
        }
    }

    /// Stops running a skill; refused when it is not registered.
    pub fn unregister(&mut self, name: &str) -> (r: Result<(), SkillError>)
        requires
            old(self).wf(),
        ensures
            final(self).wf(),
            final(self).defs() == old(self).defs(),
            old(self).registered().contains(name@) ==> r is Ok && !final(self).registered().contains(name@)
                && final(self).registered().to_set() == old(self).registered().to_set().remove(name@),
            !old(self).registered().contains(name@) ==> (r matches Err(SkillError::NotRegistered(n))
                && n@ == name@ && final(self).registered() == old(self).registered()),
    {
        match self.find_active(name) {
            Some(i) => {
                let ghost o = self.registered();
                self.active.remove(i);
                proof {
                    assert(self.registered() =~= o.remove(i as int));
                    assert forall|a: int, b: int| 0 <= a < b < self.registered().len() implies self.registered()[a]
                        != self.registered()[b] by {
                        if a < i {
                            if b < i {
                            } else {
                                assert(o[a] != o[b + 1]);
                            }
                        } else {
                            assert(o[a + 1] != o[b + 1]);
                        }
                    }
                    assert forall|n: Seq<char>| #[trigger] self.registered().contains(n) implies def_names(
                        self.defs(),
                    ).contains(n) by {
                        let k = choose|k: int| 0 <= k < self.registered().len() && self.registered()[k] == n;
                        if k < i {
                            assert(o[k] == n);
                        } else {
                            assert(o[k + 1] == n);
                        }
                        assert(o.contains(n));
                    }
                    assert(!self.registered().contains(name@)) by {
                        if self.registered().contains(name@) {
                            let k = choose|k: int| 0 <= k < self.registered().len() && self.registered()[k] == name@;
                            if k < i {
                                assert(o[k] == o[i as int]);
                            } else {
                                assert(o[k + 1] == o[i as int]);
                            }
                        }
                    }
                    assert(self.registered().to_set() =~= o.to_set().remove(name@)) by {
                        assert forall|n: Seq<char>| #[trigger] o.to_set().remove(name@).contains(n) implies self.registered().to_set().contains(n) by {
                            let k = choose|k: int| 0 <= k < o.len() && o[k] == n;
                            assert(k != i);
                            if k < i {
                                assert(self.registered()[k] == n);
                            } else {
                                assert(self.registered()[k - 1] == n);
                            }
                        }
                        assert forall|n: Seq<char>| #[trigger] self.registered().to_set().contains(n) implies o.to_set().remove(name@).contains(n) by {
                            let k = choose|k: int| 0 <= k < self.registered().len() && self.registered()[k] == n;
                            if k < i {
                                assert(o[k] == n);
                            } else {
                                assert(o[k + 1] == n);
                            }
                        }
                    }
                }
                Ok(())
            },
            None => Err(SkillError::NotRegistered(crate::text::owned(name))),
        }
    }

    /// Whether a skill may run: it must be registered.
    pub fn check_execute(&self, name: &str) -> (r: Result<(), SkillError>)
        ensures
            self.registered().contains(name@) ==> r is Ok,
            !self.registered().contains(name@) ==> (r matches Err(SkillError::NotRegistered(n))
                && n@ == name@),
    {
        match self.find_active(name) {
            Some(i) => {
                assert(self.registered()[i as int] == name@);
                Ok(())
            },
            None => Err(SkillError::NotRegistered(crate::text::owned(name))),
        }
    }

    /// Registered skill names.
    pub fn list_skills(&self) -> (r: Vec<String>)
        ensures
            views(r@) == self.registered(),
    {
        clone_strings(&self.active)
    }

    /// Status of every installed definition, with whether it is registered.
    pub fn status(&self) -> (r: Vec<SkillStatus>)
        requires
            self.wf(),
        ensures
            r.len() == self.defs().len(),
            forall|i: int|
                0 <= i < r.len() ==> {
                    let s = #[trigger] r[i];
                    let d = self.defs()[i];
                    &&& s.name@ == d.name
                    &&& s.display_name@ == d.display_name
                    &&& s.version@ == d.version
                    &&& s.description@ == d.description
                    &&& s.category == d.category
                    &&& s.installed
                    &&& s.registered == self.registered().contains(d.name)
                    &&& views(s.binds@) == d.binds
                },
    {
        let mut out: Vec<SkillStatus> = Vec::new();
        let mut i: usize = 0;
        while i < self.definitions.len()
            invariant
                i <= self.definitions.len(),
                out.len() == i,
                forall|j: int|
                    0 <= j < i ==> {
                        let s = #[trigger] out[j];
                        let d = self.defs()[j];
                        &&& s.name@ == d.name
                        &&& s.display_name@ == d.display_name
                        &&& s.version@ == d.version
                        &&& s.description@ == d.description
                        &&& s.category == d.category
                        &&& s.installed
                        &&& s.registered == self.registered().contains(d.name)
                        &&& views(s.binds@) == d.binds
                    },
            decreases self.definitions.len() - i,
        {
            assert(self.defs()[i as int] == self.definitions@[i as int]@);
            let d = &self.definitions[i];
            let registered = match self.find_active(d.name.as_str()) {
                Some(_) => true,
                None => false,
            };
            out.push(SkillStatus {
                name: d.name.clone(),
                display_name: d.display_name.clone(),
                version: d.version.clone(),
                description: d.description.clone(),
                category: d.category,
                installed: true,
                registered,
                binds: clone_strings(&d.binds),
            });
            i = i + 1;
        }
        out
    }
}


/// Every registered skill is installed: registering needs an installed
/// definition, and an installed skill cannot be uninstalled while it is
/// registered.
pub proof fn law_registered_are_installed(bus: &SkillsBus, name: Seq<char>)
    requires
        bus.wf(),
        bus.registered().contains(name),
    ensures
        def_names(bus.defs()).contains(name),
{
}

} // verus!
