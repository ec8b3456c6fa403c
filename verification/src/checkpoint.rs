//! Working checkpoint: a short notepad carried across agent loop turns
//! without re-injecting the whole conversation. Times are microseconds
//! since the Unix epoch.

use vstd::prelude::*;
use crate::platform::now_micros;
use crate::text::{byte_len, concat, dec, decimal, owned, push_str};

verus! {

/// Key information carried across loop iterations.
#[derive(Debug)]
pub struct WorkingCheckpoint {
    /// Current progress, constraints, findings
    pub key_info: String,
    /// Related SOP file name for quick reference
    pub related_sop: Option<String>,
    /// Sessions passed since the key information was set
    pub passed_sessions: u32,
    pub created_at: i64,
    pub updated_at: i64,
}

/// The block injected into the system prompt.
pub open spec fn injection_spec(key_info: Seq<char>, passed: u32, sop: Option<Seq<char>>) -> Seq<char> {
    let base = "[工作记忆] "@ + key_info + "\n[SYSTEM] 此为 "@ + dec(passed as nat)
        + " 个对话前设置的 key_info，若已在新任务，请先更新或清除工作记忆。\n"@;
    match sop {
        Some(s) => base + "有不清晰的地方请重新读取: "@ + s + "\n"@,
        None => base,
    }
}

impl WorkingCheckpoint {
    /// A checkpoint holding `key_info`, set now.
    pub fn new(key_info: &str) -> (r: WorkingCheckpoint)
        ensures
            r.key_info@ == key_info@,
            r.related_sop is None,
            r.passed_sessions == 0,
            r.created_at == r.updated_at,
    {
        let now = now_micros();
        WorkingCheckpoint {
            key_info: owned(key_info),
            related_sop: None,
            passed_sessions: 0,
            created_at: now,
            updated_at: now,
        }
    }

    /// Replaces the key information and restarts the session count.
    pub fn update(&mut self, key_info: &str)
        ensures
            final(self).key_info@ == key_info@,
            final(self).passed_sessions == 0,
            final(self).related_sop == old(self).related_sop,
            final(self).created_at == old(self).created_at,
    {
        self.key_info = owned(key_info);
        self.passed_sessions = 0;
        self.updated_at = now_micros();
    }

    /// The checkpoint with a related SOP reference.
    pub fn with_sop(self, sop_name: &str) -> (r: WorkingCheckpoint)
        ensures
            r.related_sop matches Some(s) && s@ == sop_name@,
            r.key_info == self.key_info,
            r.passed_sessions == self.passed_sessions,
            r.created_at == self.created_at,
            r.updated_at == self.updated_at,
    {
        let mut s = self;
        s.related_sop = Some(owned(sop_name));
        s
    }

    /// Counts one more passed session (stopping at `u32::MAX`).
    pub fn increment_passed(&mut self)
        ensures
            final(self).passed_sessions == if old(self).passed_sessions == u32::MAX {
                u32::MAX
            } else {
                (old(self).passed_sessions + 1) as u32
            },
            final(self).key_info == old(self).key_info,
            final(self).related_sop == old(self).related_sop,
            final(self).created_at == old(self).created_at,
            final(self).updated_at == old(self).updated_at,
    {
        self.passed_sessions = self.passed_sessions.saturating_add(1);
    }

    /// The block for the system prompt: the key information, how many
    /// sessions ago it was set, and the SOP to reread when there is one.
    pub fn to_prompt_injection(&self) -> (r: String)
        ensures
            r@ == injection_spec(
                self.key_info@,
                self.passed_sessions,
                match self.related_sop {
                    Some(s) => Some(s@),
                    None => None,
                },
            ),
    {
        let mut s = concat("[工作记忆] ", self.key_info.as_str());
        push_str(&mut s, "\n[SYSTEM] 此为 ");
        push_str(&mut s, decimal(self.passed_sessions as u64).as_str());
        push_str(&mut s, " 个对话前设置的 key_info，若已在新任务，请先更新或清除工作记忆。\n");
        match &self.related_sop {
            Some(sop) => {
                push_str(&mut s, "有不清晰的地方请重新读取: ");
                push_str(&mut s, sop.as_str());
                push_str(&mut s, "\n");
            },
            None => {},
        }
        s
    }

    /// Stale once more than five sessions have passed.
    pub fn is_stale(&self) -> (r: bool)
        ensures
            r == (self.passed_sessions > 5),
    {
        self.passed_sessions > 5
    }

    /// Whether the key information is empty.
    pub fn is_empty(&self) -> (r: bool)
        ensures
            r == (self.key_info@.len() == 0),
    {
        byte_len(self.key_info.as_str()) == 0
    }
}

impl Default for WorkingCheckpoint {
    /// An empty checkpoint, set now.
    fn default() -> (r: WorkingCheckpoint)
        ensures
            r.key_info@.len() == 0,
            r.related_sop is None,
            r.passed_sessions == 0,
            r.created_at == r.updated_at,
    {
        proof {
            reveal_strlit("");
        }
        WorkingCheckpoint::new("")
    }
}

} // verus!
