//! The checkpoint: the persisted cursor marking the last fully processed
//! commit.  An absent checkpoint, or one whose text is blank, means the
//! system is uninitialized and must perform a full resync.
//!
//! [`CheckpointStore`] is the store's contract in memory: `save` replaces
//! the whole value atomically and `load` returns exactly what was last
//! saved.  A durable backend must refine this contract: a failed save must
//! leave the previous value readable.

use vstd::prelude::*;

use crate::diff::chars_of;

verus! {

/// The Unicode whitespace characters a blank checkpoint may consist of.
pub open spec fn is_space_char(c: char) -> bool {
    c == ' ' || c == '\t' || c == '\n' || c == '\r' || c == '\u{b}' || c == '\u{c}'
        || c == '\u{85}' || c == '\u{a0}' || c == '\u{1680}'
        || ('\u{2000}' <= c && c <= '\u{200a}')
        || c == '\u{2028}' || c == '\u{2029}' || c == '\u{202f}' || c == '\u{205f}'
        || c == '\u{3000}'
}

/// A checkpoint text that carries no commit: empty or whitespace only.
pub open spec fn is_blank(s: Seq<char>) -> bool {
    forall|i: int| 0 <= i < s.len() ==> is_space_char(#[trigger] s[i])
}

/// Tests whether a stored checkpoint text is blank.
#[verifier::loop_isolation(false)]
pub fn checkpoint_is_blank(s: &str) -> (r: bool)
    ensures
        r == is_blank(s@),
{
    let cs = chars_of(s);
    let mut i: usize = 0;
    while i < cs.len()
        invariant
            i <= cs@.len(),
            forall|k: int| 0 <= k < i ==> is_space_char(#[trigger] cs@[k]),
        decreases cs@.len() - i,
    {
        let c = cs[i];
        let ws = c == ' ' || c == '\t' || c == '\n' || c == '\r' || c == '\u{b}' || c == '\u{c}'
            || c == '\u{85}' || c == '\u{a0}' || c == '\u{1680}'
            || ('\u{2000}' <= c && c <= '\u{200a}')
            || c == '\u{2028}' || c == '\u{2029}' || c == '\u{202f}' || c == '\u{205f}'
            || c == '\u{3000}';
        if !ws {
            return false;
        }
        i += 1;
    }
    true
}

/// An absent or blank stored value means "no checkpoint".
pub open spec fn normalized_checkpoint(v: Option<Seq<char>>) -> Option<Seq<char>> {
    match v {
        None => None,
        Some(s) => if is_blank(s) {
            None
        } else {
            Some(s)
        },
    }
}

/// Normalizes a raw stored value: `None` or blank text both mean that the
/// system is uninitialized.
pub fn normalize_checkpoint(v: Option<String>) -> (r: Option<String>)
    ensures
        r.deep_view() == normalized_checkpoint(v.deep_view()),
{
    match v {
        None => None,
        Some(s) => {
            if checkpoint_is_blank(s.as_str()) {
                None
            } else {
                Some(s)
            }
        },
    }
}

/// The checkpoint store: holds at most one commit identifier.
pub struct CheckpointStore {
    value: Option<String>,
}

impl CheckpointStore {
    /// What the store currently holds.
    pub closed spec fn stored(&self) -> Option<Seq<char>> {
        self.value.deep_view()
    }

    /// A store that was never written: it loads nothing.
    pub fn new() -> (r: CheckpointStore)
        ensures
            r.stored() is None,
    {
        CheckpointStore { value: None }
    }

    /// Replaces the stored checkpoint with `commit`, atomically: afterwards
    /// the store holds exactly `commit`.
    pub fn save(&mut self, commit: String)
        ensures
            final(self).stored() == Some(commit@),
    {
        self.value = Some(commit);
    }

    /// Loads the stored checkpoint: exactly what was last saved, `None` on
    /// a store that was never written.
    pub fn load(&self) -> (r: Option<String>)
        ensures
            r.deep_view() == self.stored(),
    {
        match &self.value {
            None => None,
            Some(s) => Some(s.clone()),
        }
    }
}

} // verus!
