//! The decision rules of the identity-management layer.
//!
//! The commands that actually create users and edit group memberships are
//! host side effects and live with the embedding program; the rule that
//! picks which group a membership change targets is logic and lives here.

use vstd::prelude::*;

use crate::diff::chars_of;
use crate::diff::copy_range;
use crate::diff::find_char_exec;
use crate::diff::match_at;
use crate::diff::prefix_at;
use crate::diff::split_lines;
use crate::diff::split_lines_from;
use crate::diff::strip_cr;

verus! {

/// Compares two string slices by their characters.
#[verifier::loop_isolation(false)]
pub fn str_eq(a: &str, b: &str) -> (r: bool)
    ensures
        r == (a@ == b@),
{
    let av = chars_of(a);
    let bv = chars_of(b);
    if av.len() != bv.len() {
        return false;
    }
    let mut i: usize = 0;
    while i < av.len()
        invariant
            i <= av@.len(),
            av@.len() == bv@.len(),
            forall|k: int| 0 <= k < i ==> av@[k] == bv@[k],
        decreases av@.len() - i,
    {
        if av[i] != bv[i] {
            return false;
        }
        i += 1;
    }
    proof {
        assert(a@ =~= b@);
    }
    true
}

/// Some line of `lines` begins with `p`.
pub open spec fn any_line_starts_with(lines: Seq<Seq<char>>, p: Seq<char>) -> bool {
    exists|i: int| 0 <= i < lines.len() && prefix_at(#[trigger] lines[i], 0, p)
}

/// The group database text (one record per line) lists `group`: some line
/// begins with `<group>:`.
pub open spec fn group_listed(db: Seq<char>, group: Seq<char>) -> bool {
    any_line_starts_with(split_lines(db), group.push(':'))
}

proof fn lemma_any_line_unfold(x: Seq<char>, rest: Seq<Seq<char>>, p: Seq<char>)
    ensures
        any_line_starts_with(seq![x] + rest, p) == (prefix_at(x, 0, p) || any_line_starts_with(
            rest,
            p,
        )),
{
    let l = seq![x] + rest;
    assert(l[0] == x);
    if prefix_at(x, 0, p) {
        assert(prefix_at(l[0], 0, p));
    } else if any_line_starts_with(rest, p) {
        let i = choose|i: int| 0 <= i < rest.len() && prefix_at(#[trigger] rest[i], 0, p);
        assert(l[i + 1] == rest[i]);
        assert(prefix_at(l[i + 1], 0, p));
    } else if any_line_starts_with(l, p) {
        let i = choose|i: int| 0 <= i < l.len() && prefix_at(#[trigger] l[i], 0, p);
        if i > 0 {
            assert(rest[i - 1] == l[i]);
            assert(prefix_at(rest[i - 1], 0, p));
        }
    }
}

/// Whether the group database text lists `group`.
#[verifier::loop_isolation(false)]
pub fn group_db_lists(db: &str, group: &str) -> (r: bool)
    ensures
        r == group_listed(db@, group@),
{
    let d = chars_of(db);
    let mut pat = chars_of(group);
    pat.push(':');
    let mut pos: usize = 0;
    while pos < d.len()
        invariant
            pos <= d@.len(),
            d@ == db@,
            pat@ == group@.push(':'),
            any_line_starts_with(split_lines(db@), pat@) == any_line_starts_with(
                split_lines_from(db@, pos as int),
                pat@,
            ),
        decreases d@.len() - pos,
    {
        let p = find_char_exec(d.as_slice(), pos, '\n');
        let ghost pre_lines = split_lines_from(db@, pos as int);
        if p == d.len() {
            let line = copy_range(d.as_slice(), pos, p);
            proof {
                assert(pre_lines == seq![line@] + split_lines_from(db@, p as int));
                lemma_any_line_unfold(line@, split_lines_from(db@, p as int), pat@);
            }
            if match_at(line.as_slice(), 0, pat.as_slice()) {
                return true;
            }
            pos = p;
        } else {
            let line_end = if p > pos && d[p - 1] == '\r' {
                p - 1
            } else {
                p
            };
            let line = copy_range(d.as_slice(), pos, line_end);
            proof {
                assert(line@ =~= strip_cr(db@.subrange(pos as int, p as int)));
                assert(pre_lines == seq![line@] + split_lines_from(db@, p + 1));
                lemma_any_line_unfold(line@, split_lines_from(db@, p + 1), pat@);
            }
            if match_at(line.as_slice(), 0, pat.as_slice()) {
                return true;
            }
            pos = p + 1;
        }
    }
    false
}

pub open spec fn sudo_group() -> Seq<char> {
    "sudo"@
}

pub open spec fn wheel_group() -> Seq<char> {
    "wheel"@
}

/// The group a membership change targets.  A request for `sudo` falls back
/// to `wheel` when the host has no `sudo` group; any other group must exist
/// as named.  `None` means no usable group exists on the host.
pub open spec fn selected_group(
    group: Seq<char>,
    sudo_exists: bool,
    wheel_exists: bool,
    group_exists: bool,
) -> Option<Seq<char>> {
    if group == sudo_group() {
        if sudo_exists {
            Some(sudo_group())
        } else if wheel_exists {
            Some(wheel_group())
        } else {
            None
        }
    } else {
        if group_exists {
            Some(group)
        } else {
            None
        }
    }
}

/// Picks the group to operate on.  `sudo_exists`, `wheel_exists` and
/// `group_exists` report whether the host has a `sudo` group, a `wheel`
/// group, and the group named by `group` itself.
pub fn select_group(group: &str, sudo_exists: bool, wheel_exists: bool, group_exists: bool) -> (r:
    Option<String>)
    ensures
        r.deep_view() == selected_group(group@, sudo_exists, wheel_exists, group_exists),
{
    if str_eq(group, "sudo") {
        if sudo_exists {
            Some("sudo".to_owned())
        } else if wheel_exists {
            Some("wheel".to_owned())
        } else {
            None
        }
    } else {
        if group_exists {
            Some(group.to_owned())
        } else {
            None
        }
    }
}

} // verus!
