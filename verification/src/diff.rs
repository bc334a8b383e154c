//! Diff parsing: turning raw commit-range diff text into a deduplicated
//! sequence of classified change records.
//!
//! The parser recognises two path shapes on `diff --git` lines:
//! `access/<provider>/<project>/<hash>` and `names/<hash>`, where
//! `<provider>` and `<project>` are non-empty segments without `/`, and
//! `<hash>` is a non-empty run of ASCII word characters.  Classification is
//! diff-global, not hunk-scoped: a record is `Added` when the whole diff
//! contains a "new file mode" marker, `Deleted` when it contains a
//! "deleted file mode" marker, `Modified` otherwise (with the user-flavoured
//! kinds for the names tree).  This global classification is a known
//! limitation, kept deliberately.  The first classification per
//! `(provider, project, hash)` key wins; later lines for the same key are
//! ignored.

use vstd::prelude::*;
use vstd::std_specs::iter::IteratorSpec;

verus! {

/// How a declared-state path changed within the processed commit range.
#[derive(Clone, Copy, PartialEq, Eq, Structural, Debug)]
pub enum ChangeKind {
    Added,
    Deleted,
    Modified,
    UserAdded,
    UserDeleted,
    UserModified,
}

/// One normalized unit of declared-state change.
#[derive(Clone, Debug)]
pub struct ChangeRecord {
    pub project: String,
    pub provider: String,
    pub hash: String,
    pub kind: ChangeKind,
}

/// The mathematical value of a [`ChangeRecord`].
pub struct RecordModel {
    pub project: Seq<char>,
    pub provider: Seq<char>,
    pub hash: Seq<char>,
    pub kind: ChangeKind,
}

impl View for ChangeRecord {
    type V = RecordModel;

    open spec fn view(&self) -> RecordModel {
        RecordModel {
            project: self.project@,
            provider: self.provider@,
            hash: self.hash@,
            kind: self.kind,
        }
    }
}

pub open spec fn access_prefix() -> Seq<char> {
    "diff --git a/access/"@
}

pub open spec fn names_prefix() -> Seq<char> {
    "diff --git a/names/"@
}

pub open spec fn names_project() -> Seq<char> {
    "names"@
}

pub open spec fn new_file_marker() -> Seq<char> {
    "new file mode"@
}

pub open spec fn deleted_file_marker() -> Seq<char> {
    "deleted file mode"@
}

/// ASCII word characters: the only characters a hash segment may contain.
pub open spec fn is_hash_char(c: char) -> bool {
    ('a' <= c && c <= 'z') || ('A' <= c && c <= 'Z') || ('0' <= c && c <= '9') || c == '_'
}

/// Index of the first occurrence of `c` in `l` at or after `j`, or `l.len()`.
pub open spec fn find_char(l: Seq<char>, j: int, c: char) -> int
    decreases l.len() - j,
{
    if j < 0 || j >= l.len() {
        l.len() as int
    } else if l[j] == c {
        j
    } else {
        find_char(l, j + 1, c)
    }
}

/// End of the maximal run of hash characters starting at `j`.
pub open spec fn hash_end(l: Seq<char>, j: int) -> int
    decreases l.len() - j,
{
    if j < 0 || j >= l.len() {
        j
    } else if !is_hash_char(l[j]) {
        j
    } else {
        hash_end(l, j + 1)
    }
}

/// `p` occurs in `l` starting exactly at index `i`.
pub open spec fn prefix_at(l: Seq<char>, i: int, p: Seq<char>) -> bool {
    0 <= i && i + p.len() <= l.len() && l.subrange(i, i + p.len() as int) == p
}

/// `t` contains `p` as a contiguous subsequence.
pub open spec fn contains_seq(t: Seq<char>, p: Seq<char>) -> bool {
    exists|i: int| 0 <= i && i + p.len() <= t.len() && #[trigger] t.subrange(i, i + p.len() as int) == p
}

proof fn lemma_find_char_range(l: Seq<char>, j: int, c: char)
    requires
        0 <= j <= l.len(),
    ensures
        j <= find_char(l, j, c) <= l.len(),
        find_char(l, j, c) < l.len() ==> l[find_char(l, j, c)] == c,
        forall|k: int| j <= k < find_char(l, j, c) ==> l[k] != c,
    decreases l.len() - j,
{
    if j < l.len() && l[j] != c {
        lemma_find_char_range(l, j + 1, c);
    }
}

/// The three captured segments of an access path starting at `i`, if the
/// full pattern `diff --git a/access/<provider>/<project>/<hash>` matches
/// there.
pub open spec fn access_fields_at(l: Seq<char>, i: int) -> Option<(Seq<char>, Seq<char>, Seq<char>)> {
    if !prefix_at(l, i, access_prefix()) {
        None
    } else {
        let j = i + access_prefix().len() as int;
        let p1 = find_char(l, j, '/');
        if p1 == l.len() || p1 == j {
            None
        } else {
            let p2 = find_char(l, p1 + 1, '/');
            if p2 == l.len() || p2 == p1 + 1 {
                None
            } else {
                let h = hash_end(l, p2 + 1);
                if h == p2 + 1 {
                    None
                } else {
                    Some((l.subrange(j, p1), l.subrange(p1 + 1, p2), l.subrange(p2 + 1, h)))
                }
            }
        }
    }
}

/// The captured hash of a names path starting at `i`, if
/// `diff --git a/names/<hash>` matches there.
pub open spec fn names_hash_at(l: Seq<char>, i: int) -> Option<Seq<char>> {
    if !prefix_at(l, i, names_prefix()) {
        None
    } else {
        let j = i + names_prefix().len() as int;
        let h = hash_end(l, j);
        if h == j {
            None
        } else {
            Some(l.subrange(j, h))
        }
    }
}

/// Leftmost access-path match in the line, scanning from `i`.
pub open spec fn access_scan(l: Seq<char>, i: int) -> Option<(Seq<char>, Seq<char>, Seq<char>)>
    decreases l.len() - i,
{
    if i < 0 || i >= l.len() {
        None
    } else if access_fields_at(l, i) is Some {
        access_fields_at(l, i)
    } else {
        access_scan(l, i + 1)
    }
}

/// Leftmost names-path match in the line, scanning from `i`.
pub open spec fn names_scan(l: Seq<char>, i: int) -> Option<Seq<char>>
    decreases l.len() - i,
{
    if i < 0 || i >= l.len() {
        None
    } else if names_hash_at(l, i) is Some {
        names_hash_at(l, i)
    } else {
        names_scan(l, i + 1)
    }
}

pub open spec fn access_line(l: Seq<char>) -> Option<(Seq<char>, Seq<char>, Seq<char>)> {
    access_scan(l, 0)
}

pub open spec fn names_line(l: Seq<char>) -> Option<Seq<char>> {
    names_scan(l, 0)
}

/// Kind of an access record, from the diff-global markers.
pub open spec fn access_kind(has_new: bool, has_del: bool) -> ChangeKind {
    if has_new {
        ChangeKind::Added
    } else if has_del {
        ChangeKind::Deleted
    } else {
        ChangeKind::Modified
    }
}

/// Kind of a names record, from the diff-global deletion marker.
pub open spec fn names_kind(has_del: bool) -> ChangeKind {
    if has_del {
        ChangeKind::UserDeleted
    } else {
        ChangeKind::UserModified
    }
}

/// The candidate record a single diff line yields, if any.  Access paths
/// are tried before names paths.
pub open spec fn line_record(l: Seq<char>, has_new: bool, has_del: bool) -> Option<RecordModel> {
    if access_line(l) is Some {
        let t = access_line(l)->Some_0;
        Some(RecordModel { provider: t.0, project: t.1, hash: t.2, kind: access_kind(has_new, has_del) })
    } else if names_line(l) is Some {
        Some(RecordModel {
            provider: Seq::empty(),
            project: names_project(),
            hash: names_line(l)->Some_0,
            kind: names_kind(has_del),
        })
    } else {
        None
    }
}

/// Two records address the same `(project, provider, hash)` key.
pub open spec fn same_key(a: RecordModel, b: RecordModel) -> bool {
    a.project == b.project && a.provider == b.provider && a.hash == b.hash
}

pub open spec fn has_key(rs: Seq<RecordModel>, r: RecordModel) -> bool {
    exists|k: int| 0 <= k < rs.len() && same_key(rs[k], r)
}

pub open spec fn record_keys_distinct(rs: Seq<RecordModel>) -> bool {
    forall|a: int, b: int| 0 <= a < b < rs.len() ==> !same_key(rs[a], rs[b])
}

/// Insert-if-absent: the first classification per key wins.
pub open spec fn add_record(rs: Seq<RecordModel>, l: Seq<char>, has_new: bool, has_del: bool) -> Seq<RecordModel> {
    match line_record(l, has_new, has_del) {
        None => rs,
        Some(r) => if has_key(rs, r) {
            rs
        } else {
            rs.push(r)
        },
    }
}

pub open spec fn records_from_lines(
    rs: Seq<RecordModel>,
    lines: Seq<Seq<char>>,
    has_new: bool,
    has_del: bool,
) -> Seq<RecordModel>
    decreases lines.len(),
{
    if lines.len() == 0 {
        rs
    } else {
        records_from_lines(add_record(rs, lines[0], has_new, has_del), lines.drop_first(), has_new, has_del)
    }
}

/// A line terminated by `\r\n` loses the `\r` along with the terminator.
pub open spec fn strip_cr(l: Seq<char>) -> Seq<char> {
    if l.len() > 0 && l[l.len() - 1] == '\r' {
        l.drop_last()
    } else {
        l
    }
}

/// The lines of `d[pos..]`, split at `\n`, terminators excluded, a final
/// terminator producing no empty trailing line.
pub open spec fn split_lines_from(d: Seq<char>, pos: int) -> Seq<Seq<char>>
    decreases d.len() - pos,
        via split_lines_from_dec
{
    if pos < 0 || pos >= d.len() {
        Seq::empty()
    } else {
        let p = find_char(d, pos, '\n');
        if p == d.len() {
            seq![d.subrange(pos, d.len() as int)]
        } else {
            seq![strip_cr(d.subrange(pos, p))] + split_lines_from(d, p + 1)
        }
    }
}

#[via_fn]
proof fn split_lines_from_dec(d: Seq<char>, pos: int) {
    if 0 <= pos < d.len() {
        lemma_find_char_range(d, pos, '\n');
    }
}

pub open spec fn split_lines(d: Seq<char>) -> Seq<Seq<char>> {
    split_lines_from(d, 0)
}

/// The parse of a whole diff: a fold of insert-if-absent over its lines,
/// with the two markers looked up diff-globally.
pub open spec fn parsed_records(d: Seq<char>) -> Seq<RecordModel> {
    records_from_lines(
        Seq::empty(),
        split_lines(d),
        contains_seq(d, new_file_marker()),
        contains_seq(d, deleted_file_marker()),
    )
}

pub open spec fn models_of(rs: Seq<ChangeRecord>) -> Seq<RecordModel> {
    Seq::new(rs.len(), |i: int| rs[i]@)
}

// ---------------------------------------------------------------------------
// Executable parsing
// ---------------------------------------------------------------------------

/// The characters of a string slice, in order.
#[verifier::loop_isolation(false)]
pub fn chars_of(s: &str) -> (r: Vec<char>)
    ensures
        r@ == s@,
{
    let mut it = s.chars();
    let mut out: Vec<char> = Vec::new();
    proof {
        broadcast use vstd::string::axiom_spec_iter;

        assert(out@ + it.remaining() =~= s@);
    }
    loop
        invariant
            it.obeys_prophetic_iter_laws(),
            out@ + it.remaining() == s@,
        decreases s@.len() - out@.len(),
    {
        match it.next() {
            Some(c) => {
                out.push(c);
                proof {
                    assert(out@ + it.remaining() =~= s@);
                }
            },
            None => {
                proof {
                    assert(out@ =~= s@);
                }
                return out;
            },
        }
    }
}

#[verifier::loop_isolation(false)]
pub(crate) fn match_at(l: &[char], i: usize, pat: &[char]) -> (r: bool)
    ensures
        r == prefix_at(l@, i as int, pat@),
{
    if i > l.len() || pat.len() > l.len() - i {
        return false;
    }
    let mut k: usize = 0;
    while k < pat.len()
        invariant
            k <= pat@.len(),
            i + pat@.len() <= l@.len(),
            forall|m: int| 0 <= m < k ==> l@[i + m] == pat@[m],
        decreases pat@.len() - k,
    {
        if l[i + k] != pat[k] {
            proof {
                if prefix_at(l@, i as int, pat@) {
                    assert(l@.subrange(i as int, i + pat@.len() as int)[k as int] == l@[i + k]);
                }
            }
            return false;
        }
        k += 1;
    }
    proof {
        assert(l@.subrange(i as int, i + pat@.len() as int) =~= pat@);
    }
    true
}

#[verifier::loop_isolation(false)]
fn contains_marker(t: &[char], pat: &[char]) -> (r: bool)
    ensures
        r == contains_seq(t@, pat@),
{
    if pat.len() == 0 {
        proof {
            assert(t@.subrange(0, 0 + pat@.len() as int) =~= pat@);
        }
        return true;
    }
    if pat.len() > t.len() {
        return false;
    }
    let mut i: usize = 0;
    while i <= t.len() - pat.len()
        invariant
            pat@.len() <= t@.len(),
            i <= t@.len() - pat@.len() + 1,
            forall|m: int| 0 <= m < i ==> #[trigger] t@.subrange(m, m + pat@.len() as int) != pat@,
        decreases t@.len() - i,
    {
        if match_at(t, i, pat) {
            return true;
        }
        i += 1;
    }
    false
}

#[verifier::loop_isolation(false)]
pub(crate) fn find_char_exec(l: &[char], from: usize, c: char) -> (r: usize)
    requires
        from <= l@.len(),
    ensures
        r == find_char(l@, from as int, c),
        from <= r <= l@.len(),
{
    let mut j: usize = from;
    while j < l.len()
        invariant
            from <= j <= l@.len(),
            find_char(l@, from as int, c) == find_char(l@, j as int, c),
        decreases l@.len() - j,
    {
        if l[j] == c {
            return j;
        }
        j += 1;
    }
    j
}

fn is_hash_char_exec(c: char) -> (r: bool)
    ensures
        r == is_hash_char(c),
{
    ('a' <= c && c <= 'z') || ('A' <= c && c <= 'Z') || ('0' <= c && c <= '9') || c == '_'
}

#[verifier::loop_isolation(false)]
fn hash_end_exec(l: &[char], from: usize) -> (r: usize)
    requires
        from <= l@.len(),
    ensures
        r == hash_end(l@, from as int),
        from <= r <= l@.len(),
{
    let mut j: usize = from;
    while j < l.len()
        invariant
            from <= j <= l@.len(),
            hash_end(l@, from as int) == hash_end(l@, j as int),
        decreases l@.len() - j,
    {
        if !is_hash_char_exec(l[j]) {
            return j;
        }
        j += 1;
    }
    j
}

#[verifier::loop_isolation(false)]
pub(crate) fn copy_range(l: &[char], a: usize, b: usize) -> (r: Vec<char>)
    requires
        a <= b <= l@.len(),
    ensures
        r@ == l@.subrange(a as int, b as int),
{
    let mut out: Vec<char> = Vec::new();
    let mut k: usize = a;
    proof {
        assert(out@ =~= l@.subrange(a as int, a as int));
    }
    while k < b
        invariant
            a <= k <= b <= l@.len(),
            out@ == l@.subrange(a as int, k as int),
        decreases b - k,
    {
        out.push(l[k]);
        k += 1;
        proof {
            assert(out@ =~= l@.subrange(a as int, k as int));
        }
    }
    out
}

fn try_access_at(l: &[char], i: usize, prefix: &[char]) -> (r: Option<(Vec<char>, Vec<char>, Vec<char>)>)
    requires
        prefix@ == access_prefix(),
        i <= l@.len(),
    ensures
        match r {
            None => access_fields_at(l@, i as int) is None,
            Some(t) => access_fields_at(l@, i as int) == Some((t.0@, t.1@, t.2@)),
        },
{
    if !match_at(l, i, prefix) {
        return None;
    }
    let n = l.len();
    let j = i + prefix.len();
    let p1 = find_char_exec(l, j, '/');
    if p1 == n || p1 == j {
        return None;
    }
    let p2 = find_char_exec(l, p1 + 1, '/');
    if p2 == n || p2 == p1 + 1 {
        return None;
    }
    let h = hash_end_exec(l, p2 + 1);
    if h == p2 + 1 {
        return None;
    }
    Some((copy_range(l, j, p1), copy_range(l, p1 + 1, p2), copy_range(l, p2 + 1, h)))
}

fn try_names_at(l: &[char], i: usize, prefix: &[char]) -> (r: Option<Vec<char>>)
    requires
        prefix@ == names_prefix(),
        i <= l@.len(),
    ensures
        match r {
            None => names_hash_at(l@, i as int) is None,
            Some(t) => names_hash_at(l@, i as int) == Some(t@),
        },
{
    if !match_at(l, i, prefix) {
        return None;
    }
    let n = l.len();
    let j = i + prefix.len();
    let h = hash_end_exec(l, j);
    if h == j {
        return None;
    }
    Some(copy_range(l, j, h))
}

#[verifier::loop_isolation(false)]
fn scan_access(l: &[char], prefix: &[char]) -> (r: Option<(Vec<char>, Vec<char>, Vec<char>)>)
    requires
        prefix@ == access_prefix(),
    ensures
        match r {
            None => access_line(l@) is None,
            Some(t) => access_line(l@) == Some((t.0@, t.1@, t.2@)),
        },
{
    let mut i: usize = 0;
    while i < l.len()
        invariant
            i <= l@.len(),
            access_scan(l@, 0) == access_scan(l@, i as int),
        decreases l@.len() - i,
    {
        let m = try_access_at(l, i, prefix);
        if m.is_some() {
            return m;
        }
        i += 1;
    }
    None
}

#[verifier::loop_isolation(false)]
fn scan_names(l: &[char], prefix: &[char]) -> (r: Option<Vec<char>>)
    requires
        prefix@ == names_prefix(),
    ensures
        match r {
            None => names_line(l@) is None,
            Some(t) => names_line(l@) == Some(t@),
        },
{
    let mut i: usize = 0;
    while i < l.len()
        invariant
            i <= l@.len(),
            names_scan(l@, 0) == names_scan(l@, i as int),
        decreases l@.len() - i,
    {
        let m = try_names_at(l, i, prefix);
        if m.is_some() {
            return m;
        }
        i += 1;
    }
    None
}

/// Relies on `String::from_iter` (std): collecting characters yields the
/// string consisting of exactly those characters, in order.
#[verifier::external_body]
pub(crate) fn string_from_chars(v: Vec<char>) -> (r: String)
    ensures
        r@ == v@,
{
    String::from_iter(v)
}

fn same_key_exec(a: &ChangeRecord, b: &ChangeRecord) -> (r: bool)
    ensures
        r == same_key(a@, b@),
{
    a.project == b.project && a.provider == b.provider && a.hash == b.hash
}

proof fn lemma_models_push(rs: Seq<ChangeRecord>, r: ChangeRecord)
    ensures
        models_of(rs.push(r)) == models_of(rs).push(r@),
{
    assert(models_of(rs.push(r)) =~= models_of(rs).push(r@));
}

#[verifier::loop_isolation(false)]
fn insert_if_absent(out: &mut Vec<ChangeRecord>, rec: ChangeRecord)
    requires
        record_keys_distinct(models_of(old(out)@)),
    ensures
        models_of(final(out)@) == (if has_key(models_of(old(out)@), rec@) {
            models_of(old(out)@)
        } else {
            models_of(old(out)@).push(rec@)
        }),
        record_keys_distinct(models_of(final(out)@)),
{
    let mut k: usize = 0;
    while k < out.len()
        invariant
            k <= out@.len(),
            out@ == old(out)@,
            forall|m: int| 0 <= m < k ==> !same_key(models_of(out@)[m], rec@),
        decreases out@.len() - k,
    {
        if same_key_exec(&out[k], &rec) {
            proof {
                assert(models_of(out@)[k as int] == out@[k as int]@);
                assert(has_key(models_of(out@), rec@));
            }
            return;
        }
        proof {
            assert(models_of(out@)[k as int] == out@[k as int]@);
        }
        k += 1;
    }
    proof {
        assert(!has_key(models_of(out@), rec@));
        lemma_models_push(out@, rec);
    }
    out.push(rec);
}

fn process_line(
    out: &mut Vec<ChangeRecord>,
    line: &[char],
    has_new: bool,
    has_del: bool,
    apx: &[char],
    npx: &[char],
)
    requires
        apx@ == access_prefix(),
        npx@ == names_prefix(),
        record_keys_distinct(models_of(old(out)@)),
    ensures
        models_of(final(out)@) == add_record(models_of(old(out)@), line@, has_new, has_del),
        record_keys_distinct(models_of(final(out)@)),
{
    match scan_access(line, apx) {
        Some((prov, proj, hash)) => {
            let kind = if has_new {
                ChangeKind::Added
            } else if has_del {
                ChangeKind::Deleted
            } else {
                ChangeKind::Modified
            };
            let rec = ChangeRecord {
                provider: string_from_chars(prov),
                project: string_from_chars(proj),
                hash: string_from_chars(hash),
                kind,
            };
            proof {
                assert(rec@ == line_record(line@, has_new, has_del)->Some_0);
            }
            insert_if_absent(out, rec);
        },
        None => {
            match scan_names(line, npx) {
                Some(hash) => {
                    let kind = if has_del {
                        ChangeKind::UserDeleted
                    } else {
                        ChangeKind::UserModified
                    };
                    let rec = ChangeRecord {
                        provider: String::new(),
                        project: "names".to_owned(),
                        hash: string_from_chars(hash),
                        kind,
                    };
                    proof {
                        assert(rec@ == line_record(line@, has_new, has_del)->Some_0);
                    }
                    insert_if_absent(out, rec);
                },
                None => {
                },
            }
        },
    }
}

proof fn lemma_records_unfold(
    acc: Seq<RecordModel>,
    x: Seq<char>,
    rest: Seq<Seq<char>>,
    has_new: bool,
    has_del: bool,
)
    ensures
        records_from_lines(acc, seq![x] + rest, has_new, has_del) == records_from_lines(
            add_record(acc, x, has_new, has_del),
            rest,
            has_new,
            has_del,
        ),
{
    let l = seq![x] + rest;
    assert(l.len() == 1 + rest.len());
    assert(l[0] == x);
    assert(l.drop_first() =~= rest);
}

/// Parses a raw diff into deduplicated, classified change records.
///
/// The result is exactly [`parsed_records`] of the diff text, and each
/// distinct `(project, provider, hash)` key appears at most once in it.
/// The records come out in order of first appearance; callers must not
/// depend on any particular order.
#[verifier::loop_isolation(false)]
pub fn extract_diff_parts(diff: &str) -> (r: Vec<ChangeRecord>)
    ensures
        models_of(r@) == parsed_records(diff@),
        record_keys_distinct(models_of(r@)),
{
    let d = chars_of(diff);
    let nm = chars_of("new file mode");
    let dm = chars_of("deleted file mode");
    let apx = chars_of("diff --git a/access/");
    let npx = chars_of("diff --git a/names/");
    let has_new = contains_marker(d.as_slice(), nm.as_slice());
    let has_del = contains_marker(d.as_slice(), dm.as_slice());
    let mut out: Vec<ChangeRecord> = Vec::new();
    let mut pos: usize = 0;
    proof {
        assert(models_of(out@) =~= Seq::<RecordModel>::empty());
    }
    while pos < d.len()
        invariant
            pos <= d@.len(),
            d@ == diff@,
            apx@ == access_prefix(),
            npx@ == names_prefix(),
            has_new == contains_seq(diff@, new_file_marker()),
            has_del == contains_seq(diff@, deleted_file_marker()),
            records_from_lines(models_of(out@), split_lines_from(diff@, pos as int), has_new, has_del)
                == parsed_records(diff@),
            record_keys_distinct(models_of(out@)),
        decreases d@.len() - pos,
    {
        let p = find_char_exec(d.as_slice(), pos, '\n');
        let ghost pre_lines = split_lines_from(diff@, pos as int);
        if p == d.len() {
            let line = copy_range(d.as_slice(), pos, p);
            proof {
                assert(pre_lines == seq![line@] + split_lines_from(diff@, p as int));
                lemma_records_unfold(models_of(out@), line@, split_lines_from(diff@, p as int), has_new, has_del);
            }
            process_line(&mut out, line.as_slice(), has_new, has_del, apx.as_slice(), npx.as_slice());
            pos = p;
        } else {
            let line_end = if p > pos && d[p - 1] == '\r' {
                p - 1
            } else {
                p
            };
            let line = copy_range(d.as_slice(), pos, line_end);
            proof {
                assert(line@ =~= strip_cr(diff@.subrange(pos as int, p as int)));
                assert(pre_lines == seq![line@] + split_lines_from(diff@, p + 1));
                lemma_records_unfold(models_of(out@), line@, split_lines_from(diff@, p + 1), has_new, has_del);
            }
            process_line(&mut out, line.as_slice(), has_new, has_del, apx.as_slice(), npx.as_slice());
            pos = p + 1;
        }
    }
    out
}

// ---------------------------------------------------------------------------
// Laws of the parser
// ---------------------------------------------------------------------------

proof fn lemma_records_no_match(
    acc: Seq<RecordModel>,
    lines: Seq<Seq<char>>,
    has_new: bool,
    has_del: bool,
)
    requires
        forall|i: int| 0 <= i < lines.len() ==> access_line(#[trigger] lines[i]) is None
            && names_line(lines[i]) is None,
    ensures
        records_from_lines(acc, lines, has_new, has_del) == acc,
    decreases lines.len(),
{
    if lines.len() > 0 {
        assert(add_record(acc, lines[0], has_new, has_del) == acc);
        assert(forall|i: int| 0 <= i < lines.drop_first().len()
            ==> access_line(#[trigger] lines.drop_first()[i]) is None
                && names_line(lines.drop_first()[i]) is None);
        lemma_records_no_match(acc, lines.drop_first(), has_new, has_del);
    }
}

/// Law: a diff in which no line matches either path shape parses to an
/// empty record sequence.
pub proof fn lemma_no_match_no_records(d: Seq<char>)
    requires
        forall|i: int| 0 <= i < split_lines(d).len() ==> access_line(#[trigger] split_lines(d)[i]) is None
            && names_line(split_lines(d)[i]) is None,
    ensures
        parsed_records(d) == Seq::<RecordModel>::empty(),
{
    lemma_records_no_match(
        Seq::empty(),
        split_lines(d),
        contains_seq(d, new_file_marker()),
        contains_seq(d, deleted_file_marker()),
    );
}

proof fn lemma_records_distinct(
    acc: Seq<RecordModel>,
    lines: Seq<Seq<char>>,
    has_new: bool,
    has_del: bool,
)
    requires
        record_keys_distinct(acc),
    ensures
        record_keys_distinct(records_from_lines(acc, lines, has_new, has_del)),
    decreases lines.len(),
{
    if lines.len() > 0 {
        let next = add_record(acc, lines[0], has_new, has_del);
        assert(record_keys_distinct(next));
        lemma_records_distinct(next, lines.drop_first(), has_new, has_del);
    }
}

/// Law: each distinct `(project, provider, hash)` key appears at most once
/// in the parse of any diff, however many lines reference it.
pub proof fn lemma_parsed_keys_distinct(d: Seq<char>)
    ensures
        record_keys_distinct(parsed_records(d)),
{
    lemma_records_distinct(
        Seq::empty(),
        split_lines(d),
        contains_seq(d, new_file_marker()),
        contains_seq(d, deleted_file_marker()),
    );
}

/// Every parsed record is classified by the diff-global markers alone:
/// access records (non-empty provider) carry `access_kind`, names records
/// (empty provider) carry the `names` project and `names_kind`.
pub open spec fn well_classified(rs: Seq<RecordModel>, has_new: bool, has_del: bool) -> bool {
    forall|k: int| 0 <= k < rs.len() ==> {
        let r = #[trigger] rs[k];
        (r.provider.len() > 0 ==> r.kind == access_kind(has_new, has_del))
        && (r.provider.len() == 0 ==> r.project == names_project() && r.kind == names_kind(has_del))
    }
}

proof fn lemma_line_record_classified(l: Seq<char>, has_new: bool, has_del: bool)
    requires
        line_record(l, has_new, has_del) is Some,
    ensures
        ({
            let r = line_record(l, has_new, has_del)->Some_0;
            (r.provider.len() > 0 ==> r.kind == access_kind(has_new, has_del))
            && (r.provider.len() == 0 ==> r.project == names_project() && r.kind == names_kind(has_del))
        }),
{
    if access_line(l) is Some {
        let t = access_line(l)->Some_0;
        lemma_access_scan_first_segment_nonempty(l, 0);
    }
}

proof fn lemma_access_scan_first_segment_nonempty(l: Seq<char>, i: int)
    requires
        access_scan(l, i) is Some,
    ensures
        access_scan(l, i)->Some_0.0.len() > 0,
    decreases l.len() - i,
{
    if i < 0 || i >= l.len() {
    } else if access_fields_at(l, i) is Some {
        let j = i + access_prefix().len() as int;
        assert(j <= l.len());
        lemma_find_char_range(l, j, '/');
    } else {
        lemma_access_scan_first_segment_nonempty(l, i + 1);
    }
}

proof fn lemma_records_classified(
    acc: Seq<RecordModel>,
    lines: Seq<Seq<char>>,
    has_new: bool,
    has_del: bool,
)
    requires
        well_classified(acc, has_new, has_del),
    ensures
        well_classified(records_from_lines(acc, lines, has_new, has_del), has_new, has_del),
    decreases lines.len(),
{
    if lines.len() > 0 {
        let next = add_record(acc, lines[0], has_new, has_del);
        if line_record(lines[0], has_new, has_del) is Some {
            lemma_line_record_classified(lines[0], has_new, has_del);
        }
        assert(well_classified(next, has_new, has_del));
        lemma_records_classified(next, lines.drop_first(), has_new, has_del);
    }
}

/// Law: classification is diff-global.  In any parse, a record with a
/// non-empty provider (an access record) has kind `Added` when the diff
/// contains the "new file" marker, else `Deleted` when it contains the
/// deletion marker, else `Modified`; a record with an empty provider (a
/// names record) carries the `names` project and is `UserDeleted` exactly
/// when the diff contains the deletion marker, else `UserModified`.
pub proof fn lemma_classification(d: Seq<char>)
    ensures
        well_classified(
            parsed_records(d),
            contains_seq(d, new_file_marker()),
            contains_seq(d, deleted_file_marker()),
        ),
{
    lemma_records_classified(
        Seq::empty(),
        split_lines(d),
        contains_seq(d, new_file_marker()),
        contains_seq(d, deleted_file_marker()),
    );
}

} // verus!
