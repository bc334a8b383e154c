//! Content resolution: picking the ref at which a change record's file is
//! read, and decoding the transported content.
//!
//! Deletions must read the pre-change state (the file no longer exists at
//! head), so they resolve at the supplied base commit; every other kind
//! resolves at the tracked branch's moving reference.  Content arrives
//! base64-encoded, possibly with embedded newlines that must be stripped
//! before decoding; the decoded bytes must be valid UTF-8 text.

use vstd::prelude::*;

use crate::diff::ChangeKind;
use crate::diff::chars_of;
use crate::diff::string_from_chars;

verus! {

/// Why transported content could not be decoded.  Both abort the run: a
/// record whose content cannot be decoded cannot be trusted.
#[derive(Clone, Copy, PartialEq, Eq, Structural, Debug)]
pub enum DecodeError {
    BadBase64,
    BadUtf8,
}

/// The tracked branch's moving reference: "current declared state".
pub open spec fn tracked_ref() -> Seq<char> {
    "build"@
}

/// Ref selection rule: deletions read the pre-change state at `base`,
/// everything else reads the tracked branch.
pub open spec fn ref_for_kind_spec(kind: ChangeKind, base: Seq<char>) -> Seq<char> {
    if kind == ChangeKind::Deleted || kind == ChangeKind::UserDeleted {
        base
    } else {
        tracked_ref()
    }
}

/// Picks the ref at which a record of kind `kind` resolves its content.
pub fn ref_for_kind(kind: ChangeKind, base_commit: &str) -> (r: String)
    ensures
        r@ == ref_for_kind_spec(kind, base_commit@),
{
    if kind == ChangeKind::Deleted || kind == ChangeKind::UserDeleted {
        base_commit.to_owned()
    } else {
        "build".to_owned()
    }
}

/// Law: for the deletion kinds the selected ref is exactly the supplied
/// base commit; for every other kind it is the tracked branch pointer, and
/// hence never the base commit unless the base happens to name the tracked
/// ref itself.
pub proof fn lemma_ref_selection(kind: ChangeKind, base: Seq<char>)
    ensures
        (kind == ChangeKind::Deleted || kind == ChangeKind::UserDeleted) ==> ref_for_kind_spec(
            kind,
            base,
        ) == base,
        !(kind == ChangeKind::Deleted || kind == ChangeKind::UserDeleted) ==> ref_for_kind_spec(
            kind,
            base,
        ) == tracked_ref(),
        !(kind == ChangeKind::Deleted || kind == ChangeKind::UserDeleted) && base != tracked_ref()
            ==> ref_for_kind_spec(kind, base) != base,
{
}

/// `s` with every `\n` removed, order of the other characters kept.
pub open spec fn without_newlines(s: Seq<char>) -> Seq<char>
    decreases s.len(),
{
    if s.len() == 0 {
        Seq::empty()
    } else {
        let pre = without_newlines(s.drop_last());
        if s.last() == '\n' {
            pre
        } else {
            pre.push(s.last())
        }
    }
}

#[verifier::loop_isolation(false)]
fn remove_newlines(s: &str) -> (r: String)
    ensures
        r@ == without_newlines(s@),
{
    let cs = chars_of(s);
    let mut out: Vec<char> = Vec::new();
    let mut i: usize = 0;
    proof {
        assert(cs@.subrange(0, 0) =~= Seq::<char>::empty());
    }
    while i < cs.len()
        invariant
            i <= cs@.len(),
            out@ == without_newlines(cs@.subrange(0, i as int)),
        decreases cs@.len() - i,
    {
        let c = cs[i];
        if c != '\n' {
            out.push(c);
        }
        i += 1;
        proof {
            assert(cs@.subrange(0, i as int).drop_last() =~= cs@.subrange(0, i - 1));
            assert(cs@.subrange(0, i as int).last() == c);
        }
    }
    proof {
        assert(cs@.subrange(0, cs@.len() as int) =~= s@);
    }
    string_from_chars(out)
}

/// What the standard base64 alphabet decodes a character sequence to, or
/// nothing when the sequence is not valid base64.
pub uninterp spec fn base64_decoding(s: Seq<char>) -> Option<Seq<u8>>;

/// Relies on base64's `STANDARD` engine `decode`: the result is a function
/// of the input characters alone, present exactly when the input is valid
/// standard base64.
#[verifier::external_body]
fn base64_decode(s: &str) -> (r: Option<Vec<u8>>)
    ensures
        r is Some <==> base64_decoding(s@) is Some,
        r matches Some(v) ==> base64_decoding(s@) == Some(v@),
{
    match base64::Engine::decode(&base64::engine::general_purpose::STANDARD, s) {
        Ok(v) => Some(v),
        Err(_) => None,
    }
}

/// Relies on `String::from_utf8` (std): succeeds exactly on valid UTF-8
/// input, returning the text those bytes encode.
#[verifier::external_body]
fn utf8_to_string(bytes: Vec<u8>) -> (r: Option<String>)
    ensures
        r is Some <==> vstd::utf8::valid_utf8(bytes@),
        r matches Some(s) ==> s@ == vstd::utf8::decode_utf8(bytes@),
{
    match String::from_utf8(bytes) {
        Ok(s) => Some(s),
        Err(_) => None,
    }
}

/// The decode pipeline on a raw base64 payload: strip newlines, decode
/// base64, require UTF-8.
pub open spec fn decoded_content(raw: Seq<char>) -> Result<Seq<char>, DecodeError> {
    let cleaned = without_newlines(raw);
    match base64_decoding(cleaned) {
        None => Err(DecodeError::BadBase64),
        Some(bytes) => if vstd::utf8::valid_utf8(bytes) {
            Ok(vstd::utf8::decode_utf8(bytes))
        } else {
            Err(DecodeError::BadUtf8)
        },
    }
}

/// Decodes one transported payload to text.
pub fn decode_content(raw: &str) -> (r: Result<String, DecodeError>)
    ensures
        r matches Ok(s) ==> decoded_content(raw@) == Ok::<Seq<char>, DecodeError>(s@),
        r matches Err(e) ==> decoded_content(raw@) == Err::<Seq<char>, DecodeError>(e),
{
    let cleaned = remove_newlines(raw);
    match base64_decode(cleaned.as_str()) {
        None => Err(DecodeError::BadBase64),
        Some(bytes) => {
            match utf8_to_string(bytes) {
                None => Err(DecodeError::BadUtf8),
                Some(s) => Ok(s),
            }
        },
    }
}

/// The content a remote lookup resolves to.  A non-success response or a
/// response without a content field is a skip, never an error; a payload
/// that fails to decode is an error.
pub open spec fn resolved_content(status_success: bool, content_field: Option<Seq<char>>) -> Result<
    Option<Seq<char>>,
    DecodeError,
> {
    if !status_success {
        Ok(None)
    } else {
        match content_field {
            None => Ok(None),
            Some(raw) => match decoded_content(raw) {
                Ok(s) => Ok(Some(s)),
                Err(e) => Err(e),
            },
        }
    }
}

/// Resolves the outcome of a remote content lookup: `status_success` is
/// whether the response reported success, `content_field` the raw content
/// field of its body, if any.
pub fn resolve_content(status_success: bool, content_field: Option<String>) -> (r: Result<
    Option<String>,
    DecodeError,
>)
    ensures
        r matches Ok(o) ==> resolved_content(status_success, content_field.deep_view()) == Ok::<
            Option<Seq<char>>,
            DecodeError,
        >(o.deep_view()),
        r matches Err(e) ==> resolved_content(status_success, content_field.deep_view()) == Err::<
            Option<Seq<char>>,
            DecodeError,
        >(e),
{
    if !status_success {
        return Ok(None);
    }
    match content_field {
        None => Ok(None),
        Some(raw) => {
            match decode_content(raw.as_str()) {
                Ok(s) => Ok(Some(s)),
                Err(e) => Err(e),
            }
        },
    }
}

} // verus!
