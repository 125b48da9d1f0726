//! Replacing the text between two markers of a document, as the command-line
//! tool does to keep the usage section of its README current.
//!
//! Documents are byte strings. Positions are byte offsets, and a marker is
//! found where its bytes first occur.

use vstd::prelude::*;
use vstd::string::StringSliceAdditionalSpecFns;

verus! {

/// Why a document could not be updated.
#[derive(Clone, Copy, Debug, PartialEq, Eq, Structural)]
pub enum MarkerError {
    /// The start marker does not occur.
    MissingStart,
    /// The end marker does not occur.
    MissingEnd,
    /// The end marker first occurs before the start marker has ended.
    OutOfOrder,
}

/// Whether `marker` stands in `text` at offset `at`.
pub open spec fn occurs_at(text: Seq<u8>, marker: Seq<u8>, at: int) -> bool {
    &&& 0 <= at
    &&& at + marker.len() <= text.len()
    &&& text.subrange(at, at + marker.len()) == marker
}

/// Whether `marker` occurs anywhere in `text`.
pub open spec fn occurs(text: Seq<u8>, marker: Seq<u8>) -> bool {
    exists|at: int| occurs_at(text, marker, at)
}

/// Whether `at` is the first offset at which `marker` stands in `text`.
pub open spec fn first_at(text: Seq<u8>, marker: Seq<u8>, at: int) -> bool {
    &&& occurs_at(text, marker, at)
    &&& forall|earlier: int| 0 <= earlier < at ==> !occurs_at(text, marker, earlier)
}

/// Whether `marker` stands in `text` at offset `at`.
fn matches_at(text: &[u8], marker: &[u8], at: usize) -> (found: bool)
    requires
        at + marker@.len() <= text@.len(),
    ensures
        found == occurs_at(text@, marker@, at as int),
{
    let length: usize = text.len();
    let mut i: usize = 0;
    while i < marker.len()
        invariant
            i <= marker@.len(),
            at + marker@.len() <= text@.len() == length,
            forall|k: int| 0 <= k < i ==> text@[at + k] == marker@[k],
        decreases marker@.len() - i,
    {
        if text[at + i] != marker[i] {
            assert(text@.subrange(at as int, at + marker@.len())[i as int] != marker@[i as int]);
            return false;
        }
        i += 1;
    }
    assert(text@.subrange(at as int, at + marker@.len()) =~= marker@);
    true
}

/// Finds the first place at which `marker` stands in `text`.
pub fn find_marker(text: &[u8], marker: &[u8]) -> (place: Option<usize>)
    ensures
        place is Some <==> occurs(text@, marker@),
        place is Some ==> first_at(text@, marker@, place->0 as int),
{
    if marker.len() > text.len() {
        assert forall|at: int| !occurs_at(text@, marker@, at) by {}
        return None;
    }
    let last: usize = text.len() - marker.len();
    let mut at: usize = 0;
    loop
        invariant
            last == text@.len() - marker@.len(),
            at <= last,
            forall|earlier: int| 0 <= earlier < at ==> !occurs_at(text@, marker@, earlier),
        decreases last - at,
    {
        if matches_at(text, marker, at) {
            return Some(at);
        }
        if at == last {
            assert forall|any: int| !occurs_at(text@, marker@, any) by {}
            return None;
        }
        at += 1;
    }
}

/// The document with everything between the end of the start marker and the
/// beginning of the end marker replaced by `body`.
pub open spec fn replaced_between(text: Seq<u8>, body: Seq<u8>, from: int, to: int) -> Seq<u8> {
    text.subrange(0, from) + body + text.subrange(to, text.len() as int)
}

/// Replaces what stands between two markers by `body`. Each marker is taken
/// where it first occurs, and both stay in place.
pub fn replace_between(text: &[u8], start: &[u8], end: &[u8], body: &[u8]) -> (res: Result<
    Vec<u8>,
    MarkerError,
>)
    ensures
        !occurs(text@, start@) ==> res == Err::<Vec<u8>, MarkerError>(MarkerError::MissingStart),
        occurs(text@, start@) && !occurs(text@, end@) ==> res == Err::<Vec<u8>, MarkerError>(
            MarkerError::MissingEnd,
        ),
        forall|from: int, to: int|
            first_at(text@, start@, from) && first_at(text@, end@, to) ==> (if from + start@.len()
                > to {
                res == Err::<Vec<u8>, MarkerError>(MarkerError::OutOfOrder)
            } else {
                res is Ok && res->Ok_0@ == replaced_between(text@, body@, from + start@.len(), to)
            }),
{
    let from: usize = match find_marker(text, start) {
        None => { return Err(MarkerError::MissingStart); },
        Some(at) => at,
    };
    let to: usize = match find_marker(text, end) {
        None => { return Err(MarkerError::MissingEnd); },
        Some(at) => at,
    };
    assert forall|other_from: int, other_to: int|
        first_at(text@, start@, other_from) && first_at(text@, end@, other_to) implies other_from
        == from && other_to == to by {}
    let length: usize = text.len();
    let keep: usize = from + start.len();
    if keep > to {
        return Err(MarkerError::OutOfOrder);
    }
    let mut out: Vec<u8> = Vec::new();
    let mut i: usize = 0;
    while i < keep
        invariant
            i <= keep <= text@.len(),
            out@ == text@.subrange(0, i as int),
        decreases keep - i,
    {
        out.push(text[i]);
        i += 1;
        assert(out@ =~= text@.subrange(0, i as int));
    }
    i = 0;
    while i < body.len()
        invariant
            i <= body@.len(),
            keep <= text@.len(),
            out@ == text@.subrange(0, keep as int) + body@.subrange(0, i as int),
        decreases body@.len() - i,
    {
        out.push(body[i]);
        i += 1;
        assert(out@ =~= text@.subrange(0, keep as int) + body@.subrange(0, i as int));
    }
    assert(body@.subrange(0, body@.len() as int) =~= body@);
    i = to;
    while i < text.len()
        invariant
            keep <= to <= i <= text@.len(),
            out@ == text@.subrange(0, keep as int) + body@ + text@.subrange(to as int, i as int),
        decreases text@.len() - i,
    {
        out.push(text[i]);
        i += 1;
        assert(out@ =~= text@.subrange(0, keep as int) + body@ + text@.subrange(
            to as int,
            i as int,
        ));
    }
    Ok(out)
}

/// The marker after which the usage section begins.
pub open spec fn usage_start() -> Seq<u8> {
    "<!-- start: CLI USAGE -->".spec_bytes()
}

/// The marker before which the usage section ends.
pub open spec fn usage_end() -> Seq<u8> {
    "<!-- end: CLI USAGE -->".spec_bytes()
}

/// The usage text as it is set between the markers: after an empty line, and
/// with a line break behind it.
pub open spec fn usage_section(usage: Seq<u8>) -> Seq<u8> {
    seq![10u8, 10u8] + usage + seq![10u8]
}

/// Sets `usage` between the two usage markers of a document, in place of
/// what stood there.
pub fn splice_usage(content: &[u8], usage: &[u8]) -> (res: Result<Vec<u8>, MarkerError>)
    ensures
        !occurs(content@, usage_start()) ==> res == Err::<Vec<u8>, MarkerError>(
            MarkerError::MissingStart,
        ),
        occurs(content@, usage_start()) && !occurs(content@, usage_end()) ==> res == Err::<
            Vec<u8>,
            MarkerError,
        >(MarkerError::MissingEnd),
        forall|from: int, to: int|
            first_at(content@, usage_start(), from) && first_at(content@, usage_end(), to) ==> (
            if from + usage_start().len() > to {
                res == Err::<Vec<u8>, MarkerError>(MarkerError::OutOfOrder)
            } else {
                res is Ok && res->Ok_0@ == replaced_between(
                    content@,
                    usage_section(usage@),
                    from + usage_start().len(),
                    to,
                )
            }),
{
    let mut section: Vec<u8> = Vec::new();
    section.push(10);
    section.push(10);
    let mut i: usize = 0;
    while i < usage.len()
        invariant
            i <= usage@.len(),
            section@ == seq![10u8, 10u8] + usage@.subrange(0, i as int),
        decreases usage@.len() - i,
    {
        section.push(usage[i]);
        i += 1;
        assert(section@ =~= seq![10u8, 10u8] + usage@.subrange(0, i as int));
    }
    section.push(10);
    assert(section@ =~= usage_section(usage@));
    replace_between(
        content,
        "<!-- start: CLI USAGE -->".as_bytes(),
        "<!-- end: CLI USAGE -->".as_bytes(),
        section.as_slice(),
    )
}

} // verus!
