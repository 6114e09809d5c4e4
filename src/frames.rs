//! The string frames exchanged between the UI, the log ingestor, the workers
//! and the supervisor, all joined by one separator token.
use vstd::prelude::*;
use crate::text::{
    append_str, chars_of, find, find_from, lemma_find_occurs, matches_at, occurs_at, slice_chars, string_of,
    contains,
};

verus! {

/// Joins the parts of every frame.
pub const FORMAT_SEPARATOR: &'static str = "<csctrlseptarget>";

/// The separator's characters.
pub open spec fn sep() -> Seq<char> {
    FORMAT_SEPARATOR@
}

/// A UI command frame `<SEP>address<SEP>text`, read as the address up to the
/// next separator and all the text after it.
pub open spec fn command_frame(f: Seq<char>) -> Option<(Seq<char>, Seq<char>)> {
    if occurs_at(f, sep(), 0) {
        match find(f, sep(), sep().len() as int) {
            Some(j) => Some((f.subrange(sep().len() as int, j), f.subrange(j + sep().len(), f.len() as int))),
            None => None,
        }
    } else {
        None
    }
}

/// A record `address<SEP>payload`, split at the first separator.
pub open spec fn record(r: Seq<char>) -> Option<(Seq<char>, Seq<char>)> {
    match find(r, sep(), 0) {
        Some(j) => Some((r.subrange(0, j), r.subrange(j + sep().len(), r.len() as int))),
        None => None,
    }
}

/// `s` without one trailing line feed.
pub open spec fn strip_newline(s: Seq<char>) -> Seq<char> {
    if s.len() > 0 && s.last() == '\n' {
        s.drop_last()
    } else {
        s
    }
}

proof fn lemma_find_first(s: Seq<char>, p: Seq<char>, from: int, x: int)
    requires
        0 <= from <= x,
        occurs_at(s, p, x),
        forall|k: int| from <= k < x ==> !occurs_at(s, p, k),
    ensures
        find(s, p, from) == Some(x),
    decreases x - from,
{
    if from < x {
        lemma_find_first(s, p, from + 1, x);
    }
}

/// The frame the UI emits for `input` typed with `address` selected.
pub fn frame_command(address: &str, input: &str) -> (r: String)
    ensures
        r@ == sep() + address@ + sep() + input@,
{
    let mut r = String::new();
    append_str(&mut r, FORMAT_SEPARATOR);
    append_str(&mut r, address);
    append_str(&mut r, FORMAT_SEPARATOR);
    append_str(&mut r, input);
    r
}

/// The record the log ingestor enqueues for a body posted from `address`;
/// one trailing line feed of the body is dropped.
pub fn frame_record(address: &str, body: &str) -> (r: String)
    ensures
        r@ == address@ + sep() + strip_newline(body@),
{
    let mut r = String::new();
    append_str(&mut r, address);
    append_str(&mut r, FORMAT_SEPARATOR);
    let b = chars_of(body);
    let n = b.len();
    if n > 0 && b[n - 1] == '\n' {
        let kept = string_of(&slice_chars(&b, 0, n - 1));
        append_str(&mut r, kept.as_str());
        assert(b@.subrange(0, n - 1) =~= b@.drop_last());
    } else {
        append_str(&mut r, body);
    }
    r
}

/// The target address and the command text of a UI frame.
pub fn parse_command_frame(frame: &str) -> (r: Option<(String, String)>)
    ensures
        match r {
            Some((a, t)) => command_frame(frame@) == Some((a@, t@)),
            None => command_frame(frame@) is None,
        },
{
    let f = chars_of(frame);
    let s = chars_of(FORMAT_SEPARATOR);
    if !matches_at(&f, &s, 0) {
        return None;
    }
    let start = s.len();
    let total = f.len();
    match find_from(&f, &s, start) {
        Some(j) => {
            proof {
                lemma_find_occurs(f@, s@, start as int);
            }
            let address = string_of(&slice_chars(&f, start, j));
            let text = string_of(&slice_chars(&f, j + s.len(), total));
            Some((address, text))
        },
        None => None,
    }
}

/// The address and the payload of a record.
pub fn parse_record(rec: &str) -> (r: Option<(String, String)>)
    ensures
        match r {
            Some((a, p)) => record(rec@) == Some((a@, p@)),
            None => record(rec@) is None,
        },
{
    let f = chars_of(rec);
    let s = chars_of(FORMAT_SEPARATOR);
    let total = f.len();
    match find_from(&f, &s, 0) {
        Some(j) => {
            proof {
                lemma_find_occurs(f@, s@, 0);
            }
            let address = string_of(&slice_chars(&f, 0, j));
            let payload = string_of(&slice_chars(&f, j + s.len(), total));
            Some((address, payload))
        },
        None => None,
    }
}

/// A UI frame built from an address that holds no separator parses back
/// into that address and the whole input text.
pub proof fn lemma_command_frame_round_trip(address: Seq<char>, input: Seq<char>)
    requires
        !contains(address, sep()),
    ensures
        command_frame(sep() + address + sep() + input) == Some((address, input)),
{
    reveal_strlit("<csctrlseptarget>");
    let n = sep().len() as int;
    let f = sep() + address + sep() + input;
    let x = n + address.len();
    assert(n == 17);
    assert(f.subrange(0, n) =~= sep());
    assert(f.subrange(x, x + n) =~= sep());
    lemma_find_occurs(address, sep(), 0);
    assert forall|k: int| n <= k < x implies !occurs_at(f, sep(), k) by {
        if k + n <= x {
            assert(f.subrange(k, k + n) =~= address.subrange(k - n, k - n + n));
            assert(!occurs_at(address, sep(), k - n));
        } else {
            let d = x - k;
            assert(1 <= d < n);
            if occurs_at(f, sep(), k) {
                assert(f.subrange(k, k + n)[d] == f[x]);
                assert(f[x] == sep()[0]);
                assert(sep()[d] != '<');
            }
        }
    }
    lemma_find_first(f, sep(), n, x);
    assert(f.subrange(n, x) =~= address);
    assert(f.subrange(x + n, f.len() as int) =~= input);
}

/// A record built from an address that holds no separator splits back
/// into that address and the whole payload.
pub proof fn lemma_record_round_trip(address: Seq<char>, payload: Seq<char>)
    requires
        !contains(address, sep()),
    ensures
        record(address + sep() + payload) == Some((address, payload)),
{
    reveal_strlit("<csctrlseptarget>");
    let n = sep().len() as int;
    let f = address + sep() + payload;
    let x = address.len() as int;
    assert(n == 17);
    assert(f.subrange(x, x + n) =~= sep());
    lemma_find_occurs(address, sep(), 0);
    assert forall|k: int| 0 <= k < x implies !occurs_at(f, sep(), k) by {
        if k + n <= x {
            assert(f.subrange(k, k + n) =~= address.subrange(k, k + n));
            assert(!occurs_at(address, sep(), k));
        } else {
            let d = x - k;
            assert(1 <= d < n);
            if occurs_at(f, sep(), k) {
                assert(f.subrange(k, k + n)[d] == f[x]);
                assert(f[x] == sep()[0]);
                assert(sep()[d] != '<');
            }
        }
    }
    lemma_find_first(f, sep(), 0, x);
    assert(f.subrange(0, x) =~= address);
    assert(f.subrange(x + n, f.len() as int) =~= payload);
}

} // verus!
