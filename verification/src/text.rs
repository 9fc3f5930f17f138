//! Strings: UTF-8 text inside the bytes of the file.

use crate::error::{outcome, Corruption};
use vstd::prelude::*;
use vstd::slice::slice_subrange;
use vstd::string::StringSliceAdditionalSpecFns;
use vstd::utf8::{decode_utf8, encode_utf8_decode_utf8, valid_utf8};

verus! {

/// `core::str::from_utf8`, its error dropped. Trusted: there is a string
/// exactly where the bytes are valid UTF-8, and the string is made of
/// those bytes.
#[verifier::external_body]
fn str_from_utf8<'a>(bytes: &'a [u8]) -> (r: Option<&'a str>)
    ensures
        r is Some <==> valid_utf8(bytes@),
        r matches Some(s) ==> s.spec_bytes() == bytes@,
{
    core::str::from_utf8(bytes).ok()
}

/// Reads bytes as text, where they are UTF-8.
pub fn decode<'a>(bytes: &'a [u8]) -> (r: Option<&'a str>)
    ensures
        r is Some <==> valid_utf8(bytes@),
        r matches Some(s) ==> s@ == decode_utf8(bytes@),
{
    let r = str_from_utf8(bytes);
    proof {
        if let Some(s) = r {
            encode_utf8_decode_utf8(s@);
        }
    }
    r
}

/// The bytes of the pool from `offset` up to the first NUL behind it, if
/// there is one.
pub open spec fn terminated_run(pool: Seq<u8>, offset: int) -> Option<Seq<u8>>
    recommends
        0 <= offset <= pool.len(),
{
    let tail = pool.subrange(offset, pool.len() as int);
    match tail.index_of_first(0u8) {
        Some(n) => Some(tail.subrange(0, n)),
        None => None,
    }
}

/// The string that starts at `offset` in the pool. The pool is corrupt
/// where the offset lies behind its end, where no NUL follows the offset,
/// or where the bytes up to the NUL are not UTF-8.
pub open spec fn string_at(pool: Seq<u8>, offset: int) -> Result<Seq<char>, Corruption>
    recommends
        0 <= offset,
{
    if offset > pool.len() {
        Err(Corruption::StrRef)
    } else {
        match terminated_run(pool, offset) {
            None => Err(Corruption::MissingNul),
            Some(run) => {
                if valid_utf8(run) {
                    Ok(decode_utf8(run))
                } else {
                    Err(Corruption::StringUtf8)
                }
            },
        }
    }
}

/// Reads the string that starts at `offset` in the pool.
pub fn read_string<'a>(pool: &'a [u8], offset: usize) -> (r: Result<&'a str, Corruption>)
    ensures
        outcome(r) == string_at(pool@, offset as int),
{
    if offset > pool.len() {
        return Err(Corruption::StrRef);
    }
    let mut end = offset;
    while end < pool.len() && pool[end] != 0
        invariant
            offset <= end <= pool@.len(),
            forall|j: int| offset <= j < end ==> pool@[j] != 0,
        decreases pool@.len() - end,
    {
        end += 1;
    }
    let ghost tail = pool@.subrange(offset as int, pool@.len() as int);
    proof {
        tail.index_of_first_ensures(0u8);
        if end < pool@.len() {
            assert(tail[end - offset] == 0u8);
            let first = tail.index_of_first(0u8).unwrap();
            assert(first <= end - offset) by {
                if first > end - offset {
                    assert(tail[end - offset] != 0u8);
                }
            }
            assert(tail[first] == pool@[offset + first]);
        } else {
            assert forall|j: int| 0 <= j < tail.len() implies tail[j] != 0u8 by {
                assert(tail[j] == pool@[offset + j]);
            }
        }
    }
    if end == pool.len() {
        return Err(Corruption::MissingNul);
    }
    let run = slice_subrange(pool, offset, end);
    assert(run@ =~= tail.subrange(0, end - offset));
    match decode(run) {
        Some(s) => Ok(s),
        None => Err(Corruption::StringUtf8),
    }
}

} // verus!
