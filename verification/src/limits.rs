//! Reading the resource limits of a declaration.
//!
//! A memory limit is written as a number with an optional unit: `512m`,
//! `2g`, `1024kb`, `65536`. Units are powers of 1024; upper and lower case
//! are the same.

use crate::text::{
    chars_of, has_suffix, parse_i64, signed_decimal, slice_of, text_of, trim, trimmed,
};
use vstd::prelude::*;

verus! {

/// The text with every character replaced by its lower-case form, as Unicode
/// defines it.
pub uninterp spec fn lowercased(text: Seq<char>) -> Seq<char>;

/// Wraps `str::to_lowercase` of std: the lower-case form of the text.
#[verifier::external_body]
fn to_lowercase(text: &str) -> (r: String)
    ensures
        r@ == lowercased(text@),
{
    text.to_lowercase()
}

/// `s` without every `pat` that it ends with, one after the other.
pub open spec fn strip_all(s: Seq<char>, pat: Seq<char>) -> Seq<char>
    decreases s.len(),
{
    if pat.len() > 0 && pat.is_suffix_of(s) {
        strip_all(s.subrange(0, s.len() - pat.len()), pat)
    } else {
        s
    }
}

/// The number of bytes that a unit letter stands for.
pub open spec fn unit_bytes(letter: char) -> int {
    if letter == 'k' {
        0x400
    } else if letter == 'm' {
        0x10_0000
    } else if letter == 'g' {
        0x4000_0000
    } else {
        1
    }
}

/// Whether `s` ends with the unit of this letter: the letter itself or the
/// letter and `b`.
pub open spec fn has_unit(s: Seq<char>, letter: char) -> bool {
    seq![letter].is_suffix_of(s) || seq![letter, 'b'].is_suffix_of(s)
}

/// `s` without the units of this letter that it ends with.
pub open spec fn without_unit(s: Seq<char>, letter: char) -> Seq<char> {
    strip_all(strip_all(s, seq![letter, 'b']), seq![letter])
}

/// The number and the unit of a memory limit in lower case: the text
/// before the unit, and the bytes that the unit stands for. The units are
/// `k`, `m` and `g`, each with or without a `b` behind it, and `b` alone;
/// a limit without a unit is in bytes.
pub open spec fn memory_parts(s: Seq<char>) -> (Seq<char>, int) {
    if has_unit(s, 'k') {
        (without_unit(s, 'k'), unit_bytes('k'))
    } else if has_unit(s, 'm') {
        (without_unit(s, 'm'), unit_bytes('m'))
    } else if has_unit(s, 'g') {
        (without_unit(s, 'g'), unit_bytes('g'))
    } else if seq!['b'].is_suffix_of(s) {
        (strip_all(s, seq!['b']), 1)
    } else {
        (s, 1)
    }
}

/// The bytes of a memory limit in lower case: its number, which counts as 0
/// where it is no signed decimal number of 64 bits, times its unit. Nothing
/// where the product does not fit in 64 bits.
pub open spec fn memory_bytes(s: Seq<char>) -> Option<int> {
    let (number, unit) = memory_parts(s);
    let n = match signed_decimal(number, i64::MIN as int, i64::MAX as int) {
        Some(n) => n,
        None => 0,
    };
    if i64::MIN <= n * unit <= i64::MAX {
        Some(n * unit)
    } else {
        None
    }
}

/// The length of `v[..len]` without every `pat` that it ends with.
fn stripped_len(v: &Vec<char>, len: usize, pat: &Vec<char>) -> (r: usize)
    requires
        len <= v.len(),
        pat.len() > 0,
    ensures
        r <= len,
        v@.subrange(0, r as int) == strip_all(v@.subrange(0, len as int), pat@),
{
    let mut n: usize = len;
    loop
        invariant
            n <= len <= v.len(),
            pat.len() > 0,
            strip_all(v@.subrange(0, n as int), pat@) == strip_all(
                v@.subrange(0, len as int),
                pat@,
            ),
        decreases n,
    {
        let part = slice_of(v, 0, n);
        if !has_suffix(&part, pat) {
            return n;
        }
        assert(v@.subrange(0, n as int).subrange(0, n - pat@.len()) =~= v@.subrange(
            0,
            n - pat@.len(),
        ));
        n = n - pat.len();
    }
}

fn ends_with_unit(v: &Vec<char>, letter: char) -> (r: bool)
    ensures
        r == has_unit(v@, letter),
{
    let mut one: Vec<char> = Vec::new();
    one.push(letter);
    let mut two: Vec<char> = Vec::new();
    two.push(letter);
    two.push('b');
    assert(one@ =~= seq![letter]);
    assert(two@ =~= seq![letter, 'b']);
    has_suffix(v, &one) || has_suffix(v, &two)
}

fn strip_unit(v: &Vec<char>, letter: char) -> (r: Vec<char>)
    ensures
        r@ == without_unit(v@, letter),
{
    let mut one: Vec<char> = Vec::new();
    one.push(letter);
    let mut two: Vec<char> = Vec::new();
    two.push(letter);
    two.push('b');
    assert(one@ =~= seq![letter]);
    assert(two@ =~= seq![letter, 'b']);
    assert(v@.subrange(0, v@.len() as int) =~= v@);
    let a = stripped_len(v, v.len(), &two);
    let b = stripped_len(v, a, &one);
    slice_of(v, 0, b)
}

/// The bytes of a memory limit that is trimmed and in lower case.
pub fn memory_bytes_of(limit: &Vec<char>) -> (r: Option<i64>)
    ensures
        match r {
            Some(bytes) => memory_bytes(limit@) == Some(bytes as int),
            None => memory_bytes(limit@) is None,
        },
{
    let mut b: Vec<char> = Vec::new();
    b.push('b');
    assert(b@ =~= seq!['b']);
    let (number, unit): (Vec<char>, i64) = if ends_with_unit(limit, 'k') {
        (strip_unit(limit, 'k'), 1024)
    } else if ends_with_unit(limit, 'm') {
        (strip_unit(limit, 'm'), 1024 * 1024)
    } else if ends_with_unit(limit, 'g') {
        (strip_unit(limit, 'g'), 1024 * 1024 * 1024)
    } else if has_suffix(limit, &b) {
        assert(limit@.subrange(0, limit@.len() as int) =~= limit@);
        let n = stripped_len(limit, limit.len(), &b);
        (slice_of(limit, 0, n), 1)
    } else {
        (slice_of(limit, 0, limit.len()), 1)
    };
    assert(limit@.subrange(0, limit@.len() as int) =~= limit@);
    assert((number@, unit as int) == memory_parts(limit@));
    let n: i64 = match parse_i64(&number) {
        Some(n) => n,
        None => 0,
    };
    assert(-0x8000_0000_0000_0000 <= n <= 0x7FFF_FFFF_FFFF_FFFF);
    assert(1 <= unit <= 0x4000_0000);
    let product: i128 = (n as i128) * (unit as i128);
    if -0x8000_0000_0000_0000 <= product && product <= 0x7FFF_FFFF_FFFF_FFFF {
        Some(product as i64)
    } else {
        None
    }
}

/// Parses a memory limit such as "512m" or "2g" to bytes. White space around
/// the limit does not count. Nothing where the limit is more bytes than 64
/// bits can count.
pub fn parse_memory_to_bytes(memory_str: &str) -> (r: Option<i64>)
    ensures
        match r {
            Some(bytes) => memory_bytes(lowercased(trimmed(memory_str@))) == Some(bytes as int),
            None => memory_bytes(lowercased(trimmed(memory_str@))) is None,
        },
{
    let all = chars_of(memory_str);
    let plain = text_of(&trim(&all));
    let lower = chars_of(to_lowercase(plain.as_str()).as_str());
    memory_bytes_of(&lower)
}

} // verus!
