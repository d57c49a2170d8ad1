//! Byte-string helpers for output path patterns.
//!
//! Output paths are handled as byte strings. A pattern may hold placeholder
//! tokens (`{tile}`, `{x}`, `{z}`, `{t}`) that are substituted with region
//! coordinates or a timestamp rendered in decimal.

use vstd::prelude::*;

verus! {

/// True when `needle` occurs in `hay` starting at index `i`.
pub open spec fn matches_at(hay: Seq<u8>, needle: Seq<u8>, i: int) -> bool {
    0 <= i && i + needle.len() <= hay.len() && hay.subrange(i, i + needle.len()) == needle
}

/// True when `needle` occurs somewhere in `hay`.
pub open spec fn contains_seq(hay: Seq<u8>, needle: Seq<u8>) -> bool {
    exists|i: int| matches_at(hay, needle, i)
}

/// Reports whether `needle` occurs in `hay` starting at index `i`.
fn starts_with_at(hay: &Vec<u8>, needle: &Vec<u8>, i: usize) -> (r: bool)
    requires
        i <= hay.len(),
    ensures
        r == matches_at(hay@, needle@, i as int),
{
    if hay.len() - i < needle.len() {
        assert(!matches_at(hay@, needle@, i as int));
        return false;
    }
    let mut j: usize = 0;
    while j < needle.len()
        invariant
            0 <= j <= needle.len(),
            i + needle.len() <= hay.len(),
            forall|k: int| 0 <= k < j ==> hay@[i + k] == needle@[k],
        decreases needle.len() - j,
    {
        if hay[i + j] != needle[j] {
            assert(hay@.subrange(i as int, i + needle@.len())[j as int] != needle@[j as int]);
            return false;
        }
        j += 1;
    }
    assert(hay@.subrange(i as int, i + needle@.len()) =~= needle@);
    true
}

/// Reports whether `needle` occurs anywhere in `hay`.
pub fn contains_bytes(hay: &Vec<u8>, needle: &Vec<u8>) -> (r: bool)
    ensures
        r == contains_seq(hay@, needle@),
{
    let mut i: usize = 0;
    while i < hay.len()
        invariant
            0 <= i <= hay.len(),
            forall|k: int| 0 <= k < i ==> !matches_at(hay@, needle@, k),
        decreases hay.len() - i,
    {
        if starts_with_at(hay, needle, i) {
            return true;
        }
        i += 1;
    }
    if needle.len() == 0 {
        assert(matches_at(hay@, needle@, 0)) by {
            assert(hay@.subrange(0, 0) =~= needle@);
        }
        return true;
    }
    assert(forall|k: int| !matches_at(hay@, needle@, k));
    false
}

/// Replacement of every occurrence of `needle` in `hay` by `repl`, scanning
/// left to right without overlap, as `str::replace` does.
pub open spec fn replace_seq(hay: Seq<u8>, needle: Seq<u8>, repl: Seq<u8>) -> Seq<u8>
    decreases hay.len(),
    when needle.len() > 0
{
    if hay.len() < needle.len() {
        hay
    } else if hay.subrange(0, needle.len() as int) == needle {
        repl + replace_seq(hay.subrange(needle.len() as int, hay.len() as int), needle, repl)
    } else {
        seq![hay[0]] + replace_seq(hay.subrange(1, hay.len() as int), needle, repl)
    }
}

/// Replaces every occurrence of `needle` in `hay` by `repl`, scanning left to
/// right without overlap.
pub fn replace_all(hay: &Vec<u8>, needle: &Vec<u8>, repl: &Vec<u8>) -> (out: Vec<u8>)
    requires
        needle.len() > 0,
    ensures
        out@ == replace_seq(hay@, needle@, repl@),
{
    let ghost whole: Seq<u8> = replace_seq(hay@, needle@, repl@);
    let mut out: Vec<u8> = Vec::new();
    let mut i: usize = 0;
    proof {
        assert(hay@.subrange(0, hay@.len() as int) =~= hay@);
    }
    while i < hay.len()
        invariant
            0 <= i <= hay.len(),
            needle.len() > 0,
            whole == replace_seq(hay@, needle@, repl@),
            whole == out@ + replace_seq(hay@.subrange(i as int, hay@.len() as int), needle@, repl@),
        decreases hay.len() - i,
    {
        let ghost suffix = hay@.subrange(i as int, hay@.len() as int);
        if starts_with_at(hay, needle, i) {
            assert(suffix.subrange(0, needle@.len() as int) =~= hay@.subrange(
                i as int,
                i + needle@.len(),
            ));
            out.extend_from_slice(repl.as_slice());
            i += needle.len();
            assert(suffix.subrange(needle@.len() as int, suffix.len() as int) =~= hay@.subrange(
                i as int,
                hay@.len() as int,
            ));
        } else {
            proof {
                if i + needle@.len() <= hay@.len() {
                    assert(suffix.subrange(0, needle@.len() as int) =~= hay@.subrange(
                        i as int,
                        i + needle@.len(),
                    ));
                    assert(suffix.subrange(0, needle@.len() as int) != needle@);
                }
            }
            out.push(hay[i]);
            i += 1;
            proof {
                assert(suffix.subrange(1, suffix.len() as int) =~= hay@.subrange(
                    i as int,
                    hay@.len() as int,
                ));
                if suffix.len() < needle@.len() {
                    assert(replace_seq(suffix, needle@, repl@) == suffix);
                    assert(out@ + replace_seq(
                        hay@.subrange(i as int, hay@.len() as int),
                        needle@,
                        repl@,
                    ) =~= whole);
                } else {
                    assert(seq![suffix[0]] =~= hay@.subrange(i - 1, i as int));
                }
            }
        }
    }
    assert(hay@.subrange(i as int, hay@.len() as int) =~= Seq::<u8>::empty());
    assert(replace_seq(Seq::<u8>::empty(), needle@, repl@) == Seq::<u8>::empty());
    assert(out@ =~= out@ + Seq::<u8>::empty());
    out
}

/// The decimal digits of `n`, most significant first, as ASCII bytes.
pub open spec fn dec_digits(n: nat) -> Seq<u8>
    decreases n,
{
    if n < 10 {
        seq![(48 + n) as u8]
    } else {
        dec_digits(n / 10) + seq![(48 + n % 10) as u8]
    }
}

/// The decimal rendering of a signed value: a leading `-` for negative values,
/// then the digits of the magnitude.
pub open spec fn int_dec(n: int) -> Seq<u8> {
    if n < 0 {
        seq![45u8] + dec_digits((-n) as nat)
    } else {
        dec_digits(n as nat)
    }
}

/// Renders `n` in decimal as ASCII bytes.
pub fn u64_to_dec(n: u64) -> (out: Vec<u8>)
    ensures
        out@ == dec_digits(n as nat),
{
    let mut out: Vec<u8> = Vec::new();
    let mut m: u64 = n;
    while m >= 10
        invariant
            dec_digits(n as nat) == dec_digits(m as nat) + out@,
        decreases m,
    {
        let d: u8 = 48 + ((m % 10) as u8);
        let ghost prev = out@;
        out.insert(0, d);
        proof {
            assert(dec_digits(m as nat) == dec_digits((m as nat) / 10) + seq![
                (48 + (m as nat) % 10) as u8,
            ]);
            assert(out@ =~= seq![(48 + (m as nat) % 10) as u8] + prev);
            assert(dec_digits((m as nat) / 10) + out@ =~= dec_digits(m as nat) + prev);
        }
        m = m / 10;
    }
    let d: u8 = 48 + (m as u8);
    let ghost prev = out@;
    out.insert(0, d);
    proof {
        assert(dec_digits(m as nat) == seq![(48 + m as nat) as u8]);
        assert(out@ =~= dec_digits(m as nat) + prev);
    }
    out
}

/// The token `{tile}`, replaced in tile patterns by `x,z`.
pub open spec fn tok_tile() -> Seq<u8> {
    seq![123u8, 116u8, 105u8, 108u8, 101u8, 125u8]
}

/// The token `{x}`, replaced in tile patterns by the decimal region x.
pub open spec fn tok_x() -> Seq<u8> {
    seq![123u8, 120u8, 125u8]
}

/// The token `{z}`, replaced in tile patterns by the decimal region z.
pub open spec fn tok_z() -> Seq<u8> {
    seq![123u8, 122u8, 125u8]
}

/// The token `{t}`, replaced in single-image patterns by a decimal timestamp.
pub open spec fn tok_t() -> Seq<u8> {
    seq![123u8, 116u8, 125u8]
}

/// Builds the token `{tile}` as a byte vector.
pub fn token_tile() -> (v: Vec<u8>)
    ensures
        v@ == tok_tile(),
{
    let mut v: Vec<u8> = Vec::new();
    v.push(123);
    v.push(116);
    v.push(105);
    v.push(108);
    v.push(101);
    v.push(125);
    assert(v@ =~= tok_tile());
    v
}

/// Builds the token `{x}` as a byte vector.
pub fn token_x() -> (v: Vec<u8>)
    ensures
        v@ == tok_x(),
{
    let mut v: Vec<u8> = Vec::new();
    v.push(123);
    v.push(120);
    v.push(125);
    assert(v@ =~= tok_x());
    v
}

/// Builds the token `{z}` as a byte vector.
pub fn token_z() -> (v: Vec<u8>)
    ensures
        v@ == tok_z(),
{
    let mut v: Vec<u8> = Vec::new();
    v.push(123);
    v.push(122);
    v.push(125);
    assert(v@ =~= tok_z());
    v
}

/// Builds the token `{t}` as a byte vector.
pub fn token_t() -> (v: Vec<u8>)
    ensures
        v@ == tok_t(),
{
    let mut v: Vec<u8> = Vec::new();
    v.push(123);
    v.push(116);
    v.push(125);
    assert(v@ =~= tok_t());
    v
}

/// The tile id `x,z` of a region position, in decimal.
pub open spec fn tile_id(x: int, z: int) -> Seq<u8> {
    int_dec(x) + seq![44u8] + int_dec(z)
}

/// The output path of one tile: the pattern with `{tile}` replaced by `x,z`,
/// `{x}` by the decimal x, and `{z}` by the decimal z, in that order.
pub open spec fn tile_path(pattern: Seq<u8>, x: int, z: int) -> Seq<u8> {
    replace_seq(
        replace_seq(replace_seq(pattern, tok_tile(), tile_id(x, z)), tok_x(), int_dec(x)),
        tok_z(),
        int_dec(z),
    )
}

/// Resolves the output path of the tile at region position `(x, z)`.
pub fn resolve_tile_path(pattern: &Vec<u8>, x: i32, z: i32) -> (out: Vec<u8>)
    ensures
        out@ == tile_path(pattern@, x as int, z as int),
{
    let mut id: Vec<u8> = i32_to_dec(x);
    id.push(44);
    let zd: Vec<u8> = i32_to_dec(z);
    id.extend_from_slice(zd.as_slice());
    assert(id@ =~= tile_id(x as int, z as int));
    let step1: Vec<u8> = replace_all(pattern, &token_tile(), &id);
    let step2: Vec<u8> = replace_all(&step1, &token_x(), &i32_to_dec(x));
    replace_all(&step2, &token_z(), &zd)
}

/// Renders `n` in decimal as ASCII bytes, with a leading `-` when negative.
pub fn i32_to_dec(n: i32) -> (out: Vec<u8>)
    ensures
        out@ == int_dec(n as int),
{
    if n >= 0 {
        u64_to_dec(n as u64)
    } else {
        let mag: u64 = (-(n as i64)) as u64;
        let digits: Vec<u8> = u64_to_dec(mag);
        let mut out: Vec<u8> = Vec::new();
        out.push(45);
        out.extend_from_slice(digits.as_slice());
        assert(out@ =~= seq![45u8] + dec_digits(mag as nat));
        out
    }
}

} // verus!
