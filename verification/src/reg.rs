//! Registry value decoding.
//!
//! The registry lookup itself is an external collaborator; what the library
//! owns is the decoding of a fetched value — a type code and raw bytes —
//! into a typed [`RegValue`]: a little-endian double word, or a multi-string
//! blob cut at its zero words, trailing zero words discarded.

use vstd::prelude::*;

use crate::error::ErrorKind;
use crate::pool::{PoolType, TaggedPool};
use crate::strings::UnicodeString;

verus! {

/// Registry value type code: a 32-bit double word.
pub const REG_DWORD: u32 = 4;

/// Registry value type code: a sequence of zero-terminated UTF-16 strings.
pub const REG_MULTI_SZ: u32 = 7;

/// A decoded registry value.
pub enum RegValue {
    RegDword(u32),
    RegSz(UnicodeString),
    RegMultiSz(Vec<UnicodeString>),
}

/// The 32-bit value stored little-endian in the first four bytes.
pub open spec fn spec_u32_le(b: Seq<u8>) -> u32 {
    (b[0] + b[1] * 0x100 + b[2] * 0x10000 + b[3] * 0x1000000) as u32
}

/// The UTF-16 code unit stored little-endian at word position `i`.
pub open spec fn spec_word_at(b: Seq<u8>, i: int) -> u16 {
    (b[2 * i] + b[2 * i + 1] * 0x100) as u16
}

/// The byte blob read as little-endian UTF-16 code units; a trailing odd
/// byte is discarded.
pub open spec fn spec_words(b: Seq<u8>) -> Seq<u16> {
    Seq::new((b.len() / 2) as nat, |i: int| spec_word_at(b, i))
}

/// The words with every trailing zero word removed.
pub open spec fn spec_trim_zeros(ws: Seq<u16>) -> Seq<u16>
    decreases ws.len(),
{
    if ws.len() > 0 && ws.last() == 0 {
        spec_trim_zeros(ws.drop_last())
    } else {
        ws
    }
}

/// Position of the first zero word, or the length when there is none.
pub open spec fn spec_first_zero(ws: Seq<u16>) -> nat
    decreases ws.len(),
{
    if ws.len() == 0 {
        0
    } else if ws[0] == 0 {
        0
    } else {
        1 + spec_first_zero(ws.drop_first())
    }
}

/// The words cut at their zero words: each zero ends a segment, and the
/// part after the last zero is the final segment.
pub open spec fn spec_split_words(ws: Seq<u16>) -> Seq<Seq<u16>>
    decreases ws.len(),
{
    let i = spec_first_zero(ws);
    if i >= ws.len() {
        seq![ws]
    } else {
        seq![ws.take(i as int)] + spec_split_words(ws.skip(i as int + 1))
    }
}

proof fn lemma_first_zero_bounds(ws: Seq<u16>)
    ensures
        forall|k: int| 0 <= k < spec_first_zero(ws) ==> ws[k] != 0,
        spec_first_zero(ws) <= ws.len(),
        spec_first_zero(ws) < ws.len() ==> ws[spec_first_zero(ws) as int] == 0,
    decreases ws.len(),
{
    if ws.len() == 0 || ws[0] == 0 {
    } else {
        lemma_first_zero_bounds(ws.drop_first());
        assert forall|k: int| 0 <= k < spec_first_zero(ws) implies ws[k] != 0 by {
            if k > 0 {
                assert(ws.drop_first()[k - 1] != 0);
            }
        }
        if spec_first_zero(ws) < ws.len() {
            assert(ws[spec_first_zero(ws) as int] == ws.drop_first()[spec_first_zero(
                ws.drop_first(),
            ) as int]);
        }
    }
}

proof fn lemma_first_zero_of_nonzero(ws: Seq<u16>)
    requires
        forall|k: int| 0 <= k < ws.len() ==> ws[k] != 0,
    ensures
        spec_first_zero(ws) == ws.len(),
    decreases ws.len(),
{
    if ws.len() == 0 {
    } else {
        assert(forall|k: int|
            0 <= k < ws.drop_first().len() ==> ws.drop_first()[k] == ws[k + 1] && ws[k + 1] != 0);
        lemma_first_zero_of_nonzero(ws.drop_first());
    }
}

proof fn lemma_first_zero_prefix(p: Seq<u16>, s: Seq<u16>)
    requires
        forall|k: int| 0 <= k < p.len() ==> p[k] != 0,
        s.len() > 0,
        s[0] == 0,
    ensures
        spec_first_zero(p + s) == p.len(),
    decreases p.len(),
{
    let ws = p + s;
    if p.len() == 0 {
        assert(ws =~= s);
    } else {
        assert(ws[0] == p[0]);
        assert(ws.drop_first() =~= p.drop_first() + s);
        assert(forall|k: int|
            0 <= k < p.drop_first().len() ==> p.drop_first()[k] == p[k + 1] && p[k + 1] != 0);
        lemma_first_zero_prefix(p.drop_first(), s);
    }
}

/// Splitting a zero-free word sequence yields that sequence alone.
proof fn lemma_split_of_nonzero(p: Seq<u16>)
    requires
        forall|k: int| 0 <= k < p.len() ==> p[k] != 0,
    ensures
        spec_split_words(p) =~= seq![p],
{
    lemma_first_zero_of_nonzero(p);
}

/// A zero word after a zero-free prefix ends the first segment.
proof fn lemma_split_at_zero(p: Seq<u16>, r: Seq<u16>)
    requires
        forall|k: int| 0 <= k < p.len() ==> p[k] != 0,
    ensures
        spec_split_words(p + seq![0u16] + r) =~= seq![p] + spec_split_words(r),
{
    let ws = p + seq![0u16] + r;
    assert(ws =~= p + (seq![0u16] + r));
    lemma_first_zero_prefix(p, seq![0u16] + r);
    assert(spec_first_zero(ws) == p.len());
    assert(ws.take(p.len() as int) =~= p);
    assert(ws.skip(p.len() as int + 1) =~= r);
}

/// Pool bytes held by the backing buffers of a string collection.
spec fn strings_bytes(ss: Seq<UnicodeString>) -> int
    decreases ss.len(),
{
    if ss.len() == 0 {
        0
    } else {
        strings_bytes(ss.drop_last()) + crate::buffer::spec_layout_bytes::<u16>(
            ss.last().buffer_spec().capacity_spec(),
        )
    }
}

/// Every string is backed by a live allocation of the pool, the backing
/// allocations are pairwise distinct, and all of them lie at or above
/// `base`.
spec fn strings_wf(ss: Seq<UnicodeString>, pool: TaggedPool, base: int) -> bool {
    &&& (forall|k: int| 0 <= k < ss.len() ==> (#[trigger] ss[k]).wf(pool))
    &&& (forall|k: int, l: int|
        0 <= k < ss.len() && 0 <= l < ss.len() && k != l ==> (#[trigger] ss[k]).buffer_spec()
            .ptr_spec().addr != (#[trigger] ss[l]).buffer_spec().ptr_spec().addr)
    &&& (forall|k: int|
        0 <= k < ss.len() ==> (#[trigger] ss[k]).buffer_spec().ptr_spec().addr >= base)
}

/// Releases every string of a partially decoded collection, returning the
/// pool to the usage it had before they were built.
fn release_strings(strings: Vec<UnicodeString>, base: Ghost<int>, pool: &mut TaggedPool)
    requires
        old(pool).wf(),
        strings_wf(strings@, *old(pool), base@),
        0 <= base@ <= old(pool)@.len(),
    ensures
        final(pool).wf(),
        final(pool).limit_spec() == old(pool).limit_spec(),
        final(pool)@.len() == old(pool)@.len(),
        final(pool).in_use_spec() == old(pool).in_use_spec() - strings_bytes(strings@),
        forall|a: int| 0 <= a < base@ ==> final(pool)@[a] == old(pool)@[a],
    decreases strings@.len(),
{
    let ghost orig = strings@;
    let mut strings = strings;
    while strings.len() > 0
        invariant
            pool.wf(),
            pool.limit_spec() == old(pool).limit_spec(),
            pool@.len() == old(pool)@.len(),
            0 <= base@ <= old(pool)@.len(),
            strings_wf(strings@, *pool, base@),
            pool.in_use_spec() == old(pool).in_use_spec() - strings_bytes(orig) + strings_bytes(
                strings@,
            ),
            forall|a: int| 0 <= a < base@ ==> pool@[a] == old(pool)@[a],
        decreases strings@.len(),
    {
        let ghost before = strings@;
        let s = match strings.pop() {
            Some(s) => s,
            None => vstd::pervasive::unreached(),
        };
        proof {
            assert(strings@ =~= before.drop_last());
            assert(s == before.last());
            assert(s.wf(*pool));
        }
        let ghost addr = s.buffer_spec().ptr_spec().addr as int;
        s.destroy(pool);
        proof {
            assert forall|k: int| 0 <= k < strings@.len() implies (#[trigger] strings@[k]).wf(
                *pool,
            ) by {
                assert(before[k].wf(*pool) || true);
                assert(strings@[k] == before[k]);
                assert(before[k].buffer_spec().ptr_spec().addr != addr);
            }
        }
    }
}

/// Decodes a fetched registry value of the given type code.
///
/// A double word is read little-endian from the first four bytes.  A
/// multi-string blob is read as UTF-16 code units, its trailing zero words
/// discarded, and cut into one [`UnicodeString`] per zero-terminated
/// segment.  A failed string allocation releases the strings built so far
/// and reports `AllocationFailure`, the pool's usage as it was.
pub fn parse_value(
    value_type: u32,
    data: &[u8],
    pool_type: PoolType,
    tag: u32,
    pool: &mut TaggedPool,
) -> (r: Result<RegValue, ErrorKind>)
    requires
        old(pool).wf(),
        value_type == REG_DWORD || value_type == REG_MULTI_SZ,
        value_type == REG_DWORD ==> data@.len() >= 4,
    ensures
        final(pool).wf(),
        final(pool).limit_spec() == old(pool).limit_spec(),
        value_type == REG_DWORD ==> final(pool)@ =~= old(pool)@ && match r {
            Ok(v) => v == RegValue::RegDword(spec_u32_le(data@)),
            Err(_) => false,
        },
        value_type == REG_MULTI_SZ ==> match r {
            Ok(v) => match v {
                RegValue::RegMultiSz(strings) => strings@.map_values(|u: UnicodeString| u@)
                    =~= spec_split_words(spec_trim_zeros(spec_words(data@))),
                _ => false,
            },
            Err(e) => {
                &&& e == ErrorKind::AllocationFailure
                &&& final(pool).in_use_spec() == old(pool).in_use_spec()
                &&& forall|a: int| 0 <= a < old(pool)@.len() ==> final(pool)@[a] == old(pool)@[a]
            },
        },
{
    if value_type == REG_DWORD {
        let value: u32 = data[0] as u32 + data[1] as u32 * 0x100 + data[2] as u32 * 0x10000
            + data[3] as u32 * 0x1000000;
        return Ok(RegValue::RegDword(value));
    }
    // Read the blob as little-endian UTF-16 code units.
    let mut words: Vec<u16> = Vec::new();
    let total = data.len();
    let half = total / 2;
    let mut i: usize = 0;
    while i < half
        invariant
            total == data@.len(),
            half == data@.len() / 2,
            i <= half,
            words@.len() == i,
            forall|k: int| 0 <= k < i ==> words@[k] == spec_word_at(data@, k),
        decreases half - i,
    {
        proof {
            vstd::arithmetic::div_mod::lemma_fundamental_div_mod(data@.len() as int, 2);
            assert(2 * (i as int) + 1 < data@.len());
        }
        let w: u16 = data[2 * i] as u16 + data[2 * i + 1] as u16 * 0x100;
        words.push(w);
        i = i + 1;
    }
    proof {
        assert(words@ =~= spec_words(data@));
    }
    // Discard trailing zero words.
    while words.len() > 0 && words[words.len() - 1] == 0
        invariant
            spec_trim_zeros(words@) =~= spec_trim_zeros(spec_words(data@)),
        decreases words@.len(),
    {
        let ghost before = words@;
        words.pop();
        proof {
            assert(words@ =~= before.drop_last());
        }
    }
    proof {
        assert(words@ =~= spec_trim_zeros(spec_words(data@)));
    }
    // Cut at zero words, one string per segment.
    let ghost whole = words@;
    let mut strings: Vec<UnicodeString> = Vec::new();
    let mut segment: Vec<u16> = Vec::new();
    let mut j: usize = 0;
    proof {
        assert(segment@ + whole.skip(0) =~= whole);
        assert(strings@.map_values(|u: UnicodeString| u@) =~= Seq::<Seq<u16>>::empty());
    }
    while j < words.len()
        invariant
            value_type == REG_MULTI_SZ,
            j <= words@.len(),
            words@ == whole,
            forall|k: int| 0 <= k < segment@.len() ==> segment@[k] != 0,
            spec_split_words(whole) =~= strings@.map_values(|u: UnicodeString| u@)
                + spec_split_words(segment@ + whole.skip(j as int)),
            pool.wf(),
            pool.limit_spec() == old(pool).limit_spec(),
            pool@.len() >= old(pool)@.len(),
            forall|a: int| 0 <= a < old(pool)@.len() ==> pool@[a] == old(pool)@[a],
            pool.in_use_spec() == old(pool).in_use_spec() + strings_bytes(strings@),
            strings_wf(strings@, *pool, old(pool)@.len() as int),
        decreases words@.len() - j,
    {
        let w = words[j];
        if w == 0 {
            let ghost pool_before = *pool;
            let s = match UnicodeString::from_utf16(segment.as_slice(), pool_type, tag, pool) {
                Ok(s) => s,
                Err(_) => {
                    release_strings(strings, Ghost(old(pool)@.len() as int), pool);
                    return Err(ErrorKind::AllocationFailure);
                },
            };
            proof {
                assert(pool@.drop_last() =~= pool_before@);
                assert(pool@.len() == pool_before@.len() + 1);
                assert forall|k: int| 0 <= k < strings@.len() implies (#[trigger] strings@[k]).wf(
                    *pool,
                ) by {
                    assert(strings@[k].wf(pool_before));
                    let p = strings@[k].buffer_spec().ptr_spec();
                    assert(pool_before.is_live(p));
                    assert(p.addr < pool_before@.len());
                    assert(pool@[p.addr as int] == pool_before@[p.addr as int]);
                }
            }
            proof {
                lemma_split_at_zero(segment@, whole.skip(j + 1));
                assert(segment@ + whole.skip(j as int) =~= segment@ + seq![0u16] + whole.skip(
                    j + 1,
                ));
            }
            let ghost prev_strings = strings@;
            strings.push(s);
            segment = Vec::new();
            proof {
                assert(strings@.drop_last() =~= prev_strings);
                assert(strings@.map_values(|u: UnicodeString| u@)
                    =~= prev_strings.map_values(|u: UnicodeString| u@).push(s@));
                assert(segment@ + whole.skip(j + 1) =~= whole.skip(j + 1));
            }
        } else {
            proof {
                assert(segment@ + whole.skip(j as int) =~= segment@.push(w) + whole.skip(j + 1));
            }
            segment.push(w);
        }
        j = j + 1;
    }
    proof {
        assert(whole.skip(words@.len() as int) =~= Seq::<u16>::empty());
        assert(segment@ + whole.skip(words@.len() as int) =~= segment@);
        lemma_split_of_nonzero(segment@);
    }
    let s = match UnicodeString::from_utf16(segment.as_slice(), pool_type, tag, pool) {
        Ok(s) => s,
        Err(_) => {
            release_strings(strings, Ghost(old(pool)@.len() as int), pool);
            return Err(ErrorKind::AllocationFailure);
        },
    };
    strings.push(s);
    proof {
        assert(strings@.map_values(|u: UnicodeString| u@)
            =~= strings@.drop_last().map_values(|u: UnicodeString| u@).push(s@));
        assert(strings@.map_values(|u: UnicodeString| u@) =~= spec_split_words(whole));
    }
    Ok(RegValue::RegMultiSz(strings))
}

} // verus!
