//! Unsigned LEB128, the variable-length integer encoding of WebAssembly.
use vstd::prelude::*;

verus! {

/// The unsigned LEB128 encoding of `v`: seven bits per byte, least significant
/// group first, the high bit set on every byte but the last.
pub open spec fn leb(v: u64) -> Seq<u8>
    decreases v,
{
    if v < 128 {
        seq![v as u8]
    } else {
        seq![(v % 128 + 128) as u8] + leb(v / 128)
    }
}

/// The value that a sequence of LEB128 bytes stands for (the bytes are read
/// least significant group first; the high bit of each byte is ignored).
pub open spec fn leb_value(s: Seq<u8>) -> int
    decreases s.len(),
{
    if s.len() == 0 {
        0
    } else {
        (s[0] % 128) as int + 128 * leb_value(s.drop_first())
    }
}

/// The encoding is never empty, and a value below 128 takes one byte.
pub proof fn lemma_leb_len(v: u64)
    ensures
        1 <= leb(v).len(),
        v < 128 ==> leb(v).len() == 1,
    decreases v,
{
    if v >= 128 {
        lemma_leb_len(v / 128);
    }
}

/// Decoding an encoding gives the value back, and the encoding marks its own
/// end: the high bit is set on every byte but the last, and clear on the last.
pub proof fn lemma_leb_roundtrip(v: u64)
    ensures
        leb_value(leb(v)) == v,
        leb(v).last() < 128,
        forall|i: int| 0 <= i < leb(v).len() - 1 ==> #[trigger] leb(v)[i] >= 128,
    decreases v,
{
    lemma_leb_len(v);
    if v < 128 {
        let s = leb(v);
        assert(s.drop_first() =~= Seq::<u8>::empty());
        assert(leb_value(s.drop_first()) == 0);
    } else {
        lemma_leb_roundtrip(v / 128);
        lemma_leb_len(v / 128);
        let s = leb(v);
        assert(s.drop_first() =~= leb(v / 128));
        assert(s[0] % 128 == v % 128);
        assert(leb_value(s) == v % 128 + 128 * leb_value(leb(v / 128)));
        assert(s.last() == leb(v / 128).last());
        assert forall|i: int| 0 <= i < s.len() - 1 implies #[trigger] s[i] >= 128 by {
            if i > 0 {
                assert(s[i] == leb(v / 128)[i - 1]);
            }
        }
    }
}

/// Appends the unsigned LEB128 encoding of `val` to `bytes` and returns how
/// many bytes were written.
pub fn write_unsigned(bytes: &mut Vec<u8>, val: u64) -> (n: usize)
    ensures
        final(bytes)@ == old(bytes)@ + leb(val),
        n == leb(val).len(),
{
    let mut v = val;
    let mut n: usize = 0;
    loop
        invariant
            bytes@ + leb(v) == old(bytes)@ + leb(val),
            n + leb(v).len() == leb(val).len(),
            bytes@.len() == old(bytes)@.len() + n,
        decreases v,
    {
        proof {
            lemma_leb_len(v);
        }
        if v < 128 {
            let ghost before = bytes@;
            bytes.push(v as u8);
            assert(bytes@ == before + leb(v));
            proof {
                vstd::std_specs::vec::axiom_spec_len(bytes);
            }
            n = n + 1;
            return n;
        }
        let ghost before = bytes@;
        let byte = (v % 128 + 128) as u8;
        bytes.push(byte);
        proof {
            vstd::std_specs::vec::axiom_spec_len(bytes);
        }
        assert(leb(v) == seq![byte] + leb(v / 128));
        assert(bytes@ + leb(v / 128) == before + leb(v));
        v = v / 128;
        n = n + 1;
    }
}

/// The unsigned LEB128 encoding of `val`, as a new vector.
pub fn encode_unsigned(val: u64) -> (r: Vec<u8>)
    ensures
        r@ == leb(val),
{
    let mut bytes = Vec::new();
    write_unsigned(&mut bytes, val);
    assert(bytes@ =~= leb(val));
    bytes
}

/// The magnitude of an integer.
pub open spec fn magnitude(v: int) -> nat {
    if v < 0 {
        (-v) as nat
    } else {
        v as nat
    }
}

/// The signed LEB128 encoding of `v` (two's complement): seven bits per
/// byte, least significant group first, until what is left is all sign bits
/// and the last group's top bit shows the sign; the high bit is set on every
/// byte but the last.
pub open spec fn sleb(v: int) -> Seq<u8>
    decreases magnitude(v),
{
    let low = v % 128;
    let rest = (v - low) / 128;
    if (rest == 0 && low < 64) || (rest == -1 && low >= 64) {
        seq![low as u8]
    } else {
        seq![(low + 128) as u8] + sleb(rest)
    }
}

/// Appends the signed LEB128 encoding of `val` to `bytes`.
pub fn write_signed(bytes: &mut Vec<u8>, val: i64)
    ensures
        final(bytes)@ == old(bytes)@ + sleb(val as int),
{
    let mut v: i64 = val;
    loop
        invariant
            bytes@ + sleb(v as int) == old(bytes)@ + sleb(val as int),
        decreases magnitude(v as int),
    {
        let r: i64 = v % 128;
        let low: i64 = if r < 0 {
            r + 128
        } else {
            r
        };
        assert(low == (v as int) % 128);
        let rest: i64 = (v - low) / 128;
        assert(rest as int == ((v as int) - (low as int)) / 128);
        if (rest == 0 && low < 64) || (rest == -1 && low >= 64) {
            let ghost before = bytes@;
            bytes.push(low as u8);
            assert(bytes@ =~= before + sleb(v as int));
            return;
        }
        let ghost before = bytes@;
        bytes.push((low + 128) as u8);
        assert(sleb(v as int) == seq![(low + 128) as u8] + sleb(rest as int));
        assert(bytes@ + sleb(rest as int) =~= before + sleb(v as int));
        v = rest;
    }
}

/// Appends `src` to `dst`.
pub fn append_bytes(dst: &mut Vec<u8>, src: &[u8])
    ensures
        final(dst)@ == old(dst)@ + src@,
{
    let mut i: usize = 0;
    while i < src.len()
        invariant
            i <= src@.len(),
            dst@ == old(dst)@ + src@.subrange(0, i as int),
        decreases src@.len() - i,
    {
        dst.push(src[i]);
        i = i + 1;
        assert(src@.subrange(0, i as int) =~= src@.subrange(0, (i - 1) as int).push(src@[i - 1]));
    }
    assert(src@.subrange(0, i as int) =~= src@);
}

} // verus!
