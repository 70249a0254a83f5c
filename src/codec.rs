use vstd::prelude::*;

verus! {

/// Appends the 32 bytes of `a`.
pub fn push_array(v: &mut Vec<u8>, a: &[u8; 32])
    ensures
        final(v)@ == old(v)@ + a@,
{
    let ghost start = v@;
    let mut i: usize = 0;
    while i < 32
        invariant
            0 <= i <= 32,
            a@.len() == 32,
            v@ == start + a@.subrange(0, i as int),
        decreases 32 - i,
    {
        v.push(a[i]);
        i = i + 1;
        assert(v@ =~= start + a@.subrange(0, i as int));
    }
    assert(a@.subrange(0, 32) =~= a@);
}

/// The 32 bytes of `b` that start at `at`.
pub fn read_array(b: &[u8], at: usize) -> (r: [u8; 32])
    requires
        at + 32 <= b@.len(),
    ensures
        r@ == b@.subrange(at as int, at + 32),
{
    let mut r: [u8; 32] = [0u8; 32];
    let n = b.len();
    let mut i: usize = 0;
    while i < 32
        invariant
            0 <= i <= 32,
            n == b@.len(),
            at + 32 <= b@.len(),
            r@.len() == 32,
            forall|j: int| 0 <= j < i ==> r@[j] == b@[at + j],
        decreases 32 - i,
    {
        r[i] = b[at + i];
        i = i + 1;
    }
    assert(r@ =~= b@.subrange(at as int, at + 32));
    r
}

/// The four little-endian bytes of a 32-bit integer.
pub open spec fn le4(v: u32) -> Seq<u8> {
    crate::group::u32_scalar_bytes(v).subrange(0, 4)
}

/// Appends the four little-endian bytes of `v`.
pub fn push_u32(out: &mut Vec<u8>, v: u32)
    ensures
        final(out)@ == old(out)@ + le4(v),
{
    let s = crate::group::Scalar::from_u32(v).to_bytes();
    let ghost start = out@;
    let mut i: usize = 0;
    while i < 4
        invariant
            0 <= i <= 4,
            s@ == crate::group::u32_scalar_bytes(v),
            out@ == start + s@.subrange(0, i as int),
        decreases 4 - i,
    {
        out.push(s[i]);
        i = i + 1;
        assert(out@ =~= start + s@.subrange(0, i as int));
    }
}

/// Appends the bytes of `b`.
pub fn push_bytes(out: &mut Vec<u8>, b: &[u8])
    ensures
        final(out)@ == old(out)@ + b@,
{
    let ghost start = out@;
    let mut i: usize = 0;
    while i < b.len()
        invariant
            0 <= i <= b@.len(),
            out@ == start + b@.subrange(0, i as int),
        decreases b@.len() - i,
    {
        out.push(b[i]);
        i = i + 1;
        assert(out@ =~= start + b@.subrange(0, i as int));
    }
    assert(b@.subrange(0, b@.len() as int) =~= b@);
}

/// The 32-bit integer whose four little-endian bytes start at `at`.
pub fn read_u32(b: &[u8], at: usize) -> (r: u32)
    requires
        at + 4 <= b@.len(),
    ensures
        le4(r) == b@.subrange(at as int, at + 4),
{
    let v: u64 = b[at] as u64 + 256 * (b[at + 1] as u64) + 65536 * (b[at + 2] as u64) + 16777216 * (b[at + 3] as u64);
    proof {
        lemma_le4_decode(b@[at as int], b@[at + 1], b@[at + 2], b@[at + 3]);
        assert(b@.subrange(at as int, at + 4) =~= seq![b@[at as int], b@[at + 1], b@[at + 2], b@[at + 3]]);
    }
    v as u32
}

/// Equal encodings come from equal integers.
pub proof fn lemma_le4_injective(x: u32, y: u32)
    requires
        le4(x) == le4(y),
    ensures
        x == y,
{
    lemma_le4_encode(x);
    lemma_le4_encode(y);
}

/// Four bytes read little-endian give the integer whose encoding they are.
pub proof fn lemma_le4_decode(b0: u8, b1: u8, b2: u8, b3: u8)
    ensures
        ({
            let v = (b0 as int + 256 * (b1 as int) + 65536 * (b2 as int) + 16777216 * (b3 as int));
            &&& 0 <= v <= u32::MAX
            &&& le4(v as u32) == seq![b0, b1, b2, b3]
        }),
{
    let v = b0 as int + 256 * (b1 as int) + 65536 * (b2 as int) + 16777216 * (b3 as int);
    reveal_with_fuel(crate::group::pow256, 4);
    assert(v / 1 % 256 == b0 as int) by (nonlinear_arith)
        requires v == b0 as int + 256 * (b1 as int) + 65536 * (b2 as int) + 16777216 * (b3 as int), b0 < 256, b1 < 256, b2 < 256, b3 < 256;
    assert(v / 256 % 256 == b1 as int) by (nonlinear_arith)
        requires v == b0 as int + 256 * (b1 as int) + 65536 * (b2 as int) + 16777216 * (b3 as int), b0 < 256, b1 < 256, b2 < 256, b3 < 256;
    assert(v / 65536 % 256 == b2 as int) by (nonlinear_arith)
        requires v == b0 as int + 256 * (b1 as int) + 65536 * (b2 as int) + 16777216 * (b3 as int), b0 < 256, b1 < 256, b2 < 256, b3 < 256;
    assert(v / 16777216 % 256 == b3 as int) by (nonlinear_arith)
        requires v == b0 as int + 256 * (b1 as int) + 65536 * (b2 as int) + 16777216 * (b3 as int), b0 < 256, b1 < 256, b2 < 256, b3 < 256;
    assert(le4(v as u32) =~= seq![b0, b1, b2, b3]);
}

/// An integer is the little-endian reading of its encoding.
pub proof fn lemma_le4_encode(x: u32)
    ensures
        x as int == le4(x)[0] as int + 256 * (le4(x)[1] as int) + 65536 * (le4(x)[2] as int) + 16777216 * (le4(x)[3] as int),
{
    reveal_with_fuel(crate::group::pow256, 4);
    let v = x as int;
    assert(v == v / 1 % 256 + 256 * (v / 256 % 256) + 65536 * (v / 65536 % 256) + 16777216 * (v / 16777216 % 256)) by (nonlinear_arith)
        requires 0 <= v < 0x1_0000_0000;
}

} // verus!
