use vstd::prelude::*;

verus! {

/// Whether the bytes are the canonical encoding of a scalar modulo the group order.
pub uninterp spec fn is_canonical_scalar(b: Seq<u8>) -> bool;

/// Whether the bytes are the canonical compressed encoding of a Ristretto point.
pub uninterp spec fn is_valid_point(b: Seq<u8>) -> bool;

/// The encoding of the sum of two points, given by their encodings.
pub uninterp spec fn point_add_of(a: Seq<u8>, b: Seq<u8>) -> Seq<u8>;

/// The encoding of the difference of two points, given by their encodings.
pub uninterp spec fn point_sub_of(a: Seq<u8>, b: Seq<u8>) -> Seq<u8>;

/// The encoding of a point multiplied by a scalar, given by their encodings.
pub uninterp spec fn point_mul_of(s: Seq<u8>, p: Seq<u8>) -> Seq<u8>;

/// The sum of two scalars modulo the group order, given by their encodings.
pub uninterp spec fn scalar_add_of(a: Seq<u8>, b: Seq<u8>) -> Seq<u8>;

/// The difference of two scalars modulo the group order, given by their encodings.
pub uninterp spec fn scalar_sub_of(a: Seq<u8>, b: Seq<u8>) -> Seq<u8>;

/// The product of two scalars modulo the group order, given by their encodings.
pub uninterp spec fn scalar_mul_of(a: Seq<u8>, b: Seq<u8>) -> Seq<u8>;

/// The multiplicative inverse of a scalar modulo the group order, given by its encoding.
pub uninterp spec fn scalar_inv_of(a: Seq<u8>) -> Seq<u8>;

/// The scalar that 64 bytes, read as a little-endian integer, leave modulo the group order.
pub uninterp spec fn scalar_wide_of(b: Seq<u8>) -> Seq<u8>;

/// The encoding of the point that a hash-to-group maps the bytes to.
pub uninterp spec fn point_hash_of(b: Seq<u8>) -> Seq<u8>;

/// A scalar of the Ristretto group, as its 32 canonical bytes.
#[derive(Clone, Copy, Debug)]
pub struct Scalar {
    pub bytes: [u8; 32],
}

/// A Ristretto point, as its 32-byte compressed encoding.
#[derive(Clone, Copy, Debug)]
pub struct Point {
    pub bytes: [u8; 32],
}

impl Scalar {
    pub open spec fn view(&self) -> Seq<u8> {
        self.bytes@
    }

    pub open spec fn wf(&self) -> bool {
        is_canonical_scalar(self.bytes@)
    }
}

impl Point {
    pub open spec fn view(&self) -> Seq<u8> {
        self.bytes@
    }

    pub open spec fn wf(&self) -> bool {
        is_valid_point(self.bytes@)
    }
}

/// The 32 little-endian bytes of a 32-bit integer.
pub open spec fn u32_scalar_bytes(v: u32) -> Seq<u8> {
    Seq::new(32, |i: int|
        if i < 4 {
            ((v as int / pow256(i)) % 256) as u8
        } else {
            0u8
        })
}

/// 256 to the power `i`.
pub open spec fn pow256(i: int) -> int
    decreases i,
{
    if i <= 0 {
        1
    } else {
        256 * pow256(i - 1)
    }
}

/// The encoding of the identity point: 32 zero bytes.
pub open spec fn identity_bytes() -> Seq<u8> {
    Seq::new(32, |i: int| 0u8)
}

/// Relies on curve25519_dalek's CompressedRistretto::decompress: it succeeds exactly on
/// canonical encodings of points.
#[verifier::external_body]
fn decompresses(b: [u8; 32]) -> (r: bool)
    ensures
        r <==> is_valid_point(b@),
{
    curve25519_dalek::ristretto::CompressedRistretto(b).decompress().is_some()
}

/// Relies on curve25519_dalek's Scalar::from_canonical_bytes: it succeeds exactly on
/// canonical encodings of scalars.
#[verifier::external_body]
fn scalar_canonical(b: [u8; 32]) -> (r: bool)
    ensures
        r <==> is_canonical_scalar(b@),
{
    bool::from(curve25519_dalek::scalar::Scalar::from_canonical_bytes(b).is_some())
}

/// Relies on curve25519_dalek's addition of Ristretto points.
#[verifier::external_body]
fn add_points(a: &Point, b: &Point) -> (r: Point)
    requires
        a.wf(),
        b.wf(),
    ensures
        r.wf(),
        r@ == point_add_of(a@, b@),
{
    let pa = curve25519_dalek::ristretto::CompressedRistretto(a.bytes).decompress().unwrap();
    let pb = curve25519_dalek::ristretto::CompressedRistretto(b.bytes).decompress().unwrap();
    Point { bytes: (pa + pb).compress().to_bytes() }
}

/// Relies on curve25519_dalek's subtraction of Ristretto points.
#[verifier::external_body]
fn sub_points(a: &Point, b: &Point) -> (r: Point)
    requires
        a.wf(),
        b.wf(),
    ensures
        r.wf(),
        r@ == point_sub_of(a@, b@),
{
    let pa = curve25519_dalek::ristretto::CompressedRistretto(a.bytes).decompress().unwrap();
    let pb = curve25519_dalek::ristretto::CompressedRistretto(b.bytes).decompress().unwrap();
    Point { bytes: (pa - pb).compress().to_bytes() }
}

/// Relies on curve25519_dalek's multiplication of a Ristretto point by a scalar.
#[verifier::external_body]
fn mul_point(s: &Scalar, p: &Point) -> (r: Point)
    requires
        s.wf(),
        p.wf(),
    ensures
        r.wf(),
        r@ == point_mul_of(s@, p@),
{
    let ss = curve25519_dalek::scalar::Scalar::from_canonical_bytes(s.bytes).unwrap();
    let pp = curve25519_dalek::ristretto::CompressedRistretto(p.bytes).decompress().unwrap();
    Point { bytes: (ss * pp).compress().to_bytes() }
}

/// Relies on curve25519_dalek's addition of scalars modulo the group order.
#[verifier::external_body]
fn add_scalars(a: &Scalar, b: &Scalar) -> (r: Scalar)
    requires
        a.wf(),
        b.wf(),
    ensures
        r.wf(),
        r@ == scalar_add_of(a@, b@),
{
    let sa = curve25519_dalek::scalar::Scalar::from_canonical_bytes(a.bytes).unwrap();
    let sb = curve25519_dalek::scalar::Scalar::from_canonical_bytes(b.bytes).unwrap();
    Scalar { bytes: (sa + sb).to_bytes() }
}

/// Relies on curve25519_dalek's subtraction of scalars modulo the group order.
#[verifier::external_body]
fn sub_scalars(a: &Scalar, b: &Scalar) -> (r: Scalar)
    requires
        a.wf(),
        b.wf(),
    ensures
        r.wf(),
        r@ == scalar_sub_of(a@, b@),
{
    let sa = curve25519_dalek::scalar::Scalar::from_canonical_bytes(a.bytes).unwrap();
    let sb = curve25519_dalek::scalar::Scalar::from_canonical_bytes(b.bytes).unwrap();
    Scalar { bytes: (sa - sb).to_bytes() }
}

/// Relies on curve25519_dalek's multiplication of scalars modulo the group order.
#[verifier::external_body]
fn mul_scalars(a: &Scalar, b: &Scalar) -> (r: Scalar)
    requires
        a.wf(),
        b.wf(),
    ensures
        r.wf(),
        r@ == scalar_mul_of(a@, b@),
{
    let sa = curve25519_dalek::scalar::Scalar::from_canonical_bytes(a.bytes).unwrap();
    let sb = curve25519_dalek::scalar::Scalar::from_canonical_bytes(b.bytes).unwrap();
    Scalar { bytes: (sa * sb).to_bytes() }
}

/// Relies on curve25519_dalek's Scalar::invert.
#[verifier::external_body]
fn invert_scalar(a: &Scalar) -> (r: Scalar)
    requires
        a.wf(),
    ensures
        r.wf(),
        r@ == scalar_inv_of(a@),
{
    let sa = curve25519_dalek::scalar::Scalar::from_canonical_bytes(a.bytes).unwrap();
    Scalar { bytes: sa.invert().to_bytes() }
}

/// Relies on curve25519_dalek's `From<u32> for Scalar`: the little-endian bytes of the
/// integer, padded with zeros.
#[verifier::external_body]
fn scalar_of_u32(v: u32) -> (r: Scalar)
    ensures
        r.wf(),
        r@ == u32_scalar_bytes(v),
{
    Scalar { bytes: curve25519_dalek::scalar::Scalar::from(v).to_bytes() }
}

/// Relies on curve25519_dalek's Scalar::from_bytes_mod_order_wide.
#[verifier::external_body]
pub(crate) fn scalar_from_wide(b: &[u8; 64]) -> (r: Scalar)
    ensures
        r.wf(),
        r@ == scalar_wide_of(b@),
{
    Scalar { bytes: curve25519_dalek::scalar::Scalar::from_bytes_mod_order_wide(b).to_bytes() }
}

/// The encoding of the `i`-th value generator of the first party of bulletproofs'
/// generator chains.
pub uninterp spec fn bp_generator_of(i: nat) -> Seq<u8>;

/// Relies on bulletproofs' BulletproofGens::new and its first share's `G`: `count` points
/// of a deterministic chain, the `i`-th the same whatever the count.
#[verifier::external_body]
pub(crate) fn bulletproof_generators(count: usize) -> (r: Vec<Point>)
    ensures
        r@.len() == count,
        forall|i: int| 0 <= i < count ==> (#[trigger] r@[i]).wf() && r@[i]@ == bp_generator_of(i as nat),
{
    let gens = bulletproofs::BulletproofGens::new(count, 1);
    gens.share(0).G(count).map(|p| Point { bytes: p.compress().to_bytes() }).collect()
}

/// Relies on bulletproofs' PedersenGens::default: the value base is the Ristretto base point
/// and the blinding base is the hash-to-group of its compressed encoding.
#[verifier::external_body]
fn pedersen_bases() -> (r: ([u8; 32], [u8; 32]))
    ensures
        is_valid_point(r.0@),
        is_valid_point(r.1@),
        r.1@ == point_hash_of(r.0@),
{
    let g = bulletproofs::PedersenGens::default();
    (g.B.compress().to_bytes(), g.B_blinding.compress().to_bytes())
}

/// Relies on curve25519_dalek's Scalar::random for rand's standard generator: a canonical
/// scalar.
#[verifier::external_body]
fn random_scalar_std(rng: &mut rand::rngs::StdRng) -> (r: Scalar)
    ensures
        r.wf(),
{
    Scalar { bytes: curve25519_dalek::scalar::Scalar::random(rng).to_bytes() }
}

/// Relies on curve25519_dalek's RISTRETTO_BASEPOINT_POINT: a valid point.
#[verifier::external_body]
fn basepoint_bytes() -> (r: [u8; 32])
    ensures
        is_valid_point(r@),
{
    curve25519_dalek::constants::RISTRETTO_BASEPOINT_POINT.compress().to_bytes()
}

impl Scalar {
    /// A random scalar drawn from `rng`.
    pub fn random(rng: &mut rand::rngs::StdRng) -> (r: Scalar)
        ensures
            r.wf(),
    {
        random_scalar_std(rng)
    }

    /// The scalar with the given canonical encoding, if it is one.
    pub fn from_bytes(b: [u8; 32]) -> (r: Option<Scalar>)
        ensures
            r.is_some() <==> is_canonical_scalar(b@),
            r.is_some() ==> r.unwrap()@ == b@,
    {
        if scalar_canonical(b) {
            Some(Scalar { bytes: b })
        } else {
            None
        }
    }

    /// The encoding of this scalar.
    pub fn to_bytes(&self) -> (r: [u8; 32])
        ensures
            r@ == self@,
    {
        self.bytes
    }

    /// The scalar that stands for a 32-bit integer.
    pub fn from_u32(v: u32) -> (r: Scalar)
        ensures
            r.wf(),
            r@ == u32_scalar_bytes(v),
    {
        scalar_of_u32(v)
    }

    /// The scalar zero.
    pub fn zero() -> (r: Scalar)
        ensures
            r.wf(),
            r@ == u32_scalar_bytes(0),
    {
        scalar_of_u32(0)
    }

    /// The scalar one.
    pub fn one() -> (r: Scalar)
        ensures
            r.wf(),
            r@ == u32_scalar_bytes(1),
    {
        scalar_of_u32(1)
    }

    /// Sum modulo the group order.
    pub fn add(&self, o: &Scalar) -> (r: Scalar)
        requires
            self.wf(),
            o.wf(),
        ensures
            r.wf(),
            r@ == scalar_add_of(self@, o@),
    {
        add_scalars(self, o)
    }

    /// Difference modulo the group order.
    pub fn sub(&self, o: &Scalar) -> (r: Scalar)
        requires
            self.wf(),
            o.wf(),
        ensures
            r.wf(),
            r@ == scalar_sub_of(self@, o@),
    {
        sub_scalars(self, o)
    }

    /// Product modulo the group order.
    pub fn mul(&self, o: &Scalar) -> (r: Scalar)
        requires
            self.wf(),
            o.wf(),
        ensures
            r.wf(),
            r@ == scalar_mul_of(self@, o@),
    {
        mul_scalars(self, o)
    }

    /// The inverse modulo the group order.
    pub fn invert(&self) -> (r: Scalar)
        requires
            self.wf(),
        ensures
            r.wf(),
            r@ == scalar_inv_of(self@),
    {
        invert_scalar(self)
    }

    /// Whether the encoding is canonical.
    pub fn is_canonical(&self) -> (r: bool)
        ensures
            r <==> self.wf(),
    {
        scalar_canonical(self.bytes)
    }

    /// Whether two scalars are equal; canonical encodings make this a byte comparison.
    pub fn equals(&self, o: &Scalar) -> (r: bool)
        ensures
            r <==> self@ == o@,
    {
        bytes_equal(&self.bytes, &o.bytes)
    }
}

impl Point {
    /// The Ristretto base point.
    pub fn basepoint() -> (r: Point)
        ensures
            r.wf(),
    {
        Point { bytes: basepoint_bytes() }
    }

    /// The point with the given compressed encoding, if it is one.
    pub fn from_bytes(b: [u8; 32]) -> (r: Option<Point>)
        ensures
            r.is_some() <==> is_valid_point(b@),
            r.is_some() ==> r.unwrap()@ == b@,
    {
        if decompresses(b) {
            Some(Point { bytes: b })
        } else {
            None
        }
    }

    /// The compressed encoding of this point.
    pub fn to_bytes(&self) -> (r: [u8; 32])
        ensures
            r@ == self@,
    {
        self.bytes
    }

    /// Point addition.
    pub fn add(&self, o: &Point) -> (r: Point)
        requires
            self.wf(),
            o.wf(),
        ensures
            r.wf(),
            r@ == point_add_of(self@, o@),
    {
        add_points(self, o)
    }

    /// Point subtraction.
    pub fn sub(&self, o: &Point) -> (r: Point)
        requires
            self.wf(),
            o.wf(),
        ensures
            r.wf(),
            r@ == point_sub_of(self@, o@),
    {
        sub_points(self, o)
    }

    /// Multiplication by a scalar.
    pub fn mul(&self, s: &Scalar) -> (r: Point)
        requires
            self.wf(),
            s.wf(),
        ensures
            r.wf(),
            r@ == point_mul_of(s@, self@),
    {
        mul_point(s, self)
    }

    /// Whether this is the identity point, whose encoding is all zeros.
    pub fn is_identity(&self) -> (r: bool)
        ensures
            r <==> self@ == identity_bytes(),
    {
        let z: [u8; 32] = [0u8; 32];
        assert(z@ =~= identity_bytes());
        bytes_equal(&self.bytes, &z)
    }

    /// Whether two points are equal; the compressed encoding is canonical, so this is a
    /// byte comparison.
    pub fn equals(&self, o: &Point) -> (r: bool)
        ensures
            r <==> self@ == o@,
    {
        bytes_equal(&self.bytes, &o.bytes)
    }
}

/// Byte-wise equality of two 32-byte arrays.
pub fn bytes_equal(a: &[u8; 32], b: &[u8; 32]) -> (r: bool)
    ensures
        r <==> a@ == b@,
{
    let mut i: usize = 0;
    while i < 32
        invariant
            0 <= i <= 32,
            a@.len() == 32,
            b@.len() == 32,
            forall|j: int| 0 <= j < i ==> a@[j] == b@[j],
        decreases 32 - i,
    {
        if a[i] != b[i] {
            return false;
        }
        i = i + 1;
    }
    assert(a@ =~= b@);
    true
}

/// The two bases of Pedersen commitments: `b` for values, `b_blinding` for blinding factors.
#[derive(Clone, Copy, Debug)]
pub struct PedersenBases {
    pub b: Point,
    pub b_blinding: Point,
}

impl PedersenBases {
    pub open spec fn wf(&self) -> bool {
        self.b.wf() && self.b_blinding.wf() && self.b_blinding@ == point_hash_of(self.b@)
    }

    /// The standard bases.
    pub fn standard() -> (r: PedersenBases)
        ensures
            r.wf(),
    {
        let (b, bb) = pedersen_bases();
        PedersenBases { b: Point { bytes: b }, b_blinding: Point { bytes: bb } }
    }

    /// The commitment `v·B + r·B_blinding`.
    pub fn commit(&self, v: &Scalar, r: &Scalar) -> (c: Point)
        requires
            self.wf(),
            v.wf(),
            r.wf(),
        ensures
            c.wf(),
            c@ == point_add_of(point_mul_of(v@, self.b@), point_mul_of(r@, self.b_blinding@)),
    {
        self.b.mul(v).add(&self.b_blinding.mul(r))
    }
}

} // verus!
