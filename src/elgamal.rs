use vstd::prelude::*;
use crate::errors::{err_of, ErrorKind, Fallible};
use crate::group::{
    point_add_of, point_mul_of, point_sub_of, scalar_inv_of, u32_scalar_bytes, PedersenBases, Point, Scalar,
};
use crate::transcript::err_of_spec;
use std::collections::HashMap;

verus! {

/// The secret opening of a commitment or cipher text: a 32-bit value and a blinding factor.
#[derive(Clone, Copy, Debug)]
pub struct CommitmentWitness {
    pub value: u32,
    pub blinding: Scalar,
}

impl CommitmentWitness {
    pub open spec fn wf(&self) -> bool {
        self.blinding.wf()
    }

    /// The witness of `value` under `blinding`.
    pub fn new(value: u32, blinding: Scalar) -> (r: CommitmentWitness)
        ensures
            r.value == value,
            r.blinding == blinding,
    {
        CommitmentWitness { value, blinding }
    }

    /// Overwrites the secret value and blinding with zeros.
    pub fn zeroize(&mut self)
        ensures
            final(self).value == 0,
            final(self).blinding.bytes@ == crate::group::u32_scalar_bytes(0),
    {
        self.value = 0;
        self.blinding = Scalar::zero();
    }

    pub fn value(&self) -> (r: u32)
        ensures
            r == self.value,
    {
        self.value
    }

    pub fn blinding(&self) -> (r: &Scalar)
        ensures
            *r == self.blinding,
    {
        &self.blinding
    }
}

/// A twisted ElGamal cipher text `(r·P, v·G + r·H)`.
#[derive(Clone, Copy, Debug)]
pub struct CipherText {
    pub x: Point,
    pub y: Point,
}

/// An ElGamal public key `secret·H`.
#[derive(Clone, Copy, Debug)]
pub struct ElgamalPublicKey {
    pub pub_key: Point,
}

/// An ElGamal secret key.
#[derive(Clone, Copy, Debug)]
pub struct ElgamalSecretKey {
    pub secret: Scalar,
}

impl CipherText {
    pub open spec fn wf(&self) -> bool {
        self.x.wf() && self.y.wf()
    }

    /// Component-wise sum: a cipher text of the sum of the plain texts.
    pub fn add(&self, o: &CipherText) -> (r: CipherText)
        requires
            self.wf(),
            o.wf(),
        ensures
            r.wf(),
            r.x@ == point_add_of(self.x@, o.x@),
            r.y@ == point_add_of(self.y@, o.y@),
    {
        CipherText { x: self.x.add(&o.x), y: self.y.add(&o.y) }
    }

    /// Component-wise difference: a cipher text of the difference of the plain texts.
    pub fn sub(&self, o: &CipherText) -> (r: CipherText)
        requires
            self.wf(),
            o.wf(),
        ensures
            r.wf(),
            r.x@ == point_sub_of(self.x@, o.x@),
            r.y@ == point_sub_of(self.y@, o.y@),
    {
        CipherText { x: self.x.sub(&o.x), y: self.y.sub(&o.y) }
    }
}

/// The cipher text of `value` under `blinding` and the public key `pk`.
pub open spec fn encryption_of(gens: PedersenBases, pk: Seq<u8>, value: u32, blinding: Seq<u8>) -> (Seq<u8>, Seq<u8>) {
    (
        point_mul_of(blinding, pk),
        point_add_of(point_mul_of(u32_scalar_bytes(value), gens.b@), point_mul_of(blinding, gens.b_blinding@)),
    )
}

/// The point that a secret key reads out of a cipher text: `y − secret⁻¹·x`, which is `v·G`
/// for an encryption of `v` under `secret·H`.
pub open spec fn message_point(secret: Seq<u8>, x: Seq<u8>, y: Seq<u8>) -> Seq<u8> {
    point_sub_of(y, point_mul_of(scalar_inv_of(secret), x))
}

/// `v·G` for a 32-bit `v`.
pub open spec fn value_point(gens: PedersenBases, v: u32) -> Seq<u8> {
    point_mul_of(u32_scalar_bytes(v), gens.b@)
}

/// `v` opens the cipher text under the secret key.
pub open spec fn decrypts_to(gens: PedersenBases, secret: Seq<u8>, c: CipherText, v: u32) -> bool {
    value_point(gens, v) == message_point(secret, c.x@, c.y@)
}

/// Some 32-bit value opens the cipher text under the secret key.
pub open spec fn opens(gens: PedersenBases, secret: Seq<u8>, c: CipherText) -> bool {
    exists|v: u32| decrypts_to(gens, secret, c, v)
}

/// `v` is the one 32-bit value that opens the cipher text.
pub open spec fn unique_opening(gens: PedersenBases, secret: Seq<u8>, c: CipherText, v: u32) -> bool {
    decrypts_to(gens, secret, c, v) && forall|w: u32| decrypts_to(gens, secret, c, w) ==> w == v
}

impl ElgamalPublicKey {
    pub open spec fn wf(&self) -> bool {
        self.pub_key.wf()
    }

    /// Encrypts the witness's value under its blinding.
    pub fn encrypt(&self, gens: &PedersenBases, w: &CommitmentWitness) -> (r: CipherText)
        requires
            gens.wf(),
            self.wf(),
            w.wf(),
        ensures
            r.wf(),
            (r.x@, r.y@) == encryption_of(*gens, self.pub_key@, w.value, w.blinding@),
    {
        let v = Scalar::from_u32(w.value);
        CipherText {
            x: self.pub_key.mul(&w.blinding),
            y: gens.b.mul(&v).add(&gens.b_blinding.mul(&w.blinding)),
        }
    }

    /// Encrypts `value` under a fresh blinding drawn from `rng`; returns the witness too.
    pub fn encrypt_value(&self, gens: &PedersenBases, value: u32, rng: &mut rand::rngs::StdRng) -> (r: (CommitmentWitness, CipherText))
        requires
            gens.wf(),
            self.wf(),
        ensures
            r.0.wf(),
            r.0.value == value,
            r.1.wf(),
            (r.1.x@, r.1.y@) == encryption_of(*gens, self.pub_key@, value, r.0.blinding@),
    {
        let blinding = Scalar::random(rng);
        let w = CommitmentWitness { value, blinding };
        (w, self.encrypt(gens, &w))
    }
}

/// Encrypts one witness under two public keys with the same blinding.
pub fn encrypt_using_two_pub_keys(
    gens: &PedersenBases,
    w: &CommitmentWitness,
    pk1: &ElgamalPublicKey,
    pk2: &ElgamalPublicKey,
) -> (r: (CipherText, CipherText))
    requires
        gens.wf(),
        w.wf(),
        pk1.wf(),
        pk2.wf(),
    ensures
        r.0.wf(),
        r.1.wf(),
        (r.0.x@, r.0.y@) == encryption_of(*gens, pk1.pub_key@, w.value, w.blinding@),
        (r.1.x@, r.1.y@) == encryption_of(*gens, pk2.pub_key@, w.value, w.blinding@),
{
    (pk1.encrypt(gens, w), pk2.encrypt(gens, w))
}

impl ElgamalSecretKey {
    pub open spec fn wf(&self) -> bool {
        self.secret.wf()
    }

    /// Overwrites the secret with zeros.
    pub fn zeroize(&mut self)
        ensures
            final(self).secret.bytes@ == crate::group::u32_scalar_bytes(0),
    {
        self.secret = Scalar::zero();
    }

    pub fn new(secret: Scalar) -> (r: ElgamalSecretKey)
        ensures
            r.secret == secret,
    {
        ElgamalSecretKey { secret }
    }

    /// The public key `secret·H`.
    pub fn get_public_key(&self, gens: &PedersenBases) -> (r: ElgamalPublicKey)
        requires
            gens.wf(),
            self.wf(),
        ensures
            r.wf(),
            r.pub_key@ == point_mul_of(self.secret@, gens.b_blinding@),
    {
        ElgamalPublicKey { pub_key: gens.b_blinding.mul(&self.secret) }
    }

    /// Re-randomises a cipher text with `blinding`: `(x + blinding·P, y + blinding·H)`, where
    /// `P` is this key's public key. The plain text stays the same.
    pub fn refresh(&self, gens: &PedersenBases, c: &CipherText, blinding: &Scalar) -> (r: CipherText)
        requires
            gens.wf(),
            self.wf(),
            c.wf(),
            blinding.wf(),
        ensures
            r.wf(),
            r.x@ == point_add_of(c.x@, point_mul_of(blinding@, point_mul_of(self.secret@, gens.b_blinding@))),
            r.y@ == point_add_of(c.y@, point_mul_of(blinding@, gens.b_blinding@)),
    {
        let pk = self.get_public_key(gens);
        CipherText {
            x: c.x.add(&pk.pub_key.mul(blinding)),
            y: c.y.add(&gens.b_blinding.mul(blinding)),
        }
    }

    /// The smallest 32-bit value `v` with `v·G == y − secret⁻¹·x`, found by search; fails when
    /// there is none.
    pub fn decrypt(&self, gens: &PedersenBases, c: &CipherText) -> (r: Fallible<u32>)
        requires
            gens.wf(),
            self.wf(),
            c.wf(),
        ensures
            r.is_ok() ==> value_point(*gens, r.unwrap()) == message_point(self.secret@, c.x@, c.y@)
                && forall|w: u32| w < r.unwrap() ==> value_point(*gens, w) != message_point(self.secret@, c.x@, c.y@),
            r.is_err() ==> r == Err::<u32, crate::errors::Error>(err_of_spec(ErrorKind::CipherTextDecryptionError))
                && forall|w: u32| value_point(*gens, w) != message_point(self.secret@, c.x@, c.y@),
    {
        let m = c.y.sub(&c.x.mul(&self.secret.invert()));
        let mut v: u64 = 0;
        while v < 0x1_0000_0000
            invariant
                v <= 0x1_0000_0000,
                gens.wf(),
                m@ == message_point(self.secret@, c.x@, c.y@),
                forall|w: u32| (w as u64) < v ==> value_point(*gens, w) != m@,
            decreases 0x1_0000_0000 - v,
        {
            let s = Scalar::from_u32(v as u32);
            let p = gens.b.mul(&s);
            if p.equals(&m) {
                return Ok(v as u32);
            }
            v = v + 1;
        }
        Err(err_of(ErrorKind::CipherTextDecryptionError))
    }
}

/// The first eight bytes of a point's encoding, as a little-endian integer: the key under
/// which baby steps are stored.
fn point_key(p: &Point) -> u64 {
    let mut k: u64 = 0;
    let mut i: usize = 8;
    while i > 0
        invariant
            i <= 8,
            p.bytes@.len() == 32,
        decreases i,
    {
        i = i - 1;
        k = (k << 8u64) | (p.bytes[i] as u64);
    }
    k
}

/// The baby steps `j·G` for `1 ≤ j < 2^bits`, keyed by their encodings' first bytes, and the
/// giant step `2^bits·G`.
pub struct DecryptionTable {
    pub bits: u32,
    pub entries: HashMap<u64, u32>,
    pub giant_step: Point,
}

impl DecryptionTable {
    pub open spec fn wf(&self) -> bool {
        1 <= self.bits <= 24 && self.giant_step.wf()
    }

    /// Precomputes `2^bits` baby steps.
    pub fn new(gens: &PedersenBases, bits: u32) -> (r: DecryptionTable)
        requires
            gens.wf(),
            1 <= bits <= 24,
        ensures
            r.wf(),
            r.bits == bits,
    {
        let size: u32 = 1u32 << bits;
        assert(1u32 << bits >= 2 && 1u32 << bits <= 0x100_0000) by (bit_vector)
            requires 1 <= bits <= 24;
        let mut entries: HashMap<u64, u32> = HashMap::new();
        let mut acc = gens.b;
        let mut j: u32 = 1;
        while j < size
            invariant
                gens.wf(),
                acc.wf(),
                1 <= j <= size,
            decreases size - j,
        {
            entries.insert(point_key(&acc), j);
            acc = acc.add(&gens.b);
            j = j + 1;
        }
        DecryptionTable { bits, entries, giant_step: gens.b.mul(&Scalar::from_u32(size)) }
    }
}

impl ElgamalSecretKey {
    /// Baby-step/giant-step decryption: walks `y − secret⁻¹·x − i·2^bits·G` down and looks
    /// each point up among the baby steps; every value found is checked to open the cipher
    /// text. Should the walk find nothing, the exhaustive search settles it, so the result
    /// fails exactly when no 32-bit value opens the cipher text (that search takes `2^32`
    /// steps, which by the group law happens only on such cipher texts).
    pub fn decrypt_with_table(&self, table: &DecryptionTable, gens: &PedersenBases, c: &CipherText) -> (r: Fallible<u32>)
        requires
            gens.wf(),
            self.wf(),
            c.wf(),
            table.wf(),
        ensures
            r.is_ok() ==> decrypts_to(*gens, self.secret@, *c, r.unwrap()),
            r.is_err() <==> !opens(*gens, self.secret@, *c),
            r.is_err() ==> r == Err::<u32, crate::errors::Error>(err_of_spec(ErrorKind::CipherTextDecryptionError)),
    {
        let m = c.y.sub(&c.x.mul(&self.secret.invert()));
        let bits: u64 = table.bits as u64;
        let step: u64 = 1u64 << bits;
        let rounds: u64 = 0x1_0000_0000u64 >> bits;
        assert(1u64 << bits >= 2 && 1u64 << bits <= 0x100_0000) by (bit_vector)
            requires 1 <= bits <= 24;
        assert(((0x1_0000_0000u64 >> bits) * (1u64 << bits)) == 0x1_0000_0000u64) by (bit_vector)
            requires 1 <= bits <= 24;
        let mut cur = m;
        let mut i: u64 = 0;
        while i < rounds
            invariant
                gens.wf(),
                table.wf(),
                cur.wf(),
                m@ == message_point(self.secret@, c.x@, c.y@),
                2 <= step <= 0x100_0000,
                rounds * step == 0x1_0000_0000u64,
                i <= rounds,
            decreases rounds - i,
        {
            let found: Option<u32> = if cur.is_identity() {
                Some(0)
            } else {
                match table.entries.get(&point_key(&cur)) {
                    Some(j) => Some(*j),
                    None => None,
                }
            };
            if let Some(j) = found {
                if (j as u64) < step {
                    assert(i * step + step <= rounds * step) by (nonlinear_arith)
                        requires i < rounds;
                    let v = (i * step + j as u64) as u32;
                    if gens.b.mul(&Scalar::from_u32(v)).equals(&m) {
                        assert(decrypts_to(*gens, self.secret@, *c, v));
                        return Ok(v);
                    }
                }
            }
            cur = cur.sub(&table.giant_step);
            i = i + 1;
        }
        let r = self.decrypt(gens, c);
        proof {
            if r.is_ok() {
                assert(decrypts_to(*gens, self.secret@, *c, r.unwrap()));
            } else {
                assert forall|w: u32| !decrypts_to(*gens, self.secret@, *c, w) by {
                    assert(value_point(*gens, w) != message_point(self.secret@, c.x@, c.y@));
                }
            }
        }
        r
    }
}

} // verus!
