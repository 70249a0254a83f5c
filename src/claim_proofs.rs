//! The verifier's side of the identity-audit protocol: a shuffled, masked set of unique
//! identifiers, padded with random ones up to an anonymity floor.

use vstd::prelude::*;
use vstd::string::StringSliceAdditionalSpecFns;
use crate::claim_data::CddId;
use crate::errors::{err_of, ErrorKind, Fallible, ZkpKind};
use crate::group::{
    identity_bytes, point_add_of, point_mul_of, point_sub_of, scalar_add_of, scalar_from_wide,
    scalar_mul_of, scalar_wide_of, u32_scalar_bytes, PedersenBases, Point, Scalar,
};
use crate::transcript::{challenge_scalar_of, err_of_spec, ProofTranscript, TranscriptEntry, DOM_SEP_LABEL};

verus! {

broadcast use vstd::seq_lib::group_to_multiset_ensures;

/// The smallest size of the committed set, unless the caller asks for another.
pub const SET_SIZE_ANONYMITY_PARAM: usize = 100;

/// The investors' unique identifiers, as scalars.
pub struct PrivateUids(pub Vec<Scalar>);

/// The masked, shuffled identifiers that the verifier publishes.
pub struct CommittedUids(pub Vec<Point>);

/// The verifier's masking scalar.
pub struct VerifierSecrets {
    pub rand: Scalar,
}

/// Relies on rand_core's RngCore::fill_bytes for `StdRng`.
#[verifier::external_body]
fn random_bytes16(rng: &mut rand::rngs::StdRng) -> (r: [u8; 16]) {
    let mut b = [0u8; 16];
    rand::RngCore::fill_bytes(rng, &mut b);
    b
}

/// Relies on uuid's Builder: `set_variant(RFC4122)` keeps the low six bits of byte 8 and
/// sets the top two to `10`; `set_version(Random)` keeps the low four bits of byte 6 and
/// sets the top four to `0100`; every other byte is kept.
#[verifier::external_body]
fn v4_uuid(b: [u8; 16]) -> (r: [u8; 16])
    ensures
        r[8] == ((b[8] & 0x3f) | 0x80),
        r[6] == ((b[6] & 0x0f) | 0x40),
        forall|i: int| 0 <= i < 16 && i != 6 && i != 8 ==> r@[i] == b@[i],
{
    *uuid::Builder::from_bytes(b)
        .set_variant(uuid::Variant::RFC4122)
        .set_version(uuid::Version::Random)
        .build()
        .as_bytes()
}

/// A version-4, RFC 4122 identifier.
pub open spec fn is_v4_uuid(u: Seq<u8>) -> bool {
    u.len() == 16 && u[6] >> 4u8 == 4 && u[8] >> 6u8 == 2
}

/// `count` random version-4 identifiers.
pub fn gen_random_uuids(count: usize, rng: &mut rand::rngs::StdRng) -> (r: Vec<[u8; 16]>)
    ensures
        r@.len() == count,
        forall|i: int| 0 <= i < count ==> is_v4_uuid((#[trigger] r@[i])@),
{
    let mut r: Vec<[u8; 16]> = Vec::new();
    let mut i: usize = 0;
    while i < count
        invariant
            i <= count,
            r@.len() == i,
            forall|j: int| 0 <= j < i ==> is_v4_uuid((#[trigger] r@[j])@),
        decreases count - i,
    {
        let raw = random_bytes16(rng);
        let u = v4_uuid(raw);
        let x8: u8 = raw[8];
        let x6: u8 = raw[6];
        assert(((x8 & 0x3f) | 0x80) >> 6u8 == 2) by (bit_vector);
        assert(((x6 & 0x0f) | 0x40) >> 4u8 == 4) by (bit_vector);
        r.push(u);
        i = i + 1;
    }
    r
}

/// The 64 bytes of an identifier followed by zeros.
pub open spec fn uuid_wide(u: Seq<u8>) -> Seq<u8> {
    Seq::new(64, |i: int| if i < 16 { u[i] } else { 0u8 })
}

/// The scalar of an identifier: its 16 bytes read as a little-endian integer.
pub fn uuid_to_scalar(u: [u8; 16]) -> (r: Scalar)
    ensures
        r.wf(),
        r@ == scalar_wide_of(uuid_wide(u@)),
{
    let mut wide: [u8; 64] = [0u8; 64];
    let mut i: usize = 0;
    while i < 16
        invariant
            i <= 16,
            wide@.len() == 64,
            forall|j: int| 0 <= j < i ==> wide@[j] == u@[j],
            forall|j: int| 16 <= j < 64 ==> wide@[j] == 0u8,
        decreases 16 - i,
    {
        wide[i] = u[i];
        i = i + 1;
    }
    assert(wide@ =~= uuid_wide(u@));
    scalar_from_wide(&wide)
}

/// Relies on rand's SliceRandom::shuffle, which only swaps entries.
#[verifier::external_body]
fn shuffle_points(v: &mut Vec<Point>, rng: &mut rand::rngs::StdRng)
    ensures
        final(v)@.to_multiset() == old(v)@.to_multiset(),
{
    rand::seq::SliceRandom::shuffle(v.as_mut_slice(), rng)
}

/// The encodings of a list of points.
pub open spec fn point_views(s: Seq<Point>) -> Seq<Seq<u8>> {
    Seq::new(s.len(), |i: int| s[i]@)
}

/// The masked commitment of an identifier: `(uid·g)·r`.
pub open spec fn masked_uid(g: Seq<u8>, uid: Seq<u8>, r: Seq<u8>) -> Seq<u8> {
    point_mul_of(r, point_mul_of(uid, g))
}

/// The size of the committed set: the number of identifiers, or the floor if larger.
pub open spec fn committed_size(n: nat, min_set_size: Option<usize>) -> nat {
    let floor = match min_set_size {
        Some(s) => s as nat,
        None => SET_SIZE_ANONYMITY_PARAM as nat,
    };
    if n >= floor { n } else { floor }
}

/// `before` masks, in order, the real identifiers and then one scalar for each padding
/// identifier in `pad`, each a random version-4 identifier.
pub open spec fn padded_masked_set(g: Seq<u8>, reals: Seq<Scalar>, pad: Seq<Seq<u8>>, r: Seq<u8>, before: Seq<Point>) -> bool {
    &&& before.len() == reals.len() + pad.len()
    &&& forall|k: int| 0 <= k < pad.len() ==> is_v4_uuid(#[trigger] pad[k])
    &&& forall|k: int| 0 <= k < reals.len() ==> (#[trigger] before[k])@ == masked_uid(g, reals[k]@, r)
    &&& forall|k: int| 0 <= k < pad.len() ==> (#[trigger] before[reals.len() + k])@ == masked_uid(
        g,
        scalar_wide_of(uuid_wide(pad[k])),
        r,
    )
}

/// The published set is a permutation of the masked real identifiers followed by masked
/// random version-4 identifiers.
pub open spec fn padded_masking(g: Seq<u8>, reals: Seq<Scalar>, r: Seq<u8>, committed: Seq<Point>) -> bool {
    exists|pad: Seq<Seq<u8>>, before: Seq<Point>| #[trigger] padded_masked_set(g, reals, pad, r, before)
        && committed.to_multiset() == before.to_multiset()
}

/// Masks every identifier with a fresh random scalar, after padding the list with random
/// identifiers up to the floor (`min_set_size`, or the default), and shuffles the result.
pub fn generate_committed_set(
    private_unique_identifiers: PrivateUids,
    min_set_size: Option<usize>,
    gens: &PedersenBases,
    rng: &mut rand::rngs::StdRng,
) -> (r: Fallible<(VerifierSecrets, CommittedUids)>)
    requires
        gens.wf(),
        forall|i: int| 0 <= i < private_unique_identifiers.0@.len() ==> (#[trigger] private_unique_identifiers.0@[i]).wf(),
    ensures
        r.is_ok(),
        r.unwrap().0.rand.wf(),
        r.unwrap().1.0@.len() == committed_size(private_unique_identifiers.0@.len(), min_set_size),
        forall|i: int| 0 <= i < private_unique_identifiers.0@.len() ==> point_views(r.unwrap().1.0@).contains(
            masked_uid(gens.b@, (#[trigger] private_unique_identifiers.0@[i])@, r.unwrap().0.rand@),
        ),
        padded_masking(gens.b@, private_unique_identifiers.0@, r.unwrap().0.rand@, r.unwrap().1.0@),
{
    let min_size = match min_set_size {
        Some(s) => s,
        None => SET_SIZE_ANONYMITY_PARAM,
    };
    let mut padded: Vec<Scalar> = private_unique_identifiers.0;
    let n = padded.len();
    let ghost orig = padded@;
    let ghost mut pad: Seq<Seq<u8>> = Seq::empty();
    if n < min_size {
        let extra = gen_random_uuids(min_size - n, rng);
        proof {
            pad = Seq::new(extra@.len(), |k: int| extra@[k]@);
        }
        let mut j: usize = 0;
        while j < extra.len()
            invariant
                padded@.len() == n + j,
                j <= extra@.len(),
                extra@.len() == min_size - n,
                orig.len() == n,
                pad == Seq::new(extra@.len(), |k: int| extra@[k]@),
                forall|i: int| 0 <= i < padded@.len() ==> (#[trigger] padded@[i]).wf(),
                forall|i: int| 0 <= i < n ==> padded@[i] == orig[i],
                forall|k: int| 0 <= k < j ==> (#[trigger] padded@[n + k])@ == scalar_wide_of(uuid_wide(pad[k])),
            decreases extra@.len() - j,
        {
            padded.push(uuid_to_scalar(extra[j]));
            j = j + 1;
        }
        assert forall|k: int| 0 <= k < pad.len() implies is_v4_uuid(#[trigger] pad[k]) by {
            assert(is_v4_uuid(extra@[k]@));
        }
    }
    assert(padded@.len() == committed_size(orig.len(), min_set_size));
    let r = Scalar::random(rng);
    let mut commitments: Vec<Point> = Vec::new();
    let mut i: usize = 0;
    while i < padded.len()
        invariant
            i <= padded@.len(),
            gens.wf(),
            r.wf(),
            commitments@.len() == i,
            forall|k: int| 0 <= k < padded@.len() ==> (#[trigger] padded@[k]).wf(),
            forall|k: int| 0 <= k < i ==> (#[trigger] commitments@[k])@ == masked_uid(gens.b@, padded@[k]@, r@),
        decreases padded@.len() - i,
    {
        commitments.push(gens.b.mul(&padded[i]).mul(&r));
        i = i + 1;
    }
    let ghost before = commitments@;
    shuffle_points(&mut commitments, rng);
    proof {
        assert(padded_masked_set(gens.b@, orig, pad, r@, before)) by {
            assert forall|k: int| 0 <= k < pad.len() implies (#[trigger] before[orig.len() + k])@ == masked_uid(
                gens.b@,
                scalar_wide_of(uuid_wide(pad[k])),
                r@,
            ) by {
                assert(padded@[n + k]@ == scalar_wide_of(uuid_wide(pad[k])));
            }
        }
        assert(commitments@.len() == before.len()) by {
            assert(commitments@.to_multiset().len() == before.to_multiset().len());
        }
        assert forall|k: int| 0 <= k < orig.len() implies point_views(commitments@).contains(
            masked_uid(gens.b@, (#[trigger] orig[k])@, r@),
        ) by {
            assert(before.contains(before[k]));
            assert(before.to_multiset().count(before[k]) > 0);
            assert(commitments@.to_multiset().count(before[k]) > 0);
            assert(commitments@.contains(before[k]));
            let idx = choose|idx: int| 0 <= idx < commitments@.len() && commitments@[idx] == before[k];
            assert(point_views(commitments@)[idx] == before[k]@);
        }
    }
    assert(orig == private_unique_identifiers.0@);
    let res = (VerifierSecrets { rand: r }, CommittedUids(commitments));
    assert(padded_masked_set(gens.b@, private_unique_identifiers.0@, pad, res.0.rand@, before)
        && res.1.0@.to_multiset() == before.to_multiset());
    assert(padded_masking(gens.b@, private_unique_identifiers.0@, res.0.rand@, res.1.0@));
    Ok(res)
}

/// The last check of a claim proof: the identifier commitment, masked with the verifier's
/// scalar, is one of the published set.
pub fn check_committed_uid(uid_commitment: &Point, secrets: &VerifierSecrets, committed: &CommittedUids) -> (r: Fallible<()>)
    requires
        uid_commitment.wf(),
        secrets.rand.wf(),
    ensures
        r.is_ok() <==> point_views(committed.0@).contains(point_mul_of(secrets.rand@, uid_commitment@)),
        r.is_err() ==> r == Err::<(), crate::errors::Error>(err_of_spec(ErrorKind::MembershipProofError)),
{
    let looking_for = uid_commitment.mul(&secrets.rand);
    let mut i: usize = 0;
    while i < committed.0.len()
        invariant
            i <= committed.0@.len(),
            looking_for@ == point_mul_of(secrets.rand@, uid_commitment@),
            forall|k: int| 0 <= k < i ==> (#[trigger] committed.0@[k])@ != looking_for@,
        decreases committed.0@.len() - i,
    {
        if committed.0[i].equals(&looking_for) {
            assert(point_views(committed.0@)[i as int] == looking_for@);
            assert(point_views(committed.0@).contains(looking_for@));
            return Ok(());
        }
        i = i + 1;
    }
    assert(!point_views(committed.0@).contains(looking_for@)) by {
        if point_views(committed.0@).contains(looking_for@) {
            let idx = choose|idx: int| 0 <= idx < committed.0@.len() && #[trigger] point_views(committed.0@)[idx] == looking_for@;
            assert(committed.0@[idx]@ == looking_for@);
        }
    }
    Err(err_of(ErrorKind::MembershipProofError))
}

/// The domain label of representation proofs' transcripts.
pub const CLAIM_PROOF_LABEL: &'static str = "PolymathClaimProofLabel";

/// The domain label of representation proofs' challenges.
pub const CLAIM_PROOF_CHALLENGE_LABEL: &'static str = "PolymathClaimProofChallengeLabel";

/// The labels of this proof fit merlin's 32-bit length framing.
proof fn lemma_labels_short()
    ensures
        crate::transcript::short_str(CLAIM_PROOF_LABEL),
        crate::transcript::short_str(CLAIM_PROOF_CHALLENGE_LABEL),
{
    broadcast use vstd::string::is_ascii_spec_bytes;

    reveal_strlit("PolymathClaimProofLabel");
    reveal_strlit("PolymathClaimProofChallengeLabel");
    assert(vstd::string::is_ascii(CLAIM_PROOF_LABEL));
    assert(vstd::string::is_ascii(CLAIM_PROOF_CHALLENGE_LABEL));
}


/// The first message of a proof of knowledge of `s` with `P = Σ s_i·g_i`: the bases and
/// the commitment `A = Σ r_i·g_i`.
#[derive(Clone, Debug)]
pub struct RepresentationInitialMessage {
    pub generators: Vec<Point>,
    pub commitment: Point,
}

/// The responses `z_i = r_i + c·s_i`.
#[derive(Clone, Debug)]
pub struct RepresentationResponse {
    pub z: Vec<Scalar>,
}

/// `Σ z_i·g_i` over the first `k ≥ 1` terms.
pub open spec fn lincomb(z: Seq<Scalar>, g: Seq<Point>, k: nat) -> Seq<u8>
    decreases k,
{
    if k <= 1 {
        point_mul_of(z[0]@, g[0]@)
    } else {
        point_add_of(lincomb(z, g, (k - 1) as nat), point_mul_of(z[k - 1]@, g[k - 1]@))
    }
}

/// What a representation proof appends to a transcript.
pub open spec fn representation_entries(im: RepresentationInitialMessage, statement: Seq<u8>) -> Seq<TranscriptEntry> {
    seq![TranscriptEntry::Message(DOM_SEP_LABEL@, CLAIM_PROOF_CHALLENGE_LABEL.spec_bytes())]
        + Seq::new(im.generators@.len(), |k: int| TranscriptEntry::Message("G"@, im.generators@[k]@))
        + seq![TranscriptEntry::Message("P"@, statement), TranscriptEntry::Message("A"@, im.commitment@)]
}

/// The challenge of a representation proof.
pub open spec fn representation_challenge(im: RepresentationInitialMessage, statement: Seq<u8>) -> Seq<u8> {
    challenge_scalar_of(
        seq![TranscriptEntry::Start(CLAIM_PROOF_LABEL@)] + representation_entries(im, statement),
        CLAIM_PROOF_CHALLENGE_LABEL@,
    )
}

/// Some point of the proof, or the statement, is the identity.
pub open spec fn representation_trivial(im: RepresentationInitialMessage, statement: Seq<u8>) -> bool {
    ||| exists|k: int| 0 <= k < im.generators@.len() && (#[trigger] im.generators@[k])@ == identity_bytes()
    ||| statement == identity_bytes()
    ||| im.commitment@ == identity_bytes()
}

/// Whether a representation proof of `statement` verifies.
pub open spec fn representation_ok(im: RepresentationInitialMessage, r: RepresentationResponse, statement: Seq<u8>) -> bool {
    &&& im.generators@.len() >= 1
    &&& r.z@.len() == im.generators@.len()
    &&& !representation_trivial(im, statement)
    &&& representation_challenge(im, statement) != u32_scalar_bytes(0)
    &&& lincomb(r.z@, im.generators@, im.generators@.len()) == point_add_of(
        im.commitment@,
        point_mul_of(representation_challenge(im, statement), statement),
    )
}

impl RepresentationInitialMessage {
    pub open spec fn wf(&self) -> bool {
        self.commitment.wf() && forall|k: int| 0 <= k < self.generators@.len() ==> (#[trigger] self.generators@[k]).wf()
    }

    fn challenge(&self, statement: &Point) -> (r: Fallible<crate::transcript::ZKPChallenge>)
        ensures
            r.is_ok() <==> !representation_trivial(*self, statement@) && representation_challenge(*self, statement@) != u32_scalar_bytes(0),
            r.is_ok() ==> r.unwrap().wf() && r.unwrap().x@ == representation_challenge(*self, statement@),
    {
        proof {
            lemma_labels_short();
        }
        let mut t = ProofTranscript::new(CLAIM_PROOF_LABEL);
        proof {
            lemma_labels_short();
        }
        t.append_domain_separator(CLAIM_PROOF_CHALLENGE_LABEL);
        let ghost base = t.log_of();
        let mut k: usize = 0;
        while k < self.generators.len()
            invariant
                k <= self.generators@.len(),
                t.log_of() == base + Seq::new(k as nat, |q: int| TranscriptEntry::Message("G"@, self.generators@[q]@)),
                forall|q: int| 0 <= q < k ==> (#[trigger] self.generators@[q])@ != identity_bytes(),
            decreases self.generators@.len() - k,
        {
            t.append_validated_point("G", &self.generators[k])?;
            k = k + 1;
            assert(t.log_of() =~= base + Seq::new(k as nat, |q: int| TranscriptEntry::Message("G"@, self.generators@[q]@)));
        }
        t.append_validated_point("P", statement)?;
        t.append_validated_point("A", &self.commitment)?;
        assert(t.log_of() =~= seq![TranscriptEntry::Start(CLAIM_PROOF_LABEL@)] + representation_entries(*self, statement@));
        t.scalar_challenge(CLAIM_PROOF_CHALLENGE_LABEL)
    }
}

/// Verifies a proof of knowledge of a representation of `statement`.
pub fn verify_representation(im: &RepresentationInitialMessage, r: &RepresentationResponse, statement: &Point) -> (ok: bool)
    requires
        im.wf(),
        statement.wf(),
        forall|k: int| 0 <= k < r.z@.len() ==> (#[trigger] r.z@[k]).wf(),
    ensures
        ok == representation_ok(*im, *r, statement@),
{
    let n = im.generators.len();
    if n == 0 || r.z.len() != n {
        return false;
    }
    let c = match im.challenge(statement) {
        Ok(c) => c,
        Err(_) => return false,
    };
    let mut acc = im.generators[0].mul(&r.z[0]);
    let mut k: usize = 1;
    while k < n
        invariant
            1 <= k <= n,
            n == im.generators@.len() && n == r.z@.len(),
            im.wf(),
            forall|q: int| 0 <= q < r.z@.len() ==> (#[trigger] r.z@[q]).wf(),
            acc.wf(),
            acc@ == lincomb(r.z@, im.generators@, k as nat),
        decreases n - k,
    {
        acc = acc.add(&im.generators[k].mul(&r.z[k]));
        k = k + 1;
    }
    let rhs = im.commitment.add(&statement.mul(c.x()));
    acc.equals(&rhs)
}

/// Proves knowledge of `secrets` with `statement = Σ secrets_i·generators_i`.
pub fn prove_representation(generators: Vec<Point>, secrets: &Vec<Scalar>, statement: &Point, rng: &mut rand::rngs::StdRng) -> (r: Fallible<(RepresentationInitialMessage, RepresentationResponse)>)
    requires
        generators@.len() >= 1,
        secrets@.len() == generators@.len(),
        statement.wf(),
        forall|k: int| 0 <= k < generators@.len() ==> (#[trigger] generators@[k]).wf(),
        forall|k: int| 0 <= k < secrets@.len() ==> (#[trigger] secrets@[k]).wf(),
    ensures
        r.is_ok() ==> r.unwrap().0.wf() && r.unwrap().0.generators@ == generators@
            && r.unwrap().1.z@.len() == generators@.len()
            && forall|k: int| 0 <= k < generators@.len() ==> (#[trigger] r.unwrap().1.z@[k]).wf(),
{
    let n = generators.len();
    let mut nonces: Vec<Scalar> = Vec::new();
    let mut k: usize = 0;
    while k < n
        invariant
            k <= n,
            nonces@.len() == k,
            forall|q: int| 0 <= q < k ==> (#[trigger] nonces@[q]).wf(),
        decreases n - k,
    {
        nonces.push(Scalar::random(rng));
        k = k + 1;
    }
    let mut commitment = generators[0].mul(&nonces[0]);
    let mut k: usize = 1;
    while k < n
        invariant
            1 <= k <= n,
            n == generators@.len() && n == nonces@.len(),
            forall|q: int| 0 <= q < generators@.len() ==> (#[trigger] generators@[q]).wf(),
            forall|q: int| 0 <= q < nonces@.len() ==> (#[trigger] nonces@[q]).wf(),
            commitment.wf(),
        decreases n - k,
    {
        commitment = commitment.add(&generators[k].mul(&nonces[k]));
        k = k + 1;
    }
    let im = RepresentationInitialMessage { generators, commitment };
    let c = im.challenge(statement)?;
    let mut z: Vec<Scalar> = Vec::new();
    let mut k: usize = 0;
    while k < n
        invariant
            k <= n,
            n == nonces@.len() && n == secrets@.len(),
            c.wf(),
            forall|q: int| 0 <= q < nonces@.len() ==> (#[trigger] nonces@[q]).wf(),
            forall|q: int| 0 <= q < secrets@.len() ==> (#[trigger] secrets@[q]).wf(),
            z@.len() == k,
            forall|q: int| 0 <= q < k ==> (#[trigger] z@[q]).wf(),
        decreases n - k,
    {
        z.push(nonces[k].add(&c.x().mul(&secrets[k])));
        k = k + 1;
    }
    Ok((im, RepresentationResponse { z }))
}

/// The first messages of a claim proof: one representation proof per half and one for the
/// identifier, and the two halves.
#[derive(Clone, Debug)]
pub struct ZKPInitialmessage {
    pub cdd_id_proof: RepresentationInitialMessage,
    pub cdd_id_second_half_proof: RepresentationInitialMessage,
    pub uid_commitment_proof: RepresentationInitialMessage,
    pub a: Point,
    pub b: Point,
}

/// The responses of a claim proof.
#[derive(Clone, Debug)]
pub struct ZKPFinalResponse {
    pub cdd_id_proof_response: RepresentationResponse,
    pub cdd_id_second_half_proof_response: RepresentationResponse,
    pub uid_commitment_proof_response: RepresentationResponse,
}

impl ZKPInitialmessage {
    pub open spec fn wf(&self) -> bool {
        self.cdd_id_proof.wf() && self.cdd_id_second_half_proof.wf() && self.uid_commitment_proof.wf() && self.a.wf() && self.b.wf()
    }
}

impl ZKPFinalResponse {
    pub open spec fn wf(&self) -> bool {
        &&& forall|k: int| 0 <= k < self.cdd_id_proof_response.z@.len() ==> (#[trigger] self.cdd_id_proof_response.z@[k]).wf()
        &&& forall|k: int| 0 <= k < self.cdd_id_second_half_proof_response.z@.len() ==> (#[trigger] self.cdd_id_second_half_proof_response.z@[k]).wf()
        &&& forall|k: int| 0 <= k < self.uid_commitment_proof_response.z@.len() ==> (#[trigger] self.uid_commitment_proof_response.z@[k]).wf()
    }
}

/// The verdict on one claim proof.
pub open spec fn claim_verdict(im: ZKPInitialmessage, fr: ZKPFinalResponse, cdd_id: CddId, secrets: VerifierSecrets, committed: CommittedUids) -> Fallible<()> {
    let uid_commitment = point_sub_of(im.a@, im.b@);
    if im.cdd_id_proof.generators@.len() == 0 || im.cdd_id_proof.generators@[0]@ != cdd_id.cdd_id@ {
        Err(err_of_spec(ErrorKind::CDDIdMismatchError))
    } else if !representation_ok(im.cdd_id_proof, fr.cdd_id_proof_response, im.a@) {
        Err(err_of_spec(ErrorKind::ZKPVerificationError { kind: ZkpKind::CddId }))
    } else if !representation_ok(im.cdd_id_second_half_proof, fr.cdd_id_second_half_proof_response, im.b@) {
        Err(err_of_spec(ErrorKind::ZKPVerificationError { kind: ZkpKind::CddIdSecondHalf }))
    } else if !representation_ok(im.uid_commitment_proof, fr.uid_commitment_proof_response, uid_commitment) {
        Err(err_of_spec(ErrorKind::ZKPVerificationError { kind: ZkpKind::Uid }))
    } else if !point_views(committed.0@).contains(point_mul_of(secrets.rand@, uid_commitment)) {
        Err(err_of_spec(ErrorKind::MembershipProofError))
    } else {
        Ok(())
    }
}

/// Checks one claim proof: the first base is the CDD identifier, the three representation
/// proofs hold for `a`, `b` and `a − b`, and `(a − b)·r` is in the published set.
pub fn verify_claim(im: &ZKPInitialmessage, fr: &ZKPFinalResponse, cdd_id: &CddId, secrets: &VerifierSecrets, committed: &CommittedUids) -> (r: Fallible<()>)
    requires
        im.wf(),
        fr.wf(),
        secrets.rand.wf(),
    ensures
        r == claim_verdict(*im, *fr, *cdd_id, *secrets, *committed),
{
    let uid_commitment = im.a.sub(&im.b);
    if im.cdd_id_proof.generators.len() == 0 || !im.cdd_id_proof.generators[0].equals(&cdd_id.cdd_id) {
        return Err(err_of(ErrorKind::CDDIdMismatchError));
    }
    if !verify_representation(&im.cdd_id_proof, &fr.cdd_id_proof_response, &im.a) {
        return Err(err_of(ErrorKind::ZKPVerificationError { kind: ZkpKind::CddId }));
    }
    if !verify_representation(&im.cdd_id_second_half_proof, &fr.cdd_id_second_half_proof_response, &im.b) {
        return Err(err_of(ErrorKind::ZKPVerificationError { kind: ZkpKind::CddIdSecondHalf }));
    }
    if !verify_representation(&im.uid_commitment_proof, &fr.uid_commitment_proof_response, &uid_commitment) {
        return Err(err_of(ErrorKind::ZKPVerificationError { kind: ZkpKind::Uid }));
    }
    match check_committed_uid(&uid_commitment, secrets, committed) {
        Ok(()) => Ok(()),
        Err(e) => Err(e),
    }
}

/// Checks each claim proof against its CDD identifier, pairing the three lists in order
/// and stopping at the shortest.
pub fn verify_proofs(
    initial_messages: &Vec<ZKPInitialmessage>,
    final_responses: &Vec<ZKPFinalResponse>,
    cdd_ids: &Vec<CddId>,
    verifier_secrets: &VerifierSecrets,
    re_committed_uids: &CommittedUids,
) -> (r: Vec<Fallible<()>>)
    requires
        forall|i: int| 0 <= i < initial_messages@.len() ==> (#[trigger] initial_messages@[i]).wf(),
        forall|i: int| 0 <= i < final_responses@.len() ==> (#[trigger] final_responses@[i]).wf(),
        verifier_secrets.rand.wf(),
    ensures
        r@.len() == vstd::math::min(vstd::math::min(initial_messages@.len() as int, final_responses@.len() as int), cdd_ids@.len() as int),
        forall|i: int| 0 <= i < r@.len() ==> #[trigger] r@[i] == claim_verdict(initial_messages@[i], final_responses@[i], cdd_ids@[i], *verifier_secrets, *re_committed_uids),
{
    let mut n = initial_messages.len();
    if final_responses.len() < n {
        n = final_responses.len();
    }
    if cdd_ids.len() < n {
        n = cdd_ids.len();
    }
    let mut r: Vec<Fallible<()>> = Vec::new();
    let mut i: usize = 0;
    while i < n
        invariant
            i <= n,
            n <= initial_messages@.len() && n <= final_responses@.len() && n <= cdd_ids@.len(),
            forall|q: int| 0 <= q < initial_messages@.len() ==> (#[trigger] initial_messages@[q]).wf(),
            forall|q: int| 0 <= q < final_responses@.len() ==> (#[trigger] final_responses@[q]).wf(),
            verifier_secrets.rand.wf(),
            r@.len() == i,
            forall|q: int| 0 <= q < i ==> #[trigger] r@[q] == claim_verdict(initial_messages@[q], final_responses@[q], cdd_ids@[q], *verifier_secrets, *re_committed_uids),
        decreases n - i,
    {
        r.push(verify_claim(&initial_messages[i], &final_responses[i], &cdd_ids[i], verifier_secrets, re_committed_uids));
        i = i + 1;
    }
    r
}

} // verus!
