//! The set-membership proof's setup: finding the committed element in the public set, and
//! padding the set to the size of the underlying one-out-of-many proof.

use vstd::prelude::*;
use crate::errors::{err_of, ErrorKind, Fallible};
use vstd::string::StringSliceAdditionalSpecFns;
use crate::group::{
    identity_bytes, point_add_of, point_mul_of, point_sub_of, scalar_add_of, scalar_mul_of,
    scalar_sub_of, u32_scalar_bytes, PedersenBases, Point, Scalar,
};
use crate::one_out_of_many::{
    convert_to_matrix_rep, full_f, matrix_view, matrix_wf, r1_check1, r1_check2, r1_generate,
    r1_shapes_ok, r1_verify, OooNProofGenerators, R1ProofFinalResponse, R1ProofInitialMessage,
    R1Prover,
};
use crate::transcript::{
    challenge_scalar_of, random_scalar, ProofTranscript, TranscriptEntry, ZKPChallenge,
    DOM_SEP_LABEL,
};
use crate::transcript::err_of_spec;
use crate::codec::{le4, lemma_le4_injective, push_array, push_u32, read_array, read_u32};

verus! {

/// The domain label of the membership proof's transcript.
pub const MEMBERSHIP_PROOF_LABEL: &'static str = "PolymathMembershipProofLabel";

/// The domain label of the membership proof's challenge.
pub const MEMBERSHIP_PROOF_CHALLENGE_LABEL: &'static str = "PolymathMembershipProofChallengeLabel";

/// The labels of this proof fit merlin's 32-bit length framing.
proof fn lemma_labels_short()
    ensures
        crate::transcript::short_str(MEMBERSHIP_PROOF_LABEL),
        crate::transcript::short_str(MEMBERSHIP_PROOF_CHALLENGE_LABEL),
{
    broadcast use vstd::string::is_ascii_spec_bytes;

    reveal_strlit("PolymathMembershipProofLabel");
    reveal_strlit("PolymathMembershipProofChallengeLabel");
    assert(vstd::string::is_ascii(MEMBERSHIP_PROOF_LABEL));
    assert(vstd::string::is_ascii(MEMBERSHIP_PROOF_CHALLENGE_LABEL));
}


/// The encodings of a list of scalars.
pub open spec fn scalar_views(s: Seq<Scalar>) -> Seq<Seq<u8>> {
    Seq::new(s.len(), |i: int| s[i]@)
}

/// The digits of `number` in base `base`, least significant first, `exp` of them.
pub open spec fn digits(number: nat, base: nat, exp: nat) -> Seq<nat>
    decreases exp,
{
    if exp == 0 || base == 0 {
        Seq::empty()
    } else {
        seq![number % base] + digits(number / base, base, (exp - 1) as nat)
    }
}

/// The `exp` digits of `number` in base `base`, least significant first.
pub fn convert_to_base(number: usize, base: usize, exp: usize) -> (r: Vec<usize>)
    requires
        base > 1,
    ensures
        r@.len() == exp,
        forall|j: int| 0 <= j < exp ==> (#[trigger] r@[j]) as nat == digits(number as nat, base as nat, exp as nat)[j],
        forall|j: int| 0 <= j < exp ==> #[trigger] r@[j] < base,
{
    let mut r: Vec<usize> = Vec::new();
    let mut rest = number;
    let mut i: usize = 0;
    while i < exp
        invariant
            base > 1,
            i <= exp,
            r@.len() == i,
            digits(number as nat, base as nat, exp as nat) == Seq::new(i as nat, |j: int| r@[j] as nat)
                + digits(rest as nat, base as nat, (exp - i) as nat),
            forall|j: int| 0 <= j < i ==> #[trigger] r@[j] < base,
        decreases exp - i,
    {
        let ghost before = r@;
        let d = rest % base;
        r.push(d);
        proof {
            let tail = digits(rest as nat, base as nat, (exp - i) as nat);
            assert(tail == seq![(rest % base) as nat] + digits((rest / base) as nat, base as nat, (exp - i - 1) as nat));
            assert(Seq::new((i + 1) as nat, |j: int| r@[j] as nat) =~= Seq::new(i as nat, |j: int| before[j] as nat) + seq![d as nat]);
            assert(Seq::new(i as nat, |j: int| before[j] as nat) =~= Seq::new(i as nat, |j: int| r@[j] as nat));
        }
        rest = rest / base;
        i = i + 1;
        assert(digits(number as nat, base as nat, exp as nat) =~= Seq::new(i as nat, |j: int| r@[j] as nat)
            + digits(rest as nat, base as nat, (exp - i) as nat));
    }
    r
}

/// The membership prover before its first round.
pub struct MembershipProverAwaitingChallenge {
    /// The committed secret element.
    pub secret_element: Scalar,
    /// The blinding factor of the commitment.
    pub random: Scalar,
    /// The commitment bases.
    pub generators: PedersenBases,
    /// The public set that holds the secret element.
    pub elements_set: Vec<Scalar>,
    /// The index of the secret element in the set.
    pub secret_position: usize,
    /// The set's padded size is `base` to the power `exp`.
    pub base: usize,
    pub exp: usize,
}

/// Whether the set holds the element.
pub open spec fn holds(s: Seq<Scalar>, e: Scalar) -> bool {
    exists|i: int| 0 <= i < s.len() && s[i]@ == e@
}

impl MembershipProverAwaitingChallenge {
    /// Overwrites the secret element and its blinding with zeros.
    pub fn zeroize(&mut self)
        ensures
            final(self).secret_element@ == crate::group::u32_scalar_bytes(0),
            final(self).random@ == crate::group::u32_scalar_bytes(0),
    {
        self.secret_element = Scalar::zero();
        self.random = Scalar::zero();
    }

    /// Sets up a proof that `secret_element` is in `elements_set`; fails on an empty set,
    /// and on an element that is not in it.
    pub fn new(
        secret_element: Scalar,
        random: Scalar,
        generators: &OooNProofGenerators,
        elements_set: &Vec<Scalar>,
        base: usize,
        exp: usize,
    ) -> (r: Fallible<MembershipProverAwaitingChallenge>)
        ensures
            elements_set@.len() == 0 ==> r == Err::<MembershipProverAwaitingChallenge, crate::errors::Error>(
                err_of_spec(ErrorKind::EmptyElementsSet),
            ),
            elements_set@.len() > 0 && !holds(elements_set@, secret_element) ==> r == Err::<MembershipProverAwaitingChallenge, crate::errors::Error>(
                err_of_spec(ErrorKind::MembershipProofInvalidAssetError),
            ),
            holds(elements_set@, secret_element) ==> r.is_ok() && ({
                let p = r.unwrap();
                &&& p.secret_element == secret_element
                &&& p.random == random
                &&& p.generators == generators.com_gens
                &&& p.elements_set@ == elements_set@
                &&& p.base == base && p.exp == exp
                &&& p.secret_position < elements_set@.len()
                &&& elements_set@[p.secret_position as int]@ == secret_element@
                &&& forall|j: int| 0 <= j < p.secret_position ==> (#[trigger] elements_set@[j])@ != secret_element@
            }),
    {
        if elements_set.len() == 0 {
            return Err(err_of(ErrorKind::EmptyElementsSet));
        }
        let mut i: usize = 0;
        while i < elements_set.len()
            invariant
                i <= elements_set@.len(),
                forall|j: int| 0 <= j < i ==> (#[trigger] elements_set@[j])@ != secret_element@,
            decreases elements_set@.len() - i,
        {
            if elements_set[i].equals(&secret_element) {
                return Ok(MembershipProverAwaitingChallenge {
                    secret_element,
                    random,
                    generators: generators.com_gens,
                    elements_set: elements_set.clone(),
                    secret_position: i,
                    base,
                    exp,
                });
            }
            i = i + 1;
        }
        Err(err_of(ErrorKind::MembershipProofInvalidAssetError))
    }
}

/// `n` to the power `m`.
pub open spec fn power(n: nat, m: nat) -> nat
    decreases m,
{
    if m == 0 {
        1
    } else {
        n * power(n, (m - 1) as nat)
    }
}

proof fn lemma_power_grows(n: nat, k: nat, m: nat)
    requires
        n >= 1,
        k <= m,
    ensures
        power(n, k) <= power(n, m),
    decreases m - k,
{
    if k < m {
        lemma_power_grows(n, k, (m - 1) as nat);
        let p = power(n, (m - 1) as nat);
        assert(p <= n * p) by (nonlinear_arith)
            requires n >= 1;
    }
}

/// `n` to the power `m`, unless it exceeds the largest `usize`.
pub fn checked_power(n: usize, m: usize) -> (r: Option<usize>)
    requires
        n >= 1,
    ensures
        r.is_some() <==> power(n as nat, m as nat) <= usize::MAX,
        r.is_some() ==> r.unwrap() == power(n as nat, m as nat),
{
    let mut size: usize = 1;
    let mut k: usize = 0;
    while k < m
        invariant
            n >= 1,
            k <= m,
            size == power(n as nat, k as nat),
        decreases m - k,
    {
        assert(power(n as nat, (k + 1) as nat) == n * power(n as nat, k as nat));
        assert(n * size == size * n) by (nonlinear_arith);
        if size > usize::MAX / n {
            proof {
                assert(size * n > usize::MAX) by (nonlinear_arith)
                    requires size > usize::MAX / n, n >= 1;
                lemma_power_grows(n as nat, (k + 1) as nat, m as nat);
            }
            return None;
        }
        assert(size * n <= usize::MAX) by (nonlinear_arith)
            requires size <= usize::MAX / n, n >= 1;
        size = size * n;
        k = k + 1;
    }
    Some(size)
}

/// The first message of a membership proof: the bit-matrix proof's commitments, the
/// commitments `G_k`, the dimensions, and the commitment to the secret element.
#[derive(Clone, Debug)]
pub struct MembershipProofInitialMessage {
    pub r1: R1ProofInitialMessage,
    pub g_vec: Vec<Point>,
    pub m: usize,
    pub n: usize,
    pub secret_element_comm: Point,
}

/// The response of a membership proof.
#[derive(Clone, Debug)]
pub struct MembershipProofFinalResponse {
    pub r1: R1ProofFinalResponse,
    pub z: Scalar,
}

impl MembershipProofInitialMessage {
    pub open spec fn wf(&self) -> bool {
        &&& self.r1.a.wf() && self.r1.b.wf() && self.r1.c.wf() && self.r1.d.wf()
        &&& self.secret_element_comm.wf()
        &&& forall|k: int| 0 <= k < self.g_vec@.len() ==> (#[trigger] self.g_vec@[k]).wf()
    }
}

impl MembershipProofFinalResponse {
    pub open spec fn wf(&self) -> bool {
        self.z.wf() && self.r1.z_a.wf() && self.r1.z_c.wf()
    }
}

/// `p_i(x)`: the product over the first `k` rows of the opened entry at the digit of `i`.
pub open spec fn p_of(f: Seq<Seq<Seq<u8>>>, i: nat, n: nat, m: nat, k: nat) -> Seq<u8>
    decreases k,
{
    if k == 0 {
        u32_scalar_bytes(1)
    } else {
        scalar_mul_of(p_of(f, i, n, m, (k - 1) as nat), f[k - 1][digits(i, n, m)[k - 1] as int])
    }
}

/// `Σ p_i(x)` over the first `k` indices.
pub open spec fn sum1_of(f: Seq<Seq<Seq<u8>>>, n: nat, m: nat, k: nat) -> Seq<u8>
    decreases k,
{
    if k == 0 {
        u32_scalar_bytes(0)
    } else {
        scalar_add_of(sum1_of(f, n, m, (k - 1) as nat), p_of(f, (k - 1) as nat, n, m, m))
    }
}

/// `Σ e_i·p_i(x)` over the first `k` indices.
pub open spec fn sum2_of(f: Seq<Seq<Seq<u8>>>, e: Seq<Seq<u8>>, n: nat, m: nat, k: nat) -> Seq<u8>
    decreases k,
{
    if k == 0 {
        u32_scalar_bytes(0)
    } else {
        scalar_add_of(sum2_of(f, e, n, m, (k - 1) as nat), scalar_mul_of(e[k - 1], p_of(f, (k - 1) as nat, n, m, m)))
    }
}

/// `left` minus `x^k·G_k` over the first `k` commitments, with `x^k`.
pub open spec fn g_fold(left: Seq<u8>, x: Seq<u8>, g: Seq<Point>, k: nat) -> (Seq<u8>, Seq<u8>)
    decreases k,
{
    if k == 0 {
        (left, u32_scalar_bytes(1))
    } else {
        let (l, t) = g_fold(left, x, g, (k - 1) as nat);
        (point_sub_of(l, point_mul_of(t, g[k - 1]@)), scalar_mul_of(t, x))
    }
}

/// The verifier of a membership proof: the commitment to the secret element and the set.
pub struct MembershipProofVerifier {
    pub secret_element_com: Point,
    pub elements_set: Vec<Scalar>,
}

impl MembershipProofVerifier {
    pub open spec fn wf(&self) -> bool {
        self.secret_element_com.wf() && forall|i: int| 0 <= i < self.elements_set@.len() ==> (#[trigger] self.elements_set@[i]).wf()
    }
}

/// The shapes of a proof fit the bases.
pub open spec fn membership_shapes_ok(gens: OooNProofGenerators, im: MembershipProofInitialMessage, fr: MembershipProofFinalResponse) -> bool {
    &&& im.m >= 1
    &&& im.m == gens.h_rows@.len()
    &&& im.g_vec@.len() == im.m
    &&& r1_shapes_ok(gens, fr.r1.f_elements@, im.n as nat)
}

/// Searching down from `j`, where the final run of copies of the last element starts.
pub open spec fn run_start(e: Seq<Seq<u8>>, j: nat) -> nat
    decreases j,
{
    if j > 0 && j <= e.len() && e[j - 1] == e.last() {
        run_start(e, (j - 1) as nat)
    } else {
        j
    }
}

/// The length of a non-empty list once trailing copies of its last element are dropped
/// (one copy stays).
pub open spec fn core_len(e: Seq<Seq<u8>>) -> nat {
    run_start(e, (e.len() - 1) as nat) + 1
}

/// The sum of the first `t` entries of a row.
pub open spec fn row_sum(row: Seq<Seq<u8>>, t: nat) -> Seq<u8>
    decreases t,
{
    if t == 0 {
        u32_scalar_bytes(0)
    } else {
        scalar_add_of(row_sum(row, (t - 1) as nat), row[t - 1])
    }
}

/// The product of the first `k` rows' sums: `Σ_i p_i(x)` over all `n^m` indices, since
/// every `p_i` picks one entry from each row.
pub open spec fn rows_total(f: Seq<Seq<Seq<u8>>>, n: nat, k: nat) -> Seq<u8>
    decreases k,
{
    if k == 0 {
        u32_scalar_bytes(1)
    } else {
        scalar_mul_of(rows_total(f, n, (k - 1) as nat), row_sum(f[k - 1], n))
    }
}

/// The set as the proof sees it: cut to `n^m` entries.
pub open spec fn proof_set(v: MembershipProofVerifier, size: nat) -> Seq<Seq<u8>> {
    let e = scalar_views(v.elements_set@);
    e.subrange(0, if e.len() < size { e.len() as int } else { size as int })
}

/// The final equation: `Σ p_i(x)·(C − e_i·G) − Σ x^k·G_k == z·H`, where the set is padded
/// to `n^m` entries with its last element. The padded entries, and the trailing copies of
/// the last element, contribute `last·(Σ_all p_i − Σ_{i<c} p_i)`.
pub open spec fn membership_final_check(gens: OooNProofGenerators, x: Seq<u8>, v: MembershipProofVerifier, im: MembershipProofInitialMessage, fr: MembershipProofFinalResponse) -> bool {
    let n = im.n as nat;
    let m = im.m as nat;
    let f = full_f(x, matrix_view(fr.r1.f_elements@));
    let t = proof_set(v, power(n, m));
    let c = core_len(t);
    let total = rows_total(f, n, m);
    let sum2 = scalar_add_of(
        sum2_of(f, t, n, m, c),
        scalar_mul_of(t[c - 1], scalar_sub_of(total, sum1_of(f, n, m, c))),
    );
    let left0 = point_sub_of(
        point_mul_of(total, v.secret_element_com@),
        point_mul_of(sum2, gens.com_gens.b@),
    );
    g_fold(left0, x, im.g_vec@, m).0 == point_mul_of(fr.z@, gens.com_gens.b_blinding@)
}

/// The verdict on a challenge, an initial message and a response. An exponent beyond 32
/// bits is refused first; then a set that the proof covers no entry of (an empty set, or
/// `n^m == 0`); then malformed shapes.
pub open spec fn membership_verdict(gens: OooNProofGenerators, x: Seq<u8>, v: MembershipProofVerifier, im: MembershipProofInitialMessage, fr: MembershipProofFinalResponse) -> Fallible<()> {
    if im.m > u32::MAX {
        Err(err_of_spec(ErrorKind::InvalidExponentParameter))
    } else if v.elements_set@.len() == 0 || (im.n == 0 && im.m >= 1) {
        Err(err_of_spec(ErrorKind::EmptyElementsSet))
    } else if !membership_shapes_ok(gens, im, fr) || power(im.n as nat, im.m as nat) > usize::MAX {
        Err(err_of_spec(ErrorKind::InvalidExponentParameter))
    } else if !(r1_check1(gens, x, im.r1, matrix_view(fr.r1.f_elements@), fr.r1.z_a@, im.n as nat)
        && r1_check2(gens, x, im.r1, matrix_view(fr.r1.f_elements@), fr.r1.z_c@, im.n as nat)) {
        Err(err_of_spec(ErrorKind::MembershipProofVerificationError { check: 1 }))
    } else if !membership_final_check(gens, x, v, im, fr) {
        Err(err_of_spec(ErrorKind::MembershipProofVerificationError { check: 2 }))
    } else {
        Ok(())
    }
}

impl MembershipProofVerifier {
    /// Checks the proof's shapes, the bit-matrix proof, and the final equation, over the
    /// set padded with its last element to `n^m` entries.
    pub fn verify(&self, gens: &OooNProofGenerators, c: &ZKPChallenge, im: &MembershipProofInitialMessage, fr: &MembershipProofFinalResponse) -> (r: Fallible<()>)
        requires
            gens.wf(),
            self.wf(),
            c.wf(),
            im.wf(),
            fr.wf(),
        ensures
            r == membership_verdict(*gens, c.x@, *self, *im, *fr),
    {
        let m = im.m;
        let n = im.n;
        if m > 0xffff_ffff {
            return Err(err_of(ErrorKind::InvalidExponentParameter));
        }
        if self.elements_set.len() == 0 || (n == 0 && m >= 1) {
            return Err(err_of(ErrorKind::EmptyElementsSet));
        }
        if m < 1 || m != gens.h_rows.len() || im.g_vec.len() != m || n < 2 || fr.r1.f_elements.len() != m {
            return Err(err_of(ErrorKind::InvalidExponentParameter));
        }
        let mut j: usize = 0;
        while j < m
            invariant
                j <= m,
                m == im.m && n == im.n,
                m <= u32::MAX,
                self.elements_set@.len() > 0,
                m == gens.h_rows@.len(),
                fr.r1.f_elements@.len() == m,
                n >= 2,
                matrix_wf(fr.r1.f_elements@.subrange(0, j as int), (n - 1) as nat),
                forall|a: int| 0 <= a < j ==> (#[trigger] gens.h_rows@[a])@.len() == n,
            decreases m - j,
        {
            if gens.h_rows[j].len() != n || fr.r1.f_elements[j].len() != n - 1 {
                assert(gens.h_rows@[j as int]@.len() != n || fr.r1.f_elements@[j as int]@.len() != n - 1);
                assert(!r1_shapes_ok(*gens, fr.r1.f_elements@, n as nat));
                return Err(err_of(ErrorKind::InvalidExponentParameter));
            }
            let mut i: usize = 0;
            while i < n - 1
                invariant
                    j < m,
                    m == im.m && n == im.n,
                    m <= u32::MAX,
                    self.elements_set@.len() > 0,
                    fr.r1.f_elements@.len() == m,
                    fr.r1.f_elements@[j as int]@.len() == n - 1,
                    i <= n - 1,
                    forall|q: int| 0 <= q < i ==> (#[trigger] fr.r1.f_elements@[j as int]@[q]).wf(),
                decreases n - 1 - i,
            {
                if !fr.r1.f_elements[j][i].is_canonical() {
                    assert(!fr.r1.f_elements@[j as int]@[i as int].wf());
                    assert(!matrix_wf(fr.r1.f_elements@, (n - 1) as nat));
                    return Err(err_of(ErrorKind::InvalidExponentParameter));
                }
                i = i + 1;
            }
            assert(fr.r1.f_elements@.subrange(0, j + 1) =~= fr.r1.f_elements@.subrange(0, j as int).push(fr.r1.f_elements@[j as int]));
            j = j + 1;
        }
        assert(fr.r1.f_elements@.subrange(0, m as int) =~= fr.r1.f_elements@);
        let size = match checked_power(n, m) {
            Some(s) => s,
            None => return Err(err_of(ErrorKind::InvalidExponentParameter)),
        };
        proof {
            lemma_power_grows(n as nat, 0, m as nat);
        }
        if !r1_verify(gens, c.x(), &im.r1, &fr.r1, n) {
            return Err(err_of(ErrorKind::MembershipProofVerificationError { check: 1 }));
        }
        let f = crate::one_out_of_many::expand_f(c.x(), &fr.r1.f_elements, n);
        let ghost fv = matrix_view(f@);
        let ghost tv = proof_set(*self, size as nat);
        let len = if self.elements_set.len() < size { self.elements_set.len() } else { size };
        assert(tv.len() == len);
        let last = self.elements_set[len - 1];
        assert(tv[len - 1] == last@);
        let mut core = len - 1;
        while core > 0 && self.elements_set[core - 1].equals(&last)
            invariant
                0 < len <= self.elements_set@.len(),
                core < len,
                tv.len() == len,
                tv == proof_set(*self, size as nat),
                last == self.elements_set@[len - 1],
                tv[len - 1] == last@,
                tv.last() == last@,
                forall|q: int| core <= q < len ==> tv[q] == last@,
                run_start(tv, core as nat) == run_start(tv, (len - 1) as nat),
            decreases core,
        {
            assert(tv[core - 1] == self.elements_set@[core - 1]@);
            core = core - 1;
        }
        assert(core > 0 ==> tv[core - 1] == self.elements_set@[core - 1]@);
        let core = core + 1;
        assert(core == core_len(tv));
        let mut sum1 = Scalar::zero();
        let mut sum2 = Scalar::zero();
        let mut i: usize = 0;
        while i < core
            invariant
                i <= core <= len <= self.elements_set@.len(),
                n >= 2,
                f@.len() == m,
                matrix_wf(f@, n as nat),
                fv == matrix_view(f@),
                tv == proof_set(*self, size as nat),
                tv.len() == len,
                self.wf(),
                sum1.wf() && sum2.wf(),
                sum1@ == sum1_of(fv, n as nat, m as nat, i as nat),
                sum2@ == sum2_of(fv, tv, n as nat, m as nat, i as nat),
            decreases core - i,
        {
            let d = convert_to_base(i, n, m);
            let mut p = Scalar::one();
            let mut k: usize = 0;
            while k < m
                invariant
                    k <= m,
                    f@.len() == m,
                    matrix_wf(f@, n as nat),
                    fv == matrix_view(f@),
                    d@.len() == m,
                    forall|q: int| 0 <= q < m ==> (#[trigger] d@[q]) as nat == digits(i as nat, n as nat, m as nat)[q],
                    forall|q: int| 0 <= q < m ==> #[trigger] d@[q] < n,
                    p.wf(),
                    p@ == p_of(fv, i as nat, n as nat, m as nat, k as nat),
                decreases m - k,
            {
                p = p.mul(&f[k][d[k]]);
                k = k + 1;
            }
            assert(tv[i as int] == self.elements_set@[i as int]@);
            sum1 = sum1.add(&p);
            sum2 = sum2.add(&self.elements_set[i].mul(&p));
            i = i + 1;
        }
        let mut total = Scalar::one();
        let mut k: usize = 0;
        while k < m
            invariant
                k <= m,
                f@.len() == m,
                matrix_wf(f@, n as nat),
                fv == matrix_view(f@),
                total.wf(),
                total@ == rows_total(fv, n as nat, k as nat),
            decreases m - k,
        {
            let mut rs = Scalar::zero();
            let mut t: usize = 0;
            while t < n
                invariant
                    t <= n,
                    k < m,
                    f@.len() == m,
                    matrix_wf(f@, n as nat),
                    fv == matrix_view(f@),
                    rs.wf(),
                    rs@ == row_sum(fv[k as int], t as nat),
                decreases n - t,
            {
                rs = rs.add(&f[k][t]);
                t = t + 1;
            }
            total = total.mul(&rs);
            k = k + 1;
        }
        assert(tv[core - 1] == last@);
        let tail = last.mul(&total.sub(&sum1));
        let sum2 = sum2.add(&tail);
        let sum1 = total;
        let mut left = self.secret_element_com.mul(&sum1).sub(&gens.com_gens.b.mul(&sum2));
        let ghost left0 = left@;
        let mut temp = Scalar::one();
        let mut k: usize = 0;
        while k < m
            invariant
                k <= m,
                im.g_vec@.len() == m,
                im.wf(),
                c.wf(),
                left.wf() && temp.wf(),
                (left@, temp@) == g_fold(left0, c.x@, im.g_vec@, k as nat),
            decreases m - k,
        {
            left = left.sub(&im.g_vec[k].mul(&temp));
            temp = temp.mul(c.x());
            k = k + 1;
        }
        let right = gens.com_gens.b_blinding.mul(&fr.z);
        if !left.equals(&right) {
            return Err(err_of(ErrorKind::MembershipProofVerificationError { check: 2 }));
        }
        Ok(())
    }
}

/// Multiplies a polynomial, given by its coefficients, by `l·x + a`, keeping its length.
fn add_factor(coeffs: &Vec<Scalar>, l: &Scalar, a: &Scalar) -> (r: Vec<Scalar>)
    requires
        coeffs@.len() >= 1,
        l.wf() && a.wf(),
        forall|q: int| 0 <= q < coeffs@.len() ==> (#[trigger] coeffs@[q]).wf(),
    ensures
        r@.len() == coeffs@.len(),
        forall|q: int| 0 <= q < r@.len() ==> (#[trigger] r@[q]).wf(),
{
    let mut r: Vec<Scalar> = vec![coeffs[0].mul(a)];
    let mut d: usize = 1;
    while d < coeffs.len()
        invariant
            1 <= d <= coeffs@.len(),
            l.wf() && a.wf(),
            forall|q: int| 0 <= q < coeffs@.len() ==> (#[trigger] coeffs@[q]).wf(),
            r@.len() == d,
            forall|q: int| 0 <= q < r@.len() ==> (#[trigger] r@[q]).wf(),
        decreases coeffs@.len() - d,
    {
        r.push(coeffs[d].mul(a).add(&coeffs[d - 1].mul(l)));
        d = d + 1;
    }
    r
}

/// `G_k = ρ_k·H + s1·C − s2·G` for some sums `s1`, `s2` of the coefficients of `x^k`.
pub open spec fn g_form(gk: Seq<u8>, rho_k: Seq<u8>, pc: PedersenBases, comm: Seq<u8>) -> bool {
    exists|s1: Seq<u8>, s2: Seq<u8>| gk == point_add_of(
        point_mul_of(rho_k, pc.b_blinding@),
        point_sub_of(point_mul_of(s1, comm), point_mul_of(s2, pc.b@)),
    )
}

/// `Σ_{k<j} ρ_k·x^k` and `x^j`.
pub open spec fn rho_fold(rho: Seq<Scalar>, x: Seq<u8>, j: nat) -> (Seq<u8>, Seq<u8>)
    decreases j,
{
    if j == 0 {
        (u32_scalar_bytes(0), u32_scalar_bytes(1))
    } else {
        let (acc, xk) = rho_fold(rho, x, (j - 1) as nat);
        (scalar_add_of(acc, scalar_mul_of(rho[j - 1]@, xk)), scalar_mul_of(xk, x))
    }
}

/// The membership prover after its first round.
pub struct MembershipProver {
    pub r1_prover: R1Prover,
    pub rho_values: Vec<Scalar>,
    pub random: Scalar,
    pub m: usize,
}

impl MembershipProver {
    pub open spec fn wf(&self) -> bool {
        &&& self.r1_prover.wf()
        &&& self.r1_prover.b_matrix@.len() == self.m
        &&& self.rho_values@.len() == self.m
        &&& forall|k: int| 0 <= k < self.m ==> (#[trigger] self.rho_values@[k]).wf()
        &&& self.random.wf()
    }

    /// The bit-matrix responses, and `z = r·x^m − Σ ρ_k·x^k`.
    pub fn apply_challenge(&self, c: &ZKPChallenge) -> (r: MembershipProofFinalResponse)
        requires
            self.wf(),
            c.wf(),
        ensures
            r.wf(),
            r.r1.f_elements@.len() == self.m,
            matrix_wf(r.r1.f_elements@, (self.r1_prover.n - 1) as nat),
            r.r1.z_a@ == scalar_add_of(scalar_mul_of(self.r1_prover.r_b@, c.x@), self.r1_prover.r_a@),
            r.r1.z_c@ == scalar_add_of(scalar_mul_of(self.r1_prover.r_c@, c.x@), self.r1_prover.r_d@),
            ({
                let (acc, xm) = rho_fold(self.rho_values@, c.x@, self.m as nat);
                r.z@ == scalar_sub_of(scalar_mul_of(self.random@, xm), acc)
            }),
    {
        let r1 = self.r1_prover.apply_challenge(c.x());
        let mut acc = Scalar::zero();
        let mut xk = Scalar::one();
        let mut k: usize = 0;
        while k < self.m
            invariant
                self.wf(),
                c.wf(),
                k <= self.m,
                acc.wf() && xk.wf(),
                (acc@, xk@) == rho_fold(self.rho_values@, c.x@, k as nat),
            decreases self.m - k,
        {
            acc = acc.add(&self.rho_values[k].mul(&xk));
            xk = xk.mul(c.x());
            k = k + 1;
        }
        MembershipProofFinalResponse { r1, z: self.random.mul(&xk).sub(&acc) }
    }
}

impl MembershipProverAwaitingChallenge {
    pub open spec fn wf(&self, gens: OooNProofGenerators) -> bool {
        &&& gens.wf()
        &&& self.generators == gens.com_gens
        &&& self.base >= 2
        &&& self.exp >= 1
        &&& gens.h_rows@.len() == self.exp
        &&& forall|j: int| 0 <= j < self.exp ==> (#[trigger] gens.h_rows@[j])@.len() == self.base
        &&& power(self.base as nat, self.exp as nat) <= usize::MAX
        &&& self.elements_set@.len() > 0
        &&& forall|i: int| 0 <= i < self.elements_set@.len() ==> (#[trigger] self.elements_set@[i]).wf()
        &&& self.secret_element.wf() && self.random.wf()
    }

    /// A generator keyed by the transcript, the secret element, its blinding and 32 bytes
    /// of `rng`.
    pub fn create_transcript_rng(&self, rng: &mut rand::rngs::StdRng, transcript: &ProofTranscript) -> merlin::TranscriptRng {
        let e = self.secret_element.to_bytes();
        let b = self.random.to_bytes();
        transcript.witness_rng("secret_element", &e, "random", &b, rng)
    }

    /// Commits to the bit matrix of the secret's index, and to the coefficients `G_k` that
    /// cancel every other index's contribution at the challenge.
    pub fn generate_initial_message(&self, gens: &OooNProofGenerators, rng: &mut merlin::TranscriptRng) -> (r: (MembershipProver, MembershipProofInitialMessage))
        requires
            self.wf(*gens),
        ensures
            r.0.wf(),
            r.0.m == self.exp,
            r.0.r1_prover.n == self.base,
            r.1.wf(),
            r.1.m == self.exp,
            r.1.n == self.base,
            r.1.g_vec@.len() == self.exp,
            r.1.secret_element_comm@ == point_add_of(
                point_mul_of(self.secret_element@, gens.com_gens.b@),
                point_mul_of(self.random@, gens.com_gens.b_blinding@),
            ),
            r.0.random == self.random,
            r.0.r1_prover.r_b == self.random,
            forall|k: int, i: int| 0 <= k < self.exp && 0 <= i < self.base ==> (#[trigger] r.0.r1_prover.b_matrix@[k]@[i])@
                == (if i == digits(self.secret_position as nat, self.base as nat, self.exp as nat)[k] {
                u32_scalar_bytes(1)
            } else {
                u32_scalar_bytes(0)
            }),
            r.1.r1.b@ == crate::one_out_of_many::matrix_commit(
                *gens,
                matrix_view(r.0.r1_prover.b_matrix@),
                self.random@,
                self.exp as nat,
                self.base as nat,
            ),
            forall|k: int| 0 <= k < self.exp ==> g_form((#[trigger] r.1.g_vec@[k])@, r.0.rho_values@[k]@, gens.com_gens, r.1.secret_element_comm@),
    {
        let m = self.exp;
        let n = self.base;
        let size = match checked_power(n, m) {
            Some(s) => s,
            None => 1,
        };
        proof {
            lemma_power_grows(n as nat, 0, m as nat);
        }
        let pc = gens.com_gens;
        let secret_commitment = pc.commit(&self.secret_element, &self.random);
        let mut rho: Vec<Scalar> = Vec::new();
        let mut k: usize = 0;
        while k < m
            invariant
                k <= m,
                rho@.len() == k,
                forall|q: int| 0 <= q < k ==> (#[trigger] rho@[q]).wf(),
            decreases m - k,
        {
            rho.push(random_scalar(rng));
            k = k + 1;
        }
        let bits = convert_to_matrix_rep(self.secret_position, n, m);
        let (r1_prover, r1_im) = r1_generate(gens, bits, self.random, n, rng);
        let len = if self.elements_set.len() < size { self.elements_set.len() } else { size };
        assert(len >= 1);
        let mut sum1: Vec<Scalar> = Vec::new();
        let mut sum2: Vec<Scalar> = Vec::new();
        let mut k: usize = 0;
        while k < m
            invariant
                k <= m,
                sum1@.len() == k && sum2@.len() == k,
                forall|q: int| 0 <= q < k ==> (#[trigger] sum1@[q]).wf(),
                forall|q: int| 0 <= q < k ==> (#[trigger] sum2@[q]).wf(),
            decreases m - k,
        {
            sum1.push(Scalar::zero());
            sum2.push(Scalar::zero());
            k = k + 1;
        }
        let mut i: usize = 0;
        while i < len
            invariant
                self.wf(*gens),
                m == self.exp && n == self.base,
                i <= len <= self.elements_set@.len(),
                len >= 1,
                r1_prover.wf(),
                r1_prover.n == n,
                r1_prover.b_matrix@.len() == m,
                sum1@.len() == m && sum2@.len() == m,
                forall|q: int| 0 <= q < m ==> (#[trigger] sum1@[q]).wf(),
                forall|q: int| 0 <= q < m ==> (#[trigger] sum2@[q]).wf(),
            decreases len - i,
        {
            let d = convert_to_base(i, n, m);
            let mut coeffs: Vec<Scalar> = vec![Scalar::one()];
            let mut q: usize = 0;
            while q < m
                invariant
                    q <= m,
                    coeffs@.len() == q + 1,
                    forall|t: int| 0 <= t < coeffs@.len() ==> (#[trigger] coeffs@[t]).wf(),
                decreases m - q,
            {
                coeffs.push(Scalar::zero());
                q = q + 1;
            }
            let mut k: usize = 0;
            while k < m
                invariant
                    k <= m,
                    m == r1_prover.b_matrix@.len(),
                    r1_prover.wf(),
                    r1_prover.n == n,
                    d@.len() == m,
                    forall|t: int| 0 <= t < m ==> #[trigger] d@[t] < n,
                    coeffs@.len() == m + 1,
                    forall|t: int| 0 <= t < coeffs@.len() ==> (#[trigger] coeffs@[t]).wf(),
                decreases m - k,
            {
                let t = d[k];
                coeffs = add_factor(&coeffs, &r1_prover.b_matrix[k][t], &r1_prover.a_values[k][t]);
                k = k + 1;
            }
            let mut k: usize = 0;
            while k < m
                invariant
                    k <= m,
                    i < len <= self.elements_set@.len(),
                    self.wf(*gens),
                    coeffs@.len() == m + 1,
                    forall|t: int| 0 <= t < coeffs@.len() ==> (#[trigger] coeffs@[t]).wf(),
                    sum1@.len() == m && sum2@.len() == m,
                    forall|q: int| 0 <= q < m ==> (#[trigger] sum1@[q]).wf(),
                    forall|q: int| 0 <= q < m ==> (#[trigger] sum2@[q]).wf(),
                decreases m - k,
            {
                let s1 = sum1[k].add(&coeffs[k]);
                let s2 = sum2[k].add(&coeffs[k].mul(&self.elements_set[i]));
                sum1.set(k, s1);
                sum2.set(k, s2);
                k = k + 1;
            }
            i = i + 1;
        }
        let mut total: Vec<Scalar> = vec![Scalar::one()];
        let mut q: usize = 0;
        while q < m
            invariant
                q <= m,
                total@.len() == q + 1,
                forall|t: int| 0 <= t < total@.len() ==> (#[trigger] total@[t]).wf(),
            decreases m - q,
        {
            total.push(Scalar::zero());
            q = q + 1;
        }
        let mut k: usize = 0;
        while k < m
            invariant
                k <= m,
                m == r1_prover.b_matrix@.len(),
                r1_prover.wf(),
                r1_prover.n == n,
                total@.len() == m + 1,
                forall|t: int| 0 <= t < total@.len() ==> (#[trigger] total@[t]).wf(),
            decreases m - k,
        {
            let mut bs = Scalar::zero();
            let mut as_ = Scalar::zero();
            let mut t: usize = 0;
            while t < n
                invariant
                    t <= n,
                    k < m,
                    m == r1_prover.b_matrix@.len(),
                    r1_prover.wf(),
                    r1_prover.n == n,
                    bs.wf() && as_.wf(),
                decreases n - t,
            {
                bs = bs.add(&r1_prover.b_matrix[k][t]);
                as_ = as_.add(&r1_prover.a_values[k][t]);
                t = t + 1;
            }
            total = add_factor(&total, &bs, &as_);
            k = k + 1;
        }
        let last = self.elements_set[len - 1];
        let mut k: usize = 0;
        while k < m
            invariant
                k <= m,
                last.wf(),
                total@.len() == m + 1,
                forall|t: int| 0 <= t < total@.len() ==> (#[trigger] total@[t]).wf(),
                sum1@.len() == m && sum2@.len() == m,
                forall|q: int| 0 <= q < m ==> (#[trigger] sum1@[q]).wf(),
                forall|q: int| 0 <= q < m ==> (#[trigger] sum2@[q]).wf(),
            decreases m - k,
        {
            let tail = last.mul(&total[k].sub(&sum1[k]));
            let s2 = sum2[k].add(&tail);
            sum2.set(k, s2);
            sum1.set(k, total[k]);
            k = k + 1;
        }
        let mut g_vec: Vec<Point> = Vec::new();
        let mut k: usize = 0;
        while k < m
            invariant
                k <= m,
                gens.wf(),
                pc == gens.com_gens,
                secret_commitment.wf(),
                rho@.len() == m && sum1@.len() == m && sum2@.len() == m,
                forall|q: int| 0 <= q < m ==> (#[trigger] rho@[q]).wf(),
                forall|q: int| 0 <= q < m ==> (#[trigger] sum1@[q]).wf(),
                forall|q: int| 0 <= q < m ==> (#[trigger] sum2@[q]).wf(),
                g_vec@.len() == k,
                forall|q: int| 0 <= q < k ==> (#[trigger] g_vec@[q]).wf(),
                forall|q: int| 0 <= q < k ==> g_form((#[trigger] g_vec@[q])@, rho@[q]@, pc, secret_commitment@),
            decreases m - k,
        {
            let cancel = secret_commitment.mul(&sum1[k]).sub(&pc.b.mul(&sum2[k]));
            let ghost s1 = sum1@[k as int]@;
            let ghost s2 = sum2@[k as int]@;
            g_vec.push(pc.b_blinding.mul(&rho[k]).add(&cancel));
            assert(g_vec@[k as int]@ == point_add_of(
                point_mul_of(rho@[k as int]@, pc.b_blinding@),
                point_sub_of(point_mul_of(s1, secret_commitment@), point_mul_of(s2, pc.b@)),
            ));
            assert(g_form(g_vec@[k as int]@, rho@[k as int]@, pc, secret_commitment@));
            k = k + 1;
        }
        (
            MembershipProver { r1_prover, rho_values: rho, random: self.random, m },
            MembershipProofInitialMessage { r1: r1_im, g_vec, m, n, secret_element_comm: secret_commitment },
        )
    }
}

/// What a membership proof's first message appends to a transcript.
pub open spec fn membership_entries(im: MembershipProofInitialMessage) -> Seq<TranscriptEntry> {
    seq![
        TranscriptEntry::Message(DOM_SEP_LABEL@, MEMBERSHIP_PROOF_CHALLENGE_LABEL.spec_bytes()),
        TranscriptEntry::Message("A"@, im.r1.a@),
        TranscriptEntry::Message("B"@, im.r1.b@),
        TranscriptEntry::Message("C"@, im.r1.c@),
        TranscriptEntry::Message("D"@, im.r1.d@),
    ] + Seq::new(im.g_vec@.len(), |k: int| TranscriptEntry::Message("G"@, im.g_vec@[k]@))
        + seq![TranscriptEntry::Message("Comm"@, im.secret_element_comm@)]
}

/// Some point of the first message is the identity.
pub open spec fn membership_trivial(im: MembershipProofInitialMessage) -> bool {
    ||| im.r1.a@ == identity_bytes() || im.r1.b@ == identity_bytes()
    ||| im.r1.c@ == identity_bytes() || im.r1.d@ == identity_bytes()
    ||| exists|k: int| 0 <= k < im.g_vec@.len() && (#[trigger] im.g_vec@[k])@ == identity_bytes()
    ||| im.secret_element_comm@ == identity_bytes()
}

/// The challenge that the non-interactive proof derives from a first message.
pub open spec fn membership_challenge(im: MembershipProofInitialMessage) -> Seq<u8> {
    challenge_scalar_of(
        seq![TranscriptEntry::Start(MEMBERSHIP_PROOF_LABEL@)] + membership_entries(im),
        MEMBERSHIP_PROOF_CHALLENGE_LABEL@,
    )
}

impl MembershipProofInitialMessage {
    /// Appends the domain separator and every point; fails on an identity point.
    pub fn update_transcript(&self, transcript: &mut ProofTranscript) -> (r: Fallible<()>)
        ensures
            membership_trivial(*self) ==> r == Err::<(), crate::errors::Error>(err_of_spec(ErrorKind::VerificationError)),
            !membership_trivial(*self) ==> r.is_ok() && final(transcript).log_of() == old(transcript).log_of() + membership_entries(*self),
    {
        proof {
            lemma_labels_short();
        }
        transcript.append_domain_separator(MEMBERSHIP_PROOF_CHALLENGE_LABEL);
        transcript.append_validated_point("A", &self.r1.a)?;
        transcript.append_validated_point("B", &self.r1.b)?;
        transcript.append_validated_point("C", &self.r1.c)?;
        transcript.append_validated_point("D", &self.r1.d)?;
        let ghost base = transcript.log_of();
        let mut k: usize = 0;
        while k < self.g_vec.len()
            invariant
                k <= self.g_vec@.len(),
                transcript.log_of() == base + Seq::new(k as nat, |q: int| TranscriptEntry::Message("G"@, self.g_vec@[q]@)),
                forall|q: int| 0 <= q < k ==> (#[trigger] self.g_vec@[q])@ != identity_bytes(),
            decreases self.g_vec@.len() - k,
        {
            transcript.append_validated_point("G", &self.g_vec[k])?;
            k = k + 1;
            assert(transcript.log_of() =~= base + Seq::new(k as nat, |q: int| TranscriptEntry::Message("G"@, self.g_vec@[q]@)));
        }
        transcript.append_validated_point("Comm", &self.secret_element_comm)?;
        assert(final(transcript).log_of() =~= old(transcript).log_of() + membership_entries(*self));
        Ok(())
    }
}

/// The verdict of the non-interactive verifier on a proof.
pub open spec fn membership_proof_verdict(gens: OooNProofGenerators, v: MembershipProofVerifier, im: MembershipProofInitialMessage, fr: MembershipProofFinalResponse) -> Fallible<()> {
    if membership_trivial(im) || membership_challenge(im) == u32_scalar_bytes(0) {
        Err(err_of_spec(ErrorKind::VerificationError))
    } else {
        membership_verdict(gens, membership_challenge(im), v, im, fr)
    }
}

/// Produces a non-interactive membership proof.
pub fn prove_membership(prover: &MembershipProverAwaitingChallenge, gens: &OooNProofGenerators, rng: &mut rand::rngs::StdRng) -> (r: Fallible<(MembershipProofInitialMessage, MembershipProofFinalResponse)>)
    requires
        prover.wf(*gens),
    ensures
        r.is_ok() ==> r.unwrap().0.wf() && r.unwrap().1.wf() && !membership_trivial(r.unwrap().0)
            && membership_challenge(r.unwrap().0) != u32_scalar_bytes(0),
        r.is_ok() ==> r.unwrap().0.m == prover.exp && r.unwrap().0.n == prover.base
            && r.unwrap().0.g_vec@.len() == prover.exp
            && r.unwrap().1.r1.f_elements@.len() == prover.exp
            && matrix_wf(r.unwrap().1.r1.f_elements@, (prover.base - 1) as nat),
        r.is_err() ==> r == Err::<(MembershipProofInitialMessage, MembershipProofFinalResponse), crate::errors::Error>(err_of_spec(ErrorKind::VerificationError)),
{
    proof {
        lemma_labels_short();
    }
    let mut transcript = ProofTranscript::new(MEMBERSHIP_PROOF_LABEL);
    let mut trng = prover.create_transcript_rng(rng, &transcript);
    let (p, im) = prover.generate_initial_message(gens, &mut trng);
    im.update_transcript(&mut transcript)?;
    assert(transcript.log_of() =~= seq![TranscriptEntry::Start(MEMBERSHIP_PROOF_LABEL@)] + membership_entries(im));
    let c = transcript.scalar_challenge(MEMBERSHIP_PROOF_CHALLENGE_LABEL)?;
    let fr = p.apply_challenge(&c);
    Ok((im, fr))
}

/// Verifies a non-interactive membership proof.
pub fn verify_membership(verifier: &MembershipProofVerifier, gens: &OooNProofGenerators, im: &MembershipProofInitialMessage, fr: &MembershipProofFinalResponse) -> (r: Fallible<()>)
    requires
        gens.wf(),
        verifier.wf(),
        im.wf(),
        fr.wf(),
    ensures
        r == membership_proof_verdict(*gens, *verifier, *im, *fr),
{
    proof {
        lemma_labels_short();
    }
    let mut transcript = ProofTranscript::new(MEMBERSHIP_PROOF_LABEL);
    im.update_transcript(&mut transcript)?;
    assert(transcript.log_of() =~= seq![TranscriptEntry::Start(MEMBERSHIP_PROOF_LABEL@)] + membership_entries(*im));
    let c = transcript.scalar_challenge(MEMBERSHIP_PROOF_CHALLENGE_LABEL)?;
    verifier.verify(gens, &c, im, fr)
}

proof fn lemma_run_start_le(e: Seq<Seq<u8>>, j: nat)
    ensures
        run_start(e, j) <= j,
    decreases j,
{
    if j > 0 && j <= e.len() && e[j - 1] == e.last() {
        lemma_run_start_le(e, (j - 1) as nat);
    }
}

proof fn lemma_run_start_agree(e: Seq<Seq<u8>>, e2: Seq<Seq<u8>>, j: nat)
    requires
        e.len() > 0,
        j <= e.len() - 1,
        e2.len() >= e.len(),
        e2.last() == e.last(),
        forall|q: int| 0 <= q < e.len() ==> e2[q] == e[q],
    ensures
        run_start(e2, j) == run_start(e, j),
    decreases j,
{
    if j > 0 {
        lemma_run_start_agree(e, e2, (j - 1) as nat);
    }
}

proof fn lemma_run_start_copies(e: Seq<Seq<u8>>, e2: Seq<Seq<u8>>, j: nat)
    requires
        e.len() > 0,
        e.len() - 1 <= j <= e2.len() - 1,
        e2.last() == e.last(),
        forall|q: int| 0 <= q < e.len() ==> e2[q] == e[q],
        forall|q: int| e.len() <= q < e2.len() ==> e2[q] == e.last(),
    ensures
        run_start(e2, j) == run_start(e, (e.len() - 1) as nat),
    decreases j,
{
    if j > e.len() - 1 {
        assert(e2[j - 1] == e.last());
        lemma_run_start_copies(e, e2, (j - 1) as nat);
    } else {
        lemma_run_start_agree(e, e2, j);
    }
}

proof fn lemma_sums_agree(f: Seq<Seq<Seq<u8>>>, e: Seq<Seq<u8>>, e2: Seq<Seq<u8>>, n: nat, m: nat, k: nat)
    requires
        k <= e.len(),
        k <= e2.len(),
        forall|q: int| 0 <= q < k ==> e2[q] == e[q],
    ensures
        sum2_of(f, e2, n, m, k) == sum2_of(f, e, n, m, k),
    decreases k,
{
    if k > 0 {
        lemma_sums_agree(f, e, e2, n, m, (k - 1) as nat);
    }
}

/// The verifier's verdict does not change when the public set is right-padded with copies
/// of its last element, up to the `n^m` entries that the proof covers.
pub proof fn lemma_verdict_invariant_under_padding(
    gens: OooNProofGenerators,
    x: Seq<u8>,
    v: MembershipProofVerifier,
    padded_v: MembershipProofVerifier,
    im: MembershipProofInitialMessage,
    fr: MembershipProofFinalResponse,
    extra: nat,
)
    requires
        v.elements_set@.len() > 0,
        padded_v.secret_element_com == v.secret_element_com,
        scalar_views(padded_v.elements_set@) == scalar_views(v.elements_set@) + Seq::new(extra, |i: int| v.elements_set@.last()@),
        v.elements_set@.len() + extra <= power(im.n as nat, im.m as nat),
    ensures
        membership_verdict(gens, x, padded_v, im, fr) == membership_verdict(gens, x, v, im, fr),
{
    let size = power(im.n as nat, im.m as nat);
    let e = scalar_views(v.elements_set@);
    let e2 = scalar_views(padded_v.elements_set@);
    assert(e.len() == v.elements_set@.len());
    assert(e2.len() == padded_v.elements_set@.len());
    let t = proof_set(v, size);
    let t2 = proof_set(padded_v, size);
    assert(t =~= e);
    assert(t2 =~= e2);
    assert(e.last() == v.elements_set@.last()@);
    assert(e2.last() == e.last());
    assert forall|q: int| 0 <= q < e.len() implies e2[q] == e[q] by {}
    assert forall|q: int| e.len() <= q < e2.len() implies e2[q] == e.last() by {}
    lemma_run_start_copies(e, e2, (e2.len() - 1) as nat);
    lemma_run_start_le(e, (e.len() - 1) as nat);
    let c = core_len(t);
    assert(core_len(t2) == c);
    let f = full_f(x, matrix_view(fr.r1.f_elements@));
    lemma_sums_agree(f, e, e2, im.n as nat, im.m as nat, c);
    assert(t2[c - 1] == t[c - 1]);
}

/// The encodings of the first `k` points, one after the other.
pub open spec fn points_bytes(s: Seq<Point>, k: nat) -> Seq<u8>
    decreases k,
{
    if k == 0 || k > s.len() {
        Seq::empty()
    } else {
        points_bytes(s, (k - 1) as nat) + s[k - 1]@
    }
}

/// The encodings of the points from `j` on, one after the other.
pub open spec fn points_tail(s: Seq<Point>, j: nat) -> Seq<u8>
    decreases s.len() - j,
{
    if j >= s.len() {
        Seq::empty()
    } else {
        s[j as int]@ + points_tail(s, j + 1)
    }
}

proof fn lemma_points_split(s: Seq<Point>, k: nat)
    requires
        k <= s.len(),
    ensures
        points_bytes(s, k) + points_tail(s, k) == points_bytes(s, s.len()),
    decreases s.len() - k,
{
    if k < s.len() {
        lemma_points_split(s, k + 1);
        assert(points_bytes(s, k + 1) == points_bytes(s, k) + s[k as int]@);
        assert(points_bytes(s, k) + points_tail(s, k) =~= points_bytes(s, k + 1) + points_tail(s, k + 1));
    } else {
        assert(points_bytes(s, k) + points_tail(s, k) =~= points_bytes(s, k));
    }
}

/// The encodings of the first `k` scalars, one after the other.
pub open spec fn scalars_bytes(s: Seq<Scalar>, k: nat) -> Seq<u8>
    decreases k,
{
    if k == 0 || k > s.len() {
        Seq::empty()
    } else {
        scalars_bytes(s, (k - 1) as nat) + s[k - 1]@
    }
}

/// The encodings of the scalars from `j` on, one after the other.
pub open spec fn scalars_tail(s: Seq<Scalar>, j: nat) -> Seq<u8>
    decreases s.len() - j,
{
    if j >= s.len() {
        Seq::empty()
    } else {
        s[j as int]@ + scalars_tail(s, j + 1)
    }
}

proof fn lemma_scalars_split(s: Seq<Scalar>, k: nat)
    requires
        k <= s.len(),
    ensures
        scalars_bytes(s, k) + scalars_tail(s, k) == scalars_bytes(s, s.len()),
    decreases s.len() - k,
{
    if k < s.len() {
        lemma_scalars_split(s, k + 1);
        assert(scalars_bytes(s, k + 1) == scalars_bytes(s, k) + s[k as int]@);
        assert(scalars_bytes(s, k) + scalars_tail(s, k) =~= scalars_bytes(s, k + 1) + scalars_tail(s, k + 1));
    } else {
        assert(scalars_bytes(s, k) + scalars_tail(s, k) =~= scalars_bytes(s, k));
    }
}

/// The rows from `j` on, each as its length and its scalars.
pub open spec fn rows_tail(rows: Seq<Vec<Scalar>>, j: nat) -> Seq<u8>
    decreases rows.len() - j,
{
    if j >= rows.len() {
        Seq::empty()
    } else {
        le4(rows[j as int]@.len() as u32) + scalars_bytes(rows[j as int]@, rows[j as int]@.len()) + rows_tail(rows, j + 1)
    }
}

proof fn lemma_rows_split(s: Seq<Vec<Scalar>>, k: nat)
    requires
        k <= s.len(),
    ensures
        rows_bytes(s, k) + rows_tail(s, k) == rows_bytes(s, s.len()),
    decreases s.len() - k,
{
    if k < s.len() {
        lemma_rows_split(s, k + 1);
        assert(rows_bytes(s, k) + rows_tail(s, k) =~= rows_bytes(s, k + 1) + rows_tail(s, k + 1));
    } else {
        assert(rows_bytes(s, k) + rows_tail(s, k) =~= rows_bytes(s, k));
    }
}

/// The first `k` rows, each as its length and its scalars.
pub open spec fn rows_bytes(rows: Seq<Vec<Scalar>>, k: nat) -> Seq<u8>
    decreases k,
{
    if k == 0 || k > rows.len() {
        Seq::empty()
    } else {
        rows_bytes(rows, (k - 1) as nat) + le4(rows[k - 1]@.len() as u32) + scalars_bytes(rows[k - 1]@, rows[k - 1]@.len())
    }
}

impl MembershipProofInitialMessage {
    /// The dimensions and the number of commitments fit in 32 bits.
    pub open spec fn encodable(&self) -> bool {
        self.m <= u32::MAX && self.n <= u32::MAX && self.g_vec@.len() <= u32::MAX
    }

    pub open spec fn spec_bytes(&self) -> Seq<u8> {
        le4(self.m as u32) + le4(self.n as u32) + self.r1.a@ + self.r1.b@ + self.r1.c@ + self.r1.d@
            + self.secret_element_comm@ + le4(self.g_vec@.len() as u32) + points_bytes(self.g_vec@, self.g_vec@.len())
    }

    /// The encoding: dimensions, the bit-matrix commitments, the secret's commitment, and
    /// the counted commitments `G_k`.
    pub fn to_bytes(&self) -> (r: Vec<u8>)
        requires
            self.encodable(),
        ensures
            r@ == self.spec_bytes(),
    {
        let mut out: Vec<u8> = Vec::new();
        push_u32(&mut out, self.m as u32);
        push_u32(&mut out, self.n as u32);
        push_array(&mut out, &self.r1.a.bytes);
        push_array(&mut out, &self.r1.b.bytes);
        push_array(&mut out, &self.r1.c.bytes);
        push_array(&mut out, &self.r1.d.bytes);
        push_array(&mut out, &self.secret_element_comm.bytes);
        push_u32(&mut out, self.g_vec.len() as u32);
        let ghost head = out@;
        let mut k: usize = 0;
        while k < self.g_vec.len()
            invariant
                k <= self.g_vec@.len(),
                out@ == head + points_bytes(self.g_vec@, k as nat),
            decreases self.g_vec@.len() - k,
        {
            push_array(&mut out, &self.g_vec[k].bytes);
            k = k + 1;
            assert(out@ =~= head + points_bytes(self.g_vec@, k as nat));
        }
        assert(out@ =~= self.spec_bytes());
        out
    }

    /// The fixed-size part of the encoding.
    pub open spec fn head_bytes(&self) -> Seq<u8> {
        le4(self.m as u32) + le4(self.n as u32) + self.r1.a@ + self.r1.b@ + self.r1.c@ + self.r1.d@
            + self.secret_element_comm@ + le4(self.g_vec@.len() as u32)
    }

    /// Decodes a first message; every point must be a valid encoding and every byte used.
    /// Whatever `to_bytes` wrote for a well-formed message decodes.
    pub fn from_bytes(b: &[u8]) -> (r: Option<MembershipProofInitialMessage>)
        ensures
            r.is_some() ==> r.unwrap().wf() && r.unwrap().encodable() && r.unwrap().spec_bytes() == b@,
            (exists|x: MembershipProofInitialMessage| x.wf() && x.encodable() && x.spec_bytes() == b@) ==> r.is_some(),
    {
        let ghost hyp = exists|x: MembershipProofInitialMessage| x.wf() && x.encodable() && x.spec_bytes() == b@;
        let ghost x = choose|x: MembershipProofInitialMessage| x.wf() && x.encodable() && x.spec_bytes() == b@;
        proof {
            if hyp {
                lemma_points_split(x.g_vec@, 0);
                assert(points_bytes(x.g_vec@, 0) =~= Seq::<u8>::empty());
                assert(b@ =~= x.head_bytes() + points_tail(x.g_vec@, 0));
                assert(b@.subrange(0, 172) =~= x.head_bytes());
                assert(b@.subrange(172, b@.len() as int) =~= points_tail(x.g_vec@, 0));
                assert(x.head_bytes().subrange(8, 40) =~= x.r1.a@);
                assert(x.head_bytes().subrange(40, 72) =~= x.r1.b@);
                assert(x.head_bytes().subrange(72, 104) =~= x.r1.c@);
                assert(x.head_bytes().subrange(104, 136) =~= x.r1.d@);
                assert(x.head_bytes().subrange(136, 168) =~= x.secret_element_comm@);
                assert(x.head_bytes().subrange(168, 172) =~= le4(x.g_vec@.len() as u32));
            }
        }
        let len = b.len();
        if len < 8 + 5 * 32 + 4 {
            return None;
        }
        let m = read_u32(b, 0);
        let n = read_u32(b, 4);
        let a = match Point::from_bytes(read_array(b, 8)) {
            Some(p) => p,
            None => {
                assert(hyp ==> b@.subrange(8, 40) == x.r1.a@);
                return None;
            },
        };
        let bb = match Point::from_bytes(read_array(b, 40)) {
            Some(p) => p,
            None => {
                assert(hyp ==> b@.subrange(40, 72) == x.r1.b@);
                return None;
            },
        };
        let c = match Point::from_bytes(read_array(b, 72)) {
            Some(p) => p,
            None => {
                assert(hyp ==> b@.subrange(72, 104) == x.r1.c@);
                return None;
            },
        };
        let d = match Point::from_bytes(read_array(b, 104)) {
            Some(p) => p,
            None => {
                assert(hyp ==> b@.subrange(104, 136) == x.r1.d@);
                return None;
            },
        };
        let comm = match Point::from_bytes(read_array(b, 136)) {
            Some(p) => p,
            None => {
                assert(hyp ==> b@.subrange(136, 168) == x.secret_element_comm@);
                return None;
            },
        };
        let count = read_u32(b, 168);
        proof {
            if hyp {
                assert(b@.subrange(168, 172) == le4(x.g_vec@.len() as u32));
                lemma_le4_injective(count, x.g_vec@.len() as u32);
            }
        }
        let ghost head = b@.subrange(0, 172);
        assert(head =~= le4(m) + le4(n) + a@ + bb@ + c@ + d@ + comm@ + le4(count));
        let mut g_vec: Vec<Point> = Vec::new();
        let mut pos: usize = 172;
        let mut k: u32 = 0;
        while k < count
            invariant
                len == b@.len(),
                172 <= pos <= len,
                k <= count,
                g_vec@.len() == k,
                forall|q: int| 0 <= q < k ==> (#[trigger] g_vec@[q]).wf(),
                b@.subrange(0, pos as int) == head + points_bytes(g_vec@, k as nat),
                hyp == (exists|x: MembershipProofInitialMessage| x.wf() && x.encodable() && x.spec_bytes() == b@),
                hyp ==> x.wf() && count as nat == x.g_vec@.len() && b@.subrange(pos as int, len as int) == points_tail(x.g_vec@, k as nat),
            decreases count - k,
        {
            proof {
                if hyp {
                    let rest = b@.subrange(pos as int, len as int);
                    assert(points_tail(x.g_vec@, k as nat) == x.g_vec@[k as int]@ + points_tail(x.g_vec@, (k + 1) as nat));
                    assert(rest.len() >= 32);
                    assert(rest.subrange(0, 32) =~= x.g_vec@[k as int]@);
                    assert(b@.subrange(pos as int, pos + 32) =~= rest.subrange(0, 32));
                    assert(x.g_vec@[k as int].wf());
                }
            }
            if len - pos < 32 {
                return None;
            }
            let p = match Point::from_bytes(read_array(b, pos)) {
                Some(p) => p,
                None => return None,
            };
            let ghost before = g_vec@;
            g_vec.push(p);
            assert(points_bytes(g_vec@, (k + 1) as nat) == points_bytes(before, k as nat) + p@) by {
                assert(points_bytes(g_vec@, k as nat) =~= points_bytes(before, k as nat)) by {
                    lemma_points_bytes_prefix(before, g_vec@, k as nat);
                }
            }
            assert(b@.subrange(0, pos + 32) =~= b@.subrange(0, pos as int) + b@.subrange(pos as int, pos + 32));
            proof {
                if hyp {
                    assert(b@.subrange(pos + 32, len as int) =~= b@.subrange(pos as int, len as int).subrange(32, (len - pos) as int));
                }
            }
            pos = pos + 32;
            k = k + 1;
        }
        if pos != len {
            assert(hyp ==> points_tail(x.g_vec@, k as nat) =~= Seq::<u8>::empty());
            return None;
        }
        assert(b@.subrange(0, len as int) =~= b@);
        let im = MembershipProofInitialMessage {
            r1: R1ProofInitialMessage { a, b: bb, c, d },
            g_vec,
            m: m as usize,
            n: n as usize,
            secret_element_comm: comm,
        };
        assert(im.spec_bytes() =~= b@);
        Some(im)
    }
}

proof fn lemma_points_bytes_prefix(s: Seq<Point>, t: Seq<Point>, k: nat)
    requires
        k <= s.len(),
        k <= t.len(),
        forall|q: int| 0 <= q < k ==> s[q] == t[q],
    ensures
        points_bytes(t, k) == points_bytes(s, k),
    decreases k,
{
    if k > 0 {
        lemma_points_bytes_prefix(s, t, (k - 1) as nat);
    }
}

proof fn lemma_scalars_bytes_prefix(s: Seq<Scalar>, t: Seq<Scalar>, k: nat)
    requires
        k <= s.len(),
        k <= t.len(),
        forall|q: int| 0 <= q < k ==> s[q] == t[q],
    ensures
        scalars_bytes(t, k) == scalars_bytes(s, k),
    decreases k,
{
    if k > 0 {
        lemma_scalars_bytes_prefix(s, t, (k - 1) as nat);
    }
}

proof fn lemma_rows_bytes_prefix(s: Seq<Vec<Scalar>>, t: Seq<Vec<Scalar>>, k: nat)
    requires
        k <= s.len(),
        k <= t.len(),
        forall|q: int| 0 <= q < k ==> s[q] == t[q],
    ensures
        rows_bytes(t, k) == rows_bytes(s, k),
    decreases k,
{
    if k > 0 {
        lemma_rows_bytes_prefix(s, t, (k - 1) as nat);
    }
}

impl MembershipProofFinalResponse {
    /// The number of rows, and each row's length, fit in 32 bits.
    pub open spec fn encodable(&self) -> bool {
        self.r1.f_elements@.len() <= u32::MAX
            && forall|j: int| 0 <= j < self.r1.f_elements@.len() ==> (#[trigger] self.r1.f_elements@[j])@.len() <= u32::MAX
    }

    /// Every opened entry is canonical.
    pub open spec fn entries_wf(&self) -> bool {
        forall|j: int, i: int| 0 <= j < self.r1.f_elements@.len() && 0 <= i < self.r1.f_elements@[j]@.len()
            ==> (#[trigger] self.r1.f_elements@[j]@[i]).wf()
    }

    pub open spec fn spec_bytes(&self) -> Seq<u8> {
        le4(self.r1.f_elements@.len() as u32) + rows_bytes(self.r1.f_elements@, self.r1.f_elements@.len())
            + self.r1.z_a@ + self.r1.z_c@ + self.z@
    }

    /// The encoding: the counted rows of opened entries, each counted, then `z_A`, `z_C`, `z`.
    pub fn to_bytes(&self) -> (r: Vec<u8>)
        requires
            self.encodable(),
        ensures
            r@ == self.spec_bytes(),
    {
        let rows = &self.r1.f_elements;
        let mut out: Vec<u8> = Vec::new();
        push_u32(&mut out, rows.len() as u32);
        let ghost head = out@;
        let mut j: usize = 0;
        while j < rows.len()
            invariant
                self.encodable(),
                *rows == self.r1.f_elements,
                j <= rows@.len(),
                out@ == head + rows_bytes(rows@, j as nat),
            decreases rows@.len() - j,
        {
            let ghost row_start = out@;
            push_u32(&mut out, rows[j].len() as u32);
            let ghost mid = out@;
            let mut i: usize = 0;
            while i < rows[j].len()
                invariant
                    j < rows@.len(),
                    i <= rows@[j as int]@.len(),
                    out@ == mid + scalars_bytes(rows@[j as int]@, i as nat),
                decreases rows@[j as int]@.len() - i,
            {
                push_array(&mut out, &rows[j][i].bytes);
                i = i + 1;
                assert(out@ =~= mid + scalars_bytes(rows@[j as int]@, i as nat));
            }
            j = j + 1;
            assert(out@ =~= head + rows_bytes(rows@, j as nat));
        }
        push_array(&mut out, &self.r1.z_a.bytes);
        push_array(&mut out, &self.r1.z_c.bytes);
        push_array(&mut out, &self.z.bytes);
        assert(out@ =~= self.spec_bytes());
        out
    }

    /// Decodes a response; every scalar must be canonical and every byte used. Whatever
    /// `to_bytes` wrote for a well-formed response decodes.
    pub fn from_bytes(b: &[u8]) -> (r: Option<MembershipProofFinalResponse>)
        ensures
            r.is_some() ==> r.unwrap().wf() && r.unwrap().entries_wf() && r.unwrap().encodable()
                && r.unwrap().spec_bytes() == b@,
            (exists|x: MembershipProofFinalResponse| x.wf() && x.entries_wf() && x.encodable() && x.spec_bytes() == b@) ==> r.is_some(),
    {
        let ghost hyp = exists|x: MembershipProofFinalResponse| x.wf() && x.entries_wf() && x.encodable() && x.spec_bytes() == b@;
        let ghost x = choose|x: MembershipProofFinalResponse| x.wf() && x.entries_wf() && x.encodable() && x.spec_bytes() == b@;
        let ghost xr = x.r1.f_elements@;
        let ghost zs = x.r1.z_a@ + x.r1.z_c@ + x.z@;
        proof {
            if hyp {
                lemma_rows_split(xr, 0);
                assert(rows_bytes(xr, 0) =~= Seq::<u8>::empty());
                assert(b@ =~= le4(xr.len() as u32) + (rows_tail(xr, 0) + zs));
                assert(b@.subrange(0, 4) =~= le4(xr.len() as u32));
                assert(b@.subrange(4, b@.len() as int) =~= rows_tail(xr, 0) + zs);
            }
        }
        let len = b.len();
        if len < 4 {
            return None;
        }
        let count = read_u32(b, 0);
        proof {
            if hyp {
                lemma_le4_injective(count, xr.len() as u32);
            }
        }
        let ghost head = b@.subrange(0, 4);
        let mut rows: Vec<Vec<Scalar>> = Vec::new();
        let mut pos: usize = 4;
        let mut j: u32 = 0;
        while j < count
            invariant
                len == b@.len(),
                4 <= pos <= len,
                j <= count,
                head == le4(count),
                rows@.len() == j,
                forall|q: int| 0 <= q < j ==> (#[trigger] rows@[q])@.len() <= u32::MAX,
                forall|q: int, i: int| 0 <= q < j && 0 <= i < rows@[q]@.len() ==> (#[trigger] rows@[q]@[i]).wf(),
                b@.subrange(0, pos as int) == head + rows_bytes(rows@, j as nat),
                hyp == (exists|x: MembershipProofFinalResponse| x.wf() && x.entries_wf() && x.encodable() && x.spec_bytes() == b@),
                hyp ==> x.wf() && x.entries_wf() && x.encodable() && zs == x.r1.z_a@ + x.r1.z_c@ + x.z@ && xr == x.r1.f_elements@ && count as nat == xr.len()
                    && b@.subrange(pos as int, len as int) == rows_tail(xr, j as nat) + zs,
            decreases count - j,
        {
            let ghost xrow = xr[j as int]@;
            proof {
                if hyp {
                    let rest = b@.subrange(pos as int, len as int);
                    lemma_scalars_split(xrow, 0);
                    assert(scalars_bytes(xrow, 0) =~= Seq::<u8>::empty());
                    assert(rest =~= le4(xrow.len() as u32) + (scalars_tail(xrow, 0) + rows_tail(xr, (j + 1) as nat) + zs));
                    assert(rest.len() >= 4);
                    assert(rest.subrange(0, 4) =~= le4(xrow.len() as u32));
                    assert(b@.subrange(pos as int, pos + 4) =~= rest.subrange(0, 4));
                    assert(rest.subrange(4, rest.len() as int) =~= scalars_tail(xrow, 0) + rows_tail(xr, (j + 1) as nat) + zs);
                }
            }
            if len - pos < 4 {
                return None;
            }
            let row_len = read_u32(b, pos);
            let ghost row_head = b@.subrange(0, pos + 4);
            assert(b@.subrange(0, pos + 4) =~= b@.subrange(0, pos as int) + b@.subrange(pos as int, pos + 4));
            proof {
                if hyp {
                    lemma_le4_injective(row_len, xrow.len() as u32);
                    assert(b@.subrange(pos + 4, len as int) =~= b@.subrange(pos as int, len as int).subrange(4, (len - pos) as int));
                    assert(xrow.len() <= u32::MAX);
                }
            }
            pos = pos + 4;
            let mut row: Vec<Scalar> = Vec::new();
            let mut i: u32 = 0;
            while i < row_len
                invariant
                    len == b@.len(),
                    4 <= pos <= len,
                    i <= row_len,
                    row@.len() == i,
                    forall|q: int| 0 <= q < i ==> (#[trigger] row@[q]).wf(),
                    b@.subrange(0, pos as int) == row_head + scalars_bytes(row@, i as nat),
                    hyp == (exists|x: MembershipProofFinalResponse| x.wf() && x.entries_wf() && x.encodable() && x.spec_bytes() == b@),
                    hyp ==> x.wf() && x.entries_wf() && x.encodable() && zs == x.r1.z_a@ + x.r1.z_c@ + x.z@ && xr == x.r1.f_elements@ && j < xr.len() && xrow == xr[j as int]@ && row_len as nat == xrow.len()
                        && b@.subrange(pos as int, len as int) == scalars_tail(xrow, i as nat) + rows_tail(xr, (j + 1) as nat) + zs,
                decreases row_len - i,
            {
                proof {
                    if hyp {
                        let rest = b@.subrange(pos as int, len as int);
                        assert(scalars_tail(xrow, i as nat) == xrow[i as int]@ + scalars_tail(xrow, (i + 1) as nat));
                        assert(rest.len() >= 32);
                        assert(rest.subrange(0, 32) =~= xrow[i as int]@);
                        assert(b@.subrange(pos as int, pos + 32) =~= rest.subrange(0, 32));
                        assert(x.r1.f_elements@[j as int]@[i as int].wf());
                    }
                }
                if len - pos < 32 {
                    return None;
                }
                let v = match Scalar::from_bytes(read_array(b, pos)) {
                    Some(v) => v,
                    None => return None,
                };
                let ghost before = row@;
                row.push(v);
                assert(scalars_bytes(row@, (i + 1) as nat) == scalars_bytes(before, i as nat) + v@) by {
                    lemma_scalars_bytes_prefix(before, row@, i as nat);
                }
                assert(b@.subrange(0, pos + 32) =~= b@.subrange(0, pos as int) + b@.subrange(pos as int, pos + 32));
                proof {
                    if hyp {
                        assert(b@.subrange(pos + 32, len as int) =~= b@.subrange(pos as int, len as int).subrange(32, (len - pos) as int));
                        assert(b@.subrange(pos + 32, len as int) =~= scalars_tail(xrow, (i + 1) as nat) + rows_tail(xr, (j + 1) as nat) + zs);
                    }
                }
                pos = pos + 32;
                i = i + 1;
            }
            proof {
                if hyp {
                    assert(scalars_tail(xrow, i as nat) =~= Seq::<u8>::empty());
                    assert(b@.subrange(pos as int, len as int) =~= rows_tail(xr, (j + 1) as nat) + zs);
                }
            }
            let ghost before_rows = rows@;
            rows.push(row);
            proof {
                lemma_rows_bytes_prefix(before_rows, rows@, j as nat);
                assert(rows@[j as int] == row);
                assert(rows_bytes(rows@, (j + 1) as nat) == rows_bytes(before_rows, j as nat) + le4(row_len) + scalars_bytes(row@, row@.len()));
                assert(b@.subrange(0, pos as int) =~= head + rows_bytes(rows@, (j + 1) as nat));
                assert forall|q: int, i: int| 0 <= q < j + 1 && 0 <= i < rows@[q]@.len() implies (#[trigger] rows@[q]@[i]).wf() by {
                    if q < j {
                        assert(rows@[q] == before_rows[q]);
                    }
                }
                assert forall|q: int| 0 <= q < j + 1 implies (#[trigger] rows@[q])@.len() <= u32::MAX by {
                    if q < j {
                        assert(rows@[q] == before_rows[q]);
                    }
                }
            }
            j = j + 1;
        }
        proof {
            if hyp {
                assert(rows_tail(xr, j as nat) =~= Seq::<u8>::empty());
                assert(b@.subrange(pos as int, len as int) =~= zs);
            }
        }
        if len - pos != 96 {
            return None;
        }
        proof {
            if hyp {
                assert(b@.subrange(pos as int, pos + 32) =~= x.r1.z_a@);
                assert(b@.subrange(pos + 32, pos + 64) =~= x.r1.z_c@);
                assert(b@.subrange(pos + 64, pos + 96) =~= x.z@);
            }
        }
        let z_a = match Scalar::from_bytes(read_array(b, pos)) {
            Some(v) => v,
            None => return None,
        };
        let z_c = match Scalar::from_bytes(read_array(b, pos + 32)) {
            Some(v) => v,
            None => return None,
        };
        let z = match Scalar::from_bytes(read_array(b, pos + 64)) {
            Some(v) => v,
            None => return None,
        };
        let fr = MembershipProofFinalResponse { r1: R1ProofFinalResponse { f_elements: rows, z_a, z_c }, z };
        assert(b@ =~= b@.subrange(0, pos as int) + z_a@ + z_c@ + z@);
        assert(fr.spec_bytes() =~= b@);
        Some(fr)
    }
}

/// The verdict reads the set only through its entries' encodings.
pub proof fn lemma_verdict_depends_on_set_view(
    gens: OooNProofGenerators,
    v1: MembershipProofVerifier,
    v2: MembershipProofVerifier,
    im: MembershipProofInitialMessage,
    fr: MembershipProofFinalResponse,
)
    requires
        v1.secret_element_com == v2.secret_element_com,
        v1.elements_set@ == v2.elements_set@,
    ensures
        membership_proof_verdict(gens, v1, im, fr) == membership_proof_verdict(gens, v2, im, fr),
{
    let size = power(im.n as nat, im.m as nat);
    assert(proof_set(v1, size) == proof_set(v2, size));
}

proof fn lemma_points_tail_len(s: Seq<Point>, j: nat)
    requires
        j <= s.len(),
    ensures
        points_tail(s, j).len() == 32 * (s.len() - j),
    decreases s.len() - j,
{
    if j < s.len() {
        lemma_points_tail_len(s, j + 1);
    }
}

proof fn lemma_scalars_tail_len(s: Seq<Scalar>, j: nat)
    requires
        j <= s.len(),
    ensures
        scalars_tail(s, j).len() == 32 * (s.len() - j),
    decreases s.len() - j,
{
    if j < s.len() {
        lemma_scalars_tail_len(s, j + 1);
    }
}

proof fn lemma_points_tail_injective(s: Seq<Point>, t: Seq<Point>, j: nat)
    requires
        j <= s.len(),
        s.len() == t.len(),
        points_tail(s, j) == points_tail(t, j),
    ensures
        forall|k: int| j <= k < s.len() ==> s[k] == t[k],
    decreases s.len() - j,
{
    if j < s.len() {
        let a = points_tail(s, j);
        assert(a.subrange(0, 32) =~= s[j as int]@);
        assert(points_tail(t, j).subrange(0, 32) =~= t[j as int]@);
        assert(s[j as int].bytes =~= t[j as int].bytes);
        assert(a.subrange(32, a.len() as int) =~= points_tail(s, j + 1));
        assert(points_tail(t, j).subrange(32, a.len() as int) =~= points_tail(t, j + 1));
        lemma_points_tail_injective(s, t, j + 1);
    }
}

proof fn lemma_scalars_tail_injective(s: Seq<Scalar>, t: Seq<Scalar>, j: nat)
    requires
        j <= s.len(),
        s.len() == t.len(),
        scalars_tail(s, j) == scalars_tail(t, j),
    ensures
        forall|k: int| j <= k < s.len() ==> s[k] == t[k],
    decreases s.len() - j,
{
    if j < s.len() {
        let a = scalars_tail(s, j);
        assert(a.subrange(0, 32) =~= s[j as int]@);
        assert(scalars_tail(t, j).subrange(0, 32) =~= t[j as int]@);
        assert(s[j as int].bytes =~= t[j as int].bytes);
        assert(a.subrange(32, a.len() as int) =~= scalars_tail(s, j + 1));
        assert(scalars_tail(t, j).subrange(32, a.len() as int) =~= scalars_tail(t, j + 1));
        lemma_scalars_tail_injective(s, t, j + 1);
    }
}

/// Equal encodings come from first messages with the same fields.
pub proof fn lemma_initial_message_encoding_injective(x: MembershipProofInitialMessage, y: MembershipProofInitialMessage)
    requires
        x.encodable(),
        y.encodable(),
        x.spec_bytes() == y.spec_bytes(),
    ensures
        x.m == y.m && x.n == y.n && x.r1 == y.r1 && x.secret_element_comm == y.secret_element_comm,
        x.g_vec@ == y.g_vec@,
{
    let b = x.spec_bytes();
    lemma_points_split(x.g_vec@, 0);
    lemma_points_split(y.g_vec@, 0);
    assert(points_bytes(x.g_vec@, 0) =~= Seq::<u8>::empty());
    assert(points_bytes(y.g_vec@, 0) =~= Seq::<u8>::empty());
    assert(b =~= x.head_bytes() + points_tail(x.g_vec@, 0));
    assert(b =~= y.head_bytes() + points_tail(y.g_vec@, 0));
    assert(b.subrange(0, 172) =~= x.head_bytes());
    assert(b.subrange(0, 172) =~= y.head_bytes());
    let hx = x.head_bytes();
    let hy = y.head_bytes();
    assert(hx.subrange(0, 4) =~= le4(x.m as u32) && hy.subrange(0, 4) =~= le4(y.m as u32));
    assert(hx.subrange(4, 8) =~= le4(x.n as u32) && hy.subrange(4, 8) =~= le4(y.n as u32));
    assert(hx.subrange(168, 172) =~= le4(x.g_vec@.len() as u32) && hy.subrange(168, 172) =~= le4(y.g_vec@.len() as u32));
    lemma_le4_injective(x.m as u32, y.m as u32);
    lemma_le4_injective(x.n as u32, y.n as u32);
    lemma_le4_injective(x.g_vec@.len() as u32, y.g_vec@.len() as u32);
    assert(hx.subrange(8, 40) =~= x.r1.a@ && hy.subrange(8, 40) =~= y.r1.a@);
    assert(hx.subrange(40, 72) =~= x.r1.b@ && hy.subrange(40, 72) =~= y.r1.b@);
    assert(hx.subrange(72, 104) =~= x.r1.c@ && hy.subrange(72, 104) =~= y.r1.c@);
    assert(hx.subrange(104, 136) =~= x.r1.d@ && hy.subrange(104, 136) =~= y.r1.d@);
    assert(hx.subrange(136, 168) =~= x.secret_element_comm@ && hy.subrange(136, 168) =~= y.secret_element_comm@);
    assert(x.r1.a.bytes =~= y.r1.a.bytes);
    assert(x.r1.b.bytes =~= y.r1.b.bytes);
    assert(x.r1.c.bytes =~= y.r1.c.bytes);
    assert(x.r1.d.bytes =~= y.r1.d.bytes);
    assert(x.secret_element_comm.bytes =~= y.secret_element_comm.bytes);
    assert(b.subrange(172, b.len() as int) =~= points_tail(x.g_vec@, 0));
    assert(b.subrange(172, b.len() as int) =~= points_tail(y.g_vec@, 0));
    lemma_points_tail_injective(x.g_vec@, y.g_vec@, 0);
    assert(x.g_vec@ =~= y.g_vec@);
}

proof fn lemma_rows_tail_injective(s: Seq<Vec<Scalar>>, t: Seq<Vec<Scalar>>, j: nat, w1: Seq<u8>, w2: Seq<u8>)
    requires
        j <= s.len(),
        s.len() == t.len(),
        w1.len() == w2.len(),
        forall|q: int| 0 <= q < s.len() ==> (#[trigger] s[q])@.len() <= u32::MAX,
        forall|q: int| 0 <= q < t.len() ==> (#[trigger] t[q])@.len() <= u32::MAX,
        rows_tail(s, j) + w1 == rows_tail(t, j) + w2,
    ensures
        forall|k: int| j <= k < s.len() ==> s[k]@ == t[k]@,
        w1 == w2,
    decreases s.len() - j,
{
    if j < s.len() {
        let rs = s[j as int]@;
        let rt = t[j as int]@;
        let a = rows_tail(s, j) + w1;
        let c = rows_tail(t, j) + w2;
        lemma_scalars_split(rs, 0);
        lemma_scalars_split(rt, 0);
        assert(scalars_bytes(rs, 0) =~= Seq::<u8>::empty());
        assert(scalars_bytes(rt, 0) =~= Seq::<u8>::empty());
        assert(a =~= le4(rs.len() as u32) + scalars_tail(rs, 0) + (rows_tail(s, j + 1) + w1));
        assert(c =~= le4(rt.len() as u32) + scalars_tail(rt, 0) + (rows_tail(t, j + 1) + w2));
        assert(a.subrange(0, 4) =~= le4(rs.len() as u32));
        assert(c.subrange(0, 4) =~= le4(rt.len() as u32));
        lemma_le4_injective(rs.len() as u32, rt.len() as u32);
        lemma_scalars_tail_len(rs, 0);
        lemma_scalars_tail_len(rt, 0);
        let e = 4 + 32 * rs.len();
        assert(a.subrange(4, e as int) =~= scalars_tail(rs, 0));
        assert(c.subrange(4, e as int) =~= scalars_tail(rt, 0));
        lemma_scalars_tail_injective(rs, rt, 0);
        assert(rs =~= rt);
        assert(a.subrange(e as int, a.len() as int) =~= rows_tail(s, j + 1) + w1);
        assert(c.subrange(e as int, c.len() as int) =~= rows_tail(t, j + 1) + w2);
        lemma_rows_tail_injective(s, t, j + 1, w1, w2);
    } else {
        assert(rows_tail(s, j) =~= Seq::<u8>::empty());
        assert(rows_tail(t, j) =~= Seq::<u8>::empty());
        assert(w1 =~= w2);
    }
}

/// Equal encodings come from responses with the same scalars.
pub proof fn lemma_final_response_encoding_injective(x: MembershipProofFinalResponse, y: MembershipProofFinalResponse)
    requires
        x.encodable(),
        y.encodable(),
        x.spec_bytes() == y.spec_bytes(),
    ensures
        x.r1.f_elements@.len() == y.r1.f_elements@.len(),
        forall|j: int| 0 <= j < x.r1.f_elements@.len() ==> x.r1.f_elements@[j]@ == y.r1.f_elements@[j]@,
        x.r1.z_a == y.r1.z_a && x.r1.z_c == y.r1.z_c && x.z == y.z,
{
    let b = x.spec_bytes();
    let xr = x.r1.f_elements@;
    let yr = y.r1.f_elements@;
    lemma_rows_split(xr, 0);
    lemma_rows_split(yr, 0);
    assert(rows_bytes(xr, 0) =~= Seq::<u8>::empty());
    assert(rows_bytes(yr, 0) =~= Seq::<u8>::empty());
    let zx = x.r1.z_a@ + x.r1.z_c@ + x.z@;
    let zy = y.r1.z_a@ + y.r1.z_c@ + y.z@;
    assert(b =~= le4(xr.len() as u32) + (rows_tail(xr, 0) + zx));
    assert(b =~= le4(yr.len() as u32) + (rows_tail(yr, 0) + zy));
    assert(b.subrange(0, 4) =~= le4(xr.len() as u32));
    assert(b.subrange(0, 4) =~= le4(yr.len() as u32));
    lemma_le4_injective(xr.len() as u32, yr.len() as u32);
    assert(b.subrange(4, b.len() as int) =~= rows_tail(xr, 0) + zx);
    assert(b.subrange(4, b.len() as int) =~= rows_tail(yr, 0) + zy);
    lemma_rows_tail_injective(xr, yr, 0, zx, zy);
    assert(zx.subrange(0, 32) =~= x.r1.z_a@ && zy.subrange(0, 32) =~= y.r1.z_a@);
    assert(zx.subrange(32, 64) =~= x.r1.z_c@ && zy.subrange(32, 64) =~= y.r1.z_c@);
    assert(zx.subrange(64, 96) =~= x.z@ && zy.subrange(64, 96) =~= y.z@);
    assert(x.r1.z_a.bytes =~= y.r1.z_a.bytes);
    assert(x.r1.z_c.bytes =~= y.r1.z_c.bytes);
    assert(x.z.bytes =~= y.z.bytes);
}

/// A membership proof decoded from what `to_bytes` wrote has the same fields, so it
/// verifies exactly when the original does.
pub proof fn lemma_membership_round_trip(
    gens: OooNProofGenerators,
    v: MembershipProofVerifier,
    im: MembershipProofInitialMessage,
    fr: MembershipProofFinalResponse,
    im2: MembershipProofInitialMessage,
    fr2: MembershipProofFinalResponse,
)
    requires
        im.encodable() && im2.encodable() && im2.spec_bytes() == im.spec_bytes(),
        fr.encodable() && fr2.encodable() && fr2.spec_bytes() == fr.spec_bytes(),
    ensures
        membership_proof_verdict(gens, v, im2, fr2) == membership_proof_verdict(gens, v, im, fr),
{
    lemma_initial_message_encoding_injective(im, im2);
    lemma_final_response_encoding_injective(fr, fr2);
    let a = fr.r1.f_elements@;
    let b = fr2.r1.f_elements@;
    assert(matrix_view(a) =~= matrix_view(b));
    assert(membership_entries(im) =~= membership_entries(im2));
    assert(r1_shapes_ok(gens, a, im.n as nat) == r1_shapes_ok(gens, b, im.n as nat)) by {
        if r1_shapes_ok(gens, a, im.n as nat) {
            assert forall|j: int| 0 <= j < b.len() implies (#[trigger] b[j])@.len() == (im.n - 1) as nat
                && forall|i: int| 0 <= i < (im.n - 1) as nat ==> (#[trigger] b[j]@[i]).wf() by {
                assert(a[j]@ == b[j]@);
            }
        }
        if r1_shapes_ok(gens, b, im.n as nat) {
            assert forall|j: int| 0 <= j < a.len() implies (#[trigger] a[j])@.len() == (im.n - 1) as nat
                && forall|i: int| 0 <= i < (im.n - 1) as nat ==> (#[trigger] a[j]@[i]).wf() by {
                assert(a[j]@ == b[j]@);
            }
        }
    }
}

} // verus!
