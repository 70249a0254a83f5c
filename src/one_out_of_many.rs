//! One-out-of-many proofs: commitments to matrices of scalars, and the proof that a
//! committed matrix has one `1` per row and zeros elsewhere, opened at a challenge.

use vstd::prelude::*;
use crate::transcript::random_scalar;
use crate::group::{
    point_add_of, point_mul_of, scalar_add_of, scalar_mul_of, scalar_sub_of, u32_scalar_bytes,
    PedersenBases, Point, Scalar,
};

verus! {

/// The bases of one-out-of-many proofs: Pedersen bases, and one base per matrix entry.
pub struct OooNProofGenerators {
    pub com_gens: PedersenBases,
    pub h_rows: Vec<Vec<Point>>,
}

/// A matrix of scalars as the encodings of its rows' entries.
pub open spec fn matrix_view(v: Seq<Vec<Scalar>>) -> Seq<Seq<Seq<u8>>> {
    Seq::new(v.len(), |j: int| Seq::new(v[j]@.len(), |i: int| v[j]@[i]@))
}

/// Every row has `n` entries and every entry is canonical.
pub open spec fn matrix_wf(v: Seq<Vec<Scalar>>, n: nat) -> bool {
    forall|j: int| 0 <= j < v.len() ==> (#[trigger] v[j])@.len() == n
        && forall|i: int| 0 <= i < n ==> (#[trigger] v[j]@[i]).wf()
}

impl OooNProofGenerators {
    pub open spec fn wf(&self) -> bool {
        &&& self.com_gens.wf()
        &&& forall|j: int| 0 <= j < self.h_rows@.len() ==> forall|i: int| 0 <= i < (#[trigger] self.h_rows@[j])@.len() ==> (#[trigger] self.h_rows@[j]@[i]).wf()
    }

    /// The bases for matrices of `m` rows and `n` columns, in row-major order from
    /// bulletproofs' generator chain.
    pub fn new(m: usize, n: usize, com_gens: &PedersenBases) -> (r: OooNProofGenerators)
        requires
            com_gens.wf(),
            m * n <= usize::MAX,
        ensures
            r.wf(),
            r.com_gens == *com_gens,
            r.h_rows@.len() == m,
            forall|j: int| 0 <= j < m ==> (#[trigger] r.h_rows@[j])@.len() == n,
    {
        let flat = crate::group::bulletproof_generators(m * n);
        let mut rows: Vec<Vec<Point>> = Vec::new();
        let mut t: usize = 0;
        let mut j: usize = 0;
        while j < m
            invariant
                j <= m,
                t == j * n,
                m * n <= usize::MAX,
                flat@.len() == m * n,
                forall|k: int| 0 <= k < flat@.len() ==> (#[trigger] flat@[k]).wf(),
                rows@.len() == j,
                forall|a: int| 0 <= a < j ==> (#[trigger] rows@[a])@.len() == n,
                forall|a: int| 0 <= a < rows@.len() ==> forall|i: int| 0 <= i < (#[trigger] rows@[a])@.len() ==> (#[trigger] rows@[a]@[i]).wf(),
            decreases m - j,
        {
            assert((j + 1) * n <= m * n) by (nonlinear_arith)
                requires j < m;
            assert((j + 1) * n == j * n + n) by (nonlinear_arith);
            let mut row: Vec<Point> = Vec::new();
            let mut i: usize = 0;
            while i < n
                invariant
                    i <= n,
                    t == j * n + i,
                    j * n + n <= m * n,
                    m * n <= usize::MAX,
                    flat@.len() == m * n,
                    forall|k: int| 0 <= k < flat@.len() ==> (#[trigger] flat@[k]).wf(),
                    row@.len() == i,
                    forall|k: int| 0 <= k < i ==> (#[trigger] row@[k]).wf(),
                decreases n - i,
            {
                row.push(flat[t]);
                t = t + 1;
                i = i + 1;
            }
            rows.push(row);
            j = j + 1;
        }
        OooNProofGenerators { com_gens: *com_gens, h_rows: rows }
    }
}

/// `acc` plus the first `i` entries of a row, each times its base, in order.
pub open spec fn row_fold(acc: Seq<u8>, h: Seq<Point>, v: Seq<Seq<u8>>, i: nat) -> Seq<u8>
    decreases i,
{
    if i == 0 {
        acc
    } else {
        point_add_of(row_fold(acc, h, v, (i - 1) as nat), point_mul_of(v[i - 1], h[i - 1]@))
    }
}

/// The commitment `r·H + Σ v[j][i]·h[j][i]` over the first `k` rows, row by row.
pub open spec fn matrix_commit(gens: OooNProofGenerators, v: Seq<Seq<Seq<u8>>>, r: Seq<u8>, k: nat, n: nat) -> Seq<u8>
    decreases k,
{
    if k == 0 {
        point_mul_of(r, gens.com_gens.b_blinding@)
    } else {
        row_fold(matrix_commit(gens, v, r, (k - 1) as nat, n), gens.h_rows@[k - 1]@, v[k - 1], n)
    }
}

/// Commits to an `m`×`n` matrix.
pub fn commit_matrix(gens: &OooNProofGenerators, v: &Vec<Vec<Scalar>>, r: &Scalar, n: usize) -> (c: Point)
    requires
        gens.wf(),
        r.wf(),
        v@.len() <= gens.h_rows@.len(),
        matrix_wf(v@, n as nat),
        forall|j: int| 0 <= j < v@.len() ==> (#[trigger] gens.h_rows@[j])@.len() == n,
    ensures
        c.wf(),
        c@ == matrix_commit(*gens, matrix_view(v@), r@, v@.len() as nat, n as nat),
{
    let mut acc = gens.com_gens.b_blinding.mul(r);
    let mut j: usize = 0;
    while j < v.len()
        invariant
            gens.wf(),
            j <= v@.len() <= gens.h_rows@.len(),
            matrix_wf(v@, n as nat),
            forall|a: int| 0 <= a < v@.len() ==> (#[trigger] gens.h_rows@[a])@.len() == n,
            acc.wf(),
            acc@ == matrix_commit(*gens, matrix_view(v@), r@, j as nat, n as nat),
        decreases v@.len() - j,
    {
        let ghost start = acc@;
        let mut i: usize = 0;
        while i < n
            invariant
                gens.wf(),
                j < v@.len() <= gens.h_rows@.len(),
                i <= n,
                matrix_wf(v@, n as nat),
                gens.h_rows@[j as int]@.len() == n,
                acc.wf(),
                acc@ == row_fold(start, gens.h_rows@[j as int]@, matrix_view(v@)[j as int], i as nat),
            decreases n - i,
        {
            let term = gens.h_rows[j][i].mul(&v[j][i]);
            acc = acc.add(&term);
            i = i + 1;
        }
        j = j + 1;
    }
    acc
}

/// The first message of the bit-matrix proof.
#[derive(Clone, Copy, Debug)]
pub struct R1ProofInitialMessage {
    pub a: Point,
    pub b: Point,
    pub c: Point,
    pub d: Point,
}

/// The response of the bit-matrix proof: the opened entries of each row but the first, and
/// two blinding responses.
#[derive(Clone, Debug)]
pub struct R1ProofFinalResponse {
    pub f_elements: Vec<Vec<Scalar>>,
    pub z_a: Scalar,
    pub z_c: Scalar,
}

/// `x` minus the first `k` entries of a row, in order.
pub open spec fn row_head(x: Seq<u8>, row: Seq<Seq<u8>>, k: nat) -> Seq<u8>
    decreases k,
{
    if k == 0 {
        x
    } else {
        scalar_sub_of(row_head(x, row, (k - 1) as nat), row[k - 1])
    }
}

/// The full opened matrix: each row starts with `x` minus the row's given entries.
pub open spec fn full_f(x: Seq<u8>, f: Seq<Seq<Seq<u8>>>) -> Seq<Seq<Seq<u8>>> {
    Seq::new(f.len(), |j: int| seq![row_head(x, f[j], f[j].len())] + f[j])
}

/// The matrix of `f·(x − f)` over the full opened matrix.
pub open spec fn f_times_x_minus_f(x: Seq<u8>, g: Seq<Seq<Seq<u8>>>) -> Seq<Seq<Seq<u8>>> {
    Seq::new(g.len(), |j: int| Seq::new(g[j].len(), |i: int| scalar_mul_of(g[j][i], scalar_sub_of(x, g[j][i]))))
}

/// The first check: `x·B + A == Com(f; z_A)`.
pub open spec fn r1_check1(gens: OooNProofGenerators, x: Seq<u8>, m: R1ProofInitialMessage, f: Seq<Seq<Seq<u8>>>, z_a: Seq<u8>, n: nat) -> bool {
    point_add_of(point_mul_of(x, m.b@), m.a@) == matrix_commit(gens, full_f(x, f), z_a, f.len(), n)
}

/// The second check: `x·C + D == Com(f·(x − f); z_C)`.
pub open spec fn r1_check2(gens: OooNProofGenerators, x: Seq<u8>, m: R1ProofInitialMessage, f: Seq<Seq<Seq<u8>>>, z_c: Seq<u8>, n: nat) -> bool {
    point_add_of(point_mul_of(x, m.c@), m.d@) == matrix_commit(gens, f_times_x_minus_f(x, full_f(x, f)), z_c, f.len(), n)
}

/// The full opened matrix, computed.
pub fn expand_f(x: &Scalar, f: &Vec<Vec<Scalar>>, n: usize) -> (r: Vec<Vec<Scalar>>)
    requires
        x.wf(),
        n >= 1,
        matrix_wf(f@, (n - 1) as nat),
    ensures
        r@.len() == f@.len(),
        matrix_wf(r@, n as nat),
        matrix_view(r@) == full_f(x@, matrix_view(f@)),
{
    let mut r: Vec<Vec<Scalar>> = Vec::new();
    let mut j: usize = 0;
    while j < f.len()
        invariant
            x.wf(),
            n >= 1,
            j <= f@.len(),
            matrix_wf(f@, (n - 1) as nat),
            r@.len() == j,
            matrix_wf(r@, n as nat),
            forall|a: int| 0 <= a < j ==> matrix_view(r@)[a] == full_f(x@, matrix_view(f@))[a],
        decreases f@.len() - j,
    {
        let ghost fr = matrix_view(f@)[j as int];
        let mut head = *x;
        let mut i: usize = 0;
        while i < n - 1
            invariant
                x.wf(),
                n >= 1,
                j < f@.len(),
                i <= n - 1,
                matrix_wf(f@, (n - 1) as nat),
                fr == matrix_view(f@)[j as int],
                head.wf(),
                head@ == row_head(x@, fr, i as nat),
            decreases n - 1 - i,
        {
            head = head.sub(&f[j][i]);
            i = i + 1;
        }
        let mut row: Vec<Scalar> = vec![head];
        let mut i: usize = 0;
        while i < n - 1
            invariant
                n >= 1,
                j < f@.len(),
                i <= n - 1,
                matrix_wf(f@, (n - 1) as nat),
                head.wf(),
                row@.len() == i + 1,
                row@[0] == head,
                forall|k: int| 1 <= k <= i ==> row@[k] == f@[j as int]@[k - 1],
            decreases n - 1 - i,
        {
            row.push(f[j][i]);
            i = i + 1;
        }
        proof {
            assert(fr.len() == n - 1);
            assert(Seq::new(row@.len(), |i: int| row@[i]@) =~= seq![row_head(x@, fr, fr.len())] + fr);
            assert forall|k: int| 0 <= k < n implies (#[trigger] row@[k]).wf() by {
                if k >= 1 {
                    assert(f@[j as int]@[k - 1].wf());
                }
            }
        }
        let ghost r_old = r@;
        r.push(row);
        proof {
            assert(r@[j as int] == row);
            assert(matrix_view(r@)[j as int] =~= full_f(x@, matrix_view(f@))[j as int]);
            assert forall|a: int| 0 <= a <= j implies matrix_view(r@)[a] == full_f(x@, matrix_view(f@))[a] by {
                if a < j {
                    assert(r@[a] == r_old[a]);
                    assert(matrix_view(r@)[a] =~= matrix_view(r_old)[a]);
                }
            }
        }
        j = j + 1;
    }
    assert(matrix_view(r@) =~= full_f(x@, matrix_view(f@)));
    r
}

/// The matrix `f·(x − f)`, computed.
pub fn times_x_minus(x: &Scalar, f: &Vec<Vec<Scalar>>, n: usize) -> (r: Vec<Vec<Scalar>>)
    requires
        x.wf(),
        matrix_wf(f@, n as nat),
    ensures
        r@.len() == f@.len(),
        matrix_wf(r@, n as nat),
        matrix_view(r@) == f_times_x_minus_f(x@, matrix_view(f@)),
{
    let mut r: Vec<Vec<Scalar>> = Vec::new();
    let mut j: usize = 0;
    while j < f.len()
        invariant
            x.wf(),
            j <= f@.len(),
            matrix_wf(f@, n as nat),
            r@.len() == j,
            matrix_wf(r@, n as nat),
            forall|a: int| 0 <= a < j ==> matrix_view(r@)[a] == f_times_x_minus_f(x@, matrix_view(f@))[a],
        decreases f@.len() - j,
    {
        let mut row: Vec<Scalar> = Vec::new();
        let mut i: usize = 0;
        while i < n
            invariant
                x.wf(),
                j < f@.len(),
                i <= n,
                matrix_wf(f@, n as nat),
                row@.len() == i,
                forall|k: int| 0 <= k < i ==> (#[trigger] row@[k]).wf()
                    && row@[k]@ == scalar_mul_of(f@[j as int]@[k]@, scalar_sub_of(x@, f@[j as int]@[k]@)),
            decreases n - i,
        {
            let v = f[j][i];
            row.push(v.mul(&x.sub(&v)));
            i = i + 1;
        }
        let ghost r_old = r@;
        r.push(row);
        proof {
            assert(matrix_view(r@)[j as int] =~= f_times_x_minus_f(x@, matrix_view(f@))[j as int]);
            assert forall|a: int| 0 <= a <= j implies matrix_view(r@)[a] == f_times_x_minus_f(x@, matrix_view(f@))[a] by {
                if a < j {
                    assert(r@[a] == r_old[a]);
                    assert(matrix_view(r@)[a] =~= matrix_view(r_old)[a]);
                }
            }
        }
        j = j + 1;
    }
    assert(matrix_view(r@) =~= f_times_x_minus_f(x@, matrix_view(f@)));
    r
}

/// The bit-matrix proof's shapes fit: `n ≥ 2` columns, `f` has one row per base row and
/// `n − 1` canonical entries in each.
pub open spec fn r1_shapes_ok(gens: OooNProofGenerators, f: Seq<Vec<Scalar>>, n: nat) -> bool {
    &&& n >= 2
    &&& f.len() == gens.h_rows@.len()
    &&& matrix_wf(f, (n - 1) as nat)
    &&& forall|j: int| 0 <= j < gens.h_rows@.len() ==> (#[trigger] gens.h_rows@[j])@.len() == n
}

/// Checks the bit-matrix proof at the challenge `x`.
pub fn r1_verify(gens: &OooNProofGenerators, x: &Scalar, m: &R1ProofInitialMessage, fr: &R1ProofFinalResponse, n: usize) -> (r: bool)
    requires
        gens.wf(),
        x.wf(),
        fr.z_a.wf(),
        fr.z_c.wf(),
        r1_shapes_ok(*gens, fr.f_elements@, n as nat),
        m.a.wf() && m.b.wf() && m.c.wf() && m.d.wf(),
    ensures
        r <==> r1_check1(*gens, x@, *m, matrix_view(fr.f_elements@), fr.z_a@, n as nat)
            && r1_check2(*gens, x@, *m, matrix_view(fr.f_elements@), fr.z_c@, n as nat),
{
    let full = expand_f(x, &fr.f_elements, n);
    let lhs1 = m.b.mul(x).add(&m.a);
    let rhs1 = commit_matrix(gens, &full, &fr.z_a, n);
    assert(matrix_view(fr.f_elements@).len() == fr.f_elements@.len());
    if !lhs1.equals(&rhs1) {
        return false;
    }
    let g = times_x_minus(x, &full, n);
    let lhs2 = m.c.mul(x).add(&m.d);
    let rhs2 = commit_matrix(gens, &g, &fr.z_c, n);
    lhs2.equals(&rhs2)
}

/// Adding a row of `n` canonical entries keeps a matrix well formed.
pub proof fn lemma_push_row_wf(v: Seq<Vec<Scalar>>, row: Vec<Scalar>, n: nat)
    requires
        matrix_wf(v, n),
        row@.len() == n,
        forall|q: int| 0 <= q < n ==> (#[trigger] row@[q]).wf(),
    ensures
        matrix_wf(v.push(row), n),
{
    assert forall|j: int| 0 <= j < v.push(row).len() implies (#[trigger] v.push(row)[j])@.len() == n
        && forall|i: int| 0 <= i < n ==> (#[trigger] v.push(row)[j]@[i]).wf() by {
        if j < v.len() {
            assert(v.push(row)[j] == v[j]);
        }
    }
}

/// The bit-matrix prover after its first round.
pub struct R1Prover {
    pub a_values: Vec<Vec<Scalar>>,
    pub b_matrix: Vec<Vec<Scalar>>,
    pub r_a: Scalar,
    pub r_b: Scalar,
    pub r_c: Scalar,
    pub r_d: Scalar,
    pub n: usize,
}

impl R1Prover {
    pub open spec fn wf(&self) -> bool {
        &&& self.n >= 2
        &&& self.a_values@.len() == self.b_matrix@.len()
        &&& matrix_wf(self.a_values@, self.n as nat)
        &&& matrix_wf(self.b_matrix@, self.n as nat)
        &&& self.r_a.wf() && self.r_b.wf() && self.r_c.wf() && self.r_d.wf()
    }

    /// The opened entries `f = b·x + a` of each row but the first, and the blinding
    /// responses `z_A = r_B·x + r_A`, `z_C = r_C·x + r_D`.
    pub fn apply_challenge(&self, x: &Scalar) -> (r: R1ProofFinalResponse)
        requires
            self.wf(),
            x.wf(),
        ensures
            r.f_elements@.len() == self.b_matrix@.len(),
            matrix_wf(r.f_elements@, (self.n - 1) as nat),
            r.z_a.wf() && r.z_c.wf(),
            r.z_a@ == scalar_add_of(scalar_mul_of(self.r_b@, x@), self.r_a@),
            r.z_c@ == scalar_add_of(scalar_mul_of(self.r_c@, x@), self.r_d@),
    {
        let mut f: Vec<Vec<Scalar>> = Vec::new();
        let mut j: usize = 0;
        while j < self.b_matrix.len()
            invariant
                self.wf(),
                x.wf(),
                j <= self.b_matrix@.len(),
                f@.len() == j,
                matrix_wf(f@, (self.n - 1) as nat),
            decreases self.b_matrix@.len() - j,
        {
            let mut row: Vec<Scalar> = Vec::new();
            let mut i: usize = 1;
            while i < self.n
                invariant
                    self.wf(),
                    x.wf(),
                    j < self.b_matrix@.len(),
                    1 <= i <= self.n,
                    row@.len() == i - 1,
                    forall|k: int| 0 <= k < row@.len() ==> (#[trigger] row@[k]).wf(),
                decreases self.n - i,
            {
                row.push(self.b_matrix[j][i].mul(x).add(&self.a_values[j][i]));
                i = i + 1;
            }
            f.push(row);
            j = j + 1;
        }
        R1ProofFinalResponse {
            f_elements: f,
            z_a: self.r_b.mul(x).add(&self.r_a),
            z_c: self.r_c.mul(x).add(&self.r_d),
        }
    }
}

/// Commits to the bit matrix `b` under `r_b`, and to the random matrices that the
/// responses open it with.
pub fn r1_generate(gens: &OooNProofGenerators, b_matrix: Vec<Vec<Scalar>>, r_b: Scalar, n: usize, rng: &mut merlin::TranscriptRng) -> (r: (R1Prover, R1ProofInitialMessage))
    requires
        gens.wf(),
        n >= 2,
        r_b.wf(),
        b_matrix@.len() == gens.h_rows@.len(),
        matrix_wf(b_matrix@, n as nat),
        forall|j: int| 0 <= j < gens.h_rows@.len() ==> (#[trigger] gens.h_rows@[j])@.len() == n,
    ensures
        r.0.wf(),
        r.0.n == n,
        r.0.b_matrix == b_matrix,
        r.0.r_b == r_b,
        r.1.a.wf() && r.1.b.wf() && r.1.c.wf() && r.1.d.wf(),
        r.1.b@ == matrix_commit(*gens, matrix_view(b_matrix@), r_b@, b_matrix@.len() as nat, n as nat),
{
    let one = Scalar::one();
    let zero = Scalar::zero();
    let mut a: Vec<Vec<Scalar>> = Vec::new();
    let mut c: Vec<Vec<Scalar>> = Vec::new();
    let mut d: Vec<Vec<Scalar>> = Vec::new();
    let mut j: usize = 0;
    while j < b_matrix.len()
        invariant
            n >= 2,
            one.wf() && zero.wf(),
            j <= b_matrix@.len(),
            matrix_wf(b_matrix@, n as nat),
            a@.len() == j && c@.len() == j && d@.len() == j,
            matrix_wf(a@, n as nat) && matrix_wf(c@, n as nat) && matrix_wf(d@, n as nat),
        decreases b_matrix@.len() - j,
    {
        let mut tail: Vec<Scalar> = Vec::new();
        let mut sum = Scalar::zero();
        let mut i: usize = 1;
        while i < n
            invariant
                1 <= i <= n,
                sum.wf(),
                tail@.len() == i - 1,
                forall|k: int| 0 <= k < tail@.len() ==> (#[trigger] tail@[k]).wf(),
            decreases n - i,
        {
            let v = random_scalar(rng);
            sum = sum.add(&v);
            tail.push(v);
            i = i + 1;
        }
        let mut a_row: Vec<Scalar> = vec![zero.sub(&sum)];
        let mut k: usize = 0;
        while k < tail.len()
            invariant
                k <= tail@.len(),
                tail@.len() == n - 1,
                forall|q: int| 0 <= q < tail@.len() ==> (#[trigger] tail@[q]).wf(),
                a_row@.len() == k + 1,
                forall|q: int| 0 <= q < a_row@.len() ==> (#[trigger] a_row@[q]).wf(),
            decreases tail@.len() - k,
        {
            a_row.push(tail[k]);
            k = k + 1;
        }
        let mut c_row: Vec<Scalar> = Vec::new();
        let mut d_row: Vec<Scalar> = Vec::new();
        let mut i: usize = 0;
        while i < n
            invariant
                one.wf() && zero.wf(),
                j < b_matrix@.len(),
                matrix_wf(b_matrix@, n as nat),
                a_row@.len() == n,
                forall|q: int| 0 <= q < a_row@.len() ==> (#[trigger] a_row@[q]).wf(),
                i <= n,
                c_row@.len() == i && d_row@.len() == i,
                forall|q: int| 0 <= q < i ==> (#[trigger] c_row@[q]).wf(),
                forall|q: int| 0 <= q < i ==> (#[trigger] d_row@[q]).wf(),
            decreases n - i,
        {
            let av = a_row[i];
            let bv = b_matrix[j][i];
            c_row.push(av.mul(&one.sub(&bv.add(&bv))));
            d_row.push(zero.sub(&av.mul(&av)));
            i = i + 1;
        }
        proof {
            lemma_push_row_wf(a@, a_row, n as nat);
            lemma_push_row_wf(c@, c_row, n as nat);
            lemma_push_row_wf(d@, d_row, n as nat);
        }
        a.push(a_row);
        c.push(c_row);
        d.push(d_row);
        j = j + 1;
    }
    let r_a = random_scalar(rng);
    let r_c = random_scalar(rng);
    let r_d = random_scalar(rng);
    let ca = commit_matrix(gens, &a, &r_a, n);
    let cb = commit_matrix(gens, &b_matrix, &r_b, n);
    let cc = commit_matrix(gens, &c, &r_c, n);
    let cd = commit_matrix(gens, &d, &r_d, n);
    (
        R1Prover { a_values: a, b_matrix, r_a, r_b, r_c, r_d, n },
        R1ProofInitialMessage { a: ca, b: cb, c: cc, d: cd },
    )
}

/// The bit matrix of an index: row `k` has a one at the `k`-th base-`n` digit of `index`.
pub fn convert_to_matrix_rep(index: usize, n: usize, m: usize) -> (r: Vec<Vec<Scalar>>)
    requires
        n > 1,
    ensures
        r@.len() == m,
        matrix_wf(r@, n as nat),
        forall|k: int, i: int| 0 <= k < m && 0 <= i < n ==> (#[trigger] r@[k]@[i])@ == (if i == crate::membership_proof::digits(index as nat, n as nat, m as nat)[k] {
            u32_scalar_bytes(1)
        } else {
            u32_scalar_bytes(0)
        }),
{
    let digits = crate::membership_proof::convert_to_base(index, n, m);
    let mut r: Vec<Vec<Scalar>> = Vec::new();
    let mut k: usize = 0;
    while k < m
        invariant
            n > 1,
            k <= m,
            digits@.len() == m,
            forall|q: int| 0 <= q < m ==> (#[trigger] digits@[q]) as nat == crate::membership_proof::digits(index as nat, n as nat, m as nat)[q],
            r@.len() == k,
            matrix_wf(r@, n as nat),
            forall|q: int, i: int| 0 <= q < k && 0 <= i < n ==> (#[trigger] r@[q]@[i])@ == (if i == crate::membership_proof::digits(index as nat, n as nat, m as nat)[q] {
                u32_scalar_bytes(1)
            } else {
                u32_scalar_bytes(0)
            }),
        decreases m - k,
    {
        let mut row: Vec<Scalar> = Vec::new();
        let mut i: usize = 0;
        while i < n
            invariant
                k < m,
                digits@.len() == m,
                i <= n,
                row@.len() == i,
                forall|q: int| 0 <= q < i ==> (#[trigger] row@[q]).wf() && row@[q]@ == (if q == digits@[k as int] as int {
                    u32_scalar_bytes(1)
                } else {
                    u32_scalar_bytes(0)
                }),
            decreases n - i,
        {
            if i == digits[k] {
                row.push(Scalar::one());
            } else {
                row.push(Scalar::zero());
            }
            i = i + 1;
        }
        let ghost r_old = r@;
        r.push(row);
        proof {
            assert forall|q: int, i: int| 0 <= q <= k && 0 <= i < n implies (#[trigger] r@[q]@[i])@ == (if i == crate::membership_proof::digits(index as nat, n as nat, m as nat)[q] {
                u32_scalar_bytes(1)
            } else {
                u32_scalar_bytes(0)
            }) by {
                if q < k {
                    assert(r@[q] == r_old[q]);
                }
            }
        }
        k = k + 1;
    }
    r
}

} // verus!
