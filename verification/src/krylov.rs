//! Incremental QR decomposition with an orthogonalizer of the caller's choice.
use crate::dense::{lemma_storable_within, storable, Matrix, Vector};
use crate::scalar::ZERO;
use vstd::prelude::*;

verus! {

/// An accumulator of an orthonormal basis, one vector at a time.
///
/// The arithmetic is the implementation's own. This trait fixes how the
/// basis evolves: a basis is a sequence of columns of the ambient dimension,
/// never more of them than that dimension; it grows by one column when
/// `append` accepts a vector and never otherwise; and what an implementation
/// answers depends on its basis and on the input alone.
///
/// The model functions (`dimension`, `basis`, `project`, `extension`,
/// `direction`) are left unspecified here. A verified implementation defines
/// them; one written in ordinary Rust need not mention them.
pub trait Orthogonalizer {
    /// The dimension of the vectors that this orthogonalizer takes.
    open spec fn dimension(&self) -> nat {
        arbitrary()
    }

    /// The basis gathered so far, oldest column first.
    open spec fn basis(&self) -> Seq<Seq<u64>> {
        arbitrary()
    }

    /// What `orthogonalize` makes of `a` against `basis`: the coefficients,
    /// and the part of `a` that is orthogonal to the basis.
    open spec fn project(basis: Seq<Seq<u64>>, a: Seq<u64>) -> (Seq<u64>, Seq<u64>) {
        arbitrary()
    }

    /// What `append` answers for `a` against `basis`: the coefficients of an
    /// accepted vector, or those of a rejected one.
    open spec fn extension(basis: Seq<Seq<u64>>, a: Seq<u64>, rtol: u64) -> Result<
        Seq<u64>,
        Seq<u64>,
    > {
        arbitrary()
    }

    /// The column that `append` adds to `basis` when it accepts `a`.
    open spec fn direction(basis: Seq<Seq<u64>>, a: Seq<u64>) -> Seq<u64> {
        arbitrary()
    }

    /// Dimension of the input vectors.
    fn dim(&self) -> (d: usize)
        ensures
            d == self.dimension(),
    ;

    /// Number of basis vectors held.
    fn len(&self) -> (n: usize)
        ensures
            n == self.basis().len(),
    ;

    /// Whether the basis spans the entire space.
    fn is_full(&self) -> (b: bool)
        ensures
            b == (self.basis().len() == self.dimension()),
    {
        self.len() == self.dim()
    }

    /// Whether the basis holds no vector yet.
    fn is_empty(&self) -> (b: bool)
        ensures
            b == (self.basis().len() == 0),
    {
        self.len() == 0
    }

    /// Orthogonalizes `a` against the current basis, in place, and returns
    /// its coefficients, one for each basis vector. The basis stays.
    fn orthogonalize(&self, a: &mut Vector) -> (c: Vector)
        requires
            well_formed(self.dimension(), self.basis()),
            old(a)@.len() == self.dimension(),
        ensures
            c@ == Self::project(self.basis(), old(a)@).0,
            final(a)@ == Self::project(self.basis(), old(a)@).1,
            c@.len() == self.basis().len(),
            final(a)@.len() == self.dimension(),
    ;

    /// Adds `a` to the basis unless its residual falls below the relative
    /// tolerance `rtol`.
    ///
    /// Either way the answer holds one coefficient for each basis vector
    /// that was there, and the residual norm last. `Ok` means that the basis
    /// has grown by the normalized residual, `Err` that it is unchanged.
    fn append(&mut self, a: Vector, rtol: u64) -> (r: Result<Vector, Vector>)
        requires
            well_formed(old(self).dimension(), old(self).basis()),
            a@.len() == old(self).dimension(),
        ensures
            final(self).dimension() == old(self).dimension(),
            final(self).basis() == grown(
                old(self).basis(),
                Self::extension(old(self).basis(), a@, rtol),
                Self::direction(old(self).basis(), a@),
            ),
            well_formed(final(self).dimension(), final(self).basis()),
            answer(r) == Self::extension(old(self).basis(), a@, rtol),
            coefficients(answer(r)).len() == old(self).basis().len() + 1,
    ;

    /// The basis as a matrix, one column for each basis vector.
    fn get_q(&self) -> (q: Matrix)
        requires
            well_formed(self.dimension(), self.basis()),
            storable(self.dimension(), self.basis().len()),
        ensures
            q.nrows() == self.dimension(),
            q.columns() == self.basis(),
    ;
}

/// What a basis of the ambient dimension `dimension` must satisfy: columns
/// of that length, and no more of them than the space has dimensions.
pub open spec fn well_formed(dimension: nat, basis: Seq<Seq<u64>>) -> bool {
    &&& basis.len() <= dimension
    &&& forall|j: int| 0 <= j < basis.len() ==> (#[trigger] basis[j]).len() == dimension
}

/// The basis after an `append` with the given outcome: one column more when
/// the vector was accepted, the same basis when it was not.
pub open spec fn grown(
    basis: Seq<Seq<u64>>,
    outcome: Result<Seq<u64>, Seq<u64>>,
    direction: Seq<u64>,
) -> Seq<Seq<u64>> {
    if outcome is Ok {
        basis.push(direction)
    } else {
        basis
    }
}

/// The elements of what `append` returned.
pub open spec fn answer(r: Result<Vector, Vector>) -> Result<Seq<u64>, Seq<u64>> {
    match r {
        Ok(c) => Ok(c@),
        Err(c) => Err(c@),
    }
}

/// The coefficient vector that an answer of `append` carries.
pub open spec fn coefficients(outcome: Result<Seq<u64>, Seq<u64>>) -> Seq<u64> {
    match outcome {
        Ok(c) => c,
        Err(c) => c,
    }
}

/// What the driver does with a vector that the basis already spans: one
/// whose residual fell below the tolerance, so that `append` rejected it.
#[derive(Clone, Copy, Debug, PartialEq, Eq, Structural)]
pub enum Strategy {
    /// Stop at the first dependent vector.
    Terminate,
    /// Leave the dependent vector out and go on.
    Skip,
    /// Record the coefficients of the dependent vector without adding it to
    /// the basis, so that R gets a column for every vector.
    Full,
}

impl Strategy {
    /// Whether the coefficients of a vector are recorded as a column of R.
    pub open spec fn records(self, accepted: bool) -> bool {
        accepted || self == Strategy::Full
    }

    /// Whether the driver goes on to the next vector.
    pub open spec fn continues(self, accepted: bool) -> bool {
        accepted || self != Strategy::Terminate
    }

    /// Decides on one answer of `append`: the coefficients to record, if
    /// any, and whether to go on.
    pub fn dispose(self, outcome: Result<Vector, Vector>) -> (step: (Option<Vector>, bool))
        ensures
            (step.0 is Some) == self.records(outcome is Ok),
            step.0 matches Some(c) ==> c@ == coefficients(answer(outcome)),
            step.1 == self.continues(outcome is Ok),
    {
        match outcome {
            Ok(c) => (Some(c), true),
            Err(c) => match self {
                Strategy::Terminate => (None, false),
                Strategy::Skip => (None, true),
                Strategy::Full => (Some(c), true),
            },
        }
    }
}

/// The elements of each vector of a sequence.
pub open spec fn contents(vectors: Seq<Vector>) -> Seq<Seq<u64>> {
    Seq::new(vectors.len(), |k: int| vectors[k]@)
}

/// The columns of the triangular factor with `rows` rows: each recorded
/// coefficient vector, cut or filled with zeros to that length.
pub open spec fn triangular(rows: nat, coefs: Seq<Seq<u64>>) -> Seq<Seq<u64>> {
    Seq::new(
        coefs.len(),
        |j: int| Seq::new(rows, |i: int| if i < coefs[j].len() { coefs[j][i] } else { ZERO }),
    )
}

/// Builds the triangular factor from the recorded coefficient vectors.
pub fn assemble(rows: usize, coefs: &Vec<Vector>) -> (r: Matrix)
    requires
        storable(rows as nat, coefs.len() as nat),
    ensures
        r.nrows() == rows,
        r.columns() == triangular(rows as nat, contents(coefs@)),
{
    let cols: usize = coefs.len();
    let mut r = Matrix::zeros(rows, cols);
    for j in 0..cols
        invariant
            cols == coefs.len(),
            r.nrows() == rows,
            r.ncols() == cols,
            forall|i: int, l: int|
                0 <= i < rows && 0 <= l < j ==> r.at(i, l) == triangular(
                    rows as nat,
                    contents(coefs@),
                )[l][i],
            forall|i: int, l: int| 0 <= i < rows && j <= l < cols ==> r.at(i, l) == ZERO,
    {
        let filled: usize = coefs[j].len();
        for i in 0..rows
            invariant
                j < cols,
                cols == coefs.len(),
                filled == coefs[j as int]@.len(),
                r.nrows() == rows,
                r.ncols() == cols,
                forall|k: int, l: int|
                    0 <= k < rows && 0 <= l < j ==> r.at(k, l) == triangular(
                        rows as nat,
                        contents(coefs@),
                    )[l][k],
                forall|k: int|
                    0 <= k < i ==> r.at(k, j as int) == triangular(
                        rows as nat,
                        contents(coefs@),
                    )[j as int][k],
                forall|k: int| i <= k < rows ==> r.at(k, j as int) == ZERO,
                forall|k: int, l: int| 0 <= k < rows && j < l < cols ==> r.at(k, l) == ZERO,
        {
            if i < filled {
                r.set(i, j, coefs[j].get(i));
            }
        }
    }
    assert(r.columns() =~~= triangular(rows as nat, contents(coefs@)));
    r
}

/// The basis after `append` has been given the first `k` vectors in turn,
/// starting from an empty basis.
pub open spec fn basis_after<O: Orthogonalizer>(
    vectors: Seq<Seq<u64>>,
    rtol: u64,
    k: nat,
) -> Seq<Seq<u64>>
    decreases k,
{
    if k == 0 {
        Seq::empty()
    } else {
        let before = basis_after::<O>(vectors, rtol, (k - 1) as nat);
        let a = vectors[k - 1];
        grown(before, O::extension(before, a, rtol), O::direction(before, a))
    }
}

/// What `append` answers for vector `k` once the vectors before it are in.
pub open spec fn outcome_at<O: Orthogonalizer>(
    vectors: Seq<Seq<u64>>,
    rtol: u64,
    k: nat,
) -> Result<Seq<u64>, Seq<u64>> {
    O::extension(basis_after::<O>(vectors, rtol, k), vectors[k as int], rtol)
}

/// The coefficient vectors that the driver records for the first `k`
/// vectors, in order.
pub open spec fn recorded<O: Orthogonalizer>(
    vectors: Seq<Seq<u64>>,
    rtol: u64,
    strategy: Strategy,
    k: nat,
) -> Seq<Seq<u64>>
    decreases k,
{
    if k == 0 {
        Seq::empty()
    } else {
        let before = recorded::<O>(vectors, rtol, strategy, (k - 1) as nat);
        let outcome = outcome_at::<O>(vectors, rtol, (k - 1) as nat);
        if strategy.records(outcome is Ok) {
            before.push(coefficients(outcome))
        } else {
            before
        }
    }
}

/// The index, from `from` on, of the first vector at which the driver stops,
/// or the number of vectors if it stops at none.
pub open spec fn stop<O: Orthogonalizer>(
    vectors: Seq<Seq<u64>>,
    rtol: u64,
    strategy: Strategy,
    from: nat,
) -> nat
    decreases vectors.len() - from,
{
    if from >= vectors.len() {
        vectors.len()
    } else if strategy.continues(outcome_at::<O>(vectors, rtol, from) is Ok) {
        stop::<O>(vectors, rtol, strategy, from + 1)
    } else {
        from
    }
}

/// The number of basis vectors that column `j` of R was taken against.
spec fn below<O: Orthogonalizer>(
    vectors: Seq<Seq<u64>>,
    rtol: u64,
    strategy: Strategy,
    j: int,
) -> nat {
    if strategy == Strategy::Full {
        basis_after::<O>(vectors, rtol, j as nat).len()
    } else {
        j as nat
    }
}

/// Online QR decomposition of `vectors` with the orthogonalizer `ortho`.
///
/// Each vector goes to `append` in turn, until the strategy stops the run.
/// Q is the basis that `ortho` then holds. R has a row for each column of Q
/// and a column for each recorded coefficient vector, with zeros below the
/// last coefficient of each: under `Skip` and `Terminate` it is square and
/// upper triangular, under `Full` it has one column for every vector.
///
/// `ortho` must be empty, and every vector that gets to `append` must have
/// the dimension that `ortho` takes.
pub fn qr<O: Orthogonalizer>(vectors: Vec<Vector>, ortho: O, rtol: u64, strategy: Strategy) -> (qr:
    (Matrix, Matrix))
    requires
        ortho.basis().len() == 0,
        forall|k: int|
            0 <= k < vectors.len() && k <= stop::<O>(contents(vectors@), rtol, strategy, 0)
                ==> (#[trigger] vectors[k])@.len() == ortho.dimension(),
        storable(ortho.dimension(), vectors.len() as nat),
    ensures
        ({
            let all = contents(vectors@);
            let seen = stop::<O>(all, rtol, strategy, 0);
            let basis = basis_after::<O>(all, rtol, seen);
            &&& qr.0.nrows() == ortho.dimension()
            &&& qr.0.columns() == basis
            &&& qr.1.nrows() == basis.len()
            &&& qr.1.columns() == triangular(basis.len(), recorded::<O>(all, rtol, strategy, seen))
        }),
        qr.0.ncols() <= qr.0.nrows(),
        strategy == Strategy::Full ==> qr.1.ncols() == vectors.len(),
        strategy != Strategy::Full ==> qr.1.ncols() == qr.1.nrows(),
        strategy != Strategy::Full ==> forall|i: int, j: int|
            0 <= j < i < qr.1.nrows() ==> qr.1.at(i, j) == ZERO,
        strategy == Strategy::Full ==> forall|i: int, j: int|
            0 <= j < qr.1.ncols() && basis_after::<O>(contents(vectors@), rtol, j as nat).len() < i
                < qr.1.nrows() ==> qr.1.at(i, j) == ZERO,
{
    let ghost input = vectors@;
    let ghost all = contents(vectors@);
    let ghost dimension = ortho.dimension();
    let ghost seen: nat = vectors.len() as nat;
    let mut ortho = ortho;
    let mut coefs: Vec<Vector> = Vec::new();
    assert(ortho.basis() =~= basis_after::<O>(all, rtol, 0));
    assert(contents(coefs@) =~= recorded::<O>(all, rtol, strategy, 0));
    for a in it: vectors
        invariant_except_break
            it.seq() == input,
            all == contents(input),
            forall|i: int|
                0 <= i < input.len() && i <= stop::<O>(all, rtol, strategy, 0)
                    ==> (#[trigger] input[i])@.len() == dimension,
            ortho.dimension() == dimension,
            well_formed(dimension, ortho.basis()),
            ortho.basis() == basis_after::<O>(all, rtol, it.index() as nat),
            contents(coefs@) == recorded::<O>(all, rtol, strategy, it.index() as nat),
            coefs.len() <= it.index(),
            ortho.basis().len() <= it.index(),
            forall|j: int|
                0 <= j < coefs.len() ==> (#[trigger] coefs[j])@.len() == below::<O>(
                    all,
                    rtol,
                    strategy,
                    j,
                ) + 1,
            strategy == Strategy::Full ==> coefs.len() == it.index(),
            strategy != Strategy::Full ==> coefs.len() == ortho.basis().len(),
            stop::<O>(all, rtol, strategy, 0) == stop::<O>(all, rtol, strategy, it.index() as nat),
            seen == input.len(),
        invariant
            input.len() == all.len(),
        ensures
            seen <= all.len(),
            seen == stop::<O>(all, rtol, strategy, 0),
            ortho.dimension() == dimension,
            well_formed(dimension, ortho.basis()),
            ortho.basis() == basis_after::<O>(all, rtol, seen),
            contents(coefs@) == recorded::<O>(all, rtol, strategy, seen),
            coefs.len() <= all.len(),
            ortho.basis().len() <= all.len(),
            forall|j: int|
                0 <= j < coefs.len() ==> (#[trigger] coefs[j])@.len() == below::<O>(
                    all,
                    rtol,
                    strategy,
                    j,
                ) + 1,
    {
        let ghost k = it.index() as nat;
        let ghost before = coefs@;
        assert(a == input[k as int]);
        proof {
            lemma_stop_bounds::<O>(all, rtol, strategy, k);
        }
        let outcome = ortho.append(a, rtol);
        let ghost said = answer(outcome);
        assert(said == outcome_at::<O>(all, rtol, k));
        let (kept, go) = strategy.dispose(outcome);
        if let Some(c) = kept {
            coefs.push(c);
        }
        assert(ortho.basis() == basis_after::<O>(all, rtol, k + 1));
        assert(contents(coefs@) =~= recorded::<O>(all, rtol, strategy, k + 1)) by {
            if strategy.records(said is Ok) {
                assert(contents(coefs@) =~= contents(before).push(coefficients(said)));
            } else {
                assert(coefs@ == before);
            }
        }
        if !go {
            proof {
                seen = k;
                assert(basis_after::<O>(all, rtol, k + 1) == basis_after::<O>(all, rtol, k));
                assert(recorded::<O>(all, rtol, strategy, k + 1) == recorded::<O>(
                    all,
                    rtol,
                    strategy,
                    k,
                ));
            }
            break ;
        }
    }
    let n: usize = ortho.len();
    proof {
        lemma_storable_within(dimension, all.len(), n as nat, coefs.len() as nat);
        if strategy == Strategy::Full {
            lemma_no_early_stop::<O>(all, rtol, strategy, 0);
            lemma_full_records_all::<O>(all, rtol, seen);
        } else {
            lemma_only_accepted_contribute::<O>(all, rtol, strategy, seen);
        }
    }
    let r = assemble(n, &coefs);
    assert(r.ncols() == r.columns().len());
    assert forall|i: int, j: int|
        0 <= j < r.ncols() && below::<O>(all, rtol, strategy, j) < i < r.nrows() implies r.at(i, j)
        == ZERO by {
        assert(r.columns()[j][i] == r.at(i, j));
        assert(contents(coefs@)[j] == coefs[j]@);
    }
    proof {
        lemma_storable_within(dimension, all.len(), dimension, n as nat);
    }
    (ortho.get_q(), r)
}

/// Orthogonalizing is repeatable: `orthogonalize` cannot change the basis,
/// and two calls of it with the same input on the same basis return the same
/// coefficients and leave the same residual.
pub proof fn lemma_orthogonalize_is_repeatable<O: Orthogonalizer>(
    ortho: O,
    a: Seq<u64>,
    first: (Seq<u64>, Seq<u64>),
    second: (Seq<u64>, Seq<u64>),
)
    requires
        first == O::project(ortho.basis(), a),
        second == O::project(ortho.basis(), a),
    ensures
        first.0 == second.0,
        first.1 == second.1,
{
}

/// A full basis cannot grow: if the basis already has as many columns as
/// the space has dimensions, an `append` that leaves a well-formed basis has
/// rejected its vector and left the basis as it was.
pub proof fn lemma_full_basis_cannot_grow(
    dimension: nat,
    basis: Seq<Seq<u64>>,
    outcome: Result<Seq<u64>, Seq<u64>>,
    direction: Seq<u64>,
)
    requires
        basis.len() == dimension,
        well_formed(dimension, grown(basis, outcome, direction)),
    ensures
        outcome is Err,
        grown(basis, outcome, direction) == basis,
{
}

/// The driver never stops before `from` once it got there, and never after
/// the last vector.
pub proof fn lemma_stop_bounds<O: Orthogonalizer>(
    vectors: Seq<Seq<u64>>,
    rtol: u64,
    strategy: Strategy,
    from: nat,
)
    requires
        from <= vectors.len(),
    ensures
        from <= stop::<O>(vectors, rtol, strategy, from) <= vectors.len(),
    decreases vectors.len() - from,
{
    if from < vectors.len() && strategy.continues(outcome_at::<O>(vectors, rtol, from) is Ok) {
        lemma_stop_bounds::<O>(vectors, rtol, strategy, from + 1);
    }
}

/// Under `Terminate` the driver stops at the first rejection: every vector
/// before the stop was accepted and recorded, and the vector at the stop, if
/// there is one, was rejected.
pub proof fn lemma_terminate_stops_at_first_rejection<O: Orthogonalizer>(
    vectors: Seq<Seq<u64>>,
    rtol: u64,
    from: nat,
)
    requires
        from <= vectors.len(),
    ensures
        ({
            let seen = stop::<O>(vectors, rtol, Strategy::Terminate, from);
            &&& forall|k: nat| from <= k < seen ==> (#[trigger] outcome_at::<O>(vectors, rtol, k)) is Ok
            &&& seen < vectors.len() ==> outcome_at::<O>(vectors, rtol, seen) is Err
        }),
    decreases vectors.len() - from,
{
    if from < vectors.len() && outcome_at::<O>(vectors, rtol, from) is Ok {
        lemma_terminate_stops_at_first_rejection::<O>(vectors, rtol, from + 1);
    }
}

/// Under `Skip` and `Full` the driver gets through every vector.
pub proof fn lemma_no_early_stop<O: Orthogonalizer>(
    vectors: Seq<Seq<u64>>,
    rtol: u64,
    strategy: Strategy,
    from: nat,
)
    requires
        strategy != Strategy::Terminate,
    ensures
        stop::<O>(vectors, rtol, strategy, from) == vectors.len(),
    decreases vectors.len() - from,
{
    if from < vectors.len() {
        lemma_no_early_stop::<O>(vectors, rtol, strategy, from + 1);
    }
}

/// Under `Full` every vector gets a column of R, accepted or not.
pub proof fn lemma_full_records_all<O: Orthogonalizer>(vectors: Seq<Seq<u64>>, rtol: u64, k: nat)
    ensures
        recorded::<O>(vectors, rtol, Strategy::Full, k).len() == k,
    decreases k,
{
    if k > 0 {
        lemma_full_records_all::<O>(vectors, rtol, (k - 1) as nat);
    }
}

/// Under `Skip` and `Terminate` only accepted vectors contribute: among the
/// first `k` vectors, as many coefficient vectors are recorded as the basis
/// has gained columns, so that R gets one column for each column of Q.
pub proof fn lemma_only_accepted_contribute<O: Orthogonalizer>(
    vectors: Seq<Seq<u64>>,
    rtol: u64,
    strategy: Strategy,
    k: nat,
)
    requires
        strategy != Strategy::Full,
    ensures
        recorded::<O>(vectors, rtol, strategy, k).len() == basis_after::<O>(vectors, rtol, k).len(),
        recorded::<O>(vectors, rtol, strategy, k).len() <= k,
    decreases k,
{
    if k > 0 {
        lemma_only_accepted_contribute::<O>(vectors, rtol, strategy, (k - 1) as nat);
    }
}

/// What the driver makes of the first `k` vectors depends on those vectors
/// alone: two streams with the same first `k` vectors give the same basis and
/// the same recorded coefficients up to there.
pub proof fn lemma_prefix_decides<O: Orthogonalizer>(
    one: Seq<Seq<u64>>,
    other: Seq<Seq<u64>>,
    rtol: u64,
    strategy: Strategy,
    k: nat,
)
    requires
        k <= one.len(),
        k <= other.len(),
        forall|i: int| 0 <= i < k ==> one[i] == other[i],
    ensures
        basis_after::<O>(one, rtol, k) == basis_after::<O>(other, rtol, k),
        recorded::<O>(one, rtol, strategy, k) == recorded::<O>(other, rtol, strategy, k),
    decreases k,
{
    if k > 0 {
        lemma_prefix_decides::<O>(one, other, rtol, strategy, (k - 1) as nat);
    }
}

/// Under `Terminate` nothing after the first rejected vector matters: a
/// stream that agrees with `one` up to and including the vector at which
/// `one` stops makes the driver stop at the same place, with the same basis
/// and the same recorded coefficients.
pub proof fn lemma_terminate_ignores_the_rest<O: Orthogonalizer>(
    one: Seq<Seq<u64>>,
    other: Seq<Seq<u64>>,
    rtol: u64,
)
    requires
        stop::<O>(one, rtol, Strategy::Terminate, 0) < one.len(),
        stop::<O>(one, rtol, Strategy::Terminate, 0) < other.len(),
        forall|i: int|
            0 <= i <= stop::<O>(one, rtol, Strategy::Terminate, 0) ==> one[i] == other[i],
    ensures
        ({
            let seen = stop::<O>(one, rtol, Strategy::Terminate, 0);
            &&& stop::<O>(other, rtol, Strategy::Terminate, 0) == seen
            &&& basis_after::<O>(other, rtol, seen) == basis_after::<O>(one, rtol, seen)
            &&& recorded::<O>(other, rtol, Strategy::Terminate, seen) == recorded::<O>(
                one,
                rtol,
                Strategy::Terminate,
                seen,
            )
        }),
{
    let seen = stop::<O>(one, rtol, Strategy::Terminate, 0);
    lemma_terminate_stops_at_first_rejection::<O>(one, rtol, 0);
    lemma_prefix_decides::<O>(one, other, rtol, Strategy::Terminate, seen);
    assert forall|k: nat| k <= seen implies outcome_at::<O>(other, rtol, k) == outcome_at::<O>(
        one,
        rtol,
        k,
    ) by {
        lemma_prefix_decides::<O>(one, other, rtol, Strategy::Terminate, k);
    }
    lemma_stop_found::<O>(other, rtol, 0, seen);
}

/// Under `Terminate` the stop is where the first rejection is.
proof fn lemma_stop_found<O: Orthogonalizer>(
    vectors: Seq<Seq<u64>>,
    rtol: u64,
    from: nat,
    at: nat,
)
    requires
        from <= at < vectors.len(),
        forall|k: nat| from <= k < at ==> (#[trigger] outcome_at::<O>(vectors, rtol, k)) is Ok,
        outcome_at::<O>(vectors, rtol, at) is Err,
    ensures
        stop::<O>(vectors, rtol, Strategy::Terminate, from) == at,
    decreases at - from,
{
    if from < at {
        lemma_stop_found::<O>(vectors, rtol, from + 1, at);
    }
}

} // verus!
