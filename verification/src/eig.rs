//! Truncated eigenvalue decomposition: eigenpairs in batches, each batch
//! deflated against those found before it.
//!
//! The block eigensolver works on real numbers and is the caller's. This
//! module decides what it is asked ([`TruncatedEig::once`],
//! [`TruncatedEigIterator::request`]) and what becomes of its answer
//! ([`TruncatedEigIterator::next`]).
use crate::dense::{can_store, storable, Matrix, Vector};
use crate::scalar::{exceeds, greater};
use vstd::prelude::*;

verus! {

/// The precision that a block step is asked for unless told otherwise: 1e-5.
pub const DEFAULT_PRECISION: u64 = 0x3EE4_F8B5_88E3_68F1;

/// The residual norm above which a batch is refused unless told otherwise:
/// 0.1. It is a sanity bound, looser than and independent of the precision.
pub const ACCEPTANCE_THRESHOLD: u64 = 0x3FB9_9999_9999_999A;

/// Which end of the spectrum is wanted.
#[derive(Clone, Copy, Debug, PartialEq, Eq, Structural)]
pub enum Order {
    Largest,
    Smallest,
}

/// What a block step came back with: eigenvalues, eigenvectors (one column
/// each) and residual norms, with the cause where it did not converge.
pub enum EigResult {
    /// The batch converged.
    Converged(Vector, Matrix, Vec<u64>),
    /// The batch did not converge; this is how far it got.
    Stalled(Vector, Matrix, Vec<u64>, String),
    /// No eigenpair could be produced at all.
    NoResult(String),
}

/// Whether no residual norm exceeds `threshold`.
pub open spec fn within(norms: Seq<u64>, threshold: u64) -> bool {
    forall|i: int| 0 <= i < norms.len() ==> !greater(#[trigger] norms[i], threshold)
}

/// Whether no residual norm exceeds `threshold`.
pub fn all_within(norms: &Vec<u64>, threshold: u64) -> (b: bool)
    ensures
        b == within(norms@, threshold),
{
    for i in 0..norms.len()
        invariant
            forall|j: int| 0 <= j < i ==> !greater(#[trigger] norms@[j], threshold),
    {
        if exceeds(norms[i], threshold) {
            return false;
        }
    }
    true
}

impl EigResult {
    /// The eigenvalues and eigenvectors of the batch, if it carries any.
    pub open spec fn pairs(&self) -> Option<(Vector, Matrix)> {
        match self {
            EigResult::Converged(values, vectors, _) => Some((*values, *vectors)),
            EigResult::Stalled(values, vectors, _, _) => Some((*values, *vectors)),
            EigResult::NoResult(_) => None,
        }
    }

    /// The eigenvectors of the batch, one column each, if it carries any.
    pub open spec fn vectors(&self) -> Option<Matrix> {
        match self {
            EigResult::Converged(_, vectors, _) => Some(*vectors),
            EigResult::Stalled(_, vectors, _, _) => Some(*vectors),
            EigResult::NoResult(_) => None,
        }
    }

    /// The residual norms of the batch, if it carries any.
    pub open spec fn norms(&self) -> Option<Seq<u64>> {
        match self {
            EigResult::Converged(_, _, norms) => Some(norms@),
            EigResult::Stalled(_, _, norms, _) => Some(norms@),
            EigResult::NoResult(_) => None,
        }
    }

    /// Whether the batch may be yielded: it carries eigenpairs, and none of
    /// its residual norms exceeds `threshold`.
    pub open spec fn passes(&self, threshold: u64) -> bool {
        match self.norms() {
            Some(norms) => within(norms, threshold),
            None => false,
        }
    }
}

/// What one block step is to be run with. The operator is applied by matrix
/// product; the initial guess is a `rows` by `width` block drawn uniformly
/// at random.
pub struct BlockStep<'a> {
    pub operator: &'a Matrix,
    pub rows: usize,
    pub width: usize,
    pub preconditioner: Option<Matrix>,
    pub constraints: Option<Matrix>,
    pub precision: u64,
    pub maxiter: usize,
    pub order: Order,
}

/// The columns that a search is held orthogonal to.
pub open spec fn deflated(constraints: Option<Matrix>) -> Seq<Seq<u64>> {
    match constraints {
        Some(c) => c.columns(),
        None => Seq::empty(),
    }
}

/// An eigenproblem and how it is to be solved.
pub struct TruncatedEig {
    pub order: Order,
    pub problem: Matrix,
    pub constraints: Option<Matrix>,
    pub precision: u64,
    pub maxiter: usize,
}

impl TruncatedEig {
    /// An eigenproblem for `problem` with the default precision, at most
    /// twice as many iterations as `problem` has rows, and no constraints.
    pub fn new(problem: Matrix, order: Order) -> (eig: TruncatedEig)
        requires
            2 * problem.nrows() <= usize::MAX,
        ensures
            eig.order == order,
            eig.problem == problem,
            eig.constraints is None,
            eig.precision == DEFAULT_PRECISION,
            eig.maxiter == 2 * problem.nrows(),
    {
        let maxiter: usize = problem.rows() * 2;
        TruncatedEig { precision: DEFAULT_PRECISION, maxiter, constraints: None, order, problem }
    }

    /// The same problem with another precision.
    pub fn precision(self, precision: u64) -> (eig: TruncatedEig)
        ensures
            eig == (TruncatedEig { precision, ..self }),
    {
        let mut eig = self;
        eig.precision = precision;
        eig
    }

    /// The same problem with another iteration cap.
    pub fn maxiter(self, maxiter: usize) -> (eig: TruncatedEig)
        ensures
            eig == (TruncatedEig { maxiter, ..self }),
    {
        let mut eig = self;
        eig.maxiter = maxiter;
        eig
    }

    /// The same problem, searched orthogonally to the columns of `constraints`.
    pub fn constraints(self, constraints: Matrix) -> (eig: TruncatedEig)
        ensures
            eig == (TruncatedEig { constraints: Some(constraints), ..self }),
    {
        let mut eig = self;
        eig.constraints = Some(constraints);
        eig
    }

    /// What a single block step for `num` eigenpairs is run with: this
    /// problem's operator, a random initial block of `num` columns, no
    /// preconditioner, and the constraints, precision, iteration cap and
    /// order as they stand.
    pub fn once(&self, num: usize) -> (step: BlockStep<'_>)
        ensures
            asks(*self, num, step),
    {
        let constraints = match &self.constraints {
            Some(c) => Some(c.clone()),
            None => None,
        };
        BlockStep {
            operator: &self.problem,
            rows: self.problem.rows(),
            width: num,
            preconditioner: None,
            constraints,
            precision: self.precision,
            maxiter: self.maxiter,
            order: self.order,
        }
    }

    /// Starts the deflating sequence, one eigenpair at a time.
    pub fn into_iter(self) -> (it: TruncatedEigIterator)
        ensures
            it.batch_size() == 1,
            it.acceptance() == ACCEPTANCE_THRESHOLD,
            !it.stopped(),
            it.config() == self,
    {
        TruncatedEigIterator {
            step_size: 1,
            eig: self,
            threshold: ACCEPTANCE_THRESHOLD,
            finished: false,
        }
    }
}

/// The cursor of a deflating sequence of eigenpair batches.
///
/// A caller asks `request` what to run, runs the block step, and hands the
/// result to `next`. Every batch that is yielded joins the constraints, so
/// that the next search is orthogonal to it. The first batch that is refused
/// ends the sequence for good.
pub struct TruncatedEigIterator {
    step_size: usize,
    eig: TruncatedEig,
    threshold: u64,
    finished: bool,
}

impl TruncatedEigIterator {
    /// The number of eigenpairs asked for in each step.
    pub closed spec fn batch_size(&self) -> usize {
        self.step_size
    }

    /// The largest residual norm that a batch may have.
    pub closed spec fn acceptance(&self) -> u64 {
        self.threshold
    }

    /// Whether the sequence has ended.
    pub closed spec fn stopped(&self) -> bool {
        self.finished
    }

    /// The eigenproblem, with the constraints gathered so far.
    pub closed spec fn config(&self) -> TruncatedEig {
        self.eig
    }

    /// Whether `next` can take `result`: where the batch is to join
    /// constraints that exist already, both have the same number of rows,
    /// and the two side by side are a matrix that can be stored.
    pub open spec fn admits(&self, result: &EigResult) -> bool {
        !self.stopped() && result.passes(self.acceptance()) ==> match self.config().constraints {
            Some(c) => {
                let batch = result.vectors()->0;
                c.nrows() == batch.nrows() && storable(c.nrows(), c.ncols() + batch.ncols())
            },
            None => true,
        }
    }

    /// Whether `next` can take `result`.
    pub fn can_take(&self, result: &EigResult) -> (b: bool)
        ensures
            b == self.admits(result),
    {
        if self.finished {
            return true;
        }
        let (vectors, norms) = match result {
            EigResult::Converged(_, vectors, norms) => (vectors, norms),
            EigResult::Stalled(_, vectors, norms, _) => (vectors, norms),
            EigResult::NoResult(_) => {
                return true;
            },
        };
        if !all_within(norms, self.threshold) {
            return true;
        }
        match &self.eig.constraints {
            Some(c) => {
                let rows: usize = c.rows();
                let held: usize = c.cols();
                let more: usize = vectors.cols();
                rows == vectors.rows() && more <= usize::MAX - held && can_store(rows, held + more)
            },
            None => true,
        }
    }

    /// The same sequence with another acceptance threshold.
    pub fn threshold(self, threshold: u64) -> (it: TruncatedEigIterator)
        ensures
            it.acceptance() == threshold,
            it.batch_size() == self.batch_size(),
            it.stopped() == self.stopped(),
            it.config() == self.config(),
    {
        let mut it = self;
        it.threshold = threshold;
        it
    }

    /// Whether the sequence has ended.
    pub fn is_finished(&self) -> (b: bool)
        ensures
            b == self.stopped(),
    {
        self.finished
    }

    /// The eigenproblem, with the constraints gathered so far.
    pub fn eig(&self) -> (eig: &TruncatedEig)
        ensures
            *eig == self.config(),
    {
        &self.eig
    }

    /// What to run next: a block step for one batch, or nothing once the
    /// sequence has ended.
    pub fn request(&self) -> (step: Option<BlockStep<'_>>)
        ensures
            (step is None) == self.stopped(),
            step matches Some(s) ==> asks(self.config(), self.batch_size(), s),
    {
        if self.finished {
            None
        } else {
            Some(self.eig.once(self.step_size))
        }
    }

    /// Takes the result of the block step that `request` asked for.
    ///
    /// A batch without eigenpairs, or with a residual norm above the
    /// acceptance threshold, ends the sequence. Any other batch is yielded,
    /// after its eigenvectors have joined the constraints.
    pub fn next(&mut self, result: EigResult) -> (item: Option<(Vector, Matrix)>)
        requires
            old(self).admits(&result),
        ensures
            follows(*old(self), result, *final(self), item),
    {
        if self.finished {
            return None;
        }
        match result {
            EigResult::Converged(values, vectors, norms) | EigResult::Stalled(
                values,
                vectors,
                norms,
                _,
            ) => {
                if !all_within(&norms, self.threshold) {
                    self.finished = true;
                    return None;
                }
                let widened = match &self.eig.constraints {
                    Some(c) => c.hstack(&vectors).unwrap(),
                    None => vectors.clone(),
                };
                self.eig.constraints = Some(widened);
                Some((values, vectors))
            },
            EigResult::NoResult(_) => {
                self.finished = true;
                None
            },
        }
    }
}

/// Whether `step` is what a block step for `num` eigenpairs of `eig` is run
/// with.
pub open spec fn asks(eig: TruncatedEig, num: usize, step: BlockStep<'_>) -> bool {
    &&& *step.operator == eig.problem
    &&& step.rows == eig.problem.nrows()
    &&& step.width == num
    &&& step.preconditioner is None
    &&& (step.constraints is Some) == (eig.constraints is Some)
    &&& deflated(step.constraints) == deflated(eig.constraints)
    &&& step.constraints matches Some(c) ==> c.nrows() == eig.constraints->0.nrows()
    &&& step.precision == eig.precision
    &&& step.maxiter == eig.maxiter
    &&& step.order == eig.order
}

/// One step of the sequence: `next`, given `result` in the state `before`,
/// leaves the state `after` and yields `item`.
pub open spec fn follows(
    before: TruncatedEigIterator,
    result: EigResult,
    after: TruncatedEigIterator,
    item: Option<(Vector, Matrix)>,
) -> bool {
    &&& after.batch_size() == before.batch_size()
    &&& after.acceptance() == before.acceptance()
    &&& after.config().order == before.config().order
    &&& after.config().problem == before.config().problem
    &&& after.config().precision == before.config().precision
    &&& after.config().maxiter == before.config().maxiter
    &&& if before.stopped() || !result.passes(before.acceptance()) {
        &&& item is None
        &&& after.stopped()
        &&& after.config().constraints == before.config().constraints
    } else {
        &&& item == result.pairs()
        &&& !after.stopped()
        &&& after.config().constraints is Some
        &&& after.config().constraints->0.nrows() == result.vectors()->0.nrows()
        &&& deflated(after.config().constraints) == deflated(before.config().constraints)
            + result.vectors()->0.columns()
    }
}

/// Deflation is monotone: a step never removes a constraint, a step that
/// yields nothing leaves the constraints as they are, and a step that yields
/// a batch adds one constraint for each eigenvector of it, the batch size
/// where the block step returned as many as it was asked for.
pub proof fn lemma_deflation_grows(
    before: TruncatedEigIterator,
    result: EigResult,
    after: TruncatedEigIterator,
    item: Option<(Vector, Matrix)>,
)
    requires
        follows(before, result, after, item),
    ensures
        deflated(before.config().constraints).len() <= deflated(after.config().constraints).len(),
        deflated(before.config().constraints) == deflated(after.config().constraints).take(
            deflated(before.config().constraints).len() as int,
        ),
        item is None ==> deflated(after.config().constraints) == deflated(
            before.config().constraints,
        ),
        (match item {
            Some((_, vectors)) => {
                let held = deflated(before.config().constraints).len();
                &&& deflated(after.config().constraints).len() == held + vectors.ncols()
                &&& vectors.ncols() == before.batch_size() ==> deflated(
                    after.config().constraints,
                ).len() == held + before.batch_size()
            },
            None => true,
        }),
{
}

/// A batch with a residual norm above the acceptance threshold is not
/// yielded, and it ends the sequence.
pub proof fn lemma_poor_batch_is_refused(
    before: TruncatedEigIterator,
    result: EigResult,
    after: TruncatedEigIterator,
    item: Option<(Vector, Matrix)>,
    i: int,
)
    requires
        follows(before, result, after, item),
        result.norms() is Some,
        0 <= i < result.norms()->0.len(),
        greater(result.norms()->0[i], before.acceptance()),
    ensures
        item is None,
        after.stopped(),
{
}

/// The stop is final: once a step has yielded nothing, no later step yields
/// anything or touches the constraints, whatever it is given.
pub proof fn lemma_stop_is_final(
    before: TruncatedEigIterator,
    result: EigResult,
    after: TruncatedEigIterator,
    item: Option<(Vector, Matrix)>,
    later_result: EigResult,
    later: TruncatedEigIterator,
    later_item: Option<(Vector, Matrix)>,
)
    requires
        follows(before, result, after, item),
        item is None,
        follows(after, later_result, later, later_item),
    ensures
        later_item is None,
        later.stopped(),
        later.config().constraints == after.config().constraints,
{
}

} // verus!
