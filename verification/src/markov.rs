//! A Markov chain and the search for its stationary distribution.
//!
//! The chain holds its numbers as single-precision bit patterns. The search
//! is a power iteration: the vector is multiplied by the matrix until it
//! equals its own product. The multiplication itself is arithmetic on
//! numbers that this library only carries, so the caller supplies it: as a
//! function handed to [`MarkovChain::stationary`], or product by product to
//! [`Iteration::advance`]. Everything around it is decided here: whether the
//! dimensions agree, whether two successive vectors are equal, how many
//! multiplications are counted, and when to give up.

use vstd::prelude::*;
use crate::binary32::{same_vector, vectors_equal};
use crate::matrix::{constant, Matrix};

verus! {

/// Why a chain gives no result.
#[derive(Debug, Clone, Copy, PartialEq, Eq, Structural)]
pub enum SolveError {
    /// The matrix is not square, the vector is not as long as its side, or
    /// a product is not as long as the vector it was made from.
    DimensionMismatch,
    /// The permitted multiplications were used up before a vector equalled
    /// its own product.
    NonConvergence,
}

/// A transition matrix together with a distribution over its states.
pub struct MarkovChain {
    pub transition_matrix: Matrix,
    pub vector: Vec<u32>,
}

/// A search in progress: the latest vector, how many multiplications led to
/// it, and how many are permitted in all.
#[derive(Debug)]
pub struct Iteration {
    vector: Vec<u32>,
    performed: i32,
    limit: i32,
}

/// What an [`Iteration`] stands for.
pub struct IterationView {
    pub vector: Seq<u32>,
    pub performed: int,
    pub limit: int,
}

impl IterationView {
    /// At least one more multiplication is permitted.
    pub open spec fn may_multiply(self) -> bool {
        0 <= self.performed < self.limit
    }
}

impl View for Iteration {
    type V = IterationView;

    closed spec fn view(&self) -> IterationView {
        IterationView {
            vector: self.vector@,
            performed: self.performed as int,
            limit: self.limit as int,
        }
    }
}

/// Where a search stands after a product was handed in.
#[derive(Debug)]
pub enum Step {
    /// No fixed point yet: the carried vector is to be multiplied next.
    Continue(Iteration),
    /// The vector equals its own product. The number counts every
    /// multiplication performed, the confirming one included.
    Converged(Vec<u32>, i32),
}

/// What a [`Step`] stands for.
pub enum StepView {
    Continue(IterationView),
    Converged(Seq<u32>, int),
}

impl View for Step {
    type V = StepView;

    open spec fn view(&self) -> StepView {
        match self {
            Step::Continue(next) => StepView::Continue(next@),
            Step::Converged(vector, count) => StepView::Converged(vector@, *count as int),
        }
    }
}

/// The search goes on from `vector` to `product`: the product has the
/// vector's length and is a different vector.
pub open spec fn moves_on(vector: Seq<u32>, product: Seq<u32>) -> bool {
    product.len() == vector.len() && !same_vector(vector, product)
}

/// One step of the search, where `product` is the state's vector multiplied
/// by the matrix. A product of another length is a mismatch. A product
/// equal to the vector ends the search at that vector. Otherwise the
/// product is the next vector, unless this multiplication was the last one
/// permitted.
pub open spec fn step(state: IterationView, product: Seq<u32>) -> Result<StepView, SolveError> {
    if product.len() != state.vector.len() {
        Err(SolveError::DimensionMismatch)
    } else if same_vector(state.vector, product) {
        Ok(StepView::Converged(state.vector, state.performed + 1))
    } else if state.performed + 1 >= state.limit {
        Err(SolveError::NonConvergence)
    } else {
        Ok(
            StepView::Continue(
                IterationView {
                    vector: product,
                    performed: state.performed + 1,
                    limit: state.limit,
                },
            ),
        )
    }
}

/// `product` is a vector that `multiply` may hand back for `vector` and
/// `matrix`.
pub open spec fn may_return<F: Fn(&Vec<u32>, &Matrix) -> Vec<u32>>(
    multiply: F,
    vector: Seq<u32>,
    matrix: Matrix,
    product: Seq<u32>,
) -> bool {
    exists|v: Vec<u32>, p: Vec<u32>|
        v@ == vector && p@ == product && #[trigger] multiply.ensures((&v, &matrix), p)
}

/// `multiply` hands back one product for each vector.
pub open spec fn single_valued<F: Fn(&Vec<u32>, &Matrix) -> Vec<u32>>(
    multiply: F,
    matrix: Matrix,
) -> bool {
    forall|vector: Seq<u32>, p: Seq<u32>, q: Seq<u32>|
        #[trigger] may_return(multiply, vector, matrix, p) && #[trigger] may_return(
            multiply,
            vector,
            matrix,
            q,
        ) ==> p == q
}

/// `trace` records a whole search from `start` that may multiply `limit`
/// times. It opens with `start`, and every later entry is a product of the
/// entry before it. The search went on after every product but the last,
/// and it stopped short of the limit only where it could not go on.
pub open spec fn is_search<F: Fn(&Vec<u32>, &Matrix) -> Vec<u32>>(
    multiply: F,
    matrix: Matrix,
    start: Seq<u32>,
    limit: int,
    trace: Seq<Seq<u32>>,
) -> bool {
    &&& 2 <= trace.len() <= limit + 1
    &&& trace[0] == start
    &&& forall|k: int|
        1 <= k < trace.len() ==> may_return(multiply, trace[k - 1], matrix, #[trigger] trace[k])
    &&& forall|k: int| 1 <= k < trace.len() - 1 ==> moves_on(trace[k - 1], #[trigger] trace[k])
    &&& trace.len() - 1 < limit ==> !moves_on(trace[trace.len() - 2], trace[trace.len() - 1])
}

/// What the search recorded in `trace` answers. Its last entry is the
/// product that ended it, and its length less one is the number of
/// multiplications.
pub open spec fn answer(trace: Seq<Seq<u32>>) -> Result<(Seq<u32>, int), SolveError> {
    let vector = trace[trace.len() - 2];
    let product = trace[trace.len() - 1];
    if product.len() != vector.len() {
        Err(SolveError::DimensionMismatch)
    } else if same_vector(vector, product) {
        Ok((vector, trace.len() - 1))
    } else {
        Err(SolveError::NonConvergence)
    }
}

/// The outcome of a search as its trace answers it.
pub open spec fn seen(outcome: Result<(Vec<u32>, i32), SolveError>) -> Result<
    (Seq<u32>, int),
    SolveError,
> {
    match outcome {
        Ok((vector, count)) => Ok((vector@, count as int)),
        Err(error) => Err(error),
    }
}

impl Iteration {
    #[verifier::type_invariant]
    spec fn within_limit(&self) -> bool {
        0 <= self.performed < self.limit
    }

    /// The vector to multiply next.
    pub fn vector(&self) -> (vector: &Vec<u32>)
        ensures
            vector@ == self@.vector,
    {
        &self.vector
    }

    /// The number of multiplications performed so far.
    pub fn performed(&self) -> (performed: i32)
        ensures
            performed == self@.performed,
            self@.may_multiply(),
    {
        proof {
            use_type_invariant(self);
        }
        self.performed
    }

    /// The number of multiplications permitted in all.
    pub fn limit(&self) -> (limit: i32)
        ensures
            limit == self@.limit,
            self@.may_multiply(),
    {
        proof {
            use_type_invariant(self);
        }
        self.limit
    }

    /// Takes the product of this state's vector and the matrix, and says
    /// where the search stands.
    pub fn advance(self, product: Vec<u32>) -> (outcome: Result<Step, SolveError>)
        ensures
            self@.may_multiply(),
            match outcome {
                Ok(next) => step(self@, product@) == Ok::<StepView, SolveError>(next@),
                Err(error) => step(self@, product@) == Err::<StepView, SolveError>(error),
            },
            outcome matches Ok(Step::Continue(next)) ==> next@.may_multiply(),
    {
        proof {
            use_type_invariant(&self);
        }
        if product.len() != self.vector.len() {
            Err(SolveError::DimensionMismatch)
        } else if vectors_equal(&self.vector, &product) {
            Ok(Step::Converged(self.vector, self.performed + 1))
        } else if self.performed + 1 >= self.limit {
            Err(SolveError::NonConvergence)
        } else {
            Ok(
                Step::Continue(
                    Iteration {
                        vector: product,
                        performed: self.performed + 1,
                        limit: self.limit,
                    },
                ),
            )
        }
    }
}

impl MarkovChain {
    /// The matrix is square and the vector is as long as its side.
    pub open spec fn dimensions_agree(&self) -> bool {
        &&& self.transition_matrix@.len() == self.vector@.len()
        &&& self.transition_matrix.width() == self.vector@.len()
    }

    /// A chain of `rows` by `columns` zeros with a vector of `columns` zeros.
    pub fn new(rows: usize, columns: usize) -> (chain: Self)
        ensures
            chain.transition_matrix@ == constant(rows as nat, columns as nat, 0),
            chain.transition_matrix.width() == columns,
            chain.vector@ == Seq::new(columns as nat, |j: int| 0u32),
    {
        let mut vector: Vec<u32> = Vec::new();
        let mut j: usize = 0;
        while j < columns
            invariant
                j <= columns,
                vector@.len() == j,
                forall|k: int| 0 <= k < j ==> #[trigger] vector@[k] == 0,
            decreases columns - j,
        {
            vector.push(0);
            j += 1;
        }
        assert(vector@ =~= Seq::new(columns as nat, |j: int| 0u32));
        MarkovChain { transition_matrix: Matrix::zeros(rows, columns), vector }
    }

    /// This chain with its matrix replaced by the given rows.
    pub fn with_matrix<const N: usize>(&self, xs: &[[u32; N]]) -> (chain: Self)
        ensures
            chain.transition_matrix@.len() == xs@.len(),
            forall|i: int| 0 <= i < xs@.len() ==> #[trigger] chain.transition_matrix@[i] == xs@[i]@,
            chain.transition_matrix.width() == N,
            chain.vector@ == self.vector@,
    {
        let vector = self.vector.clone();
        assert(vector@ =~= self.vector@);
        MarkovChain { transition_matrix: Matrix::from_rows(xs), vector }
    }

    /// This chain with its vector replaced by the given one.
    pub fn with_vector<const N: usize>(&self, xs: &[u32; N]) -> (chain: Self)
        ensures
            chain.transition_matrix@ == self.transition_matrix@,
            chain.transition_matrix.width() == self.transition_matrix.width(),
            chain.vector@ == xs@,
    {
        let mut vector: Vec<u32> = Vec::new();
        let mut j: usize = 0;
        while j < N
            invariant
                j <= N,
                vector@.len() == j,
                forall|k: int| 0 <= k < j ==> #[trigger] vector@[k] == xs@[k],
            decreases N - j,
        {
            vector.push(xs[j]);
            j += 1;
        }
        assert(vector@ =~= xs@);
        MarkovChain { transition_matrix: self.transition_matrix.clone(), vector }
    }

    /// Decides whether the matrix is square and the vector as long as its
    /// side.
    pub fn has_matching_dimensions(&self) -> (agree: bool)
        ensures
            agree == self.dimensions_agree(),
    {
        let side = self.vector.len();
        self.transition_matrix.rows() == side && self.transition_matrix.columns() == side
    }

    /// Opens a search from this chain's vector that may multiply at most
    /// `max_iterations` times.
    pub fn begin(&self, max_iterations: i32) -> (start: Result<Iteration, SolveError>)
        ensures
            match start {
                Ok(state) => {
                    &&& self.dimensions_agree()
                    &&& max_iterations >= 1
                    &&& state@.vector == self.vector@
                    &&& state@.performed == 0
                    &&& state@.limit == max_iterations
                },
                Err(SolveError::DimensionMismatch) => !self.dimensions_agree(),
                Err(SolveError::NonConvergence) => self.dimensions_agree() && max_iterations < 1,
            },
    {
        if !self.has_matching_dimensions() {
            Err(SolveError::DimensionMismatch)
        } else if max_iterations < 1 {
            Err(SolveError::NonConvergence)
        } else {
            let vector = self.vector.clone();
            assert(vector@ =~= self.vector@);
            Ok(Iteration { vector, performed: 0, limit: max_iterations })
        }
    }

    /// Multiplies the vector by the matrix once, through `multiply`.
    ///
    /// Gives the product where the dimensions agree and the product has the
    /// vector's length, and a mismatch otherwise.
    pub fn vector_dot<F: Fn(&Vec<u32>, &Matrix) -> Vec<u32>>(&self, multiply: F) -> (outcome:
        Result<Vec<u32>, SolveError>)
        requires
            self.dimensions_agree() ==> multiply.requires((&self.vector, &self.transition_matrix)),
        ensures
            match outcome {
                Ok(product) => {
                    &&& self.dimensions_agree()
                    &&& product@.len() == self.vector@.len()
                    &&& multiply.ensures((&self.vector, &self.transition_matrix), product)
                },
                Err(SolveError::DimensionMismatch) => {
                    ||| !self.dimensions_agree()
                    ||| exists|product: Vec<u32>|
                        product@.len() != self.vector@.len() && #[trigger] multiply.ensures(
                            (&self.vector, &self.transition_matrix),
                            product,
                        )
                },
                Err(SolveError::NonConvergence) => false,
            },
    {
        if !self.has_matching_dimensions() {
            return Err(SolveError::DimensionMismatch);
        }
        let product = multiply(&self.vector, &self.transition_matrix);
        if product.len() != self.vector.len() {
            Err(SolveError::DimensionMismatch)
        } else {
            Ok(product)
        }
    }

    /// Searches for the stationary vector: multiplies through `multiply`,
    /// at most `max_iterations` times, until a vector equals its own
    /// product, and gives that vector with the number of multiplications.
    ///
    /// Without agreeing dimensions it gives a mismatch, and with no
    /// multiplication permitted it gives up at once. Otherwise the outcome
    /// is the answer of a whole search from the chain's vector; a vector
    /// that comes back is a fixed point of `multiply`.
    pub fn stationary<F: Fn(&Vec<u32>, &Matrix) -> Vec<u32>>(
        &self,
        multiply: F,
        max_iterations: i32,
    ) -> (outcome: Result<(Vec<u32>, i32), SolveError>)
        requires
            self.dimensions_agree() ==> forall|v: Vec<u32>|
                v@.len() == self.vector@.len() ==> #[trigger] multiply.requires(
                    (&v, &self.transition_matrix),
                ),
        ensures
            !self.dimensions_agree() ==> seen(outcome) == Err::<(Seq<u32>, int), SolveError>(
                SolveError::DimensionMismatch,
            ),
            self.dimensions_agree() && max_iterations < 1 ==> seen(outcome) == Err::<
                (Seq<u32>, int),
                SolveError,
            >(SolveError::NonConvergence),
            self.dimensions_agree() && max_iterations >= 1 ==> exists|trace: Seq<Seq<u32>>|
                #[trigger] is_search(
                    multiply,
                    self.transition_matrix,
                    self.vector@,
                    max_iterations as int,
                    trace,
                ) && seen(outcome) == answer(trace),
            outcome matches Ok((vector, count)) ==> 1 <= count <= max_iterations
                && vector@.len() == self.vector@.len() && exists|product: Seq<u32>|
                #[trigger] may_return(multiply, vector@, self.transition_matrix, product)
                    && same_vector(vector@, product),
    {
        let mut state = match self.begin(max_iterations) {
            Ok(state) => state,
            Err(error) => {
                return Err(error);
            },
        };
        let ghost mut trace: Seq<Seq<u32>> = seq![self.vector@];
        loop
            invariant
                self.dimensions_agree(),
                forall|v: Vec<u32>|
                    v@.len() == self.vector@.len() ==> #[trigger] multiply.requires(
                        (&v, &self.transition_matrix),
                    ),
                state@.may_multiply(),
                state@.limit == max_iterations,
                state@.vector.len() == self.vector@.len(),
                trace.len() == state@.performed + 1,
                trace[0] == self.vector@,
                trace[state@.performed] == state@.vector,
                forall|k: int|
                    1 <= k < trace.len() ==> may_return(
                        multiply,
                        trace[k - 1],
                        self.transition_matrix,
                        #[trigger] trace[k],
                    ),
                forall|k: int| 1 <= k < trace.len() ==> moves_on(trace[k - 1], #[trigger] trace[k]),
            decreases state@.limit - state@.performed,
        {
            let ghost earlier = trace;
            let ghost vector = state@.vector;
            let product = multiply(state.vector(), &self.transition_matrix);
            let ghost handed = product@;
            proof {
                trace = earlier.push(handed);
                assert(may_return(multiply, vector, self.transition_matrix, handed));
                assert forall|k: int| 1 <= k < trace.len() implies may_return(
                    multiply,
                    trace[k - 1],
                    self.transition_matrix,
                    #[trigger] trace[k],
                ) by {
                    if k < earlier.len() {
                        assert(trace[k] == earlier[k]);
                        assert(trace[k - 1] == earlier[k - 1]);
                    }
                }
                assert forall|k: int| 1 <= k < trace.len() - 1 implies moves_on(
                    trace[k - 1],
                    #[trigger] trace[k],
                ) by {
                    assert(trace[k] == earlier[k]);
                    assert(trace[k - 1] == earlier[k - 1]);
                }
            }
            match state.advance(product) {
                Ok(Step::Converged(fixed, count)) => {
                    proof {
                        assert(is_search(
                            multiply,
                            self.transition_matrix,
                            self.vector@,
                            max_iterations as int,
                            trace,
                        ));
                        assert(may_return(multiply, fixed@, self.transition_matrix, handed)
                            && same_vector(fixed@, handed));
                    }
                    return Ok((fixed, count));
                },
                Ok(Step::Continue(next)) => {
                    state = next;
                },
                Err(error) => {
                    assert(is_search(
                        multiply,
                        self.transition_matrix,
                        self.vector@,
                        max_iterations as int,
                        trace,
                    ));
                    return Err(error);
                },
            }
        }
    }
}

/// A vector that a search answers with is a fixed point: it equals a
/// product of itself. The count that comes with it is at least one and at
/// most the limit. A search that gives up has used every multiplication
/// that the limit permits.
pub proof fn law_answer_is_fixed_point<F: Fn(&Vec<u32>, &Matrix) -> Vec<u32>>(
    multiply: F,
    matrix: Matrix,
    start: Seq<u32>,
    limit: int,
    trace: Seq<Seq<u32>>,
)
    requires
        is_search(multiply, matrix, start, limit, trace),
    ensures
        match answer(trace) {
            Ok((vector, count)) => {
                &&& 1 <= count <= limit
                &&& vector.len() == start.len()
                &&& exists|product: Seq<u32>|
                    #[trigger] may_return(multiply, vector, matrix, product) && same_vector(
                        vector,
                        product,
                    )
            },
            Err(error) => error == SolveError::NonConvergence ==> trace.len() - 1 == limit,
        },
{
    let last = trace.len() - 1;
    let vector = trace[last - 1];
    let product = trace[last];
    lemma_lengths(multiply, matrix, start, limit, trace, last - 1);
    if product.len() == vector.len() {
        if same_vector(vector, product) {
            assert(may_return(multiply, vector, matrix, product));
            assert(answer(trace) == Ok::<(Seq<u32>, int), SolveError>((vector, last)));
        } else {
            assert(moves_on(vector, product));
            assert(answer(trace) == Err::<(Seq<u32>, int), SolveError>(
                SolveError::NonConvergence,
            ));
        }
    }
}

/// Where every product of the start vector equals it, the search answers
/// with the start vector after one multiplication.
pub proof fn law_fixed_start_is_found_at_once<F: Fn(&Vec<u32>, &Matrix) -> Vec<u32>>(
    multiply: F,
    matrix: Matrix,
    start: Seq<u32>,
    limit: int,
    trace: Seq<Seq<u32>>,
)
    requires
        is_search(multiply, matrix, start, limit, trace),
        forall|product: Seq<u32>| #[trigger]
            may_return(multiply, start, matrix, product) ==> same_vector(start, product),
    ensures
        answer(trace) == Ok::<(Seq<u32>, int), SolveError>((start, 1)),
{
    assert(may_return(multiply, trace[0], matrix, trace[1]));
    if trace.len() > 2 {
        assert(moves_on(trace[0], trace[1]));
    }
}

/// Where `multiply` hands back one product for each vector, there is one
/// search from a start vector under a limit, and so one answer.
pub proof fn law_one_search<F: Fn(&Vec<u32>, &Matrix) -> Vec<u32>>(
    multiply: F,
    matrix: Matrix,
    start: Seq<u32>,
    limit: int,
    first: Seq<Seq<u32>>,
    second: Seq<Seq<u32>>,
)
    requires
        single_valued(multiply, matrix),
        is_search(multiply, matrix, start, limit, first),
        is_search(multiply, matrix, start, limit, second),
    ensures
        first == second,
        answer(first) == answer(second),
{
    lemma_no_longer(multiply, matrix, start, limit, first, second);
    lemma_no_longer(multiply, matrix, start, limit, second, first);
    assert forall|k: int| 0 <= k < first.len() implies first[k] == second[k] by {
        lemma_same_entry(multiply, matrix, start, limit, first, second, k);
    }
    assert(first =~= second);
}

/// Every entry of a search that was multiplied is as long as the start
/// vector.
proof fn lemma_lengths<F: Fn(&Vec<u32>, &Matrix) -> Vec<u32>>(
    multiply: F,
    matrix: Matrix,
    start: Seq<u32>,
    limit: int,
    trace: Seq<Seq<u32>>,
    k: int,
)
    requires
        is_search(multiply, matrix, start, limit, trace),
        0 <= k < trace.len() - 1,
    ensures
        trace[k].len() == start.len(),
    decreases k,
{
    if k > 0 {
        lemma_lengths(multiply, matrix, start, limit, trace, k - 1);
        assert(moves_on(trace[k - 1], trace[k]));
    }
}

/// Two searches of a single-valued `multiply` agree wherever both have an
/// entry.
proof fn lemma_same_entry<F: Fn(&Vec<u32>, &Matrix) -> Vec<u32>>(
    multiply: F,
    matrix: Matrix,
    start: Seq<u32>,
    limit: int,
    first: Seq<Seq<u32>>,
    second: Seq<Seq<u32>>,
    k: int,
)
    requires
        single_valued(multiply, matrix),
        is_search(multiply, matrix, start, limit, first),
        is_search(multiply, matrix, start, limit, second),
        0 <= k < first.len(),
        k < second.len(),
    ensures
        first[k] == second[k],
    decreases k,
{
    if k > 0 {
        lemma_same_entry(multiply, matrix, start, limit, first, second, k - 1);
        assert(may_return(multiply, first[k - 1], matrix, first[k]));
        assert(may_return(multiply, second[k - 1], matrix, second[k]));
    }
}

/// Of two searches of a single-valued `multiply`, the second is no longer
/// than the first.
proof fn lemma_no_longer<F: Fn(&Vec<u32>, &Matrix) -> Vec<u32>>(
    multiply: F,
    matrix: Matrix,
    start: Seq<u32>,
    limit: int,
    first: Seq<Seq<u32>>,
    second: Seq<Seq<u32>>,
)
    requires
        single_valued(multiply, matrix),
        is_search(multiply, matrix, start, limit, first),
        is_search(multiply, matrix, start, limit, second),
    ensures
        second.len() <= first.len(),
{
    if first.len() < second.len() {
        let last = first.len() - 1;
        lemma_same_entry(multiply, matrix, start, limit, first, second, last);
        lemma_same_entry(multiply, matrix, start, limit, first, second, last - 1);
        assert(moves_on(second[last - 1], second[last]));
    }
}

} // verus!
