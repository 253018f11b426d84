//! The mathematical model of a layer chain, and what a forward pass, a
//! backward pass and a training run do to it.
//!
//! A chain of layers is modelled by the sequence of its trainable stages, from
//! the input side to the output side. The terminal layer holds no parameters
//! and contributes no stage. Everything here is ghost code.

use vstd::prelude::*;
use crate::grid::Grid;
use crate::random::RandomSource;
use crate::scalar::Scalar;

verus! {

/// One trainable stage: its parameters, and the input it was fed last.
#[verifier::ext_equal]
pub struct Stage<S> {
    /// One row for each output, one column for each input.
    pub weights: Grid<S>,
    /// One entry for each output, as a column.
    pub biases: Grid<S>,
    /// The most recent input, as a column.
    pub cached: Grid<S>,
}

/// What a backward pass hands to the stage before: the error and the
/// gradient, each a column with one entry for each output of that stage.
#[verifier::ext_equal]
pub struct Signal<S> {
    pub errors: Grid<S>,
    pub gradients: Grid<S>,
}

impl<S: Scalar> Signal<S> {
    /// The signal that the terminal layer originates: the error is
    /// `targets - outputs`, the gradient is the derivative at each output.
    pub open spec fn origin(outputs: Seq<S>, targets: Seq<S>, d: spec_fn(S) -> S) -> Signal<S> {
        Signal {
            errors: Grid::column(targets).difference(Grid::column(outputs)),
            gradients: Grid::column(outputs).mapped(d),
        }
    }

    /// Both columns are well formed and `width` high.
    pub open spec fn fits(self, width: nat) -> bool {
        &&& self.errors.wf()
        &&& self.gradients.wf()
        &&& self.errors.has_shape(width, 1)
        &&& self.gradients.has_shape(width, 1)
    }
}

impl<S: Scalar> Stage<S> {
    /// The parts are well formed and their shapes fit one another.
    pub open spec fn wf(self) -> bool {
        &&& self.weights.wf()
        &&& self.biases.wf()
        &&& self.cached.wf()
        &&& self.biases.has_shape(self.weights.rows, 1)
        &&& self.cached.has_shape(self.weights.cols, 1)
    }

    /// The stage as built from its parameters, with a cache of zeros.
    pub open spec fn fresh(weights: Grid<S>, biases: Grid<S>) -> Stage<S> {
        Stage { weights, biases, cached: Grid::zeros(weights.cols, 1) }
    }

    /// The stage with `rows` outputs and `cols` inputs whose parameters are
    /// drawn from `source`: first the weights, in one draw, then the biases, in
    /// the next.
    pub open spec fn drawn(rows: nat, cols: nat, source: RandomSource) -> Stage<S> {
        Self::fresh(
            Grid::sampled(rows, cols, source.upcoming(rows * cols)),
            Grid::sampled(rows, 1, source.advanced().upcoming(rows)),
        )
    }

    /// What the stage hands on: `f` applied to `weights * feed + biases`.
    pub open spec fn activated(self, feed: Grid<S>, f: spec_fn(S) -> S) -> Grid<S> {
        self.weights.product(feed).sum(self.biases).mapped(f)
    }

    /// The stage after a forward pass: `feed` is cached.
    pub open spec fn fed(self, feed: Grid<S>) -> Stage<S> {
        Stage { cached: feed, ..self }
    }

    /// The scaled gradient: `(gradients .* errors) * rate`, where `.*` multiplies
    /// entry by entry.
    pub open spec fn delta(down: Signal<S>, rate: S) -> Grid<S> {
        down.gradients.hadamard(down.errors).scaled(rate)
    }

    /// The stage after one step of gradient descent on the signal `down`:
    /// `weights + delta * transpose(cached)` and `biases + delta`.
    pub open spec fn corrected(self, down: Signal<S>, rate: S) -> Stage<S> {
        let delta = Self::delta(down, rate);
        Stage {
            weights: self.weights.sum(delta.product(self.cached.transposed())),
            biases: self.biases.sum(delta),
            cached: self.cached,
        }
    }

    /// The signal for the stage before: the error is carried back through the
    /// weights as they are before the step, the gradient is the derivative at
    /// each cached input.
    pub open spec fn passed_back(self, down: Signal<S>, d: spec_fn(S) -> S) -> Signal<S> {
        Signal {
            errors: self.weights.transposed().product(down.errors),
            gradients: self.cached.mapped(d),
        }
    }
}

/// What comes out at the end of the chain when `feed` goes in.
pub open spec fn forward<S: Scalar>(
    stages: Seq<Stage<S>>,
    feed: Grid<S>,
    f: spec_fn(S) -> S,
) -> Grid<S>
    decreases stages.len(),
{
    if stages.len() == 0 {
        feed
    } else {
        forward(stages.drop_first(), stages[0].activated(feed, f), f)
    }
}

/// The chain after a forward pass on `feed`: each stage has cached its input.
pub open spec fn fed<S: Scalar>(
    stages: Seq<Stage<S>>,
    feed: Grid<S>,
    f: spec_fn(S) -> S,
) -> Seq<Stage<S>>
    decreases stages.len(),
{
    if stages.len() == 0 {
        stages
    } else {
        seq![stages[0].fed(feed)] + fed(stages.drop_first(), stages[0].activated(feed, f), f)
    }
}

/// The signal that arrives at the input side of the chain.
pub open spec fn backward<S: Scalar>(
    stages: Seq<Stage<S>>,
    outputs: Seq<S>,
    targets: Seq<S>,
    d: spec_fn(S) -> S,
) -> Signal<S>
    decreases stages.len(),
{
    if stages.len() == 0 {
        Signal::origin(outputs, targets, d)
    } else {
        stages[0].passed_back(backward(stages.drop_first(), outputs, targets, d), d)
    }
}

/// The chain after a backward pass: every stage has taken its step.
pub open spec fn trained<S: Scalar>(
    stages: Seq<Stage<S>>,
    rate: S,
    outputs: Seq<S>,
    targets: Seq<S>,
    d: spec_fn(S) -> S,
) -> Seq<Stage<S>>
    decreases stages.len(),
{
    if stages.len() == 0 {
        stages
    } else {
        seq![stages[0].corrected(backward(stages.drop_first(), outputs, targets, d), rate)]
            + trained(stages.drop_first(), rate, outputs, targets, d)
    }
}

/// The output vector for the input vector `input`.
pub open spec fn predicted<S: Scalar>(
    stages: Seq<Stage<S>>,
    input: Seq<S>,
    f: spec_fn(S) -> S,
) -> Seq<S> {
    forward(stages, Grid::column(input), f).flat()
}

/// Every input is `inputs` wide and every target is `outputs` wide.
pub open spec fn examples_fit<S>(
    inputs: Seq<Seq<S>>,
    targets: Seq<Seq<S>>,
    width: nat,
    outputs: nat,
) -> bool {
    &&& forall|i: int| 0 <= i < inputs.len() ==> (#[trigger] inputs[i]).len() == width
    &&& forall|i: int| 0 <= i < targets.len() ==> (#[trigger] targets[i]).len() == outputs
}

/// The chain after one training example: a forward pass on `input`, then a
/// backward pass on what came out and `target`.
pub open spec fn after_example<S: Scalar>(
    stages: Seq<Stage<S>>,
    rate: S,
    input: Seq<S>,
    target: Seq<S>,
    f: spec_fn(S) -> S,
    d: spec_fn(S) -> S,
) -> Seq<Stage<S>> {
    trained(fed(stages, Grid::column(input), f), rate, predicted(stages, input, f), target, d)
}

/// The chain after the first `count` examples, taken in the order given.
pub open spec fn after_examples<S: Scalar>(
    stages: Seq<Stage<S>>,
    rate: S,
    inputs: Seq<Seq<S>>,
    targets: Seq<Seq<S>>,
    count: nat,
    f: spec_fn(S) -> S,
    d: spec_fn(S) -> S,
) -> Seq<Stage<S>>
    decreases count,
{
    if count == 0 {
        stages
    } else {
        after_example(
            after_examples(stages, rate, inputs, targets, (count - 1) as nat, f, d),
            rate,
            inputs[count - 1],
            targets[count - 1],
            f,
            d,
        )
    }
}

/// The chain after `epochs` passes over the whole training set.
pub open spec fn after_epochs<S: Scalar>(
    stages: Seq<Stage<S>>,
    rate: S,
    inputs: Seq<Seq<S>>,
    targets: Seq<Seq<S>>,
    epochs: nat,
    f: spec_fn(S) -> S,
    d: spec_fn(S) -> S,
) -> Seq<Stage<S>>
    decreases epochs,
{
    if epochs == 0 {
        stages
    } else {
        after_examples(
            after_epochs(stages, rate, inputs, targets, (epochs - 1) as nat, f, d),
            rate,
            inputs,
            targets,
            inputs.len(),
            f,
            d,
        )
    }
}

/// Both chains have the same parameters, stage by stage; the caches may
/// differ.
pub open spec fn same_parameters<S>(a: Seq<Stage<S>>, b: Seq<Stage<S>>) -> bool {
    &&& a.len() == b.len()
    &&& forall|k: int|
        0 <= k < a.len() ==> (#[trigger] a[k]).weights == b[k].weights && a[k].biases
            == b[k].biases
}

/// A chain with `first` in front has `first` as its first stage and `rest`
/// behind it.
pub proof fn lemma_chain_parts<S>(first: Stage<S>, rest: Seq<Stage<S>>)
    ensures
        (seq![first] + rest).len() == rest.len() + 1,
        (seq![first] + rest)[0] == first,
        (seq![first] + rest).drop_first() == rest,
{
    assert((seq![first] + rest).drop_first() =~= rest);
}

/// A forward pass changes no parameter: it only fills the caches.
pub proof fn lemma_fed_keeps_parameters<S: Scalar>(
    stages: Seq<Stage<S>>,
    feed: Grid<S>,
    f: spec_fn(S) -> S,
)
    ensures
        same_parameters(fed(stages, feed, f), stages),
    decreases stages.len(),
{
    if stages.len() > 0 {
        let rest = fed(stages.drop_first(), stages[0].activated(feed, f), f);
        lemma_fed_keeps_parameters(stages.drop_first(), stages[0].activated(feed, f), f);
        lemma_chain_parts(stages[0].fed(feed), rest);
        assert forall|k: int| 0 <= k < stages.len() implies (#[trigger] fed(
            stages,
            feed,
            f,
        )[k]).weights == stages[k].weights && fed(stages, feed, f)[k].biases
            == stages[k].biases by {
            if k > 0 {
                assert(fed(stages, feed, f)[k] == rest[k - 1]);
                assert(stages[k] == stages.drop_first()[k - 1]);
            }
        }
    }
}

/// What comes out of a chain depends on its parameters alone, not on what
/// its stages have cached.
pub proof fn lemma_forward_reads_parameters_only<S: Scalar>(
    a: Seq<Stage<S>>,
    b: Seq<Stage<S>>,
    feed: Grid<S>,
    f: spec_fn(S) -> S,
)
    requires
        same_parameters(a, b),
    ensures
        forward(a, feed, f) == forward(b, feed, f),
    decreases a.len(),
{
    if a.len() > 0 {
        assert(a[0].activated(feed, f) == b[0].activated(feed, f));
        assert forall|k: int| 0 <= k < a.len() - 1 implies (#[trigger] a.drop_first()[k]).weights
            == b.drop_first()[k].weights && a.drop_first()[k].biases
            == b.drop_first()[k].biases by {
            assert(a.drop_first()[k] == a[k + 1]);
            assert(b.drop_first()[k] == b[k + 1]);
        }
        lemma_forward_reads_parameters_only(
            a.drop_first(),
            b.drop_first(),
            a[0].activated(feed, f),
            f,
        );
    }
}

/// Predicting is idempotent: after a prediction for `earlier`, with no
/// training in between, the prediction for `input` is what it would have been
/// before; in particular, asking twice for the same input gives the same
/// answer twice.
pub proof fn lemma_predict_is_idempotent<S: Scalar>(
    stages: Seq<Stage<S>>,
    earlier: Seq<S>,
    input: Seq<S>,
    f: spec_fn(S) -> S,
)
    ensures
        predicted(fed(stages, Grid::column(earlier), f), input, f) == predicted(stages, input, f),
{
    lemma_fed_keeps_parameters(stages, Grid::column(earlier), f);
    lemma_forward_reads_parameters_only(
        fed(stages, Grid::column(earlier), f),
        stages,
        Grid::column(input),
        f,
    );
}

/// The chain of the given widths, from the input width to the output width,
/// as it is assembled from its end with one source: the last stage draws
/// first, and every stage takes two draws.
///
/// A list of fewer than two widths has no stage.
pub open spec fn assembled<S: Scalar>(widths: Seq<nat>, source: RandomSource) -> Seq<Stage<S>>
    decreases widths.len(),
{
    if widths.len() < 2 {
        Seq::empty()
    } else {
        seq![
            Stage::drawn(
                widths[1],
                widths[0],
                source.after_draws((2 * (widths.len() - 2)) as nat),
            ),
        ] + assembled(widths.drop_first(), source)
    }
}

/// Putting a stage drawn for `inputs` inputs in front of an assembled chain
/// gives the chain assembled for the longer list of widths.
pub proof fn lemma_assembled_in_front<S: Scalar>(
    inputs: nat,
    widths: Seq<nat>,
    source: RandomSource,
)
    requires
        widths.len() >= 1,
    ensures
        assembled::<S>(seq![inputs] + widths, source) == seq![
            Stage::<S>::drawn(
                widths[0],
                inputs,
                source.after_draws((2 * (widths.len() - 1)) as nat),
            ),
        ] + assembled::<S>(widths, source),
{
    let longer = seq![inputs] + widths;
    assert(longer.drop_first() =~= widths);
}

/// Construction is deterministic under a fixed seed: two chains assembled for
/// the same widths from sources of the same seed are the same chain, and so
/// predict the same output for the same input.
pub proof fn lemma_same_seed_same_prediction<S: Scalar>(
    widths: Seq<nat>,
    first: RandomSource,
    second: RandomSource,
    input: Seq<S>,
    f: spec_fn(S) -> S,
)
    requires
        first.seed == second.seed,
    ensures
        assembled::<S>(widths, first) == assembled::<S>(widths, second),
        predicted(assembled(widths, first), input, f) == predicted(
            assembled(widths, second),
            input,
            f,
        ),
{
}

} // verus!
