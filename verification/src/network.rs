//! The layer chain: trainable layers, each owning the layer behind it, ended
//! by a terminal layer.
//!
//! A forward pass hands the input down the chain; every trainable layer
//! caches what it was fed. A backward pass starts at the terminal layer and
//! comes back up: every trainable layer takes one step of gradient descent and
//! hands a signal to the layer before it. A layer refuses a backward pass that
//! no forward pass went before.

use vstd::prelude::*;
use crate::activations::Activation;
use crate::chain::{
    after_epochs, after_examples, assembled, backward, examples_fit, fed, forward,
    lemma_assembled_in_front, lemma_chain_parts, predicted, same_parameters, trained, Signal,
    Stage,
};
use crate::error::{refused, NetworkError};
use crate::grid::{lines_of, Grid};
use crate::matrix::Matrix;
use crate::random::RandomSource;
use crate::scalar::{accepts_all, computes, Scalar};

verus! {

/// What a backward pass returns: the error, then the gradient.
#[derive(Clone, Debug, PartialEq)]
pub struct BackProps<S>(pub Matrix<S>, pub Matrix<S>);

impl<S> View for BackProps<S> {
    type V = Signal<S>;

    open spec fn view(&self) -> Signal<S> {
        Signal { errors: self.0@, gradients: self.1@ }
    }
}

impl<S: Scalar> BackProps<S> {
    /// Both matrices are well formed.
    pub open spec fn wf(&self) -> bool {
        self.0.wf() && self.1.wf()
    }
}

/// A stage of the chain, together with all the stages behind it.
pub trait Layer<S: Scalar>: Sized {
    /// The layer is in a consistent state.
    spec fn wf(&self) -> bool;

    /// How many numbers the layer takes.
    spec fn inputs(&self) -> nat;

    /// How many numbers come out at the end of the chain.
    spec fn outputs(&self) -> nat;

    /// A forward pass has gone through since the last backward pass, so that
    /// a backward pass is due.
    spec fn armed(&self) -> bool;

    /// The trainable stages from here to the end of the chain.
    spec fn stages(&self) -> Seq<Stage<S>>;

    /// How many numbers the layer takes.
    fn input_width(&self) -> (r: usize)
        requires
            self.wf(),
        ensures
            r == self.inputs(),
    ;

    /// How many numbers come out at the end of the chain.
    fn output_width(&self) -> (r: usize)
        requires
            self.wf(),
        ensures
            r == self.outputs(),
    ;

    /// Hands `feed` down the chain and returns what comes out at its end.
    ///
    /// `feed` has to be a column as high as the layer is wide; otherwise the
    /// call is refused with `ShapeMismatch`.
    fn feed_forward<F: Fn(S) -> S, D: Fn(S) -> S>(
        &mut self,
        feed: Matrix<S>,
        act: &Activation<F, D>,
    ) -> (r: Result<Vec<S>, NetworkError>)
        requires
            old(self).wf(),
            feed.wf(),
            accepts_all(act.function),
        ensures
            final(self).wf(),
            final(self).inputs() == old(self).inputs(),
            final(self).outputs() == old(self).outputs(),
            same_parameters(final(self).stages(), old(self).stages()),
            !feed@.has_shape(old(self).inputs(), 1) ==> refused(r, NetworkError::ShapeMismatch),
            feed@.has_shape(old(self).inputs(), 1) ==> r is Ok,
            r is Err ==> *final(self) == *old(self),
            r is Ok ==> r->Ok_0@.len() == old(self).outputs(),
            r is Ok ==> final(self).armed(),
            forall|f: spec_fn(S) -> S| #[trigger]
                computes(act.function, f) && r is Ok ==> r->Ok_0@ == forward(
                    old(self).stages(),
                    feed@,
                    f,
                ).flat(),
            forall|f: spec_fn(S) -> S| #[trigger]
                computes(act.function, f) && r is Ok ==> final(self).stages() == fed(
                    old(self).stages(),
                    feed@,
                    f,
                ),
    ;

    /// Takes one step of gradient descent on every stage from here on, for the
    /// outputs that the last forward pass returned and the targets wanted,
    /// and returns the signal for the layer before this one.
    ///
    /// Refused with `StaleState` where no forward pass went before, and with
    /// `ShapeMismatch` where `outputs` or `targets` is not as long as the chain's
    /// output is wide. A refused call changes nothing.
    fn back_propagate<F: Fn(S) -> S, D: Fn(S) -> S>(
        &mut self,
        lrate: S,
        outputs: &Vec<S>,
        targets: &Vec<S>,
        act: &Activation<F, D>,
    ) -> (r: Result<BackProps<S>, NetworkError>)
        requires
            old(self).wf(),
            accepts_all(act.derivative),
        ensures
            final(self).wf(),
            final(self).inputs() == old(self).inputs(),
            final(self).outputs() == old(self).outputs(),
            !old(self).armed() ==> refused(r, NetworkError::StaleState),
            old(self).armed() && outputs@.len() != old(self).outputs() ==> refused(
                r,
                NetworkError::ShapeMismatch,
            ),
            old(self).armed() && targets@.len() != old(self).outputs() ==> refused(
                r,
                NetworkError::ShapeMismatch,
            ),
            old(self).armed() && outputs@.len() == old(self).outputs() && targets@.len() == old(
                self,
            ).outputs() ==> r is Ok,
            r is Err ==> *final(self) == *old(self),
            r is Ok ==> r->Ok_0.wf() && r->Ok_0@.fits(old(self).inputs()),
            r is Ok ==> !final(self).armed(),
            forall|d: spec_fn(S) -> S| #[trigger]
                computes(act.derivative, d) && r is Ok ==> r->Ok_0@ == backward(
                    old(self).stages(),
                    outputs@,
                    targets@,
                    d,
                ),
            forall|d: spec_fn(S) -> S| #[trigger]
                computes(act.derivative, d) && r is Ok ==> final(self).stages() == trained(
                    old(self).stages(),
                    lrate,
                    outputs@,
                    targets@,
                    d,
                ),
    ;
}

/// The terminal layer: it holds no parameters. Going forward it turns the
/// column it is fed into the output vector; going backward it originates the
/// signal.
#[derive(Clone, Debug, PartialEq)]
pub struct EndLayer {
    width: usize,
    armed: bool,
}

impl EndLayer {
    /// How many numbers the layer passes through.
    pub closed spec fn width(&self) -> nat {
        self.width as nat
    }

    /// A backward pass is due.
    pub closed spec fn awaits_backward(&self) -> bool {
        self.armed
    }

    /// A terminal layer for outputs of the given width.
    pub fn new(width: usize) -> (r: EndLayer)
        ensures
            r.width() == width,
            !r.awaits_backward(),
    {
        EndLayer { width, armed: false }
    }
}

impl<S: Scalar> Layer<S> for EndLayer {
    open spec fn wf(&self) -> bool {
        true
    }

    open spec fn inputs(&self) -> nat {
        self.width()
    }

    open spec fn outputs(&self) -> nat {
        self.width()
    }

    open spec fn armed(&self) -> bool {
        self.awaits_backward()
    }

    open spec fn stages(&self) -> Seq<Stage<S>> {
        Seq::empty()
    }

    fn input_width(&self) -> (r: usize) {
        self.width
    }

    fn output_width(&self) -> (r: usize) {
        self.width
    }

    fn feed_forward<F: Fn(S) -> S, D: Fn(S) -> S>(
        &mut self,
        feed: Matrix<S>,
        act: &Activation<F, D>,
    ) -> (r: Result<Vec<S>, NetworkError>) {
        if feed.rows() != self.width || feed.cols() != 1 {
            return Err(NetworkError::ShapeMismatch);
        }
        match feed.transpose().row(0) {
            Some(outputs) => {
                self.armed = true;
                assert(outputs@ =~= feed@.flat());
                Ok(outputs)
            },
            None => Err(NetworkError::ShapeMismatch),
        }
    }

    fn back_propagate<F: Fn(S) -> S, D: Fn(S) -> S>(
        &mut self,
        lrate: S,
        outputs: &Vec<S>,
        targets: &Vec<S>,
        act: &Activation<F, D>,
    ) -> (r: Result<BackProps<S>, NetworkError>) {
        if !self.armed {
            return Err(NetworkError::StaleState);
        }
        if outputs.len() != self.width || targets.len() != self.width {
            return Err(NetworkError::ShapeMismatch);
        }
        let parsed = Matrix::column(outputs);
        let errors = Matrix::column(targets).subtract(&parsed)?;
        let gradients = parsed.map(&act.derivative);
        self.armed = false;
        Ok(BackProps(errors, gradients))
    }
}

/// A trainable layer: a weight matrix, a bias vector, the input it was fed
/// last, and the rest of the chain, which it owns.
///
/// The first trainable layer of a chain stands for the whole network: its
/// `predict` and `train` run the chain.
#[derive(Clone, Debug, PartialEq)]
pub struct ProcessLayer<S: Scalar, T: Layer<S>> {
    next: T,
    weights: Matrix<S>,
    biases: Matrix<S>,
    data: Matrix<S>,
    armed: bool,
}

impl<S: Scalar, T: Layer<S>> ProcessLayer<S, T> {
    /// The model of this layer alone.
    pub closed spec fn stage(&self) -> Stage<S> {
        Stage { weights: self.weights@, biases: self.biases@, cached: self.data@ }
    }

    /// The rest of the chain.
    pub closed spec fn rest(&self) -> T {
        self.next
    }

    /// A chain is its first stage followed by the stages of the rest.
    pub proof fn lemma_parts(&self)
        ensures
            self.stages() == seq![self.stage()] + self.rest().stages(),
            self.inputs() == self.stage().weights.cols,
            self.outputs() == self.rest().outputs(),
            self.wf() ==> self.stage().wf() && self.rest().wf() && self.stage().weights.rows
                == self.rest().inputs(),
    {
    }

    /// A layer drawn in front of a chain assembled for `widths`, from the same
    /// source in the state that the assembling left it in, is the chain
    /// assembled for the longer list of widths.
    pub proof fn lemma_assembled(&self, widths: Seq<nat>, start: RandomSource)
        requires
            widths.len() >= 1,
            widths[0] == self.rest().inputs(),
            self.rest().stages() == assembled::<S>(widths, start),
            self.stage() == Stage::<S>::drawn(
                self.rest().inputs(),
                self.inputs(),
                start.after_draws((2 * (widths.len() - 1)) as nat),
            ),
        ensures
            self.stages() == assembled::<S>(seq![self.inputs()] + widths, start),
    {
        lemma_assembled_in_front::<S>(self.inputs(), widths, start);
    }

    /// The weights: one row for each output, one column for each input.
    pub fn weights(&self) -> (r: &Matrix<S>)
        requires
            self.wf(),
        ensures
            r.wf(),
            r@ == self.stage().weights,
    {
        &self.weights
    }

    /// The biases: a column with one entry for each output.
    pub fn biases(&self) -> (r: &Matrix<S>)
        requires
            self.wf(),
        ensures
            r.wf(),
            r@ == self.stage().biases,
    {
        &self.biases
    }

    /// The input that the layer was fed last: a column, all zero at first.
    pub fn cached(&self) -> (r: &Matrix<S>)
        requires
            self.wf(),
        ensures
            r.wf(),
            r@ == self.stage().cached,
    {
        &self.data
    }

    /// The rest of the chain, which this layer owns.
    pub fn next(&self) -> (r: &T)
        ensures
            *r == self.rest(),
    {
        &self.next
    }

    /// A layer with `inputs` inputs in front of `next`, with weights and
    /// biases sampled independently from `source` and a cache of zeros.
    ///
    /// The weights take one draw from the source and the biases the next, so
    /// layers built alike from sources of the same seed are the same.
    pub fn new(next: T, inputs: usize, source: &mut RandomSource) -> (r: ProcessLayer<S, T>)
        requires
            next.wf(),
            next.inputs() * inputs <= usize::MAX,
        ensures
            r.wf(),
            r.inputs() == inputs,
            r.outputs() == next.outputs(),
            !r.armed(),
            r.rest() == next,
            r.stage() == Stage::<S>::drawn(next.inputs(), inputs as nat, *old(source)),
            r.stages() == seq![r.stage()] + next.stages(),
            *final(source) == old(source).advanced().advanced(),
    {
        let rows = next.input_width();
        let weights = Matrix::random(rows, inputs, source);
        let biases = Matrix::random(rows, 1, source);
        let data = Matrix::zeros(inputs, 1);
        ProcessLayer { next, weights, biases, data, armed: false }
    }

    /// A layer with the given parameters in front of `next`, with a cache of
    /// zeros.
    ///
    /// Refused with `ShapeMismatch` unless `weights` has one row for each input
    /// of `next` and `biases` is a column of the same height.
    pub fn with_parameters(next: T, weights: Matrix<S>, biases: Matrix<S>) -> (r: Result<
        Self,
        NetworkError,
    >)
        requires
            next.wf(),
            weights.wf(),
            biases.wf(),
        ensures
            !(weights@.rows == next.inputs() && biases@.has_shape(weights@.rows, 1)) ==> refused(
                r,
                NetworkError::ShapeMismatch,
            ),
            weights@.rows == next.inputs() && biases@.has_shape(weights@.rows, 1) ==> r is Ok,
            r is Ok ==> r->Ok_0.wf(),
            r is Ok ==> r->Ok_0.inputs() == weights@.cols,
            r is Ok ==> r->Ok_0.outputs() == next.outputs(),
            r is Ok ==> !r->Ok_0.armed(),
            r is Ok ==> r->Ok_0.rest() == next,
            r is Ok ==> r->Ok_0.stage() == Stage::fresh(weights@, biases@),
            r is Ok ==> r->Ok_0.stages() == seq![r->Ok_0.stage()] + next.stages(),
    {
        if weights.rows() != next.input_width() || biases.rows() != weights.rows() || biases.cols()
            != 1 {
            return Err(NetworkError::ShapeMismatch);
        }
        let data = Matrix::zeros(weights.cols(), 1);
        Ok(ProcessLayer { next, weights, biases, data, armed: false })
    }

    /// The output of the network for the input `data`.
    ///
    /// Refused with `ShapeMismatch` unless `data` is as long as the network is
    /// wide. No parameter changes; the layers cache what they were fed.
    pub fn predict<F: Fn(S) -> S, D: Fn(S) -> S>(
        &mut self,
        data: Vec<S>,
        act: &Activation<F, D>,
    ) -> (r: Result<Vec<S>, NetworkError>)
        requires
            old(self).wf(),
            accepts_all(act.function),
        ensures
            final(self).wf(),
            final(self).inputs() == old(self).inputs(),
            final(self).outputs() == old(self).outputs(),
            same_parameters(final(self).stages(), old(self).stages()),
            data@.len() != old(self).inputs() ==> refused(r, NetworkError::ShapeMismatch),
            data@.len() == old(self).inputs() ==> r is Ok,
            r is Err ==> *final(self) == *old(self),
            r is Ok ==> r->Ok_0@.len() == old(self).outputs(),
            r is Ok ==> final(self).armed(),
            forall|f: spec_fn(S) -> S| #[trigger]
                computes(act.function, f) && r is Ok ==> r->Ok_0@ == predicted(
                    old(self).stages(),
                    data@,
                    f,
                ),
            forall|f: spec_fn(S) -> S| #[trigger]
                computes(act.function, f) && r is Ok ==> final(self).stages() == fed(
                    old(self).stages(),
                    Grid::column(data@),
                    f,
                ),
    {
        self.feed_forward(Matrix::column(&data), act)
    }

    /// Trains the network on every example, in the order given, `epochs`
    /// times over: a forward pass on the input, then at once a backward pass
    /// on what came out and the target.
    ///
    /// Refused with `InvalidConfiguration` unless there are as many targets as
    /// inputs, and with `ShapeMismatch` unless every input is as long as the
    /// network is wide and every target as long as its output. A refused call
    /// changes nothing.
    pub fn train<F: Fn(S) -> S, D: Fn(S) -> S>(
        &mut self,
        lrate: S,
        inputs: Vec<Vec<S>>,
        targets: Vec<Vec<S>>,
        epochs: usize,
        act: &Activation<F, D>,
    ) -> (r: Result<(), NetworkError>)
        requires
            old(self).wf(),
            accepts_all(act.function),
            accepts_all(act.derivative),
        ensures
            final(self).wf(),
            final(self).inputs() == old(self).inputs(),
            final(self).outputs() == old(self).outputs(),
            inputs@.len() != targets@.len() ==> refused(r, NetworkError::InvalidConfiguration),
            inputs@.len() == targets@.len() && !examples_fit(
                lines_of(inputs@),
                lines_of(targets@),
                old(self).inputs(),
                old(self).outputs(),
            ) ==> refused(r, NetworkError::ShapeMismatch),
            inputs@.len() == targets@.len() && examples_fit(
                lines_of(inputs@),
                lines_of(targets@),
                old(self).inputs(),
                old(self).outputs(),
            ) ==> r is Ok,
            r is Err ==> *final(self) == *old(self),
            r is Ok && (epochs == 0 || inputs@.len() == 0) ==> *final(self) == *old(self),
            r is Ok && epochs > 0 && inputs@.len() > 0 ==> !final(self).armed(),
            forall|f: spec_fn(S) -> S, d: spec_fn(S) -> S|
                #![trigger computes(act.function, f), computes(act.derivative, d)]
                computes(act.function, f) && computes(act.derivative, d) && r is Ok
                    ==> final(self).stages() == after_epochs(
                    old(self).stages(),
                    lrate,
                    lines_of(inputs@),
                    lines_of(targets@),
                    epochs as nat,
                    f,
                    d,
                ),
    {
        if inputs.len() != targets.len() {
            return Err(NetworkError::InvalidConfiguration);
        }
        let width = self.input_width();
        let outputs = self.output_width();
        let ghost ins = lines_of(inputs@);
        let ghost outs = lines_of(targets@);
        let ghost start = *self;
        let mut example: usize = 0;
        while example < inputs.len()
            invariant
                inputs@.len() == targets@.len(),
                example <= inputs@.len(),
                ins == lines_of(inputs@),
                outs == lines_of(targets@),
                *self == start,
                start == *old(self),
                start.wf(),
                start.inputs() == width,
                start.outputs() == outputs,
                forall|i: int| 0 <= i < example ==> (#[trigger] ins[i]).len() == width,
                forall|i: int| 0 <= i < example ==> (#[trigger] outs[i]).len() == outputs,
            decreases inputs.len() - example,
        {
            if inputs[example].len() != width || targets[example].len() != outputs {
                assert(ins[example as int].len() != width || outs[example as int].len()
                    != outputs);
                return Err(NetworkError::ShapeMismatch);
            }
            example += 1;
        }
        assert(examples_fit(ins, outs, width as nat, outputs as nat));
        let mut epoch: usize = 0;
        while epoch < epochs
            invariant
                epoch <= epochs,
                self.wf(),
                self.inputs() == width,
                self.outputs() == outputs,
                accepts_all(act.function),
                accepts_all(act.derivative),
                inputs@.len() == targets@.len(),
                ins == lines_of(inputs@),
                outs == lines_of(targets@),
                examples_fit(ins, outs, width as nat, outputs as nat),
                epoch == 0 || inputs@.len() == 0 ==> *self == start,
                epoch > 0 && inputs@.len() > 0 ==> !self.armed(),
                forall|f: spec_fn(S) -> S, d: spec_fn(S) -> S|
                    #![trigger computes(act.function, f), computes(act.derivative, d)]
                    computes(act.function, f) && computes(act.derivative, d) ==> self.stages()
                        == after_epochs(start.stages(), lrate, ins, outs, epoch as nat, f, d),
            decreases epochs - epoch,
        {
            let mut example: usize = 0;
            while example < inputs.len()
                invariant
                    example <= inputs@.len(),
                    self.wf(),
                    self.inputs() == width,
                    self.outputs() == outputs,
                    accepts_all(act.function),
                    accepts_all(act.derivative),
                    inputs@.len() == targets@.len(),
                    ins == lines_of(inputs@),
                    outs == lines_of(targets@),
                    examples_fit(ins, outs, width as nat, outputs as nat),
                    (epoch == 0 || inputs@.len() == 0) && example == 0 ==> *self == start,
                    (epoch > 0 && inputs@.len() > 0) || example > 0 ==> !self.armed(),
                    forall|f: spec_fn(S) -> S, d: spec_fn(S) -> S|
                        #![trigger computes(act.function, f), computes(act.derivative, d)]
                        computes(act.function, f) && computes(act.derivative, d) ==> self.stages()
                            == after_examples(
                            after_epochs(start.stages(), lrate, ins, outs, epoch as nat, f, d),
                            lrate,
                            ins,
                            outs,
                            example as nat,
                            f,
                            d,
                        ),
                decreases inputs.len() - example,
            {
                let ghost before = self.stages();
                assert(ins[example as int] == inputs@[example as int]@);
                assert(outs[example as int] == targets@[example as int]@);
                let result = self.feed_forward(Matrix::column(&inputs[example]), act)?;
                let ghost between = self.stages();
                self.back_propagate(lrate, &result, &targets[example], act)?;
                assert forall|f: spec_fn(S) -> S, d: spec_fn(S) -> S|
                    #![trigger computes(act.function, f), computes(act.derivative, d)]
                    computes(act.function, f) && computes(act.derivative, d) implies self.stages()
                    == after_examples(
                    after_epochs(start.stages(), lrate, ins, outs, epoch as nat, f, d),
                    lrate,
                    ins,
                    outs,
                    (example + 1) as nat,
                    f,
                    d,
                ) by {
                    assert(result@ == predicted(before, ins[example as int], f));
                    assert(between == fed(before, Grid::column(ins[example as int]), f));
                    assert(self.stages() == trained(
                        between,
                        lrate,
                        result@,
                        outs[example as int],
                        d,
                    ));
                }
                example += 1;
            }
            epoch += 1;
        }
        Ok(())
    }
}

impl<S: Scalar, T: Layer<S>> Layer<S> for ProcessLayer<S, T> {
    closed spec fn wf(&self) -> bool {
        &&& self.next.wf()
        &&& self.weights.wf()
        &&& self.biases.wf()
        &&& self.data.wf()
        &&& self.stage().wf()
        &&& self.weights@.rows == self.next.inputs()
    }

    closed spec fn inputs(&self) -> nat {
        self.weights@.cols
    }

    closed spec fn outputs(&self) -> nat {
        self.next.outputs()
    }

    closed spec fn armed(&self) -> bool {
        self.armed && self.next.armed()
    }

    closed spec fn stages(&self) -> Seq<Stage<S>> {
        seq![self.stage()] + self.next.stages()
    }

    fn input_width(&self) -> (r: usize) {
        self.weights.cols()
    }

    fn output_width(&self) -> (r: usize) {
        self.next.output_width()
    }

    fn feed_forward<F: Fn(S) -> S, D: Fn(S) -> S>(
        &mut self,
        feed: Matrix<S>,
        act: &Activation<F, D>,
    ) -> (r: Result<Vec<S>, NetworkError>) {
        if feed.rows() != self.weights.cols() || feed.cols() != 1 {
            return Err(NetworkError::ShapeMismatch);
        }
        let ghost before = *self;
        let ghost given = feed@;
        let result = self.weights.multiply(&feed)?.add(&self.biases)?.map(&act.function);
        self.data = feed;
        self.armed = true;
        let r = self.next.feed_forward(result, act);
        proof {
            lemma_chain_parts(before.stage(), before.next.stages());
            lemma_chain_parts(self.stage(), self.next.stages());
            assert forall|f: spec_fn(S) -> S| #[trigger]
                computes(act.function, f) implies r->Ok_0@ == forward(
                before.stages(),
                given,
                f,
            ).flat() && self.stages() == fed(before.stages(), given, f) by {
                assert(result@ == before.stage().activated(given, f));
                assert(self.stage() == before.stage().fed(given));
                assert(self.stages() =~= fed(before.stages(), given, f));
            }
        }
        r
    }

    fn back_propagate<F: Fn(S) -> S, D: Fn(S) -> S>(
        &mut self,
        lrate: S,
        outputs: &Vec<S>,
        targets: &Vec<S>,
        act: &Activation<F, D>,
    ) -> (r: Result<BackProps<S>, NetworkError>) {
        if !self.armed {
            return Err(NetworkError::StaleState);
        }
        let ghost before = *self;
        let BackProps(errors, gradients) = self.next.back_propagate(lrate, outputs, targets, act)?;
        let ghost down = Signal { errors: errors@, gradients: gradients@ };
        let scale = |x: S| -> (y: S)
            ensures
                y == x.times_spec(lrate),
            { x.times(lrate) };
        let gradients = gradients.dot_multiply(&errors)?.map(&scale);
        assert(gradients@ == Stage::delta(down, lrate)) by {
            assert(computes(scale, |x: S| x.times_spec(lrate)));
        }
        let weights = self.weights.add(&gradients.multiply(&self.data.transpose())?)?;
        let biases = self.biases.add(&gradients)?;
        let errors = self.weights.transpose().multiply(&errors)?;
        let gradients = self.data.map(&act.derivative);
        self.weights = weights;
        self.biases = biases;
        self.armed = false;
        let signal = BackProps(errors, gradients);
        proof {
            lemma_chain_parts(before.stage(), before.next.stages());
            lemma_chain_parts(self.stage(), self.next.stages());
            assert forall|d: spec_fn(S) -> S| #[trigger]
                computes(act.derivative, d) implies signal@ == backward(
                before.stages(),
                outputs@,
                targets@,
                d,
            ) && self.stages() == trained(before.stages(), lrate, outputs@, targets@, d) by {
                assert(down == backward(before.next.stages(), outputs@, targets@, d));
                assert(self.stage() == before.stage().corrected(down, lrate));
                assert(signal@ == before.stage().passed_back(down, d));
                assert(self.stages() =~= trained(before.stages(), lrate, outputs@, targets@, d));
            }
        }
        Ok(signal)
    }
}

} // verus!
