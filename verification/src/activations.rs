//! Activations: a scalar nonlinearity bundled with its derivative.

use vstd::prelude::*;

verus! {

/// A pair of scalar functions handed to every forward and backward pass.
///
/// `function` is applied to what a layer computes. `derivative` is applied to
/// the *output* of `function`, never to its input: it has to give the slope of
/// `function` as a function of the value that `function` returned. That can
/// only be done for a function whose slope is determined by its own output,
/// as for the logistic sigmoid, where the slope at output `y` is `y * (1 - y)`.
/// An activation without this property must not be used with this engine.
/// Nothing checks that the two functions fit together.
pub struct Activation<F, D> {
    pub function: F,
    pub derivative: D,
}

} // verus!
