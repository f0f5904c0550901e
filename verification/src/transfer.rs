//! The activation families a layer can carry.  The scalar value and
//! derivative formulas are floating-point work evaluated by the numeric
//! layer around this crate; here the family is the tag the rest of the
//! model's bookkeeping and persistence speak of.
use vstd::prelude::*;

verus! {

/// One activation family: `Nothing` passes values through unchanged and is
/// also what feeds raw inputs to the first layer.
#[derive(Clone, Copy, Debug, PartialEq, Eq, Structural)]
pub enum TransferFunction {
    Nothing,
    Relu,
    LeakyRelu,
    Tanh,
    Sigmoid,
    Sigmoid2,
}

} // verus!
