//! Shape bookkeeping of a dense-layer chain, and the sign-driven decisions
//! of the resilient weight-update rule.
//!
//! A layer owns four per-weight matrices of one shared shape: `size` rows
//! (one per neuron) and `previous + 1` columns (one per input of the layer,
//! plus the bias column).  The matrices' float contents live with the numeric
//! layer around this crate; their shapes, and the update rule's decisions,
//! are plain values and are verified here.
use vstd::prelude::*;

use crate::transfer::TransferFunction;

verus! {

/// What one layer is built from: its neuron count and activation family.
#[derive(Clone, Debug)]
pub struct DefaultLayerSettings {
    pub size: usize,
    pub transfer_function: TransferFunction,
}

/// The shape of one layer's per-weight matrices: `size` rows, and one column
/// per input plus the bias column.
#[derive(Clone, Copy, Debug, PartialEq, Eq, Structural)]
pub struct LayerShape {
    /// The layer's neuron count: its weight matrices' row count.
    pub size: usize,
    /// The previous layer's neuron count (or the network's input count for
    /// the first layer).
    pub previous: usize,
}

impl LayerShape {
    /// The column count of every per-weight matrix of the layer: one weight
    /// per input, and the bias weight.
    pub open spec fn columns(&self) -> int {
        self.previous + 1
    }
}

/// The shape chain is consistent end to end: the first layer reads the
/// network's inputs, and every other layer reads the neurons of the one
/// before it.
pub open spec fn consistent_shapes(inputs_amount: int, shapes: Seq<LayerShape>) -> bool {
    &&& shapes.len() >= 1
    &&& shapes[0].previous == inputs_amount
    &&& forall|i: int| 1 <= i < shapes.len() ==> #[trigger] shapes[i].previous == shapes[i
        - 1].size
}

/// The matrix shapes a network with the given inputs and layer settings is
/// built with.  Building with an empty layer list is a contract violation,
/// ruled out here rather than reported.
pub fn layer_shapes(inputs_amount: usize, layers: &Vec<DefaultLayerSettings>) -> (r: Vec<
    LayerShape,
>)
    requires
        layers@.len() >= 1,
    ensures
        r@.len() == layers@.len(),
        forall|i: int| 0 <= i < r@.len() ==> (#[trigger] r@[i]).size == layers@[i].size,
        r@[0].previous == inputs_amount,
        forall|i: int| 1 <= i < r@.len() ==> (#[trigger] r@[i]).previous == layers@[i - 1].size,
        consistent_shapes(inputs_amount as int, r@),
{
    let mut r: Vec<LayerShape> = Vec::new();
    let mut i: usize = 0;
    while i < layers.len()
        invariant
            i <= layers@.len(),
            r@.len() == i,
            forall|j: int| 0 <= j < i ==> (#[trigger] r@[j]).size == layers@[j].size,
            i > 0 ==> r@[0].previous == inputs_amount,
            forall|j: int| 1 <= j < i ==> (#[trigger] r@[j]).previous == layers@[j - 1].size,
        decreases layers@.len() - i,
    {
        let previous = if i == 0 {
            inputs_amount
        } else {
            layers[i - 1].size
        };
        r.push(LayerShape { size: layers[i].size, previous });
        i = i + 1;
    }
    r
}

/// A gradient sign as the update rule stores it: -1, 0 or 1.
pub open spec fn is_sign(s: i8) -> bool {
    -1 <= s <= 1
}

/// What the resilient update rule does to one weight, decided from the sign
/// of the fresh batch gradient and the sign stored for the batch before.
#[derive(Clone, Copy, Debug, PartialEq, Eq, Structural)]
pub enum RpropDecision {
    /// The signs agree: the learning rate grows (capped), the weight steps
    /// against the gradient.
    Agree,
    /// The signs disagree: the learning rate shrinks (floored), the weight
    /// stays put.
    Disagree,
    /// Either sign is zero: the weight steps at the unchanged rate.
    Neutral,
}

/// The branch the update rule takes for one weight.
pub open spec fn rprop_decision_spec(current: i8, previous: i8) -> RpropDecision {
    if current * previous > 0 {
        RpropDecision::Agree
    } else if current * previous < 0 {
        RpropDecision::Disagree
    } else {
        RpropDecision::Neutral
    }
}

/// The sign stored for the next batch: the fresh sign, except that a
/// disagreement is recorded as zero.
pub open spec fn next_sign_spec(current: i8, previous: i8) -> i8 {
    if current * previous < 0 {
        0
    } else {
        current
    }
}

/// Decides the update-rule branch for one weight and the sign to store for
/// the next batch, exactly as `rprop_decision_spec` and `next_sign_spec`
/// say.
pub fn rprop_decide(current: i8, previous: i8) -> (r: (RpropDecision, i8))
    ensures
        r.0 == rprop_decision_spec(current, previous),
        r.1 == next_sign_spec(current, previous),
{
    proof {
        assert(-16384 <= (current as int) * (previous as int) <= 16384) by (nonlinear_arith)
            requires
                -128 <= current as int <= 127,
                -128 <= previous as int <= 127,
        ;
    }
    let combination = (current as i16) * (previous as i16);
    if combination > 0 {
        (RpropDecision::Agree, current)
    } else if combination < 0 {
        (RpropDecision::Disagree, 0)
    } else {
        (RpropDecision::Neutral, current)
    }
}

/// Law: the sign store stays in {-1, 0, 1}: whatever sign the fresh batch
/// gradient has, the sign recorded for the next batch is again a sign.
pub proof fn lemma_sign_closed(current: i8, previous: i8)
    requires
        is_sign(current),
    ensures
        is_sign(next_sign_spec(current, previous)),
{
}

/// The shape-bearing part of one stored layer, as persistence restores it:
/// the lengths of its weight and learning-rate rows, and its previous-sign
/// matrix whole.  The float contents stay with the caller; everything the
/// shape invariant speaks of is here.
pub struct StoredLayerShape {
    /// The length of each row of the weight matrix.
    pub weight_row_lens: Vec<usize>,
    /// The length of each row of the learning-rate matrix.
    pub rate_row_lens: Vec<usize>,
    /// The previous-sign matrix itself.
    pub signs: Vec<Vec<i8>>,
}

/// One stored layer keeps the shape invariant: the three matrices share one
/// shape, every row has one entry per input plus the bias entry, and every
/// stored sign is a sign.
pub open spec fn stored_layer_consistent_spec(previous: int, layer: StoredLayerShape) -> bool {
    let rows = layer.weight_row_lens@.len() as int;
    &&& layer.rate_row_lens@.len() == rows
    &&& layer.signs@.len() == rows
    &&& forall|i: int| 0 <= i < rows ==> #[trigger] layer.weight_row_lens@[i] == previous + 1
    &&& forall|i: int| 0 <= i < rows ==> #[trigger] layer.rate_row_lens@[i] == previous + 1
    &&& forall|i: int| 0 <= i < rows ==> (#[trigger] layer.signs@[i])@.len() == previous + 1
    &&& forall|i: int, j: int|
        0 <= i < rows && 0 <= j < layer.signs@[i]@.len() ==> is_sign(
            #[trigger] layer.signs@[i]@[j],
        )
}

/// The input count a stored layer reads: the network's inputs for the first
/// layer, the row count of the layer before for every other.
pub open spec fn stored_previous(inputs_amount: int, layers: Seq<StoredLayerShape>, l: int) -> int {
    if l == 0 {
        inputs_amount
    } else {
        layers[l - 1].weight_row_lens@.len() as int
    }
}

/// A stored model keeps the shape invariants: at least one layer, each
/// consistent with the size chain.
pub open spec fn stored_model_consistent_spec(
    inputs_amount: int,
    layers: Seq<StoredLayerShape>,
) -> bool {
    &&& layers.len() >= 1
    &&& forall|l: int|
        0 <= l < layers.len() ==> stored_layer_consistent_spec(
            stored_previous(inputs_amount, layers, l),
            #[trigger] layers[l],
        )
}

/// Checks one stored layer against the shape invariant, exactly as
/// `stored_layer_consistent_spec` says.
pub fn stored_layer_consistent(previous: usize, layer: &StoredLayerShape) -> (r: bool)
    ensures
        r == stored_layer_consistent_spec(previous as int, *layer),
{
    let rows = layer.weight_row_lens.len();
    if layer.rate_row_lens.len() != rows || layer.signs.len() != rows {
        return false;
    }
    if rows == 0 {
        return true;
    }
    if previous == usize::MAX {
        // no machine row can hold `previous + 1` entries
        assert(layer.weight_row_lens@[0] < previous as int + 1);
        return false;
    }
    let expected = previous + 1;
    let mut i: usize = 0;
    while i < rows
        invariant
            i <= rows,
            rows == layer.weight_row_lens@.len(),
            layer.rate_row_lens@.len() == rows,
            layer.signs@.len() == rows,
            expected == previous + 1,
            forall|k: int| 0 <= k < i ==> #[trigger] layer.weight_row_lens@[k] == previous + 1,
            forall|k: int| 0 <= k < i ==> #[trigger] layer.rate_row_lens@[k] == previous + 1,
            forall|k: int| 0 <= k < i ==> (#[trigger] layer.signs@[k])@.len() == previous + 1,
            forall|k: int, j: int|
                0 <= k < i && 0 <= j < layer.signs@[k]@.len() ==> is_sign(
                    #[trigger] layer.signs@[k]@[j],
                ),
        decreases rows - i,
    {
        if layer.weight_row_lens[i] != expected {
            return false;
        }
        if layer.rate_row_lens[i] != expected {
            return false;
        }
        let row = &layer.signs[i];
        if row.len() != expected {
            return false;
        }
        let mut j: usize = 0;
        while j < row.len()
            invariant
                j <= row@.len(),
                row == &layer.signs[i as int],
                0 <= i < layer.signs@.len(),
                forall|m: int| 0 <= m < j ==> is_sign(#[trigger] row@[m]),
            decreases row@.len() - j,
        {
            if row[j] < -1 || row[j] > 1 {
                return false;
            }
            j = j + 1;
        }
        i = i + 1;
    }
    true
}

/// Checks a whole stored model against the shape invariants of the size
/// chain, exactly as `stored_model_consistent_spec` says.  A model restored
/// from persisted bytes is accepted only when this holds.
pub fn stored_model_consistent(inputs_amount: usize, layers: &Vec<StoredLayerShape>) -> (r: bool)
    ensures
        r == stored_model_consistent_spec(inputs_amount as int, layers@),
{
    if layers.len() == 0 {
        return false;
    }
    let mut previous = inputs_amount;
    let mut l: usize = 0;
    while l < layers.len()
        invariant
            l <= layers@.len(),
            layers@.len() >= 1,
            previous as int == stored_previous(inputs_amount as int, layers@, l as int),
            forall|k: int|
                0 <= k < l ==> stored_layer_consistent_spec(
                    stored_previous(inputs_amount as int, layers@, k),
                    #[trigger] layers@[k],
                ),
        decreases layers@.len() - l,
    {
        if !stored_layer_consistent(previous, &layers[l]) {
            return false;
        }
        previous = layers[l].weight_row_lens.len();
        l = l + 1;
    }
    true
}

/// Law: a weight is left unstepped exactly when the fresh gradient's sign
/// contradicts the stored one; and after such a disagreement the next batch
/// can never be another disagreement.
pub proof fn lemma_disagreement_resets(current: i8, previous: i8, later: i8)
    ensures
        rprop_decision_spec(current, previous) == RpropDecision::Disagree <==> current * previous
            < 0,
        rprop_decision_spec(current, previous) == RpropDecision::Disagree
            ==> rprop_decision_spec(later, next_sign_spec(current, previous))
            != RpropDecision::Disagree,
{
    assert(rprop_decision_spec(current, previous) == RpropDecision::Disagree ==> next_sign_spec(
        current,
        previous,
    ) == 0);
    assert(later * 0 == 0) by (nonlinear_arith);
}

} // verus!
