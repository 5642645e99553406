//! Layer shapes of a multi-layer network, derived from its topology.
use vstd::prelude::*;

verus! {

/// The widths one layer connects: `inputs` columns in, `outputs` columns out.
#[derive(Clone, Copy, Debug, PartialEq, Eq, Structural)]
pub struct LayerShape {
    pub inputs: usize,
    pub outputs: usize,
}

impl LayerShape {
    /// Rows and columns of the layer's weight matrix.
    pub fn weights_dims(&self) -> (r: (usize, usize))
        ensures
            r == (self.inputs, self.outputs),
    {
        (self.inputs, self.outputs)
    }

    /// Rows and columns of the layer's bias row, which is broadcast over
    /// every sample.
    pub fn bias_dims(&self) -> (r: (usize, usize))
        ensures
            r == (1usize, self.outputs),
    {
        (1, self.outputs)
    }
}

/// The layers of a topology `[w0, w1, ..., wL]`: layer `k` connects `w_k`
/// to `w_{k+1}`. A topology of fewer than two widths has no layer.
pub open spec fn shapes_of(topology: Seq<usize>) -> Seq<LayerShape> {
    if topology.len() < 2 {
        Seq::empty()
    } else {
        Seq::new(
            (topology.len() - 1) as nat,
            |k: int| LayerShape { inputs: topology[k], outputs: topology[k + 1] },
        )
    }
}

/// Each layer's output width is the next layer's input width.
pub open spec fn is_chained(shapes: Seq<LayerShape>) -> bool {
    forall|k: int| 0 <= k < shapes.len() - 1 ==> #[trigger] shapes[k].outputs == shapes[k + 1].inputs
}

/// The shape of each layer of a network built from `topology`, in order.
pub fn layer_shapes(topology: &[usize]) -> (r: Vec<LayerShape>)
    ensures
        r@ == shapes_of(topology@),
{
    let mut r: Vec<LayerShape> = Vec::new();
    if topology.len() < 2 {
        return r;
    }
    let mut k: usize = 0;
    while k + 1 < topology.len()
        invariant
            topology.len() >= 2,
            k + 1 <= topology.len(),
            r@ == shapes_of(topology@).take(k as int),
        decreases topology.len() - k,
    {
        r.push(LayerShape { inputs: topology[k], outputs: topology[k + 1] });
        k = k + 1;
        assert(r@ =~= shapes_of(topology@).take(k as int));
    }
    assert(r@ =~= shapes_of(topology@));
    r
}

/// A topology `[w0, w1, ..., wL]` with `L >= 1` gives exactly `L` layers;
/// layer `i` has a `(w_i, w_{i+1})` weight matrix and a `(1, w_{i+1})` bias
/// row, so that consecutive layers fit together, the first takes `w0`
/// columns and the last gives `wL`.
pub proof fn lemma_shape_invariants(topology: Seq<usize>)
    requires
        topology.len() >= 2,
    ensures
        shapes_of(topology).len() == topology.len() - 1,
        forall|i: int|
            0 <= i < topology.len() - 1 ==> (#[trigger] shapes_of(topology)[i]).inputs
                == topology[i] && shapes_of(topology)[i].outputs == topology[i + 1],
        is_chained(shapes_of(topology)),
        shapes_of(topology)[0].inputs == topology[0],
        shapes_of(topology).last().outputs == topology.last(),
{
}

/// Whether a network of `topology` can be fitted on an `x_rows` by `x_cols`
/// sample matrix with a `y_rows` by `y_cols` target matrix: the network has a
/// layer, takes the samples' width and yields the targets' width, and each
/// sample has a target.
pub fn fit_dims_agree(
    topology: &[usize],
    x_rows: usize,
    x_cols: usize,
    y_rows: usize,
    y_cols: usize,
) -> (r: bool)
    ensures
        r == (topology@.len() >= 2 && x_cols == topology@[0] && y_cols == topology@.last()
            && x_rows == y_rows),
{
    topology.len() >= 2 && x_cols == topology[0] && y_cols == topology[topology.len() - 1]
        && x_rows == y_rows
}

} // verus!
