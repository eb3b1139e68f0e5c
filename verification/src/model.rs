use crate::matrix::{grid_add, grid_hadamard, grid_mul, grid_sub, grid_transpose, is_grid};
use crate::scalar::Scalar;
use vstd::prelude::*;

verus! {

/// What a network is, as mathematics: its layer sizes, one weight grid and
/// one bias column per transition, its learning rate, and the activations of
/// the latest forward pass (empty before the first).
pub struct NetModel<T> {
    pub layers: Seq<nat>,
    pub weights: Seq<Seq<Seq<T>>>,
    pub biases: Seq<Seq<Seq<T>>>,
    pub learning_rate: T,
    pub trace: Seq<Seq<Seq<T>>>,
}

/// What one backward sweep carries from layer to layer.
pub struct BackState<T> {
    pub weights: Seq<Seq<Seq<T>>>,
    pub biases: Seq<Seq<Seq<T>>>,
    pub grad: Seq<Seq<T>>,
    pub err: Seq<Seq<T>>,
}

/// The sizes describe a network: at least two layers, none empty.
pub open spec fn layers_ok(layers: Seq<nat>) -> bool {
    layers.len() >= 2 && forall|i: int| 0 <= i < layers.len() ==> #[trigger] layers[i] > 0
}

/// The grids are one per transition and have the shapes that the sizes ask for.
pub open spec fn params_fit<T>(
    layers: Seq<nat>,
    weights: Seq<Seq<Seq<T>>>,
    biases: Seq<Seq<Seq<T>>>,
) -> bool {
    &&& weights.len() == layers.len() - 1
    &&& biases.len() == layers.len() - 1
    &&& forall|i: int|
        0 <= i < layers.len() - 1 ==> is_grid(#[trigger] weights[i], layers[i + 1], layers[i])
    &&& forall|i: int| 0 <= i < layers.len() - 1 ==> is_grid(#[trigger] biases[i], layers[i + 1], 1)
}

/// The trace holds one column per layer, of that layer's size.
pub open spec fn trace_fits<T>(layers: Seq<nat>, trace: Seq<Seq<Seq<T>>>) -> bool {
    &&& trace.len() == layers.len()
    &&& forall|i: int| 0 <= i < layers.len() ==> is_grid(#[trigger] trace[i], layers[i], 1)
}

/// The model is consistent: valid sizes, fitting parameters, and a trace that
/// is either absent or fitting.
pub open spec fn model_wf<T>(m: NetModel<T>) -> bool {
    &&& layers_ok(m.layers)
    &&& params_fit(m.layers, m.weights, m.biases)
    &&& (m.trace.len() == 0 || trace_fits(m.layers, m.trace))
}

/// The vector as a matrix of one column.
pub open spec fn column<T>(v: Seq<T>) -> Seq<Seq<T>> {
    Seq::new(v.len(), |i: int| seq![v[i]])
}

/// The first column of a grid, as a vector.
pub open spec fn flatten_column<T>(g: Seq<Seq<T>>) -> Seq<T> {
    Seq::new(g.len(), |i: int| g[i][0])
}

/// The logistic function applied to every entry.
pub open spec fn grid_sigmoid<T: Scalar>(a: Seq<Seq<T>>) -> Seq<Seq<T>> {
    Seq::new(a.len(), |i: int| Seq::new(a[i].len(), |j: int| a[i][j].sigmoid_spec()))
}

/// Every entry multiplied from the left by `c`.
pub open spec fn grid_scale<T: Scalar>(c: T, a: Seq<Seq<T>>) -> Seq<Seq<T>> {
    Seq::new(a.len(), |i: int| Seq::new(a[i].len(), |j: int| c.mul_spec(a[i][j])))
}

/// The derivative of the logistic function, written over its value: each
/// entry `x` becomes `(1 - x) * x`.
pub open spec fn grid_slope<T: Scalar>(a: Seq<Seq<T>>) -> Seq<Seq<T>> {
    Seq::new(
        a.len(),
        |i: int|
            Seq::new(a[i].len(), |j: int| T::one_spec().sub_spec(a[i][j]).mul_spec(a[i][j])),
    )
}

/// The number two, as one plus one.
pub open spec fn two_spec<T: Scalar>() -> T {
    T::one_spec().add_spec(T::one_spec())
}

/// The activation of a layer from that of the layer before:
/// `sigmoid(w * x + b)`.
pub open spec fn layer_output<T: Scalar>(
    w: Seq<Seq<T>>,
    b: Seq<Seq<T>>,
    x: Seq<Seq<T>>,
) -> Seq<Seq<T>> {
    grid_sigmoid(grid_add(grid_mul(w, x, 1), b))
}

/// The activation of layer `k` on the given input: the input itself as a
/// column for layer 0, and the output of transition `k - 1` after that.
pub open spec fn activation<T: Scalar>(
    weights: Seq<Seq<Seq<T>>>,
    biases: Seq<Seq<Seq<T>>>,
    input: Seq<T>,
    k: nat,
) -> Seq<Seq<T>>
    decreases k,
{
    if k == 0 {
        column(input)
    } else {
        layer_output(
            weights[k - 1],
            biases[k - 1],
            activation(weights, biases, input, (k - 1) as nat),
        )
    }
}

/// The activations of all layers, the input's included.
pub open spec fn forward_trace<T: Scalar>(
    weights: Seq<Seq<Seq<T>>>,
    biases: Seq<Seq<Seq<T>>>,
    input: Seq<T>,
) -> Seq<Seq<Seq<T>>> {
    Seq::new(weights.len() + 1, |k: int| activation(weights, biases, input, k as nat))
}

/// What a forward pass returns: the last layer's activation as a vector.
pub open spec fn run_output<T: Scalar>(
    weights: Seq<Seq<Seq<T>>>,
    biases: Seq<Seq<Seq<T>>>,
    input: Seq<T>,
) -> Seq<T> {
    flatten_column(activation(weights, biases, input, weights.len()))
}

/// The state with which a backward sweep begins: the error
/// `2 * (expected - outputs)` and the slope at the outputs.
pub open spec fn back_start<T: Scalar>(
    weights: Seq<Seq<Seq<T>>>,
    biases: Seq<Seq<Seq<T>>>,
    outputs: Seq<T>,
    expected: Seq<T>,
) -> BackState<T> {
    BackState {
        weights,
        biases,
        grad: grid_slope(column(outputs)),
        err: grid_scale(two_spec::<T>(), grid_sub(column(expected), column(outputs))),
    }
}

/// The update of transition `i`. With `delta` the entry by entry product of `grad` and `err`, the weights lose
/// `rate * (delta * trace[i]^T)` and the biases lose `rate * delta`; the
/// layer below receives the slope at its activation and the error
/// `weights[i]^T * delta`, taken with the new weights.
pub open spec fn back_step<T: Scalar>(
    s: BackState<T>,
    trace: Seq<Seq<Seq<T>>>,
    rate: T,
    i: int,
) -> BackState<T> {
    let delta = grid_hadamard(s.grad, s.err);
    let width = trace[i].len();
    let w = grid_sub(
        s.weights[i],
        grid_scale(rate, grid_mul(delta, grid_transpose(trace[i], 1), width)),
    );
    let b = grid_sub(s.biases[i], grid_scale(rate, delta));
    BackState {
        weights: s.weights.update(i, w),
        biases: s.biases.update(i, b),
        grad: grid_slope(trace[i]),
        err: grid_mul(grid_transpose(w, width), delta, 1),
    }
}

/// The state after the transitions from the last one down to `lo` have been
/// updated, in that order.
pub open spec fn back_down<T: Scalar>(
    start: BackState<T>,
    trace: Seq<Seq<Seq<T>>>,
    rate: T,
    lo: nat,
) -> BackState<T>
    decreases start.weights.len() - lo,
{
    if lo >= start.weights.len() {
        start
    } else {
        back_step(back_down(start, trace, rate, lo + 1), trace, rate, lo as int)
    }
}

/// The model after one backward sweep over its latest trace.
pub open spec fn backpropagated<T: Scalar>(
    m: NetModel<T>,
    outputs: Seq<T>,
    expected: Seq<T>,
) -> NetModel<T> {
    let end = back_down(
        back_start(m.weights, m.biases, outputs, expected),
        m.trace,
        m.learning_rate,
        0,
    );
    NetModel { weights: end.weights, biases: end.biases, ..m }
}

/// The model after a forward pass on `input`: only the trace changes.
pub open spec fn ran<T: Scalar>(m: NetModel<T>, input: Seq<T>) -> NetModel<T> {
    NetModel { trace: forward_trace(m.weights, m.biases, input), ..m }
}

/// The model after one training sample: a forward pass, then a backward
/// sweep from its output.
pub open spec fn sample_step<T: Scalar>(
    m: NetModel<T>,
    input: Seq<T>,
    expected: Seq<T>,
) -> NetModel<T> {
    backpropagated(ran(m, input), run_output(m.weights, m.biases, input), expected)
}

/// The sample at `i` exists and has the widths of the first and last layer.
pub open spec fn sample_fits<T>(
    layers: Seq<nat>,
    inputs: Seq<Seq<T>>,
    expected: Seq<Seq<T>>,
    i: int,
) -> bool {
    &&& 0 <= i < inputs.len()
    &&& i < expected.len()
    &&& inputs[i].len() == layers[0]
    &&& expected[i].len() == layers[layers.len() - 1]
}

/// The model after the first `n` samples, taken in order.
pub open spec fn trained<T: Scalar>(
    m: NetModel<T>,
    inputs: Seq<Seq<T>>,
    expected: Seq<Seq<T>>,
    n: nat,
) -> NetModel<T>
    decreases n,
{
    if n == 0 {
        m
    } else {
        sample_step(trained(m, inputs, expected, (n - 1) as nat), inputs[n - 1], expected[n - 1])
    }
}

} // verus!
