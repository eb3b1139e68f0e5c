use crate::matrix::{dot_prefix, grid_add, grid_mul, grid_zero};
use crate::model::{
    activation, column, grid_sigmoid, layer_output, layers_ok, model_wf, params_fit, run_output,
    NetModel,
};
use crate::scalar::Scalar;
use vstd::prelude::*;

verus! {

/// The column of `n` rows that holds `x` everywhere.
pub open spec fn constant_column<T>(n: nat, x: T) -> Seq<Seq<T>> {
    Seq::new(n, |i: int| seq![x])
}

/// What a neuron gives on a weighted input of zero.
pub open spec fn rest_value<T: Scalar>() -> T {
    T::zero_spec().sigmoid_spec()
}

/// Zero plus zero is zero, and zero times `c` is zero.
pub open spec fn zero_absorbs<T: Scalar>(c: T) -> bool {
    &&& T::zero_spec().add_spec(T::zero_spec()) == T::zero_spec()
    &&& T::zero_spec().mul_spec(c) == T::zero_spec()
}

/// Every weight and every bias is zero, in the shapes that the sizes ask for.
pub open spec fn all_zero_params<T: Scalar>(
    layers: Seq<nat>,
    weights: Seq<Seq<Seq<T>>>,
    biases: Seq<Seq<Seq<T>>>,
) -> bool {
    &&& weights.len() == layers.len() - 1
    &&& biases.len() == layers.len() - 1
    &&& forall|i: int|
        0 <= i < layers.len() - 1 ==> #[trigger] weights[i] == grid_zero::<T>(
            layers[i + 1],
            layers[i],
        )
    &&& forall|i: int|
        0 <= i < layers.len() - 1 ==> #[trigger] biases[i] == grid_zero::<T>(layers[i + 1], 1)
}

/// A row of zeros times a constant column sums to zero, however far the sum
/// has come.
proof fn lemma_zero_dot<T: Scalar>(rows: nat, cols: nat, c: T, i: int, n: nat)
    requires
        zero_absorbs(c),
        0 <= i < rows,
        n <= cols,
    ensures
        dot_prefix(grid_zero::<T>(rows, cols), constant_column(cols, c), i, 0, n)
            == T::zero_spec(),
    decreases n,
{
    if n > 0 {
        lemma_zero_dot(rows, cols, c, i, (n - 1) as nat);
        assert(grid_zero::<T>(rows, cols)[i][n - 1] == T::zero_spec());
        assert(constant_column(cols, c)[n - 1][0] == c);
    }
}

/// A layer whose weights and biases are zero gives the rest value in every
/// neuron, whatever constant it is fed.
proof fn lemma_zero_layer<T: Scalar>(rows: nat, cols: nat, c: T)
    requires
        zero_absorbs(c),
    ensures
        layer_output(grid_zero::<T>(rows, cols), grid_zero::<T>(rows, 1), constant_column(cols, c))
            == constant_column(rows, rest_value::<T>()),
{
    let w = grid_zero::<T>(rows, cols);
    let x = constant_column(cols, c);
    let z = grid_mul(w, x, 1);
    assert forall|i: int| 0 <= i < rows implies #[trigger] z[i] =~= seq![T::zero_spec()] by {
        lemma_zero_dot(rows, cols, c, i, cols);
    }
    let s = grid_add(z, grid_zero::<T>(rows, 1));
    assert forall|i: int| 0 <= i < rows implies #[trigger] s[i] =~= seq![T::zero_spec()] by {
        assert(z[i] == seq![T::zero_spec()]);
        assert(grid_zero::<T>(rows, 1)[i][0] == T::zero_spec());
    }
    let r = grid_sigmoid(s);
    assert forall|i: int| 0 <= i < rows implies #[trigger] r[i] =~= seq![rest_value::<T>()] by {
        assert(s[i] == seq![T::zero_spec()]);
    }
    assert(r =~= constant_column(rows, rest_value::<T>()));
}

/// In a network whose weights and biases are all zero, fed with zeros, every
/// layer after the input holds the rest value in every neuron.
pub proof fn lemma_zero_network_layer<T: Scalar>(
    layers: Seq<nat>,
    weights: Seq<Seq<Seq<T>>>,
    biases: Seq<Seq<Seq<T>>>,
    input: Seq<T>,
    k: nat,
)
    requires
        layers_ok(layers),
        all_zero_params(layers, weights, biases),
        input == Seq::new(layers[0], |i: int| T::zero_spec()),
        zero_absorbs(T::zero_spec()),
        zero_absorbs(rest_value::<T>()),
        1 <= k < layers.len(),
    ensures
        activation(weights, biases, input, k) == constant_column(
            layers[k as int],
            rest_value::<T>(),
        ),
    decreases k,
{
    let below = activation(weights, biases, input, (k - 1) as nat);
    assert(weights[k - 1] == grid_zero::<T>(layers[k as int], layers[k - 1]));
    assert(biases[k - 1] == grid_zero::<T>(layers[k as int], 1));
    if k == 1 {
        assert(below =~~= constant_column(layers[0], T::zero_spec()));
        lemma_zero_layer::<T>(layers[1], layers[0], T::zero_spec());
    } else {
        lemma_zero_network_layer(layers, weights, biases, input, (k - 1) as nat);
        lemma_zero_layer::<T>(layers[k as int], layers[k - 1], rest_value::<T>());
    }
}

/// A forward pass on zeros through a network whose weights and biases are all
/// zero returns the rest value in every place.
pub proof fn lemma_zero_network_output<T: Scalar>(
    layers: Seq<nat>,
    weights: Seq<Seq<Seq<T>>>,
    biases: Seq<Seq<Seq<T>>>,
    input: Seq<T>,
)
    requires
        layers_ok(layers),
        all_zero_params(layers, weights, biases),
        input == Seq::new(layers[0], |i: int| T::zero_spec()),
        zero_absorbs(T::zero_spec()),
        zero_absorbs(rest_value::<T>()),
    ensures
        run_output(weights, biases, input) == Seq::new(
            layers[layers.len() - 1],
            |i: int| rest_value::<T>(),
        ),
{
    lemma_zero_network_layer(layers, weights, biases, input, (layers.len() - 1) as nat);
    assert(run_output(weights, biases, input) =~= Seq::new(
        layers[layers.len() - 1],
        |i: int| rest_value::<T>(),
    ));
}

/// The parameters that one network gives out are accepted by any network of
/// the same layer sizes, and the network that took them returns on every
/// input what the first one returns.
pub proof fn lemma_reload_reproduces<T: Scalar>(a: NetModel<T>, b: NetModel<T>, input: Seq<T>)
    requires
        model_wf(a),
        model_wf(b),
        a.layers == b.layers,
    ensures
        params_fit(b.layers, a.weights, a.biases),
        model_wf(NetModel { weights: a.weights, biases: a.biases, ..b }),
        run_output(
            (NetModel { weights: a.weights, biases: a.biases, ..b }).weights,
            (NetModel { weights: a.weights, biases: a.biases, ..b }).biases,
            input,
        ) == run_output(a.weights, a.biases, input),
{
}

} // verus!
