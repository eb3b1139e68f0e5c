use crate::error::NetError;
use crate::matrix::{grid_within_unit, is_grid, rows_view, Matrix};
use crate::model::{
    activation, back_down, back_start, back_step, backpropagated, column, flatten_column,
    forward_trace, grid_scale, grid_sigmoid, grid_slope, layers_ok, model_wf, params_fit, ran,
    run_output, sample_fits, sample_step, trained, NetModel,
};
use crate::scalar::Scalar;
use vstd::prelude::*;

verus! {

/// A stack of fully connected sigmoid layers.
pub struct Network<T> {
    layers: Vec<usize>,
    data: Vec<Matrix<T>>,
    weights: Vec<Matrix<T>>,
    biases: Vec<Matrix<T>>,
    learning_rate: T,
}

/// The grids that a vector of matrices holds.
pub open spec fn grids<T>(ms: Seq<Matrix<T>>) -> Seq<Seq<Seq<T>>> {
    Seq::new(ms.len(), |i: int| ms[i]@)
}

/// The sizes as natural numbers.
pub open spec fn sizes(layers: Seq<usize>) -> Seq<nat> {
    Seq::new(layers.len(), |i: int| layers[i] as nat)
}

/// A vector of stored matrices as a sequence of grids.
pub open spec fn nested<T>(v: Seq<Vec<Vec<T>>>) -> Seq<Seq<Seq<T>>> {
    Seq::new(v.len(), |i: int| rows_view(v[i]@))
}

impl<T> View for Network<T> {
    type V = NetModel<T>;

    closed spec fn view(&self) -> NetModel<T> {
        NetModel {
            layers: sizes(self.layers@),
            weights: grids(self.weights@),
            biases: grids(self.biases@),
            learning_rate: self.learning_rate,
            trace: grids(self.data@),
        }
    }
}

impl<T> Network<T> {
    /// The stored matrices are well formed and have the shapes that the
    /// layer sizes ask for; the trace is absent or complete.
    pub closed spec fn wf(&self) -> bool {
        &&& layers_ok(sizes(self.layers@))
        &&& self.weights.len() == self.layers.len() - 1
        &&& self.biases.len() == self.layers.len() - 1
        &&& forall|i: int|
            0 <= i < self.weights.len() ==> {
                &&& (#[trigger] self.weights[i]).wf()
                &&& self.weights[i].rows == self.layers[i + 1]
                &&& self.weights[i].cols == self.layers[i]
            }
        &&& forall|i: int|
            0 <= i < self.biases.len() ==> {
                &&& (#[trigger] self.biases[i]).wf()
                &&& self.biases[i].rows == self.layers[i + 1]
                &&& self.biases[i].cols == 1
            }
        &&& (self.data.len() == 0 || self.data.len() == self.layers.len())
        &&& forall|i: int|
            0 <= i < self.data.len() ==> {
                &&& (#[trigger] self.data[i]).wf()
                &&& self.data[i].rows == self.layers[i]
                &&& self.data[i].cols == 1
            }
    }

    /// A well-formed network has a consistent model.
    pub proof fn lemma_wf_model(&self)
        requires
            self.wf(),
        ensures
            model_wf(self@),
    {
        let m = self@;
        assert forall|i: int| 0 <= i < m.layers.len() - 1 implies is_grid(
            #[trigger] m.weights[i],
            m.layers[i + 1],
            m.layers[i],
        ) by {
            assert(self.weights[i].wf());
        }
        assert forall|i: int| 0 <= i < m.layers.len() - 1 implies is_grid(
            #[trigger] m.biases[i],
            m.layers[i + 1],
            1,
        ) by {
            assert(self.biases[i].wf());
        }
        if m.trace.len() != 0 {
            assert forall|i: int| 0 <= i < m.layers.len() implies is_grid(
                #[trigger] m.trace[i],
                m.layers[i],
                1,
            ) by {
                assert(self.data[i].wf());
            }
        }
    }
}

/// The vector as a matrix of one column.
fn column_matrix<T: Scalar>(v: &Vec<T>) -> (m: Matrix<T>)
    ensures
        m.wf(),
        m.rows == v.len(),
        m.cols == 1,
        m@ == column(v@),
{
    let mut data: Vec<Vec<T>> = Vec::new();
    let mut i: usize = 0;
    while i < v.len()
        invariant
            0 <= i <= v.len(),
            data.len() == i,
            forall|p: int| 0 <= p < i ==> (#[trigger] data[p])@ == seq![v[p]],
        decreases v.len() - i,
    {
        let mut row: Vec<T> = Vec::new();
        row.push(v[i]);
        assert(row@ =~= seq![v[i as int]]);
        data.push(row);
        i += 1;
    }
    let m = Matrix { rows: v.len(), cols: 1, data };
    assert(m@ =~= column(v@));
    m
}

/// The single column of a matrix, as a vector.
fn column_vector<T: Scalar>(m: &Matrix<T>) -> (v: Vec<T>)
    requires
        m.wf(),
        m.cols == 1,
    ensures
        v@ == flatten_column(m@),
{
    let mut v: Vec<T> = Vec::new();
    let mut i: usize = 0;
    while i < m.rows
        invariant
            m.wf(),
            m.cols == 1,
            0 <= i <= m.rows,
            v.len() == i,
            forall|p: int| 0 <= p < i ==> #[trigger] v[p] == m@[p][0],
        decreases m.rows - i,
    {
        v.push(m.data[i][0]);
        i += 1;
    }
    assert(v@ =~= flatten_column(m@));
    v
}

/// The logistic function applied to every entry.
fn squash<T: Scalar>(m: &Matrix<T>) -> (r: Matrix<T>)
    requires
        m.wf(),
    ensures
        r.wf(),
        r.same_shape(m),
        r@ == grid_sigmoid(m@),
{
    let r = m.apply_func(T::sigmoid);
    assert(r@ =~~= grid_sigmoid(m@));
    r
}

/// Every entry multiplied from the left by `c`.
fn scale<T: Scalar>(c: T, m: &Matrix<T>) -> (r: Matrix<T>)
    requires
        m.wf(),
    ensures
        r.wf(),
        r.same_shape(m),
        r@ == grid_scale(c, m@),
{
    let mut data: Vec<Vec<T>> = Vec::new();
    let mut i: usize = 0;
    while i < m.rows
        invariant
            m.wf(),
            0 <= i <= m.rows,
            data.len() == i,
            forall|p: int| 0 <= p < i ==> (#[trigger] data[p])@ == grid_scale(c, m@)[p],
        decreases m.rows - i,
    {
        let mut row: Vec<T> = Vec::new();
        let mut j: usize = 0;
        while j < m.cols
            invariant
                m.wf(),
                i < m.rows,
                0 <= j <= m.cols,
                row.len() == j,
                forall|q: int| 0 <= q < j ==> #[trigger] row[q] == c.mul_spec(m@[i as int][q]),
            decreases m.cols - j,
        {
            row.push(c.times(m.data[i][j]));
            j += 1;
        }
        assert(row@ =~= grid_scale(c, m@)[i as int]);
        data.push(row);
        i += 1;
    }
    let r = Matrix { rows: m.rows, cols: m.cols, data };
    assert(r@ =~= grid_scale(c, m@));
    r
}

/// Every entry `x` replaced by `(1 - x) * x`.
fn slope<T: Scalar>(m: &Matrix<T>) -> (r: Matrix<T>)
    requires
        m.wf(),
    ensures
        r.wf(),
        r.same_shape(m),
        r@ == grid_slope(m@),
{
    let mut data: Vec<Vec<T>> = Vec::new();
    let mut i: usize = 0;
    while i < m.rows
        invariant
            m.wf(),
            0 <= i <= m.rows,
            data.len() == i,
            forall|p: int| 0 <= p < i ==> (#[trigger] data[p])@ == grid_slope(m@)[p],
        decreases m.rows - i,
    {
        let mut row: Vec<T> = Vec::new();
        let mut j: usize = 0;
        while j < m.cols
            invariant
                m.wf(),
                i < m.rows,
                0 <= j <= m.cols,
                row.len() == j,
                forall|q: int|
                    0 <= q < j ==> #[trigger] row[q] == T::one_spec().sub_spec(
                        m@[i as int][q],
                    ).mul_spec(m@[i as int][q]),
            decreases m.cols - j,
        {
            let x = m.data[i][j];
            row.push(T::one().minus(x).times(x));
            j += 1;
        }
        assert(row@ =~= grid_slope(m@)[i as int]);
        data.push(row);
        i += 1;
    }
    let r = Matrix { rows: m.rows, cols: m.cols, data };
    assert(r@ =~= grid_slope(m@));
    r
}

impl<T: Scalar> Network<T> {
    /// A network of the given layer sizes with no trace, whose weights and
    /// biases are fresh samples, each drawn on its own from `[-1, 1)`. The learning rate is stored scaled by a
    /// hundredth. Refused unless there are at least two layers, none empty.
    pub fn create(layers: Vec<usize>, learning_rate: T) -> (res: Result<Network<T>, NetError>)
        ensures
            res.is_ok() <==> layers_ok(sizes(layers@)),
            res matches Err(e) ==> e == NetError::Config,
            res matches Ok(n) ==> {
                &&& n.wf()
                &&& n@.layers == sizes(layers@)
                &&& n@.learning_rate == learning_rate.mul_spec(T::hundredth_spec())
                &&& n@.trace.len() == 0
                &&& params_fit(n@.layers, n@.weights, n@.biases)
                &&& forall|i: int|
                    0 <= i < n@.weights.len() ==> grid_within_unit(#[trigger] n@.weights[i])
                &&& forall|i: int|
                    0 <= i < n@.biases.len() ==> grid_within_unit(#[trigger] n@.biases[i])
            },
    {
        if layers.len() < 2 {
            return Err(NetError::Config);
        }
        let mut k: usize = 0;
        while k < layers.len()
            invariant
                0 <= k <= layers.len(),
                forall|p: int| 0 <= p < k ==> #[trigger] layers[p] > 0,
            decreases layers.len() - k,
        {
            if layers[k] == 0 {
                assert(!(sizes(layers@)[k as int] > 0));
                return Err(NetError::Config);
            }
            k += 1;
        }
        assert(layers_ok(sizes(layers@)));
        let mut weights: Vec<Matrix<T>> = Vec::new();
        let mut biases: Vec<Matrix<T>> = Vec::new();
        let data: Vec<Matrix<T>> = Vec::new();
        let mut i: usize = 0;
        while i < layers.len() - 1
            invariant
                layers.len() >= 2,
                0 <= i <= layers.len() - 1,
                weights.len() == i,
                biases.len() == i,
                forall|p: int|
                    0 <= p < i ==> {
                        &&& (#[trigger] weights[p]).wf()
                        &&& weights[p].rows == layers[p + 1]
                        &&& weights[p].cols == layers[p]
                        &&& grid_within_unit(weights[p]@)
                    },
                forall|p: int|
                    0 <= p < i ==> {
                        &&& (#[trigger] biases[p]).wf()
                        &&& biases[p].rows == layers[p + 1]
                        &&& biases[p].cols == 1
                        &&& grid_within_unit(biases[p]@)
                    },
            decreases layers.len() - 1 - i,
        {
            weights.push(Matrix::rand_matrix(layers[i + 1], layers[i]));
            biases.push(Matrix::rand_matrix(layers[i + 1], 1));
            i += 1;
        }
        let n = Network {
            layers,
            data,
            weights,
            biases,
            learning_rate: learning_rate.times(T::hundredth()),
        };
        proof {
            n.lemma_wf_model();
            assert forall|i: int| 0 <= i < n@.weights.len() implies grid_within_unit(
                #[trigger] n@.weights[i],
            ) by {
                assert(grid_within_unit(n.weights[i]@));
            }
            assert forall|i: int| 0 <= i < n@.biases.len() implies grid_within_unit(
                #[trigger] n@.biases[i],
            ) by {
                assert(grid_within_unit(n.biases[i]@));
            }
        }
        Ok(n)
    }

    /// The forward pass on borrowed input.
    fn forward(&mut self, input: &Vec<T>) -> (out: Vec<T>)
        requires
            old(self).wf(),
            input.len() == old(self)@.layers[0],
        ensures
            final(self).wf(),
            final(self)@ == ran(old(self)@, input@),
            out@ == run_output(old(self)@.weights, old(self)@.biases, input@),
            out.len() == old(self)@.layers[old(self)@.layers.len() - 1],
    {
        let ghost w = self@.weights;
        let ghost b = self@.biases;
        let mut trace: Vec<Matrix<T>> = Vec::new();
        trace.push(column_matrix(input));
        let mut i: usize = 0;
        while i < self.weights.len()
            invariant
                self.wf(),
                *self == *old(self),
                w == self@.weights,
                b == self@.biases,
                0 <= i <= self.weights.len(),
                trace.len() == i + 1,
                forall|p: int|
                    0 <= p <= i ==> {
                        &&& (#[trigger] trace[p]).wf()
                        &&& trace[p].rows == self.layers[p]
                        &&& trace[p].cols == 1
                        &&& trace[p]@ == activation(w, b, input@, p as nat)
                    },
            decreases self.weights.len() - i,
        {
            assert(self.weights[i as int].wf());
            assert(self.biases[i as int].wf());
            assert(trace[i as int].wf());
            let z = Matrix::multiply(&self.weights[i], &trace[i]).unwrap();
            let s = Matrix::add(&z, &self.biases[i]).unwrap();
            let next = squash(&s);
            trace.push(next);
            i += 1;
        }
        let out = column_vector(&trace[i]);
        self.data = trace;
        assert(self@.trace =~= forward_trace(w, b, input@));
        out
    }

    /// Forward inference. Refused unless the input has the width of the
    /// first layer. Each layer's activation is `sigmoid(w * x + b)` of the
    /// one before; all of them are kept as the new trace, and the last is
    /// returned. Weights and biases are left as they were.
    pub fn run(&mut self, input: Vec<T>) -> (res: Result<Vec<T>, NetError>)
        requires
            old(self).wf(),
        ensures
            final(self).wf(),
            res.is_ok() <==> input.len() == old(self)@.layers[0],
            res matches Err(e) ==> e == NetError::Shape && final(self)@ == old(self)@,
            res matches Ok(out) ==> {
                &&& final(self)@ == ran(old(self)@, input@)
                &&& out@ == run_output(old(self)@.weights, old(self)@.biases, input@)
                &&& out.len() == old(self)@.layers[old(self)@.layers.len() - 1]
            },
    {
        if input.len() != self.layers[0] {
            return Err(NetError::Shape);
        }
        Ok(self.forward(&input))
    }

    /// The backward sweep on borrowed vectors.
    fn descend(&mut self, outputs: &Vec<T>, expected: &Vec<T>)
        requires
            old(self).wf(),
            old(self)@.trace.len() != 0,
            outputs.len() == old(self)@.layers[old(self)@.layers.len() - 1],
            expected.len() == old(self)@.layers[old(self)@.layers.len() - 1],
        ensures
            final(self).wf(),
            final(self)@ == backpropagated(old(self)@, outputs@, expected@),
    {
        let ghost start = back_start(self@.weights, self@.biases, outputs@, expected@);
        let ghost trace = self@.trace;
        let ghost rate = self@.learning_rate;
        let out = column_matrix(outputs);
        let exp = column_matrix(expected);
        let diff = Matrix::subtract(&exp, &out).unwrap();
        let two = T::one().plus(T::one());
        let mut err = scale(two, &diff);
        let mut grad = slope(&out);
        let mut i: usize = self.weights.len();
        while i > 0
            invariant
                self.wf(),
                self.layers == old(self).layers,
                self.data == old(self).data,
                self.learning_rate == old(self).learning_rate,
                self.data.len() == self.layers.len(),
                trace == grids(self.data@),
                rate == self.learning_rate,
                0 <= i <= self.weights.len(),
                start.weights.len() == self.weights.len(),
                grad.wf(),
                err.wf(),
                grad.rows == self.layers[i as int],
                err.rows == self.layers[i as int],
                grad.cols == 1,
                err.cols == 1,
                grids(self.weights@) == back_down(start, trace, rate, i as nat).weights,
                grids(self.biases@) == back_down(start, trace, rate, i as nat).biases,
                grad@ == back_down(start, trace, rate, i as nat).grad,
                err@ == back_down(start, trace, rate, i as nat).err,
            decreases i,
        {
            let ghost before = back_down(start, trace, rate, i as nat);
            i -= 1;
            assert(self.weights[i as int].wf());
            assert(self.biases[i as int].wf());
            assert(self.data[i as int].wf());
            let delta = Matrix::dot(&grad, &err).unwrap();
            let at = self.data[i].transpose();
            let prod = Matrix::multiply(&delta, &at).unwrap();
            let dw = scale(self.learning_rate, &prod);
            let w = Matrix::subtract(&self.weights[i], &dw).unwrap();
            let db = scale(self.learning_rate, &delta);
            let b = Matrix::subtract(&self.biases[i], &db).unwrap();
            let wt = w.transpose();
            let next_err = Matrix::multiply(&wt, &delta).unwrap();
            let next_grad = slope(&self.data[i]);
            let ghost after = back_step(before, trace, rate, i as int);
            proof {
                assert(trace[i as int] == self.data[i as int]@);
                assert(before.weights[i as int] == self.weights[i as int]@);
                assert(before.biases[i as int] == self.biases[i as int]@);
                assert(after == back_down(start, trace, rate, i as nat));
            }
            self.weights.set(i, w);
            self.biases.set(i, b);
            grad = next_grad;
            err = next_err;
            proof {
                assert(grids(self.weights@) =~= after.weights);
                assert(grids(self.biases@) =~= after.biases);
            }
        }
    }

    /// One step of gradient descent on the squared error, over the trace of
    /// the latest forward pass. From the error `2 * (expected - outputs)` and
    /// the slope `(1 - x) * x` at the outputs, each transition from the last
    /// to the first loses `rate * (delta * activation^T)` from its weights and
    /// `rate * delta` from its biases, and hands the layer below the slope at
    /// its activation and the error `weights^T * delta`. Refused when there
    /// is no trace or a vector has not the width of the last layer; the
    /// network is then left as it was.
    pub fn backpropagate(&mut self, outputs: Vec<T>, expected: Vec<T>) -> (res: Result<
        (),
        NetError,
    >)
        requires
            old(self).wf(),
        ensures
            final(self).wf(),
            res.is_ok() <==> {
                &&& old(self)@.trace.len() != 0
                &&& outputs.len() == old(self)@.layers[old(self)@.layers.len() - 1]
                &&& expected.len() == old(self)@.layers[old(self)@.layers.len() - 1]
            },
            res matches Err(e) ==> e == NetError::Shape && final(self)@ == old(self)@,
            res is Ok ==> final(self)@ == backpropagated(old(self)@, outputs@, expected@),
    {
        let last = self.layers[self.layers.len() - 1];
        if self.data.len() == 0 || outputs.len() != last || expected.len() != last {
            return Err(NetError::Shape);
        }
        self.descend(&outputs, &expected);
        Ok(())
    }

    /// Online training: for each sample in order, a forward pass and then a
    /// backward sweep from its output. Stops at the first sample that is
    /// missing its target or has not the widths of the first and last layer;
    /// the samples before it have then been learned.
    pub fn train(&mut self, input: &Vec<Vec<T>>, expected: &Vec<Vec<T>>) -> (res: Result<
        (),
        NetError,
    >)
        requires
            old(self).wf(),
        ensures
            final(self).wf(),
            res.is_ok() <==> forall|i: int|
                0 <= i < input.len() ==> sample_fits(
                    old(self)@.layers,
                    rows_view(input@),
                    rows_view(expected@),
                    i,
                ),
            res is Ok ==> final(self)@ == trained(
                old(self)@,
                rows_view(input@),
                rows_view(expected@),
                input.len() as nat,
            ),
            res matches Err(e) ==> e == NetError::Shape && exists|k: int|
                stops_at(old(self)@.layers, rows_view(input@), rows_view(expected@), k) && final(self)@
                    == trained(old(self)@, rows_view(input@), rows_view(expected@), k as nat),
    {
        let ghost ins = rows_view(input@);
        let ghost exps = rows_view(expected@);
        let ghost layers = self@.layers;
        let first = self.layers[0];
        let last = self.layers[self.layers.len() - 1];
        let mut i: usize = 0;
        while i < input.len()
            invariant
                self.wf(),
                self@.layers == layers,
                layers == old(self)@.layers,
                ins == rows_view(input@),
                exps == rows_view(expected@),
                first == layers[0],
                last == layers[layers.len() - 1],
                0 <= i <= input.len(),
                forall|p: int| 0 <= p < i ==> sample_fits(layers, ins, exps, p),
                self@ == trained(old(self)@, ins, exps, i as nat),
            decreases input.len() - i,
        {
            if i >= expected.len() || input[i].len() != first || expected[i].len() != last {
                assert(stops_at(layers, ins, exps, i as int));
                return Err(NetError::Shape);
            }
            let ghost prev = self@;
            let out = self.forward(&input[i]);
            self.descend(&out, &expected[i]);
            assert(self@ == sample_step(prev, ins[i as int], exps[i as int]));
            i += 1;
        }
        Ok(())
    }

    /// The weights and the biases as nested vectors, one matrix per
    /// transition, for keeping outside the network.
    pub fn save(&self) -> (res: (Vec<Vec<Vec<T>>>, Vec<Vec<Vec<T>>>))
        requires
            self.wf(),
        ensures
            nested(res.0@) == self@.weights,
            nested(res.1@) == self@.biases,
            params_fit(self@.layers, nested(res.0@), nested(res.1@)),
    {
        proof {
            self.lemma_wf_model();
        }
        (stored(&self.weights), stored(&self.biases))
    }

    /// The activations that the latest forward pass recorded, the input's
    /// first; empty before the first pass.
    pub fn trace(&self) -> (res: Vec<Vec<Vec<T>>>)
        requires
            self.wf(),
        ensures
            nested(res@) == self@.trace,
    {
        stored(&self.data)
    }

    /// The learning rate as it is applied: the one given at creation, scaled
    /// by a hundredth.
    pub fn learning_rate(&self) -> (rate: T)
        ensures
            rate == self@.learning_rate,
    {
        self.learning_rate
    }

    /// Replaces the weights and biases by the given ones. Refused, with the
    /// network left as it was, unless they are one per transition and each
    /// has the shape that the layer sizes ask for.
    pub fn load(&mut self, weights: Vec<Vec<Vec<T>>>, biases: Vec<Vec<Vec<T>>>) -> (res: Result<
        (),
        NetError,
    >)
        requires
            old(self).wf(),
        ensures
            final(self).wf(),
            res.is_ok() <==> params_fit(old(self)@.layers, nested(weights@), nested(biases@)),
            res matches Err(e) ==> e == NetError::Config && final(self)@ == old(self)@,
            res is Ok ==> final(self)@ == (NetModel {
                weights: nested(weights@),
                biases: nested(biases@),
                ..old(self)@
            }),
    {
        let count = self.layers.len() - 1;
        if weights.len() != count || biases.len() != count {
            return Err(NetError::Config);
        }
        let mut ws: Vec<Matrix<T>> = Vec::new();
        let mut bs: Vec<Matrix<T>> = Vec::new();
        let mut i: usize = 0;
        while i < count
            invariant
                self.wf(),
                *self == *old(self),
                count == self.layers.len() - 1,
                weights.len() == count,
                biases.len() == count,
                0 <= i <= count,
                ws.len() == i,
                bs.len() == i,
                forall|p: int|
                    0 <= p < i ==> {
                        &&& (#[trigger] ws[p]).wf()
                        &&& ws[p].rows == self.layers[p + 1]
                        &&& ws[p].cols == self.layers[p]
                        &&& ws[p]@ == nested(weights@)[p]
                    },
                forall|p: int|
                    0 <= p < i ==> {
                        &&& (#[trigger] bs[p]).wf()
                        &&& bs[p].rows == self.layers[p + 1]
                        &&& bs[p].cols == 1
                        &&& bs[p]@ == nested(biases@)[p]
                    },
            decreases count - i,
        {
            let w = fitted(&weights[i], self.layers[i + 1], self.layers[i]);
            let b = fitted(&biases[i], self.layers[i + 1], 1);
            proof {
                assert(nested(weights@)[i as int] =~= rows_view(weights[i as int]@));
                assert(nested(biases@)[i as int] =~= rows_view(biases[i as int]@));
            }
            match (w, b) {
                (Some(w), Some(b)) => {
                    ws.push(w);
                    bs.push(b);
                },
                _ => {
                    return Err(NetError::Config);
                },
            }
            i += 1;
        }
        self.weights = ws;
        self.biases = bs;
        proof {
            assert(self@.weights =~= nested(weights@));
            assert(self@.biases =~= nested(biases@));
        }
        Ok(())
    }
}

/// The sweep over the samples stops at `k`: it is the first that does not fit.
pub open spec fn stops_at<T>(
    layers: Seq<nat>,
    inputs: Seq<Seq<T>>,
    expected: Seq<Seq<T>>,
    k: int,
) -> bool {
    &&& 0 <= k < inputs.len()
    &&& !sample_fits(layers, inputs, expected, k)
    &&& forall|i: int| 0 <= i < k ==> sample_fits(layers, inputs, expected, i)
}

/// The rows of each matrix, copied.
fn stored<T: Scalar>(ms: &Vec<Matrix<T>>) -> (res: Vec<Vec<Vec<T>>>)
    requires
        forall|i: int| 0 <= i < ms.len() ==> (#[trigger] ms[i]).wf(),
    ensures
        nested(res@) == grids(ms@),
{
    let mut res: Vec<Vec<Vec<T>>> = Vec::new();
    let mut i: usize = 0;
    while i < ms.len()
        invariant
            forall|i: int| 0 <= i < ms.len() ==> (#[trigger] ms[i]).wf(),
            0 <= i <= ms.len(),
            res.len() == i,
            forall|p: int| 0 <= p < i ==> rows_view((#[trigger] res[p])@) == ms[p]@,
        decreases ms.len() - i,
    {
        assert(ms[i as int].wf());
        res.push(rows_of(&ms[i]));
        i += 1;
    }
    assert(nested(res@) =~= grids(ms@));
    res
}

/// A copy of the rows of a matrix.
fn rows_of<T: Scalar>(m: &Matrix<T>) -> (rows: Vec<Vec<T>>)
    requires
        m.wf(),
    ensures
        rows_view(rows@) == m@,
{
    let mut rows: Vec<Vec<T>> = Vec::new();
    let mut i: usize = 0;
    while i < m.rows
        invariant
            m.wf(),
            0 <= i <= m.rows,
            rows.len() == i,
            forall|p: int| 0 <= p < i ==> (#[trigger] rows[p])@ == m@[p],
        decreases m.rows - i,
    {
        let mut row: Vec<T> = Vec::new();
        let mut j: usize = 0;
        while j < m.cols
            invariant
                m.wf(),
                i < m.rows,
                0 <= j <= m.cols,
                row.len() == j,
                forall|q: int| 0 <= q < j ==> #[trigger] row[q] == m@[i as int][q],
            decreases m.cols - j,
        {
            row.push(m.data[i][j]);
            j += 1;
        }
        assert(row@ =~= m@[i as int]);
        rows.push(row);
        i += 1;
    }
    assert(rows_view(rows@) =~= m@);
    rows
}

/// The matrix of the given rows, if they are `r` in number and `c` long each.
fn fitted<T: Scalar>(rows: &Vec<Vec<T>>, r: usize, c: usize) -> (res: Option<Matrix<T>>)
    ensures
        res.is_some() <==> is_grid(rows_view(rows@), r as nat, c as nat),
        res matches Some(m) ==> m.wf() && m.rows == r && m.cols == c && m@ == rows_view(rows@),
{
    if rows.len() != r {
        return None;
    }
    let mut data: Vec<Vec<T>> = Vec::new();
    let mut i: usize = 0;
    while i < r
        invariant
            rows.len() == r,
            0 <= i <= r,
            data.len() == i,
            forall|p: int| 0 <= p < i ==> (#[trigger] data[p])@ == rows[p]@ && rows[p].len() == c,
        decreases r - i,
    {
        if rows[i].len() != c {
            assert(rows_view(rows@)[i as int].len() != c);
            return None;
        }
        let mut row: Vec<T> = Vec::new();
        let mut j: usize = 0;
        while j < c
            invariant
                i < rows.len(),
                rows[i as int].len() == c,
                0 <= j <= c,
                row.len() == j,
                forall|q: int| 0 <= q < j ==> #[trigger] row[q] == rows[i as int][q],
            decreases c - j,
        {
            row.push(rows[i][j]);
            j += 1;
        }
        assert(row@ =~= rows[i as int]@);
        data.push(row);
        i += 1;
    }
    let m = Matrix { rows: r, cols: c, data };
    assert(m@ =~= rows_view(rows@));
    Some(m)
}

} // verus!
