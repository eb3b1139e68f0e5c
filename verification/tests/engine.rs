use neural_net::dataset::{one_hot, split_rows, strongest};
use neural_net::error::NetError;
use neural_net::matrix::Matrix;
use neural_net::network::Network;
use neural_net::scalar::Scalar;
use rand::Rng;

/// Double-precision numbers as the engine's scalar.
#[derive(Clone, Copy, Debug, PartialEq)]
struct Real(f64);

impl Scalar for Real {
    fn zero_spec() -> Real {
        Real(0.0)
    }

    fn one_spec() -> Real {
        Real(1.0)
    }

    fn hundredth_spec() -> Real {
        Real(0.01)
    }

    fn add_spec(self, other: Real) -> Real {
        Real(self.0 + other.0)
    }

    fn sub_spec(self, other: Real) -> Real {
        Real(self.0 - other.0)
    }

    fn mul_spec(self, other: Real) -> Real {
        Real(self.0 * other.0)
    }

    fn sigmoid_spec(self) -> Real {
        Real(1.0 / (1.0 + (-self.0).exp()))
    }

    fn gt_spec(self, other: Real) -> bool {
        self.0 > other.0
    }

    fn zero() -> Real {
        Real(0.0)
    }

    fn one() -> Real {
        Real(1.0)
    }

    fn hundredth() -> Real {
        Real(0.01)
    }

    fn plus(self, other: Real) -> Real {
        Real(self.0 + other.0)
    }

    fn minus(self, other: Real) -> Real {
        Real(self.0 - other.0)
    }

    fn times(self, other: Real) -> Real {
        Real(self.0 * other.0)
    }

    fn sigmoid(self) -> Real {
        Real(1.0 / (1.0 + (-self.0).exp()))
    }

    fn exceeds(self, other: Real) -> bool {
        self.0 > other.0
    }

    fn draw() -> Real {
        Real(rand::thread_rng().gen_range(-1.0..1.0))
    }
}

fn reals(values: &[f64]) -> Vec<Real> {
    values.iter().map(|&x| Real(x)).collect()
}

fn grid(rows: &[&[f64]]) -> Vec<Vec<Real>> {
    rows.iter().map(|r| reals(r)).collect()
}

fn matrix(rows: &[&[f64]]) -> Matrix<Real> {
    Matrix::from_data(grid(rows)).unwrap()
}

fn plain(values: &[Real]) -> Vec<f64> {
    values.iter().map(|x| x.0).collect()
}

fn close(a: f64, b: f64) -> bool {
    (a - b).abs() < 1e-12
}

/// The network of sizes 2, 2, 1 with every weight a half and every bias zero.
fn half_network(rate: f64) -> Network<Real> {
    let mut net = Network::create(vec![2, 2, 1], Real(rate)).unwrap();
    let weights = vec![grid(&[&[0.5, 0.5], &[0.5, 0.5]]), grid(&[&[0.5, 0.5]])];
    let biases = vec![grid(&[&[0.0], &[0.0]]), grid(&[&[0.0]])];
    assert_eq!(net.load(weights, biases), Ok(()));
    net
}

fn squared_error(out: &[Real], expected: &[f64]) -> f64 {
    let mut total = 0.0;
    for i in 0..out.len() {
        total += (out[i].0 - expected[i]) * (out[i].0 - expected[i]);
    }
    total
}

#[test]
fn zero_matrix_is_all_zero() {
    let m: Matrix<Real> = Matrix::zero_matrix(2, 3);
    assert_eq!(m.rows, 2);
    assert_eq!(m.cols, 3);
    assert_eq!(m.data, grid(&[&[0.0, 0.0, 0.0], &[0.0, 0.0, 0.0]]));
}

#[test]
fn zero_matrix_may_be_empty() {
    let m: Matrix<Real> = Matrix::zero_matrix(0, 4);
    assert_eq!(m.rows, 0);
    assert_eq!(m.cols, 4);
    assert!(m.data.is_empty());
}

#[test]
fn identity_matrix_has_ones_on_diagonal() {
    let m: Matrix<Real> = Matrix::identity_matrix(3);
    assert_eq!(m.data, grid(&[&[1.0, 0.0, 0.0], &[0.0, 1.0, 0.0], &[0.0, 0.0, 1.0]]));
}

#[test]
fn rand_matrix_has_shape_and_range() {
    let m: Matrix<Real> = Matrix::rand_matrix(5, 7);
    assert_eq!(m.rows, 5);
    assert_eq!(m.cols, 7);
    assert_eq!(m.data.len(), 5);
    for row in m.data.iter() {
        assert_eq!(row.len(), 7);
        for x in row.iter() {
            assert!(-1.0 <= x.0 && x.0 < 1.0);
        }
    }
}

#[test]
fn from_data_infers_shape() {
    let m = matrix(&[&[1.0, 2.0, 3.0], &[4.0, 5.0, 6.0]]);
    assert_eq!(m.rows, 2);
    assert_eq!(m.cols, 3);
    assert_eq!(m.data[1][2], Real(6.0));
}

#[test]
fn from_data_rejects_empty() {
    let none: Vec<Vec<Real>> = Vec::new();
    assert_eq!(Matrix::from_data(none), Err(NetError::Shape));
}

#[test]
fn from_data_rejects_ragged_rows() {
    assert_eq!(Matrix::from_data(grid(&[&[1.0, 2.0], &[3.0]])), Err(NetError::Shape));
}

#[test]
fn add_is_entry_by_entry() {
    let a = matrix(&[&[1.0, 2.0], &[3.0, 4.0]]);
    let b = matrix(&[&[10.0, 20.0], &[30.0, 40.0]]);
    assert_eq!(Matrix::add(&a, &b), Ok(matrix(&[&[11.0, 22.0], &[33.0, 44.0]])));
}

#[test]
fn add_commutes() {
    let a = matrix(&[&[1.5, -2.0], &[0.25, 4.0]]);
    let b = matrix(&[&[0.1, 20.0], &[-30.0, 0.7]]);
    assert_eq!(Matrix::add(&a, &b), Matrix::add(&b, &a));
}

#[test]
fn add_associates_on_exact_values() {
    let a = matrix(&[&[1.0, 2.0], &[3.0, 4.0]]);
    let b = matrix(&[&[0.5, 0.25], &[8.0, 16.0]]);
    let c = matrix(&[&[-1.0, -2.0], &[64.0, 0.125]]);
    let left = Matrix::add(&Matrix::add(&a, &b).unwrap(), &c);
    let right = Matrix::add(&a, &Matrix::add(&b, &c).unwrap());
    assert_eq!(left, right);
}

#[test]
fn subtract_is_entry_by_entry() {
    let a = matrix(&[&[1.0, 2.0], &[3.0, 4.0]]);
    let b = matrix(&[&[10.0, 20.0], &[30.0, 40.0]]);
    assert_eq!(Matrix::subtract(&a, &b), Ok(matrix(&[&[-9.0, -18.0], &[-27.0, -36.0]])));
}

#[test]
fn subtract_self_is_zero() {
    let a = matrix(&[&[1.5, -2.0, 7.0], &[0.25, 4.0, 9.5]]);
    assert_eq!(Matrix::subtract(&a, &a), Ok(Matrix::zero_matrix(2, 3)));
}

#[test]
fn dot_is_entry_by_entry_product() {
    let a = matrix(&[&[1.0, 2.0], &[3.0, 4.0]]);
    let b = matrix(&[&[10.0, 20.0], &[30.0, 40.0]]);
    assert_eq!(Matrix::dot(&a, &b), Ok(matrix(&[&[10.0, 40.0], &[90.0, 160.0]])));
}

#[test]
fn multiply_is_matrix_product() {
    let a = matrix(&[&[1.0, 2.0], &[3.0, 4.0]]);
    let b = matrix(&[&[5.0, 6.0], &[7.0, 8.0]]);
    assert_eq!(Matrix::multiply(&a, &b), Ok(matrix(&[&[19.0, 22.0], &[43.0, 50.0]])));
}

#[test]
fn multiply_gives_outer_shape() {
    let a = matrix(&[&[1.0, 2.0, 3.0], &[4.0, 5.0, 6.0]]);
    let b = matrix(&[&[1.0], &[0.5], &[2.0]]);
    let p = Matrix::multiply(&a, &b).unwrap();
    assert_eq!(p.rows, 2);
    assert_eq!(p.cols, 1);
    assert_eq!(p.data, grid(&[&[8.0], &[18.5]]));
}

#[test]
fn multiply_by_identity_gives_same() {
    let a = matrix(&[&[1.5, -2.0, 7.0], &[0.25, 4.0, 9.5]]);
    assert_eq!(Matrix::multiply(&a, &Matrix::identity_matrix(3)), Ok(a.clone()));
}

#[test]
fn multiply_rejects_inner_mismatch() {
    let a = matrix(&[&[1.0, 2.0, 3.0], &[4.0, 5.0, 6.0]]);
    let b = matrix(&[&[1.0, 2.0], &[3.0, 4.0]]);
    assert_eq!(Matrix::multiply(&a, &b), Err(NetError::Shape));
}

#[test]
fn elementwise_operations_reject_shape_mismatch() {
    let a = matrix(&[&[1.0, 2.0, 3.0], &[4.0, 5.0, 6.0]]);
    let b = matrix(&[&[1.0, 2.0], &[3.0, 4.0], &[5.0, 6.0]]);
    assert_eq!(Matrix::add(&a, &b), Err(NetError::Shape));
    assert_eq!(Matrix::subtract(&a, &b), Err(NetError::Shape));
    assert_eq!(Matrix::dot(&a, &b), Err(NetError::Shape));
}

#[test]
fn transpose_swaps_rows_and_columns() {
    let a = matrix(&[&[1.0, 2.0, 3.0], &[4.0, 5.0, 6.0]]);
    let t = a.transpose();
    assert_eq!(t.rows, 3);
    assert_eq!(t.cols, 2);
    assert_eq!(t.data, grid(&[&[1.0, 4.0], &[2.0, 5.0], &[3.0, 6.0]]));
}

#[test]
fn transpose_twice_gives_same() {
    let a = matrix(&[&[1.0, 2.0, 3.0], &[4.0, 5.0, 6.0]]);
    assert_eq!(a.transpose().transpose(), a);
}

#[test]
fn apply_func_maps_every_entry() {
    let a = matrix(&[&[1.0, 2.0], &[3.0, 4.0]]);
    let doubled = a.apply_func(|x: Real| Real(2.0 * x.0));
    assert_eq!(doubled, matrix(&[&[2.0, 4.0], &[6.0, 8.0]]));
}

#[test]
fn apply_func_with_identity_gives_same() {
    let a = matrix(&[&[1.0, 2.0, 3.0], &[4.0, 5.0, 6.0]]);
    assert_eq!(a.apply_func(|x: Real| x), a);
}

#[test]
fn create_rejects_fewer_than_two_layers() {
    assert!(matches!(Network::create(vec![3], Real(1.0)), Err(NetError::Config)));
    assert!(matches!(Network::create(Vec::new(), Real(1.0)), Err(NetError::Config)));
}

#[test]
fn create_rejects_empty_layer() {
    assert!(matches!(Network::create(vec![3, 0, 2], Real(1.0)), Err(NetError::Config)));
}

#[test]
fn create_draws_parameters_of_fitting_shape() {
    let net = Network::create(vec![4, 3, 2], Real(1.0)).unwrap();
    let (weights, biases) = net.save();
    assert_eq!(weights.len(), 2);
    assert_eq!(biases.len(), 2);
    assert_eq!(weights[0].len(), 3);
    assert_eq!(weights[0][0].len(), 4);
    assert_eq!(weights[1].len(), 2);
    assert_eq!(weights[1][0].len(), 3);
    assert_eq!(biases[0].len(), 3);
    assert_eq!(biases[0][0].len(), 1);
    assert_eq!(biases[1].len(), 2);
    for m in weights.iter().chain(biases.iter()) {
        for row in m.iter() {
            for x in row.iter() {
                assert!(-1.0 <= x.0 && x.0 < 1.0);
            }
        }
    }
}

#[test]
fn run_rejects_wrong_input_width() {
    let mut net = half_network(1.0);
    assert_eq!(net.run(reals(&[1.0, 1.0, 1.0])), Err(NetError::Shape));
    assert_eq!(net.run(reals(&[1.0])), Err(NetError::Shape));
}

#[test]
fn run_on_zero_network_gives_one_half() {
    let mut net = Network::create(vec![3, 4, 2], Real(1.0)).unwrap();
    let weights = vec![vec![reals(&[0.0; 3]); 4], vec![reals(&[0.0; 4]); 2]];
    let biases = vec![vec![reals(&[0.0]); 4], vec![reals(&[0.0]); 2]];
    assert_eq!(net.load(weights, biases), Ok(()));
    assert_eq!(net.run(reals(&[0.0, 0.0, 0.0])), Ok(reals(&[0.5, 0.5])));
}

#[test]
fn run_reproduces_golden_output() {
    let mut net = half_network(1.0);
    let out = net.run(reals(&[1.0, 1.0])).unwrap();
    assert_eq!(out.len(), 1);
    assert!(close(out[0].0, 0.6750375273768237));
}

#[test]
fn run_leaves_parameters_alone() {
    let mut net = half_network(1.0);
    let before = net.save();
    net.run(reals(&[0.25, 0.75])).unwrap();
    assert_eq!(net.save(), before);
}

#[test]
fn backpropagate_without_trace_is_refused() {
    let mut net = half_network(1.0);
    assert_eq!(net.backpropagate(reals(&[0.5]), reals(&[1.0])), Err(NetError::Shape));
}

#[test]
fn backpropagate_rejects_wrong_widths() {
    let mut net = half_network(1.0);
    let before = net.save();
    net.run(reals(&[1.0, 1.0])).unwrap();
    assert_eq!(net.backpropagate(reals(&[0.5, 0.5]), reals(&[1.0])), Err(NetError::Shape));
    assert_eq!(net.backpropagate(reals(&[0.5]), reals(&[1.0, 0.0])), Err(NetError::Shape));
    assert_eq!(net.save(), before);
}

#[test]
fn backpropagate_applies_the_update_formula() {
    let mut net = half_network(10.0);
    let out = net.run(reals(&[1.0, 1.0])).unwrap();
    assert_eq!(net.backpropagate(out, reals(&[0.0])), Ok(()));
    let (weights, biases) = net.save();
    for row in weights[0].iter() {
        for x in row.iter() {
            assert!(close(x.0, 0.503037446790278));
        }
    }
    assert!(close(weights[1][0][0].0, 0.5216506639145244));
    assert!(close(weights[1][0][1].0, 0.5216506639145244));
    assert!(close(biases[0][0][0].0, 0.0030374467902779846));
    assert!(close(biases[0][1][0].0, 0.0030374467902779846));
    assert!(close(biases[1][0][0].0, 0.029615498056390327));
}

#[test]
fn one_step_moves_the_error_by_the_sign_of_the_rate() {
    let mut up = half_network(10.0);
    let out = up.run(reals(&[1.0, 1.0])).unwrap();
    let before = squared_error(&out, &[0.0]);
    up.backpropagate(out, reals(&[0.0])).unwrap();
    let after = squared_error(&up.run(reals(&[1.0, 1.0])).unwrap(), &[0.0]);
    assert!(close(before, 0.4556756633670159));
    assert!(close(after, 0.4743509317193144));

    let mut down = half_network(-10.0);
    let out = down.run(reals(&[1.0, 1.0])).unwrap();
    down.backpropagate(out, reals(&[0.0])).unwrap();
    let after = squared_error(&down.run(reals(&[1.0, 1.0])).unwrap(), &[0.0]);
    assert!(close(after, 0.437056903321789));
    assert!(after < before);
}

#[test]
fn train_is_run_then_backpropagate_per_sample() {
    let inputs = vec![reals(&[1.0, 0.0]), reals(&[0.25, 0.75])];
    let targets = vec![reals(&[1.0]), reals(&[0.0])];
    let mut trained = half_network(5.0);
    assert_eq!(trained.train(&inputs, &targets), Ok(()));

    let mut stepped = half_network(5.0);
    for i in 0..2 {
        let out = stepped.run(inputs[i].clone()).unwrap();
        stepped.backpropagate(out, targets[i].clone()).unwrap();
    }
    assert_eq!(trained.save(), stepped.save());
}

#[test]
fn train_stops_at_first_misfit() {
    let inputs = vec![reals(&[1.0, 0.0]), reals(&[0.25]), reals(&[0.5, 0.5])];
    let targets = vec![reals(&[1.0]), reals(&[0.0]), reals(&[1.0])];
    let mut trained = half_network(5.0);
    assert_eq!(trained.train(&inputs, &targets), Err(NetError::Shape));

    let mut stepped = half_network(5.0);
    let out = stepped.run(inputs[0].clone()).unwrap();
    stepped.backpropagate(out, targets[0].clone()).unwrap();
    assert_eq!(trained.save(), stepped.save());
}

#[test]
fn train_refuses_missing_target() {
    let inputs = vec![reals(&[1.0, 0.0])];
    let targets: Vec<Vec<Real>> = Vec::new();
    let mut net = half_network(5.0);
    let before = net.save();
    assert_eq!(net.train(&inputs, &targets), Err(NetError::Shape));
    assert_eq!(net.save(), before);
}

#[test]
fn training_learns_exclusive_or_with_descending_rate() {
    let mut net = Network::create(vec![2, 3, 1], Real(-50.0)).unwrap();
    let weights =
        vec![grid(&[&[0.5, -0.25], &[-0.75, 0.5], &[0.25, 0.75]]), grid(&[&[0.5, -0.5, 0.25]])];
    let biases = vec![grid(&[&[0.0], &[-0.25], &[0.25]]), grid(&[&[0.125]])];
    assert_eq!(net.load(weights, biases), Ok(()));
    let inputs =
        vec![reals(&[0.0, 0.0]), reals(&[0.0, 1.0]), reals(&[1.0, 0.0]), reals(&[1.0, 1.0])];
    let targets = vec![reals(&[0.0]), reals(&[1.0]), reals(&[1.0]), reals(&[0.0])];
    for _ in 0..2000 {
        assert_eq!(net.train(&inputs, &targets), Ok(()));
    }
    let mut hits = 0;
    for i in 0..4 {
        let out = net.run(inputs[i].clone()).unwrap();
        if (out[0].0 - targets[i][0].0).abs() < 0.1 {
            hits += 1;
        }
    }
    assert!(hits >= 3);
}

#[test]
fn save_then_load_reproduces_outputs() {
    let mut first = Network::create(vec![3, 5, 2], Real(1.0)).unwrap();
    let mut second = Network::create(vec![3, 5, 2], Real(1.0)).unwrap();
    let (weights, biases) = first.save();
    assert_eq!(second.load(weights, biases), Ok(()));
    let input = reals(&[0.25, -0.5, 0.75]);
    let a = first.run(input.clone()).unwrap();
    let b = second.run(input).unwrap();
    assert_eq!(plain(&a), plain(&b));
    assert_eq!(first.save(), second.save());
}

#[test]
fn load_rejects_parameters_of_other_layers() {
    let other = Network::<Real>::create(vec![2, 3, 1], Real(1.0)).unwrap();
    let mut net = half_network(1.0);
    let before = net.save();
    let (weights, biases) = other.save();
    assert_eq!(net.load(weights, biases), Err(NetError::Config));
    assert_eq!(net.save(), before);
}

#[test]
fn load_rejects_wrong_count() {
    let mut net = half_network(1.0);
    let weights = vec![grid(&[&[0.5, 0.5], &[0.5, 0.5]])];
    let biases = vec![grid(&[&[0.0], &[0.0]])];
    assert_eq!(net.load(weights, biases), Err(NetError::Config));
}

#[test]
fn split_rows_cuts_exact_multiples() {
    let rows = split_rows(&vec![1u8, 2, 3, 4, 5, 6], 3);
    assert_eq!(rows, vec![vec![1u8, 2, 3], vec![4, 5, 6]]);
}

#[test]
fn split_rows_keeps_short_last_row() {
    let rows = split_rows(&vec![1u8, 2, 3, 4, 5], 2);
    assert_eq!(rows, vec![vec![1u8, 2], vec![3, 4], vec![5]]);
}

#[test]
fn split_rows_of_nothing_is_empty() {
    let none: Vec<u8> = Vec::new();
    assert!(split_rows(&none, 784).is_empty());
}

#[test]
fn one_hot_marks_the_label() {
    let v: Vec<Real> = one_hot(3, 10).unwrap();
    assert_eq!(plain(&v), vec![0.0, 0.0, 0.0, 1.0, 0.0, 0.0, 0.0, 0.0, 0.0, 0.0]);
}

#[test]
fn one_hot_rejects_label_out_of_range() {
    assert_eq!(one_hot::<Real>(10, 10), Err(NetError::Shape));
    assert_eq!(one_hot::<Real>(0, 0), Err(NetError::Shape));
}

#[test]
fn strongest_finds_the_greatest() {
    assert_eq!(strongest(&reals(&[0.1, 0.7, 0.3])), 1);
    assert_eq!(strongest(&reals(&[0.9, 0.7, 0.3])), 0);
    assert_eq!(strongest(&reals(&[0.1, 0.2, 0.3])), 2);
}

#[test]
fn strongest_takes_the_first_of_equals() {
    assert_eq!(strongest(&reals(&[0.5, 0.9, 0.9, 0.2])), 1);
}

#[test]
fn strongest_of_nothing_is_zero() {
    assert_eq!(strongest(&reals(&[])), 0);
}

#[test]
fn create_scales_learning_rate_by_a_hundredth() {
    let net = Network::create(vec![2, 1], Real(0.5)).unwrap();
    assert_eq!(net.learning_rate(), Real(0.5 * 0.01));
    assert!(close(net.learning_rate().0, 0.005));
}

#[test]
fn trace_is_empty_before_first_run() {
    let net = half_network(1.0);
    assert!(net.trace().is_empty());
}

#[test]
fn run_records_every_activation() {
    let mut net = half_network(1.0);
    net.run(reals(&[1.0, 1.0])).unwrap();
    let trace = net.trace();
    assert_eq!(trace.len(), 3);
    assert_eq!(trace[0], grid(&[&[1.0], &[1.0]]));
    assert_eq!(trace[1].len(), 2);
    assert!(close(trace[1][0][0].0, 0.7310585786300049));
    assert!(close(trace[1][1][0].0, 0.7310585786300049));
    assert_eq!(trace[2].len(), 1);
    assert!(close(trace[2][0][0].0, 0.6750375273768237));
}

#[test]
fn run_overwrites_the_trace() {
    let mut net = half_network(1.0);
    net.run(reals(&[1.0, 1.0])).unwrap();
    net.run(reals(&[0.0, 0.0])).unwrap();
    let trace = net.trace();
    assert_eq!(trace.len(), 3);
    assert_eq!(trace[0], grid(&[&[0.0], &[0.0]]));
    assert_eq!(trace[1], grid(&[&[0.5], &[0.5]]));
}

#[test]
fn backpropagate_leaves_the_trace() {
    let mut net = half_network(10.0);
    let out = net.run(reals(&[1.0, 1.0])).unwrap();
    let before = net.trace();
    net.backpropagate(out, reals(&[0.0])).unwrap();
    assert_eq!(net.trace(), before);
}
