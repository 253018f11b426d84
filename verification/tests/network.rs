use feedforward::activations::Activation;
use feedforward::error::NetworkError;
use feedforward::matrix::Matrix;
use feedforward::network::{BackProps, EndLayer, Layer, ProcessLayer};
use feedforward::random::RandomSource;

type Act = Activation<fn(i64) -> i64, fn(i64) -> i64>;

fn double(x: i64) -> i64 {
    2 * x
}

fn successor(y: i64) -> i64 {
    y + 1
}

fn same(y: i64) -> i64 {
    y
}

/// Doubles going forward; the "derivative" adds one, so that every use of it shows.
fn doubling() -> Act {
    Activation { function: double, derivative: successor }
}

/// Adds one going forward; the "derivative" hands its argument back.
fn stepping() -> Act {
    Activation { function: successor, derivative: same }
}

fn grid(rows: Vec<Vec<i64>>) -> Matrix<i64> {
    Matrix::from(rows).unwrap()
}

fn column(values: Vec<i64>) -> Matrix<i64> {
    Matrix::column(&values)
}

fn single() -> ProcessLayer<i64, EndLayer> {
    ProcessLayer::with_parameters(
        EndLayer::new(2),
        grid(vec![vec![1, 2], vec![3, 4]]),
        column(vec![1, -1]),
    )
    .unwrap()
}

fn double_layer() -> ProcessLayer<i64, ProcessLayer<i64, EndLayer>> {
    let back = ProcessLayer::with_parameters(EndLayer::new(1), grid(vec![vec![1, 1]]), column(vec![0])).unwrap();
    ProcessLayer::with_parameters(back, grid(vec![vec![1, 0], vec![0, 1]]), column(vec![0, 0])).unwrap()
}

#[test]
fn end_layer_hands_the_column_out_as_a_vector() {
    let mut end = EndLayer::new(3);
    assert_eq!(Layer::<i64>::input_width(&end), 3);
    assert_eq!(Layer::<i64>::output_width(&end), 3);
    assert_eq!(end.feed_forward(column(vec![4, 5, 6]), &doubling()), Ok(vec![4, 5, 6]));
}

#[test]
fn end_layer_of_no_width_returns_nothing() {
    let mut end = EndLayer::new(0);
    assert_eq!(end.feed_forward(column(Vec::new()), &doubling()), Ok(Vec::new()));
}

#[test]
fn end_layer_refuses_a_feed_of_the_wrong_shape() {
    let mut end = EndLayer::new(3);
    assert_eq!(end.feed_forward(column(vec![4, 5]), &doubling()), Err(NetworkError::ShapeMismatch));
    assert_eq!(end.feed_forward(grid(vec![vec![4, 5, 6]]), &doubling()), Err(NetworkError::ShapeMismatch));
    assert_eq!(end, EndLayer::new(3));
}

#[test]
fn end_layer_originates_the_signal() {
    let mut end = EndLayer::new(2);
    end.feed_forward(column(vec![12, 20]), &doubling()).unwrap();
    let signal = end.back_propagate(2, &vec![12, 20], &vec![10, 23], &doubling());
    assert_eq!(signal, Ok(BackProps(column(vec![-2, 3]), column(vec![13, 21]))));
}

#[test]
fn back_propagate_without_feed_forward_is_stale() {
    let mut end = EndLayer::new(1);
    assert_eq!(end.back_propagate(1, &vec![1], &vec![1], &doubling()), Err(NetworkError::StaleState));
    let mut layer = single();
    assert_eq!(layer.back_propagate(1, &vec![1, 1], &vec![1, 1], &doubling()), Err(NetworkError::StaleState));
    assert_eq!(layer, single());
    let mut chain = double_layer();
    assert_eq!(chain.back_propagate(1, &vec![1], &vec![1], &doubling()), Err(NetworkError::StaleState));
    assert_eq!(chain, double_layer());
}

#[test]
fn back_propagate_twice_is_stale() {
    let mut layer = single();
    let outputs = layer.feed_forward(column(vec![1, 2]), &doubling()).unwrap();
    assert!(layer.back_propagate(2, &outputs, &vec![10, 23], &doubling()).is_ok());
    let after = layer.clone();
    assert_eq!(layer.back_propagate(2, &outputs, &vec![10, 23], &doubling()), Err(NetworkError::StaleState));
    assert_eq!(layer, after);
}

#[test]
fn stale_comes_before_shape() {
    let mut layer = single();
    assert_eq!(layer.back_propagate(1, &vec![1], &vec![1, 2, 3], &doubling()), Err(NetworkError::StaleState));
}

#[test]
fn back_propagate_refuses_vectors_of_the_wrong_length_and_changes_nothing() {
    let mut layer = single();
    layer.feed_forward(column(vec![1, 2]), &doubling()).unwrap();
    let fed = layer.clone();
    assert_eq!(layer.back_propagate(2, &vec![12], &vec![10, 23], &doubling()), Err(NetworkError::ShapeMismatch));
    assert_eq!(layer.back_propagate(2, &vec![12, 20], &vec![10, 23, 1], &doubling()), Err(NetworkError::ShapeMismatch));
    assert_eq!(layer, fed);
    assert!(layer.back_propagate(2, &vec![12, 20], &vec![10, 23], &doubling()).is_ok());
}

#[test]
fn feed_forward_activates_the_affine_image() {
    let mut layer = single();
    assert_eq!(layer.input_width(), 2);
    assert_eq!(layer.output_width(), 2);
    assert_eq!(layer.cached(), &column(vec![0, 0]));
    assert_eq!(layer.feed_forward(column(vec![1, 2]), &doubling()), Ok(vec![12, 20]));
    assert_eq!(layer.cached(), &column(vec![1, 2]));
    assert_eq!(layer.weights(), &grid(vec![vec![1, 2], vec![3, 4]]));
    assert_eq!(layer.biases(), &column(vec![1, -1]));
}

#[test]
fn feed_forward_refuses_a_feed_of_the_wrong_shape_and_changes_nothing() {
    let mut layer = single();
    assert_eq!(layer.feed_forward(column(vec![1, 2, 3]), &doubling()), Err(NetworkError::ShapeMismatch));
    assert_eq!(layer.feed_forward(grid(vec![vec![1, 2]]), &doubling()), Err(NetworkError::ShapeMismatch));
    assert_eq!(layer, single());
}

#[test]
fn back_propagate_takes_one_step_of_gradient_descent() {
    let mut layer = single();
    let outputs = layer.feed_forward(column(vec![1, 2]), &doubling()).unwrap();
    assert_eq!(outputs, vec![12, 20]);
    let signal = layer.back_propagate(2, &outputs, &vec![10, 23], &doubling()).unwrap();
    assert_eq!(layer.weights(), &grid(vec![vec![-51, -102], vec![129, 256]]));
    assert_eq!(layer.biases(), &column(vec![-51, 125]));
    assert_eq!(layer.cached(), &column(vec![1, 2]));
    assert_eq!(signal.1, column(vec![2, 3]));
}

#[test]
fn the_error_goes_back_through_the_weights_as_they_were() {
    let mut layer = single();
    let outputs = layer.feed_forward(column(vec![1, 2]), &doubling()).unwrap();
    let signal = layer.back_propagate(2, &outputs, &vec![10, 23], &doubling()).unwrap();
    assert_eq!(signal.0, column(vec![7, 8]));
    assert_ne!(signal.0, column(vec![489, 972]));
}

#[test]
fn a_chain_delegates_forward_and_backward() {
    let mut chain = double_layer();
    let outputs = chain.feed_forward(column(vec![1, 2]), &stepping()).unwrap();
    assert_eq!(outputs, vec![6]);
    assert_eq!(chain.cached(), &column(vec![1, 2]));
    assert_eq!(chain.next().cached(), &column(vec![2, 3]));
    let signal = chain.back_propagate(1, &outputs, &vec![8], &stepping()).unwrap();
    assert_eq!(chain.next().weights(), &grid(vec![vec![25, 37]]));
    assert_eq!(chain.next().biases(), &column(vec![12]));
    assert_eq!(chain.weights(), &grid(vec![vec![5, 8], vec![6, 13]]));
    assert_eq!(chain.biases(), &column(vec![4, 6]));
    assert_eq!(signal, BackProps(column(vec![2, 2]), column(vec![1, 2])));
}

#[test]
fn with_parameters_refuses_parameters_that_do_not_fit() {
    let fits = |weights: Matrix<i64>, biases: Matrix<i64>| {
        ProcessLayer::with_parameters(EndLayer::new(2), weights, biases).map(|_| ())
    };
    assert_eq!(fits(grid(vec![vec![1, 2], vec![3, 4]]), column(vec![1, 1])), Ok(()));
    assert_eq!(fits(grid(vec![vec![1, 2]]), column(vec![1])), Err(NetworkError::ShapeMismatch));
    assert_eq!(fits(grid(vec![vec![1, 2], vec![3, 4]]), column(vec![1])), Err(NetworkError::ShapeMismatch));
    assert_eq!(fits(grid(vec![vec![1, 2], vec![3, 4]]), grid(vec![vec![1, 1]])), Err(NetworkError::ShapeMismatch));
    assert_eq!(fits(grid(vec![vec![1, 2], vec![3, 4]]), grid(vec![vec![1, 1], vec![1, 1]])), Err(NetworkError::ShapeMismatch));
}

#[test]
fn new_draws_weights_then_biases_and_zeroes_the_cache() {
    let mut source = RandomSource::seeded(11);
    let layer: ProcessLayer<i64, EndLayer> = ProcessLayer::new(EndLayer::new(3), 2, &mut source);
    assert_eq!(source, RandomSource::seeded(13));
    let mut again = RandomSource::seeded(11);
    let weights: Matrix<i64> = Matrix::random(3, 2, &mut again);
    let biases: Matrix<i64> = Matrix::random(3, 1, &mut again);
    assert_eq!(layer.weights(), &weights);
    assert_eq!(layer.biases(), &biases);
    assert_eq!(layer.cached(), &column(vec![0, 0]));
    assert_eq!(layer.input_width(), 2);
    assert_eq!(layer.output_width(), 3);
    assert_eq!(layer.next(), &EndLayer::new(3));
}

#[test]
fn a_new_layer_awaits_a_forward_pass() {
    let mut source = RandomSource::seeded(11);
    let mut layer: ProcessLayer<i64, EndLayer> = ProcessLayer::new(EndLayer::new(1), 2, &mut source);
    assert_eq!(layer.back_propagate(1, &vec![0], &vec![0], &doubling()), Err(NetworkError::StaleState));
}

#[test]
fn predict_feeds_the_input_as_a_column() {
    let mut layer = single();
    assert_eq!(layer.predict(vec![1, 2], &doubling()), Ok(vec![12, 20]));
    let mut chain = double_layer();
    assert_eq!(chain.predict(vec![1, 2], &stepping()), Ok(vec![6]));
}

#[test]
fn predict_refuses_an_input_of_the_wrong_length() {
    let mut layer = single();
    assert_eq!(layer.predict(vec![1], &doubling()), Err(NetworkError::ShapeMismatch));
    assert_eq!(layer.predict(vec![1, 2, 3], &doubling()), Err(NetworkError::ShapeMismatch));
    assert_eq!(layer, single());
}

#[test]
fn predict_changes_no_parameter_and_repeats_itself() {
    let mut chain = double_layer();
    let first = chain.predict(vec![1, 2], &stepping());
    let second = chain.predict(vec![1, 2], &stepping());
    assert_eq!(first, second);
    chain.predict(vec![5, -5], &stepping()).unwrap();
    assert_eq!(chain.predict(vec![1, 2], &stepping()), first);
    assert_eq!(chain.weights(), double_layer().weights());
    assert_eq!(chain.biases(), double_layer().biases());
    assert_eq!(chain.next().weights(), double_layer().next().weights());
    assert_eq!(chain.next().biases(), double_layer().next().biases());
}

#[test]
fn a_prediction_arms_the_chain() {
    let mut layer = single();
    let outputs = layer.predict(vec![1, 2], &doubling()).unwrap();
    assert!(layer.back_propagate(2, &outputs, &vec![10, 23], &doubling()).is_ok());
}

#[test]
fn train_is_a_forward_and_a_backward_pass_for_each_example() {
    let mut trained = double_layer();
    assert_eq!(trained.train(1, vec![vec![1, 2]], vec![vec![8]], 1, &stepping()), Ok(()));
    assert_eq!(trained.next().weights(), &grid(vec![vec![25, 37]]));
    assert_eq!(trained.next().biases(), &column(vec![12]));
    assert_eq!(trained.weights(), &grid(vec![vec![5, 8], vec![6, 13]]));
    assert_eq!(trained.biases(), &column(vec![4, 6]));
}

#[test]
fn train_takes_the_examples_in_order_epoch_after_epoch() {
    let inputs = vec![vec![1, 2], vec![0, -1], vec![3, 3]];
    let targets = vec![vec![8], vec![1], vec![-2]];
    let mut trained = double_layer();
    assert_eq!(trained.train(1, inputs.clone(), targets.clone(), 2, &stepping()), Ok(()));
    let mut stepped = double_layer();
    for _ in 0..2 {
        for example in 0..3 {
            let outputs = stepped.feed_forward(column(inputs[example].clone()), &stepping()).unwrap();
            stepped.back_propagate(1, &outputs, &targets[example], &stepping()).unwrap();
        }
    }
    assert_eq!(trained, stepped);
    let mut reversed = double_layer();
    let backwards = |v: &Vec<Vec<i64>>| v.iter().rev().cloned().collect::<Vec<_>>();
    assert_eq!(reversed.train(1, backwards(&inputs), backwards(&targets), 2, &stepping()), Ok(()));
    assert_ne!(reversed, trained);
}

#[test]
fn train_for_no_epochs_or_on_no_examples_changes_nothing() {
    let mut chain = double_layer();
    assert_eq!(chain.train(1, vec![vec![1, 2]], vec![vec![8]], 0, &stepping()), Ok(()));
    assert_eq!(chain, double_layer());
    assert_eq!(chain.train(1, Vec::new(), Vec::new(), 5, &stepping()), Ok(()));
    assert_eq!(chain, double_layer());
}

#[test]
fn train_refuses_inputs_without_targets() {
    let mut chain = double_layer();
    let refused = chain.train(1, vec![vec![1, 2], vec![3, 4]], vec![vec![8]], 1, &stepping());
    assert_eq!(refused, Err(NetworkError::InvalidConfiguration));
    let refused = chain.train(1, Vec::new(), vec![vec![8]], 0, &stepping());
    assert_eq!(refused, Err(NetworkError::InvalidConfiguration));
    assert_eq!(chain, double_layer());
}

#[test]
fn train_refuses_examples_of_the_wrong_width_before_it_trains() {
    let mut chain = double_layer();
    let narrow = chain.train(1, vec![vec![1, 2], vec![3]], vec![vec![8], vec![8]], 3, &stepping());
    assert_eq!(narrow, Err(NetworkError::ShapeMismatch));
    let wide = chain.train(1, vec![vec![1, 2], vec![3, 4]], vec![vec![8], vec![8, 9]], 3, &stepping());
    assert_eq!(wide, Err(NetworkError::ShapeMismatch));
    let unused = chain.train(1, vec![vec![1, 2, 3]], vec![vec![8]], 0, &stepping());
    assert_eq!(unused, Err(NetworkError::ShapeMismatch));
    assert_eq!(chain, double_layer());
}

#[test]
fn different_lengths_come_before_different_widths() {
    let mut chain = double_layer();
    let refused = chain.train(1, vec![vec![1]], Vec::new(), 1, &stepping());
    assert_eq!(refused, Err(NetworkError::InvalidConfiguration));
}

#[test]
fn training_leaves_the_chain_awaiting_a_forward_pass() {
    let mut chain = double_layer();
    chain.train(1, vec![vec![1, 2]], vec![vec![8]], 1, &stepping()).unwrap();
    assert_eq!(chain.back_propagate(1, &vec![6], &vec![8], &stepping()), Err(NetworkError::StaleState));
}
