use autodiff::function::{backward, forward, Kind, Unary};
use autodiff::graph::{Graph, GraphError};
use autodiff::operation::{CallRecord, Operation};
use autodiff::variable::GradientFunction;

fn unary(p: Unary, x: &f64) -> f64 {
    match p {
        Unary::Square => x.powi(2),
        Unary::Exp => x.exp(),
        Unary::Double => 2.0 * x,
    }
}

fn times(a: &f64, b: &f64) -> f64 {
    a * b
}

/// Square, then exponential, then square, by the forward maps alone.
fn pipeline(x: f64) -> f64 {
    let a = forward(Kind::Square, &vec![x], &unary);
    let b = forward(Kind::Exp, &a, &unary);
    forward(Kind::Square, &b, &unary)[0]
}

/// Central difference of `pipeline` at `x`.
fn numerical_diff(x: f64, eps: f64) -> f64 {
    (pipeline(x + eps) - pipeline(x - eps)) / (2.0 * eps)
}

/// The graph of `pipeline` on `data`: the handles of x, a, b, y and of the
/// three operations.
fn build(data: Vec<f64>) -> (Graph<f64>, [usize; 4], [usize; 3]) {
    let mut g = Graph::new();
    let x = g.variable(data);
    let sq1 = g.operation(Kind::Square);
    let ex = g.operation(Kind::Exp);
    let sq2 = g.operation(Kind::Square);
    let a = g.call(sq1, x, &unary).unwrap();
    let b = g.call(ex, a, &unary).unwrap();
    let y = g.call(sq2, b, &unary).unwrap();
    (g, [x, a, b, y], [sq1, ex, sq2])
}

#[test]
fn new_graph_is_empty() {
    let g: Graph<f64> = Graph::new();
    assert_eq!(g.len(), 0);
    assert!(g.get(0).is_none());
    assert_eq!(g.instance(0), None);
}

#[test]
fn variable_adds_a_leaf() {
    let mut g = Graph::new();
    let x = g.variable(vec![1.0, 2.0]);
    let z = g.variable(vec![]);
    assert_eq!((x, z), (0, 1));
    assert_eq!(g.len(), 2);
    let var = g.get(x).unwrap();
    assert_eq!(var.data, vec![1.0, 2.0]);
    assert!(var.grad.is_empty());
    assert_eq!(var.creator, None);
    assert!(g.get(z).unwrap().data.is_empty());
    assert!(g.get(2).is_none());
}

#[test]
fn operation_adds_an_uncalled_instance() {
    let mut g: Graph<f64> = Graph::new();
    let s = g.operation(Kind::Square);
    let e = g.operation(Kind::Exp);
    assert_eq!((s, e), (0, 1));
    assert_eq!(g.instance(s), Some(Operation::new(Kind::Square)));
    assert_eq!(g.instance(e), Some(Operation::new(Kind::Exp)));
    assert_eq!(g.instance(2), None);
}

#[test]
fn call_wires_output_to_operation() {
    let mut g = Graph::new();
    let x = g.variable(vec![3.0, -2.0]);
    let op = g.operation(Kind::Square);
    let y = g.call(op, x, &unary).unwrap();
    assert_eq!(y, 1);
    assert_eq!(g.len(), 2);
    let out = g.get(y).unwrap();
    assert_eq!(out.data, vec![9.0, 4.0]);
    assert!(out.grad.is_empty());
    assert_eq!(out.creator, Some(GradientFunction::Square(0)));
    assert_eq!(
        g.instance(op),
        Some(Operation { kind: Kind::Square, input: Some(x), output: Some(y), record: Some(0) })
    );
    assert_eq!(
        g.resolve(GradientFunction::Square(0)),
        Some(CallRecord { owner: op, kind: Kind::Square, input: x, output: y })
    );
    let input = g.get(x).unwrap();
    assert_eq!(input.data, vec![3.0, -2.0]);
    assert!(input.grad.is_empty());
    assert_eq!(input.creator, None);
}

#[test]
fn call_rejects_unknown_handles() {
    let mut g = Graph::new();
    let x = g.variable(vec![1.0]);
    let op = g.operation(Kind::Exp);
    assert_eq!(g.call(op + 1, x, &unary), Err(GraphError::UnknownOperation));
    assert_eq!(g.call(op + 1, x + 1, &unary), Err(GraphError::UnknownOperation));
    assert_eq!(g.call(op, x + 1, &unary), Err(GraphError::UnknownVariable));
    assert_eq!(g.len(), 1);
    assert_eq!(g.instance(op), Some(Operation::new(Kind::Exp)));
    g.release(op).unwrap();
    assert_eq!(g.call(op, x, &unary), Err(GraphError::UnknownOperation));
    assert_eq!(g.len(), 1);
}

#[test]
fn seed_sets_the_gradient() {
    let mut g = Graph::new();
    let x = g.variable(vec![1.0, 2.0]);
    let z = g.variable(vec![5.0]);
    assert_eq!(g.seed(x, vec![0.5, 0.25]), Ok(()));
    assert_eq!(g.get(x).unwrap().grad, vec![0.5, 0.25]);
    assert_eq!(g.get(x).unwrap().data, vec![1.0, 2.0]);
    assert!(g.get(z).unwrap().grad.is_empty());
    assert_eq!(g.seed(x, vec![7.0, 8.0]), Ok(()));
    assert_eq!(g.get(x).unwrap().grad, vec![7.0, 8.0]);
}

#[test]
fn seed_rejects_mismatch_and_unknown_variable() {
    let mut g = Graph::new();
    let x = g.variable(vec![1.0, 2.0]);
    assert_eq!(g.seed(x, vec![1.0]), Err(GraphError::ShapeMismatch));
    assert_eq!(g.seed(x, vec![1.0, 2.0, 3.0]), Err(GraphError::ShapeMismatch));
    assert_eq!(g.seed(x, vec![]), Err(GraphError::ShapeMismatch));
    assert!(g.get(x).unwrap().grad.is_empty());
    assert_eq!(g.seed(x + 1, vec![1.0, 2.0]), Err(GraphError::UnknownVariable));
}

#[test]
fn resolve_fails_cleanly_on_foreign_tags() {
    let (g, _, _) = build(vec![0.5]);
    assert_eq!(
        g.resolve(GradientFunction::Exp(1)),
        Some(CallRecord { owner: 1, kind: Kind::Exp, input: 1, output: 2 })
    );
    assert_eq!(g.resolve(GradientFunction::Square(1)), None);
    assert_eq!(g.resolve(GradientFunction::Exp(0)), None);
    assert_eq!(g.resolve(GradientFunction::Square(3)), None);
    assert_eq!(g.resolve(GradientFunction::Exp(usize::MAX)), None);
}

#[test]
fn release_empties_the_slot_once() {
    let (mut g, _, [sq1, ex, sq2]) = build(vec![0.5]);
    assert_eq!(g.release(ex), Ok(()));
    assert_eq!(g.instance(ex), None);
    assert_eq!(g.resolve(GradientFunction::Exp(1)), None);
    assert!(g.resolve(GradientFunction::Square(0)).is_some());
    assert!(g.resolve(GradientFunction::Square(2)).is_some());
    assert!(g.instance(sq1).is_some());
    assert!(g.instance(sq2).is_some());
    assert_eq!(g.release(ex), Err(GraphError::UnknownOperation));
    assert_eq!(g.release(17), Err(GraphError::UnknownOperation));
    assert_eq!(g.len(), 4);
}

#[test]
fn backward_from_a_leaf_changes_nothing() {
    let mut g = Graph::new();
    let x = g.variable(vec![1.0, 2.0]);
    let z = g.variable(vec![3.0]);
    assert_eq!(g.backward(x, &unary, &times), Ok(()));
    assert!(g.get(x).unwrap().grad.is_empty());
    g.seed(x, vec![0.5, 0.5]).unwrap();
    assert_eq!(g.backward(x, &unary, &times), Ok(()));
    assert_eq!(g.get(x).unwrap().grad, vec![0.5, 0.5]);
    assert_eq!(g.get(x).unwrap().data, vec![1.0, 2.0]);
    assert!(g.get(z).unwrap().grad.is_empty());
    assert_eq!(g.len(), 2);
}

#[test]
fn backward_leaves_the_leaf_of_a_chain_alone_when_started_there() {
    let (mut g, [x, a, b, y], _) = build(vec![0.5]);
    g.seed(x, vec![1.0]).unwrap();
    assert_eq!(g.backward(x, &unary, &times), Ok(()));
    assert_eq!(g.get(x).unwrap().grad, vec![1.0]);
    for v in [a, b, y] {
        assert!(g.get(v).unwrap().grad.is_empty());
    }
}

#[test]
fn square_exp_square_matches_numerical_differentiation() {
    let x_data = ndarray::arr2(&[[0.5]]).into_raw_vec();
    let (mut g, [x, a, b, y], _) = build(x_data);
    assert_eq!(g.get(a).unwrap().data, vec![0.25]);
    assert!((g.get(b).unwrap().data[0] - 1.284025).abs() < 1e-6);
    assert!((g.get(y).unwrap().data[0] - 1.648722).abs() < 1e-6);
    let seed = ndarray::arr2(&[[1.0]]).into_raw_vec();
    g.seed(y, seed).unwrap();
    assert_eq!(g.backward(y, &unary, &times), Ok(()));
    let gx = g.get(x).unwrap().grad.clone();
    assert_eq!(gx.len(), 1);
    assert!((gx[0] - numerical_diff(0.5, 1e-4)).abs() < 1e-4);
    assert!((gx[0] - 3.297442).abs() < 1e-5);
}

#[test]
fn backward_equals_manual_chain_rule() {
    let (mut g, [x, a, b, y], [sq1, ex, sq2]) = build(vec![0.5, -1.0, 2.0]);
    let seed = vec![1.0, 0.5, -2.0];
    let gb = g.backward_through(sq2, &seed, &unary, &times).unwrap();
    let ga = g.backward_through(ex, &gb, &unary, &times).unwrap();
    let gx = g.backward_through(sq1, &ga, &unary, &times).unwrap();
    let by_rule = backward(Kind::Square, &g.get(b).unwrap().data, &seed, &unary, &times).unwrap();
    assert_eq!(gb, by_rule);
    g.seed(y, seed.clone()).unwrap();
    assert_eq!(g.backward(y, &unary, &times), Ok(()));
    assert_eq!(g.get(y).unwrap().grad, seed);
    assert_eq!(g.get(b).unwrap().grad, gb);
    assert_eq!(g.get(a).unwrap().grad, ga);
    assert_eq!(g.get(x).unwrap().grad, gx);
    for (i, x_i) in [0.5_f64, -1.0, 2.0].iter().enumerate() {
        let a_i = x_i.powi(2);
        let b_i = a_i.exp();
        let expected = 2.0 * x_i * (a_i.exp() * (2.0 * b_i * seed[i]));
        assert_eq!(g.get(x).unwrap().grad[i], expected);
    }
}

#[test]
fn backward_keeps_data_and_creators() {
    let (mut g, vars, ops) = build(vec![0.5, 1.5]);
    let before: Vec<(Vec<f64>, Option<GradientFunction>)> =
        vars.iter().map(|v| (g.get(*v).unwrap().data.clone(), g.get(*v).unwrap().creator)).collect();
    let instances: Vec<Option<Operation>> = ops.iter().map(|o| g.instance(*o)).collect();
    g.seed(vars[3], vec![1.0, 1.0]).unwrap();
    g.backward(vars[3], &unary, &times).unwrap();
    for (i, v) in vars.iter().enumerate() {
        assert_eq!(g.get(*v).unwrap().data, before[i].0);
        assert_eq!(g.get(*v).unwrap().creator, before[i].1);
    }
    for (i, o) in ops.iter().enumerate() {
        assert_eq!(g.instance(*o), instances[i]);
    }
    assert_eq!(g.len(), 4);
}

#[test]
fn backward_from_the_middle_writes_only_upstream() {
    let (mut g, [x, a, b, y], _) = build(vec![0.5]);
    g.seed(a, vec![3.0]).unwrap();
    assert_eq!(g.backward(a, &unary, &times), Ok(()));
    assert_eq!(g.get(x).unwrap().grad, vec![2.0 * 0.5 * 3.0]);
    assert_eq!(g.get(a).unwrap().grad, vec![3.0]);
    assert!(g.get(b).unwrap().grad.is_empty());
    assert!(g.get(y).unwrap().grad.is_empty());
}

#[test]
fn backward_overwrites_an_earlier_gradient() {
    let mut g = Graph::new();
    let x = g.variable(vec![3.0]);
    let op = g.operation(Kind::Square);
    let y = g.call(op, x, &unary).unwrap();
    g.seed(x, vec![100.0]).unwrap();
    g.seed(y, vec![1.0]).unwrap();
    g.backward(y, &unary, &times).unwrap();
    assert_eq!(g.get(x).unwrap().grad, vec![6.0]);
    g.seed(y, vec![2.0]).unwrap();
    g.backward(y, &unary, &times).unwrap();
    assert_eq!(g.get(x).unwrap().grad, vec![12.0]);
}

#[test]
fn shared_input_gets_the_gradient_of_the_last_traversal() {
    let mut g = Graph::new();
    let x = g.variable(vec![3.0]);
    let sq = g.operation(Kind::Square);
    let ex = g.operation(Kind::Exp);
    let a = g.call(sq, x, &unary).unwrap();
    let b = g.call(ex, x, &unary).unwrap();
    g.seed(a, vec![1.0]).unwrap();
    g.seed(b, vec![1.0]).unwrap();
    g.backward(a, &unary, &times).unwrap();
    assert_eq!(g.get(x).unwrap().grad, vec![6.0]);
    g.backward(b, &unary, &times).unwrap();
    assert_eq!(g.get(x).unwrap().grad, vec![3.0_f64.exp()]);
}

#[test]
fn backward_rejects_unseeded_start_and_unknown_variable() {
    let (mut g, [x, a, b, y], _) = build(vec![0.5, 0.25]);
    assert_eq!(g.backward(y, &unary, &times), Err(GraphError::ShapeMismatch));
    for v in [x, a, b, y] {
        assert!(g.get(v).unwrap().grad.is_empty());
    }
    assert_eq!(g.backward(4, &unary, &times), Err(GraphError::UnknownVariable));
}

#[test]
fn second_call_keeps_the_first_output() {
    let mut g = Graph::new();
    let x1 = g.variable(vec![3.0]);
    let x2 = g.variable(vec![10.0, 20.0]);
    let op = g.operation(Kind::Square);
    let y1 = g.call(op, x1, &unary).unwrap();
    let tag1 = g.get(y1).unwrap().creator;
    let y2 = g.call(op, x2, &unary).unwrap();
    assert_eq!(g.get(y1).unwrap().data, vec![9.0]);
    assert_eq!(g.get(y1).unwrap().creator, tag1);
    assert_eq!(tag1, Some(GradientFunction::Square(0)));
    assert_eq!(g.get(y2).unwrap().data, vec![100.0, 400.0]);
    assert_eq!(g.get(y2).unwrap().creator, Some(GradientFunction::Square(1)));
    assert_eq!(
        g.instance(op),
        Some(Operation { kind: Kind::Square, input: Some(x2), output: Some(y2), record: Some(1) })
    );
    assert_eq!(
        g.resolve(tag1.unwrap()),
        Some(CallRecord { owner: op, kind: Kind::Square, input: x1, output: y1 })
    );
    g.seed(y1, vec![1.0]).unwrap();
    g.backward(y1, &unary, &times).unwrap();
    assert_eq!(g.get(x1).unwrap().grad, vec![6.0]);
    assert!(g.get(x2).unwrap().grad.is_empty());
}

#[test]
fn operation_called_on_its_own_output_still_terminates() {
    let mut g = Graph::new();
    let x = g.variable(vec![2.0]);
    let op = g.operation(Kind::Square);
    let a = g.call(op, x, &unary).unwrap();
    let b = g.call(op, a, &unary).unwrap();
    assert_eq!(g.get(b).unwrap().data, vec![16.0]);
    g.seed(b, vec![1.0]).unwrap();
    assert_eq!(g.backward(b, &unary, &times), Ok(()));
    assert_eq!(g.get(a).unwrap().grad, vec![8.0]);
    assert_eq!(g.get(x).unwrap().grad, vec![32.0]);
}

#[test]
fn released_producer_is_a_dead_end() {
    let (mut g, [x, a, b, y], [_, ex, _]) = build(vec![0.5]);
    g.release(ex).unwrap();
    g.seed(y, vec![1.0]).unwrap();
    assert_eq!(g.backward(y, &unary, &times), Ok(()));
    let b_data = g.get(b).unwrap().data[0];
    assert_eq!(g.get(b).unwrap().grad, vec![2.0 * b_data * 1.0]);
    assert!(g.get(a).unwrap().grad.is_empty());
    assert!(g.get(x).unwrap().grad.is_empty());
    assert_eq!(g.get(b).unwrap().creator, Some(GradientFunction::Exp(1)));
}

#[test]
fn released_producer_of_the_start_makes_backward_a_no_op() {
    let (mut g, [x, a, b, y], [_, _, sq2]) = build(vec![0.5]);
    g.release(sq2).unwrap();
    assert_eq!(g.backward(y, &unary, &times), Ok(()));
    g.seed(y, vec![1.0]).unwrap();
    assert_eq!(g.backward(y, &unary, &times), Ok(()));
    for v in [x, a, b] {
        assert!(g.get(v).unwrap().grad.is_empty());
    }
    assert_eq!(g.get(y).unwrap().grad, vec![1.0]);
}

#[test]
fn zero_length_data_round_trips() {
    let (mut g, [x, a, b, y], _) = build(Vec::new());
    for v in [x, a, b, y] {
        assert!(g.get(v).unwrap().data.is_empty());
    }
    assert_eq!(g.backward(y, &unary, &times), Ok(()));
    assert_eq!(g.seed(y, Vec::new()), Ok(()));
    assert_eq!(g.backward(y, &unary, &times), Ok(()));
    for v in [x, a, b, y] {
        assert!(g.get(v).unwrap().grad.is_empty());
        assert!(g.get(v).unwrap().data.is_empty());
    }
    assert_eq!(g.seed(y, vec![1.0]), Err(GraphError::ShapeMismatch));
}

#[test]
fn step_makes_one_transition() {
    let (mut g, [x, a, b, y], _) = build(vec![0.5]);
    g.seed(y, vec![1.0]).unwrap();
    assert_eq!(g.step(y, &unary, &times), Ok(Some(b)));
    let b_data = g.get(b).unwrap().data[0];
    assert_eq!(g.get(b).unwrap().grad, vec![2.0 * b_data]);
    assert!(g.get(a).unwrap().grad.is_empty());
    assert_eq!(g.step(b, &unary, &times), Ok(Some(a)));
    assert_eq!(g.step(a, &unary, &times), Ok(Some(x)));
    assert_eq!(g.step(x, &unary, &times), Ok(None));
    let stepped = g.get(x).unwrap().grad.clone();
    let (mut h, [hx, _, _, hy], _) = build(vec![0.5]);
    h.seed(hy, vec![1.0]).unwrap();
    h.backward(hy, &unary, &times).unwrap();
    assert_eq!(stepped, h.get(hx).unwrap().grad);
}

#[test]
fn step_reports_dead_ends_and_errors() {
    let (mut g, [_, a, b, y], [_, ex, _]) = build(vec![0.5]);
    assert_eq!(g.step(y, &unary, &times), Err(GraphError::ShapeMismatch));
    assert!(g.get(b).unwrap().grad.is_empty());
    assert_eq!(g.step(9, &unary, &times), Err(GraphError::UnknownVariable));
    g.release(ex).unwrap();
    assert_eq!(g.step(b, &unary, &times), Ok(None));
    assert!(g.get(a).unwrap().grad.is_empty());
}

#[test]
fn backward_through_uses_the_remembered_input() {
    let mut g = Graph::new();
    let x1 = g.variable(vec![3.0]);
    let x2 = g.variable(vec![10.0, 20.0]);
    let op = g.operation(Kind::Square);
    let fresh = g.operation(Kind::Exp);
    assert_eq!(g.backward_through(fresh, &vec![1.0], &unary, &times), Err(GraphError::NotCalled));
    assert_eq!(g.backward_through(7, &vec![1.0], &unary, &times), Err(GraphError::UnknownOperation));
    g.call(op, x1, &unary).unwrap();
    assert_eq!(g.backward_through(op, &vec![0.5], &unary, &times), Ok(vec![3.0]));
    assert_eq!(
        g.backward_through(op, &vec![0.5, 0.5], &unary, &times),
        Err(GraphError::ShapeMismatch)
    );
    g.call(op, x2, &unary).unwrap();
    assert_eq!(g.backward_through(op, &vec![1.0, 2.0], &unary, &times), Ok(vec![20.0, 80.0]));
    assert_eq!(g.backward_through(op, &vec![0.5], &unary, &times), Err(GraphError::ShapeMismatch));
    g.release(op).unwrap();
    assert_eq!(
        g.backward_through(op, &vec![1.0, 2.0], &unary, &times),
        Err(GraphError::UnknownOperation)
    );
    assert!(g.get(x1).unwrap().grad.is_empty());
    assert!(g.get(x2).unwrap().grad.is_empty());
}

#[test]
fn engine_is_generic_in_the_scalar() {
    let int_unary = |p: Unary, x: &i64| match p {
        Unary::Square => x * x,
        Unary::Exp => 1 << x,
        Unary::Double => 2 * x,
    };
    let int_times = |a: &i64, b: &i64| a * b;
    let mut g: Graph<i64> = Graph::new();
    let x = g.variable(vec![1, 2, 3]);
    let sq = g.operation(Kind::Square);
    let ex = g.operation(Kind::Exp);
    let a = g.call(sq, x, &int_unary).unwrap();
    let y = g.call(ex, a, &int_unary).unwrap();
    assert_eq!(g.get(a).unwrap().data, vec![1, 4, 9]);
    assert_eq!(g.get(y).unwrap().data, vec![2, 16, 512]);
    g.seed(y, vec![1, 1, 1]).unwrap();
    g.backward(y, &int_unary, &int_times).unwrap();
    assert_eq!(g.get(a).unwrap().grad, vec![2, 16, 512]);
    assert_eq!(g.get(x).unwrap().grad, vec![4, 64, 3072]);
}
