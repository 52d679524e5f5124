use num_complex::Complex64;
use qkd::catalog::Gate;
use qkd::catalog::Preparation;
use qkd::catalog::Protocol;
use qkd::catalog::Setup;
use qkd::protocol::QExecutionResult;
use qkd::protocol::QKDResult;
use qkd::reconciliation::reconcile;
use qkd::round::RoundAction;
use qkd::round::RoundEvent;
use qkd::round::RoundState;
use qkd::statistics::evaluate_discussion;
use qkd::utils::rand_bool;
use qkd::utils::rand_choose;

type Matrix = [[Complex64; 2]; 2];

struct Qubit {
    zero: Complex64,
    one: Complex64,
}

fn on_real_axis(value: f64) -> Complex64 {
    Complex64::new(value, 0.0)
}

fn on_imaginary_axis(value: f64) -> Complex64 {
    Complex64::new(0.0, value)
}

fn pauli_x() -> Matrix {
    [[on_real_axis(0.0), on_real_axis(1.0)], [on_real_axis(1.0), on_real_axis(0.0)]]
}

fn invert(matrix: &Matrix) -> Matrix {
    let det = matrix[0][0] * matrix[1][1] - matrix[0][1] * matrix[1][0];
    assert!(det != on_real_axis(0.0));
    let inv_det = on_real_axis(1.0) / det;
    [
        [matrix[1][1] * inv_det, -matrix[0][1] * inv_det],
        [-matrix[1][0] * inv_det, matrix[0][0] * inv_det],
    ]
}

fn matrix_of(gate: Gate) -> Matrix {
    let h = 1.0 / std::f64::consts::SQRT_2;
    match gate {
        Gate::Identity => [[on_real_axis(1.0), on_real_axis(0.0)], [on_real_axis(0.0), on_real_axis(1.0)]],
        Gate::Hadamard => [[on_real_axis(h), on_real_axis(h)], [on_real_axis(h), on_real_axis(-h)]],
        Gate::HadamardY => [[on_real_axis(h), on_real_axis(h)], [on_imaginary_axis(h), on_imaginary_axis(-h)]],
        Gate::HadamardYInverse => invert(&matrix_of(Gate::HadamardY)),
    }
}

fn apply(qubit: &mut Qubit, matrix: &Matrix) {
    let zero = qubit.zero * matrix[0][0] + qubit.one * matrix[0][1];
    let one = qubit.zero * matrix[1][0] + qubit.one * matrix[1][1];
    qubit.zero = zero;
    qubit.one = one;
}

fn measure(qubit: &mut Qubit) -> bool {
    let one_probability = qubit.one.norm().powf(2.0);
    let result = rand::random::<f64>() < one_probability;
    qubit.zero = on_real_axis(1.0);
    qubit.one = on_real_axis(0.0);
    if result {
        apply(qubit, &pauli_x());
    }
    result
}

fn change_basis(qubit: &mut Qubit, bases: &Vec<Gate>) -> usize {
    let (index, gate) = rand_choose(bases.iter().copied().enumerate().collect());
    apply(qubit, &matrix_of(gate));
    index
}

fn simulate_round(setup: &Setup, interception_rate: f64) -> QExecutionResult {
    let mut qubit = Qubit { zero: on_real_axis(1.0), one: on_real_axis(0.0) };
    let mut state = RoundState::new();
    loop {
        let event = match state.pending_action() {
            RoundAction::PrepareQubit => {
                let value = match setup.preparation {
                    Preparation::RandomBit => rand_bool(),
                    Preparation::AlwaysZero => false,
                };
                if value {
                    apply(&mut qubit, &pauli_x());
                }
                RoundEvent::Prepared { value }
            }
            RoundAction::ChooseSenderBasis => {
                RoundEvent::BasisChosen { basis: change_basis(&mut qubit, &setup.sender_bases) }
            }
            RoundAction::DecideInterception => RoundEvent::InterceptionDecided {
                intercepted: rand::random::<f64>() < interception_rate,
            },
            RoundAction::ChooseEveBasis => RoundEvent::BasisChosen {
                basis: change_basis(&mut qubit, &setup.eavesdropper_bases),
            },
            RoundAction::MeasureAsEve => RoundEvent::Measured { value: measure(&mut qubit) },
            RoundAction::RestoreQubit { eve_basis } => {
                apply(&mut qubit, &invert(&matrix_of(setup.eavesdropper_bases[eve_basis])));
                RoundEvent::Restored
            }
            RoundAction::ChooseBobBasis => {
                RoundEvent::BasisChosen { basis: change_basis(&mut qubit, &setup.receiver_bases) }
            }
            RoundAction::MeasureAsBob => RoundEvent::Measured { value: measure(&mut qubit) },
            RoundAction::Deliver(record) => return record,
        };
        state = state.step(event).unwrap();
    }
}

fn simulate_rounds(protocol: Protocol, qubits: usize, rate: f64) -> Vec<QExecutionResult> {
    let setup = protocol.setup();
    (0..qubits).map(|_| simulate_round(&setup, rate)).collect()
}

fn simulate(protocol: Protocol, qubits: usize, rate: f64) -> QKDResult {
    let records = simulate_rounds(protocol, qubits, rate);
    evaluate_discussion(reconcile(protocol.setup().reconciliation, &records))
}

fn assert_clean(result: QKDResult) {
    assert!(result.is_considered_secure);
    let key_length = result.key_length.unwrap();
    assert!(key_length > 0);
    let rate = result.quantum_bit_error_rate.unwrap();
    assert_eq!(rate.numerator, 0);
    assert_eq!(rate.denominator, key_length);
    assert_eq!(result.eve_key_knowledge.numerator, 0);
}

#[test]
fn bb84_without_interception_is_secure_and_free_of_errors() {
    assert_clean(simulate(Protocol::BB84, 2000, 0.0));
}

#[test]
fn six_state_without_interception_is_secure_and_free_of_errors() {
    assert_clean(simulate(Protocol::SixState, 2000, 0.0));
}

#[test]
fn b92_without_interception_is_secure_and_free_of_errors() {
    assert_clean(simulate(Protocol::B92, 2000, 0.0));
}

#[test]
fn no_round_is_intercepted_at_rate_zero() {
    for protocol in [Protocol::BB84, Protocol::SixState, Protocol::B92] {
        let records = simulate_rounds(protocol, 500, 0.0);
        assert!(records.iter().all(|r| r.eve_value.is_none() && r.eve_basis.is_none()));
    }
}

#[test]
fn every_round_is_intercepted_at_rate_one() {
    for protocol in [Protocol::BB84, Protocol::SixState, Protocol::B92] {
        let records = simulate_rounds(protocol, 500, 1.0);
        assert!(records.iter().all(|r| r.eve_value.is_some() && r.eve_basis.is_some()));
    }
}

#[test]
fn bb84_with_full_interception_is_aborted() {
    let result = simulate(Protocol::BB84, 2000, 1.0);
    assert!(!result.is_considered_secure);
    assert_eq!(result.key_length, None);
    assert_eq!(result.quantum_bit_error_rate, None);
    assert_eq!(result.eve_key_knowledge.numerator, 0);
}

#[test]
fn bb84_with_full_interception_disturbs_a_quarter_of_the_agreeing_rounds() {
    let records = simulate_rounds(Protocol::BB84, 4000, 1.0);
    let agreeing: Vec<&QExecutionResult> =
        records.iter().filter(|r| r.alice_basis == r.bob_basis).collect();
    let disturbed = agreeing.iter().filter(|r| r.alice_value != r.bob_value).count();
    let share = disturbed as f64 / agreeing.len() as f64;
    assert!((share - 0.25).abs() < 0.06, "share of disturbed rounds: {}", share);
}

#[test]
fn bb84_with_full_interception_shows_its_error_rate_in_short_secure_runs() {
    let mut key_bits = 0usize;
    let mut mismatched = 0usize;
    let mut known = 0usize;
    for _ in 0..4000 {
        let result = simulate(Protocol::BB84, 6, 1.0);
        if let Some(rate) = result.quantum_bit_error_rate {
            assert!(result.is_considered_secure);
            assert_eq!(result.key_length, Some(rate.denominator));
            key_bits += rate.denominator;
            mismatched += rate.numerator;
            known += result.eve_key_knowledge.numerator;
            assert!(rate.numerator + result.eve_key_knowledge.numerator <= rate.denominator);
        }
    }
    assert!(key_bits > 1000);
    let error_rate = mismatched as f64 / key_bits as f64;
    assert!((error_rate - 0.25).abs() < 0.06, "error rate: {}", error_rate);
    assert!(known > 0);
}
