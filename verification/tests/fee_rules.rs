//! The fee-type rules on single transactions: every refusal, the creation exemption, the
//! saturating sums, and the laws on concrete values.
use ckb_pitfalls::fee_type::{self, FeeError, FeeTx, Output};
use ckb_pitfalls::syscalls::{Fault, ScriptView};
use ckb_pitfalls::Build::{self, Fixed, Vulnerable};

const TREASURY: [u8; 32] = [0x11; 32];
const HOLDER: [u8; 32] = [0x22; 32];
const CODE: [u8; 32] = [0xfe; 32];

fn script_with_fee(fee: u64) -> ScriptView {
    let mut args = TREASURY.to_vec();
    args.extend_from_slice(&fee.to_le_bytes());
    ScriptView { code_hash: CODE, hash_type: 1, args }
}

fn pure(lock: [u8; 32], capacity: u64) -> Output {
    Output { lock_hash: lock, type_hash: Ok(None), capacity: Ok(capacity) }
}

fn typed(lock: [u8; 32], capacity: u64) -> Output {
    Output { lock_hash: lock, type_hash: Ok(Some([0x33; 32])), capacity: Ok(capacity) }
}

/// One spending instance at `fee`, the inputs carrying `fees`, and `outputs`.
fn spend(fee: u64, fees: &[u64], outputs: Vec<Output>) -> FeeTx {
    FeeTx {
        script: Ok(script_with_fee(fee)),
        first_group_input: Ok(1_000),
        outputs,
        outputs_end: Fault::OutOfBound,
        input_types: fees.iter().map(|&f| Some(script_with_fee(f))).collect(),
        input_types_end: Fault::OutOfBound,
    }
}

fn run(build: Build, tx: &FeeTx) -> Result<(), FeeError> {
    fee_type::run(build, tx)
}

#[test]
fn fee_error_codes() {
    assert_eq!(fee_type::exit_code(Ok(())), 0);
    assert_eq!(fee_type::exit_code(Err(FeeError::Encoding)), 1);
    assert_eq!(fee_type::exit_code(Err(FeeError::BadArgs)), 2);
    assert_eq!(fee_type::exit_code(Err(FeeError::Unpaid)), 3);
}

#[test]
fn fee_unreadable_script_is_an_encoding_error() {
    let mut tx = spend(100, &[100], vec![pure(TREASURY, 100)]);
    tx.script = Err(Fault::Other);
    assert_eq!(run(Fixed, &tx), Err(FeeError::Encoding));
    assert_eq!(run(Vulnerable, &tx), Err(FeeError::Encoding));
}

#[test]
fn fee_args_of_the_wrong_length_are_refused() {
    let mut tx = spend(100, &[100], vec![pure(TREASURY, 100)]);
    let mut s = script_with_fee(100);
    s.args.pop();
    tx.script = Ok(s);
    assert_eq!(run(Fixed, &tx), Err(FeeError::BadArgs));
    let mut s = script_with_fee(100);
    s.args.push(0);
    tx.script = Ok(s);
    assert_eq!(run(Vulnerable, &tx), Err(FeeError::BadArgs));
}

#[test]
fn fee_creation_owes_nothing() {
    // No input in the group: the cell is being created, and nothing is paid.
    let mut tx = spend(100, &[], vec![pure(HOLDER, 100)]);
    tx.first_group_input = Err(Fault::OutOfBound);
    assert_eq!(run(Fixed, &tx), Ok(()));
    assert_eq!(run(Vulnerable, &tx), Ok(()));
    // Any other failure to read the group is an encoding error.
    tx.first_group_input = Err(Fault::Other);
    assert_eq!(run(Fixed, &tx), Err(FeeError::Encoding));
}

#[test]
fn fee_any_group_input_reads_the_first_group_input() {
    let mut tx = spend(1, &[1], vec![]);
    assert_eq!(fee_type::any_group_input(&tx), Ok(true));
    tx.first_group_input = Err(Fault::OutOfBound);
    assert_eq!(fee_type::any_group_input(&tx), Ok(false));
    tx.first_group_input = Err(Fault::Other);
    assert_eq!(fee_type::any_group_input(&tx), Err(FeeError::Encoding));
}

#[test]
fn fee_counts_only_pure_outputs_when_fixed() {
    assert_eq!(fee_type::counts(Fixed, &pure(TREASURY, 1)), Ok(true));
    assert_eq!(fee_type::counts(Fixed, &typed(TREASURY, 1)), Ok(false));
    assert_eq!(fee_type::counts(Vulnerable, &typed(TREASURY, 1)), Ok(true));
    let unreadable = Output { lock_hash: TREASURY, type_hash: Err(Fault::Other), capacity: Ok(1) };
    assert_eq!(fee_type::counts(Fixed, &unreadable), Err(FeeError::Encoding));
    assert_eq!(fee_type::counts(Vulnerable, &unreadable), Ok(true));
}

#[test]
fn fee_paid_to_sums_the_treasury_outputs() {
    let tx = spend(100, &[100], vec![pure(TREASURY, 70), pure(HOLDER, 500), typed(TREASURY, 20), pure(TREASURY, 30)]);
    assert_eq!(fee_type::paid_to(Fixed, &tx, &TREASURY), Ok(100));
    assert_eq!(fee_type::paid_to(Vulnerable, &tx, &TREASURY), Ok(120));
    assert_eq!(fee_type::paid_to(Fixed, &tx, &HOLDER), Ok(500));
}

#[test]
fn fee_paid_to_saturates() {
    let tx = spend(1, &[1], vec![pure(TREASURY, u64::MAX), pure(TREASURY, 5)]);
    assert_eq!(fee_type::paid_to(Fixed, &tx, &TREASURY), Ok(u64::MAX));
}

#[test]
fn fee_unreadable_output_fields_are_encoding_errors() {
    let bad_capacity = Output { lock_hash: TREASURY, type_hash: Ok(None), capacity: Err(Fault::Other) };
    let tx = spend(100, &[100], vec![pure(TREASURY, 100), bad_capacity]);
    assert_eq!(run(Fixed, &tx), Err(FeeError::Encoding));
    // An unreadable field of an output under another lock is never looked at.
    let elsewhere = Output { lock_hash: HOLDER, type_hash: Err(Fault::Other), capacity: Err(Fault::Other) };
    let tx = spend(100, &[100], vec![pure(TREASURY, 100), elsewhere]);
    assert_eq!(run(Fixed, &tx), Ok(()));
    // A walk over the outputs that ends in a failed read.
    let mut tx = spend(100, &[100], vec![pure(TREASURY, 100)]);
    tx.outputs_end = Fault::Other;
    assert_eq!(run(Fixed, &tx), Err(FeeError::Encoding));
    assert_eq!(run(Vulnerable, &tx), Err(FeeError::Encoding));
}

#[test]
fn fee_owed_sums_every_instance_when_fixed() {
    let tx = spend(100, &[100, 50, 7], vec![]);
    let s = script_with_fee(100);
    assert_eq!(fee_type::owed(Fixed, &tx, &s, 100), Ok(157));
    assert_eq!(fee_type::owed(Vulnerable, &tx, &s, 100), Ok(100));
}

#[test]
fn fee_owed_ignores_other_code_and_bad_args() {
    let mut tx = spend(100, &[100], vec![]);
    let mut other_code = script_with_fee(1_000);
    other_code.code_hash = [0xaa; 32];
    let mut other_hash_type = script_with_fee(1_000);
    other_hash_type.hash_type = 2;
    let mut short_args = script_with_fee(1_000);
    short_args.args.pop();
    tx.input_types.push(Some(other_code));
    tx.input_types.push(Some(other_hash_type));
    tx.input_types.push(Some(short_args));
    tx.input_types.push(None);
    let s = script_with_fee(100);
    assert_eq!(fee_type::owed(Fixed, &tx, &s, 100), Ok(100));
    tx.input_types_end = Fault::Other;
    assert_eq!(fee_type::owed(Fixed, &tx, &s, 100), Err(FeeError::Encoding));
    // As first written the inputs are never read.
    assert_eq!(fee_type::owed(Vulnerable, &tx, &s, 100), Ok(100));
}

#[test]
fn fee_owed_saturates() {
    let tx = spend(u64::MAX, &[u64::MAX, 10], vec![]);
    let s = script_with_fee(u64::MAX);
    assert_eq!(fee_type::owed(Fixed, &tx, &s, u64::MAX), Ok(u64::MAX));
}

#[test]
fn fee_unpaid_at_one_shannon_short() {
    let tx = spend(100, &[100], vec![pure(TREASURY, 99)]);
    assert_eq!(run(Fixed, &tx), Err(FeeError::Unpaid));
    assert_eq!(run(Vulnerable, &tx), Err(FeeError::Unpaid));
    let tx = spend(100, &[100], vec![pure(TREASURY, 100)]);
    assert_eq!(run(Fixed, &tx), Ok(()));
}

#[test]
fn fee_fixed_instances_agree_on_one_total() {
    // Two instances at fees 100 and 50 with 80 paid: as first written the cheaper one is
    // satisfied and the dearer is not; fixed, both demand 150.
    let outputs = || vec![pure(TREASURY, 80)];
    let dear = spend(100, &[100, 50], outputs());
    let cheap = spend(50, &[100, 50], outputs());
    assert_eq!(run(Fixed, &dear), Err(FeeError::Unpaid));
    assert_eq!(run(Fixed, &cheap), Err(FeeError::Unpaid));
    assert_eq!(run(Vulnerable, &dear), Err(FeeError::Unpaid));
    assert_eq!(run(Vulnerable, &cheap), Ok(()));
}

#[test]
fn fee_saturated_totals_meet() {
    // Beyond u64::MAX both sums saturate, so a saturated payment answers a saturated debt.
    let tx = spend(u64::MAX, &[u64::MAX, 10], vec![pure(TREASURY, u64::MAX)]);
    assert_eq!(run(Fixed, &tx), Ok(()));
}

#[test]
fn fee_paid_to_ignores_order_and_other_locks() {
    let outs = || vec![pure(TREASURY, 70), typed(TREASURY, 20), pure(HOLDER, 500), pure(TREASURY, 30)];
    let reordered = || vec![pure(TREASURY, 30), pure(HOLDER, 500), pure(TREASURY, 70), typed(TREASURY, 20)];
    let without_holder = || vec![pure(TREASURY, 70), typed(TREASURY, 20), pure(TREASURY, 30)];
    for build in [Fixed, Vulnerable] {
        let a = fee_type::paid_to(build, &spend(1, &[1], outs()), &TREASURY);
        assert_eq!(fee_type::paid_to(build, &spend(1, &[1], reordered()), &TREASURY), a);
        assert_eq!(fee_type::paid_to(build, &spend(1, &[1], without_holder()), &TREASURY), a);
    }
}

#[test]
fn fee_more_payment_never_refuses() {
    for build in [Fixed, Vulnerable] {
        let tx = spend(100, &[100, 50], vec![pure(TREASURY, 150)]);
        let accepted = run(build, &tx);
        assert_eq!(accepted, Ok(()));
        let more = spend(100, &[100, 50], vec![pure(TREASURY, 1), pure(TREASURY, 150)]);
        assert_eq!(run(build, &more), Ok(()));
        // Also where an output under another lock could not be read: it is never looked
        // at, so the acceptance stands, and stands with one more payment after it.
        let odd = || Output { lock_hash: HOLDER, type_hash: Err(Fault::Other), capacity: Err(Fault::Other) };
        let tx = spend(100, &[100, 50], vec![odd(), pure(TREASURY, 150)]);
        assert_eq!(run(build, &tx), Ok(()));
        let more = spend(100, &[100, 50], vec![odd(), pure(TREASURY, 150), pure(TREASURY, 0)]);
        assert_eq!(run(build, &more), Ok(()));
    }
}

#[test]
fn fee_fixed_only_adds_refusals_over_a_grid() {
    // Whatever the fixed build accepts, the build as first written accepts too, when the
    // spending cell is among the inputs.
    for paid in [0u64, 49, 50, 99, 100, 149, 150, 151] {
        for typed_pay in [false, true] {
            let o = || if typed_pay { typed(TREASURY, paid) } else { pure(TREASURY, paid) };
            for (fee, fees) in [(100u64, vec![100u64, 50]), (50, vec![100, 50]), (100, vec![100])] {
                let tx = spend(fee, &fees, vec![o(), pure(HOLDER, 7)]);
                if run(Fixed, &tx).is_ok() {
                    assert_eq!(run(Vulnerable, &tx), Ok(()), "fee {fee}, paid {paid}, typed {typed_pay}");
                }
            }
        }
    }
}
