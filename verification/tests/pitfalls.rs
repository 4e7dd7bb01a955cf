//! One test per pitfall, each in the same shape: the exploiting transaction is ACCEPTED by
//! the script as first written and REFUSED by the corrected one, with the error code the
//! entry names; and a control, the honest transaction of the same shape, passes on both.
//!
//! A transaction is given here as what each script reads of it. Every lock is told apart
//! by a name, hashed, so a "wallet" is a name and signing is not the subject.
use blake2b_ref::Blake2bBuilder;
use ckb_pitfalls::fee_type::{self, FeeTx, Output};
use ckb_pitfalls::owned_type::{self, GroupOutput, OwnedTx};
use ckb_pitfalls::payload_type::{self, PayloadOutput, PayloadTx};
use ckb_pitfalls::syscalls::{Fault, ScriptView};
use ckb_pitfalls::timed_lock::{self, TimedTx};
use ckb_pitfalls::Build;
use Build::{Fixed, Vulnerable};

const CKB: u64 = 100_000_000;
/// What every input cell holds: plenty, so capacity is never the reason a test fails
/// unless the test is about capacity.
const CAP: u64 = 1_000 * CKB;

/// The verdict of a transaction: accepted, or the error code of the script that refused.
type Verdict = Result<(), i8>;

fn verdict(code: i8) -> Verdict {
    if code == 0 {
        Ok(())
    } else {
        Err(code)
    }
}

/// Assert the script failed FOR THE REASON under test, not merely that it failed.
fn refused(res: &Verdict, code: i8, what: &str) {
    assert_eq!(*res, Err(code), "{what}: wanted error {code}, got {res:?}");
}

fn passed(res: &Verdict, what: &str) {
    assert!(res.is_ok(), "{what}: expected to pass, got {res:?}");
}

fn blake2b_256(b: &[u8]) -> [u8; 32] {
    let mut out = [0u8; 32];
    let mut h = Blake2bBuilder::new(32).personal(b"ckb-default-hash").build();
    h.update(b);
    h.finalize(&mut out);
    out
}

/// The lock hash of a wallet: `wallet("alice")` is one person, `wallet("treasury")`
/// another; what matters is that their hashes differ.
fn wallet(who: &str) -> [u8; 32] {
    blake2b_256(who.as_bytes())
}

// --- 01 and 02: fee-type ----------------------------------------------------------

const FEE_CODE: [u8; 32] = [0xfe; 32];

/// An output paying the treasury: its capacity, and whether a foreign type script is
/// attached to it (the shape of pitfall 02).
#[derive(Clone, Copy)]
struct Pay {
    ckb: u64,
    typed: bool,
}

fn fee_script(fee: u64) -> ScriptView {
    let mut args = wallet("treasury").to_vec();
    args.extend_from_slice(&(fee * CKB).to_le_bytes());
    ScriptView { code_hash: FEE_CODE, hash_type: 1, args }
}

/// Spend one fee-type cell per entry of `fees` (each at its own fee, so each is its own
/// script group), paying the treasury as `pays` says. Every instance runs; the first to
/// refuse gives the code.
fn fee_tx(build: Build, fees: &[u64], pays: &[Pay]) -> Verdict {
    for &fee in fees {
        let mut outputs = Vec::new();
        for p in pays {
            let type_hash = if p.typed { Some(wallet("hostile-type")) } else { None };
            outputs.push(Output { lock_hash: wallet("treasury"), type_hash: Ok(type_hash), capacity: Ok(p.ckb * CKB) });
        }
        // The holder's change, so a transaction paying nobody still has an output.
        outputs.push(Output { lock_hash: wallet("holder"), type_hash: Ok(None), capacity: Ok(100 * CKB) });
        let tx = FeeTx {
            script: Ok(fee_script(fee)),
            first_group_input: Ok(CAP),
            outputs,
            outputs_end: Fault::OutOfBound,
            input_types: fees.iter().map(|&f| Some(fee_script(f))).collect(),
            input_types_end: Fault::OutOfBound,
        };
        verdict(fee_type::exit_code(fee_type::run(build, &tx)))?;
    }
    Ok(())
}

#[test]
fn p01_one_payment_answers_two_instances() {
    // Two cells at fees 100 and 50: two script groups reading the same outputs. One
    // output of 100 covers the larger fee. As first written, both instances are
    // satisfied and 50 CKB are never paid.
    let attack = |b| fee_tx(b, &[100, 50], &[Pay { ckb: 100, typed: false }]);
    passed(&attack(Vulnerable), "01 vulnerable: one output of 100 answers fees of 100 and 50");
    refused(&attack(Fixed), 3, "01 fixed: the total of 150 is demanded");
    // The control: paying both is accepted on either build.
    let honest = |b| fee_tx(b, &[100, 50], &[Pay { ckb: 150, typed: false }]);
    passed(&honest(Vulnerable), "01 control on vulnerable");
    passed(&honest(Fixed), "01 control on fixed");
}

#[test]
fn p02_a_typed_output_meets_the_capacity() {
    // The fee output carries a foreign type script: right lock, right capacity, and the
    // treasury cannot spend it alone.
    let attack = |b| fee_tx(b, &[100], &[Pay { ckb: 100, typed: true }]);
    passed(&attack(Vulnerable), "02 vulnerable: a typed output counts as payment");
    refused(&attack(Fixed), 3, "02 fixed: only a pure output counts");
    let honest = |b| fee_tx(b, &[100], &[Pay { ckb: 100, typed: false }]);
    passed(&honest(Vulnerable), "02 control on vulnerable");
    passed(&honest(Fixed), "02 control on fixed");
}

// --- 03 and 07: owned-type --------------------------------------------------------

fn owner_prefix(lock: &[u8; 32]) -> [u8; 20] {
    let mut p = [0u8; 20];
    p.copy_from_slice(&lock[..20]);
    p
}

fn owned_data(owner: [u8; 20], value: u64) -> Vec<u8> {
    let mut d = owner.to_vec();
    d.extend_from_slice(&value.to_le_bytes());
    d
}

fn owned_verdict(build: Build, tx: &OwnedTx) -> Verdict {
    verdict(owned_type::exit_code(owned_type::run(build, tx)))
}

/// Create one owned-type cell. `owner_is_cell_lock` sets the owner to the prefix of the
/// cell's own always-success lock, which is the value pitfall 03's guard exists to refuse.
fn create_tx(build: Build, owner_is_cell_lock: bool) -> Verdict {
    let cell_lock = wallet("the-cell-lock");
    let alice = wallet("alice");
    let owner = if owner_is_cell_lock { owner_prefix(&cell_lock) } else { owner_prefix(&alice) };
    // Alice pays for the cell from a plain cell of hers.
    let tx = OwnedTx {
        outputs: vec![GroupOutput { capacity: 200 * CKB, data: Ok(owned_data(owner, 1)), lock_hash: Ok(cell_lock) }],
        outputs_end: Fault::OutOfBound,
        inputs: vec![],
        inputs_end: Fault::OutOfBound,
        input_data: Err(Fault::OutOfBound),
        action: None,
        input_locks: vec![alice],
        input_locks_end: Fault::OutOfBound,
    };
    owned_verdict(build, &tx)
}

/// One owned-type cell (owner alice, value 1, capacity `cap_in`) acted on by `signer`
/// with `action`, leaving a cell with `value_out` and `cap_out`.
fn act_tx(build: Build, action: &[u8], signer: &str, owner_is_cell_lock: bool, cap_in: u64, cap_out: u64, value_out: u64) -> Verdict {
    let cell_lock = wallet("the-cell-lock");
    let alice = wallet("alice");
    let owner = if owner_is_cell_lock { owner_prefix(&cell_lock) } else { owner_prefix(&alice) };
    let tx = OwnedTx {
        outputs: vec![GroupOutput { capacity: cap_out, data: Ok(owned_data(owner, value_out)), lock_hash: Ok(cell_lock) }],
        outputs_end: Fault::OutOfBound,
        inputs: vec![cap_in],
        inputs_end: Fault::OutOfBound,
        input_data: Ok(owned_data(owner, 1)),
        action: Some(action.to_vec()),
        // The cell itself, then the signer's cell.
        input_locks: vec![cell_lock, wallet(signer)],
        input_locks_end: Fault::OutOfBound,
    };
    owned_verdict(build, &tx)
}

#[test]
fn p03_a_truncated_compare_fails_open() {
    // The owner is the cell's own always-success lock, which the guard is there to refuse.
    passed(&create_tx(Vulnerable, true), "03 vulnerable: 20 bytes never equal 32, the guard never fires");
    refused(&create_tx(Fixed, true), 4, "03 fixed: the prefix compare refuses it");
    passed(&create_tx(Vulnerable, false), "03 control on vulnerable");
    passed(&create_tx(Fixed, false), "03 control on fixed");
    // And what such a cell is: public property. A stranger's edit is authorized by the
    // cell's own input, because that input carries the always-success lock the owner
    // field names. The fixed build never lets the cell exist, so only the vulnerable
    // build has this consequence.
    passed(
        &act_tx(Vulnerable, b"edit", "mallory", true, 200 * CKB, 200 * CKB, 1),
        "03 consequence: anyone edits a cell owned by the always-success lock",
    );
    // For an honestly owned cell, a stranger's edit is refused on both.
    refused(&act_tx(Vulnerable, b"edit", "mallory", false, 200 * CKB, 200 * CKB, 1), 8, "03 stranger edit on vulnerable");
    refused(&act_tx(Fixed, b"edit", "mallory", false, 200 * CKB, 200 * CKB, 1), 8, "03 stranger edit on fixed");
}

#[test]
fn p07_capacity_is_unguarded_on_permissionless_actions() {
    // A stranger bumps the value (allowed) and leaves the cell with less capacity than it
    // had (the owner's rent), keeping the difference as change.
    let attack = |b| act_tx(b, b"bump", "mallory", false, 200 * CKB, 100 * CKB, 2);
    passed(&attack(Vulnerable), "07 vulnerable: every byte of data pinned, the money free");
    refused(&attack(Fixed), 5, "07 fixed: the surviving cell may not shrink");
    let honest = |b| act_tx(b, b"bump", "mallory", false, 200 * CKB, 200 * CKB, 2);
    passed(&honest(Vulnerable), "07 control on vulnerable");
    passed(&honest(Fixed), "07 control on fixed");
}

// --- 09: timed-lock ---------------------------------------------------------------

fn timed_tx(build: Build, unlock_at: u64, since: u64) -> Verdict {
    let tx = TimedTx {
        script: Ok(ScriptView { code_hash: [0x71; 32], hash_type: 1, args: unlock_at.to_le_bytes().to_vec() }),
        since: Ok(since),
    };
    verdict(timed_lock::exit_code(timed_lock::run(build, &tx)))
}

#[test]
fn p09_since_flags() {
    let unlock_at: u64 = 1_800_000_000;
    let absolute = (0x40u64 << 56) | unlock_at;
    let relative = (0xC0u64 << 56) | unlock_at;
    // A relative timestamp carrying the same number: the low bits pass the comparison,
    // and consensus reads it as "this input is unlock_at seconds old", not a date.
    passed(&timed_tx(Vulnerable, unlock_at, relative), "09 vulnerable: the flags are never read");
    refused(&timed_tx(Fixed, unlock_at, relative), 3, "09 fixed: not an absolute timestamp");
    passed(&timed_tx(Vulnerable, unlock_at, absolute), "09 control on vulnerable");
    passed(&timed_tx(Fixed, unlock_at, absolute), "09 control on fixed");
    // And the boundary, to the second, on the fixed build.
    refused(&timed_tx(Fixed, unlock_at, absolute - 1), 2, "09 one second early");
    passed(&timed_tx(Fixed, unlock_at, absolute + 1), "09 one second late");
}

// --- 10: payload-type -------------------------------------------------------------

/// Two payload cells created from one plain input, with the witness list in the given
/// order. The honest order puts each payload at its cell's output index.
fn payload_tx(payloads: [&[u8]; 2], witness_order: [usize; 2]) -> Verdict {
    let me = wallet("payload-type");
    let witnesses: Vec<Vec<u8>> = witness_order.iter().map(|&k| payloads[k].to_vec()).collect();
    let mut outputs = Vec::new();
    for (i, p) in payloads.iter().enumerate() {
        outputs.push(PayloadOutput {
            type_hash: Some(me),
            data: Ok(blake2b_256(p).to_vec()),
            payload: Some(witnesses[i].clone()),
        });
    }
    let tx = PayloadTx { me: Ok(me), outputs, outputs_end: Fault::OutOfBound };
    verdict(payload_type::exit_code(payload_type::run(&tx)))
}

#[test]
fn p10_witnesses_by_output_index() {
    // More outputs than inputs: the second output's witness is at index 1, past the one
    // input. The list is padded to the output count and it passes.
    passed(&payload_tx([b"first", b"second"], [0, 1]), "10 payloads at their output indices");
    // The same two payloads swapped: each cell's data no longer matches the slot at its
    // own index, so the convention fails closed.
    refused(&payload_tx([b"first", b"second"], [1, 0]), 3, "10 payloads in the wrong slots");
}

// --- 13: a property instead of examples -------------------------------------------

#[test]
fn p13_the_fee_rule_as_a_property() {
    // Over a grid rather than a list: the fixed script accepts exactly when the treasury
    // is paid at least the fee in a PURE output. The same grid run against the
    // vulnerable build names every point where it disagrees, which is how a property
    // proves it can catch what it claims to.
    let fees = [1u64, 63, 100, 1_000];
    let mut wrong_on_vulnerable = Vec::new();
    for &fee in &fees {
        for paid in [fee - 1, fee, fee + 1] {
            for typed in [false, true] {
                let should_pass = !typed && paid >= fee;
                let fixed = fee_tx(Fixed, &[fee], &[Pay { ckb: paid, typed }]).is_ok();
                assert_eq!(fixed, should_pass, "fixed build at fee {fee}, paid {paid}, typed {typed}");
                let vulnerable = fee_tx(Vulnerable, &[fee], &[Pay { ckb: paid, typed }]).is_ok();
                if vulnerable != should_pass {
                    wrong_on_vulnerable.push((fee, paid, typed));
                }
            }
        }
    }
    // Every typed-and-sufficient point is wrongly accepted by the vulnerable build, and
    // nothing else is.
    assert_eq!(wrong_on_vulnerable.len(), fees.len() * 2, "the vulnerable build is wrong at {wrong_on_vulnerable:?}");
    assert!(wrong_on_vulnerable.iter().all(|&(fee, paid, typed)| typed && paid >= fee));
}
