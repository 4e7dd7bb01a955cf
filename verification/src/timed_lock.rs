//! `timed-lock`: a cell that may be spent once a moment has passed.
//!
//! args = `unlock_at (8, little-endian unix seconds)`. The proof is the input's `since`:
//! consensus refuses to include the transaction until the condition it encodes holds, so
//! the script needs no clock. The top byte of `since` carries the flags: bit 63 relative,
//! bits 62 and 61 the metric (`10` is timestamp), so `0x40` is an absolute timestamp and
//! `0xC0` a relative one.
//!
//! As first written the script compares only the low 56 bits with `unlock_at`, so a
//! relative timestamp of `unlock_at` seconds passes. Fixed: the top byte must be exactly
//! `0x40` before the value means anything.

use crate::bytes::{le_u64, le_value};
use crate::syscalls::{load_input_since, load_script, Fault, Origin, Query, Receipt, ScriptView};
use crate::Build;
use vstd::prelude::*;

verus! {

/// The top byte of an absolute-timestamp `since`.
pub const ABS_TIMESTAMP_FLAG: u64 = 0x40;

/// The low 56 bits of a `since`: its value.
pub const SINCE_VALUE_MASK: u64 = 0x00FF_FFFF_FFFF_FFFF;

/// Why a timed-lock script refuses.
#[derive(Clone, Copy, Debug, PartialEq, Eq, Structural)]
pub enum TimedError {
    /// A failed syscall, or args that are not 8 bytes.
    Encoding,
    /// The `since` value is before `unlock_at`.
    TooEarly,
    /// The `since` is not an absolute timestamp, so its value proves nothing about the
    /// date.
    WrongFlag,
}

/// The exit code of each refusal.
pub open spec fn error_code(e: TimedError) -> i8 {
    match e {
        TimedError::Encoding => 1,
        TimedError::TooEarly => 2,
        TimedError::WrongFlag => 3,
    }
}

/// The exit code for a result: zero when the script accepts.
pub open spec fn exit_code_of(r: Result<(), TimedError>) -> i8 {
    match r {
        Ok(()) => 0,
        Err(e) => error_code(e),
    }
}

/// What a timed-lock script reads of its transaction.
#[derive(Debug)]
pub struct TimedTx {
    /// The running script.
    pub script: Result<ScriptView, Fault>,
    /// The `since` of the group's first input.
    pub since: Result<u64, Fault>,
}

/// The flag check: as first written, none; fixed, an absolute timestamp and nothing else.
pub open spec fn spec_check_flags(build: Build, since: u64) -> Result<(), TimedError> {
    match build {
        Build::Vulnerable => Ok(()),
        Build::Fixed => if (since >> 56u64) != ABS_TIMESTAMP_FLAG {
            Err(TimedError::WrongFlag)
        } else {
            Ok(())
        },
    }
}

/// The script's verdict on the transaction.
pub open spec fn spec_run(build: Build, tx: TimedTx) -> Result<(), TimedError> {
    match tx.script {
        Err(_) => Err(TimedError::Encoding),
        Ok(s) => if s.args@.len() != 8 {
            Err(TimedError::Encoding)
        } else {
            match tx.since {
                Err(_) => Err(TimedError::Encoding),
                Ok(since) => match spec_check_flags(build, since) {
                    Err(e) => Err(e),
                    Ok(()) => if ((since & SINCE_VALUE_MASK) as nat) < le_value(s.args@) {
                        Err(TimedError::TooEarly)
                    } else {
                        Ok(())
                    },
                },
            }
        },
    }
}

/// The exit code of a verdict.
pub fn exit_code(r: Result<(), TimedError>) -> (c: i8)
    ensures
        c == exit_code_of(r),
{
    match r {
        Ok(()) => 0,
        Err(TimedError::Encoding) => 1,
        Err(TimedError::TooEarly) => 2,
        Err(TimedError::WrongFlag) => 3,
    }
}

/// Is `since` an absolute timestamp?
pub fn check_flags(build: Build, since: u64) -> (r: Result<(), TimedError>)
    ensures
        r == spec_check_flags(build, since),
{
    match build {
        Build::Vulnerable => Ok(()),
        Build::Fixed => {
            if (since >> 56) != ABS_TIMESTAMP_FLAG {
                return Err(TimedError::WrongFlag);
            }
            Ok(())
        },
    }
}

/// The script's verdict on the transaction it read.
pub fn run(build: Build, tx: &TimedTx) -> (r: Result<(), TimedError>)
    ensures
        r == spec_run(build, *tx),
{
    let script = match &tx.script {
        Ok(s) => s,
        Err(_) => return Err(TimedError::Encoding),
    };
    if script.args.len() != 8 {
        return Err(TimedError::Encoding);
    }
    let unlock_at = le_u64(script.args.as_slice());
    let since = match tx.since {
        Ok(s) => s,
        Err(_) => return Err(TimedError::Encoding),
    };
    check_flags(build, since)?;
    if (since & SINCE_VALUE_MASK) < unlock_at {
        return Err(TimedError::TooEarly);
    }
    Ok(())
}

/// The records of the reads behind a `TimedTx`.
pub struct TimedReceipts {
    pub script: Receipt<ScriptView>,
    pub since: Receipt<u64>,
}

/// `tx` is what the script reads of its transaction, as `rc` records: the running
/// script, and the `since` of the group's first input.
pub open spec fn well_read(rc: TimedReceipts, tx: TimedTx) -> bool {
    &&& rc.script.query() == Query::Script
    &&& rc.script.value() == tx.script
    &&& rc.since.query() == Query::InputSince(0, Origin::GroupInput)
    &&& rc.since.value() == tx.since
}

/// Reads what the script looks at from the transaction it runs on, with the record of
/// every read.
fn read_transaction() -> (r: (TimedTx, TimedReceipts))
    ensures
        well_read(r.1, r.0),
{
    let (script, script_receipt) = load_script().split();
    let (since, since_receipt) = load_input_since(0, Origin::GroupInput).split();
    (TimedTx { script, since }, TimedReceipts { script: script_receipt, since: since_receipt })
}

/// The script's entry point with its trace: reads the transaction, decides, and returns
/// the exit code (zero when the script accepts) with the view it decided on and the
/// record of the reads behind that view.
pub fn program_entry_traced(build: Build) -> (r: (i8, TimedTx, TimedReceipts))
    ensures
        well_read(r.2, r.1),
        r.0 == exit_code_of(spec_run(build, r.1)),
{
    let (tx, receipts) = read_transaction();
    let code = exit_code(run(build, &tx));
    (code, tx, receipts)
}

/// The script's entry point: runs [`program_entry_traced`] and returns its exit code,
/// the verdict of the script's rule on a view of the transaction that the reads made
/// support.
pub fn program_entry(build: Build) -> (code: i8)
    ensures
        exists|r: Result<(), TimedError>| code == exit_code_of(r),
        exists|rc: TimedReceipts, tx: TimedTx|
            #![trigger well_read(rc, tx)]
            well_read(rc, tx) && code == exit_code_of(spec_run(build, tx)),
{
    let (code, tx, receipts) = program_entry_traced(build);
    assert(well_read(receipts, tx) && code == exit_code_of(spec_run(build, tx)));
    code
}

/// Fixed: an absolute timestamp `t` opens the lock exactly when `t` is at least
/// `unlock_at`, and a `since` one second short is refused as too early.
pub proof fn law_fixed_absolute_timestamp(tx: TimedTx, t: u64)
    requires
        tx.script is Ok,
        tx.script->Ok_0.args@.len() == 8,
        t < 0x0100_0000_0000_0000,
        tx.since == Ok::<u64, Fault>((ABS_TIMESTAMP_FLAG << 56u64) | t),
    ensures
        (spec_run(Build::Fixed, tx) is Ok) <==> t >= le_value(tx.script->Ok_0.args@),
        spec_run(Build::Fixed, tx) is Err ==> spec_run(Build::Fixed, tx) == Err::<(), TimedError>(
            TimedError::TooEarly,
        ),
{
    let since = (ABS_TIMESTAMP_FLAG << 56u64) | t;
    assert(((0x40u64 << 56u64) | t) >> 56u64 == 0x40u64 && (((0x40u64 << 56u64) | t)
        & 0x00FF_FFFF_FFFF_FFFFu64) == t) by (bit_vector)
        requires
            t < 0x0100_0000_0000_0000u64,
    ;
}

/// Fixed: a `since` whose top byte is not the absolute-timestamp flag is refused for its
/// flag, whatever its value.
pub proof fn law_fixed_refuses_other_flags(tx: TimedTx)
    requires
        tx.script is Ok,
        tx.script->Ok_0.args@.len() == 8,
        tx.since is Ok,
        (tx.since->Ok_0 >> 56u64) != ABS_TIMESTAMP_FLAG,
    ensures
        spec_run(Build::Fixed, tx) == Err::<(), TimedError>(TimedError::WrongFlag),
{
}

/// As first written the flags are never read: two `since`s with the same low 56 bits get
/// the same verdict, so a relative timestamp passes for an absolute one.
pub proof fn law_vulnerable_ignores_flags(tx1: TimedTx, tx2: TimedTx)
    requires
        tx1.script is Ok,
        tx2.script is Ok,
        tx1.script->Ok_0.args@ == tx2.script->Ok_0.args@,
        tx1.since is Ok,
        tx2.since is Ok,
        (tx1.since->Ok_0 & SINCE_VALUE_MASK) == (tx2.since->Ok_0 & SINCE_VALUE_MASK),
    ensures
        spec_run(Build::Vulnerable, tx1) == spec_run(Build::Vulnerable, tx2),
{
}

/// Fail-closed: without a readable `since` of the group's first input, the lock stays
/// shut.
pub proof fn law_unreadable_since_refuses(build: Build, tx: TimedTx)
    requires
        tx.since is Err,
    ensures
        spec_run(build, tx) == Err::<(), TimedError>(TimedError::Encoding),
{
}

/// The correction only adds refusals: a transaction that the fixed build accepts is
/// accepted as first written too.
pub proof fn law_fixed_only_adds_refusals(tx: TimedTx)
    ensures
        spec_run(Build::Fixed, tx) is Ok ==> spec_run(Build::Vulnerable, tx) is Ok,
{
}

} // verus!
