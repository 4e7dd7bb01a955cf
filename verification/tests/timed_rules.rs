//! The timed-lock rules: the flags, the boundary, and every refusal.
use ckb_pitfalls::syscalls::{Fault, ScriptView};
use ckb_pitfalls::timed_lock::{self, TimedError, TimedTx};
use ckb_pitfalls::Build::{Fixed, Vulnerable};

const UNLOCK_AT: u64 = 1_800_000_000;

fn tx(args: Vec<u8>, since: Result<u64, Fault>) -> TimedTx {
    TimedTx { script: Ok(ScriptView { code_hash: [0x71; 32], hash_type: 1, args }), since }
}

fn at(since: u64) -> TimedTx {
    tx(UNLOCK_AT.to_le_bytes().to_vec(), Ok(since))
}

#[test]
fn timed_error_codes() {
    assert_eq!(timed_lock::exit_code(Ok(())), 0);
    assert_eq!(timed_lock::exit_code(Err(TimedError::Encoding)), 1);
    assert_eq!(timed_lock::exit_code(Err(TimedError::TooEarly)), 2);
    assert_eq!(timed_lock::exit_code(Err(TimedError::WrongFlag)), 3);
}

#[test]
fn timed_absolute_timestamp_boundary() {
    let abs = 0x40u64 << 56;
    for t in [0, UNLOCK_AT - 1, UNLOCK_AT, UNLOCK_AT + 1, (1u64 << 56) - 1] {
        let expected = if t >= UNLOCK_AT { Ok(()) } else { Err(TimedError::TooEarly) };
        assert_eq!(timed_lock::run(Fixed, &at(abs | t)), expected, "fixed at {t}");
        assert_eq!(timed_lock::run(Vulnerable, &at(abs | t)), expected, "vulnerable at {t}");
    }
}

#[test]
fn timed_other_flags_are_refused_when_fixed() {
    // Relative timestamp, absolute and relative block number, absolute epoch.
    for flags in [0xC0u64, 0x00, 0x80, 0x20, 0x41] {
        let since = (flags << 56) | UNLOCK_AT;
        assert_eq!(timed_lock::run(Fixed, &at(since)), Err(TimedError::WrongFlag), "flags {flags:#x}");
        assert_eq!(timed_lock::run(Vulnerable, &at(since)), Ok(()), "flags {flags:#x}");
    }
}

#[test]
fn timed_check_flags_directly() {
    assert_eq!(timed_lock::check_flags(Fixed, 0x40u64 << 56), Ok(()));
    assert_eq!(timed_lock::check_flags(Fixed, 0xC0u64 << 56), Err(TimedError::WrongFlag));
    assert_eq!(timed_lock::check_flags(Vulnerable, u64::MAX), Ok(()));
}

#[test]
fn timed_encoding_errors() {
    assert_eq!(timed_lock::run(Fixed, &tx(vec![0; 7], Ok(u64::MAX))), Err(TimedError::Encoding));
    assert_eq!(timed_lock::run(Vulnerable, &tx(vec![0; 9], Ok(u64::MAX))), Err(TimedError::Encoding));
    assert_eq!(timed_lock::run(Fixed, &tx(UNLOCK_AT.to_le_bytes().to_vec(), Err(Fault::OutOfBound))), Err(TimedError::Encoding));
    let mut t = at(0x40u64 << 56 | UNLOCK_AT);
    t.script = Err(Fault::Other);
    assert_eq!(timed_lock::run(Fixed, &t), Err(TimedError::Encoding));
}

#[test]
fn timed_unlock_at_is_little_endian() {
    // unlock_at = 256: one byte set in the second place.
    let mut args = vec![0u8; 8];
    args[1] = 1;
    assert_eq!(timed_lock::run(Fixed, &tx(args.clone(), Ok((0x40u64 << 56) | 255))), Err(TimedError::TooEarly));
    assert_eq!(timed_lock::run(Fixed, &tx(args, Ok((0x40u64 << 56) | 256))), Ok(()));
}

#[test]
fn timed_fixed_only_adds_refusals() {
    // Over flags and values around the boundary, whatever the fixed build accepts the
    // build as first written accepts too.
    for flags in [0x40u64, 0xC0, 0x00, 0x80, 0x20] {
        for t in [0, UNLOCK_AT - 1, UNLOCK_AT, UNLOCK_AT + 1] {
            let tx = at((flags << 56) | t);
            if timed_lock::run(Fixed, &tx).is_ok() {
                assert_eq!(timed_lock::run(Vulnerable, &tx), Ok(()), "flags {flags:#x} at {t}");
            }
        }
    }
}
