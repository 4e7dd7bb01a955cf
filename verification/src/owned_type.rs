//! `owned-type`: a cell whose data names its owner, under an always-success lock.
//!
//! data = `owner (20 bytes, the first twenty of the owner's lock hash) ‖ value (8, LE)`.
//! All authorisation lives here; an owner action is proven by spending any cell under the
//! owner's lock. Three shapes, told apart by the group's arity and
//! `witnesses[0].input_type`:
//!
//! * create: no input of the type. Every output's owner must be usable: not all-zero, and
//!   not the cell's own always-success lock, which anybody can satisfy.
//! * bump: one in, one out, permissionless. Anyone may raise the value; the owner may not
//!   change.
//! * edit: one in, one out, owner-signed. Anything may change.
//!
//! As first written the create guard compares the twenty-byte owner with the thirty-two
//! byte lock hash, which never matches, and bump leaves the capacity free. Fixed: compare
//! the prefix, and the surviving cell may not hold less capacity.

use crate::bytes::{all_zero, bytes_eq, le_u64, le_value};
use crate::syscalls::{
    ends_walk, load_cell_capacity, load_cell_data, load_cell_lock_hash, load_witness_args, Fault,
    Origin, Query, Receipt, WitnessView,
};
use crate::Build;
use vstd::prelude::*;
use vstd::slice::slice_subrange;

verus! {

/// The stored owner: the first twenty bytes of the owner's lock hash.
pub const OWNER_LEN: usize = 20;

/// The cell data: the owner, then the value.
pub const DATA_LEN: usize = 28;

/// Why an owned-type script refuses.
#[derive(Clone, Copy, Debug, PartialEq, Eq, Structural)]
pub enum OwnedError {
    /// A syscall failed for a reason other than running past the last item.
    Encoding,
    /// Cell data that is not 28 bytes.
    BadData,
    /// An owner of twenty zero bytes.
    NullOwner,
    /// An owner that is the cell's own lock.
    OwnerIsCellLock,
    /// The surviving cell would hold less capacity than it did.
    CapacityShrunk,
    /// Spending that is not one input and one output of the type.
    Arity,
    /// No action in the witness, or one that is neither bump nor edit.
    UnknownAction,
    /// An edit without an input under the owner's lock.
    Unauthorized,
    /// A bump that did not raise the value, or changed the owner.
    Drift,
}

/// The exit code of each refusal.
pub open spec fn error_code(e: OwnedError) -> i8 {
    match e {
        OwnedError::Encoding => 1,
        OwnedError::BadData => 2,
        OwnedError::NullOwner => 3,
        OwnedError::OwnerIsCellLock => 4,
        OwnedError::CapacityShrunk => 5,
        OwnedError::Arity => 6,
        OwnedError::UnknownAction => 7,
        OwnedError::Unauthorized => 8,
        OwnedError::Drift => 9,
    }
}

/// The exit code for a result: zero when the script accepts.
pub open spec fn exit_code_of(r: Result<(), OwnedError>) -> i8 {
    match r {
        Ok(()) => 0,
        Err(e) => error_code(e),
    }
}

/// One output of the script's group.
#[derive(Debug)]
pub struct GroupOutput {
    pub capacity: u64,
    pub data: Result<Vec<u8>, Fault>,
    pub lock_hash: Result<[u8; 32], Fault>,
}

/// What an owned-type script reads of its transaction.
#[derive(Debug)]
pub struct OwnedTx {
    /// The group's outputs, counted by their capacities until one cannot be read.
    pub outputs: Vec<GroupOutput>,
    /// Why the group's outputs end.
    pub outputs_end: Fault,
    /// The capacities of the group's inputs, until one cannot be read.
    pub inputs: Vec<u64>,
    /// Why the group's inputs end.
    pub inputs_end: Fault,
    /// The data of the group's first input.
    pub input_data: Result<Vec<u8>, Fault>,
    /// `witnesses[0].input_type`: the action; `None` where it cannot be read or is absent.
    pub action: Option<Vec<u8>>,
    /// The lock hash of every input of the transaction, until one cannot be read.
    pub input_locks: Vec<[u8; 32]>,
    /// Why the inputs' lock hashes end.
    pub input_locks_end: Fault,
}

/// The action `bump`.
pub open spec fn bump_word() -> Seq<u8> {
    seq![98u8, 117u8, 109u8, 112u8]
}

/// The action `edit`.
pub open spec fn edit_word() -> Seq<u8> {
    seq![101u8, 100u8, 105u8, 116u8]
}

/// The number of items a walk saw, or the failure that ended it.
pub open spec fn spec_count(n: nat, end: Fault) -> Result<nat, OwnedError> {
    match end {
        Fault::OutOfBound => Ok(n),
        Fault::Other => Err(OwnedError::Encoding),
    }
}

/// Whether `owner` names the cell's own lock: as first written, compared with the whole
/// hash; fixed, with its first twenty bytes.
pub open spec fn spec_owner_is_cell_lock(build: Build, owner: Seq<u8>, cell_lock: Seq<u8>) -> bool {
    match build {
        Build::Vulnerable => owner == cell_lock,
        Build::Fixed => owner == cell_lock.take(OWNER_LEN as int),
    }
}

/// Whether every byte of `s` is zero.
pub open spec fn is_null(s: Seq<u8>) -> bool {
    forall|j: int| 0 <= j < s.len() ==> s[j] == 0
}

/// The checks on one output of the group, in order.
pub open spec fn check_output(build: Build, o: GroupOutput) -> Result<(), OwnedError> {
    match o.data {
        Err(_) => Err(OwnedError::Encoding),
        Ok(d) => if d@.len() != DATA_LEN {
            Err(OwnedError::BadData)
        } else if is_null(d@.take(OWNER_LEN as int)) {
            Err(OwnedError::NullOwner)
        } else {
            match o.lock_hash {
                Err(_) => Err(OwnedError::Encoding),
                Ok(l) => if spec_owner_is_cell_lock(build, d@.take(OWNER_LEN as int), l@) {
                    Err(OwnedError::OwnerIsCellLock)
                } else {
                    Ok(())
                },
            }
        },
    }
}

/// The checks on every output of the group, in order; the first failure decides.
pub open spec fn check_outputs(build: Build, outs: Seq<GroupOutput>) -> Result<(), OwnedError>
    decreases outs.len(),
{
    if outs.len() == 0 {
        Ok(())
    } else {
        match check_outputs(build, outs.drop_last()) {
            Err(e) => Err(e),
            Ok(()) => check_output(build, outs.last()),
        }
    }
}

/// The capacity rule of a bump: as first written, none; fixed, the output may not hold
/// less than the input.
pub open spec fn spec_capacity_ok(build: Build, cin: u64, cout: u64) -> Result<(), OwnedError> {
    match build {
        Build::Vulnerable => Ok(()),
        Build::Fixed => if cout < cin {
            Err(OwnedError::CapacityShrunk)
        } else {
            Ok(())
        },
    }
}

/// A bump from data `din` and capacity `cin` to data `dout` and capacity `cout`.
pub open spec fn spec_bump(build: Build, din: Seq<u8>, dout: Seq<u8>, cin: u64, cout: u64) -> Result<
    (),
    OwnedError,
> {
    if din.take(OWNER_LEN as int) != dout.take(OWNER_LEN as int) {
        Err(OwnedError::Drift)
    } else if le_value(dout.subrange(OWNER_LEN as int, DATA_LEN as int)) <= le_value(
        din.subrange(OWNER_LEN as int, DATA_LEN as int),
    ) {
        Err(OwnedError::Drift)
    } else {
        spec_capacity_ok(build, cin, cout)
    }
}

/// Whether some input sits under a lock whose hash starts with `owner`.
pub open spec fn owner_signed(locks: Seq<[u8; 32]>, owner: Seq<u8>) -> bool {
    exists|j: int| 0 <= j < locks.len() && (#[trigger] locks[j])@.take(OWNER_LEN as int) == owner
}

/// Proof of ownership: some input under a lock whose hash starts with `owner`.
pub open spec fn spec_require_owner(tx: OwnedTx, owner: Seq<u8>) -> Result<(), OwnedError> {
    if owner_signed(tx.input_locks@, owner) {
        Ok(())
    } else {
        match tx.input_locks_end {
            Fault::OutOfBound => Err(OwnedError::Unauthorized),
            Fault::Other => Err(OwnedError::Encoding),
        }
    }
}

/// What one input and one output of the group are allowed to be.
pub open spec fn spec_act(build: Build, tx: OwnedTx) -> Result<(), OwnedError> {
    match tx.input_data {
        Err(_) => Err(OwnedError::Encoding),
        Ok(din) => match tx.outputs@[0].data {
            Err(_) => Err(OwnedError::Encoding),
            Ok(dout) => if din@.len() != DATA_LEN {
                Err(OwnedError::BadData)
            } else {
                match tx.action {
                    None => Err(OwnedError::UnknownAction),
                    Some(a) => if a@ == bump_word() {
                        spec_bump(build, din@, dout@, tx.inputs@[0], tx.outputs@[0].capacity)
                    } else if a@ == edit_word() {
                        spec_require_owner(tx, din@.take(OWNER_LEN as int))
                    } else {
                        Err(OwnedError::UnknownAction)
                    },
                }
            },
        },
    }
}

/// The script's verdict on the transaction.
pub open spec fn spec_run(build: Build, tx: OwnedTx) -> Result<(), OwnedError> {
    match spec_count(tx.outputs@.len(), tx.outputs_end) {
        Err(e) => Err(e),
        Ok(outs) => match spec_count(tx.inputs@.len(), tx.inputs_end) {
            Err(e) => Err(e),
            Ok(ins) => match check_outputs(build, tx.outputs@) {
                Err(e) => Err(e),
                Ok(()) => if ins == 0 {
                    Ok(())
                } else if ins != 1 || outs != 1 {
                    Err(OwnedError::Arity)
                } else {
                    spec_act(build, tx)
                },
            },
        },
    }
}

/// Once a prefix of the outputs fails its checks, every longer prefix fails the same way.
proof fn lemma_check_err_persists(build: Build, outs: Seq<GroupOutput>, n: int)
    requires
        0 <= n <= outs.len(),
        check_outputs(build, outs.take(n)) is Err,
    ensures
        check_outputs(build, outs) == check_outputs(build, outs.take(n)),
    decreases outs.len() - n,
{
    if n < outs.len() {
        assert(outs.take(n + 1).drop_last() =~= outs.take(n));
        lemma_check_err_persists(build, outs, n + 1);
    } else {
        assert(outs.take(n) =~= outs);
    }
}

/// The exit code of a verdict.
pub fn exit_code(r: Result<(), OwnedError>) -> (c: i8)
    ensures
        c == exit_code_of(r),
{
    match r {
        Ok(()) => 0,
        Err(OwnedError::Encoding) => 1,
        Err(OwnedError::BadData) => 2,
        Err(OwnedError::NullOwner) => 3,
        Err(OwnedError::OwnerIsCellLock) => 4,
        Err(OwnedError::CapacityShrunk) => 5,
        Err(OwnedError::Arity) => 6,
        Err(OwnedError::UnknownAction) => 7,
        Err(OwnedError::Unauthorized) => 8,
        Err(OwnedError::Drift) => 9,
    }
}

/// The number of items a walk saw, or the failure that ended it.
pub fn count(n: usize, end: Fault) -> (r: Result<usize, OwnedError>)
    ensures
        match spec_count(n as nat, end) {
            Ok(m) => r == Ok::<usize, OwnedError>(m as usize),
            Err(e) => r == Err::<usize, OwnedError>(e),
        },
{
    match end {
        Fault::OutOfBound => Ok(n),
        Fault::Other => Err(OwnedError::Encoding),
    }
}

/// Does `owner` name the cell's own lock?
pub fn owner_is_cell_lock(build: Build, owner: &[u8], cell_lock: &[u8; 32]) -> (r: bool)
    ensures
        r == spec_owner_is_cell_lock(build, owner@, cell_lock@),
{
    match build {
        Build::Vulnerable => bytes_eq(owner, cell_lock.as_slice()),
        Build::Fixed => bytes_eq(owner, slice_subrange(cell_lock.as_slice(), 0, OWNER_LEN)),
    }
}

/// The capacity rule of a bump.
pub fn capacity_ok(build: Build, cin: u64, cout: u64) -> (r: Result<(), OwnedError>)
    ensures
        r == spec_capacity_ok(build, cin, cout),
{
    match build {
        Build::Vulnerable => Ok(()),
        Build::Fixed => {
            if cout < cin {
                return Err(OwnedError::CapacityShrunk);
            }
            Ok(())
        },
    }
}

/// Checks one output of the group.
fn output_ok(build: Build, o: &GroupOutput) -> (r: Result<(), OwnedError>)
    ensures
        r == check_output(build, *o),
{
    let d = match &o.data {
        Ok(d) => d,
        Err(_) => return Err(OwnedError::Encoding),
    };
    if d.len() != DATA_LEN {
        return Err(OwnedError::BadData);
    }
    let owner = slice_subrange(d.as_slice(), 0, OWNER_LEN);
    if all_zero(owner) {
        return Err(OwnedError::NullOwner);
    }
    let lock = match &o.lock_hash {
        Ok(l) => l,
        Err(_) => return Err(OwnedError::Encoding),
    };
    if owner_is_cell_lock(build, owner, lock) {
        return Err(OwnedError::OwnerIsCellLock);
    }
    Ok(())
}

/// Proof of ownership: some input sits under a lock whose hash starts with `owner`.
pub fn require_owner(tx: &OwnedTx, owner: &[u8]) -> (r: Result<(), OwnedError>)
    ensures
        r == spec_require_owner(*tx, owner@),
{
    let mut i: usize = 0;
    while i < tx.input_locks.len()
        invariant
            i <= tx.input_locks@.len(),
            forall|j: int|
                0 <= j < i ==> (#[trigger] tx.input_locks@[j])@.take(OWNER_LEN as int) != owner@,
        decreases tx.input_locks@.len() - i,
    {
        let h = &tx.input_locks[i];
        if bytes_eq(slice_subrange(h.as_slice(), 0, OWNER_LEN), owner) {
            return Ok(());
        }
        i = i + 1;
    }
    match tx.input_locks_end {
        Fault::OutOfBound => Err(OwnedError::Unauthorized),
        Fault::Other => Err(OwnedError::Encoding),
    }
}

/// A bump: the owner unchanged, the value raised, and the capacity rule.
pub fn bump(build: Build, din: &[u8], dout: &[u8], cin: u64, cout: u64) -> (r: Result<(), OwnedError>)
    requires
        din@.len() == DATA_LEN,
        dout@.len() == DATA_LEN,
    ensures
        r == spec_bump(build, din@, dout@, cin, cout),
{
    if !bytes_eq(slice_subrange(din, 0, OWNER_LEN), slice_subrange(dout, 0, OWNER_LEN)) {
        return Err(OwnedError::Drift);
    }
    let vin = le_u64(slice_subrange(din, OWNER_LEN, DATA_LEN));
    let vout = le_u64(slice_subrange(dout, OWNER_LEN, DATA_LEN));
    if vout <= vin {
        return Err(OwnedError::Drift);
    }
    capacity_ok(build, cin, cout)
}

/// The action of a spend: one input and one output of the group.
fn act(build: Build, tx: &OwnedTx) -> (r: Result<(), OwnedError>)
    requires
        tx.inputs@.len() == 1,
        tx.outputs@.len() == 1,
        check_output(build, tx.outputs@[0]) is Ok,
    ensures
        r == spec_act(build, *tx),
{
    let din = match &tx.input_data {
        Ok(d) => d,
        Err(_) => return Err(OwnedError::Encoding),
    };
    let dout = match &tx.outputs[0].data {
        Ok(d) => d,
        Err(_) => return Err(OwnedError::Encoding),
    };
    if din.len() != DATA_LEN {
        return Err(OwnedError::BadData);
    }
    let a = match &tx.action {
        Some(a) => a,
        None => return Err(OwnedError::UnknownAction),
    };
    let bump_bytes: [u8; 4] = [98, 117, 109, 112];
    let edit_bytes: [u8; 4] = [101, 100, 105, 116];
    assert(bump_bytes@ =~= bump_word());
    assert(edit_bytes@ =~= edit_word());
    if bytes_eq(a.as_slice(), bump_bytes.as_slice()) {
        bump(build, din.as_slice(), dout.as_slice(), tx.inputs[0], tx.outputs[0].capacity)
    } else if bytes_eq(a.as_slice(), edit_bytes.as_slice()) {
        require_owner(tx, slice_subrange(din.as_slice(), 0, OWNER_LEN))
    } else {
        Err(OwnedError::UnknownAction)
    }
}

/// The script's verdict on the transaction it read.
pub fn run(build: Build, tx: &OwnedTx) -> (r: Result<(), OwnedError>)
    ensures
        r == spec_run(build, *tx),
{
    let outs = count(tx.outputs.len(), tx.outputs_end)?;
    let ins = count(tx.inputs.len(), tx.inputs_end)?;
    let mut i: usize = 0;
    assert(tx.outputs@.take(0) =~= Seq::<GroupOutput>::empty());
    while i < outs
        invariant
            outs == tx.outputs@.len(),
            spec_count(tx.outputs@.len(), tx.outputs_end) is Ok,
            spec_count(tx.inputs@.len(), tx.inputs_end) is Ok,
            i <= outs,
            check_outputs(build, tx.outputs@.take(i as int)) == Ok::<(), OwnedError>(()),
        decreases outs - i,
    {
        proof {
            assert(tx.outputs@.take(i + 1).drop_last() =~= tx.outputs@.take(i as int));
            assert(tx.outputs@.take(i + 1).last() == tx.outputs@[i as int]);
        }
        let checked = output_ok(build, &tx.outputs[i]);
        if checked.is_err() {
            proof {
                lemma_check_err_persists(build, tx.outputs@, i + 1);
            }
            return checked;
        }
        i = i + 1;
    }
    assert(tx.outputs@.take(outs as int) =~= tx.outputs@);
    if ins == 0 {
        return Ok(());
    }
    if ins != 1 || outs != 1 {
        return Err(OwnedError::Arity);
    }
    proof {
        reveal_with_fuel(check_outputs, 2);
        assert(tx.outputs@.drop_last() =~= Seq::<GroupOutput>::empty());
    }
    act(build, tx)
}

/// The records of the reads behind one output of the group.
pub struct GroupOutputReceipts {
    pub capacity: Receipt<u64>,
    pub data: Receipt<Vec<u8>>,
    pub lock_hash: Receipt<[u8; 32]>,
}

/// The records of the reads behind an `OwnedTx`.
pub struct OwnedReceipts {
    pub outputs: Vec<GroupOutputReceipts>,
    pub outputs_end: Receipt<u64>,
    pub inputs: Vec<Receipt<u64>>,
    pub inputs_end: Receipt<u64>,
    pub input_data: Receipt<Vec<u8>>,
    pub witness: Receipt<WitnessView>,
    pub input_locks: Vec<Receipt<[u8; 32]>>,
    pub input_locks_end: Receipt<[u8; 32]>,
}

/// `o` is what was read of output `i` of the group: its capacity, data and lock hash.
pub open spec fn group_output_read(rc: GroupOutputReceipts, o: GroupOutput, i: int) -> bool {
    &&& rc.capacity.query() == Query::CellCapacity(i as usize, Origin::GroupOutput)
    &&& rc.capacity.value() == Ok::<u64, Fault>(o.capacity)
    &&& rc.data.query() == Query::CellData(i as usize, Origin::GroupOutput)
    &&& rc.data.value() == o.data
    &&& rc.lock_hash.query() == Query::CellLockHash(i as usize, Origin::GroupOutput)
    &&& rc.lock_hash.value() == o.lock_hash
}

/// `c` is the capacity read of input `i` of the group.
pub open spec fn group_input_read(rc: Receipt<u64>, c: u64, i: int) -> bool {
    &&& rc.query() == Query::CellCapacity(i as usize, Origin::GroupInput)
    &&& rc.value() == Ok::<u64, Fault>(c)
}

/// `h` is the lock hash read of input `i` of the whole transaction.
pub open spec fn input_lock_read(rc: Receipt<[u8; 32]>, h: [u8; 32], i: int) -> bool {
    &&& rc.query() == Query::CellLockHash(i as usize, Origin::Input)
    &&& rc.value() == Ok::<[u8; 32], Fault>(h)
}

/// The action a witness carries: its `input_type`, `None` when it cannot be read.
pub open spec fn action_of(w: Result<WitnessView, Fault>) -> Option<Vec<u8>> {
    match w {
        Ok(w) => w.input_type,
        Err(_) => None,
    }
}

/// `tx` is what the script reads of its transaction, as `rc` records: the group's
/// outputs from index 0 until a capacity cannot be read, with their data and lock hashes;
/// the group's inputs likewise; the data of the group's first input; the action in
/// `witnesses[0]` of the inputs; and the lock hash of every input of the whole
/// transaction from index 0 until one cannot be read.
pub open spec fn well_read(rc: OwnedReceipts, tx: OwnedTx) -> bool {
    &&& rc.outputs@.len() == tx.outputs@.len()
    &&& forall|i: int|
        0 <= i < tx.outputs@.len() ==> group_output_read(#[trigger] rc.outputs@[i], tx.outputs@[i], i)
    &&& ends_walk(
        rc.outputs_end,
        Query::CellCapacity(tx.outputs@.len() as usize, Origin::GroupOutput),
        tx.outputs@.len(),
        tx.outputs_end,
    )
    &&& rc.inputs@.len() == tx.inputs@.len()
    &&& forall|i: int|
        0 <= i < tx.inputs@.len() ==> group_input_read(#[trigger] rc.inputs@[i], tx.inputs@[i], i)
    &&& ends_walk(
        rc.inputs_end,
        Query::CellCapacity(tx.inputs@.len() as usize, Origin::GroupInput),
        tx.inputs@.len(),
        tx.inputs_end,
    )
    &&& rc.input_data.query() == Query::CellData(0, Origin::GroupInput)
    &&& rc.input_data.value() == tx.input_data
    &&& rc.witness.query() == Query::WitnessArgs(0, Origin::Input)
    &&& tx.action == action_of(rc.witness.value())
    &&& rc.input_locks@.len() == tx.input_locks@.len()
    &&& forall|i: int|
        0 <= i < tx.input_locks@.len() ==> input_lock_read(
            #[trigger] rc.input_locks@[i],
            tx.input_locks@[i],
            i,
        )
    &&& ends_walk(
        rc.input_locks_end,
        Query::CellLockHash(tx.input_locks@.len() as usize, Origin::Input),
        tx.input_locks@.len(),
        tx.input_locks_end,
    )
}

/// Reads the group's outputs from index 0 through their capacities until one cannot be
/// read (a walk that reached `usize::MAX` items would end there as a failed read), with
/// each output's data and lock hash.
fn read_group_outputs() -> (r: (Vec<GroupOutput>, Fault, Vec<GroupOutputReceipts>, Receipt<u64>))
    ensures
        r.2@.len() == r.0@.len(),
        forall|i: int| 0 <= i < r.0@.len() ==> group_output_read(#[trigger] r.2@[i], r.0@[i], i),
        ends_walk(r.3, Query::CellCapacity(r.0@.len() as usize, Origin::GroupOutput), r.0@.len(), r.1),
{
    let mut outputs: Vec<GroupOutput> = Vec::new();
    let mut receipts: Vec<GroupOutputReceipts> = Vec::new();
    let mut i: usize = 0;
    loop
        invariant
            outputs@.len() == i,
            receipts@.len() == i,
            forall|j: int| 0 <= j < i ==> group_output_read(#[trigger] receipts@[j], outputs@[j], j),
        decreases usize::MAX - i,
    {
        let (cap, cap_receipt) = load_cell_capacity(i, Origin::GroupOutput).split();
        let capacity = match cap {
            Ok(c) => c,
            Err(f) => return (outputs, f, receipts, cap_receipt),
        };
        if i == usize::MAX {
            return (outputs, Fault::Other, receipts, cap_receipt);
        }
        let (data, data_receipt) = load_cell_data(i, Origin::GroupOutput).split();
        let (lock_hash, lock_receipt) = load_cell_lock_hash(i, Origin::GroupOutput).split();
        outputs.push(GroupOutput { capacity, data, lock_hash });
        receipts.push(GroupOutputReceipts { capacity: cap_receipt, data: data_receipt, lock_hash: lock_receipt });
        i = i + 1;
    }
}

/// Reads the capacities of the group's inputs from index 0 until one cannot be read.
fn read_group_input_capacities() -> (r: (Vec<u64>, Fault, Vec<Receipt<u64>>, Receipt<u64>))
    ensures
        r.2@.len() == r.0@.len(),
        forall|i: int| 0 <= i < r.0@.len() ==> group_input_read(#[trigger] r.2@[i], r.0@[i], i),
        ends_walk(r.3, Query::CellCapacity(r.0@.len() as usize, Origin::GroupInput), r.0@.len(), r.1),
{
    let mut capacities: Vec<u64> = Vec::new();
    let mut receipts: Vec<Receipt<u64>> = Vec::new();
    let mut i: usize = 0;
    loop
        invariant
            capacities@.len() == i,
            receipts@.len() == i,
            forall|j: int| 0 <= j < i ==> group_input_read(#[trigger] receipts@[j], capacities@[j], j),
        decreases usize::MAX - i,
    {
        let (cap, receipt) = load_cell_capacity(i, Origin::GroupInput).split();
        let c = match cap {
            Ok(c) => c,
            Err(f) => return (capacities, f, receipts, receipt),
        };
        if i == usize::MAX {
            return (capacities, Fault::Other, receipts, receipt);
        }
        capacities.push(c);
        receipts.push(receipt);
        i = i + 1;
    }
}

/// Reads the lock hash of every input of the transaction from index 0 until one cannot
/// be read.
fn read_input_locks() -> (r: (Vec<[u8; 32]>, Fault, Vec<Receipt<[u8; 32]>>, Receipt<[u8; 32]>))
    ensures
        r.2@.len() == r.0@.len(),
        forall|i: int| 0 <= i < r.0@.len() ==> input_lock_read(#[trigger] r.2@[i], r.0@[i], i),
        ends_walk(r.3, Query::CellLockHash(r.0@.len() as usize, Origin::Input), r.0@.len(), r.1),
{
    let mut locks: Vec<[u8; 32]> = Vec::new();
    let mut receipts: Vec<Receipt<[u8; 32]>> = Vec::new();
    let mut i: usize = 0;
    loop
        invariant
            locks@.len() == i,
            receipts@.len() == i,
            forall|j: int| 0 <= j < i ==> input_lock_read(#[trigger] receipts@[j], locks@[j], j),
        decreases usize::MAX - i,
    {
        let (lock, receipt) = load_cell_lock_hash(i, Origin::Input).split();
        let h = match lock {
            Ok(h) => h,
            Err(f) => return (locks, f, receipts, receipt),
        };
        if i == usize::MAX {
            return (locks, Fault::Other, receipts, receipt);
        }
        locks.push(h);
        receipts.push(receipt);
        i = i + 1;
    }
}

/// Reads what the script looks at from the transaction it runs on, with the record of
/// every read.
fn read_transaction() -> (r: (OwnedTx, OwnedReceipts))
    ensures
        well_read(r.1, r.0),
{
    let (outputs, outputs_end, output_receipts, outputs_end_receipt) = read_group_outputs();
    let (inputs, inputs_end, input_receipts, inputs_end_receipt) = read_group_input_capacities();
    let (input_data, data_receipt) = load_cell_data(0, Origin::GroupInput).split();
    let (witness, witness_receipt) = load_witness_args(0, Origin::Input).split();
    let action = match witness {
        Ok(w) => w.input_type,
        Err(_) => None,
    };
    let (input_locks, input_locks_end, lock_receipts, locks_end_receipt) = read_input_locks();
    let tx = OwnedTx { outputs, outputs_end, inputs, inputs_end, input_data, action, input_locks, input_locks_end };
    let receipts = OwnedReceipts {
        outputs: output_receipts,
        outputs_end: outputs_end_receipt,
        inputs: input_receipts,
        inputs_end: inputs_end_receipt,
        input_data: data_receipt,
        witness: witness_receipt,
        input_locks: lock_receipts,
        input_locks_end: locks_end_receipt,
    };
    (tx, receipts)
}

/// The script's entry point with its trace: reads the transaction, decides, and returns
/// the exit code (zero when the script accepts) with the view it decided on and the
/// record of the reads behind that view.
pub fn program_entry_traced(build: Build) -> (r: (i8, OwnedTx, OwnedReceipts))
    ensures
        well_read(r.2, r.1),
        r.0 == exit_code_of(spec_run(build, r.1)),
{
    let (tx, receipts) = read_transaction();
    let code = exit_code(run(build, &tx));
    (code, tx, receipts)
}

/// The script's entry point: runs [`program_entry_traced`] and returns its exit code,
/// the verdict of the script's rule on a view of the transaction that the reads made
/// support.
pub fn program_entry(build: Build) -> (code: i8)
    ensures
        exists|r: Result<(), OwnedError>| code == exit_code_of(r),
        exists|rc: OwnedReceipts, tx: OwnedTx|
            #![trigger well_read(rc, tx)]
            well_read(rc, tx) && code == exit_code_of(spec_run(build, tx)),
{
    let (code, tx, receipts) = program_entry_traced(build);
    assert(well_read(receipts, tx) && code == exit_code_of(spec_run(build, tx)));
    code
}

/// The outputs pass their checks in order exactly when each one passes on its own.
proof fn lemma_check_outputs_each(build: Build, outs: Seq<GroupOutput>)
    ensures
        (check_outputs(build, outs) is Ok) <==> (forall|i: int|
            0 <= i < outs.len() ==> check_output(build, #[trigger] outs[i]) is Ok),
    decreases outs.len(),
{
    if outs.len() > 0 {
        let prefix = outs.drop_last();
        lemma_check_outputs_each(build, prefix);
        assert forall|i: int| 0 <= i < prefix.len() implies prefix[i] == outs[i] by {}
        if check_outputs(build, outs) is Ok {
            assert forall|i: int| 0 <= i < outs.len() implies check_output(build, #[trigger] outs[i]) is Ok by {
                if i < outs.len() - 1 {
                    assert(check_output(build, prefix[i]) is Ok);
                }
            }
        }
        if forall|i: int| 0 <= i < outs.len() ==> check_output(build, #[trigger] outs[i]) is Ok {
            assert forall|i: int| 0 <= i < prefix.len() implies check_output(build, #[trigger] prefix[i]) is Ok by {
                assert(check_output(build, outs[i]) is Ok);
            }
            assert(check_output(build, outs[outs.len() - 1]) is Ok);
        }
    }
}

/// Creation: with no input of the type, the transaction is accepted exactly when every
/// output of the type passes its checks.
pub proof fn law_create_checks_every_output(build: Build, tx: OwnedTx)
    requires
        tx.inputs@.len() == 0,
        tx.inputs_end == Fault::OutOfBound,
        tx.outputs_end == Fault::OutOfBound,
    ensures
        (spec_run(build, tx) is Ok) <==> (forall|i: int|
            0 <= i < tx.outputs@.len() ==> check_output(build, #[trigger] tx.outputs@[i]) is Ok),
{
    lemma_check_outputs_each(build, tx.outputs@);
}

/// The capacity rule of a bump: a bump that keeps the owner and raises the value is
/// accepted, fixed, exactly when the surviving cell holds at least the capacity it had,
/// and otherwise refused for it; as first written, whatever the capacity.
pub proof fn law_bump_capacity_rule(build: Build, tx: OwnedTx)
    requires
        tx.outputs@.len() == 1,
        tx.outputs_end == Fault::OutOfBound,
        tx.inputs@.len() == 1,
        tx.inputs_end == Fault::OutOfBound,
        check_output(build, tx.outputs@[0]) is Ok,
        tx.input_data is Ok,
        tx.input_data->Ok_0@.len() == DATA_LEN,
        tx.action is Some,
        tx.action->Some_0@ == bump_word(),
        tx.input_data->Ok_0@.take(OWNER_LEN as int) == tx.outputs@[0].data->Ok_0@.take(OWNER_LEN as int),
        le_value(tx.outputs@[0].data->Ok_0@.subrange(OWNER_LEN as int, DATA_LEN as int)) > le_value(
            tx.input_data->Ok_0@.subrange(OWNER_LEN as int, DATA_LEN as int),
        ),
    ensures
        build == Build::Fixed ==> ((spec_run(build, tx) is Ok) <==> tx.outputs@[0].capacity >= tx.inputs@[0]),
        build == Build::Fixed && tx.outputs@[0].capacity < tx.inputs@[0] ==> spec_run(build, tx) == Err::<
            (),
            OwnedError,
        >(OwnedError::CapacityShrunk),
        build == Build::Vulnerable ==> spec_run(build, tx) is Ok,
{
    reveal_with_fuel(check_outputs, 2);
    assert(tx.outputs@.drop_last() =~= Seq::<GroupOutput>::empty());
    assert(bump_word() != edit_word());
}

/// Every output of the type in an accepted transaction holds 28 bytes of data whose owner
/// is not null and, in the fixed build, is not the cell's own lock.
pub proof fn law_accepted_outputs_have_usable_owners(build: Build, tx: OwnedTx)
    requires
        spec_run(build, tx) is Ok,
    ensures
        forall|i: int|
            0 <= i < tx.outputs@.len() ==> {
                let o = #[trigger] tx.outputs@[i];
                &&& o.data is Ok
                &&& o.lock_hash is Ok
                &&& o.data->Ok_0@.len() == DATA_LEN
                &&& !is_null(o.data->Ok_0@.take(OWNER_LEN as int))
                &&& !spec_owner_is_cell_lock(build, o.data->Ok_0@.take(OWNER_LEN as int), o.lock_hash->Ok_0@)
            },
{
    lemma_check_outputs_each(build, tx.outputs@);
    assert forall|i: int| 0 <= i < tx.outputs@.len() implies {
        let o = #[trigger] tx.outputs@[i];
        &&& o.data is Ok
        &&& o.lock_hash is Ok
        &&& o.data->Ok_0@.len() == DATA_LEN
        &&& !is_null(o.data->Ok_0@.take(OWNER_LEN as int))
        &&& !spec_owner_is_cell_lock(build, o.data->Ok_0@.take(OWNER_LEN as int), o.lock_hash->Ok_0@)
    } by {
        assert(check_output(build, tx.outputs@[i]) is Ok);
    }
}

/// As first written the guard never fires: twenty bytes never equal a thirty-two byte
/// lock hash.
pub proof fn law_vulnerable_guard_never_fires(owner: Seq<u8>, cell_lock: Seq<u8>)
    requires
        owner.len() == OWNER_LEN,
        cell_lock.len() == 32,
    ensures
        !spec_owner_is_cell_lock(Build::Vulnerable, owner, cell_lock),
{
}

/// Fixed, the guard refuses an owner that is the prefix of the cell's own lock hash.
pub proof fn law_fixed_refuses_own_lock_as_owner(o: GroupOutput)
    requires
        o.data is Ok,
        o.lock_hash is Ok,
        o.data->Ok_0@.len() == DATA_LEN,
        !is_null(o.data->Ok_0@.take(OWNER_LEN as int)),
        o.data->Ok_0@.take(OWNER_LEN as int) == o.lock_hash->Ok_0@.take(OWNER_LEN as int),
    ensures
        check_output(Build::Fixed, o) == Err::<(), OwnedError>(OwnedError::OwnerIsCellLock),
{
}

/// A spend accepted by either build is one input and one output of the type, with the
/// action bump or edit.
pub proof fn law_spend_is_one_to_one(build: Build, tx: OwnedTx)
    requires
        spec_run(build, tx) is Ok,
        tx.inputs@.len() > 0,
    ensures
        tx.inputs@.len() == 1,
        tx.outputs@.len() == 1,
        tx.action is Some,
        tx.action->Some_0@ == bump_word() || tx.action->Some_0@ == edit_word(),
{
}

/// An accepted bump keeps the owner and raises the value; fixed, the surviving cell also
/// holds at least the capacity it had.
pub proof fn law_bump_keeps_owner_and_capacity(build: Build, tx: OwnedTx)
    requires
        spec_run(build, tx) is Ok,
        tx.inputs@.len() > 0,
        tx.action is Some,
        tx.action->Some_0@ == bump_word(),
    ensures
        tx.input_data is Ok,
        tx.outputs@[0].data is Ok,
        tx.input_data->Ok_0@.take(OWNER_LEN as int) == tx.outputs@[0].data->Ok_0@.take(OWNER_LEN as int),
        le_value(tx.outputs@[0].data->Ok_0@.subrange(OWNER_LEN as int, DATA_LEN as int)) > le_value(
            tx.input_data->Ok_0@.subrange(OWNER_LEN as int, DATA_LEN as int),
        ),
        build == Build::Fixed ==> tx.outputs@[0].capacity >= tx.inputs@[0],
{
}

/// An accepted edit is signed: some input sits under a lock whose hash starts with the
/// owner the spent cell names.
pub proof fn law_edit_needs_owner(build: Build, tx: OwnedTx)
    requires
        spec_run(build, tx) is Ok,
        tx.inputs@.len() > 0,
        tx.action is Some,
        tx.action->Some_0@ == edit_word(),
    ensures
        tx.input_data is Ok,
        owner_signed(tx.input_locks@, tx.input_data->Ok_0@.take(OWNER_LEN as int)),
{
}

/// Fail-closed: when the walk over the group's outputs or inputs ends in a failed read,
/// the script refuses with its encoding error.
pub proof fn law_failed_walks_refuse(build: Build, tx: OwnedTx)
    requires
        tx.outputs_end == Fault::Other || tx.inputs_end == Fault::Other,
    ensures
        spec_run(build, tx) == Err::<(), OwnedError>(OwnedError::Encoding),
{
}

/// The correction only adds refusals: a transaction that the fixed build accepts is
/// accepted as first written too.
pub proof fn law_fixed_only_adds_refusals(tx: OwnedTx)
    ensures
        spec_run(Build::Fixed, tx) is Ok ==> spec_run(Build::Vulnerable, tx) is Ok,
{
    lemma_check_outputs_each(Build::Fixed, tx.outputs@);
    lemma_check_outputs_each(Build::Vulnerable, tx.outputs@);
    if check_outputs(Build::Fixed, tx.outputs@) is Ok {
        assert forall|i: int| 0 <= i < tx.outputs@.len() implies check_output(
            Build::Vulnerable,
            #[trigger] tx.outputs@[i],
        ) is Ok by {
            let o = tx.outputs@[i];
            assert(check_output(Build::Fixed, o) is Ok);
            let d = o.data->Ok_0@;
            let l = o.lock_hash->Ok_0@;
            assert(d.take(OWNER_LEN as int).len() == OWNER_LEN);
            assert(l.len() == 32);
            assert(d.take(OWNER_LEN as int) != l);
        }
    }
}

/// What the create guard asks of an output of the type: readable data of 28 bytes whose
/// 20-byte owner has a byte that is not zero and, fixed, differs from the first twenty
/// bytes of the cell's own lock hash.
pub open spec fn usable_output(build: Build, o: GroupOutput) -> bool {
    &&& o.data is Ok
    &&& o.lock_hash is Ok
    &&& o.data->Ok_0@.len() == 28
    &&& exists|j: int| 0 <= j < 20 && o.data->Ok_0@[j] != 0
    &&& (build == Build::Fixed ==> o.data->Ok_0@.subrange(0, 20) != o.lock_hash->Ok_0@.subrange(0, 20))
}

/// The guard on one output, exactly: it passes when the output is usable and only then;
/// data of the wrong length is refused as such, and an owner of twenty zero bytes as
/// null.
pub proof fn law_output_guard_exact(build: Build, o: GroupOutput)
    ensures
        (check_output(build, o) is Ok) <==> usable_output(build, o),
        o.data is Ok && o.data->Ok_0@.len() != 28 ==> check_output(build, o) == Err::<(), OwnedError>(
            OwnedError::BadData,
        ),
        o.data is Ok && o.data->Ok_0@.len() == 28 && (forall|j: int|
            0 <= j < 20 ==> o.data->Ok_0@[j] == 0) ==> check_output(build, o) == Err::<(), OwnedError>(
            OwnedError::NullOwner,
        ),
{
    if o.data is Ok && o.data->Ok_0@.len() == 28 {
        let d = o.data->Ok_0@;
        let owner = d.take(OWNER_LEN as int);
        assert(owner.len() == 20);
        assert forall|j: int| 0 <= j < 20 implies owner[j] == d[j] by {}
        if is_null(owner) {
            assert(!exists|j: int| 0 <= j < 20 && d[j] != 0) by {
                assert forall|j: int| 0 <= j < 20 implies d[j] == 0 by {
                    assert(owner[j] == 0);
                }
            }
        } else {
            let k = choose|k: int| 0 <= k < owner.len() && owner[k] != 0;
            assert(d[k] != 0);
        }
        if (forall|j: int| 0 <= j < 20 ==> d[j] == 0) {
            assert forall|j: int| 0 <= j < owner.len() implies owner[j] == 0 by {
                assert(d[j] == 0);
            }
        }
        if o.lock_hash is Ok {
            let l = o.lock_hash->Ok_0@;
            assert(l.len() == 32);
            assert(owner =~= d.subrange(0, 20));
            assert(l.take(OWNER_LEN as int) =~= l.subrange(0, 20));
        }
    }
}

/// Creation, exactly: with no input of the type and every walk read to its end, the
/// transaction is accepted when every output of the type is usable, and only then.
pub proof fn law_create_accepts_exactly_usable_outputs(build: Build, tx: OwnedTx)
    requires
        tx.inputs@.len() == 0,
        tx.inputs_end == Fault::OutOfBound,
        tx.outputs_end == Fault::OutOfBound,
    ensures
        (spec_run(build, tx) is Ok) <==> (forall|i: int|
            0 <= i < tx.outputs@.len() ==> usable_output(build, #[trigger] tx.outputs@[i])),
{
    lemma_check_outputs_each(build, tx.outputs@);
    assert forall|i: int| 0 <= i < tx.outputs@.len() implies (check_output(
        build,
        #[trigger] tx.outputs@[i],
    ) is Ok) == usable_output(build, tx.outputs@[i]) by {
        law_output_guard_exact(build, tx.outputs@[i]);
    }
}

/// An edit nobody signed is refused as unauthorized: when a well-formed one-for-one edit
/// has no input, among all the inputs read to the end, under a lock whose hash starts
/// with the spent cell's owner, either build refuses it for that.
pub proof fn law_unsigned_edit_is_unauthorized(build: Build, tx: OwnedTx)
    requires
        tx.outputs@.len() == 1,
        tx.outputs_end == Fault::OutOfBound,
        tx.inputs@.len() == 1,
        tx.inputs_end == Fault::OutOfBound,
        usable_output(build, tx.outputs@[0]),
        tx.input_data is Ok,
        tx.input_data->Ok_0@.len() == 28,
        tx.action is Some,
        tx.action->Some_0@ == seq![101u8, 100u8, 105u8, 116u8],
        tx.input_locks_end == Fault::OutOfBound,
        forall|j: int|
            0 <= j < tx.input_locks@.len() ==> (#[trigger] tx.input_locks@[j])@.subrange(0, 20)
                != tx.input_data->Ok_0@.subrange(0, 20),
    ensures
        spec_run(build, tx) == Err::<(), OwnedError>(OwnedError::Unauthorized),
{
    law_output_guard_exact(build, tx.outputs@[0]);
    reveal_with_fuel(check_outputs, 2);
    assert(tx.outputs@.drop_last() =~= Seq::<GroupOutput>::empty());
    assert(tx.action->Some_0@ =~= edit_word());
    assert(bump_word() != edit_word());
    let owner = tx.input_data->Ok_0@.take(OWNER_LEN as int);
    assert(owner =~= tx.input_data->Ok_0@.subrange(0, 20));
    assert forall|j: int| 0 <= j < tx.input_locks@.len() implies (#[trigger] tx.input_locks@[j])@.take(
        OWNER_LEN as int,
    ) != owner by {
        assert(tx.input_locks@[j]@.take(OWNER_LEN as int) =~= tx.input_locks@[j]@.subrange(0, 20));
    }
}

} // verus!
