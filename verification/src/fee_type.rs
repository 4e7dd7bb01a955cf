//! `fee-type`: spending a cell of this type owes a fee.
//!
//! args = `treasury_lock_hash (32) ‖ fee (8, little-endian shannons)`. Creating a cell of
//! this type is free; consuming one requires the outputs to pay what is owed to the
//! treasury.
//!
//! * As first written, each instance demands its own fee and counts any output under the
//!   treasury lock, so two instances are both satisfied by one payment, and an output
//!   carrying a hostile type script counts as payment.
//! * Fixed: every instance sums the fee of every input carrying this code, each at its own
//!   args, and only a pure output (no type script) counts.

use crate::bytes::{bytes_eq, le_u64, le_value};
use crate::syscalls::{
    ends_walk, load_cell_capacity, load_cell_lock_hash, load_cell_type, load_cell_type_hash,
    load_script, Fault, Origin, Query, Receipt, ScriptView,
};
use crate::Build;
use vstd::prelude::*;
use vstd::slice::slice_subrange;

verus! {

/// The length of the args: the treasury's lock hash, then the fee.
pub const ARGS_LEN: usize = 40;

/// Why a fee-type script refuses.
#[derive(Clone, Copy, Debug, PartialEq, Eq, Structural)]
pub enum FeeError {
    /// A syscall failed for a reason other than running past the last item.
    Encoding,
    /// The args are not 40 bytes.
    BadArgs,
    /// The outputs do not pay what is owed.
    Unpaid,
}

/// The exit code of each refusal.
pub open spec fn error_code(e: FeeError) -> i8 {
    match e {
        FeeError::Encoding => 1,
        FeeError::BadArgs => 2,
        FeeError::Unpaid => 3,
    }
}

/// The exit code for a result: zero when the script accepts.
pub open spec fn exit_code_of(r: Result<(), FeeError>) -> i8 {
    match r {
        Ok(()) => 0,
        Err(e) => error_code(e),
    }
}

/// One output as the payment check reads it.
#[derive(Debug)]
pub struct Output {
    pub lock_hash: [u8; 32],
    /// Its type script's hash, `None` for a pure output.
    pub type_hash: Result<Option<[u8; 32]>, Fault>,
    pub capacity: Result<u64, Fault>,
}

/// What a fee-type script reads of its transaction.
#[derive(Debug)]
pub struct FeeTx {
    /// The running script.
    pub script: Result<ScriptView, Fault>,
    /// The capacity of the first input of the script's group.
    pub first_group_input: Result<u64, Fault>,
    /// The outputs, up to the first one whose lock hash could not be read.
    pub outputs: Vec<Output>,
    /// Why the outputs end: past the last one, or a failed read.
    pub outputs_end: Fault,
    /// The type script of each input, up to the first one that could not be read.
    pub input_types: Vec<Option<ScriptView>>,
    /// Why the inputs end.
    pub input_types_end: Fault,
}

/// `a + b`, capped at `u64::MAX`.
pub open spec fn sat_add(a: u64, b: u64) -> u64 {
    if a + b > u64::MAX {
        u64::MAX
    } else {
        (a + b) as u64
    }
}

/// The treasury's lock hash in well-formed args.
pub open spec fn treasury_of(args: Seq<u8>) -> Seq<u8> {
    args.subrange(0, 32)
}

/// The fee in well-formed args.
pub open spec fn fee_of(args: Seq<u8>) -> u64 {
    le_value(args.subrange(32, 40)) as u64
}

/// Whether the spending side of the group exists: is there a first group input?
pub open spec fn spec_any_group_input(tx: FeeTx) -> Result<bool, FeeError> {
    match tx.first_group_input {
        Ok(_) => Ok(true),
        Err(Fault::OutOfBound) => Ok(false),
        Err(Fault::Other) => Err(FeeError::Encoding),
    }
}

/// Whether an output under the treasury lock counts as payment: as first written,
/// always; fixed, only a pure one.
pub open spec fn spec_counts(build: Build, o: Output) -> Result<bool, FeeError> {
    match build {
        Build::Vulnerable => Ok(true),
        Build::Fixed => match o.type_hash {
            Ok(t) => Ok(t is None),
            Err(_) => Err(FeeError::Encoding),
        },
    }
}

/// The running total after output `o`.
pub open spec fn paid_step(build: Build, paid: u64, o: Output, lock: Seq<u8>) -> Result<u64, FeeError> {
    if o.lock_hash@ == lock {
        match spec_counts(build, o) {
            Err(e) => Err(e),
            Ok(false) => Ok(paid),
            Ok(true) => match o.capacity {
                Ok(c) => Ok(sat_add(paid, c)),
                Err(_) => Err(FeeError::Encoding),
            },
        }
    } else {
        Ok(paid)
    }
}

/// What `outs` pay to `lock`, walked in order; the first failed read decides.
pub open spec fn paid_over(build: Build, outs: Seq<Output>, lock: Seq<u8>) -> Result<u64, FeeError>
    decreases outs.len(),
{
    if outs.len() == 0 {
        Ok(0)
    } else {
        match paid_over(build, outs.drop_last(), lock) {
            Err(e) => Err(e),
            Ok(p) => paid_step(build, p, outs.last(), lock),
        }
    }
}

/// What the transaction's outputs pay to `lock`.
pub open spec fn spec_paid_to(build: Build, tx: FeeTx, lock: Seq<u8>) -> Result<u64, FeeError> {
    match paid_over(build, tx.outputs@, lock) {
        Err(e) => Err(e),
        Ok(p) => match tx.outputs_end {
            Fault::OutOfBound => Ok(p),
            Fault::Other => Err(FeeError::Encoding),
        },
    }
}

/// Whether input type `t` is an instance of the code `code`/`hash_type` with well-formed
/// args.
pub open spec fn is_instance(t: Option<ScriptView>, code: Seq<u8>, hash_type: u8) -> bool {
    match t {
        Some(t) => t.code_hash@ == code && t.hash_type == hash_type && t.args@.len() == ARGS_LEN,
        None => false,
    }
}

/// The running total of fees after input type `t`.
pub open spec fn owed_step(total: u64, t: Option<ScriptView>, code: Seq<u8>, hash_type: u8) -> u64 {
    if is_instance(t, code, hash_type) {
        sat_add(total, fee_of(t->Some_0.args@))
    } else {
        total
    }
}

/// The fees of every instance of the code among `inputs`, summed with saturation.
pub open spec fn owed_over(inputs: Seq<Option<ScriptView>>, code: Seq<u8>, hash_type: u8) -> u64
    decreases inputs.len(),
{
    if inputs.len() == 0 {
        0
    } else {
        owed_step(owed_over(inputs.drop_last(), code, hash_type), inputs.last(), code, hash_type)
    }
}

/// What the transaction owes: as first written, this instance's fee; fixed, the fees of
/// every input carrying this code.
pub open spec fn spec_owed(build: Build, tx: FeeTx, script: ScriptView, fee: u64) -> Result<u64, FeeError> {
    match build {
        Build::Vulnerable => Ok(fee),
        Build::Fixed => match tx.input_types_end {
            Fault::OutOfBound => Ok(owed_over(tx.input_types@, script.code_hash@, script.hash_type)),
            Fault::Other => Err(FeeError::Encoding),
        },
    }
}

/// The script's verdict on the transaction.
pub open spec fn spec_run(build: Build, tx: FeeTx) -> Result<(), FeeError> {
    match tx.script {
        Err(_) => Err(FeeError::Encoding),
        Ok(s) => if s.args@.len() != ARGS_LEN {
            Err(FeeError::BadArgs)
        } else {
            match spec_any_group_input(tx) {
                Err(e) => Err(e),
                Ok(false) => Ok(()),
                Ok(true) => match spec_paid_to(build, tx, treasury_of(s.args@)) {
                    Err(e) => Err(e),
                    Ok(p) => match spec_owed(build, tx, s, fee_of(s.args@)) {
                        Err(e) => Err(e),
                        Ok(o) => if p < o {
                            Err(FeeError::Unpaid)
                        } else {
                            Ok(())
                        },
                    },
                },
            }
        },
    }
}

/// Once a prefix of the outputs fails, the walk over any longer prefix fails the same way.
proof fn lemma_paid_err_persists(build: Build, outs: Seq<Output>, lock: Seq<u8>, n: int)
    requires
        0 <= n <= outs.len(),
        paid_over(build, outs.take(n), lock) is Err,
    ensures
        paid_over(build, outs, lock) == paid_over(build, outs.take(n), lock),
    decreases outs.len() - n,
{
    if n < outs.len() {
        assert(outs.take(n + 1).drop_last() =~= outs.take(n));
        lemma_paid_err_persists(build, outs, lock, n + 1);
    } else {
        assert(outs.take(n) =~= outs);
    }
}

/// The exit code of a verdict.
pub fn exit_code(r: Result<(), FeeError>) -> (c: i8)
    ensures
        c == exit_code_of(r),
{
    match r {
        Ok(()) => 0,
        Err(FeeError::Encoding) => 1,
        Err(FeeError::BadArgs) => 2,
        Err(FeeError::Unpaid) => 3,
    }
}

/// Is there a first input in the script's group? Only spending a cell owes the fee.
pub fn any_group_input(tx: &FeeTx) -> (r: Result<bool, FeeError>)
    ensures
        r == spec_any_group_input(*tx),
{
    match tx.first_group_input {
        Ok(_) => Ok(true),
        Err(Fault::OutOfBound) => Ok(false),
        Err(Fault::Other) => Err(FeeError::Encoding),
    }
}

/// Does output `o`, under the treasury lock, count as payment?
pub fn counts(build: Build, o: &Output) -> (r: Result<bool, FeeError>)
    ensures
        r == spec_counts(build, *o),
{
    match build {
        Build::Vulnerable => Ok(true),
        Build::Fixed => match o.type_hash {
            Ok(t) => Ok(t.is_none()),
            Err(_) => Err(FeeError::Encoding),
        },
    }
}

/// What the outputs pay to `lock`, saturating at `u64::MAX`.
pub fn paid_to(build: Build, tx: &FeeTx, lock: &[u8]) -> (r: Result<u64, FeeError>)
    ensures
        r == spec_paid_to(build, *tx, lock@),
{
    let mut paid: u64 = 0;
    let mut i: usize = 0;
    assert(tx.outputs@.take(0) =~= Seq::<Output>::empty());
    while i < tx.outputs.len()
        invariant
            i <= tx.outputs@.len(),
            paid_over(build, tx.outputs@.take(i as int), lock@) == Ok::<u64, FeeError>(paid),
        decreases tx.outputs@.len() - i,
    {
        let o = &tx.outputs[i];
        let ghost before = paid;
        proof {
            assert(tx.outputs@.take(i + 1).drop_last() =~= tx.outputs@.take(i as int));
            assert(tx.outputs@.take(i + 1).last() == *o);
        }
        if bytes_eq(&o.lock_hash, lock) {
            match counts(build, o) {
                Err(e) => {
                    proof {
                        lemma_paid_err_persists(build, tx.outputs@, lock@, i + 1);
                    }
                    return Err(e);
                },
                Ok(true) => match o.capacity {
                    Ok(c) => {
                        paid = paid.saturating_add(c);
                    },
                    Err(_) => {
                        proof {
                            lemma_paid_err_persists(build, tx.outputs@, lock@, i + 1);
                        }
                        return Err(FeeError::Encoding);
                    },
                },
                Ok(false) => {},
            }
        }
        assert(paid_step(build, before, *o, lock@) == Ok::<u64, FeeError>(paid));
        i = i + 1;
    }
    assert(tx.outputs@.take(i as int) =~= tx.outputs@);
    match tx.outputs_end {
        Fault::OutOfBound => Ok(paid),
        Fault::Other => Err(FeeError::Encoding),
    }
}

/// What the transaction owes the treasury.
pub fn owed(build: Build, tx: &FeeTx, script: &ScriptView, fee: u64) -> (r: Result<u64, FeeError>)
    ensures
        r == spec_owed(build, *tx, *script, fee),
{
    match build {
        Build::Vulnerable => Ok(fee),
        Build::Fixed => {
            let mut total: u64 = 0;
            let mut i: usize = 0;
            assert(tx.input_types@.take(0) =~= Seq::<Option<ScriptView>>::empty());
            while i < tx.input_types.len()
                invariant
                    i <= tx.input_types@.len(),
                    total == owed_over(tx.input_types@.take(i as int), script.code_hash@, script.hash_type),
                decreases tx.input_types@.len() - i,
            {
                proof {
                    assert(tx.input_types@.take(i + 1).drop_last() =~= tx.input_types@.take(i as int));
                }
                match &tx.input_types[i] {
                    Some(t) => {
                        if bytes_eq(&t.code_hash, &script.code_hash) && t.hash_type == script.hash_type {
                            if t.args.len() == ARGS_LEN {
                                let f = le_u64(slice_subrange(t.args.as_slice(), 32, 40));
                                total = total.saturating_add(f);
                            }
                        }
                    },
                    None => {},
                }
                i = i + 1;
            }
            assert(tx.input_types@.take(i as int) =~= tx.input_types@);
            match tx.input_types_end {
                Fault::OutOfBound => Ok(total),
                Fault::Other => Err(FeeError::Encoding),
            }
        },
    }
}

/// The script's verdict on the transaction it read.
pub fn run(build: Build, tx: &FeeTx) -> (r: Result<(), FeeError>)
    ensures
        r == spec_run(build, *tx),
{
    let script = match &tx.script {
        Ok(s) => s,
        Err(_) => return Err(FeeError::Encoding),
    };
    if script.args.len() != ARGS_LEN {
        return Err(FeeError::BadArgs);
    }
    let treasury = slice_subrange(script.args.as_slice(), 0, 32);
    let fee = le_u64(slice_subrange(script.args.as_slice(), 32, 40));
    if !any_group_input(tx)? {
        return Ok(());
    }
    let paid = paid_to(build, tx, treasury)?;
    let owed = owed(build, tx, script, fee)?;
    if paid < owed {
        return Err(FeeError::Unpaid);
    }
    Ok(())
}

/// The records of the reads behind one output.
pub struct OutputReceipts {
    pub lock_hash: Receipt<[u8; 32]>,
    pub type_hash: Receipt<Option<[u8; 32]>>,
    pub capacity: Receipt<u64>,
}

/// The records of the reads behind a `FeeTx`.
pub struct FeeReceipts {
    pub script: Receipt<ScriptView>,
    pub first_group_input: Receipt<u64>,
    pub outputs: Vec<OutputReceipts>,
    pub outputs_end: Receipt<[u8; 32]>,
    pub input_types: Vec<Receipt<Option<ScriptView>>>,
    pub input_types_end: Receipt<Option<ScriptView>>,
}

/// Output `o` is what was read of output `i` of the transaction: its lock hash, type hash
/// and capacity.
pub open spec fn output_read(rc: OutputReceipts, o: Output, i: int) -> bool {
    &&& rc.lock_hash.query() == Query::CellLockHash(i as usize, Origin::Output)
    &&& rc.lock_hash.value() == Ok::<[u8; 32], Fault>(o.lock_hash)
    &&& rc.type_hash.query() == Query::CellTypeHash(i as usize, Origin::Output)
    &&& rc.type_hash.value() == o.type_hash
    &&& rc.capacity.query() == Query::CellCapacity(i as usize, Origin::Output)
    &&& rc.capacity.value() == o.capacity
}

/// `t` is what was read of the type script of input `i` of the transaction.
pub open spec fn input_type_read(rc: Receipt<Option<ScriptView>>, t: Option<ScriptView>, i: int) -> bool {
    &&& rc.query() == Query::CellType(i as usize, Origin::Input)
    &&& rc.value() == Ok::<Option<ScriptView>, Fault>(t)
}

/// `tx` is what the script reads of its transaction, as `rc` records: the running
/// script, the capacity of the group's first input, every output from index 0 until its
/// lock hash cannot be read, and every input's type script from index 0 until one cannot
/// be read.
pub open spec fn well_read(rc: FeeReceipts, tx: FeeTx) -> bool {
    &&& rc.script.query() == Query::Script
    &&& rc.script.value() == tx.script
    &&& rc.first_group_input.query() == Query::CellCapacity(0, Origin::GroupInput)
    &&& rc.first_group_input.value() == tx.first_group_input
    &&& rc.outputs@.len() == tx.outputs@.len()
    &&& forall|i: int|
        0 <= i < tx.outputs@.len() ==> output_read(#[trigger] rc.outputs@[i], tx.outputs@[i], i)
    &&& ends_walk(
        rc.outputs_end,
        Query::CellLockHash(tx.outputs@.len() as usize, Origin::Output),
        tx.outputs@.len(),
        tx.outputs_end,
    )
    &&& rc.input_types@.len() == tx.input_types@.len()
    &&& forall|i: int|
        0 <= i < tx.input_types@.len() ==> input_type_read(
            #[trigger] rc.input_types@[i],
            tx.input_types@[i],
            i,
        )
    &&& ends_walk(
        rc.input_types_end,
        Query::CellType(tx.input_types@.len() as usize, Origin::Input),
        tx.input_types@.len(),
        tx.input_types_end,
    )
}

/// Reads the outputs from index 0 through their lock hashes until one cannot be read (a
/// walk that reached `usize::MAX` items would end there as a failed read), with each
/// output's type hash and capacity.
fn read_outputs() -> (r: (Vec<Output>, Fault, Vec<OutputReceipts>, Receipt<[u8; 32]>))
    ensures
        r.2@.len() == r.0@.len(),
        forall|i: int| 0 <= i < r.0@.len() ==> output_read(#[trigger] r.2@[i], r.0@[i], i),
        ends_walk(r.3, Query::CellLockHash(r.0@.len() as usize, Origin::Output), r.0@.len(), r.1),
{
    let mut outputs: Vec<Output> = Vec::new();
    let mut receipts: Vec<OutputReceipts> = Vec::new();
    let mut i: usize = 0;
    loop
        invariant
            outputs@.len() == i,
            receipts@.len() == i,
            forall|j: int| 0 <= j < i ==> output_read(#[trigger] receipts@[j], outputs@[j], j),
        decreases usize::MAX - i,
    {
        let (lock, lock_receipt) = load_cell_lock_hash(i, Origin::Output).split();
        let lock_hash = match lock {
            Ok(h) => h,
            Err(f) => return (outputs, f, receipts, lock_receipt),
        };
        if i == usize::MAX {
            return (outputs, Fault::Other, receipts, lock_receipt);
        }
        let (type_hash, type_receipt) = load_cell_type_hash(i, Origin::Output).split();
        let (capacity, capacity_receipt) = load_cell_capacity(i, Origin::Output).split();
        outputs.push(Output { lock_hash, type_hash, capacity });
        receipts.push(OutputReceipts { lock_hash: lock_receipt, type_hash: type_receipt, capacity: capacity_receipt });
        i = i + 1;
    }
}

/// Reads the type script of each input from index 0 until one cannot be read.
fn read_input_types() -> (r: (Vec<Option<ScriptView>>, Fault, Vec<Receipt<Option<ScriptView>>>, Receipt<Option<ScriptView>>))
    ensures
        r.2@.len() == r.0@.len(),
        forall|i: int| 0 <= i < r.0@.len() ==> input_type_read(#[trigger] r.2@[i], r.0@[i], i),
        ends_walk(r.3, Query::CellType(r.0@.len() as usize, Origin::Input), r.0@.len(), r.1),
{
    let mut types: Vec<Option<ScriptView>> = Vec::new();
    let mut receipts: Vec<Receipt<Option<ScriptView>>> = Vec::new();
    let mut i: usize = 0;
    loop
        invariant
            types@.len() == i,
            receipts@.len() == i,
            forall|j: int| 0 <= j < i ==> input_type_read(#[trigger] receipts@[j], types@[j], j),
        decreases usize::MAX - i,
    {
        let (t, receipt) = load_cell_type(i, Origin::Input).split();
        let t = match t {
            Ok(t) => t,
            Err(f) => return (types, f, receipts, receipt),
        };
        if i == usize::MAX {
            return (types, Fault::Other, receipts, receipt);
        }
        types.push(t);
        receipts.push(receipt);
        i = i + 1;
    }
}

/// Reads what the script looks at from the transaction it runs on, with the record of
/// every read.
fn read_transaction() -> (r: (FeeTx, FeeReceipts))
    ensures
        well_read(r.1, r.0),
{
    let (script, script_receipt) = load_script().split();
    let (first_group_input, first_receipt) = load_cell_capacity(0, Origin::GroupInput).split();
    let (outputs, outputs_end, output_receipts, outputs_end_receipt) = read_outputs();
    let (input_types, input_types_end, type_receipts, types_end_receipt) = read_input_types();
    let tx = FeeTx { script, first_group_input, outputs, outputs_end, input_types, input_types_end };
    let receipts = FeeReceipts {
        script: script_receipt,
        first_group_input: first_receipt,
        outputs: output_receipts,
        outputs_end: outputs_end_receipt,
        input_types: type_receipts,
        input_types_end: types_end_receipt,
    };
    (tx, receipts)
}

/// The script's entry point with its trace: reads the transaction, decides, and returns
/// the exit code (zero when the script accepts) with the view it decided on and the
/// record of the reads behind that view.
pub fn program_entry_traced(build: Build) -> (r: (i8, FeeTx, FeeReceipts))
    ensures
        well_read(r.2, r.1),
        r.0 == exit_code_of(spec_run(build, r.1)),
{
    let (tx, receipts) = read_transaction();
    let code = exit_code(run(build, &tx));
    (code, tx, receipts)
}

/// The script's entry point: runs [`program_entry_traced`] and returns its exit code,
/// the verdict of the script's rule on a view of the transaction that the reads made
/// support.
pub fn program_entry(build: Build) -> (code: i8)
    ensures
        exists|r: Result<(), FeeError>| code == exit_code_of(r),
        exists|rc: FeeReceipts, tx: FeeTx|
            #![trigger well_read(rc, tx)]
            well_read(rc, tx) && code == exit_code_of(spec_run(build, tx)),
{
    let (code, tx, receipts) = program_entry_traced(build);
    assert(well_read(receipts, tx) && code == exit_code_of(spec_run(build, tx)));
    code
}

/// Whether every read the verdict can depend on succeeded, as in a transaction the VM
/// runs: the script, each output's type hash and capacity, and both walks ended past
/// the last item.
pub open spec fn readable(tx: FeeTx) -> bool {
    &&& tx.script is Ok
    &&& tx.outputs_end == Fault::OutOfBound
    &&& tx.input_types_end == Fault::OutOfBound
    &&& forall|i: int|
        0 <= i < tx.outputs@.len() ==> (#[trigger] tx.outputs@[i]).type_hash is Ok
            && tx.outputs@[i].capacity is Ok
}

/// The capacity of a readable output.
pub open spec fn capacity_of(o: Output) -> nat {
    match o.capacity {
        Ok(c) => c as nat,
        Err(_) => 0,
    }
}

/// Whether output `o` is a payment to `lock`: under it, and pure unless typed outputs
/// count.
pub open spec fn pays(o: Output, lock: Seq<u8>, typed_count: bool) -> bool {
    o.lock_hash@ == lock && (typed_count || o.type_hash == Ok::<Option<[u8; 32]>, Fault>(None))
}

/// What output `o` adds to a payment to `lock`.
pub open spec fn contribution(o: Output, lock: Seq<u8>, typed_count: bool) -> nat {
    if pays(o, lock, typed_count) {
        capacity_of(o)
    } else {
        0
    }
}

/// The exact total that `outs` pay to `lock`.
pub open spec fn payment(outs: Seq<Output>, lock: Seq<u8>, typed_count: bool) -> nat
    decreases outs.len(),
{
    if outs.len() == 0 {
        0
    } else {
        payment(outs.drop_last(), lock, typed_count) + contribution(outs.last(), lock, typed_count)
    }
}

/// The exact total of the fees of every instance of the code among `inputs`.
pub open spec fn total_owed(inputs: Seq<Option<ScriptView>>, code: Seq<u8>, hash_type: u8) -> nat
    decreases inputs.len(),
{
    if inputs.len() == 0 {
        0
    } else {
        total_owed(inputs.drop_last(), code, hash_type) + if is_instance(inputs.last(), code, hash_type) {
            fee_of(inputs.last()->Some_0.args@) as nat
        } else {
            0
        }
    }
}

/// `n`, capped at `u64::MAX`.
pub open spec fn capped(n: nat) -> u64 {
    if n > u64::MAX {
        u64::MAX
    } else {
        n as u64
    }
}

/// Over readable outputs, the walk sums the payments, saturating.
proof fn lemma_paid_over_sums(build: Build, outs: Seq<Output>, lock: Seq<u8>)
    requires
        forall|i: int|
            0 <= i < outs.len() ==> (#[trigger] outs[i]).type_hash is Ok && outs[i].capacity is Ok,
    ensures
        paid_over(build, outs, lock) == Ok::<u64, FeeError>(
            capped(payment(outs, lock, build == Build::Vulnerable)),
        ),
    decreases outs.len(),
{
    if outs.len() > 0 {
        let prefix = outs.drop_last();
        assert forall|i: int| 0 <= i < prefix.len() implies (#[trigger] prefix[i]).type_hash is Ok
            && prefix[i].capacity is Ok by {
            assert(prefix[i] == outs[i]);
        }
        lemma_paid_over_sums(build, prefix, lock);
        assert(outs.last() == outs[outs.len() - 1]);
    }
}

/// The walk over the inputs sums their fees, saturating.
proof fn lemma_owed_over_sums(inputs: Seq<Option<ScriptView>>, code: Seq<u8>, hash_type: u8)
    ensures
        owed_over(inputs, code, hash_type) == capped(total_owed(inputs, code, hash_type)),
    decreases inputs.len(),
{
    if inputs.len() > 0 {
        lemma_owed_over_sums(inputs.drop_last(), code, hash_type);
    }
}

/// Creation owes nothing: when the script's group has no input, either build accepts,
/// whatever the outputs pay.
pub proof fn law_creation_owes_nothing(build: Build, tx: FeeTx)
    requires
        tx.script is Ok,
        tx.script->Ok_0.args@.len() == ARGS_LEN,
        tx.first_group_input == Err::<u64, Fault>(Fault::OutOfBound),
    ensures
        spec_run(build, tx) == Ok::<(), FeeError>(()),
{
}

/// The fee rule, fixed: a spending instance accepts exactly when the pure outputs under the
/// treasury lock hold at least the fees of every input carrying this code, and otherwise
/// refuses as unpaid.
pub proof fn law_fixed_fee_rule(tx: FeeTx)
    requires
        readable(tx),
        tx.script->Ok_0.args@.len() == ARGS_LEN,
        tx.first_group_input is Ok,
        total_owed(tx.input_types@, tx.script->Ok_0.code_hash@, tx.script->Ok_0.hash_type)
            <= u64::MAX,
    ensures
        ({
            let s = tx.script->Ok_0;
            let paid = payment(tx.outputs@, treasury_of(s.args@), false);
            let owed = total_owed(tx.input_types@, s.code_hash@, s.hash_type);
            &&& (spec_run(Build::Fixed, tx) is Ok) <==> paid >= owed
            &&& spec_run(Build::Fixed, tx) is Err ==> spec_run(Build::Fixed, tx) == Err::<
                (),
                FeeError,
            >(FeeError::Unpaid)
        }),
{
    let s = tx.script->Ok_0;
    lemma_paid_over_sums(Build::Fixed, tx.outputs@, treasury_of(s.args@));
    lemma_owed_over_sums(tx.input_types@, s.code_hash@, s.hash_type);
}

/// The fee rule as first written: a spending instance accepts exactly when the outputs
/// under the treasury lock, typed or not, hold at least its own fee.
pub proof fn law_vulnerable_fee_rule(tx: FeeTx)
    requires
        readable(tx),
        tx.script->Ok_0.args@.len() == ARGS_LEN,
        tx.first_group_input is Ok,
    ensures
        ({
            let s = tx.script->Ok_0;
            &&& (spec_run(Build::Vulnerable, tx) is Ok) <==> payment(tx.outputs@, treasury_of(s.args@), true)
                >= fee_of(s.args@)
            &&& spec_run(Build::Vulnerable, tx) is Err ==> spec_run(Build::Vulnerable, tx) == Err::<
                (),
                FeeError,
            >(FeeError::Unpaid)
        }),
{
    let s = tx.script->Ok_0;
    lemma_paid_over_sums(Build::Vulnerable, tx.outputs@, treasury_of(s.args@));
}

/// One total for every instance, fixed: two spending instances of one code in one
/// transaction that name the same treasury reach the same verdict, whatever their own
/// fees, so one payment cannot answer both.
pub proof fn law_fixed_instances_agree(tx1: FeeTx, tx2: FeeTx)
    requires
        tx1.script is Ok,
        tx2.script is Ok,
        tx1.script->Ok_0.args@.len() == ARGS_LEN,
        tx2.script->Ok_0.args@.len() == ARGS_LEN,
        tx1.script->Ok_0.code_hash@ == tx2.script->Ok_0.code_hash@,
        tx1.script->Ok_0.hash_type == tx2.script->Ok_0.hash_type,
        treasury_of(tx1.script->Ok_0.args@) == treasury_of(tx2.script->Ok_0.args@),
        tx1.first_group_input is Ok,
        tx2.first_group_input is Ok,
        tx1.outputs@ == tx2.outputs@,
        tx1.outputs_end == tx2.outputs_end,
        tx1.input_types@ == tx2.input_types@,
        tx1.input_types_end == tx2.input_types_end,
    ensures
        spec_run(Build::Fixed, tx1) == spec_run(Build::Fixed, tx2),
{
}

/// Fail-closed: when a walk over the outputs or the inputs ends in a failed read, a
/// spending instance refuses; it never accepts on what it could not read.
pub proof fn law_failed_walks_refuse(build: Build, tx: FeeTx)
    requires
        tx.script is Ok,
        tx.first_group_input is Ok,
        tx.outputs_end == Fault::Other || (build == Build::Fixed && tx.input_types_end == Fault::Other),
    ensures
        spec_run(build, tx) is Err,
{
}

/// Whether every output's type hash and capacity could be read.
pub open spec fn outputs_readable(outs: Seq<Output>) -> bool {
    forall|i: int| 0 <= i < outs.len() ==> (#[trigger] outs[i]).type_hash is Ok && outs[i].capacity is Ok
}

/// Taking one output out of a payment takes out exactly what it adds.
proof fn lemma_payment_remove(outs: Seq<Output>, lock: Seq<u8>, typed_count: bool, k: int)
    requires
        0 <= k < outs.len(),
    ensures
        payment(outs, lock, typed_count) == payment(outs.remove(k), lock, typed_count) + contribution(
            outs[k],
            lock,
            typed_count,
        ),
    decreases outs.len(),
{
    if k == outs.len() - 1 {
        assert(outs.remove(k) =~= outs.drop_last());
    } else {
        let prefix = outs.drop_last();
        lemma_payment_remove(prefix, lock, typed_count, k);
        assert(prefix.remove(k) =~= outs.remove(k).drop_last());
        assert(outs.remove(k).last() == outs.last());
        assert(prefix[k] == outs[k]);
    }
}

/// A payment does not depend on the order of the outputs.
proof fn lemma_payment_permutation(outs1: Seq<Output>, outs2: Seq<Output>, lock: Seq<u8>, typed_count: bool)
    requires
        outs1.to_multiset() == outs2.to_multiset(),
    ensures
        payment(outs1, lock, typed_count) == payment(outs2, lock, typed_count),
    decreases outs1.len(),
{
    broadcast use vstd::seq_lib::group_to_multiset_ensures;
    broadcast use vstd::multiset::group_multiset_axioms;

    if outs1.len() == 0 {
        outs1.to_multiset_ensures();
        outs2.to_multiset_ensures();
        assert(outs2.len() == 0);
    } else {
        let x = outs1.last();
        let prefix = outs1.drop_last();
        assert(outs1 =~= prefix.push(x));
        assert(outs2.to_multiset().count(x) > 0);
        assert(outs2.contains(x));
        let k = choose|k: int| 0 <= k < outs2.len() && outs2[k] == x;
        assert(prefix.to_multiset().insert(x).remove(x) =~= prefix.to_multiset());
        assert(outs2.remove(k).to_multiset() =~= prefix.to_multiset());
        lemma_payment_permutation(prefix, outs2.remove(k), lock, typed_count);
        lemma_payment_remove(outs2, lock, typed_count, k);
    }
}

/// Inserting an output adds exactly what it pays.
proof fn lemma_payment_insert(outs: Seq<Output>, lock: Seq<u8>, typed_count: bool, k: int, o: Output)
    requires
        0 <= k <= outs.len(),
    ensures
        payment(outs.insert(k, o), lock, typed_count) == payment(outs, lock, typed_count) + contribution(
            o,
            lock,
            typed_count,
        ),
        outputs_readable(outs) && o.type_hash is Ok && o.capacity is Ok ==> outputs_readable(
            outs.insert(k, o),
        ),
{
    outs.insert_ensures(k, o);
    assert(outs.insert(k, o).remove(k) =~= outs);
    lemma_payment_remove(outs.insert(k, o), lock, typed_count, k);
    if outputs_readable(outs) && o.type_hash is Ok && o.capacity is Ok {
        assert forall|i: int| 0 <= i < outs.insert(k, o).len() implies (#[trigger] outs.insert(
            k,
            o,
        )[i]).type_hash is Ok && outs.insert(k, o)[i].capacity is Ok by {
            if i > k {
                assert(outs.insert(k, o)[(i - 1) + 1] == outs[i - 1]);
            }
        }
    }
}

/// The fees of all instances are at least the fee of any one of them.
proof fn lemma_total_owed_at_least_member(inputs: Seq<Option<ScriptView>>, code: Seq<u8>, hash_type: u8, j: int)
    requires
        0 <= j < inputs.len(),
        is_instance(inputs[j], code, hash_type),
    ensures
        total_owed(inputs, code, hash_type) >= fee_of(inputs[j]->Some_0.args@),
    decreases inputs.len(),
{
    if j < inputs.len() - 1 {
        lemma_total_owed_at_least_member(inputs.drop_last(), code, hash_type, j);
        assert(inputs.drop_last()[j] == inputs[j]);
    }
}

/// The total paid to a lock does not depend on the order of the outputs: readable
/// outputs that are a permutation of each other pay `lock` the same, as the script walks
/// them.
pub proof fn law_paid_ignores_order(build: Build, outs1: Seq<Output>, outs2: Seq<Output>, lock: Seq<u8>)
    requires
        outputs_readable(outs1),
        outputs_readable(outs2),
        outs1.to_multiset() == outs2.to_multiset(),
    ensures
        paid_over(build, outs1, lock) == paid_over(build, outs2, lock),
{
    lemma_paid_over_sums(build, outs1, lock);
    lemma_paid_over_sums(build, outs2, lock);
    lemma_payment_permutation(outs1, outs2, lock, build == Build::Vulnerable);
}

/// Outputs under other locks do not count: inserting a readable one anywhere leaves what
/// readable outputs pay to `lock` unchanged.
pub proof fn law_paid_ignores_other_locks(build: Build, outs: Seq<Output>, lock: Seq<u8>, k: int, o: Output)
    requires
        outputs_readable(outs),
        o.type_hash is Ok,
        o.capacity is Ok,
        o.lock_hash@ != lock,
        0 <= k <= outs.len(),
    ensures
        paid_over(build, outs.insert(k, o), lock) == paid_over(build, outs, lock),
{
    lemma_payment_insert(outs, lock, build == Build::Vulnerable, k, o);
    lemma_paid_over_sums(build, outs, lock);
    lemma_paid_over_sums(build, outs.insert(k, o), lock);
}

/// The walk over `outs`, starting from the running total `start`.
pub open spec fn paid_from(build: Build, start: u64, outs: Seq<Output>, lock: Seq<u8>) -> Result<
    u64,
    FeeError,
>
    decreases outs.len(),
{
    if outs.len() == 0 {
        Ok(start)
    } else {
        match paid_from(build, start, outs.drop_last(), lock) {
            Err(e) => Err(e),
            Ok(p) => paid_step(build, p, outs.last(), lock),
        }
    }
}

/// The walk over the outputs is the walk from zero.
proof fn lemma_paid_over_from_zero(build: Build, outs: Seq<Output>, lock: Seq<u8>)
    ensures
        paid_over(build, outs, lock) == paid_from(build, 0, outs, lock),
    decreases outs.len(),
{
    if outs.len() > 0 {
        lemma_paid_over_from_zero(build, outs.drop_last(), lock);
    }
}

/// A walk over two runs of outputs is the walk over the first, continued over the second.
proof fn lemma_paid_from_concat(build: Build, start: u64, a: Seq<Output>, b: Seq<Output>, lock: Seq<u8>)
    ensures
        paid_from(build, start, a + b, lock) == match paid_from(build, start, a, lock) {
            Err(e) => Err(e),
            Ok(p) => paid_from(build, p, b, lock),
        },
    decreases b.len(),
{
    if b.len() == 0 {
        assert(a + b =~= a);
    } else {
        lemma_paid_from_concat(build, start, a, b.drop_last(), lock);
        assert((a + b).drop_last() =~= a + b.drop_last());
        assert((a + b).last() == b.last());
    }
}

/// A walk that starts from a larger total fails the same way or ends no lower.
proof fn lemma_paid_from_monotone(build: Build, p: u64, q: u64, outs: Seq<Output>, lock: Seq<u8>)
    requires
        p <= q,
    ensures
        paid_from(build, p, outs, lock) is Err ==> paid_from(build, q, outs, lock) == paid_from(build, p, outs, lock),
        paid_from(build, p, outs, lock) is Ok ==> paid_from(build, q, outs, lock) is Ok
            && paid_from(build, p, outs, lock)->Ok_0 <= paid_from(build, q, outs, lock)->Ok_0,
    decreases outs.len(),
{
    if outs.len() > 0 {
        lemma_paid_from_monotone(build, p, q, outs.drop_last(), lock);
    }
}

/// Paying the treasury more never turns an acceptance into a refusal: a transaction that
/// either build accepts is still accepted with one more pure output to the treasury,
/// anywhere among the outputs.
pub proof fn law_more_payment_never_refuses(build: Build, tx1: FeeTx, tx2: FeeTx, k: int, o: Output)
    requires
        tx1.script is Ok,
        tx2.script == tx1.script,
        tx2.first_group_input == tx1.first_group_input,
        0 <= k <= tx1.outputs@.len(),
        tx2.outputs@ == tx1.outputs@.insert(k, o),
        tx2.outputs_end == tx1.outputs_end,
        tx2.input_types@ == tx1.input_types@,
        tx2.input_types_end == tx1.input_types_end,
        o.lock_hash@ == treasury_of(tx1.script->Ok_0.args@),
        o.type_hash == Ok::<Option<[u8; 32]>, Fault>(None),
        o.capacity is Ok,
    ensures
        spec_run(build, tx1) is Ok ==> spec_run(build, tx2) is Ok,
{
    let lock = treasury_of(tx1.script->Ok_0.args@);
    let outs = tx1.outputs@;
    let before = outs.take(k);
    let after = outs.skip(k);
    assert(outs =~= before + after);
    assert(outs.insert(k, o) =~= before + (seq![o] + after));
    lemma_paid_over_from_zero(build, outs, lock);
    lemma_paid_over_from_zero(build, tx2.outputs@, lock);
    lemma_paid_from_concat(build, 0, before, after, lock);
    lemma_paid_from_concat(build, 0, before, seq![o] + after, lock);
    if paid_from(build, 0, before, lock) is Ok {
        let pa = paid_from(build, 0, before, lock)->Ok_0;
        lemma_paid_from_concat(build, pa, seq![o], after, lock);
        let one = seq![o];
        let pb = sat_add(pa, o.capacity->Ok_0);
        assert(one.drop_last() =~= Seq::<Output>::empty());
        assert(one.last() == o);
        assert(paid_from(build, pa, one.drop_last(), lock) == Ok::<u64, FeeError>(pa));
        assert(spec_counts(build, o) == Ok::<bool, FeeError>(true));
        assert(paid_step(build, pa, o, lock) == Ok::<u64, FeeError>(pb));
        assert(paid_from(build, pa, one, lock) == Ok::<u64, FeeError>(pb));
        lemma_paid_from_monotone(build, pa, pb, after, lock);
    }
}

/// Whether no output under `lock` has a type script and a capacity that cannot be read:
/// such an output is skipped by the fixed build and read by the other.
pub open spec fn typed_capacities_readable(outs: Seq<Output>, lock: Seq<u8>) -> bool {
    forall|i: int|
        0 <= i < outs.len() && (#[trigger] outs[i]).lock_hash@ == lock && outs[i].type_hash is Ok
            && outs[i].type_hash->Ok_0 is Some ==> outs[i].capacity is Ok
}

/// Where the fixed walk over the outputs succeeds, the walk as first written succeeds
/// too and finds at least as much paid.
proof fn lemma_vulnerable_pays_at_least_fixed(outs: Seq<Output>, lock: Seq<u8>)
    requires
        typed_capacities_readable(outs, lock),
    ensures
        paid_over(Build::Fixed, outs, lock) is Ok ==> paid_over(Build::Vulnerable, outs, lock) is Ok
            && paid_over(Build::Fixed, outs, lock)->Ok_0 <= paid_over(Build::Vulnerable, outs, lock)->Ok_0,
    decreases outs.len(),
{
    if outs.len() > 0 {
        let prefix = outs.drop_last();
        assert forall|i: int|
            0 <= i < prefix.len() && (#[trigger] prefix[i]).lock_hash@ == lock && prefix[i].type_hash is Ok
                && prefix[i].type_hash->Ok_0 is Some implies prefix[i].capacity is Ok by {
            assert(prefix[i] == outs[i]);
        }
        lemma_vulnerable_pays_at_least_fixed(prefix, lock);
        assert(outs.last() == outs[outs.len() - 1]);
    }
}

/// The correction only adds refusals: where the spending cell is among the inputs read
/// (input `j` carries this very script) and no typed output under the treasury lock has
/// an unreadable capacity, a fee-type instance that the fixed build accepts is accepted
/// as first written too.
pub proof fn law_fixed_only_adds_refusals(tx: FeeTx, j: int)
    requires
        tx.script is Ok ==> typed_capacities_readable(tx.outputs@, treasury_of(tx.script->Ok_0.args@)),
        tx.script is Ok && tx.first_group_input is Ok ==> {
            &&& 0 <= j < tx.input_types@.len()
            &&& tx.input_types@[j] is Some
            &&& tx.input_types@[j]->Some_0.code_hash@ == tx.script->Ok_0.code_hash@
            &&& tx.input_types@[j]->Some_0.hash_type == tx.script->Ok_0.hash_type
            &&& tx.input_types@[j]->Some_0.args@ == tx.script->Ok_0.args@
        },
    ensures
        spec_run(Build::Fixed, tx) is Ok ==> spec_run(Build::Vulnerable, tx) is Ok,
{
    if tx.script is Ok && tx.first_group_input is Ok && tx.script->Ok_0.args@.len() == ARGS_LEN {
        let s = tx.script->Ok_0;
        let lock = treasury_of(s.args@);
        lemma_vulnerable_pays_at_least_fixed(tx.outputs@, lock);
        lemma_owed_over_sums(tx.input_types@, s.code_hash@, s.hash_type);
        lemma_total_owed_at_least_member(tx.input_types@, s.code_hash@, s.hash_type, j);
    }
}

} // verus!
