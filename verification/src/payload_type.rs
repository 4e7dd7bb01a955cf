//! `payload-type`: the cell holds a hash, the witness holds the bytes.
//!
//! Keeping a large payload in the witness and only its blake2b in the cell keeps the cell
//! small. For an output of this type at absolute index `i`, the bytes live in
//! `witnesses[i].output_type`: the script walks the outputs by absolute index, reads the
//! witness at that index, and compares its hash with the cell's data. A payload in the
//! wrong slot, or an empty slot, is a mismatch: the convention fails closed.

use crate::bytes::bytes_eq;
use crate::hash::{blake2b_256, ckb_blake2b_256};
use crate::syscalls::{
    ends_walk, load_cell_data, load_cell_type_hash, load_script_hash, load_witness_args, Fault,
    Origin, Query, Receipt, WitnessView,
};
use vstd::prelude::*;

verus! {

/// Why a payload-type script refuses.
#[derive(Clone, Copy, Debug, PartialEq, Eq, Structural)]
pub enum PayloadError {
    /// A syscall failed for a reason other than running past the last item.
    Encoding,
    /// Cell data that is not a 32-byte hash.
    BadData,
    /// The witness at this output's index does not hash to the cell's data.
    Mismatch,
}

/// The exit code of each refusal.
pub open spec fn error_code(e: PayloadError) -> i8 {
    match e {
        PayloadError::Encoding => 1,
        PayloadError::BadData => 2,
        PayloadError::Mismatch => 3,
    }
}

/// The exit code for a result: zero when the script accepts.
pub open spec fn exit_code_of(r: Result<(), PayloadError>) -> i8 {
    match r {
        Ok(()) => 0,
        Err(e) => error_code(e),
    }
}

/// One output as the commitment check reads it.
#[derive(Debug)]
pub struct PayloadOutput {
    /// Its type script's hash, `None` for a cell without one.
    pub type_hash: Option<[u8; 32]>,
    pub data: Result<Vec<u8>, Fault>,
    /// `witnesses[i].output_type` at this output's index `i`; `None` where it cannot be
    /// read or is absent.
    pub payload: Option<Vec<u8>>,
}

/// What a payload-type script reads of its transaction.
#[derive(Debug)]
pub struct PayloadTx {
    /// The running script's hash.
    pub me: Result<[u8; 32], Fault>,
    /// The outputs, up to the first one whose type hash could not be read.
    pub outputs: Vec<PayloadOutput>,
    /// Why the outputs end.
    pub outputs_end: Fault,
}

/// Whether output `o` carries the script whose hash is `me`.
pub open spec fn is_mine(o: PayloadOutput, me: Seq<u8>) -> bool {
    o.type_hash is Some && o.type_hash->Some_0@ == me
}

/// Whether a payload whose digest is `digest` answers the cell data `data`.
pub open spec fn spec_matches(digest: Seq<u8>, data: Seq<u8>) -> Result<(), PayloadError> {
    if digest == data {
        Ok(())
    } else {
        Err(PayloadError::Mismatch)
    }
}

/// The check on one output.
pub open spec fn spec_check_output(me: Seq<u8>, o: PayloadOutput) -> Result<(), PayloadError> {
    if is_mine(o, me) {
        match o.data {
            Err(_) => Err(PayloadError::Encoding),
            Ok(d) => if d@.len() != 32 {
                Err(PayloadError::BadData)
            } else {
                match o.payload {
                    None => Err(PayloadError::Mismatch),
                    Some(p) => spec_matches(ckb_blake2b_256(p@), d@),
                }
            },
        }
    } else {
        Ok(())
    }
}

/// The checks on every output, in order; the first failure decides.
pub open spec fn check_outputs(me: Seq<u8>, outs: Seq<PayloadOutput>) -> Result<(), PayloadError>
    decreases outs.len(),
{
    if outs.len() == 0 {
        Ok(())
    } else {
        match check_outputs(me, outs.drop_last()) {
            Err(e) => Err(e),
            Ok(()) => spec_check_output(me, outs.last()),
        }
    }
}

/// The script's verdict on the transaction.
pub open spec fn spec_run(tx: PayloadTx) -> Result<(), PayloadError> {
    match tx.me {
        Err(_) => Err(PayloadError::Encoding),
        Ok(me) => match check_outputs(me@, tx.outputs@) {
            Err(e) => Err(e),
            Ok(()) => match tx.outputs_end {
                Fault::OutOfBound => Ok(()),
                Fault::Other => Err(PayloadError::Encoding),
            },
        },
    }
}

/// Once a prefix of the outputs fails its checks, every longer prefix fails the same way.
proof fn lemma_check_err_persists(me: Seq<u8>, outs: Seq<PayloadOutput>, n: int)
    requires
        0 <= n <= outs.len(),
        check_outputs(me, outs.take(n)) is Err,
    ensures
        check_outputs(me, outs) == check_outputs(me, outs.take(n)),
    decreases outs.len() - n,
{
    if n < outs.len() {
        assert(outs.take(n + 1).drop_last() =~= outs.take(n));
        lemma_check_err_persists(me, outs, n + 1);
    } else {
        assert(outs.take(n) =~= outs);
    }
}

/// The exit code of a verdict.
pub fn exit_code(r: Result<(), PayloadError>) -> (c: i8)
    ensures
        c == exit_code_of(r),
{
    match r {
        Ok(()) => 0,
        Err(PayloadError::Encoding) => 1,
        Err(PayloadError::BadData) => 2,
        Err(PayloadError::Mismatch) => 3,
    }
}

/// Does a payload whose digest is `digest` answer the cell data `data`?
pub fn matches_commitment(digest: &[u8; 32], data: &[u8]) -> (r: Result<(), PayloadError>)
    ensures
        r == spec_matches(digest@, data@),
{
    if !bytes_eq(digest.as_slice(), data) {
        return Err(PayloadError::Mismatch);
    }
    Ok(())
}

/// Checks one output against the script whose hash is `me`.
pub fn check_output(me: &[u8; 32], o: &PayloadOutput) -> (r: Result<(), PayloadError>)
    ensures
        r == spec_check_output(me@, *o),
{
    let mine = match &o.type_hash {
        Some(h) => bytes_eq(h.as_slice(), me.as_slice()),
        None => false,
    };
    if !mine {
        return Ok(());
    }
    let data = match &o.data {
        Ok(d) => d,
        Err(_) => return Err(PayloadError::Encoding),
    };
    if data.len() != 32 {
        return Err(PayloadError::BadData);
    }
    let payload = match &o.payload {
        Some(p) => p,
        None => return Err(PayloadError::Mismatch),
    };
    let digest = blake2b_256(payload.as_slice());
    matches_commitment(&digest, data.as_slice())
}

/// The script's verdict on the transaction it read.
pub fn run(tx: &PayloadTx) -> (r: Result<(), PayloadError>)
    ensures
        r == spec_run(*tx),
{
    let me = match &tx.me {
        Ok(h) => h,
        Err(_) => return Err(PayloadError::Encoding),
    };
    let mut i: usize = 0;
    assert(tx.outputs@.take(0) =~= Seq::<PayloadOutput>::empty());
    while i < tx.outputs.len()
        invariant
            tx.me == Ok::<[u8; 32], Fault>(*me),
            i <= tx.outputs@.len(),
            check_outputs(me@, tx.outputs@.take(i as int)) == Ok::<(), PayloadError>(()),
        decreases tx.outputs@.len() - i,
    {
        proof {
            assert(tx.outputs@.take(i + 1).drop_last() =~= tx.outputs@.take(i as int));
            assert(tx.outputs@.take(i + 1).last() == tx.outputs@[i as int]);
        }
        let checked = check_output(me, &tx.outputs[i]);
        if checked.is_err() {
            proof {
                lemma_check_err_persists(me@, tx.outputs@, i + 1);
            }
            return checked;
        }
        i = i + 1;
    }
    assert(tx.outputs@.take(i as int) =~= tx.outputs@);
    match tx.outputs_end {
        Fault::OutOfBound => Ok(()),
        Fault::Other => Err(PayloadError::Encoding),
    }
}

/// The records of the reads behind one output.
pub struct PayloadOutputReceipts {
    pub type_hash: Receipt<Option<[u8; 32]>>,
    pub data: Receipt<Vec<u8>>,
    pub witness: Receipt<WitnessView>,
}

/// The records of the reads behind a `PayloadTx`.
pub struct PayloadReceipts {
    pub me: Receipt<[u8; 32]>,
    pub outputs: Vec<PayloadOutputReceipts>,
    pub outputs_end: Receipt<Option<[u8; 32]>>,
}

/// The payload a witness carries for an output: its `output_type`, `None` when it cannot
/// be read.
pub open spec fn payload_of(w: Result<WitnessView, Fault>) -> Option<Vec<u8>> {
    match w {
        Ok(w) => w.output_type,
        Err(_) => None,
    }
}

/// `o` is what was read of output `i` of the transaction: its type hash and data, and the
/// payload in `witnesses[i]`, the witness at the output's own absolute index, read from
/// the list the inputs index.
pub open spec fn output_read(rc: PayloadOutputReceipts, o: PayloadOutput, i: int) -> bool {
    &&& rc.type_hash.query() == Query::CellTypeHash(i as usize, Origin::Output)
    &&& rc.type_hash.value() == Ok::<Option<[u8; 32]>, Fault>(o.type_hash)
    &&& rc.data.query() == Query::CellData(i as usize, Origin::Output)
    &&& rc.data.value() == o.data
    &&& rc.witness.query() == Query::WitnessArgs(i as usize, Origin::Input)
    &&& o.payload == payload_of(rc.witness.value())
}

/// `tx` is what the script reads of its transaction, as `rc` records: the running
/// script's hash, and every output from index 0 until its type hash cannot be read.
pub open spec fn well_read(rc: PayloadReceipts, tx: PayloadTx) -> bool {
    &&& rc.me.query() == Query::ScriptHash
    &&& rc.me.value() == tx.me
    &&& rc.outputs@.len() == tx.outputs@.len()
    &&& forall|i: int|
        0 <= i < tx.outputs@.len() ==> output_read(#[trigger] rc.outputs@[i], tx.outputs@[i], i)
    &&& ends_walk(
        rc.outputs_end,
        Query::CellTypeHash(tx.outputs@.len() as usize, Origin::Output),
        tx.outputs@.len(),
        tx.outputs_end,
    )
}

/// Reads the outputs from index 0 through their type hashes until one cannot be read (a
/// walk that reached `usize::MAX` items would end there as a failed read), with each
/// output's data and the witness payload at its own index.
fn read_outputs() -> (r: (Vec<PayloadOutput>, Fault, Vec<PayloadOutputReceipts>, Receipt<Option<[u8; 32]>>))
    ensures
        r.2@.len() == r.0@.len(),
        forall|i: int| 0 <= i < r.0@.len() ==> output_read(#[trigger] r.2@[i], r.0@[i], i),
        ends_walk(r.3, Query::CellTypeHash(r.0@.len() as usize, Origin::Output), r.0@.len(), r.1),
{
    let mut outputs: Vec<PayloadOutput> = Vec::new();
    let mut receipts: Vec<PayloadOutputReceipts> = Vec::new();
    let mut i: usize = 0;
    loop
        invariant
            outputs@.len() == i,
            receipts@.len() == i,
            forall|j: int| 0 <= j < i ==> output_read(#[trigger] receipts@[j], outputs@[j], j),
        decreases usize::MAX - i,
    {
        let (t, type_receipt) = load_cell_type_hash(i, Origin::Output).split();
        let type_hash = match t {
            Ok(t) => t,
            Err(f) => return (outputs, f, receipts, type_receipt),
        };
        if i == usize::MAX {
            return (outputs, Fault::Other, receipts, type_receipt);
        }
        let (data, data_receipt) = load_cell_data(i, Origin::Output).split();
        let (witness, witness_receipt) = load_witness_args(i, Origin::Input).split();
        let payload = match witness {
            Ok(w) => w.output_type,
            Err(_) => None,
        };
        outputs.push(PayloadOutput { type_hash, data, payload });
        receipts.push(PayloadOutputReceipts { type_hash: type_receipt, data: data_receipt, witness: witness_receipt });
        i = i + 1;
    }
}

/// Reads what the script looks at from the transaction it runs on, with the record of
/// every read.
fn read_transaction() -> (r: (PayloadTx, PayloadReceipts))
    ensures
        well_read(r.1, r.0),
{
    let (me, me_receipt) = load_script_hash().split();
    let (outputs, outputs_end, output_receipts, end_receipt) = read_outputs();
    let tx = PayloadTx { me, outputs, outputs_end };
    let receipts = PayloadReceipts { me: me_receipt, outputs: output_receipts, outputs_end: end_receipt };
    (tx, receipts)
}

/// The script's entry point with its trace: reads the transaction, decides, and returns
/// the exit code (zero when the script accepts) with the view it decided on and the
/// record of the reads behind that view.
pub fn program_entry_traced() -> (r: (i8, PayloadTx, PayloadReceipts))
    ensures
        well_read(r.2, r.1),
        r.0 == exit_code_of(spec_run(r.1)),
{
    let (tx, receipts) = read_transaction();
    let code = exit_code(run(&tx));
    (code, tx, receipts)
}

/// The script's entry point: runs [`program_entry_traced`] and returns its exit code,
/// the verdict of the script's rule on a view of the transaction that the reads made
/// support.
pub fn program_entry() -> (code: i8)
    ensures
        exists|r: Result<(), PayloadError>| code == exit_code_of(r),
        exists|rc: PayloadReceipts, tx: PayloadTx|
            #![trigger well_read(rc, tx)]
            well_read(rc, tx) && code == exit_code_of(spec_run(tx)),
{
    let (code, tx, receipts) = program_entry_traced();
    assert(well_read(receipts, tx) && code == exit_code_of(spec_run(tx)));
    code
}

/// Whether output `o` of the script `me` commits to the payload at its index: 32 bytes of
/// data equal to the payload's digest.
pub open spec fn committed(o: PayloadOutput, me: Seq<u8>) -> bool {
    is_mine(o, me) ==> {
        &&& o.data is Ok
        &&& o.data->Ok_0@.len() == 32
        &&& o.payload is Some
        &&& ckb_blake2b_256(o.payload->Some_0@) == o.data->Ok_0@
    }
}

/// The checks pass in order exactly when each output passes on its own.
proof fn lemma_check_outputs_each(me: Seq<u8>, outs: Seq<PayloadOutput>)
    ensures
        (check_outputs(me, outs) is Ok) <==> (forall|i: int|
            0 <= i < outs.len() ==> committed(#[trigger] outs[i], me)),
    decreases outs.len(),
{
    if outs.len() > 0 {
        let prefix = outs.drop_last();
        lemma_check_outputs_each(me, prefix);
        assert forall|i: int| 0 <= i < prefix.len() implies prefix[i] == outs[i] by {}
        if check_outputs(me, outs) is Ok {
            assert forall|i: int| 0 <= i < outs.len() implies committed(#[trigger] outs[i], me) by {
                if i < outs.len() - 1 {
                    assert(committed(prefix[i], me));
                }
            }
        }
        if forall|i: int| 0 <= i < outs.len() ==> committed(#[trigger] outs[i], me) {
            assert forall|i: int| 0 <= i < prefix.len() implies committed(#[trigger] prefix[i], me) by {
                assert(committed(outs[i], me));
            }
            assert(committed(outs[outs.len() - 1], me));
        }
    }
}

/// The commitment rule: once the script's hash and every output's type hash are read,
/// the transaction is accepted exactly when every output of this type holds the digest of
/// the payload in the witness at its own index.
pub proof fn law_payloads_at_output_index(tx: PayloadTx)
    requires
        tx.me is Ok,
        tx.outputs_end == Fault::OutOfBound,
    ensures
        (spec_run(tx) is Ok) <==> (forall|i: int|
            0 <= i < tx.outputs@.len() ==> committed(#[trigger] tx.outputs@[i], tx.me->Ok_0@)),
{
    lemma_check_outputs_each(tx.me->Ok_0@, tx.outputs@);
}

/// Fail-closed: when the walk over the outputs ends in a failed read, the script refuses.
pub proof fn law_failed_walk_refuses(tx: PayloadTx)
    requires
        tx.outputs_end == Fault::Other,
    ensures
        spec_run(tx) is Err,
{
}

/// Whether every output of the script `me` among `outs` has readable data of 32 bytes.
pub open spec fn data_well_formed(outs: Seq<PayloadOutput>, me: Seq<u8>) -> bool {
    forall|i: int|
        0 <= i < outs.len() && is_mine(#[trigger] outs[i], me) ==> outs[i].data is Ok
            && outs[i].data->Ok_0@.len() == 32
}

/// Where every output of this type has well-formed data, the checks either pass or fail
/// as a mismatch.
proof fn lemma_well_formed_checks_fail_as_mismatch(me: Seq<u8>, outs: Seq<PayloadOutput>)
    requires
        data_well_formed(outs, me),
    ensures
        check_outputs(me, outs) is Err ==> check_outputs(me, outs) == Err::<(), PayloadError>(
            PayloadError::Mismatch,
        ),
    decreases outs.len(),
{
    if outs.len() > 0 {
        let prefix = outs.drop_last();
        assert forall|i: int| 0 <= i < prefix.len() && is_mine(#[trigger] prefix[i], me) implies prefix[i].data is Ok
            && prefix[i].data->Ok_0@.len() == 32 by {
            assert(prefix[i] == outs[i]);
        }
        lemma_well_formed_checks_fail_as_mismatch(me, prefix);
        assert(outs.last() == outs[outs.len() - 1]);
    }
}

/// A wrong payload is a mismatch: when every output of this type holds 32 bytes of
/// readable data but some output of this type does not hold the digest of the payload at
/// its own index (or has none there), the script refuses with its mismatch error.
pub proof fn law_wrong_payload_is_a_mismatch(tx: PayloadTx, k: int)
    requires
        tx.me is Ok,
        tx.outputs_end == Fault::OutOfBound,
        data_well_formed(tx.outputs@, tx.me->Ok_0@),
        0 <= k < tx.outputs@.len(),
        is_mine(tx.outputs@[k], tx.me->Ok_0@),
        tx.outputs@[k].payload is None || ckb_blake2b_256(tx.outputs@[k].payload->Some_0@)
            != tx.outputs@[k].data->Ok_0@,
    ensures
        spec_run(tx) == Err::<(), PayloadError>(PayloadError::Mismatch),
{
    let me = tx.me->Ok_0@;
    lemma_check_outputs_each(me, tx.outputs@);
    assert(!committed(tx.outputs@[k], me));
    lemma_well_formed_checks_fail_as_mismatch(me, tx.outputs@);
}

} // verus!
