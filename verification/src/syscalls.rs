//! The syscalls the scripts read their transaction with, from `ckb_std::high_level`.
//!
//! What a syscall returns is the transaction the VM runs the script on: no contract
//! here says what it is. Each wrapper turns `ckb_std`'s values into plain ones and hands
//! them back as a [`Read`], which records which syscall was made, at which index and
//! from which origin. Only this module makes a `Read` or a [`Receipt`], so a receipt
//! shows that the read it names was made and what it returned.

use ckb_std::ckb_constants::Source;
use ckb_std::ckb_types::prelude::{Entity, Unpack};
use ckb_std::error::SysError;
use ckb_std::high_level;
use vstd::prelude::*;

verus! {

/// Where a syscall looks: the transaction's inputs or outputs, or only those of the
/// running script's group.
#[derive(Clone, Copy, Debug, PartialEq, Eq, Structural)]
pub enum Origin {
    Input,
    Output,
    GroupInput,
    GroupOutput,
}

/// How a load failed, as far as the scripts tell failures apart: past the last item,
/// or anything else.
#[derive(Clone, Copy, Debug, PartialEq, Eq, Structural)]
pub enum Fault {
    OutOfBound,
    Other,
}

/// A syscall as the scripts make it: which field, of which item, from where.
#[derive(Clone, Copy, Debug, PartialEq, Eq, Structural)]
pub enum Query {
    Script,
    ScriptHash,
    CellCapacity(usize, Origin),
    CellLockHash(usize, Origin),
    CellTypeHash(usize, Origin),
    CellType(usize, Origin),
    CellData(usize, Origin),
    WitnessArgs(usize, Origin),
    InputSince(usize, Origin),
}

/// The value a syscall returned, with the query it answered.
pub struct Read<T> {
    query: Ghost<Query>,
    value: Result<T, Fault>,
}

/// The record that a syscall was made and what it returned, once the value is taken.
pub struct Receipt<T> {
    query: Ghost<Query>,
    value: Ghost<Result<T, Fault>>,
}

impl<T> Read<T> {
    /// The query this read answered.
    pub closed spec fn query(&self) -> Query {
        self.query@
    }

    /// What the syscall returned.
    pub closed spec fn value(&self) -> Result<T, Fault> {
        self.value
    }

    /// Takes the value, keeping the record of the read.
    pub fn split(self) -> (r: (Result<T, Fault>, Receipt<T>))
        ensures
            r.0 == self.value(),
            r.1.query() == self.query(),
            r.1.value() == self.value(),
    {
        let Read { query, value } = self;
        let ghost v = value;
        (value, Receipt { query, value: Ghost(v) })
    }
}

impl<T> Receipt<T> {
    /// The query the read answered.
    pub closed spec fn query(&self) -> Query {
        self.query@
    }

    /// What the syscall returned.
    pub closed spec fn value(&self) -> Result<T, Fault> {
        self.value@
    }
}

/// How a walk over items ended, given the read that ended it: the fault it returned, or
/// a failed read where the walk stopped on an index it could not pass.
pub open spec fn walk_end<T>(r: Result<T, Fault>) -> Fault {
    match r {
        Err(f) => f,
        Ok(_) => Fault::Other,
    }
}

/// Whether `end` is the read that closed a walk over `n` items: the query at index `n`,
/// which failed with `fault`, or the index a walk cannot pass.
pub open spec fn ends_walk<T>(end: Receipt<T>, query: Query, n: nat, fault: Fault) -> bool {
    &&& end.query() == query
    &&& end.value() is Err || n == usize::MAX
    &&& fault == walk_end(end.value())
}

/// The fields of a script that the checks read.
#[derive(Debug)]
pub struct ScriptView {
    pub code_hash: [u8; 32],
    pub hash_type: u8,
    pub args: Vec<u8>,
}

/// The two optional fields of a witness read as `WitnessArgs`.
#[derive(Debug)]
pub struct WitnessView {
    pub input_type: Option<Vec<u8>>,
    pub output_type: Option<Vec<u8>>,
}

/// `ckb_std::high_level::load_script`: the running script.
#[verifier::external_body]
pub(crate) fn load_script() -> (r: Read<ScriptView>)
    ensures
        r.query() == Query::Script,
{
    let value = match high_level::load_script() {
        Ok(s) => {
            let mut code_hash = [0u8; 32];
            code_hash.copy_from_slice(s.code_hash().as_slice());
            Ok(ScriptView { code_hash, hash_type: u8::from(s.hash_type()), args: s.args().raw_data().to_vec() })
        },
        Err(SysError::IndexOutOfBound) => Err(Fault::OutOfBound),
        Err(_) => Err(Fault::Other),
    };
    Read { query: Ghost(Query::Script), value }
}

/// `ckb_std::high_level::load_script_hash`: the running script's hash.
#[verifier::external_body]
pub(crate) fn load_script_hash() -> (r: Read<[u8; 32]>)
    ensures
        r.query() == Query::ScriptHash,
{
    let value = match high_level::load_script_hash() {
        Ok(h) => Ok(h),
        Err(SysError::IndexOutOfBound) => Err(Fault::OutOfBound),
        Err(_) => Err(Fault::Other),
    };
    Read { query: Ghost(Query::ScriptHash), value }
}

/// `ckb_std::high_level::load_cell_capacity`: the capacity of cell `index` of `origin`.
#[verifier::external_body]
pub(crate) fn load_cell_capacity(index: usize, origin: Origin) -> (r: Read<u64>)
    ensures
        r.query() == Query::CellCapacity(index, origin),
{
    let source = match origin {
        Origin::Input => Source::Input, Origin::Output => Source::Output,
        Origin::GroupInput => Source::GroupInput, Origin::GroupOutput => Source::GroupOutput,
    };
    let value = match high_level::load_cell_capacity(index, source) {
        Ok(c) => Ok(c),
        Err(SysError::IndexOutOfBound) => Err(Fault::OutOfBound),
        Err(_) => Err(Fault::Other),
    };
    Read { query: Ghost(Query::CellCapacity(index, origin)), value }
}

/// `ckb_std::high_level::load_cell_lock_hash`: the lock hash of cell `index` of `origin`.
#[verifier::external_body]
pub(crate) fn load_cell_lock_hash(index: usize, origin: Origin) -> (r: Read<[u8; 32]>)
    ensures
        r.query() == Query::CellLockHash(index, origin),
{
    let source = match origin {
        Origin::Input => Source::Input, Origin::Output => Source::Output,
        Origin::GroupInput => Source::GroupInput, Origin::GroupOutput => Source::GroupOutput,
    };
    let value = match high_level::load_cell_lock_hash(index, source) {
        Ok(h) => Ok(h),
        Err(SysError::IndexOutOfBound) => Err(Fault::OutOfBound),
        Err(_) => Err(Fault::Other),
    };
    Read { query: Ghost(Query::CellLockHash(index, origin)), value }
}

/// `ckb_std::high_level::load_cell_type_hash`: the type hash of cell `index` of
/// `origin`, `None` for a cell without a type script.
#[verifier::external_body]
pub(crate) fn load_cell_type_hash(index: usize, origin: Origin) -> (r: Read<Option<[u8; 32]>>)
    ensures
        r.query() == Query::CellTypeHash(index, origin),
{
    let source = match origin {
        Origin::Input => Source::Input, Origin::Output => Source::Output,
        Origin::GroupInput => Source::GroupInput, Origin::GroupOutput => Source::GroupOutput,
    };
    let value = match high_level::load_cell_type_hash(index, source) {
        Ok(h) => Ok(h),
        Err(SysError::IndexOutOfBound) => Err(Fault::OutOfBound),
        Err(_) => Err(Fault::Other),
    };
    Read { query: Ghost(Query::CellTypeHash(index, origin)), value }
}

/// `ckb_std::high_level::load_cell_type`: the type script of cell `index` of `origin`,
/// `None` for a cell without one.
#[verifier::external_body]
pub(crate) fn load_cell_type(index: usize, origin: Origin) -> (r: Read<Option<ScriptView>>)
    ensures
        r.query() == Query::CellType(index, origin),
{
    let source = match origin {
        Origin::Input => Source::Input, Origin::Output => Source::Output,
        Origin::GroupInput => Source::GroupInput, Origin::GroupOutput => Source::GroupOutput,
    };
    let value = match high_level::load_cell_type(index, source) {
        Ok(Some(s)) => {
            let mut code_hash = [0u8; 32];
            code_hash.copy_from_slice(s.code_hash().as_slice());
            Ok(Some(ScriptView { code_hash, hash_type: u8::from(s.hash_type()), args: s.args().raw_data().to_vec() }))
        },
        Ok(None) => Ok(None),
        Err(SysError::IndexOutOfBound) => Err(Fault::OutOfBound),
        Err(_) => Err(Fault::Other),
    };
    Read { query: Ghost(Query::CellType(index, origin)), value }
}

/// `ckb_std::high_level::load_cell_data`: the data of cell `index` of `origin`.
#[verifier::external_body]
pub(crate) fn load_cell_data(index: usize, origin: Origin) -> (r: Read<Vec<u8>>)
    ensures
        r.query() == Query::CellData(index, origin),
{
    let source = match origin {
        Origin::Input => Source::Input, Origin::Output => Source::Output,
        Origin::GroupInput => Source::GroupInput, Origin::GroupOutput => Source::GroupOutput,
    };
    let value = match high_level::load_cell_data(index, source) {
        Ok(d) => Ok(d),
        Err(SysError::IndexOutOfBound) => Err(Fault::OutOfBound),
        Err(_) => Err(Fault::Other),
    };
    Read { query: Ghost(Query::CellData(index, origin)), value }
}

/// `ckb_std::high_level::load_witness_args`: the witness at `index` of `origin`, with its
/// `input_type` and `output_type` fields, each `None` where absent.
#[verifier::external_body]
pub(crate) fn load_witness_args(index: usize, origin: Origin) -> (r: Read<WitnessView>)
    ensures
        r.query() == Query::WitnessArgs(index, origin),
{
    let source = match origin {
        Origin::Input => Source::Input, Origin::Output => Source::Output,
        Origin::GroupInput => Source::GroupInput, Origin::GroupOutput => Source::GroupOutput,
    };
    let value = match high_level::load_witness_args(index, source) {
        Ok(wa) => {
            let input_type = match wa.input_type().to_opt() { Some(b) => Some(b.raw_data().to_vec()), None => None };
            let output_type = match wa.output_type().to_opt() { Some(b) => Some(b.raw_data().to_vec()), None => None };
            Ok(WitnessView { input_type, output_type })
        },
        Err(SysError::IndexOutOfBound) => Err(Fault::OutOfBound),
        Err(_) => Err(Fault::Other),
    };
    Read { query: Ghost(Query::WitnessArgs(index, origin)), value }
}

/// `ckb_std::high_level::load_input`: the `since` of input `index` of `origin`.
#[verifier::external_body]
pub(crate) fn load_input_since(index: usize, origin: Origin) -> (r: Read<u64>)
    ensures
        r.query() == Query::InputSince(index, origin),
{
    let source = match origin {
        Origin::Input => Source::Input, Origin::Output => Source::Output,
        Origin::GroupInput => Source::GroupInput, Origin::GroupOutput => Source::GroupOutput,
    };
    let value = match high_level::load_input(index, source) {
        Ok(input) => Ok(input.since().unpack()),
        Err(SysError::IndexOutOfBound) => Err(Fault::OutOfBound),
        Err(_) => Err(Fault::Other),
    };
    Read { query: Ghost(Query::InputSince(index, origin)), value }
}

} // verus!
