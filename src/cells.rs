//! The transactional cells that every structure keeps its state in, and the
//! retry signal: the parts of the `stm` crate that the structures rely on.
use stm::{StmError, StmResult, TVar, Transaction};
use vstd::prelude::*;

verus! {

#[verifier::external_type_specification]
#[verifier::external_body]
#[verifier::reject_recursive_types(T)]
pub struct ExTVar<T>(TVar<T>);

#[verifier::external_type_specification]
#[verifier::external_body]
pub struct ExTransaction(Transaction);

#[verifier::external_type_specification]
pub struct ExStmError(StmError);

/// The derived `Clone` of `stm::TVar` gives another handle to the same cell.
pub assume_specification<T: Clone>[ <TVar<T> as Clone>::clone ](cell: &TVar<T>) -> TVar<T>;

/// Relies on `stm::TVar::new`: a fresh shared cell holding `value`.
#[verifier::external_body]
pub(crate) fn new_cell<T: 'static + Send + Sync + Clone>(value: T) -> TVar<T> {
    TVar::new(value)
}

/// The count that a `u32` cell was made with.
pub uninterp spec fn created_with(cell: TVar<u32>) -> u32;

/// The count that a `usize` cell was made with.
pub uninterp spec fn slots_created_with(cell: TVar<usize>) -> usize;

/// Relies on `stm::TVar::new`: a fresh shared cell that starts out holding
/// `value`.
#[verifier::external_body]
pub(crate) fn new_count_cell(value: u32) -> (r: TVar<u32>)
    ensures
        created_with(r) == value,
{
    TVar::new(value)
}

/// Relies on `stm::TVar::new`: a fresh shared cell that starts out holding
/// `value`.
#[verifier::external_body]
pub(crate) fn new_slot_cell(value: usize) -> (r: TVar<usize>)
    ensures
        slots_created_with(r) == value,
{
    TVar::new(value)
}

/// Relies on `stm::TVar::read`: the value that `tx` sees in the cell. The
/// crate's `Transaction::read` always returns `Ok`; which value comes back
/// depends on other threads.
#[verifier::external_body]
pub(crate) fn read_cell<T: 'static + Send + Sync + Clone>(
    cell: &TVar<T>,
    tx: &mut Transaction,
) -> (r: StmResult<T>)
    ensures
        r is Ok,
{
    cell.read(tx)
}

/// Relies on `stm::TVar::write`: buffers `value` in `tx`; the crate's
/// `Transaction::write` always returns `Ok`.
#[verifier::external_body]
pub(crate) fn write_cell<T: 'static + Send + Sync + Clone>(
    cell: &TVar<T>,
    tx: &mut Transaction,
    value: T,
) -> (r: StmResult<()>)
    ensures
        r is Ok,
{
    cell.write(tx, value)
}

/// Relies on `stm::retry`: the retry signal, which suspends the whole
/// transaction until a cell that it read changes.
#[verifier::external_body]
pub(crate) fn retry<T>() -> (r: StmResult<T>)
    ensures
        r is Err,
        r->Err_0 == StmError::Retry,
{
    stm::retry()
}

} // verus!
