//! The variable store: asks the modern interface first and, when that fails, the
//! legacy interface once. Exactly one interface's answer is returned.

use crate::error::VarError;
use vstd::prelude::*;

verus! {

/// One of the two kernel interfaces.
#[derive(Debug, Clone, Copy, PartialEq, Eq, Structural)]
pub enum Backend {
    /// The modern, flat interface.
    Efivarfs,
    /// The legacy interface with fixed-layout records.
    Efivar,
}

/// What the store does next.
#[derive(Debug)]
pub enum StoreAction<T> {
    /// Put the call to this interface, then report its outcome.
    Query(Backend),
    /// The call is over: give the caller this outcome.
    Answer(Result<T, VarError>),
}

/// The next action once `from` has answered with `outcome`.
pub open spec fn next_action<T>(from: Backend, outcome: Result<T, VarError>) -> StoreAction<T> {
    if from == Backend::Efivarfs && outcome is Err {
        StoreAction::Query(Backend::Efivar)
    } else {
        StoreAction::Answer(outcome)
    }
}

/// What a whole call returns, given what each interface would answer: the legacy
/// answer is asked for, and used, only when the modern one failed.
pub open spec fn store_outcome<T>(
    modern: Result<T, VarError>,
    legacy: Result<T, VarError>,
) -> Result<T, VarError> {
    match next_action(Backend::Efivarfs, modern) {
        StoreAction::Answer(o) => o,
        StoreAction::Query(b) => match next_action(b, legacy) {
            StoreAction::Answer(o) => o,
            StoreAction::Query(_) => legacy,
        },
    }
}

/// The interface that every call asks first.
pub fn first_backend() -> (r: Backend)
    ensures
        r == Backend::Efivarfs,
{
    Backend::Efivarfs
}

/// Decides what to do with the outcome of a call to `from`: a failure of the
/// modern interface sends the call on to the legacy one; anything else is the answer.
pub fn after_answer<T>(from: Backend, outcome: Result<T, VarError>) -> (r: StoreAction<T>)
    ensures
        r == next_action(from, outcome),
{
    match from {
        Backend::Efivarfs => match outcome {
            Err(_) => StoreAction::Query(Backend::Efivar),
            Ok(v) => StoreAction::Answer(Ok(v)),
        },
        Backend::Efivar => StoreAction::Answer(outcome),
    }
}

/// When the modern interface fails (its mount point missing, say), the store answers
/// exactly what the legacy interface answers, success or error, as if it were the
/// only interface.
pub proof fn lemma_fallback_is_transparent<T>(modern_error: VarError, legacy: Result<T, VarError>)
    ensures
        next_action(Backend::Efivarfs, Err::<T, VarError>(modern_error)) == StoreAction::<T>::Query(
            Backend::Efivar,
        ),
        next_action(Backend::Efivar, legacy) == StoreAction::<T>::Answer(legacy),
        store_outcome(Err::<T, VarError>(modern_error), legacy) == legacy,
{
}

/// When the modern interface answers, its answer is the store's and the legacy
/// interface is not asked: the two are never merged.
pub proof fn lemma_modern_answer_stands<T>(modern: T, legacy: Result<T, VarError>)
    ensures
        next_action(Backend::Efivarfs, Ok::<T, VarError>(modern)) == StoreAction::<T>::Answer(
            Ok(modern),
        ),
        store_outcome(Ok::<T, VarError>(modern), legacy) == Ok::<T, VarError>(modern),
{
}

} // verus!
