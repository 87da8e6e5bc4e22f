//! The hash backends that the protocol layer can be built with, and what is
//! shared between them.
pub mod blake3;
pub mod sha2;

use crate::field::FieldElement;
use vstd::prelude::*;

verus! {

/// The error that a collision-resistant hash reports.
#[derive(Clone, Copy, Debug, PartialEq, Eq, Structural)]
pub enum HashError {
    /// The input held the given number of elements, which the hash cannot take.
    IncorrectInputLength(usize),
}

/// The representatives of a sequence of field elements.
pub open spec fn values_of(elements: Seq<FieldElement>) -> Seq<nat> {
    elements.map_values(|x: FieldElement| x@)
}

/// Folds a non-empty sequence from the left with a two-to-one function:
/// `pair(...pair(pair(v0, v1), v2)..., vn)`.
pub open spec fn fold_pairs(values: Seq<nat>, pair: spec_fn(nat, nat) -> nat) -> nat
    decreases values.len(),
{
    if values.len() <= 1 {
        values[0]
    } else {
        pair(fold_pairs(values.drop_last(), pair), values.last())
    }
}

/// The hash backends, by name.
#[derive(Clone, Copy, Debug, PartialEq, Eq, Structural)]
pub enum HashBackend {
    Sha2,
    Sha3,
    Blake3,
    Skyscraper,
}

/// The backend that the enabled features select, or `None` when none is
/// enabled. SHA-2 takes precedence over SHA-3, SHA-3 over BLAKE3, and
/// Skyscraper is taken only when none of the other three is enabled.
pub open spec fn selected_backend(sha2: bool, sha3: bool, blake3: bool, skyscraper: bool) -> Option<
    HashBackend,
> {
    if sha2 {
        Some(HashBackend::Sha2)
    } else if sha3 {
        Some(HashBackend::Sha3)
    } else if blake3 {
        Some(HashBackend::Blake3)
    } else if skyscraper {
        Some(HashBackend::Skyscraper)
    } else {
        None
    }
}

/// Chooses the active backend from the enabled features.
pub fn active_backend(sha2: bool, sha3: bool, blake3: bool, skyscraper: bool) -> (backend: Option<
    HashBackend,
>)
    ensures
        backend == selected_backend(sha2, sha3, blake3, skyscraper),
{
    if sha2 {
        Some(HashBackend::Sha2)
    } else if sha3 {
        Some(HashBackend::Sha3)
    } else if blake3 {
        Some(HashBackend::Blake3)
    } else if skyscraper {
        Some(HashBackend::Skyscraper)
    } else {
        None
    }
}

/// The line that announces which backend is in use.
pub fn backend_banner(backend: HashBackend) -> (line: &'static str)
    ensures
        backend == HashBackend::Sha2 ==> line@ == ">>> USING SHA2 <<<"@,
        backend == HashBackend::Sha3 ==> line@ == ">>> USING SHA3 <<<"@,
        backend == HashBackend::Blake3 ==> line@ == ">>> USING BLAKE3 <<<"@,
        backend == HashBackend::Skyscraper ==> line@ == ">>> USING SKYSCRAPER <<<"@,
{
    match backend {
        HashBackend::Sha2 => ">>> USING SHA2 <<<",
        HashBackend::Sha3 => ">>> USING SHA3 <<<",
        HashBackend::Blake3 => ">>> USING BLAKE3 <<<",
        HashBackend::Skyscraper => ">>> USING SKYSCRAPER <<<",
    }
}

/// Which backend is chosen: none exactly when no feature is enabled; the
/// chosen backend's feature is always enabled; SHA-2 is chosen whenever it is
/// enabled; and every backend that outranks the chosen one is disabled.
pub proof fn lemma_backend_selection(sha2: bool, sha3: bool, blake3: bool, skyscraper: bool)
    ensures
        selected_backend(sha2, sha3, blake3, skyscraper) is None <==> !sha2 && !sha3 && !blake3
            && !skyscraper,
        sha2 ==> selected_backend(sha2, sha3, blake3, skyscraper) == Some(HashBackend::Sha2),
        selected_backend(sha2, sha3, blake3, skyscraper) == Some(HashBackend::Sha3) ==> sha3
            && !sha2,
        selected_backend(sha2, sha3, blake3, skyscraper) == Some(HashBackend::Blake3) ==> blake3
            && !sha2 && !sha3,
        selected_backend(sha2, sha3, blake3, skyscraper) == Some(HashBackend::Skyscraper)
            ==> skyscraper && !sha2 && !sha3 && !blake3,
{
}

} // verus!
