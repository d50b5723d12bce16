//! The errors of the sync engine, each carrying its message.
use vstd::prelude::*;

verus! {

/// An error of the sync engine, by the area it arose in.
#[derive(Debug, Clone)]
pub enum SyncEngineError {
    Compression(String),
    Config(String),
    Corruption(String),
    Crypto(String),
    Internal(String),
    Recovery(String),
}

} // verus!
