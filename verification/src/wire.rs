//! Reply messages of the `SyncService` wire schema, as plain values.

use vstd::prelude::*;

use crate::ops::SyncOperationsMsg;

verus! {

/// The `Result` struct of the wire schema: a status (0 is success) and a
/// text note, as raw bytes (empty when the sender set none).
#[derive(Debug, Clone)]
pub struct StatusMsg {
    pub status: u8,
    pub meta: Vec<u8>,
}

/// The result of `pull` and `dump`: a window of operations and the cursor to
/// continue from.
#[derive(Debug, Clone)]
pub struct WindowMsg {
    pub so: SyncOperationsMsg,
    pub next_cursor: u64,
}

/// The result of `checkIds`: a status and the ids that the peer lacks.
#[derive(Debug, Clone)]
pub struct CheckIdsMsg {
    pub result: StatusMsg,
    pub missing: Vec<u64>,
}

} // verus!
