//! The pipeline's error taxonomy.

use vstd::prelude::*;

verus! {

/// Everything that can go wrong while reading, decoding or propagating a
/// change event.
///
/// - `ConnectionError`: the log or the index is unreachable; fatal.
/// - `MalformedEntry`: a raw log entry lacks a required field; the entry is
///   skipped by default and fatal only in strict mode.
/// - `DuplicateInsert`: an insert found its document id already present
///   downstream (inserts are create-only and never overwrite).
/// - `MissingTargetForUpdate`: an update found no document to patch.
/// - `TransientWriteError`: a downstream write timed out or was throttled;
///   retried with bounded backoff before escalating to `ConnectionError`.
#[derive(Clone, Copy, Debug, PartialEq, Eq, Structural)]
pub enum Error {
    ConnectionError,
    MalformedEntry,
    DuplicateInsert,
    MissingTargetForUpdate,
    TransientWriteError,
}

} // verus!
