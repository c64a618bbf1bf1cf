//! Client side of any `SyncService` endpoint: what the worker, the finder
//! and the central distributor make of each reply.

use vstd::prelude::*;
use vstd::utf8::*;

use crate::error::Error;
use crate::ops::{
    OperationModel,
    ParseFailure,
    SyncOperationsMsg,
    Window,
    WindowModel,
    cursor_advances,
    decode_operations,
    encode_operations,
    lemma_fill_parse_roundtrip,
    non_advancing_message,
    non_advancing_text,
    parse_error_matches,
    parse_operations,
};
use crate::text::text_to_string;

verus! {

broadcast use vstd::seq::group_seq_axioms;

/// RPC result from a `SyncService` method.
#[derive(Debug, Clone)]
pub struct SyncResult {
    pub status: u8,
    pub meta: String,
}

pub open spec fn opt_bytes_view(meta: Option<Vec<u8>>) -> Option<Seq<u8>> {
    match meta {
        Some(b) => Some(b@),
        None => None,
    }
}

/// The note that a client reads from a reply's meta field: the text when
/// the field could be read and is UTF-8, empty otherwise (`None` stands for
/// a field that could not be read).
pub open spec fn meta_text(meta: Option<Seq<u8>>) -> Seq<char> {
    match meta {
        Some(b) => if valid_utf8(b) {
            decode_utf8(b)
        } else {
            Seq::empty()
        },
        None => Seq::empty(),
    }
}

/// Reads a reply's meta field; see [`meta_text`].
pub fn decode_meta(meta: &Option<Vec<u8>>) -> (s: String)
    ensures
        s@ == meta_text(opt_bytes_view(*meta)),
{
    match meta {
        Some(b) => match text_to_string(b.as_slice()) {
            Ok(s) => s,
            Err(_) => String::new(),
        },
        None => String::new(),
    }
}

/// The result of `update` and `ack`: the reply's status and note.
pub fn sync_result(status: u8, meta: &Option<Vec<u8>>) -> (r: SyncResult)
    ensures
        r.status == status,
        r.meta@ == meta_text(opt_bytes_view(*meta)),
{
    SyncResult { status, meta: decode_meta(meta) }
}

/// The result of `pull` and `dump` at `cursor`: the operations of the reply
/// and its cursor; fails when the operations do not parse, or when the
/// window returns operations without moving the cursor (a protocol error).
pub fn window_result(op: &'static str, cursor: u64, next_cursor: u64, so: &SyncOperationsMsg) -> (r:
    Result<Window, Error>)
    ensures
        r is Ok <==> (decode_operations(so@) is Ok && (so@.len() == 0 || next_cursor > cursor)),
        match decode_operations(so@) {
            Err(f) => r matches Err(e) && parse_error_matches(e, f),
            Ok(v) => if cursor_advances(cursor, v.len(), next_cursor) {
                r matches Ok(w) && w@ == WindowModel { operations: v, next_cursor }
            } else {
                r matches Err(Error::Protocol(m)) && m@ == non_advancing_text(
                    op@,
                    cursor,
                    next_cursor,
                )
            },
        },
{
    let parsed = match parse_operations(so) {
        Ok(p) => p,
        Err(e) => return Err(e),
    };
    if parsed.operations.len() != 0 && next_cursor <= cursor {
        return Err(Error::Protocol(non_advancing_message(op, cursor, next_cursor)));
    }
    Ok(Window { operations: parsed.operations, next_cursor })
}

/// The result of `checkIds` and `getIds`: the ids of the reply when its
/// status is 0; otherwise the call was rejected with that status and note.
pub fn ids_result(op: &'static str, status: u8, meta: &Option<Vec<u8>>, ids: Vec<u64>) -> (r:
    Result<Vec<u64>, Error>)
    ensures
        status == 0 ==> (r matches Ok(v) && v@ == ids@),
        status != 0 ==> (r matches Err(Error::Rejected { op: o, status: s, meta: m }) && o == op
            && s == status && m@ == meta_text(opt_bytes_view(*meta))),
{
    if status != 0 {
        return Err(Error::Rejected { op, status, meta: decode_meta(meta) });
    }
    Ok(ids)
}

/// A window that a store hands out and that keeps the shared contract
/// reaches the client unchanged: the backend sends the encoding of its
/// operations with its cursor (`window_reply`), and the client, reading
/// them at the same cursor (`window_result`), gets back exactly that window.
pub proof fn lemma_window_reaches_client(cursor: u64, w: WindowModel)
    requires
        cursor_advances(cursor, w.operations.len(), w.next_cursor),
    ensures
        decode_operations(encode_operations(w.operations)) == Ok::<
            Seq<OperationModel>,
            ParseFailure,
        >(w.operations),
        cursor_advances(cursor, encode_operations(w.operations).len(), w.next_cursor),
{
    lemma_fill_parse_roundtrip(w.operations);
}

/// The note that a backend puts in a status reply (`update_reply`) reaches
/// the client (`sync_result`) unchanged.
pub proof fn lemma_meta_reaches_client(m: Seq<char>)
    ensures
        meta_text(Some(encode_utf8(m))) == m,
{
    encode_utf8_valid_utf8(m);
    encode_utf8_decode_utf8(m);
}

} // verus!
