//! Backend side of the sync protocol: pluggable storage traits and a ready
//! `SyncService` handler.
//!
//! A backend implements [`ActionPool`] (pending operations) and [`Records`]
//! (its dataset) over its own storage; the handler then answers
//! `pull`/`ack`/`checkIds`/`dump`/`update`.

use std::sync::Arc;

use vstd::prelude::*;
use vstd::utf8::*;

use crate::client::{lemma_meta_reaches_client, meta_text};
use crate::error::{Error, is_message_of};
use crate::ops::{
    Operation,
    OperationModel,
    ParseFailure,
    SyncOperationsMsg,
    Window,
    cursor_advances,
    decode_operations,
    encode_operations,
    encode_text,
    fill_operations,
    lemma_fill_parse_roundtrip,
    non_advancing_message,
    non_advancing_text,
    operations_view,
    parse_operations,
};
use crate::text::utf8_error_of;
use crate::wire::{CheckIdsMsg, StatusMsg, WindowMsg};

verus! {

broadcast use vstd::seq::group_seq_axioms;

// ---------------------------------------------------------------------------
// Storage traits
// ---------------------------------------------------------------------------

/// The backend's pending action pool.
///
/// Contract: operations carry monotonic `seq` numbers (enqueue order);
/// `cursor` is the first unconfirmed seq (inclusive); [`Window::next_cursor`]
/// must be `last returned seq + 1` (or the input `cursor` when empty);
/// `ack(up_to)` deletes exactly `seq < up_to` — ops appended mid-sync get
/// higher seqs and are never deleted by an ack. Errors carry their message.
///
/// Each implementation may name, in `pull_post` and `ack_post`, what it
/// promises of an answer; the handler states its replies over them. An
/// implementation that names nothing keeps the defaults, which admit any
/// answer.
pub trait ActionPool: Send + Sync {
    /// Whether `r` is an answer this pool may give to `pull(limit, cursor)`.
    open spec fn pull_post(&self, limit: u32, cursor: u64, r: Result<Window, String>) -> bool {
        true
    }

    /// Whether `r` is an answer this pool may give to `ack(up_to)`.
    open spec fn ack_post(&self, up_to: u64, r: Result<(), String>) -> bool {
        true
    }

    fn pull(&self, limit: u32, cursor: u64) -> (r: Result<Window, String>)
        ensures
            self.pull_post(limit, cursor, r),
    ;

    fn ack(&self, up_to: u64) -> (r: Result<(), String>)
        ensures
            self.ack_post(up_to, r),
    ;
}

/// The backend's full dataset, used by the weekly full sync and by
/// distributed updates from the center.
///
/// Each implementation may name, in the `*_post` functions, what it
/// promises of an answer; the handler states its replies over them. An
/// implementation that names nothing keeps the defaults, which admit any
/// answer.
pub trait Records: Send + Sync {
    /// Whether `r` is an answer this store may give to `check_ids(ids)`.
    open spec fn check_ids_post(&self, ids: Seq<u64>, r: Result<Vec<u64>, String>) -> bool {
        true
    }

    /// Whether `r` is an answer this store may give to `dump(limit, cursor)`.
    open spec fn dump_post(&self, limit: u32, cursor: u64, r: Result<Window, String>) -> bool {
        true
    }

    /// Whether `r` is an answer this store may give to `apply` of `ops`.
    open spec fn apply_post(&self, ops: Seq<OperationModel>, r: Result<(), String>) -> bool {
        true
    }

    /// Which of the given ids the store does NOT have.
    fn check_ids(&self, ids: &[u64]) -> (r: Result<Vec<u64>, String>)
        ensures
            self.check_ids_post(ids@, r),
    ;

    /// Dump up to `limit` records starting at `cursor` (same window contract
    /// as [`ActionPool::pull`], but read-only — no ack).
    fn dump(&self, limit: u32, cursor: u64) -> (r: Result<Window, String>)
        ensures
            self.dump_post(limit, cursor, r),
    ;

    /// Apply operations pushed from the center (`update`): upsert edits by
    /// id, delete deletions. Must NOT re-enqueue into the pool (that would
    /// create a sync loop).
    fn apply(&self, ops: &[Operation]) -> (r: Result<(), String>)
        ensures
            self.apply_post(operations_view(ops@), r),
    ;
}

// ---------------------------------------------------------------------------
// Replies
// ---------------------------------------------------------------------------

/// Refuses a window that returns operations without moving the cursor; the
/// refusal names the call and both cursors.
pub fn guard_cursor(op: &str, cursor: u64, window: &Window) -> (r: Result<(), String>)
    ensures
        r is Ok <==> cursor_advances(cursor, window@.operations.len(), window.next_cursor),
        r is Ok <==> (window.operations.len() == 0 || window.next_cursor > cursor),
        r matches Err(m) ==> m@ == non_advancing_text(op@, cursor, window.next_cursor),
{
    if window.operations.len() != 0 && window.next_cursor <= cursor {
        return Err(non_advancing_message(op, cursor, window.next_cursor));
    }
    Ok(())
}

/// Whether `r` is the `update` result for the outcome `applied`: status 0
/// with no note on success; status 1 with the failure's text otherwise.
pub open spec fn update_reply_spec(applied: Result<(), String>, r: StatusMsg) -> bool {
    match applied {
        Ok(()) => r.status == 0 && r.meta@ == Seq::<u8>::empty(),
        Err(m) => r.status == 1 && r.meta@ == encode_utf8(m@),
    }
}

/// The `update` result for the outcome of applying the operations.
pub fn update_reply(applied: Result<(), String>) -> (r: StatusMsg)
    ensures
        update_reply_spec(applied, r),
{
    match applied {
        Ok(()) => StatusMsg { status: 0, meta: Vec::new() },
        Err(m) => StatusMsg { status: 1, meta: encode_text(&m) },
    }
}

/// Whether `r` is the `pull`/`dump` result `op` gives at `cursor` for what
/// the store returned: the store's failure as is, a refusal of a
/// non-advancing window, or the window's operations and cursor.
pub open spec fn window_reply_spec(
    op: Seq<char>,
    cursor: u64,
    fetched: Result<Window, String>,
    r: Result<WindowMsg, String>,
) -> bool {
    match fetched {
        Err(m) => r matches Err(m2) && m2@ == m@,
        Ok(w) => if cursor_advances(cursor, w@.operations.len(), w.next_cursor) {
            r matches Ok(msg) && msg.so@ == encode_operations(w@.operations) && msg.next_cursor
                == w.next_cursor
        } else {
            r matches Err(m) && m@ == non_advancing_text(op, cursor, w.next_cursor)
        },
    }
}

/// The `pull`/`dump` result for what the store returned at `cursor`.
pub fn window_reply(op: &str, cursor: u64, fetched: Result<Window, String>) -> (r: Result<
    WindowMsg,
    String,
>)
    ensures
        window_reply_spec(op@, cursor, fetched, r),
{
    match fetched {
        Err(m) => Err(m),
        Ok(w) => {
            match guard_cursor(op, cursor, &w) {
                Err(m) => Err(m),
                Ok(()) => {
                    let mut so = SyncOperationsMsg { operations: Vec::new() };
                    fill_operations(&mut so, w.operations.as_slice());
                    Ok(WindowMsg { so, next_cursor: w.next_cursor })
                },
            }
        },
    }
}

/// Whether `r` is the `ack` result for the pool's answer `acked`: status 0
/// with no note once the pool acknowledged, the pool's failure as is
/// otherwise.
pub open spec fn ack_reply_spec(acked: Result<(), String>, r: Result<StatusMsg, String>) -> bool {
    match acked {
        Ok(()) => r matches Ok(s) && s.status == 0 && s.meta@ == Seq::<u8>::empty(),
        Err(m) => r matches Err(m2) && m2@ == m@,
    }
}

/// The `ack` result for the pool's answer.
pub fn ack_reply(acked: Result<(), String>) -> (r: Result<StatusMsg, String>)
    ensures
        ack_reply_spec(acked, r),
{
    match acked {
        Ok(()) => Ok(StatusMsg { status: 0, meta: Vec::new() }),
        Err(m) => Err(m),
    }
}

/// Whether `r` is the `checkIds` result for the store's answer `checked`:
/// status 0, no note and the missing ids in the store's order, or the
/// store's failure as is.
pub open spec fn check_ids_reply_spec(
    checked: Result<Vec<u64>, String>,
    r: Result<CheckIdsMsg, String>,
) -> bool {
    match checked {
        Ok(missing) => r matches Ok(c) && c.result.status == 0 && c.result.meta@ == Seq::<
            u8,
        >::empty() && c.missing@ == missing@,
        Err(m) => r matches Err(m2) && m2@ == m@,
    }
}

/// The `checkIds` result for the store's answer.
pub fn check_ids_reply(checked: Result<Vec<u64>, String>) -> (r: Result<CheckIdsMsg, String>)
    ensures
        check_ids_reply_spec(checked, r),
{
    match checked {
        Ok(missing) => Ok(
            CheckIdsMsg { result: StatusMsg { status: 0, meta: Vec::new() }, missing },
        ),
        Err(m) => Err(m),
    }
}

// ---------------------------------------------------------------------------
// Handler
// ---------------------------------------------------------------------------

/// The ready `SyncService` handler over a pool and a records store.
pub struct SyncHandler<P: ActionPool + ?Sized = dyn ActionPool, R: Records + ?Sized = dyn Records> {
    pool: Arc<P>,
    records: Arc<R>,
}

impl<P: ActionPool + ?Sized, R: Records + ?Sized> Clone for SyncHandler<P, R> {
    fn clone(&self) -> (r: Self)
        ensures
            r.pool() == self.pool(),
            r.records() == self.records(),
    {
        SyncHandler { pool: Arc::clone(&self.pool), records: Arc::clone(&self.records) }
    }
}

impl<P: ActionPool + ?Sized, R: Records + ?Sized> SyncHandler<P, R> {
    pub closed spec fn pool(&self) -> Arc<P> {
        self.pool
    }

    pub closed spec fn records(&self) -> Arc<R> {
        self.records
    }

    pub fn new(pool: Arc<P>, records: Arc<R>) -> (r: Self)
        ensures
            r.pool() == pool,
            r.records() == records,
    {
        Self { pool, records }
    }

    /// `update`: apply the pushed operations to the records store. A message
    /// that does not parse fails the call with the parse error's text;
    /// otherwise the reply carries status 0, or status 1 and the store's
    /// message.
    pub fn update(&self, so: &SyncOperationsMsg) -> (r: Result<StatusMsg, String>)
        ensures
            match decode_operations(so@) {
                Ok(v) => r matches Ok(s) && exists|a: Result<(), String>|
                    #[trigger] self.records().apply_post(v, a) && update_reply_spec(a, s),
                Err(ParseFailure::InvalidText(t)) => r matches Err(m) && is_message_of(
                    Error::Utf8(utf8_error_of(t)),
                    m@,
                ),
                Err(ParseFailure::NotInSchema(d)) => r matches Err(m) && is_message_of(
                    Error::NotInSchema(d),
                    m@,
                ),
                Err(ParseFailure::Unreadable(t)) => r matches Err(m) && m@ == "rpc: "@ + t,
            },
    {
        let ops = match parse_operations(so) {
            Ok(ops) => ops,
            Err(e) => {
                let m = e.message();
                return Err(m);
            },
        };
        let applied = self.records.apply(ops.operations.as_slice());
        let ghost a = applied;
        let reply = update_reply(applied);
        assert(self.records().apply_post(operations_view(ops.operations@), a));
        Ok(reply)
    }

    /// `pull`: a window of the pool from `cursor`. Whatever the pool returns,
    /// a reply window moves the cursor forward and parses back.
    pub fn pull(&self, limit: u32, cursor: u64) -> (r: Result<WindowMsg, String>)
        ensures
            exists|f: Result<Window, String>|
                #[trigger] self.pool().pull_post(limit, cursor, f) && window_reply_spec(
                    "pull"@,
                    cursor,
                    f,
                    r,
                ),
            r matches Ok(w) ==> cursor_advances(cursor, w.so@.len(), w.next_cursor) && decode_operations(
                w.so@,
            ) is Ok,
    {
        let fetched = self.pool.pull(limit, cursor);
        let ghost f = fetched;
        let r = window_reply("pull", cursor, fetched);
        proof {
            if let Ok(w) = f {
                lemma_fill_parse_roundtrip(w@.operations);
            }
            assert(self.pool().pull_post(limit, cursor, f));
        }
        r
    }

    /// `ack`: the pool drops everything below `up_to`.
    pub fn ack(&self, up_to: u64) -> (r: Result<StatusMsg, String>)
        ensures
            exists|a: Result<(), String>|
                #[trigger] self.pool().ack_post(up_to, a) && ack_reply_spec(a, r),
    {
        let acked = self.pool.ack(up_to);
        let ghost a = acked;
        let r = ack_reply(acked);
        assert(self.pool().ack_post(up_to, a));
        r
    }

    /// `checkIds`: which of `ids` the records store lacks.
    pub fn check_ids(&self, ids: &[u64]) -> (r: Result<CheckIdsMsg, String>)
        ensures
            exists|c: Result<Vec<u64>, String>|
                #[trigger] self.records().check_ids_post(ids@, c) && check_ids_reply_spec(c, r),
    {
        let checked = self.records.check_ids(ids);
        let ghost c = checked;
        let r = check_ids_reply(checked);
        assert(self.records().check_ids_post(ids@, c));
        r
    }

    /// `dump`: a read-only window of the records store from `cursor`.
    pub fn dump(&self, limit: u32, cursor: u64) -> (r: Result<WindowMsg, String>)
        ensures
            exists|f: Result<Window, String>|
                #[trigger] self.records().dump_post(limit, cursor, f) && window_reply_spec(
                    "dump"@,
                    cursor,
                    f,
                    r,
                ),
            r matches Ok(w) ==> cursor_advances(cursor, w.so@.len(), w.next_cursor) && decode_operations(
                w.so@,
            ) is Ok,
    {
        let fetched = self.records.dump(limit, cursor);
        let ghost f = fetched;
        let r = window_reply("dump", cursor, fetched);
        proof {
            if let Ok(w) = f {
                lemma_fill_parse_roundtrip(w@.operations);
            }
            assert(self.records().dump_post(limit, cursor, f));
        }
        r
    }
}

// ---------------------------------------------------------------------------
// Laws of the replies
// ---------------------------------------------------------------------------

/// The window guard refuses exactly the windows that return operations
/// without moving the cursor. A window whose next cursor lies past the
/// cursor is served whatever its number of operations (gaps in the sequence
/// numbers included), with its own next cursor and its operations encoded;
/// an empty window is always served; a window with operations whose next
/// cursor is at or before the cursor is refused.
pub proof fn lemma_window_guard(op: Seq<char>, cursor: u64, w: Window, r: Result<WindowMsg, String>)
    requires
        window_reply_spec(op, cursor, Ok(w), r),
    ensures
        w.next_cursor > cursor ==> (r matches Ok(msg) && msg.next_cursor == w.next_cursor
            && msg.so@ == encode_operations(w@.operations)),
        w.operations.len() == 0 ==> r is Ok,
        w.operations.len() > 0 && w.next_cursor <= cursor ==> r is Err,
{
}

/// A store's successful check always reaches the client as a success: the
/// reply has status 0, no note and exactly the store's missing ids, for
/// every list the store gives, the empty one included.
pub proof fn lemma_check_ids_success(missing: Vec<u64>, r: Result<CheckIdsMsg, String>)
    requires
        check_ids_reply_spec(Ok(missing), r),
    ensures
        r matches Ok(c) && c.result.status == 0 && c.result.meta@.len() == 0 && c.missing@
            == missing@,
{
}

/// An update is reported as a success exactly when the store applied it: a
/// failed apply, whatever its message, gets status 1 and carries the
/// message, which the client reads back unchanged; a successful apply gets
/// status 0 and no note.
pub proof fn lemma_update_status(applied: Result<(), String>, r: StatusMsg)
    requires
        update_reply_spec(applied, r),
    ensures
        applied is Ok <==> r.status == 0,
        applied is Err ==> r.status == 1 && meta_text(Some(r.meta@)) == applied->Err_0@,
        applied is Ok ==> meta_text(Some(r.meta@)).len() == 0,
{
    match applied {
        Ok(()) => {
            assert(valid_utf8(Seq::<u8>::empty()));
            assert(decode_utf8(Seq::<u8>::empty()) =~= Seq::<char>::empty());
        },
        Err(m) => lemma_meta_reaches_client(m@),
    }
}

} // verus!
