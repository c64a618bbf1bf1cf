//! Domain model for synced operations, the contents of their wire messages,
//! and the conversions between the two.
//!
//! Content-type agnostic: new content types extend [`Operation`] with new
//! variants (and the wire message with matching union arms).

use vstd::prelude::*;
use vstd::utf8::*;

use crate::error::Error;
use crate::text::{decimal, text_to_string, u64_to_decimal, utf8_error_of};
use vstd::string::*;

verus! {

broadcast use vstd::seq::group_seq_axioms;

// ---------------------------------------------------------------------------
// Domain model
// ---------------------------------------------------------------------------

#[derive(Debug, Clone)]
pub struct Team {
    pub id: u64,
    pub name: String,
    pub alt_names: Vec<String>,
    pub avatar: Vec<u8>,
    pub banner: Vec<u8>,
}

#[derive(Debug, Clone)]
pub struct Credit {
    pub id: u64,
    pub name: String,
    pub alt_names: Vec<String>,
    pub avatar: Vec<u8>,
    pub banner: Vec<u8>,
}

#[derive(Debug, Clone)]
pub enum Operation {
    EditTeam(Team),
    DelTeam(u64),
    EditCredit(Credit),
    DelCredit(u64),
}

#[derive(Debug, Clone, Default)]
pub struct SyncOperations {
    pub operations: Vec<Operation>,
}

/// One bounded window over a pool (`pull`) or a records store (`dump`).
///
/// `next_cursor` follows the shared contract: it is the cursor to pass back
/// on the next call (and as `up_to` to an `ack`).
#[derive(Debug, Clone)]
pub struct Window {
    pub operations: Vec<Operation>,
    pub next_cursor: u64,
}

/// A team or credit record as mathematical values.
pub struct EntityModel {
    pub id: u64,
    pub name: Seq<char>,
    pub alt_names: Seq<Seq<char>>,
    pub avatar: Seq<u8>,
    pub banner: Seq<u8>,
}

/// An operation as mathematical values.
pub enum OperationModel {
    EditTeam(EntityModel),
    DelTeam(u64),
    EditCredit(EntityModel),
    DelCredit(u64),
}

/// A window as mathematical values.
pub struct WindowModel {
    pub operations: Seq<OperationModel>,
    pub next_cursor: u64,
}

pub open spec fn strings_view(v: Seq<String>) -> Seq<Seq<char>> {
    v.map_values(|s: String| s@)
}

pub open spec fn operations_view(v: Seq<Operation>) -> Seq<OperationModel> {
    v.map_values(|o: Operation| o@)
}

impl View for Team {
    type V = EntityModel;

    open spec fn view(&self) -> EntityModel {
        EntityModel {
            id: self.id,
            name: self.name@,
            alt_names: strings_view(self.alt_names@),
            avatar: self.avatar@,
            banner: self.banner@,
        }
    }
}

impl View for Credit {
    type V = EntityModel;

    open spec fn view(&self) -> EntityModel {
        EntityModel {
            id: self.id,
            name: self.name@,
            alt_names: strings_view(self.alt_names@),
            avatar: self.avatar@,
            banner: self.banner@,
        }
    }
}

impl View for Operation {
    type V = OperationModel;

    open spec fn view(&self) -> OperationModel {
        match self {
            Operation::EditTeam(t) => OperationModel::EditTeam(t@),
            Operation::DelTeam(id) => OperationModel::DelTeam(*id),
            Operation::EditCredit(c) => OperationModel::EditCredit(c@),
            Operation::DelCredit(id) => OperationModel::DelCredit(*id),
        }
    }
}

impl View for SyncOperations {
    type V = Seq<OperationModel>;

    open spec fn view(&self) -> Seq<OperationModel> {
        operations_view(self.operations@)
    }
}

impl View for Window {
    type V = WindowModel;

    open spec fn view(&self) -> WindowModel {
        WindowModel { operations: operations_view(self.operations@), next_cursor: self.next_cursor }
    }
}

/// The shared window contract, as far as a peer can check it: a window that
/// returns operations must move the cursor forward.
pub open spec fn cursor_advances(cursor: u64, n_ops: nat, next_cursor: u64) -> bool {
    n_ops == 0 || next_cursor > cursor
}

/// The text that reports a window which breaks [`cursor_advances`].
pub open spec fn non_advancing_text(op: Seq<char>, cursor: u64, next_cursor: u64) -> Seq<char> {
    op + ": non-advancing cursor "@ + decimal(cursor as nat) + " -> "@ + decimal(
        next_cursor as nat,
    )
}

/// Renders [`non_advancing_text`].
pub fn non_advancing_message(op: &str, cursor: u64, next_cursor: u64) -> (m: String)
    ensures
        m@ == non_advancing_text(op@, cursor, next_cursor),
{
    let c = u64_to_decimal(cursor);
    let n = u64_to_decimal(next_cursor);
    let mut m = String::from_str(op);
    m.append(": non-advancing cursor ");
    m.append(c.as_str());
    m.append(" -> ");
    m.append(n.as_str());
    m
}

impl SyncOperations {
    pub fn is_empty(&self) -> (r: bool)
        ensures
            r == (self@.len() == 0),
    {
        self.operations.len() == 0
    }
}

// ---------------------------------------------------------------------------
// Wire contents
// ---------------------------------------------------------------------------

/// The fields of a `Team` or `Credit` struct of the wire schema, as the
/// message carries them: text fields are raw bytes that should, but need
/// not, be UTF-8.
#[derive(Debug, Clone)]
pub struct EntityMsg {
    pub id: u64,
    pub name: Vec<u8>,
    pub alt_names: Vec<Vec<u8>>,
    pub avatar: Vec<u8>,
    pub banner: Vec<u8>,
}

/// One `Operation` union of the wire schema. `Unknown` stands for a union
/// discriminant that the schema does not define. `Unreadable` stands for an
/// operation whose reading broke off at a broken pointer: `read_texts` are
/// the text fields read before the break, in reading order (alternative
/// names, then the name), and `error` is the reader's error as it renders
/// itself. A message whose reading broke off ends with `Unreadable`.
#[derive(Debug, Clone)]
pub enum OperationMsg {
    EditTeam(EntityMsg),
    DelTeam(u64),
    EditCredit(EntityMsg),
    DelCredit(u64),
    Unknown(u16),
    Unreadable { read_texts: Vec<Vec<u8>>, error: String },
}

/// The `SyncOperations` struct of the wire schema.
#[derive(Debug, Clone, Default)]
pub struct SyncOperationsMsg {
    pub operations: Vec<OperationMsg>,
}

pub struct EntityMsgModel {
    pub id: u64,
    pub name: Seq<u8>,
    pub alt_names: Seq<Seq<u8>>,
    pub avatar: Seq<u8>,
    pub banner: Seq<u8>,
}

pub enum OperationMsgModel {
    EditTeam(EntityMsgModel),
    DelTeam(u64),
    EditCredit(EntityMsgModel),
    DelCredit(u64),
    Unknown(u16),
    Unreadable(Seq<Seq<u8>>, Seq<char>),
}

pub open spec fn bytes_view(v: Seq<Vec<u8>>) -> Seq<Seq<u8>> {
    v.map_values(|b: Vec<u8>| b@)
}

pub open spec fn operation_msgs_view(v: Seq<OperationMsg>) -> Seq<OperationMsgModel> {
    v.map_values(|o: OperationMsg| o@)
}

impl View for EntityMsg {
    type V = EntityMsgModel;

    open spec fn view(&self) -> EntityMsgModel {
        EntityMsgModel {
            id: self.id,
            name: self.name@,
            alt_names: bytes_view(self.alt_names@),
            avatar: self.avatar@,
            banner: self.banner@,
        }
    }
}

impl View for OperationMsg {
    type V = OperationMsgModel;

    open spec fn view(&self) -> OperationMsgModel {
        match self {
            OperationMsg::EditTeam(e) => OperationMsgModel::EditTeam(e@),
            OperationMsg::DelTeam(id) => OperationMsgModel::DelTeam(*id),
            OperationMsg::EditCredit(e) => OperationMsgModel::EditCredit(e@),
            OperationMsg::DelCredit(id) => OperationMsgModel::DelCredit(*id),
            OperationMsg::Unknown(d) => OperationMsgModel::Unknown(*d),
            OperationMsg::Unreadable { read_texts, error } => OperationMsgModel::Unreadable(
                bytes_view(read_texts@),
                error@,
            ),
        }
    }
}

impl View for SyncOperationsMsg {
    type V = Seq<OperationMsgModel>;

    open spec fn view(&self) -> Seq<OperationMsgModel> {
        operation_msgs_view(self.operations@)
    }
}

// ---------------------------------------------------------------------------
// Encoding: domain -> wire
// ---------------------------------------------------------------------------

pub open spec fn encode_texts(texts: Seq<Seq<char>>) -> Seq<Seq<u8>> {
    texts.map_values(|t: Seq<char>| encode_utf8(t))
}

pub open spec fn encode_entity(e: EntityModel) -> EntityMsgModel {
    EntityMsgModel {
        id: e.id,
        name: encode_utf8(e.name),
        alt_names: encode_texts(e.alt_names),
        avatar: e.avatar,
        banner: e.banner,
    }
}

pub open spec fn encode_operation(op: OperationModel) -> OperationMsgModel {
    match op {
        OperationModel::EditTeam(e) => OperationMsgModel::EditTeam(encode_entity(e)),
        OperationModel::DelTeam(id) => OperationMsgModel::DelTeam(id),
        OperationModel::EditCredit(e) => OperationMsgModel::EditCredit(encode_entity(e)),
        OperationModel::DelCredit(id) => OperationMsgModel::DelCredit(id),
    }
}

/// The wire contents that carry `ops`, in the same order.
pub open spec fn encode_operations(ops: Seq<OperationModel>) -> Seq<OperationMsgModel> {
    ops.map_values(|o: OperationModel| encode_operation(o))
}

fn copy_bytes(v: &Vec<u8>) -> (r: Vec<u8>)
    ensures
        r@ == v@,
{
    vstd::slice::slice_to_vec(v.as_slice())
}

pub(crate) fn encode_text(s: &String) -> (r: Vec<u8>)
    ensures
        r@ == encode_utf8(s@),
{
    vstd::slice::slice_to_vec(s.as_str().as_bytes())
}

fn encode_entity_fields(
    id: u64,
    name: &String,
    alt_names: &Vec<String>,
    avatar: &Vec<u8>,
    banner: &Vec<u8>,
) -> (r: EntityMsg)
    ensures
        r@ == encode_entity(
            EntityModel {
                id,
                name: name@,
                alt_names: strings_view(alt_names@),
                avatar: avatar@,
                banner: banner@,
            },
        ),
{
    let mut alt: Vec<Vec<u8>> = Vec::new();
    let mut j: usize = 0;
    while j < alt_names.len()
        invariant
            j <= alt_names.len(),
            alt.len() == j,
            bytes_view(alt@) =~= encode_texts(strings_view(alt_names@)).take(j as int),
        decreases alt_names.len() - j,
    {
        let ghost prev = alt@;
        let e = encode_text(&alt_names[j]);
        alt.push(e);
        assert(strings_view(alt_names@)[j as int] == alt_names@[j as int]@);
        assert forall|k: int| 0 <= k < j implies bytes_view(alt@)[k] == bytes_view(prev)[k] by {
            assert(alt@[k] == prev[k]);
        }
        assert(bytes_view(alt@) =~= encode_texts(strings_view(alt_names@)).take(j + 1));
        j = j + 1;
    }
    assert(encode_texts(strings_view(alt_names@)).take(j as int) =~= encode_texts(
        strings_view(alt_names@),
    ));
    EntityMsg {
        id,
        name: encode_text(name),
        alt_names: alt,
        avatar: copy_bytes(avatar),
        banner: copy_bytes(banner),
    }
}

fn encode_operation_msg(op: &Operation) -> (r: OperationMsg)
    ensures
        r@ == encode_operation(op@),
{
    match op {
        Operation::EditTeam(t) => OperationMsg::EditTeam(
            encode_entity_fields(t.id, &t.name, &t.alt_names, &t.avatar, &t.banner),
        ),
        Operation::DelTeam(id) => OperationMsg::DelTeam(*id),
        Operation::EditCredit(c) => OperationMsg::EditCredit(
            encode_entity_fields(c.id, &c.name, &c.alt_names, &c.avatar, &c.banner),
        ),
        Operation::DelCredit(id) => OperationMsg::DelCredit(*id),
    }
}

/// Fill a `SyncOperations` message from a slice of operations: the message
/// then holds exactly `ops`, in order, with text UTF-8 encoded.
pub fn fill_operations(builder: &mut SyncOperationsMsg, ops: &[Operation])
    ensures
        final(builder)@ == encode_operations(operations_view(ops@)),
        final(builder)@.len() == ops@.len(),
        forall|i: int|
            0 <= i < ops@.len() ==> operation_corresponds(
                #[trigger] operations_view(ops@)[i],
                final(builder)@[i],
                false,
            ),
{
    proof {
        lemma_encoding_is_fieldwise(operations_view(ops@));
    }
    let mut list: Vec<OperationMsg> = Vec::new();
    let mut i: usize = 0;
    while i < ops.len()
        invariant
            i <= ops.len(),
            list.len() == i,
            operation_msgs_view(list@) =~= encode_operations(operations_view(ops@)).take(i as int),
        decreases ops.len() - i,
    {
        let ghost prev = list@;
        let m = encode_operation_msg(&ops[i]);
        list.push(m);
        assert(operations_view(ops@)[i as int] == ops@[i as int]@);
        assert forall|k: int| 0 <= k < i implies operation_msgs_view(list@)[k]
            == operation_msgs_view(prev)[k] by {
            assert(list@[k] == prev[k]);
        }
        assert(operation_msgs_view(list@) =~= encode_operations(operations_view(ops@)).take(
            i + 1,
        ));
        i = i + 1;
    }
    assert(encode_operations(operations_view(ops@)).take(i as int) =~= encode_operations(
        operations_view(ops@),
    ));
    builder.operations = list;
}


// ---------------------------------------------------------------------------
// Decoding: wire -> domain
// ---------------------------------------------------------------------------

/// Why wire contents do not decode.
pub enum ParseFailure {
    /// A text field is not UTF-8: the first such, in reading order.
    InvalidText(Seq<u8>),
    /// A union discriminant that the schema does not define.
    NotInSchema(u16),
    /// An operation that could not be read, with the reader's error text.
    Unreadable(Seq<char>),
}

pub open spec fn texts_valid(texts: Seq<Seq<u8>>) -> bool {
    forall|i: int| 0 <= i < texts.len() ==> valid_utf8(#[trigger] texts[i])
}

pub open spec fn entity_valid(m: EntityMsgModel) -> bool {
    valid_utf8(m.name) && texts_valid(m.alt_names)
}

/// The text fields of an entity in the order they are read: the
/// alternative names, then the name.
pub open spec fn entity_texts(m: EntityMsgModel) -> Seq<Seq<u8>> {
    m.alt_names.push(m.name)
}

/// The first text, front to back, that is not UTF-8.
pub open spec fn first_invalid_text(texts: Seq<Seq<u8>>) -> Option<Seq<u8>>
    decreases texts.len(),
{
    if texts.len() == 0 {
        None
    } else {
        match first_invalid_text(texts.drop_last()) {
            Some(b) => Some(b),
            None => if valid_utf8(texts.last()) {
                None
            } else {
                Some(texts.last())
            },
        }
    }
}

proof fn lemma_first_invalid_none(texts: Seq<Seq<u8>>)
    ensures
        first_invalid_text(texts) is None <==> texts_valid(texts),
    decreases texts.len(),
{
    if texts.len() > 0 {
        lemma_first_invalid_none(texts.drop_last());
        if texts_valid(texts) {
            assert(texts_valid(texts.drop_last())) by {
                assert forall|i: int| 0 <= i < texts.drop_last().len() implies valid_utf8(
                    #[trigger] texts.drop_last()[i],
                ) by {
                    assert(texts.drop_last()[i] == texts[i]);
                }
            }
            assert(valid_utf8(texts[texts.len() - 1]));
        }
        if first_invalid_text(texts) is None {
            assert forall|i: int| 0 <= i < texts.len() implies valid_utf8(#[trigger] texts[i]) by {
                if i < texts.len() - 1 {
                    assert(texts[i] == texts.drop_last()[i]);
                }
            }
        }
    }
}

proof fn lemma_first_invalid_sticks(texts: Seq<Seq<u8>>, i: int)
    requires
        0 <= i <= texts.len(),
        first_invalid_text(texts.take(i)) is Some,
    ensures
        first_invalid_text(texts) == first_invalid_text(texts.take(i)),
    decreases texts.len() - i,
{
    if i < texts.len() {
        assert(texts.take(i + 1).drop_last() =~= texts.take(i));
        lemma_first_invalid_sticks(texts, i + 1);
    } else {
        assert(texts.take(i) =~= texts);
    }
}

proof fn lemma_entity_texts(m: EntityMsgModel)
    ensures
        first_invalid_text(entity_texts(m)) is None <==> entity_valid(m),
        first_invalid_text(m.alt_names) is None <==> texts_valid(m.alt_names),
        first_invalid_text(m.alt_names) is Some ==> first_invalid_text(entity_texts(m))
            == first_invalid_text(m.alt_names),
        first_invalid_text(m.alt_names) is None && !valid_utf8(m.name) ==> first_invalid_text(
            entity_texts(m),
        ) == Some(m.name),
{
    assert(entity_texts(m).drop_last() =~= m.alt_names);
    lemma_first_invalid_none(m.alt_names);
}

/// How a text-bearing operation fails, if it does.
pub open spec fn text_failure(texts: Seq<Seq<u8>>) -> Option<ParseFailure> {
    match first_invalid_text(texts) {
        Some(b) => Some(ParseFailure::InvalidText(b)),
        None => None,
    }
}

pub open spec fn decode_texts(texts: Seq<Seq<u8>>) -> Seq<Seq<char>> {
    texts.map_values(|t: Seq<u8>| decode_utf8(t))
}

pub open spec fn decode_entity(m: EntityMsgModel) -> EntityModel {
    EntityModel {
        id: m.id,
        name: decode_utf8(m.name),
        alt_names: decode_texts(m.alt_names),
        avatar: m.avatar,
        banner: m.banner,
    }
}

/// Why a single wire operation does not decode, if it does not.
pub open spec fn operation_failure(m: OperationMsgModel) -> Option<ParseFailure> {
    match m {
        OperationMsgModel::EditTeam(e) => text_failure(entity_texts(e)),
        OperationMsgModel::EditCredit(e) => text_failure(entity_texts(e)),
        OperationMsgModel::Unknown(d) => Some(ParseFailure::NotInSchema(d)),
        OperationMsgModel::Unreadable(ts, t) => match text_failure(ts) {
            Some(f) => Some(f),
            None => Some(ParseFailure::Unreadable(t)),
        },
        _ => None,
    }
}

/// The operation that a wire operation decodes to (meaningful when
/// `operation_failure(m)` is `None`).
pub open spec fn decode_operation(m: OperationMsgModel) -> OperationModel {
    match m {
        OperationMsgModel::EditTeam(e) => OperationModel::EditTeam(decode_entity(e)),
        OperationMsgModel::DelTeam(id) => OperationModel::DelTeam(id),
        OperationMsgModel::EditCredit(e) => OperationModel::EditCredit(decode_entity(e)),
        OperationMsgModel::DelCredit(id) => OperationModel::DelCredit(id),
        OperationMsgModel::Unknown(_) => OperationModel::DelTeam(0),
        OperationMsgModel::Unreadable(_, _) => OperationModel::DelTeam(0),
    }
}

/// Decoding of a whole operation list, front to back: the first operation
/// that does not decode decides the failure.
pub open spec fn decode_operations(ms: Seq<OperationMsgModel>) -> Result<
    Seq<OperationModel>,
    ParseFailure,
>
    decreases ms.len(),
{
    if ms.len() == 0 {
        Ok(Seq::empty())
    } else {
        match decode_operations(ms.drop_last()) {
            Err(f) => Err(f),
            Ok(prefix) => match operation_failure(ms.last()) {
                Some(f) => Err(f),
                None => Ok(prefix.push(decode_operation(ms.last()))),
            },
        }
    }
}

/// Once a prefix fails to decode, every longer list fails the same way.
proof fn lemma_decode_failure_sticks(ms: Seq<OperationMsgModel>, i: int)
    requires
        0 <= i <= ms.len(),
        decode_operations(ms.take(i)) is Err,
    ensures
        decode_operations(ms) == decode_operations(ms.take(i)),
    decreases ms.len() - i,
{
    if i < ms.len() {
        assert(ms.take(i + 1).drop_last() =~= ms.take(i));
        lemma_decode_failure_sticks(ms, i + 1);
    } else {
        assert(ms.take(i) =~= ms);
    }
}

/// Whether `e` is the error that reports the decoding failure `f`.
pub open spec fn parse_error_matches(e: Error, f: ParseFailure) -> bool {
    match f {
        ParseFailure::InvalidText(b) => e == Error::Utf8(utf8_error_of(b)),
        ParseFailure::NotInSchema(d) => e == Error::NotInSchema(d),
        ParseFailure::Unreadable(t) => e matches Error::Rpc(d) && d@ == t,
    }
}

/// Whether `r` is the outcome of parsing wire contents that decode to
/// `expected`.
pub open spec fn parse_result_matches(
    r: Result<SyncOperations, Error>,
    expected: Result<Seq<OperationModel>, ParseFailure>,
) -> bool {
    match expected {
        Ok(v) => r matches Ok(s) && s@ == v,
        Err(f) => r matches Err(e) && parse_error_matches(e, f),
    }
}

fn parse_texts(texts: &Vec<Vec<u8>>) -> (r: Result<Vec<String>, core::str::Utf8Error>)
    ensures
        match first_invalid_text(bytes_view(texts@)) {
            None => r matches Ok(v) && strings_view(v@) == decode_texts(bytes_view(texts@)),
            Some(b) => r == Err::<Vec<String>, core::str::Utf8Error>(utf8_error_of(b)),
        },
{
    let ghost ts = bytes_view(texts@);
    let mut out: Vec<String> = Vec::new();
    let mut j: usize = 0;
    assert(ts.take(0) =~= Seq::<Seq<u8>>::empty());
    while j < texts.len()
        invariant
            ts == bytes_view(texts@),
            j <= texts.len(),
            out.len() == j,
            first_invalid_text(ts.take(j as int)) is None,
            strings_view(out@) =~= decode_texts(ts).take(j as int),
        decreases texts.len() - j,
    {
        assert(ts[j as int] == texts@[j as int]@);
        assert(ts.take(j + 1).drop_last() =~= ts.take(j as int));
        assert(ts.take(j + 1).last() == ts[j as int]);
        match text_to_string(texts[j].as_slice()) {
            Ok(s) => {
                let ghost prev = out@;
                out.push(s);
                assert forall|k: int| 0 <= k < j implies strings_view(out@)[k]
                    == strings_view(prev)[k] by {
                    assert(out@[k] == prev[k]);
                }
                assert(strings_view(out@) =~= decode_texts(ts).take(j + 1));
            },
            Err(e) => {
                proof {
                    lemma_first_invalid_sticks(ts, j + 1);
                }
                return Err(e);
            },
        }
        j = j + 1;
    }
    assert(decode_texts(ts).take(j as int) =~= decode_texts(ts));
    assert(ts.take(j as int) =~= ts);
    Ok(out)
}

fn parse_entity(m: &EntityMsg) -> (r: Result<(String, Vec<String>), core::str::Utf8Error>)
    ensures
        match first_invalid_text(entity_texts(m@)) {
            None => r matches Ok((n, a)) && n@ == decode_utf8(m@.name) && strings_view(a@)
                == decode_texts(m@.alt_names),
            Some(b) => r matches Err(e) && e == utf8_error_of(b),
        },
        r is Ok <==> entity_valid(m@),
{
    proof {
        lemma_entity_texts(m@);
    }
    let alt_names = match parse_texts(&m.alt_names) {
        Ok(a) => a,
        Err(e) => return Err(e),
    };
    let name = match text_to_string(m.name.as_slice()) {
        Ok(n) => n,
        Err(e) => return Err(e),
    };
    Ok((name, alt_names))
}

fn parse_team(m: &EntityMsg) -> (r: Result<Team, core::str::Utf8Error>)
    ensures
        match first_invalid_text(entity_texts(m@)) {
            None => r matches Ok(t) && t@ == decode_entity(m@),
            Some(b) => r matches Err(e) && e == utf8_error_of(b),
        },
{
    match parse_entity(m) {
        Ok((name, alt_names)) => Ok(
            Team {
                id: m.id,
                name,
                alt_names,
                avatar: copy_bytes(&m.avatar),
                banner: copy_bytes(&m.banner),
            },
        ),
        Err(e) => Err(e),
    }
}

fn parse_credit(m: &EntityMsg) -> (r: Result<Credit, core::str::Utf8Error>)
    ensures
        match first_invalid_text(entity_texts(m@)) {
            None => r matches Ok(c) && c@ == decode_entity(m@),
            Some(b) => r matches Err(e) && e == utf8_error_of(b),
        },
{
    match parse_entity(m) {
        Ok((name, alt_names)) => Ok(
            Credit {
                id: m.id,
                name,
                alt_names,
                avatar: copy_bytes(&m.avatar),
                banner: copy_bytes(&m.banner),
            },
        ),
        Err(e) => Err(e),
    }
}

/// Parse a `SyncOperations` message into the domain model. It succeeds
/// exactly when every operation was read, every text field is UTF-8 and
/// every union arm is in the schema; otherwise the first operation that
/// fails decides the error.
pub fn parse_operations(so: &SyncOperationsMsg) -> (r: Result<SyncOperations, Error>)
    ensures
        parse_result_matches(r, decode_operations(so@)),
        r matches Ok(s) ==> s@.len() == so@.len() && forall|i: int|
            0 <= i < so@.len() ==> operation_corresponds(#[trigger] s@[i], so@[i], true),
{
    proof {
        if decode_operations(so@) is Ok {
            lemma_decoding_is_fieldwise(so@);
        }
    }
    let ghost ms = so@;
    let mut operations: Vec<Operation> = Vec::new();
    let mut i: usize = 0;
    assert(ms.take(0) =~= Seq::<OperationMsgModel>::empty());
    assert(operations_view(operations@) =~= Seq::<OperationModel>::empty());
    while i < so.operations.len()
        invariant
            ms == so@,
            i <= so.operations.len(),
            operations.len() == i,
            decode_operations(ms.take(i as int)) == Ok::<Seq<OperationModel>, ParseFailure>(
                operations_view(operations@),
            ),
        decreases so.operations.len() - i,
    {
        let ghost prefix = operations_view(operations@);
        assert(ms.take(i + 1).drop_last() =~= ms.take(i as int));
        assert(ms.take(i + 1).last() == so.operations@[i as int]@);
        let op = match &so.operations[i] {
            OperationMsg::EditTeam(m) => match parse_team(m) {
                Ok(t) => Operation::EditTeam(t),
                Err(e) => {
                    proof {
                        lemma_decode_failure_sticks(ms, i + 1);
                    }
                    return Err(Error::Utf8(e));
                },
            },
            OperationMsg::DelTeam(id) => Operation::DelTeam(*id),
            OperationMsg::EditCredit(m) => match parse_credit(m) {
                Ok(c) => Operation::EditCredit(c),
                Err(e) => {
                    proof {
                        lemma_decode_failure_sticks(ms, i + 1);
                    }
                    return Err(Error::Utf8(e));
                },
            },
            OperationMsg::DelCredit(id) => Operation::DelCredit(*id),
            OperationMsg::Unknown(d) => {
                proof {
                    lemma_decode_failure_sticks(ms, i + 1);
                }
                return Err(Error::NotInSchema(*d));
            },
            OperationMsg::Unreadable { read_texts, error } => {
                proof {
                    lemma_decode_failure_sticks(ms, i + 1);
                }
                match parse_texts(read_texts) {
                    Err(e) => return Err(Error::Utf8(e)),
                    Ok(_) => return Err(Error::Rpc(error.clone())),
                }
            },
        };
        let ghost prev = operations@;
        operations.push(op);
        assert forall|k: int| 0 <= k < i implies operations_view(operations@)[k]
            == operations_view(prev)[k] by {
            assert(operations@[k] == prev[k]);
        }
        assert(operations_view(operations@) =~= prefix.push(decode_operation(ms[i as int])));
        i = i + 1;
    }
    assert(ms.take(i as int) =~= ms);
    Ok(SyncOperations { operations })
}


// ---------------------------------------------------------------------------
// Laws
// ---------------------------------------------------------------------------

proof fn lemma_entity_roundtrip(e: EntityModel)
    ensures
        entity_valid(encode_entity(e)),
        decode_entity(encode_entity(e)) == e,
{
    broadcast use vstd::utf8::group_utf8_lib;

    let m = encode_entity(e);
    assert forall|i: int| 0 <= i < m.alt_names.len() implies valid_utf8(
        #[trigger] m.alt_names[i],
    ) by {
        assert(m.alt_names[i] == encode_utf8(e.alt_names[i]));
    }
    assert(decode_texts(m.alt_names) =~= e.alt_names);
}

proof fn lemma_entity_reencode(m: EntityMsgModel)
    requires
        entity_valid(m),
    ensures
        encode_entity(decode_entity(m)) == m,
{
    broadcast use vstd::utf8::group_utf8_lib;

    assert forall|i: int| 0 <= i < m.alt_names.len() implies #[trigger] encode_texts(
        decode_texts(m.alt_names),
    )[i] == m.alt_names[i] by {
        assert(valid_utf8(m.alt_names[i]));
    }
    assert(encode_texts(decode_texts(m.alt_names)) =~= m.alt_names);
}

/// What `fill_operations` writes, `parse_operations` reads back: decoding the
/// encoding of any operation list succeeds and gives the same list.
pub proof fn lemma_fill_parse_roundtrip(ops: Seq<OperationModel>)
    ensures
        decode_operations(encode_operations(ops)) == Ok::<Seq<OperationModel>, ParseFailure>(ops),
    decreases ops.len(),
{
    if ops.len() > 0 {
        let ms = encode_operations(ops);
        assert(ms.drop_last() =~= encode_operations(ops.drop_last()));
        lemma_fill_parse_roundtrip(ops.drop_last());
        let o = ops.last();
        match o {
            OperationModel::EditTeam(e) => {
                lemma_entity_roundtrip(e);
                lemma_entity_texts(encode_entity(e));
            },
            OperationModel::EditCredit(e) => {
                lemma_entity_roundtrip(e);
                lemma_entity_texts(encode_entity(e));
            },
            _ => {},
        }
        assert(ms.last() == encode_operation(o));
        assert(operation_failure(ms.last()) is None);
        assert(decode_operation(ms.last()) == o);
        assert(ops.drop_last().push(o) =~= ops);
        assert(decode_operations(ms) == Ok::<Seq<OperationModel>, ParseFailure>(
            ops.drop_last().push(o),
        ));
    } else {
        assert(encode_operations(ops) =~= Seq::<OperationMsgModel>::empty());
        assert(ops =~= Seq::<OperationModel>::empty());
    }
}

/// Conversely, wire contents that decode are exactly the encoding of what
/// they decode to: re-filling a parsed list reproduces the message.
pub proof fn lemma_parse_fill_roundtrip(ms: Seq<OperationMsgModel>)
    requires
        decode_operations(ms) is Ok,
    ensures
        encode_operations(decode_operations(ms)->Ok_0) == ms,
    decreases ms.len(),
{
    if ms.len() > 0 {
        lemma_parse_fill_roundtrip(ms.drop_last());
        let m = ms.last();
        match m {
            OperationMsgModel::EditTeam(e) => {
                lemma_entity_texts(e);
                lemma_entity_reencode(e);
            },
            OperationMsgModel::EditCredit(e) => {
                lemma_entity_texts(e);
                lemma_entity_reencode(e);
            },
            _ => {},
        }
        let v = decode_operations(ms)->Ok_0;
        assert(encode_operations(v) =~= encode_operations(v.drop_last()).push(
            encode_operation(v.last()),
        ));
        assert(ms.drop_last().push(m) =~= ms);
    } else {
        assert(encode_operations(Seq::<OperationModel>::empty()) =~= ms);
    }
}

// ---------------------------------------------------------------------------
// Field-wise laws
// ---------------------------------------------------------------------------

/// Each field of an entity goes to the same field of its wire entity: the
/// same id, the UTF-8 bytes of the name, of each alternative name in order,
/// and the same avatar and banner bytes.
pub open spec fn entity_carried(e: EntityModel, m: EntityMsgModel) -> bool {
    &&& m.id == e.id
    &&& m.name == encode_utf8(e.name)
    &&& m.alt_names.len() == e.alt_names.len()
    &&& forall|j: int|
        0 <= j < e.alt_names.len() ==> #[trigger] m.alt_names[j] == encode_utf8(e.alt_names[j])
    &&& m.avatar == e.avatar
    &&& m.banner == e.banner
}

/// Each field of a wire entity is read into the same field of the entity:
/// the same id, the text of the name and of each alternative name in order,
/// and the same avatar and banner bytes.
pub open spec fn entity_read(m: EntityMsgModel, e: EntityModel) -> bool {
    &&& e.id == m.id
    &&& e.name == decode_utf8(m.name)
    &&& e.alt_names.len() == m.alt_names.len()
    &&& forall|j: int|
        0 <= j < m.alt_names.len() ==> #[trigger] e.alt_names[j] == decode_utf8(m.alt_names[j])
    &&& e.avatar == m.avatar
    &&& e.banner == m.banner
}

/// An operation and a wire operation of the same kind, the entity carried
/// field by field (for reading, `read` selects [`entity_read`]).
pub open spec fn operation_corresponds(o: OperationModel, m: OperationMsgModel, read: bool) -> bool {
    match o {
        OperationModel::EditTeam(e) => m matches OperationMsgModel::EditTeam(x) && if read {
            entity_read(x, e)
        } else {
            entity_carried(e, x)
        },
        OperationModel::DelTeam(id) => m == OperationMsgModel::DelTeam(id),
        OperationModel::EditCredit(e) => m matches OperationMsgModel::EditCredit(x) && if read {
            entity_read(x, e)
        } else {
            entity_carried(e, x)
        },
        OperationModel::DelCredit(id) => m == OperationMsgModel::DelCredit(id),
    }
}

/// Encoding goes operation by operation and field by field: the message
/// has one wire operation per operation, in the same place and of the same
/// kind, carrying the same id, the UTF-8 bytes of the name and of each
/// alternative name, and the same avatar and banner.
pub proof fn lemma_encoding_is_fieldwise(ops: Seq<OperationModel>)
    ensures
        encode_operations(ops).len() == ops.len(),
        forall|i: int|
            0 <= i < ops.len() ==> operation_corresponds(
                #[trigger] ops[i],
                encode_operations(ops)[i],
                false,
            ),
{
    assert forall|i: int| 0 <= i < ops.len() implies operation_corresponds(
        #[trigger] ops[i],
        encode_operations(ops)[i],
        false,
    ) by {
        assert(encode_operations(ops)[i] == encode_operation(ops[i]));
    }
}

/// Decoding goes operation by operation and field by field: a message that
/// parses has one operation per wire operation, in the same place and of the
/// same kind, with the same id, the text of the name and of each
/// alternative name, and the same avatar and banner.
pub proof fn lemma_decoding_is_fieldwise(ms: Seq<OperationMsgModel>)
    requires
        decode_operations(ms) is Ok,
    ensures
        decode_operations(ms)->Ok_0.len() == ms.len(),
        forall|i: int|
            0 <= i < ms.len() ==> operation_corresponds(
                #[trigger] decode_operations(ms)->Ok_0[i],
                ms[i],
                true,
            ),
    decreases ms.len(),
{
    if ms.len() > 0 {
        let prefix = ms.drop_last();
        lemma_decode_ok_prefix(ms);
        lemma_decoding_is_fieldwise(prefix);
        let v = decode_operations(ms)->Ok_0;
        let pv = decode_operations(prefix)->Ok_0;
        assert(v == pv.push(decode_operation(ms.last())));
        assert forall|i: int| 0 <= i < ms.len() implies operation_corresponds(
            #[trigger] decode_operations(ms)->Ok_0[i],
            ms[i],
            true,
        ) by {
            if i < ms.len() - 1 {
                assert(v[i] == pv[i]);
                assert(ms[i] == prefix[i]);
            } else {
                assert(v[i] == decode_operation(ms.last()));
            }
        }
    }
}

proof fn lemma_decode_ok_prefix(ms: Seq<OperationMsgModel>)
    requires
        ms.len() > 0,
        decode_operations(ms) is Ok,
    ensures
        decode_operations(ms.drop_last()) is Ok,
        operation_failure(ms.last()) is None,
        decode_operations(ms)->Ok_0 == decode_operations(ms.drop_last())->Ok_0.push(
            decode_operation(ms.last()),
        ),
{
}

} // verus!
