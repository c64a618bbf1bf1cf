//! Error type of the sync toolkit.

use vstd::prelude::*;
use vstd::string::*;

use crate::text::{decimal, u64_to_decimal};

verus! {

#[verifier::external_type_specification]
#[verifier::external_body]
pub struct ExIoError(std::io::Error);

#[derive(Debug)]
pub enum Error {
    /// Connecting to `addr` failed.
    Connect { addr: String, source: std::io::Error },
    /// The named step did not finish in time.
    Timeout(&'static str),
    /// The RPC layer failed; holds the capnp error as it renders itself.
    Rpc(String),
    /// A union discriminant that the schema does not define.
    NotInSchema(u16),
    /// Wire text that is not UTF-8.
    Utf8(core::str::Utf8Error),
    /// The peer answered the named call with a non-zero status.
    Rejected { op: &'static str, status: u8, meta: String },
    /// The peer broke the protocol.
    Protocol(String),
}

/// The rendering of `capnp::NotInSchema(d)`.
pub open spec fn not_in_schema_text(d: u16) -> Seq<char> {
    "Enum value or union discriminant "@ + decimal(d as nat) + " was not present in the schema."@
}

/// Renders `capnp::NotInSchema(d)` through its `Display`.
///
/// Trusted: the capnp source writes
/// "Enum value or union discriminant {d} was not present in the schema."
/// with `d` in decimal.
#[verifier::external_body]
fn render_not_in_schema(d: u16) -> (s: String)
    ensures
        s@ == not_in_schema_text(d),
{
    capnp::NotInSchema(d).to_string()
}

fn concat(a: &str, b: &str) -> (r: String)
    ensures
        r@ == a@ + b@,
{
    let mut r = String::from_str(a);
    r.append(b);
    r
}

/// Whether `m` is the text that [`Error::message`] renders for `e`.
pub open spec fn is_message_of(e: Error, m: Seq<char>) -> bool {
    match e {
        Error::Connect { addr, source } => exists|t: String|
            to_string_from_display_ensures::<std::io::Error>(&source, t) && m == "connect "@ + addr@
                + ": "@ + t@,
        Error::Timeout(op) => m == "timeout: "@ + op@,
        Error::Rpc(d) => m == "rpc: "@ + d@,
        Error::NotInSchema(d) => m == "not in schema: "@ + not_in_schema_text(d),
        Error::Utf8(u) => exists|t: String|
            to_string_from_display_ensures::<core::str::Utf8Error>(&u, t) && m == "utf8: "@ + t@,
        Error::Rejected { op, status, meta } => m == op@ + " rejected: status="@ + decimal(
            status as nat,
        ) + " meta="@ + meta@,
        Error::Protocol(p) => m == "protocol: "@ + p@,
    }
}

impl Error {
    /// The text of the error, as its display renders it.
    pub fn message(&self) -> (r: String)
        ensures
            is_message_of(*self, r@),
    {
        match self {
            Error::Connect { addr, source } => {
                let t = source.to_string();
                let mut r = concat("connect ", addr.as_str());
                r.append(": ");
                r.append(t.as_str());
                r
            },
            Error::Timeout(op) => concat("timeout: ", op),
            Error::Rpc(d) => concat("rpc: ", d.as_str()),
            Error::NotInSchema(d) => {
                let t = render_not_in_schema(*d);
                concat("not in schema: ", t.as_str())
            },
            Error::Utf8(e) => {
                let t = e.to_string();
                concat("utf8: ", t.as_str())
            },
            Error::Rejected { op, status, meta } => {
                let s = u64_to_decimal(*status as u64);
                let mut r = concat(op, " rejected: status=");
                r.append(s.as_str());
                r.append(" meta=");
                r.append(meta.as_str());
                r
            },
            Error::Protocol(m) => concat("protocol: ", m.as_str()),
        }
    }
}

} // verus!
