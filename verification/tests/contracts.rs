//! Concrete checks of the library's contracts and laws.

use std::sync::Arc;
use std::time::Duration;

use capnp_sync::Error;
use capnp_sync::backend::{
    ActionPool, Records, SyncHandler, ack_reply, check_ids_reply, guard_cursor, update_reply,
    window_reply,
};
use capnp_sync::client::{decode_meta, ids_result, sync_result, window_result};
use capnp_sync::distributor::{Distribution, Distributor};
use capnp_sync::ops::{
    Credit, EntityMsg, Operation, OperationMsg, SyncOperations, SyncOperationsMsg, Team, Window,
    fill_operations, non_advancing_message, parse_operations,
};
use capnp_sync::text::u64_to_decimal;

fn team(id: u64, name: &str, alt: &[&str]) -> Team {
    Team {
        id,
        name: name.to_owned(),
        alt_names: alt.iter().map(|s| s.to_string()).collect(),
        avatar: vec![1, 2, 3],
        banner: vec![],
    }
}

fn sample_ops() -> Vec<Operation> {
    vec![
        Operation::EditTeam(team(1, "Ünïcödé ✓", &["a", "ß"])),
        Operation::DelTeam(2),
        Operation::EditCredit(Credit {
            id: 3,
            name: "credit".to_owned(),
            alt_names: vec![],
            avatar: vec![],
            banner: vec![9, 9],
        }),
        Operation::DelCredit(4),
    ]
}

fn same_ops(a: &[Operation], b: &[Operation]) -> bool {
    format!("{a:?}") == format!("{b:?}")
}

fn entity(name: &[u8], alt: Vec<Vec<u8>>) -> EntityMsg {
    EntityMsg {
        id: 1,
        name: name.to_vec(),
        alt_names: alt,
        avatar: vec![],
        banner: vec![],
    }
}

#[test]
fn fill_then_parse_gives_back_the_operations() {
    let ops = sample_ops();
    let mut so = SyncOperationsMsg::default();
    fill_operations(&mut so, &ops);
    assert_eq!(so.operations.len(), 4);
    match &so.operations[0] {
        OperationMsg::EditTeam(e) => {
            assert_eq!(e.name, "Ünïcödé ✓".as_bytes().to_vec());
            assert_eq!(e.alt_names, vec![b"a".to_vec(), "ß".as_bytes().to_vec()]);
            assert_eq!(e.avatar, vec![1, 2, 3]);
        }
        other => panic!("unexpected {other:?}"),
    }
    let parsed = parse_operations(&so).unwrap();
    assert!(same_ops(&parsed.operations, &ops));
}

#[test]
fn fill_replaces_previous_contents() {
    let mut so = SyncOperationsMsg {
        operations: vec![OperationMsg::Unknown(9)],
    };
    fill_operations(&mut so, &[Operation::DelTeam(5)]);
    assert_eq!(so.operations.len(), 1);
    assert!(matches!(so.operations[0], OperationMsg::DelTeam(5)));
}

#[test]
fn parse_then_fill_gives_back_the_message() {
    let so = SyncOperationsMsg {
        operations: vec![
            OperationMsg::EditCredit(entity("naïve".as_bytes(), vec![b"x".to_vec()])),
            OperationMsg::DelTeam(8),
        ],
    };
    let parsed = parse_operations(&so).unwrap();
    let mut again = SyncOperationsMsg::default();
    fill_operations(&mut again, &parsed.operations);
    assert_eq!(format!("{again:?}"), format!("{so:?}"));
}

#[test]
fn parse_rejects_invalid_utf8_name() {
    let so = SyncOperationsMsg {
        operations: vec![OperationMsg::EditTeam(entity(&[0xff, 0xfe], vec![]))],
    };
    assert!(matches!(parse_operations(&so), Err(Error::Utf8(_))));
}

#[test]
fn parse_rejects_invalid_utf8_alt_name() {
    let so = SyncOperationsMsg {
        operations: vec![
            OperationMsg::DelTeam(1),
            OperationMsg::EditCredit(entity(b"ok", vec![b"fine".to_vec(), vec![0xc3]])),
        ],
    };
    assert!(matches!(parse_operations(&so), Err(Error::Utf8(_))));
}

#[test]
fn parse_rejects_unknown_discriminant() {
    let so = SyncOperationsMsg {
        operations: vec![OperationMsg::DelTeam(1), OperationMsg::Unknown(7)],
    };
    let err = parse_operations(&so).unwrap_err();
    assert!(matches!(err, Error::NotInSchema(7)));
    assert_eq!(
        err.message(),
        "not in schema: Enum value or union discriminant 7 was not present in the schema."
    );
}

#[test]
fn parse_reports_the_first_failure() {
    let so = SyncOperationsMsg {
        operations: vec![
            OperationMsg::Unknown(4),
            OperationMsg::EditTeam(entity(&[0xff], vec![])),
        ],
    };
    assert!(matches!(parse_operations(&so), Err(Error::NotInSchema(4))));
}

#[test]
fn empty_operations() {
    let so = SyncOperationsMsg::default();
    let parsed = parse_operations(&so).unwrap();
    assert!(parsed.is_empty());
    assert!(!SyncOperations {
        operations: vec![Operation::DelTeam(1)]
    }
    .is_empty());
}

#[test]
fn decimal_rendering() {
    assert_eq!(u64_to_decimal(0), "0");
    assert_eq!(u64_to_decimal(7), "7");
    assert_eq!(u64_to_decimal(305), "305");
    assert_eq!(u64_to_decimal(u64::MAX), "18446744073709551615");
}

#[test]
fn error_messages() {
    assert_eq!(Error::Timeout("connect").message(), "timeout: connect");
    assert_eq!(Error::Rpc("Failed: boom".to_owned()).message(), "rpc: Failed: boom");
    assert_eq!(
        Error::Rejected {
            op: "check_ids",
            status: 2,
            meta: "busy".to_owned()
        }
        .message(),
        "check_ids rejected: status=2 meta=busy"
    );
    assert_eq!(Error::Protocol("bad".to_owned()).message(), "protocol: bad");
    let io = std::io::Error::new(std::io::ErrorKind::ConnectionRefused, "refused");
    assert_eq!(
        Error::Connect {
            addr: "127.0.0.1:1".to_owned(),
            source: io
        }
        .message(),
        "connect 127.0.0.1:1: refused"
    );
    let utf8 = std::str::from_utf8(&[0xffu8]).unwrap_err();
    let expected = format!("utf8: {utf8}");
    assert_eq!(Error::Utf8(utf8).message(), expected);
}

#[test]
fn guard_cursor_refuses_non_advancing_window() {
    let w = Window {
        operations: vec![Operation::DelTeam(1)],
        next_cursor: 5,
    };
    assert_eq!(
        guard_cursor("pull", 5, &w),
        Err("pull: non-advancing cursor 5 -> 5".to_owned())
    );
    assert_eq!(guard_cursor("pull", 4, &w), Ok(()));
    let empty = Window {
        operations: vec![],
        next_cursor: 3,
    };
    assert_eq!(guard_cursor("dump", 10, &empty), Ok(()));
    assert_eq!(
        non_advancing_message("dump", 12, 0),
        "dump: non-advancing cursor 12 -> 0"
    );
}

#[test]
fn window_reply_cases() {
    let err = window_reply("pull", 0, Err("disk on fire".to_owned())).unwrap_err();
    assert_eq!(err, "disk on fire");
    let refused = window_reply(
        "dump",
        9,
        Ok(Window {
            operations: vec![Operation::DelTeam(1)],
            next_cursor: 2,
        }),
    )
    .unwrap_err();
    assert_eq!(refused, "dump: non-advancing cursor 9 -> 2");
    let ok = window_reply(
        "pull",
        0,
        Ok(Window {
            operations: vec![Operation::DelCredit(4)],
            next_cursor: 1,
        }),
    )
    .unwrap();
    assert_eq!(ok.next_cursor, 1);
    assert!(matches!(ok.so.operations[..], [OperationMsg::DelCredit(4)]));
}

#[test]
fn status_replies() {
    let ok = update_reply(Ok(()));
    assert_eq!(ok.status, 0);
    assert!(ok.meta.is_empty());
    let failed = update_reply(Err("näh".to_owned()));
    assert_eq!(failed.status, 1);
    assert_eq!(failed.meta, "näh".as_bytes().to_vec());
    // the note reaches the client unchanged
    assert_eq!(sync_result(failed.status, &Some(failed.meta)).meta, "näh");

    assert_eq!(ack_reply(Ok(())).unwrap().status, 0);
    assert_eq!(ack_reply(Err("no".to_owned())).unwrap_err(), "no");

    let c = check_ids_reply(Ok(vec![3, 1])).unwrap();
    assert_eq!(c.result.status, 0);
    assert_eq!(c.missing, vec![3, 1]);
    assert_eq!(check_ids_reply(Err("x".to_owned())).unwrap_err(), "x");
}

#[test]
fn meta_decoding() {
    assert_eq!(decode_meta(&None), "");
    assert_eq!(decode_meta(&Some(vec![0xff])), "");
    assert_eq!(decode_meta(&Some(b"hello".to_vec())), "hello");
    let r = sync_result(3, &Some(vec![0xc0]));
    assert_eq!(r.status, 3);
    assert_eq!(r.meta, "");
}

#[test]
fn ids_result_rejects_non_zero_status() {
    assert_eq!(ids_result("get_ids", 0, &None, vec![1, 2]).unwrap(), vec![1, 2]);
    match ids_result("check_ids", 2, &Some(b"busy".to_vec()), vec![1]) {
        Err(Error::Rejected { op, status, meta }) => {
            assert_eq!(op, "check_ids");
            assert_eq!(status, 2);
            assert_eq!(meta, "busy");
        }
        other => panic!("unexpected {other:?}"),
    }
}

#[test]
fn window_result_cases() {
    let so = SyncOperationsMsg {
        operations: vec![OperationMsg::DelTeam(1)],
    };
    match window_result("pull", 4, 4, &so) {
        Err(Error::Protocol(m)) => assert_eq!(m, "pull: non-advancing cursor 4 -> 4"),
        other => panic!("unexpected {other:?}"),
    }
    let w = window_result("pull", 4, 5, &so).unwrap();
    assert_eq!(w.next_cursor, 5);
    assert!(matches!(w.operations[..], [Operation::DelTeam(1)]));
    // an empty window may keep the cursor
    let empty = window_result("dump", 4, 4, &SyncOperationsMsg::default()).unwrap();
    assert!(empty.operations.is_empty());
    assert_eq!(empty.next_cursor, 4);
    // parse errors come first
    let bad = SyncOperationsMsg {
        operations: vec![OperationMsg::Unknown(2)],
    };
    assert!(matches!(
        window_result("pull", 4, 4, &bad),
        Err(Error::NotInSchema(2))
    ));
}

struct StuckPool;

impl ActionPool for StuckPool {
    fn pull(&self, _limit: u32, cursor: u64) -> Result<Window, String> {
        Ok(Window {
            operations: vec![Operation::DelTeam(1)],
            next_cursor: cursor,
        })
    }

    fn ack(&self, _up_to: u64) -> Result<(), String> {
        Err("read-only".to_owned())
    }
}

struct NoRecords;

impl Records for NoRecords {
    fn check_ids(&self, ids: &[u64]) -> Result<Vec<u64>, String> {
        Ok(ids.to_vec())
    }

    fn dump(&self, _limit: u32, _cursor: u64) -> Result<Window, String> {
        Err("no dump".to_owned())
    }

    fn apply(&self, _ops: &[Operation]) -> Result<(), String> {
        Ok(())
    }
}

#[test]
fn handler_refuses_and_forwards_failures() {
    let pool: Arc<dyn ActionPool> = Arc::new(StuckPool);
    let records: Arc<dyn Records> = Arc::new(NoRecords);
    let handler: SyncHandler = SyncHandler::new(pool, records);
    assert_eq!(
        handler.pull(10, 7).unwrap_err(),
        "pull: non-advancing cursor 7 -> 7"
    );
    assert_eq!(handler.ack(1).unwrap_err(), "read-only");
    assert_eq!(handler.dump(1, 0).unwrap_err(), "no dump");
    assert_eq!(handler.check_ids(&[4, 5]).unwrap().missing, vec![4, 5]);

    let bad = SyncOperationsMsg {
        operations: vec![OperationMsg::Unknown(3)],
    };
    assert_eq!(
        handler.update(&bad).unwrap_err(),
        "not in schema: Enum value or union discriminant 3 was not present in the schema."
    );
    let invalid = SyncOperationsMsg {
        operations: vec![OperationMsg::EditTeam(entity(&[0xff], vec![]))],
    };
    assert!(handler.update(&invalid).unwrap_err().starts_with("utf8: "));
    let good = SyncOperationsMsg {
        operations: vec![OperationMsg::DelTeam(3)],
    };
    assert_eq!(handler.update(&good).unwrap().status, 0);
    let cloned = handler.clone();
    assert_eq!(cloned.check_ids(&[1]).unwrap().missing, vec![1]);
}

#[test]
fn distribution_keeps_list_order_and_survives_failures() {
    let distributor = Distributor::new(Duration::from_secs(30));
    assert_eq!(distributor.timeout(), Duration::from_secs(30));
    let addrs = vec!["a".to_owned(), "b".to_owned(), "c".to_owned()];
    let mut pass = distributor.plan(&addrs);
    let mut asked = Vec::new();
    while let Some(addr) = pass.next_backend() {
        let outcome = if addr == "b" {
            Err(Error::Timeout("update"))
        } else {
            Ok(capnp_sync::client::SyncResult {
                status: 0,
                meta: String::new(),
            })
        };
        asked.push(addr);
        pass.record(outcome);
    }
    assert!(pass.is_done());
    assert_eq!(asked, addrs);
    let results = pass.finish();
    assert_eq!(results.len(), 3);
    assert_eq!(results[0].backend, "a");
    assert_eq!(results[1].backend, "b");
    assert_eq!(results[2].backend, "c");
    assert!(results[0].result.is_ok());
    assert!(matches!(results[1].result, Err(Error::Timeout("update"))));
    assert!(results[2].result.is_ok());
}

#[test]
fn distribution_over_no_backends() {
    let pass = Distribution::new(&[]);
    assert!(pass.is_done());
    assert!(pass.next_backend().is_none());
    assert!(pass.finish().is_empty());
}

#[test]
fn parse_reports_unreadable_operation_in_order() {
    let broken = SyncOperationsMsg {
        operations: vec![
            OperationMsg::DelTeam(1),
            OperationMsg::Unreadable {
                read_texts: vec![b"fine".to_vec()],
                error: "Failed: bad pointer".to_owned(),
            },
        ],
    };
    match parse_operations(&broken) {
        Err(Error::Rpc(d)) => assert_eq!(d, "Failed: bad pointer"),
        other => panic!("unexpected {other:?}"),
    }
    // an earlier failure wins over a later unreadable operation
    let earlier = SyncOperationsMsg {
        operations: vec![
            OperationMsg::Unknown(6),
            OperationMsg::Unreadable {
                read_texts: vec![],
                error: "Failed: bad pointer".to_owned(),
            },
        ],
    };
    assert!(matches!(parse_operations(&earlier), Err(Error::NotInSchema(6))));
}

struct CountingRecords {
    applied: std::sync::Mutex<usize>,
}

impl Records for CountingRecords {
    fn check_ids(&self, _ids: &[u64]) -> Result<Vec<u64>, String> {
        Err("check failed".to_owned())
    }

    fn dump(&self, _limit: u32, cursor: u64) -> Result<Window, String> {
        Ok(Window {
            operations: vec![Operation::DelCredit(2)],
            next_cursor: cursor + 1,
        })
    }

    fn apply(&self, ops: &[Operation]) -> Result<(), String> {
        *self.applied.lock().unwrap() += ops.len();
        Err(format!("applied {} then failed", ops.len()))
    }
}

#[test]
fn handler_replies_follow_the_store() {
    let records = Arc::new(CountingRecords {
        applied: std::sync::Mutex::new(0),
    });
    let pool: Arc<dyn ActionPool> = Arc::new(StuckPool);
    let handler: SyncHandler = SyncHandler::new(pool, records.clone());
    let so = SyncOperationsMsg {
        operations: vec![OperationMsg::DelTeam(3), OperationMsg::DelTeam(4)],
    };
    let reply = handler.update(&so).unwrap();
    assert_eq!(*records.applied.lock().unwrap(), 2);
    assert_eq!(reply.status, 1);
    assert_eq!(reply.meta, b"applied 2 then failed".to_vec());
    let unreadable = SyncOperationsMsg {
        operations: vec![OperationMsg::Unreadable {
            read_texts: vec![],
            error: "Failed: x".to_owned(),
        }],
    };
    assert_eq!(handler.update(&unreadable).unwrap_err(), "rpc: Failed: x");
    assert_eq!(*records.applied.lock().unwrap(), 2);
    assert_eq!(handler.check_ids(&[1]).unwrap_err(), "check failed");
    let w = handler.dump(5, 7).unwrap();
    assert_eq!(w.next_cursor, 8);
    assert!(matches!(w.so.operations[..], [OperationMsg::DelCredit(2)]));
}

#[test]
fn invalid_text_read_before_a_broken_pointer_wins() {
    // an alternative name read before the break is checked first
    let so = SyncOperationsMsg {
        operations: vec![OperationMsg::Unreadable {
            read_texts: vec![b"ok".to_vec(), vec![0xe2, 0x28, 0xa1]],
            error: "Failed: bad pointer".to_owned(),
        }],
    };
    let expected = std::str::from_utf8(&[0xe2, 0x28, 0xa1]).unwrap_err();
    match parse_operations(&so) {
        Err(Error::Utf8(e)) => assert_eq!(e, expected),
        other => panic!("unexpected {other:?}"),
    }
}

#[test]
fn utf8_error_is_that_of_the_first_invalid_text() {
    // alternative names are read before the name
    let alt_bad = vec![b'a', 0xff];
    let name_bad = vec![0xc3];
    let so = SyncOperationsMsg {
        operations: vec![OperationMsg::EditTeam(entity(&name_bad, vec![b"x".to_vec(), alt_bad.clone()]))],
    };
    let expected = std::str::from_utf8(&alt_bad).unwrap_err();
    match parse_operations(&so) {
        Err(Error::Utf8(e)) => {
            assert_eq!(e, expected);
            assert_eq!(e.valid_up_to(), 1);
        }
        other => panic!("unexpected {other:?}"),
    }
    let only_name = SyncOperationsMsg {
        operations: vec![OperationMsg::EditCredit(entity(&name_bad, vec![b"x".to_vec()]))],
    };
    let expected = std::str::from_utf8(&name_bad).unwrap_err();
    match parse_operations(&only_name) {
        Err(Error::Utf8(e)) => assert_eq!(e, expected),
        other => panic!("unexpected {other:?}"),
    }
}
