use script_service::broker::{Broker, Consumer, EnsureLink};
use script_service::messages::{Action, StandardErrors, WsMessage};
use script_service::store::Redis;
use script_service::messages::InsertRoom;

#[test]
fn ten_demands_one_establishment() {
    let mut b = Broker::new();
    let host = "bus-host-1".to_string();
    let mut verdicts = Vec::new();
    for w in 0..10u64 {
        verdicts.push(b.ensure_link(&host, w));
    }
    let started = verdicts.iter().filter(|v| **v == EnsureLink::Started).count();
    let joined = verdicts.iter().filter(|v| **v == EnsureLink::Joined).count();
    assert_eq!(started, 1);
    assert_eq!(joined, 9);
    assert_eq!(verdicts[0], EnsureLink::Started);
    // all ten callers are notified together with the one outcome
    let waiters = b.complete_link(&host, true);
    assert_eq!(waiters, (0..10u64).collect::<Vec<u64>>());
    // afterwards the link is ready and a new demand uses it at once
    assert!(b.link_ready(&host));
    assert_eq!(b.ensure_link(&host, 11), EnsureLink::Ready);
}

#[test]
fn failed_establishment_leaves_no_link() {
    let mut b = Broker::new();
    let host = "bus-host-2".to_string();
    assert_eq!(b.ensure_link(&host, 1), EnsureLink::Started);
    assert_eq!(b.ensure_link(&host, 2), EnsureLink::Joined);
    let waiters = b.complete_link(&host, false);
    assert_eq!(waiters, vec![1, 2]);
    assert!(!b.link_ready(&host));
    // the next demand starts a fresh attempt
    assert_eq!(b.ensure_link(&host, 3), EnsureLink::Started);
}

#[test]
fn links_are_per_host() {
    let mut b = Broker::new();
    assert_eq!(b.ensure_link(&"a".to_string(), 1), EnsureLink::Started);
    assert_eq!(b.ensure_link(&"b".to_string(), 2), EnsureLink::Started);
    b.complete_link(&"a".to_string(), true);
    assert!(b.link_ready(&"a".to_string()));
    assert!(!b.link_ready(&"b".to_string()));
}

#[test]
fn consumer_acknowledges_exactly_once() {
    let mut c = Consumer::new();
    assert!(c.begin(100));
    // a redelivery before the acknowledgement is refused
    assert!(!c.begin(101));
    assert_eq!(c.acknowledge(), Some(100));
    // nothing pending: nothing to acknowledge twice
    assert_eq!(c.acknowledge(), None);
    assert!(c.begin(101));
}

#[test]
fn store_record_key_and_fields() {
    let store = Redis::new("redis://localhost".to_string());
    assert_eq!(store.conn_string, "redis://localhost");
    let msg = InsertRoom { user_id: 42, script_id: 77 };
    assert_eq!(store.record_key(&msg), "77");
    let fields = store.record_fields(&msg, 1700000000123);
    assert_eq!(fields.len(), 2);
    assert_eq!(fields[0], ("script_id".to_string(), "77".to_string()));
    assert_eq!(fields[1], ("user:42".to_string(), "1700000000123".to_string()));
}

#[test]
fn action_builders() {
    let a = Action::new("m".to_string(), false).unwrap();
    assert_eq!(a.message, "m");
    assert!(!a.close);
    let a = Action::new_close("bye".to_string()).unwrap();
    assert_eq!(a.message, "bye");
    assert!(a.close);
    assert!(Action::empty().is_none());
}

#[test]
fn ws_message_builders() {
    let m = WsMessage::new("hi".to_string()).unwrap();
    assert_eq!(m.message, "hi");
    assert!(!m.close);
    let m = WsMessage::new_close("bye".to_string()).unwrap();
    assert!(m.close);
}

#[test]
fn error_texts_and_close_reasons() {
    let f = StandardErrors::FatalError("boom".to_string());
    assert_eq!(f.message(), "Fatal error: boom");
    assert_eq!(f.close_reason(), "boom");
    let i = StandardErrors::Internal("oops".to_string());
    assert_eq!(i.message(), "Internal error: oops");
    assert_eq!(i.close_reason(), "unknown_error");
}
