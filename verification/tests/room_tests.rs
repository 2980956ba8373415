use script_service::room::{Mailbox, Room, Session};
use script_service::room_manager::{Admission, RoomManager};

fn session(cap: usize) -> Session {
    Session { mailbox: Mailbox::new(cap), token: "tok".to_string(), token_expiry: 0 }
}

#[test]
fn mailbox_offer_and_drain() {
    let mut mb = Mailbox::new(2);
    assert!(mb.offer("a".to_string()));
    assert!(mb.offer("b".to_string()));
    assert!(!mb.offer("c".to_string()));
    assert_eq!(mb.len(), 2);
    let msgs = mb.drain();
    assert_eq!(msgs, vec!["a".to_string(), "b".to_string()]);
    assert_eq!(mb.len(), 0);
    assert!(mb.offer("d".to_string()));
}

#[test]
fn room_new_holds_creator() {
    let r = Room::new((5, session(4)), 77);
    assert_eq!(r.script_id, 77);
    assert!(r.has_user(5));
    assert!(!r.has_user(6));
}

#[test]
fn first_admission_creates_later_ones_join() {
    let mut m = RoomManager::new();
    assert_eq!(m.ensure_room(77, 1, session(4)), Admission::Created);
    assert_eq!(m.ensure_room(77, 2, session(4)), Admission::Joined);
    assert_eq!(m.ensure_room(77, 3, session(4)), Admission::Joined);
    assert_eq!(m.rooms.len(), 1);
    assert!(m.rooms[0].has_user(1));
    assert!(m.rooms[0].has_user(2));
    assert!(m.rooms[0].has_user(3));
}

#[test]
fn distinct_resources_get_distinct_rooms() {
    let mut m = RoomManager::new();
    assert_eq!(m.ensure_room(1, 10, session(4)), Admission::Created);
    assert_eq!(m.ensure_room(2, 20, session(4)), Admission::Created);
    assert_eq!(m.rooms.len(), 2);
}

#[test]
fn repeated_admission_of_same_member_is_noop() {
    let mut m = RoomManager::new();
    m.ensure_room(7, 1, session(4));
    m.ensure_room(7, 1, session(4));
    assert_eq!(m.rooms.len(), 1);
    assert_eq!(m.rooms[0].users.len(), 1);
}

#[test]
fn release_removes_member_and_empty_room() {
    let mut m = RoomManager::new();
    m.ensure_room(7, 1, session(4));
    m.ensure_room(7, 2, session(4));
    m.release(7, 1);
    assert_eq!(m.rooms.len(), 1);
    assert!(!m.rooms[0].has_user(1));
    assert!(m.rooms[0].has_user(2));
    m.release(7, 2);
    // the last member left: the room is dropped, not leaked
    assert_eq!(m.rooms.len(), 0);
}

#[test]
fn release_is_idempotent() {
    let mut m = RoomManager::new();
    m.ensure_room(7, 1, session(4));
    m.ensure_room(7, 2, session(4));
    m.release(7, 99);
    m.release(8, 1);
    assert_eq!(m.rooms.len(), 1);
    assert_eq!(m.rooms[0].users.len(), 2);
}

#[test]
fn abort_create_rolls_the_room_back() {
    let mut m = RoomManager::new();
    assert_eq!(m.ensure_room(7, 1, session(4)), Admission::Created);
    // the side-store write failed: the creation is undone
    m.abort_create(7, 1);
    assert_eq!(m.rooms.len(), 0);
    // the next admission creates again
    assert_eq!(m.ensure_room(7, 2, session(4)), Admission::Created);
}

#[test]
fn broadcast_reaches_everyone_but_the_sender() {
    let mut m = RoomManager::new();
    m.ensure_room(7, 1, session(4));
    m.ensure_room(7, 2, session(4));
    m.ensure_room(7, 3, session(4));
    m.broadcast(7, &"hello".to_string(), Some(1));
    let drained: Vec<(i64, Vec<String>)> = m.rooms[0]
        .users
        .iter_mut()
        .map(|(id, s)| (*id, s.mailbox.drain()))
        .collect();
    assert_eq!(drained[0], (1, vec![]));
    assert_eq!(drained[1], (2, vec!["hello".to_string()]));
    assert_eq!(drained[2], (3, vec!["hello".to_string()]));
}

#[test]
fn full_mailbox_drops_without_blocking_others() {
    let mut m = RoomManager::new();
    m.ensure_room(7, 1, session(4));
    // member 2's mailbox has capacity 1 and is already full
    let mut s2 = session(1);
    s2.mailbox.offer("stuck".to_string());
    m.ensure_room(7, 2, s2);
    m.ensure_room(7, 3, session(4));
    m.broadcast(7, &"hello".to_string(), Some(1));
    let drained: Vec<(i64, Vec<String>)> = m.rooms[0]
        .users
        .iter_mut()
        .map(|(id, s)| (*id, s.mailbox.drain()))
        .collect();
    // the sender gets nothing back, the full member misses the message,
    // and the third member still receives it
    assert_eq!(drained[0], (1, vec![]));
    assert_eq!(drained[1], (2, vec!["stuck".to_string()]));
    assert_eq!(drained[2], (3, vec!["hello".to_string()]));
}

#[test]
fn broadcast_without_exclusion_reaches_all() {
    let mut m = RoomManager::new();
    m.ensure_room(7, 1, session(4));
    m.ensure_room(7, 2, session(4));
    m.broadcast(7, &"x".to_string(), None);
    let drained: Vec<Vec<String>> =
        m.rooms[0].users.iter_mut().map(|(_, s)| s.mailbox.drain()).collect();
    assert_eq!(drained, vec![vec!["x".to_string()], vec!["x".to_string()]]);
}

#[test]
fn broadcast_to_unknown_resource_is_noop() {
    let mut m = RoomManager::new();
    m.ensure_room(7, 1, session(4));
    m.broadcast(8, &"x".to_string(), None);
    let drained = m.rooms[0].users[0].1.mailbox.drain();
    assert!(drained.is_empty());
}

#[test]
fn zero_capacity_mailbox_rejects_everything() {
    let mut mb = Mailbox::new(0);
    assert!(!mb.offer("a".to_string()));
    assert_eq!(mb.len(), 0);
}
