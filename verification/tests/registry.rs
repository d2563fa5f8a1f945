//! Connection registry: registration, broadcast isolation, removal.

use job_hub::connection_manager::ConnectionManager;
use job_hub::ws::{IoType, ServerMessage, TaskIoChunk};

fn chunk_msg(text: &str) -> ServerMessage {
    ServerMessage::TaskIoChunk(TaskIoChunk {
        id: String::from("0"),
        chunk: String::from(text),
        io_type: IoType::Stdout,
    })
}

fn chunk_text(msg: &ServerMessage) -> &str {
    match msg {
        ServerMessage::TaskIoChunk(c) => &c.chunk,
    }
}

#[test]
fn broadcast_reaches_every_connection_in_order() {
    let mut cm = ConnectionManager::new(8);
    let a = cm.accept_connection(String::from("agent-a"), String::from("10.0.0.1:1"));
    let b = cm.accept_connection(String::from("agent-b"), String::from("10.0.0.2:2"));
    assert_ne!(a, b);
    cm.broadcast(&chunk_msg("one"));
    cm.broadcast(&chunk_msg("two"));
    for id in [a, b] {
        let first = cm.next_outbound(id).expect("queued event");
        let second = cm.next_outbound(id).expect("queued event");
        assert_eq!(chunk_text(&first), "one");
        assert_eq!(chunk_text(&second), "two");
        assert!(cm.next_outbound(id).is_none());
    }
}

#[test]
fn full_queue_drops_only_that_connection() {
    let mut cm = ConnectionManager::new(2);
    let slow = cm.accept_connection(String::from("slow"), String::from("10.0.0.1:1"));
    let live = cm.accept_connection(String::from("live"), String::from("10.0.0.2:2"));
    cm.broadcast(&chunk_msg("one"));
    cm.broadcast(&chunk_msg("two"));
    // The live listener keeps up and drains its queue; the slow one is full.
    assert_eq!(chunk_text(&cm.next_outbound(live).unwrap()), "one");
    assert_eq!(chunk_text(&cm.next_outbound(live).unwrap()), "two");
    // The overflowing delivery is dropped for the slow listener alone.
    cm.broadcast(&chunk_msg("three"));
    assert_eq!(chunk_text(&cm.next_outbound(slow).unwrap()), "one");
    assert_eq!(chunk_text(&cm.next_outbound(slow).unwrap()), "two");
    assert!(cm.next_outbound(slow).is_none());
    assert_eq!(chunk_text(&cm.next_outbound(live).unwrap()), "three");
}

#[test]
fn closed_connection_is_removed_others_keep_their_events() {
    let mut cm = ConnectionManager::new(8);
    let gone = cm.accept_connection(String::from("gone"), String::from("10.0.0.1:1"));
    let kept = cm.accept_connection(String::from("kept"), String::from("10.0.0.2:2"));
    cm.broadcast(&chunk_msg("one"));
    cm.remove_connection(gone);
    assert!(cm.next_outbound(gone).is_none());
    assert_eq!(chunk_text(&cm.next_outbound(kept).unwrap()), "one");
    // Removing an unknown id changes nothing.
    cm.remove_connection(99);
    assert!(cm.next_outbound(kept).is_none());
}
