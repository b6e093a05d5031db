use vote_results::server::{Connect, Delivery, Disconnect, Message, WebsocketServer};

fn ids_of<H>(plan: &[Delivery<'_, H>]) -> Vec<usize> {
    let mut ids: Vec<usize> = plan.iter().map(|delivery| delivery.id).collect();
    ids.sort();
    ids
}

#[test]
fn registry_starts_empty() {
    let server: WebsocketServer<u8> = WebsocketServer::new();
    assert_eq!(server.len(), 0);
    assert!(!server.contains(0));
    assert!(server.connections().is_empty());
    assert!(server.broadcast(&Message(String::from("e"))).is_empty());
}

#[test]
fn the_default_registry_is_empty() {
    let server: WebsocketServer<u8> = WebsocketServer::default();
    assert_eq!(server.len(), 0);
    assert!(server.connections().is_empty());
}

#[test]
fn register_at_takes_the_candidate_when_it_is_free() {
    let mut server: WebsocketServer<&str> = WebsocketServer::new();
    assert_eq!(server.register_at(17, Connect { addr: "x" }), 17);
    assert!(server.contains(17));
    assert_eq!(server.len(), 1);
}

#[test]
fn register_at_moves_on_to_the_first_free_id() {
    let mut server: WebsocketServer<&str> = WebsocketServer::new();
    assert_eq!(server.register_at(3, Connect { addr: "a" }), 3);
    assert_eq!(server.register_at(4, Connect { addr: "b" }), 4);
    assert_eq!(server.register_at(6, Connect { addr: "c" }), 6);
    assert_eq!(server.register_at(3, Connect { addr: "d" }), 5);
    assert_eq!(server.register_at(3, Connect { addr: "e" }), 7);
    assert_eq!(server.len(), 5);
}

#[test]
fn register_at_wraps_from_the_largest_id_to_zero() {
    let mut server: WebsocketServer<&str> = WebsocketServer::new();
    assert_eq!(server.register_at(usize::MAX, Connect { addr: "a" }), usize::MAX);
    assert_eq!(server.register_at(usize::MAX, Connect { addr: "b" }), 0);
    assert_eq!(server.register_at(usize::MAX, Connect { addr: "c" }), 1);
    assert_eq!(server.deregister(Disconnect { id: 0 }), Some("b"));
    assert_eq!(server.register_at(usize::MAX, Connect { addr: "d" }), 0);
}

#[test]
fn register_never_hands_out_a_live_id() {
    let mut server: WebsocketServer<usize> = WebsocketServer::new();
    let mut seen = Vec::new();
    for n in 0..200 {
        let id = server.register(Connect { addr: n });
        assert!(!seen.contains(&id));
        seen.push(id);
        assert_eq!(server.len(), n + 1);
    }
    for id in &seen {
        assert!(server.contains(*id));
    }
}

#[test]
fn an_id_may_be_used_again_once_it_was_removed() {
    let mut server: WebsocketServer<&str> = WebsocketServer::new();
    let id = server.register_at(9, Connect { addr: "first" });
    assert_eq!(server.deregister(Disconnect { id }), Some("first"));
    assert_eq!(server.register_at(9, Connect { addr: "second" }), id);
    assert_eq!(server.len(), 1);
}

#[test]
fn size_is_registrations_minus_removals() {
    let mut server: WebsocketServer<u32> = WebsocketServer::new();
    let mut registered = 0usize;
    let mut removed = 0usize;
    let mut live = Vec::new();
    for round in 0..50u32 {
        let id = server.register(Connect { addr: round });
        live.push(id);
        registered += 1;
        assert_eq!(server.len(), registered - removed);
        if round % 3 == 0 {
            let gone = live.remove(0);
            assert!(server.deregister(Disconnect { id: gone }).is_some());
            removed += 1;
            assert_eq!(server.len(), registered - removed);
            assert!(server.deregister(Disconnect { id: gone }).is_none());
            assert_eq!(server.len(), registered - removed);
        }
    }
    assert_eq!(server.len(), live.len());
}

#[test]
fn deregister_twice_is_deregister_once() {
    let mut server: WebsocketServer<&str> = WebsocketServer::new();
    let x = server.register_at(3, Connect { addr: "x" });
    let y = server.register_at(3, Connect { addr: "y" });
    assert_eq!(server.deregister(Disconnect { id: x }), Some("x"));
    assert_eq!(server.len(), 1);
    assert_eq!(server.deregister(Disconnect { id: x }), None);
    assert_eq!(server.len(), 1);
    assert!(!server.contains(x));
    assert!(server.contains(y));
}

#[test]
fn deregister_of_an_unknown_id_changes_nothing() {
    let mut server: WebsocketServer<&str> = WebsocketServer::new();
    let id = server.register_at(1, Connect { addr: "x" });
    assert_eq!(server.deregister(Disconnect { id: id + 1 }), None);
    assert_eq!(server.len(), 1);
    assert!(server.contains(id));
}

#[test]
fn connections_lists_every_registration_once() {
    let mut server: WebsocketServer<String> = WebsocketServer::new();
    let a = server.register_at(10, Connect { addr: String::from("a") });
    let b = server.register_at(20, Connect { addr: String::from("b") });
    let mut list: Vec<(usize, String)> =
        server.connections().into_iter().map(|(id, handle)| (id, handle.clone())).collect();
    list.sort();
    assert_eq!(list, vec![(a, String::from("a")), (b, String::from("b"))]);
}

#[test]
fn broadcast_reaches_exactly_the_registered_ids() {
    let mut server: WebsocketServer<&str> = WebsocketServer::new();
    let x = server.register_at(1, Connect { addr: "x" });
    let y = server.register_at(2, Connect { addr: "y" });
    let z = server.register_at(3, Connect { addr: "z" });
    server.deregister(Disconnect { id: y });
    let envelope = Message(String::from("snapshot"));
    let plan = server.broadcast(&envelope);
    assert_eq!(ids_of(&plan), vec![x, z]);
    for delivery in &plan {
        assert_eq!(delivery.message, envelope);
        let expected = if delivery.id == x { "x" } else { "z" };
        assert_eq!(*delivery.recipient, expected);
    }
}

#[test]
fn a_later_registration_misses_the_earlier_broadcast() {
    let mut server: WebsocketServer<&str> = WebsocketServer::new();
    let x = server.register_at(1, Connect { addr: "x" });
    let first: Vec<usize> = ids_of(&server.broadcast(&Message(String::from("one"))));
    let late = server.register_at(2, Connect { addr: "late" });
    assert_eq!(first, vec![x]);
    assert!(!first.contains(&late));
    let second = ids_of(&server.broadcast(&Message(String::from("two"))));
    assert_eq!(second, vec![x, late]);
}

#[test]
fn two_registrations_get_two_distinct_ids() {
    let mut server: WebsocketServer<&str> = WebsocketServer::new();
    let first = server.register_at(42, Connect { addr: "first" });
    let second = server.register_at(42, Connect { addr: "second" });
    assert_ne!(first, second);
    assert_eq!(server.len(), 2);
    assert!(server.contains(first));
    assert!(server.contains(second));
    let mut handles: Vec<&str> =
        server.connections().into_iter().map(|(_, handle)| *handle).collect();
    handles.sort();
    assert_eq!(handles, vec!["first", "second"]);
}
