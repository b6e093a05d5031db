use vote_results::outbox::Outbox;
use vote_results::server::Message;

fn msg(text: &str) -> Message {
    Message(String::from(text))
}

#[test]
fn a_new_outbox_is_empty() {
    let mut outbox = Outbox::new(4);
    assert_eq!(outbox.capacity(), 4);
    assert_eq!(outbox.len(), 0);
    assert_eq!(outbox.take(), None);
}

#[test]
fn envelopes_leave_in_the_order_they_came() {
    let mut outbox = Outbox::new(3);
    assert_eq!(outbox.offer(msg("one")), None);
    assert_eq!(outbox.offer(msg("two")), None);
    assert_eq!(outbox.offer(msg("three")), None);
    assert_eq!(outbox.len(), 3);
    assert_eq!(outbox.take(), Some(msg("one")));
    assert_eq!(outbox.take(), Some(msg("two")));
    assert_eq!(outbox.take(), Some(msg("three")));
    assert_eq!(outbox.take(), None);
}

#[test]
fn a_full_outbox_drops_its_oldest_envelope() {
    let mut outbox = Outbox::new(2);
    assert_eq!(outbox.offer(msg("one")), None);
    assert_eq!(outbox.offer(msg("two")), None);
    assert_eq!(outbox.offer(msg("three")), Some(msg("one")));
    assert_eq!(outbox.offer(msg("four")), Some(msg("two")));
    assert_eq!(outbox.len(), 2);
    assert_eq!(outbox.take(), Some(msg("three")));
    assert_eq!(outbox.take(), Some(msg("four")));
    assert_eq!(outbox.take(), None);
}

#[test]
fn an_outbox_of_one_holds_the_newest_envelope() {
    let mut outbox = Outbox::new(1);
    for n in 0..10 {
        outbox.offer(msg(&format!("snapshot {}", n)));
        assert_eq!(outbox.len(), 1);
    }
    assert_eq!(outbox.take(), Some(msg("snapshot 9")));
}

#[test]
fn an_outbox_without_room_holds_nothing() {
    let mut outbox = Outbox::new(0);
    assert_eq!(outbox.offer(msg("one")), Some(msg("one")));
    assert_eq!(outbox.len(), 0);
    assert_eq!(outbox.take(), None);
}

#[test]
fn room_freed_by_taking_is_used_again() {
    let mut outbox = Outbox::new(2);
    outbox.offer(msg("one"));
    outbox.offer(msg("two"));
    assert_eq!(outbox.take(), Some(msg("one")));
    assert_eq!(outbox.offer(msg("three")), None);
    assert_eq!(outbox.take(), Some(msg("two")));
    assert_eq!(outbox.take(), Some(msg("three")));
}
