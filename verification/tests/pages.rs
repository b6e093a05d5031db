use vote_results::models::{VoteStats, WsResponse};
use vote_results::poller::vote_variants;
use vote_results::viewer::{same_tallies, total_of, DecodeError, Msg, State, Step, WsAction};
use vote_results::voter;
use vote_results::voter::{create_id, voter_cookie, voter_id, Vote};

fn stats(vote: &str, quantity: u64) -> VoteStats {
    VoteStats { vote: String::from(vote), quantity }
}

fn page_with(data: Vec<VoteStats>) -> State {
    let mut state = State::new(&vote_variants());
    state.receive(data);
    state
}

#[test]
fn a_new_page_shows_zero_for_every_category() {
    let state = State::new(&vote_variants());
    assert_eq!(state.data(), &vec![stats("a", 0), stats("b", 0)]);
    assert_eq!(state.total_votes(), 0);
    assert!(!state.is_connected());
}

#[test]
fn an_even_split_is_shown_before_the_first_vote() {
    let state = State::new(&vote_variants());
    assert_eq!(state.votes_percent("a"), 50);
    assert_eq!(state.votes_percent("b"), 50);
    assert_eq!(state.votes_percent("c"), 50);
    assert_eq!(state.votes_label(), "No votes yet");
}

#[test]
fn shares_are_rounded_down() {
    let state = page_with(vec![stats("a", 3), stats("b", 5)]);
    assert_eq!(state.total_votes(), 8);
    assert_eq!(state.votes_percent("a"), 37);
    assert_eq!(state.votes_percent("b"), 62);
    assert_eq!(state.votes_percent("c"), 0);
    assert_eq!(state.votes_label(), "8 votes");
}

#[test]
fn one_vote_is_worded_in_the_singular() {
    let state = page_with(vec![stats("a", 0), stats("b", 1)]);
    assert_eq!(state.votes_percent("a"), 0);
    assert_eq!(state.votes_percent("b"), 100);
    assert_eq!(state.votes_label(), "1 vote");
}

#[test]
fn counts_under_the_same_label_add_up() {
    let state = page_with(vec![stats("a", 1), stats("b", 2), stats("a", 1)]);
    assert_eq!(state.votes_percent("a"), 50);
    assert_eq!(state.votes_percent("b"), 50);
}

#[test]
fn shares_of_very_large_counts() {
    let state = page_with(vec![stats("a", u64::MAX - 1), stats("b", 1)]);
    assert_eq!(state.total_votes(), u64::MAX);
    assert_eq!(state.votes_percent("a"), 99);
    assert_eq!(state.votes_percent("b"), 0);
}

#[test]
fn tallies_that_differ_are_taken() {
    let mut state = State::new(&vote_variants());
    assert!(state.receive(vec![stats("a", 3), stats("b", 5)]));
    assert_eq!(state.data(), &vec![stats("a", 3), stats("b", 5)]);
    assert_eq!(state.total_votes(), 8);
}

#[test]
fn tallies_that_are_the_same_change_nothing() {
    let mut state = page_with(vec![stats("a", 3), stats("b", 5)]);
    assert!(!state.receive(vec![stats("a", 3), stats("b", 5)]));
    assert_eq!(state.total_votes(), 8);
    assert!(state.receive(vec![stats("b", 5), stats("a", 3)]));
    assert_eq!(state.data(), &vec![stats("b", 5), stats("a", 3)]);
}

#[test]
fn tallies_beyond_sixty_four_bits_are_not_taken() {
    let mut state = page_with(vec![stats("a", 3), stats("b", 5)]);
    assert!(!state.receive(vec![stats("a", u64::MAX), stats("b", 1)]));
    assert_eq!(state.data(), &vec![stats("a", 3), stats("b", 5)]);
    assert_eq!(state.total_votes(), 8);
}

#[test]
fn total_of_tallies() {
    assert_eq!(total_of(&vec![]), Some(0));
    assert_eq!(total_of(&vec![stats("a", 3), stats("b", 5)]), Some(8));
    assert_eq!(total_of(&vec![stats("a", u64::MAX)]), Some(u64::MAX));
    assert_eq!(total_of(&vec![stats("a", u64::MAX), stats("b", 1)]), None);
}

#[test]
fn same_tallies_compares_labels_counts_and_order() {
    assert!(same_tallies(&vec![], &vec![]));
    assert!(same_tallies(&vec![stats("a", 1)], &vec![stats("a", 1)]));
    assert!(!same_tallies(&vec![stats("a", 1)], &vec![stats("a", 2)]));
    assert!(!same_tallies(&vec![stats("a", 1)], &vec![stats("b", 1)]));
    assert!(!same_tallies(&vec![stats("a", 1)], &vec![]));
    assert!(!same_tallies(
        &vec![stats("a", 1), stats("b", 2)],
        &vec![stats("b", 2), stats("a", 1)]
    ));
}

#[test]
fn the_first_drawing_connects() {
    assert_eq!(State::rendered(true), Some(Msg::WsAction(WsAction::Connect)));
    assert_eq!(State::rendered(false), None);
    assert_eq!(Msg::from(WsAction::Lost), Msg::WsAction(WsAction::Lost));
}

#[test]
fn connection_actions() {
    let mut state = State::new(&vote_variants());
    assert_eq!(state.update(Msg::WsAction(WsAction::Connect)), Step::Open);
    assert!(state.is_connected());
    assert_eq!(state.update(Msg::WsAction(WsAction::Lost)), Step::Forget);
    assert!(state.is_connected());
    assert_eq!(state.update(Msg::WsAction(WsAction::Disconnect)), Step::Close);
    assert!(!state.is_connected());
    assert_eq!(state.update(Msg::Ignore), Step::Skip);
}

#[test]
fn a_statistics_envelope_is_sent_off_for_decoding() {
    let mut state = State::new(&vote_variants());
    let envelope = WsResponse {
        action: String::from("received_statistics"),
        data: String::from("[{\"category\":\"a\",\"quantity\":3}]"),
    };
    assert_eq!(
        state.update(Msg::WsReady(Ok(envelope))),
        Step::Decode(String::from("[{\"category\":\"a\",\"quantity\":3}]"))
    );
    assert_eq!(state.total_votes(), 0);
}

#[test]
fn anything_else_that_arrives_is_passed_over() {
    let mut state = State::new(&vote_variants());
    let envelope = WsResponse { action: String::from("hello"), data: String::from("[]") };
    assert_eq!(state.update(Msg::WsReady(Ok(envelope))), Step::Skip);
    assert_eq!(state.update(Msg::WsReady(Err(DecodeError))), Step::Skip);
}

#[test]
fn labels_of_the_two_choices() {
    assert_eq!(Vote::A.as_str(), "a");
    assert_eq!(Vote::B.as_str(), "b");
    assert_eq!(Vote::from_label("a"), Some(Vote::A));
    assert_eq!(Vote::from_label("b"), Some(Vote::B));
    assert_eq!(Vote::from_label("c"), None);
    assert_eq!(Vote::from_label(""), None);
    assert_eq!(Vote::from_label("ab"), None);
}

#[test]
fn voter_id_is_read_from_its_cookie() {
    assert_eq!(voter_id("voter_id=abc"), Some(String::from("abc")));
    assert_eq!(voter_id("theme=dark; voter_id=abc"), Some(String::from("abc")));
    assert_eq!(voter_id("voter_id=abc; theme=dark"), Some(String::from("abc")));
    assert_eq!(voter_id("a=1; voter_id=abc; b=2"), Some(String::from("abc")));
    assert_eq!(voter_id("voter_id="), Some(String::from("")));
}

#[test]
fn the_first_voter_cookie_wins() {
    assert_eq!(voter_id("voter_id=one; voter_id=two"), Some(String::from("one")));
    assert_eq!(voter_id("voter_id=a=b; voter_id=two"), Some(String::from("two")));
}

#[test]
fn text_without_a_voter_cookie_holds_no_voter_id() {
    assert_eq!(voter_id(""), None);
    assert_eq!(voter_id("theme=dark"), None);
    assert_eq!(voter_id("voter_id"), None);
    assert_eq!(voter_id("xvoter_id=abc"), None);
    assert_eq!(voter_id("voter_id=a=b"), None);
    assert_eq!(voter_id("theme=dark;voter_id=abc"), None);
    assert_eq!(voter_id("theme=dark;  voter_id=abc"), None);
    assert_eq!(voter_id("voter_id=abc;"), Some(String::from("abc;")));
}

#[test]
fn voter_id_agrees_with_splitting_the_text() {
    let samples = [
        "",
        "; ",
        "voter_id=1; ",
        "; voter_id=1",
        ";; voter_id=1",
        "a; b; voter_id=\u{e9}t\u{e9}",
        "voter_id=1;2; voter_id=3",
        "=; voter_id==; voter_id=ok",
        "voter_id=x; ",
        "k=v; voter_id",
    ];
    for text in samples {
        let mut expected = None;
        for part in text.split("; ") {
            let pieces: Vec<&str> = part.split('=').collect();
            if pieces.len() == 2 && pieces[0] == "voter_id" {
                expected = Some(String::from(pieces[1]));
                break;
            }
        }
        assert_eq!(voter_id(text), expected);
    }
}

#[test]
fn the_cookie_that_keeps_a_voter_id() {
    assert_eq!(voter_cookie("abc"), "voter_id=abc");
    assert_eq!(voter_id(&voter_cookie("abc")), Some(String::from("abc")));
}

#[test]
fn a_known_voter_keeps_their_id() {
    assert_eq!(
        create_id("theme=dark; voter_id=abc", String::from("fresh")),
        (String::from("abc"), None)
    );
}

#[test]
fn an_unknown_voter_gets_the_fresh_id_and_a_cookie() {
    assert_eq!(
        create_id("theme=dark", String::from("fresh")),
        (String::from("fresh"), Some(String::from("voter_id=fresh")))
    );
    assert_eq!(
        create_id("", String::from("fresh")),
        (String::from("fresh"), Some(String::from("voter_id=fresh")))
    );
}

#[test]
fn a_choice_is_kept_and_sent() {
    let mut state = voter::State::new(String::from("abc"));
    assert_eq!(state.id(), "abc");
    assert_eq!(state.vote(), None);
    assert_eq!(state.update(voter::Msg::Vote(String::from("a"))), voter::Step::Send(String::from("a")));
    assert_eq!(state.vote(), Some(Vote::A));
    assert_eq!(state.update(voter::Msg::Vote(String::from("b"))), voter::Step::Send(String::from("b")));
    assert_eq!(state.vote(), Some(Vote::B));
}

#[test]
fn an_unknown_choice_is_sent_but_not_kept() {
    let mut state = voter::State::new(String::from("abc"));
    state.update(voter::Msg::Vote(String::from("a")));
    assert_eq!(state.update(voter::Msg::Vote(String::from("z"))), voter::Step::Send(String::from("z")));
    assert_eq!(state.vote(), Some(Vote::A));
}

#[test]
fn the_answer_of_the_intake_decides_about_drawing() {
    let mut state = voter::State::new(String::from("abc"));
    assert_eq!(state.update(voter::Msg::VoteSuccessful), voter::Step::Render);
    assert_eq!(state.update(voter::Msg::VoteNotSuccessful), voter::Step::Skip);
    assert_eq!(state.vote(), None);
}
