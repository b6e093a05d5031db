use vote_results::json::EncodeError;
use vote_results::vote::{
    acknowledge, decide, frame_vote, is_vouched, vote, Cookie, Reply, VoteError, VoteRequest,
    INTERNAL_SERVER_ERROR, UNAUTHORIZED,
};

fn cookie(name: &str, value: &str) -> Cookie {
    Cookie { name: String::from(name), value: String::from(value) }
}

fn request(voter_id: &str, vote: &str) -> VoteRequest {
    VoteRequest { voter_id: String::from(voter_id), vote: String::from(vote) }
}

fn command(text: &str) -> Vec<String> {
    vec![String::from("RPUSH"), String::from("votes"), String::from(text)]
}

#[test]
fn the_voter_cookie_vouches_for_its_voter() {
    let cookies = vec![cookie("theme", "dark"), cookie("voter_id", "v-1")];
    assert!(is_vouched(Some(&cookies), &String::from("v-1")));
    assert!(!is_vouched(Some(&cookies), &String::from("v-2")));
    assert!(!is_vouched(Some(&cookies), &String::from("dark")));
}

#[test]
fn without_cookies_nobody_is_vouched_for() {
    assert!(!is_vouched(None, &String::from("v-1")));
    assert!(!is_vouched(Some(&vec![]), &String::from("v-1")));
    assert!(!is_vouched(Some(&vec![cookie("voter", "v-1")]), &String::from("v-1")));
}

#[test]
fn any_matching_voter_cookie_is_enough() {
    let cookies = vec![cookie("voter_id", "old"), cookie("voter_id", "new")];
    assert!(is_vouched(Some(&cookies), &String::from("new")));
    assert!(is_vouched(Some(&cookies), &String::from("old")));
}

#[test]
fn frame_vote_writes_one_object() {
    assert_eq!(frame_vote("\"v-1\"", "\"a\""), "{\"voter_id\":\"v-1\",\"vote\":\"a\"}");
}

#[test]
fn vote_request_to_json() {
    assert_eq!(
        request("v-1", "b").to_json(),
        Ok(String::from("{\"voter_id\":\"v-1\",\"vote\":\"b\"}"))
    );
    assert_eq!(
        request("v\"1", "a").to_json(),
        Ok(String::from("{\"voter_id\":\"v\\\"1\",\"vote\":\"a\"}"))
    );
}

#[test]
fn vote_request_json_is_read_back_by_a_json_parser() {
    let text = request("0b0e4b7e", "a").to_json().unwrap();
    let value: serde_json::Value = serde_json::from_str(&text).unwrap();
    assert_eq!(value["voter_id"].as_str(), Some("0b0e4b7e"));
    assert_eq!(value["vote"].as_str(), Some("a"));
}

#[test]
fn decide_queues_a_vouched_vote() {
    assert_eq!(decide(true, Ok(String::from("{}"))), Ok(command("{}")));
}

#[test]
fn decide_refuses_a_vote_that_is_not_vouched_for() {
    assert_eq!(decide(false, Ok(String::from("{}"))), Err(VoteError::Unauthorized));
    assert_eq!(decide(false, Err(EncodeError)), Err(VoteError::Unauthorized));
}

#[test]
fn decide_gives_up_a_vote_without_text() {
    assert_eq!(decide(true, Err(EncodeError)), Err(VoteError::Unwritable));
}

#[test]
fn a_vouched_vote_is_pushed_to_the_list_of_votes() {
    let cookies = vec![cookie("voter_id", "v-1")];
    assert_eq!(
        vote(Some(&cookies), &request("v-1", "a")),
        Ok(command("{\"voter_id\":\"v-1\",\"vote\":\"a\"}"))
    );
}

#[test]
fn a_vote_under_another_id_is_refused() {
    let cookies = vec![cookie("voter_id", "v-1")];
    assert_eq!(vote(Some(&cookies), &request("v-2", "a")), Err(VoteError::Unauthorized));
    assert_eq!(vote(None, &request("v-1", "a")), Err(VoteError::Unauthorized));
}

#[test]
fn integer_replies_confirm_the_vote() {
    assert_eq!(acknowledge(&vec![Reply::Integer(7)]), Ok(String::from("Your vote was registered.")));
    assert_eq!(
        acknowledge(&vec![Reply::Integer(1), Reply::Integer(-2)]),
        Ok(String::from("Your vote was registered."))
    );
    assert_eq!(acknowledge(&vec![]), Ok(String::from("Your vote was registered.")));
}

#[test]
fn any_other_reply_refuses_the_vote() {
    assert_eq!(acknowledge(&vec![Reply::Other]), Err(VoteError::Unauthorized));
    assert_eq!(acknowledge(&vec![Reply::Failed]), Err(VoteError::Unauthorized));
    assert_eq!(acknowledge(&vec![Reply::Integer(1), Reply::Failed]), Err(VoteError::Unauthorized));
}

#[test]
fn what_a_refused_voter_is_told() {
    assert_eq!(UNAUTHORIZED, 401);
    assert_eq!(INTERNAL_SERVER_ERROR, 500);
    assert_eq!(VoteError::Unauthorized.status_code(), 401);
    assert_eq!(VoteError::Unauthorized.message(), "Unauthorized");
    assert_eq!(VoteError::Unwritable.status_code(), 500);
    assert_eq!(VoteError::Unwritable.message(), "Internal Server Error");
}
