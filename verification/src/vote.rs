//! The intake of votes: who may cast one, what is queued for it, and what the
//! voter is told.
//!
//! A vote counts only if the request carries a `voter_id` cookie with the
//! voter id that the vote names. Such a vote is pushed to the end of the
//! `votes` list of the queue as JSON text; the voter hears of success only if
//! the queue answered every command with an integer.

use crate::json::{json_string, quote, EncodeError};
use vstd::prelude::*;
use vstd::string::StringExecFns;

verus! {

/// Status code of a refused vote.
pub const UNAUTHORIZED: u16 = 401;

/// Status code of a vote that could not be written down.
pub const INTERNAL_SERVER_ERROR: u16 = 500;

/// A vote as a voter sends it.
#[derive(Clone, Debug, PartialEq, Eq)]
pub struct VoteRequest {
    pub voter_id: String,
    pub vote: String,
}

/// A cookie of a request.
#[derive(Clone, Debug, PartialEq, Eq)]
pub struct Cookie {
    pub name: String,
    pub value: String,
}

/// What the queue answered to one command.
#[derive(Clone, Copy, Debug, PartialEq, Eq, Structural)]
pub enum Reply {
    /// An integer, as a push answers with the new length of the list.
    Integer(i64),
    /// Any other value.
    Other,
    /// The command failed or never reached the queue.
    Failed,
}

/// Why a vote was not taken.
#[derive(Clone, Copy, Debug, PartialEq, Eq, Structural)]
pub enum VoteError {
    /// The request does not prove who votes, or the queue did not confirm.
    Unauthorized,
    /// The vote could not be written as JSON text.
    Unwritable,
}

impl VoteError {
    /// The status code that answers the request.
    pub fn status_code(&self) -> (code: u16)
        ensures
            code == match *self {
                VoteError::Unauthorized => UNAUTHORIZED,
                VoteError::Unwritable => INTERNAL_SERVER_ERROR,
            },
    {
        match self {
            VoteError::Unauthorized => UNAUTHORIZED,
            VoteError::Unwritable => INTERNAL_SERVER_ERROR,
        }
    }

    /// The text that answers the request.
    pub fn message(&self) -> (text: String)
        ensures
            text@ == match *self {
                VoteError::Unauthorized => "Unauthorized"@,
                VoteError::Unwritable => "Internal Server Error"@,
            },
    {
        match self {
            VoteError::Unauthorized => String::from_str("Unauthorized"),
            VoteError::Unwritable => String::from_str("Internal Server Error"),
        }
    }
}

/// One of `cookies` is the `voter_id` cookie with the value `voter_id`.
pub open spec fn vouched(cookies: Seq<Cookie>, voter_id: Seq<char>) -> bool {
    exists|i: int|
        0 <= i < cookies.len() && (#[trigger] cookies[i]).name@ == "voter_id"@ && cookies[i].value@
            == voter_id
}

/// A vote as a JSON object, given the JSON literals of its two fields.
pub open spec fn vote_json(voter_literal: Seq<char>, vote_literal: Seq<char>) -> Seq<char> {
    "{\"voter_id\":"@ + voter_literal + ",\"vote\":"@ + vote_literal + "}"@
}

/// The queue command that appends `text` to the list of votes.
pub open spec fn push_votes(text: Seq<char>) -> Seq<Seq<char>> {
    seq!["RPUSH"@, "votes"@, text]
}

/// Every reply is an integer.
pub open spec fn confirmed(replies: Seq<Reply>) -> bool {
    forall|i: int| 0 <= i < replies.len() ==> (#[trigger] replies[i]) is Integer
}

/// The views of the words of a command.
pub open spec fn words(command: Seq<String>) -> Seq<Seq<char>> {
    command.map_values(|word: String| word@)
}

/// Whether the cookies of a request prove that `voter_id` is who votes.
/// A request whose cookies could not be read proves nothing.
pub fn is_vouched(cookies: Option<&Vec<Cookie>>, voter_id: &String) -> (yes: bool)
    ensures
        yes == (cookies matches Some(cookies) && vouched(cookies@, voter_id@)),
{
    match cookies {
        None => false,
        Some(jar) => {
            let name = String::from_str("voter_id");
            let mut i: usize = 0;
            while i < jar.len()
                invariant
                    i <= jar.len(),
                    cookies == Some(jar),
                    name@ == "voter_id"@,
                    forall|k: int|
                        0 <= k < i ==> !((#[trigger] jar@[k]).name@ == "voter_id"@ && jar@[k].value@
                            == voter_id@),
                decreases jar.len() - i,
            {
                if jar[i].name == name && jar[i].value == *voter_id {
                    assert(jar@[i as int].name@ == "voter_id"@);
                    return true;
                }
                i += 1;
            }
            false
        },
    }
}

/// Writes a vote as a JSON object around the JSON literals of its fields.
pub fn frame_vote(voter_literal: &str, vote_literal: &str) -> (text: String)
    ensures
        text@ == vote_json(voter_literal@, vote_literal@),
{
    let mut text = String::from_str("{\"voter_id\":");
    text.append(voter_literal);
    text.append(",\"vote\":");
    text.append(vote_literal);
    text.append("}");
    text
}

impl VoteRequest {
    /// This vote as JSON text: an object that holds the voter id as
    /// `voter_id` and the choice as `vote`. Every vote is written.
    pub fn to_json(&self) -> (text: Result<String, EncodeError>)
        ensures
            text matches Ok(text) && text@ == vote_json(
                json_string(self.voter_id@),
                json_string(self.vote@),
            ),
    {
        let voter = match quote(self.voter_id.as_str()) {
            Ok(literal) => literal,
            Err(error) => {
                return Err(error);
            },
        };
        let vote = match quote(self.vote.as_str()) {
            Ok(literal) => literal,
            Err(error) => {
                return Err(error);
            },
        };
        Ok(frame_vote(voter.as_str(), vote.as_str()))
    }
}

/// Decides what happens to a vote, given whether its voter is vouched for and
/// the JSON text that was made of it: a vouched vote is queued with the
/// command that appends its text to the list of votes, or given up when
/// there is no text; any other vote is refused.
pub fn decide(is_vouched: bool, text: Result<String, EncodeError>) -> (command: Result<
    Vec<String>,
    VoteError,
>)
    ensures
        match command {
            Ok(command) => is_vouched && text is Ok && words(command@) == push_votes(text->Ok_0@),
            Err(VoteError::Unauthorized) => !is_vouched,
            Err(VoteError::Unwritable) => is_vouched && text is Err,
        },
{
    if !is_vouched {
        return Err(VoteError::Unauthorized);
    }
    match text {
        Ok(text) => {
            let mut command: Vec<String> = Vec::new();
            command.push(String::from_str("RPUSH"));
            command.push(String::from_str("votes"));
            command.push(text);
            assert(words(command@) =~= push_votes(text@));
            Ok(command)
        },
        Err(_) => Err(VoteError::Unwritable),
    }
}

/// Takes a vote in. A vote whose voter the cookies of the request vouch for
/// is always taken: the result is the command that appends its JSON text to
/// the list of votes. Any other vote is refused as unauthorized.
pub fn vote(cookies: Option<&Vec<Cookie>>, request: &VoteRequest) -> (command: Result<
    Vec<String>,
    VoteError,
>)
    ensures
        (cookies matches Some(jar) && vouched(jar@, request.voter_id@)) ==> command is Ok,
        match command {
            Ok(command) => {
                &&& cookies matches Some(jar) && vouched(jar@, request.voter_id@)
                &&& words(command@) == push_votes(
                    vote_json(json_string(request.voter_id@), json_string(request.vote@)),
                )
            },
            Err(error) => {
                &&& !(cookies matches Some(jar) && vouched(jar@, request.voter_id@))
                &&& error == VoteError::Unauthorized
            },
        },
{
    if is_vouched(cookies, &request.voter_id) {
        decide(true, request.to_json())
    } else {
        decide(false, Err(EncodeError))
    }
}

/// What the voter is told once the queue has answered: success if every
/// answer is an integer, a refusal otherwise.
pub fn acknowledge(replies: &Vec<Reply>) -> (body: Result<String, VoteError>)
    ensures
        match body {
            Ok(text) => confirmed(replies@) && text@ == "Your vote was registered."@,
            Err(error) => !confirmed(replies@) && error == VoteError::Unauthorized,
        },
{
    let mut i: usize = 0;
    while i < replies.len()
        invariant
            i <= replies.len(),
            forall|k: int| 0 <= k < i ==> (#[trigger] replies@[k]) is Integer,
        decreases replies.len() - i,
    {
        match replies[i] {
            Reply::Integer(_) => {},
            _ => {
                return Err(VoteError::Unauthorized);
            },
        }
        i += 1;
    }
    Ok(String::from_str("Your vote was registered."))
}

} // verus!
