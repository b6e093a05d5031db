//! What a voting page keeps: who votes and what they chose.
//!
//! A voter is known by an id that the page keeps in its `voter_id` cookie.
//! The page reads and writes the cookie store itself; here is how the store's
//! text is read, and what the page does when a choice is made.

use vstd::prelude::*;
use vstd::string::{StrSliceExecFns, StringExecFns};

verus! {

/// The two choices of the vote.
#[derive(Clone, Copy, Debug, PartialEq, Eq, Structural)]
pub enum Vote {
    A,
    B,
}

impl Vote {
    /// The label under which the choice is counted.
    pub open spec fn label(self) -> Seq<char> {
        match self {
            Vote::A => "a"@,
            Vote::B => "b"@,
        }
    }

    /// The label under which the choice is counted.
    pub fn as_str(&self) -> (label: &'static str)
        ensures
            label@ == self.label(),
    {
        match self {
            Vote::A => "a",
            Vote::B => "b",
        }
    }

    /// The choice that is counted under `label`, if there is one.
    pub fn from_label(label: &str) -> (vote: Option<Vote>)
        ensures
            vote == if label@ == Vote::A.label() {
                Some(Vote::A)
            } else if label@ == Vote::B.label() {
                Some(Vote::B)
            } else {
                None
            },
    {
        let label = String::from_str(label);
        if label == String::from_str(Vote::A.as_str()) {
            Some(Vote::A)
        } else if label == String::from_str(Vote::B.as_str()) {
            Some(Vote::B)
        } else {
            None
        }
    }
}

/// The text `voter_id=`, which opens the cookie that names the voter.
pub open spec fn cookie_prefix() -> Seq<char> {
    "voter_id="@
}

/// Cookies are separated by a semicolon and a space; one such separator
/// starts at `i`.
pub open spec fn separator_at(cookies: Seq<char>, i: int) -> bool {
    0 <= i && i + 1 < cookies.len() && cookies[i] == ';' && cookies[i + 1] == ' '
}

/// Where the cookie that starts at `start` ends: at the next separator, or at
/// the end of the text.
pub open spec fn cookie_end(cookies: Seq<char>, start: int) -> int
    decreases cookies.len() - start,
{
    if start < 0 || start >= cookies.len() {
        cookies.len() as int
    } else if separator_at(cookies, start) {
        start
    } else {
        cookie_end(cookies, start + 1)
    }
}

/// `cookie` is `voter_id`, an equals sign, and a value without equals signs.
pub open spec fn names_voter(cookie: Seq<char>) -> bool {
    &&& cookie.len() >= cookie_prefix().len()
    &&& cookie.take(cookie_prefix().len() as int) == cookie_prefix()
    &&& !cookie.skip(cookie_prefix().len() as int).contains('=')
}

/// The value of the first cookie at or after `start` that names the voter.
pub open spec fn voter_id_from(cookies: Seq<char>, start: int) -> Option<Seq<char>>
    decreases cookies.len() - start,
{
    if start < 0 || start > cookies.len() {
        None
    } else {
        let end = cookie_end(cookies, start);
        let cookie = cookies.subrange(start, end);
        if names_voter(cookie) {
            Some(cookie.skip(cookie_prefix().len() as int))
        } else if start <= end && end + 2 <= cookies.len() {
            voter_id_from(cookies, end + 2)
        } else {
            None
        }
    }
}

/// The voter id that a cookie store holds, if it holds one.
pub open spec fn voter_id_in(cookies: Seq<char>) -> Option<Seq<char>> {
    voter_id_from(cookies, 0)
}

/// The end of a cookie lies between its start and the end of the text, no
/// separator starts inside the cookie, and one starts at its end unless the
/// text is over.
pub proof fn lemma_cookie_end(cookies: Seq<char>, start: int)
    requires
        0 <= start <= cookies.len(),
    ensures
        start <= cookie_end(cookies, start) <= cookies.len(),
        forall|i: int| start <= i < cookie_end(cookies, start) ==> !separator_at(cookies, i),
        cookie_end(cookies, start) < cookies.len() ==> separator_at(
            cookies,
            cookie_end(cookies, start),
        ),
    decreases cookies.len() - start,
{
    if start < cookies.len() && !separator_at(cookies, start) {
        lemma_cookie_end(cookies, start + 1);
    }
}

fn find_cookie_end(cookies: &str, len: usize, start: usize) -> (end: usize)
    requires
        len == cookies@.len(),
        start <= len,
    ensures
        end == cookie_end(cookies@, start as int),
        start <= end <= len,
{
    let mut end = start;
    while end < len
        invariant
            start <= end <= len,
            len == cookies@.len(),
            cookie_end(cookies@, start as int) == cookie_end(cookies@, end as int),
        decreases len - end,
    {
        if cookies.get_char(end) == ';' && end + 1 < len && cookies.get_char(end + 1) == ' ' {
            return end;
        }
        end += 1;
    }
    end
}

fn has_equals_sign(text: &str) -> (found: bool)
    ensures
        found == text@.contains('='),
{
    let len = text.unicode_len();
    let mut i: usize = 0;
    while i < len
        invariant
            i <= len,
            len == text@.len(),
            forall|k: int| 0 <= k < i ==> text@[k] != '=',
        decreases len - i,
    {
        if text.get_char(i) == '=' {
            return true;
        }
        i += 1;
    }
    false
}

fn value_if_voter(cookie: &str) -> (value: Option<String>)
    ensures
        match value {
            Some(value) => names_voter(cookie@) && value@ == cookie@.skip(
                cookie_prefix().len() as int,
            ),
            None => !names_voter(cookie@),
        },
{
    proof {
        reveal_strlit("voter_id=");
    }
    let prefix = "voter_id=";
    let width = prefix.unicode_len();
    let len = cookie.unicode_len();
    if len < width {
        return None;
    }
    let head = String::from_str(cookie.substring_char(0, width));
    if !(head == String::from_str(prefix)) {
        return None;
    }
    let rest = cookie.substring_char(width, len);
    assert(rest@ =~= cookie@.skip(width as int));
    if has_equals_sign(rest) {
        None
    } else {
        Some(String::from_str(rest))
    }
}

/// Reads the voter id out of the text of a cookie store: the value of the
/// first cookie that consists of `voter_id`, an equals sign and a value
/// without equals signs.
pub fn voter_id(cookies: &str) -> (id: Option<String>)
    ensures
        match id {
            Some(id) => voter_id_in(cookies@) == Some(id@),
            None => voter_id_in(cookies@) is None,
        },
{
    let len = cookies.unicode_len();
    let mut start: usize = 0;
    loop
        invariant
            start <= len,
            len == cookies@.len(),
            voter_id_in(cookies@) == voter_id_from(cookies@, start as int),
        decreases len - start,
    {
        let end = find_cookie_end(cookies, len, start);
        proof {
            lemma_cookie_end(cookies@, start as int);
        }
        let cookie = cookies.substring_char(start, end);
        match value_if_voter(cookie) {
            Some(value) => {
                return Some(value);
            },
            None => {},
        }
        if end >= len {
            return None;
        }
        start = end + 2;
    }
}

/// The cookie that keeps `id` as the voter id.
pub fn voter_cookie(id: &str) -> (cookie: String)
    ensures
        cookie@ == cookie_prefix() + id@,
{
    let mut cookie = String::from_str("voter_id=");
    cookie.append(id);
    cookie
}

/// Settles who votes, given the text of the cookie store and a fresh id to
/// fall back on. The result is the voter id and, when the store held none,
/// the cookie to add to it.
pub fn create_id(cookies: &str, fresh: String) -> (settled: (String, Option<String>))
    ensures
        match voter_id_in(cookies@) {
            Some(id) => settled.0@ == id && settled.1 is None,
            None => {
                &&& settled.0 == fresh
                &&& settled.1 matches Some(cookie)
                &&& cookie@ == cookie_prefix() + fresh@
            },
        },
{
    match voter_id(cookies) {
        Some(id) => (id, None),
        None => {
            let cookie = voter_cookie(fresh.as_str());
            (fresh, Some(cookie))
        },
    }
}

/// What can happen to the page.
#[derive(Clone, Debug, PartialEq, Eq)]
pub enum Msg {
    /// The voter chose the option with this label.
    Vote(String),
    /// The intake took the vote.
    VoteSuccessful,
    /// The intake refused the vote.
    VoteNotSuccessful,
}

/// What the page has to do after a message.
#[derive(Clone, Debug, PartialEq, Eq)]
pub enum Step {
    /// Nothing; what is shown stays as it is.
    Skip,
    /// Draw again.
    Render,
    /// Send a vote for this label to the intake and draw again.
    Send(String),
}

/// The page's state as contracts see it.
pub struct BallotState {
    /// The voter id.
    pub id: Seq<char>,
    /// What the voter chose last.
    pub vote: Option<Vote>,
}

impl BallotState {
    /// The state after a message, and the step to take. A choice is sent to
    /// the intake whatever its label; it is kept only if it is one of the two
    /// options.
    pub open spec fn after(self, msg: Msg) -> (BallotState, Step) {
        match msg {
            Msg::Vote(label) => (
                BallotState {
                    vote: if label@ == Vote::A.label() {
                        Some(Vote::A)
                    } else if label@ == Vote::B.label() {
                        Some(Vote::B)
                    } else {
                        self.vote
                    },
                    ..self
                },
                Step::Send(label),
            ),
            Msg::VoteSuccessful => (self, Step::Render),
            Msg::VoteNotSuccessful => (self, Step::Skip),
        }
    }
}

/// What a voting page keeps.
pub struct State {
    id: String,
    vote: Option<Vote>,
}

impl View for State {
    type V = BallotState;

    closed spec fn view(&self) -> BallotState {
        BallotState { id: self.id@, vote: self.vote }
    }
}

impl State {
    /// The state of a page whose voter has not chosen yet.
    pub fn new(id: String) -> (state: State)
        ensures
            state@ == (BallotState { id: id@, vote: None }),
    {
        State { id, vote: None }
    }

    /// The voter id.
    pub fn id(&self) -> (id: &String)
        ensures
            id@ == self@.id,
    {
        &self.id
    }

    /// What the voter chose last.
    pub fn vote(&self) -> (vote: Option<Vote>)
        ensures
            vote == self@.vote,
    {
        self.vote
    }

    /// Takes a message in and says what to do about it.
    pub fn update(&mut self, msg: Msg) -> (step: Step)
        ensures
            (final(self)@, step) == old(self)@.after(msg),
    {
        match msg {
            Msg::Vote(label) => {
                match Vote::from_label(label.as_str()) {
                    Some(vote) => {
                        self.vote = Some(vote);
                    },
                    None => {},
                }
                Step::Send(label)
            },
            Msg::VoteSuccessful => Step::Render,
            Msg::VoteNotSuccessful => Step::Skip,
        }
    }
}

} // verus!
