//! What a results page keeps: the latest tallies, their total, and whether
//! it means to be connected.
//!
//! The page owns its socket and draws itself; here is what it decides. It is
//! told what happened as a [`Msg`] and answers with the [`Step`] to take.
//! The payload of an envelope is decoded by the page and handed back through
//! [`State::receive`].

use crate::json::decimal_text;
use crate::models::{tallies, VoteStats, WsResponse, WsResponseAction};
use crate::poller::labels;
use vstd::prelude::*;
use vstd::string::StringExecFns;

verus! {

/// What the page does about its connection.
#[derive(Clone, Copy, Debug, PartialEq, Eq, Structural)]
pub enum WsAction {
    /// Open the socket.
    Connect,
    /// Close the socket.
    Disconnect,
    /// The socket was closed or failed.
    Lost,
}

/// What came over the socket was not an envelope.
#[derive(Clone, Copy, Debug, PartialEq, Eq, Structural)]
pub struct DecodeError;

/// What can happen to the page.
#[derive(Debug, PartialEq, Eq)]
pub enum Msg {
    WsAction(WsAction),
    /// Something arrived over the socket.
    WsReady(Result<WsResponse, DecodeError>),
    Ignore,
}

impl From<WsAction> for Msg {
    fn from(action: WsAction) -> (msg: Msg) {
        Msg::WsAction(action)
    }
}

impl vstd::std_specs::convert::FromSpecImpl<WsAction> for Msg {
    open spec fn obeys_from_spec() -> bool {
        true
    }

    open spec fn from_spec(action: WsAction) -> Msg {
        Msg::WsAction(action)
    }
}

/// What the page has to do after a message.
#[derive(Clone, Debug, PartialEq, Eq)]
pub enum Step {
    /// Nothing; what is shown stays as it is.
    Skip,
    /// Open the socket and draw again.
    Open,
    /// Close the socket and draw again.
    Close,
    /// Let go of the socket and draw again.
    Forget,
    /// Decode this payload into tallies and hand them to `receive`.
    Decode(String),
}

/// The sum of all counts.
pub open spec fn total(data: Seq<(Seq<char>, u64)>) -> nat
    decreases data.len(),
{
    if data.len() == 0 {
        0
    } else {
        total(data.drop_last()) + data.last().1 as nat
    }
}

/// The sum of the counts given under the label `vote`.
pub open spec fn votes_for(data: Seq<(Seq<char>, u64)>, vote: Seq<char>) -> nat
    decreases data.len(),
{
    if data.len() == 0 {
        0
    } else {
        votes_for(data.drop_last(), vote) + if data.last().0 == vote {
            data.last().1 as nat
        } else {
            0nat
        }
    }
}

/// The share of `vote` among all votes in percent, rounded down; an even
/// split as long as nobody has voted.
pub open spec fn percent(data: Seq<(Seq<char>, u64)>, vote: Seq<char>) -> nat {
    if total(data) == 0 {
        50
    } else {
        votes_for(data, vote) * 100 / total(data)
    }
}

/// A tally of zero for each label, in order.
pub open spec fn zeroed(categories: Seq<Seq<char>>) -> Seq<(Seq<char>, u64)> {
    categories.map_values(|label: Seq<char>| (label, 0u64))
}

/// How the page words the number of votes.
pub open spec fn votes_label(total_votes: u64) -> Seq<char> {
    if total_votes == 0 {
        "No votes yet"@
    } else if total_votes == 1 {
        "1 vote"@
    } else {
        crate::json::decimal(total_votes as nat) + " votes"@
    }
}

/// The counts under one label never exceed the counts under all.
pub proof fn lemma_votes_within_total(data: Seq<(Seq<char>, u64)>, vote: Seq<char>)
    ensures
        votes_for(data, vote) <= total(data),
    decreases data.len(),
{
    if data.len() > 0 {
        lemma_votes_within_total(data.drop_last(), vote);
    }
}

/// The total of a part of the tallies never exceeds the total of all.
pub proof fn lemma_total_grows(data: Seq<(Seq<char>, u64)>, n: int)
    requires
        0 <= n <= data.len(),
    ensures
        total(data.take(n)) <= total(data),
    decreases data.len() - n,
{
    if n < data.len() {
        lemma_total_grows(data, n + 1);
        assert(data.take(n + 1).drop_last() =~= data.take(n));
    } else {
        assert(data.take(n) =~= data);
    }
}

/// A share is never more than the whole.
pub proof fn lemma_percent_at_most_hundred(data: Seq<(Seq<char>, u64)>, vote: Seq<char>)
    ensures
        percent(data, vote) <= 100,
{
    lemma_votes_within_total(data, vote);
    let all = total(data);
    let part = votes_for(data, vote);
    if all > 0 {
        assert(part * 100 / all <= 100) by (nonlinear_arith)
            requires
                part <= all,
                all > 0,
        ;
    }
}

/// The page's state as contracts see it.
pub struct PageState {
    /// The tallies that are shown.
    pub data: Seq<(Seq<char>, u64)>,
    /// Their total.
    pub total_votes: u64,
    /// Whether the page means to be connected.
    pub is_connected: bool,
}

impl PageState {
    /// The total that is kept is the total of the tallies that are kept.
    pub open spec fn well_formed(self) -> bool {
        self.total_votes == total(self.data)
    }

    /// The state after a message, and the step to take.
    pub open spec fn after(self, msg: Msg) -> (PageState, Step) {
        match msg {
            Msg::WsAction(WsAction::Connect) => (
                PageState { is_connected: true, ..self },
                Step::Open,
            ),
            Msg::WsAction(WsAction::Disconnect) => (
                PageState { is_connected: false, ..self },
                Step::Close,
            ),
            Msg::WsAction(WsAction::Lost) => (self, Step::Forget),
            Msg::Ignore => (self, Step::Skip),
            Msg::WsReady(Ok(response)) => if response.action@
                == WsResponseAction::ReceivedStatistics.tag() {
                (self, Step::Decode(response.data))
            } else {
                (self, Step::Skip)
            },
            Msg::WsReady(Err(_)) => (self, Step::Skip),
        }
    }

    /// Whether tallies that arrive are taken: they differ from what is shown
    /// and their total fits into sixty-four bits.
    pub open spec fn takes(self, data: Seq<(Seq<char>, u64)>) -> bool {
        data != self.data && total(data) <= u64::MAX
    }

    /// The state after tallies arrived.
    pub open spec fn received(self, data: Seq<(Seq<char>, u64)>) -> PageState {
        if self.takes(data) {
            PageState { data, total_votes: total(data) as u64, ..self }
        } else {
            self
        }
    }
}

/// Whether two lists of tallies hold the same labels and counts in the same
/// order.
pub fn same_tallies(left: &Vec<VoteStats>, right: &Vec<VoteStats>) -> (same: bool)
    ensures
        same == (tallies(left@) == tallies(right@)),
{
    if left.len() != right.len() {
        assert(tallies(left@).len() != tallies(right@).len());
        return false;
    }
    let mut i: usize = 0;
    while i < left.len()
        invariant
            i <= left.len(),
            left.len() == right.len(),
            forall|k: int| 0 <= k < i ==> (#[trigger] left@[k])@ == right@[k]@,
        decreases left.len() - i,
    {
        if !(left[i].vote == right[i].vote && left[i].quantity == right[i].quantity) {
            assert(tallies(left@)[i as int] != tallies(right@)[i as int]);
            return false;
        }
        i += 1;
    }
    assert(tallies(left@) =~= tallies(right@));
    true
}

/// The total of the counts, unless it does not fit into sixty-four bits.
pub fn total_of(data: &Vec<VoteStats>) -> (sum: Option<u64>)
    ensures
        match sum {
            Some(sum) => sum == total(tallies(data@)),
            None => total(tallies(data@)) > u64::MAX,
        },
{
    let ghost all = tallies(data@);
    let mut sum: u64 = 0;
    let mut i: usize = 0;
    while i < data.len()
        invariant
            i <= data.len(),
            all == tallies(data@),
            sum == total(all.take(i as int)),
        decreases data.len() - i,
    {
        proof {
            assert(all.take(i + 1).drop_last() =~= all.take(i as int));
            lemma_total_grows(all, i + 1);
        }
        match sum.checked_add(data[i].quantity) {
            Some(next) => {
                sum = next;
            },
            None => {
                return None;
            },
        }
        i += 1;
    }
    assert(all.take(i as int) =~= all);
    Some(sum)
}

/// What a results page keeps.
pub struct State {
    data: Vec<VoteStats>,
    total_votes: u64,
    is_connected: bool,
}

impl View for State {
    type V = PageState;

    closed spec fn view(&self) -> PageState {
        PageState {
            data: tallies(self.data@),
            total_votes: self.total_votes,
            is_connected: self.is_connected,
        }
    }
}

impl State {
    #[verifier::type_invariant]
    spec fn inv(self) -> bool {
        self@.well_formed()
    }

    /// The state of a page that has heard nothing yet: every category at
    /// zero, no connection.
    pub fn new(categories: &Vec<String>) -> (state: State)
        ensures
            state@ == (PageState {
                data: zeroed(labels(categories@)),
                total_votes: 0,
                is_connected: false,
            }),
    {
        let mut data: Vec<VoteStats> = Vec::new();
        let mut i: usize = 0;
        while i < categories.len()
            invariant
                i <= categories.len(),
                data@.len() == i,
                forall|k: int| 0 <= k < i ==> (#[trigger] data@[k])@ == (categories@[k]@, 0u64),
                total(tallies(data@)) == 0,
            decreases categories.len() - i,
        {
            let ghost before = tallies(data@);
            data.push(VoteStats { vote: categories[i].clone(), quantity: 0 });
            assert(tallies(data@).drop_last() =~= before);
            i += 1;
        }
        assert(tallies(data@) =~= zeroed(labels(categories@)));
        State { data, total_votes: 0, is_connected: false }
    }

    /// The tallies that are shown.
    pub fn data(&self) -> (data: &Vec<VoteStats>)
        ensures
            tallies(data@) == self@.data,
    {
        &self.data
    }

    /// The total of the tallies that are shown.
    pub fn total_votes(&self) -> (sum: u64)
        ensures
            sum == self@.total_votes,
            self@.well_formed(),
    {
        proof {
            use_type_invariant(self);
        }
        self.total_votes
    }

    /// Whether the page means to be connected.
    pub fn is_connected(&self) -> (yes: bool)
        ensures
            yes == self@.is_connected,
    {
        self.is_connected
    }

    /// The share of `vote` among all votes in percent, rounded down; fifty
    /// as long as nobody has voted.
    pub fn votes_percent(&self, vote: &str) -> (share: u64)
        ensures
            share == percent(self@.data, vote@),
            share <= 100,
    {
        proof {
            use_type_invariant(self);
            lemma_percent_at_most_hundred(self@.data, vote@);
        }
        let wanted = String::from_str(vote);
        let ghost all = tallies(self.data@);
        let mut votes_quantity: u64 = 0;
        let mut i: usize = 0;
        while i < self.data.len()
            invariant
                i <= self.data.len(),
                wanted@ == vote@,
                all == tallies(self.data@),
                total(all) == self.total_votes,
                votes_quantity == votes_for(all.take(i as int), vote@),
            decreases self.data.len() - i,
        {
            proof {
                assert(all.take(i + 1).drop_last() =~= all.take(i as int));
                lemma_votes_within_total(all.take(i + 1), vote@);
                lemma_total_grows(all, i + 1);
            }
            if self.data[i].vote == wanted {
                votes_quantity = votes_quantity + self.data[i].quantity;
            }
            i += 1;
        }
        assert(all.take(i as int) =~= all);
        if self.total_votes != 0 {
            let scaled: u128 = votes_quantity as u128 * 100;
            let share: u128 = scaled / (self.total_votes as u128);
            share as u64
        } else {
            50
        }
    }

    /// How the page words the number of votes.
    pub fn votes_label(&self) -> (text: String)
        ensures
            text@ == votes_label(self@.total_votes),
    {
        if self.total_votes == 0 {
            String::from_str("No votes yet")
        } else if self.total_votes == 1 {
            String::from_str("1 vote")
        } else {
            let mut text = decimal_text(self.total_votes);
            text.append(" votes");
            text
        }
    }

    /// The message a page sends itself after it was drawn: the first time, it
    /// connects.
    pub fn rendered(first_render: bool) -> (msg: Option<Msg>)
        ensures
            msg == if first_render {
                Some(Msg::WsAction(WsAction::Connect))
            } else {
                None
            },
    {
        if first_render {
            Some(Msg::WsAction(WsAction::Connect))
        } else {
            None
        }
    }

    /// Takes a message in and says what to do about it.
    ///
    /// Connecting and disconnecting set whether the page means to be
    /// connected. An envelope that announces statistics has its payload sent
    /// off for decoding; anything else that arrives is passed over.
    pub fn update(&mut self, msg: Msg) -> (step: Step)
        ensures
            (final(self)@, step) == old(self)@.after(msg),
    {
        proof {
            use_type_invariant(&*self);
        }
        match msg {
            Msg::WsAction(WsAction::Connect) => {
                self.is_connected = true;
                Step::Open
            },
            Msg::WsAction(WsAction::Disconnect) => {
                self.is_connected = false;
                Step::Close
            },
            Msg::WsAction(WsAction::Lost) => Step::Forget,
            Msg::Ignore => Step::Skip,
            Msg::WsReady(Ok(response)) => {
                let tag = WsResponseAction::ReceivedStatistics.as_str();
                if response.action == tag {
                    Step::Decode(response.data)
                } else {
                    Step::Skip
                }
            },
            Msg::WsReady(Err(_)) => Step::Skip,
        }
    }

    /// Takes decoded tallies in and says whether the page has to be drawn
    /// again.
    ///
    /// Tallies that differ from what is shown replace it, together with their
    /// total. Tallies that are the same, or whose total does not fit into
    /// sixty-four bits, change nothing.
    pub fn receive(&mut self, data: Vec<VoteStats>) -> (changed: bool)
        ensures
            changed == old(self)@.takes(tallies(data@)),
            final(self)@ == old(self)@.received(tallies(data@)),
    {
        proof {
            use_type_invariant(&*self);
        }
        if same_tallies(&data, &self.data) {
            return false;
        }
        match total_of(&data) {
            Some(total_votes) => {
                *self = State { data, total_votes, is_connected: self.is_connected };
                true
            },
            None => false,
        }
    }
}

} // verus!
