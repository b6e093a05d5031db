//! What is sent to viewers: tallies, and the envelope that carries them.

use crate::json::{
    array_json, frame_array, frame_response, frame_stats, json_string, quote, response_json,
    stats_json, texts, EncodeError,
};
use vstd::prelude::*;
use vstd::string::StringExecFns;

verus! {

/// The tally of one category.
#[derive(Clone, Debug, PartialEq, Eq)]
pub struct VoteStats {
    /// The label of the category.
    pub vote: String,
    /// The number of votes the category holds.
    pub quantity: u64,
}

impl View for VoteStats {
    type V = (Seq<char>, u64);

    open spec fn view(&self) -> (Seq<char>, u64) {
        (self.vote@, self.quantity)
    }
}

/// The wire-level wrapper: an action tag and a payload that is JSON text
/// itself.
#[derive(Clone, Debug, PartialEq, Eq)]
pub struct WsResponse {
    pub action: String,
    pub data: String,
}

impl View for WsResponse {
    type V = (Seq<char>, Seq<char>);

    open spec fn view(&self) -> (Seq<char>, Seq<char>) {
        (self.action@, self.data@)
    }
}

/// The actions an envelope can announce.
#[derive(Clone, Copy, Debug, PartialEq, Eq, Structural)]
pub enum WsResponseAction {
    /// The payload is a fresh snapshot of the tallies.
    ReceivedStatistics,
}

impl WsResponseAction {
    /// The tag that stands for the action on the wire.
    pub open spec fn tag(self) -> Seq<char> {
        "received_statistics"@
    }

    /// The tag that stands for the action on the wire.
    pub fn as_str(&self) -> (tag: String)
        ensures
            tag@ == self.tag(),
    {
        match self {
            WsResponseAction::ReceivedStatistics => String::from_str("received_statistics"),
        }
    }
}

/// A snapshot as contracts see it: label and count of each category, in order.
pub open spec fn tallies(snapshot: Seq<VoteStats>) -> Seq<(Seq<char>, u64)> {
    snapshot.map_values(|stats: VoteStats| stats@)
}

/// The JSON text of a snapshot: an array with one object per tally, in order.
pub open spec fn snapshot_json(snapshot: Seq<(Seq<char>, u64)>) -> Seq<char> {
    array_json(snapshot.map_values(|tally: (Seq<char>, u64)| stats_json(json_string(tally.0), tally.1)))
}

/// The JSON text of an envelope with this action and this payload.
pub open spec fn envelope_json(envelope: (Seq<char>, Seq<char>)) -> Seq<char> {
    response_json(json_string(envelope.0), json_string(envelope.1))
}

/// The JSON text of the envelope that announces `snapshot`.
pub open spec fn statistics_json(snapshot: Seq<(Seq<char>, u64)>) -> Seq<char> {
    envelope_json((WsResponseAction::ReceivedStatistics.tag(), snapshot_json(snapshot)))
}

impl VoteStats {
    /// This tally as JSON text: an object that holds the label as `category`
    /// and the count as `quantity`. Every tally is written.
    pub fn to_json(&self) -> (text: Result<String, EncodeError>)
        ensures
            text matches Ok(text) && text@ == stats_json(json_string(self.vote@), self.quantity),
    {
        match quote(self.vote.as_str()) {
            Ok(literal) => Ok(frame_stats(literal.as_str(), self.quantity)),
            Err(error) => Err(error),
        }
    }
}

/// A snapshot as JSON text: an array of its tallies, in order. Every
/// snapshot is written.
pub fn snapshot_to_json(snapshot: &Vec<VoteStats>) -> (text: Result<String, EncodeError>)
    ensures
        text matches Ok(text) && text@ == snapshot_json(tallies(snapshot@)),
{
    let ghost expected = tallies(snapshot@).map_values(
        |tally: (Seq<char>, u64)| stats_json(json_string(tally.0), tally.1),
    );
    let mut items: Vec<String> = Vec::new();
    let mut i: usize = 0;
    while i < snapshot.len()
        invariant
            i <= snapshot.len(),
            items@.len() == i,
            expected == tallies(snapshot@).map_values(
                |tally: (Seq<char>, u64)| stats_json(json_string(tally.0), tally.1),
            ),
            forall|k: int| 0 <= k < i ==> (#[trigger] items@[k])@ == expected[k],
        decreases snapshot.len() - i,
    {
        match snapshot[i].to_json() {
            Ok(item) => {
                items.push(item);
            },
            Err(error) => {
                return Err(error);
            },
        }
        i += 1;
    }
    assert(texts(items@) =~= expected);
    Ok(frame_array(&items))
}

impl WsResponse {
    /// The envelope that announces a snapshot, given the snapshot's JSON text.
    pub fn statistics(data: String) -> (response: WsResponse)
        ensures
            response@ == (WsResponseAction::ReceivedStatistics.tag(), data@),
    {
        WsResponse { action: WsResponseAction::ReceivedStatistics.as_str(), data }
    }

    /// This envelope as JSON text: an object that holds the tag as `action`
    /// and the payload, as a string, as `data`. Every envelope is written.
    pub fn to_json(&self) -> (text: Result<String, EncodeError>)
        ensures
            text matches Ok(text) && text@ == envelope_json(self@),
    {
        let action = match quote(self.action.as_str()) {
            Ok(literal) => literal,
            Err(error) => {
                return Err(error);
            },
        };
        let data = match quote(self.data.as_str()) {
            Ok(literal) => literal,
            Err(error) => {
                return Err(error);
            },
        };
        Ok(frame_response(action.as_str(), data.as_str()))
    }
}

/// The JSON text of the envelope that announces `snapshot`: the action is
/// the tag of a statistics update, the data is the snapshot's own JSON text.
/// Every snapshot is announced.
pub fn statistics_to_json(snapshot: &Vec<VoteStats>) -> (text: Result<String, EncodeError>)
    ensures
        text matches Ok(text) && text@ == statistics_json(tallies(snapshot@)),
{
    match snapshot_to_json(snapshot) {
        Ok(data) => WsResponse::statistics(data).to_json(),
        Err(error) => Err(error),
    }
}

} // verus!
