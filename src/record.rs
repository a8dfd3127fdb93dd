use vstd::prelude::*;

use crate::json::{array_items, json_array, json_member, json_str, member, string_value};

verus! {

/// One document that the search backend returned as matching a rule.
#[derive(Debug)]
pub struct MatchRecord {
    /// The index the document lives in.
    pub index: String,
    /// The document's identifier, where the backend gave one as a string.
    pub id: Option<String>,
    /// The matched document as the backend returned it.
    pub document: serde_json::Value,
}

/// The matches that one rule produced within one cycle.
#[derive(Debug)]
pub struct CycleResult {
    pub rule_id: String,
    pub matches: Vec<MatchRecord>,
}

/// The index name given to a match whose document names none.
pub open spec fn default_index() -> Seq<char> {
    seq!['d', 'e', 'f', 'a', 'u', 'l', 't', '-', 'i', 'n', 'd', 'e', 'x']
}

pub open spec fn index_or_default(index: Option<String>) -> Seq<char> {
    match index {
        Some(s) => s@,
        None => default_index(),
    }
}

impl CycleResult {
    /// A result is worth keeping only when it holds at least one match.
    pub open spec fn is_nonempty(&self) -> bool {
        self.matches@.len() > 0
    }
}

/// Builds a match record from the fields read off one hit.
pub fn match_record(index: Option<String>, id: Option<String>, document: serde_json::Value) -> (r:
    MatchRecord)
    ensures
        r.index@ == index_or_default(index),
        r.id == id,
        r.document == document,
{
    let name = match index {
        Some(s) => s,
        None => {
            let d = "default-index".to_owned();
            proof {
                reveal_strlit("default-index");
            }
            assert(d@ =~= default_index());
            d
        },
    };
    MatchRecord { index: name, id, document }
}

/// The text of an optional string.
pub open spec fn text_of(s: Option<String>) -> Option<Seq<char>> {
    match s {
        Some(t) => Some(t@),
        None => None,
    }
}

/// The text under a hit's `_index`, or the default index name.
pub open spec fn hit_index(hit: serde_json::Value) -> Seq<char> {
    match json_str(json_member(hit, seq!['_', 'i', 'n', 'd', 'e', 'x'])) {
        Some(s) => s,
        None => default_index(),
    }
}

/// The text under a hit's `_id`, if it is a string.
pub open spec fn hit_id(hit: serde_json::Value) -> Option<Seq<char>> {
    json_str(json_member(hit, seq!['_', 'i', 'd']))
}

/// The hits of a search response: the array under `hits.hits`, if any.
pub open spec fn response_hits(response: serde_json::Value) -> Option<Seq<serde_json::Value>> {
    let h = seq!['h', 'i', 't', 's'];
    json_array(json_member(json_member(response, h), h))
}

/// Reads one hit of a search response: its `_index`, its `_id` and the
/// hit itself as the document.
pub fn read_hit(hit: serde_json::Value) -> (r: MatchRecord)
    ensures
        r.document == hit,
        r.index@ == hit_index(hit),
        text_of(r.id) == hit_id(hit),
{
    proof {
        reveal_strlit("_index");
        reveal_strlit("_id");
    }
    assert("_index"@ =~= seq!['_', 'i', 'n', 'd', 'e', 'x']);
    assert("_id"@ =~= seq!['_', 'i', 'd']);
    let index = string_value(&member(&hit, "_index"));
    let id = string_value(&member(&hit, "_id"));
    match_record(index, id, hit)
}

/// Reads each hit in turn, keeping the order and every hit's document.
pub fn read_hits(hits: Vec<serde_json::Value>) -> (r: Vec<MatchRecord>)
    ensures
        r@.len() == hits@.len(),
        forall|i: int|
            0 <= i < r@.len() ==> (#[trigger] r@[i]).document == hits@[i] && r@[i].index@
                == hit_index(hits@[i]) && text_of(r@[i].id) == hit_id(hits@[i]),
{
    let ghost all = hits@;
    let mut out: Vec<MatchRecord> = Vec::new();
    let mut rest = hits;
    while rest.len() > 0
        invariant
            out@.len() + rest@.len() == all.len(),
            forall|i: int|
                0 <= i < out@.len() ==> (#[trigger] out@[i]).document == all[i] && out@[i].index@
                    == hit_index(all[i]) && text_of(out@[i].id) == hit_id(all[i]),
            rest@ == all.subrange(out@.len() as int, all.len() as int),
        decreases rest@.len(),
    {
        let hit = rest.remove(0);
        out.push(read_hit(hit));
    }
    out
}

/// The match list of a search response, read off the array under
/// `hits.hits`; `None` where that path holds no array.
pub fn match_list(response: &serde_json::Value) -> (r: Option<Vec<MatchRecord>>)
    ensures
        r is None <==> response_hits(*response) is None,
        r matches Some(ms) ==> {
            let hits = response_hits(*response)->0;
            &&& ms@.len() == hits.len()
            &&& forall|i: int|
                0 <= i < ms@.len() ==> (#[trigger] ms@[i]).document == hits[i] && ms@[i].index@
                    == hit_index(hits[i]) && text_of(ms@[i].id) == hit_id(hits[i])
        },
{
    proof {
        reveal_strlit("hits");
    }
    let hits = member(&member(response, "hits"), "hits");
    assert("hits"@ =~= seq!['h', 'i', 't', 's']);
    match array_items(&hits) {
        None => None,
        Some(items) => Some(read_hits(items)),
    }
}

} // verus!
