use vstd::prelude::*;

verus! {

/// The descriptive metadata of a detection rule.
pub struct RuleData {
    pub id: String,
    pub title: String,
    pub description: Option<String>,
    pub author: Option<String>,
    pub references: Option<Vec<String>>,
    pub logsource: Option<serde_json::Value>,
    pub status: Option<String>,
    pub date: Option<String>,
    pub level: Option<String>,
    pub falsepositives: Option<Vec<String>>,
    pub tags: Option<Vec<String>>,
}

/// A stored detection rule: its query, sent verbatim to the search
/// backend, and its metadata.
pub struct Rule {
    /// The identifier the rule is stored under.
    pub id: String,
    pub rule_query: serde_json::Value,
    pub rule_data: RuleData,
}

/// A rule as submitted for creation, before it has an identifier.
pub struct NewRule {
    pub rule_query: serde_json::Value,
    pub rule_data: RuleData,
}

/// The hyphenated form of a UUID: 36 characters, lowercase hex digits
/// with hyphens at positions 8, 13, 18 and 23.
pub open spec fn is_hyphenated_uuid(s: Seq<char>) -> bool {
    &&& s.len() == 36
    &&& forall|i: int|
        0 <= i < 36 ==> if i == 8 || i == 13 || i == 18 || i == 23 {
            #[trigger] s[i] == '-'
        } else {
            ('0' <= s[i] <= '9') || ('a' <= s[i] <= 'f')
        }
}

/// Relies on `uuid::Uuid::new_v4` and its `Display`: a random version 4
/// identifier, written through `LowerHex` in its hyphenated form.
#[verifier::external_body]
fn fresh_id() -> (r: String)
    ensures
        is_hyphenated_uuid(r@),
{
    uuid::Uuid::new_v4().to_string()
}

/// Gives `new` a fresh random identifier and keeps everything it holds.
pub fn create_rule(new: NewRule) -> (r: Rule)
    ensures
        is_hyphenated_uuid(r.id@),
        r.rule_query == new.rule_query,
        r.rule_data == new.rule_data,
{
    let id = fresh_id();
    Rule { id, rule_query: new.rule_query, rule_data: new.rule_data }
}

} // verus!
