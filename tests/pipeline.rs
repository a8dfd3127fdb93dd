use rule_sweeper::aggregator::Aggregator;
use rule_sweeper::config::{Config, DEFAULT_CAPACITY, DEFAULT_SLEEP_SECS};
use rule_sweeper::evaluation::{assess, is_success, Evaluation, Failure, SearchReply};
use rule_sweeper::flush::{purge_positions, Flush, Step};
use rule_sweeper::record::{match_list, match_record, read_hit, read_hits, CycleResult, MatchRecord};
use rule_sweeper::rule::{create_rule, NewRule, RuleData};
use rule_sweeper::scheduler::{Admission, Phase, Scheduler};
use rule_sweeper::store::{lookup_status, readable, removal_status, Lookup, Removal};

fn record(index: &str, id: &str) -> MatchRecord {
    MatchRecord {
        index: index.to_string(),
        id: Some(id.to_string()),
        document: serde_json::Value::Null,
    }
}

fn answered(matches: Vec<MatchRecord>) -> SearchReply {
    SearchReply::Answered { status: 200, matches: Some(matches) }
}

fn run_to_drain(s: &mut Scheduler, outcomes: Vec<Evaluation>) -> Vec<CycleResult> {
    assert!(s.start(outcomes.len()));
    let mut pending = outcomes;
    pending.reverse();
    loop {
        match s.acquire() {
            Admission::Evaluate(_) => {
                let o = pending.pop().unwrap();
                assert!(s.finish(o));
            }
            Admission::Dispatched => break,
            other => panic!("unexpected admission: {}", matches!(other, Admission::Wait)),
        }
    }
    s.drain().unwrap()
}

fn steps(f: &mut Flush, outcome: bool) -> Vec<Step> {
    let mut out = Vec::new();
    loop {
        let st = f.next_step();
        if st == Step::Done {
            out.push(st);
            return out;
        }
        out.push(st);
        f.advance(outcome);
    }
}

fn sigma() -> String {
    "sigma_rules".to_string()
}

#[test]
fn zero_match_rule_is_dropped_and_other_rule_is_forwarded_and_purged() {
    let mut s = Scheduler::new(100);
    let a = assess("A".to_string(), answered(vec![]));
    let b = assess("B".to_string(), answered(vec![record("logs-1", "d1"), record("logs-1", "d2")]));
    assert!(matches!(a, Evaluation::NoMatches));
    let drained = run_to_drain(&mut s, vec![a, b]);
    assert_eq!(drained.len(), 1);
    assert_eq!(drained[0].rule_id, "B");
    assert_eq!(drained[0].matches.len(), 2);
    let result = drained.into_iter().next().unwrap();
    let mut f = Flush::new(result, sigma());
    assert_eq!(steps(&mut f, true), vec![Step::Forward, Step::Delete(0), Step::Delete(1), Step::Done]);
    let r = f.result();
    assert_eq!(r.matches[0].index, "logs-1");
    assert_eq!(r.matches[0].id.as_deref(), Some("d1"));
    assert_eq!(r.matches[1].id.as_deref(), Some("d2"));
}

#[test]
fn protected_index_match_is_forwarded_but_never_deleted() {
    let mut s = Scheduler::new(100);
    let c = assess("C".to_string(), answered(vec![record("sigma_rules", "x")]));
    let drained = run_to_drain(&mut s, vec![c]);
    assert_eq!(drained.len(), 1);
    let mut f = Flush::new(drained.into_iter().next().unwrap(), sigma());
    assert_eq!(steps(&mut f, true), vec![Step::Forward, Step::Done]);
    assert_eq!(f.delivered(), Some(true));
}

#[test]
fn at_most_capacity_evaluations_are_outstanding() {
    let mut s = Scheduler::new(100);
    assert!(s.start(150));
    let mut handed = 0usize;
    for _ in 0..100 {
        assert!(matches!(s.acquire(), Admission::Evaluate(p) if p == handed));
        handed += 1;
    }
    assert_eq!(s.in_flight(), 100);
    assert!(matches!(s.acquire(), Admission::Wait));
    assert_eq!(s.in_flight(), 100);
    let mut finished = 0usize;
    while finished < 150 {
        match s.acquire() {
            Admission::Evaluate(p) => {
                assert_eq!(p, handed);
                handed += 1;
            }
            Admission::Wait | Admission::Dispatched => {
                assert!(s.finish(Evaluation::NoMatches));
                finished += 1;
            }
            Admission::Idle => {
                assert_eq!(s.phase(), Phase::Awaiting);
                assert!(s.finish(Evaluation::NoMatches));
                finished += 1;
            }
        }
        assert!(s.in_flight() <= 100);
    }
    assert_eq!(handed, 150);
    assert_eq!(s.in_flight(), 0);
    assert!(matches!(s.acquire(), Admission::Dispatched | Admission::Idle));
    assert!(s.drain().unwrap().is_empty());
}

#[test]
fn unreachable_backend_leaves_only_that_rule_without_result() {
    let mut s = Scheduler::new(100);
    let d = assess("D".to_string(), SearchReply::Unreachable);
    assert!(matches!(d, Evaluation::Failed(Failure::Unreachable)));
    let e = assess("E".to_string(), answered(vec![record("logs-1", "e1")]));
    let drained = run_to_drain(&mut s, vec![d, e]);
    assert_eq!(drained.len(), 1);
    assert_eq!(drained[0].rule_id, "E");
}

#[test]
fn failed_forward_still_purges() {
    let result = CycleResult {
        rule_id: "F".to_string(),
        matches: vec![record("logs-1", "a"), record("sigma_rules", "b"), record("logs-2", "c")],
    };
    let mut f = Flush::new(result, sigma());
    assert_eq!(f.next_step(), Step::Forward);
    f.advance(false);
    assert_eq!(f.delivered(), Some(false));
    assert_eq!(steps(&mut f, true), vec![Step::Delete(0), Step::Delete(2), Step::Done]);
}

#[test]
fn failed_delete_moves_on_to_the_next() {
    let result = CycleResult {
        rule_id: "G".to_string(),
        matches: vec![record("logs-1", "gone"), record("logs-1", "here")],
    };
    let mut f = Flush::new(result, sigma());
    assert_eq!(steps(&mut f, false), vec![Step::Forward, Step::Delete(0), Step::Delete(1), Step::Done]);
    assert_eq!(f.failed_deletes(), 2);
    f.advance(true);
    assert_eq!(f.next_step(), Step::Done);
}

#[test]
fn drained_once_and_empty_after() {
    let mut s = Scheduler::new(2);
    assert!(s.drain().is_none());
    assert!(s.start(1));
    assert!(!s.start(5));
    assert!(s.drain().is_none());
    assert!(matches!(s.acquire(), Admission::Evaluate(0)));
    assert!(s.drain().is_none());
    let h = assess("H".to_string(), answered(vec![record("logs-1", "h")]));
    assert!(s.finish(h));
    assert_eq!(s.pending_results(), 1);
    assert!(matches!(s.acquire(), Admission::Dispatched));
    let first = s.drain().unwrap();
    assert_eq!(first.len(), 1);
    assert_eq!(s.pending_results(), 0);
    assert_eq!(s.phase(), Phase::Sleeping);
    assert!(s.drain().is_none());
    assert!(!s.finish(Evaluation::NoMatches));
    assert!(matches!(s.acquire(), Admission::Idle));
}

#[test]
fn failures_are_classified() {
    assert!(matches!(
        assess("r".to_string(), SearchReply::Answered { status: 404, matches: Some(vec![record("i", "1")]) }),
        Evaluation::Failed(Failure::Status(404))
    ));
    assert!(matches!(
        assess("r".to_string(), SearchReply::Answered { status: 200, matches: None }),
        Evaluation::Failed(Failure::Unparsable)
    ));
    assert!(matches!(
        assess("r".to_string(), SearchReply::Answered { status: 201, matches: Some(vec![record("i", "1")]) }),
        Evaluation::Matched(_)
    ));
    assert!(is_success(200));
    assert!(is_success(299));
    assert!(!is_success(300));
    assert!(!is_success(199));
}

#[test]
fn aggregator_keeps_only_nonempty_results() {
    let mut a = Aggregator::new();
    assert!(!a.append(CycleResult { rule_id: "x".to_string(), matches: vec![] }));
    assert!(a.is_empty());
    assert!(a.append(CycleResult { rule_id: "y".to_string(), matches: vec![record("i", "1")] }));
    assert!(a.append(CycleResult { rule_id: "z".to_string(), matches: vec![record("i", "2")] }));
    assert_eq!(a.len(), 2);
    let d = a.drain();
    assert_eq!(d.iter().map(|r| r.rule_id.as_str()).collect::<Vec<_>>(), vec!["y", "z"]);
    assert!(a.is_empty());
}

#[test]
fn purge_skips_protected_and_unidentified_matches() {
    let mut nameless = record("logs-1", "n");
    nameless.id = None;
    let ms = vec![record("sigma_rules", "a"), nameless, record("logs-1", "b"), record("other", "c")];
    assert_eq!(purge_positions(&ms, &sigma()), vec![2, 3]);
    assert_eq!(purge_positions(&ms, &"other".to_string()), vec![0, 2]);
    assert!(purge_positions(&vec![], &sigma()).is_empty());
}

#[test]
fn search_response_is_read_from_hits_hits() {
    let body = r#"{"hits":{"total":{"value":3},"hits":[
        {"_index":"logs-1","_id":"a","_source":{"k":1}},
        {"_id":"b"},
        {"_index":"logs-2","_id":7}
    ]}}"#;
    let v: serde_json::Value = serde_json::from_str(body).unwrap();
    let ms = match_list(&v).unwrap();
    assert_eq!(ms.len(), 3);
    assert_eq!(ms[0].index, "logs-1");
    assert_eq!(ms[0].id.as_deref(), Some("a"));
    assert_eq!(ms[0].document["_source"]["k"], serde_json::Value::from(1));
    assert_eq!(ms[1].index, "default-index");
    assert_eq!(ms[1].id.as_deref(), Some("b"));
    assert_eq!(ms[2].index, "logs-2");
    assert_eq!(ms[2].id, None);

    let none: serde_json::Value = serde_json::from_str(r#"{"error":"x"}"#).unwrap();
    assert!(match_list(&none).is_none());
    let empty: serde_json::Value = serde_json::from_str(r#"{"hits":{"hits":[]}}"#).unwrap();
    assert!(match_list(&empty).unwrap().is_empty());
}

#[test]
fn hit_fields_and_defaults() {
    let hit: serde_json::Value = serde_json::from_str(r#"{"_index":"idx","_id":"q"}"#).unwrap();
    let m = read_hit(hit.clone());
    assert_eq!(m.index, "idx");
    assert_eq!(m.id.as_deref(), Some("q"));
    assert_eq!(m.document, hit);
    let d = match_record(None, None, serde_json::Value::Null);
    assert_eq!(d.index, "default-index");
    assert_eq!(d.id, None);
}

#[test]
fn config_defaults() {
    let c = Config::new("https://search".to_string(), "u".to_string(), "p".to_string(), "http://notify".to_string());
    assert_eq!(c.capacity, 100);
    assert_eq!(DEFAULT_CAPACITY, 100);
    assert_eq!(c.sleep_secs, 60);
    assert_eq!(DEFAULT_SLEEP_SECS, 60);
    assert_eq!(c.protected_index, "sigma_rules");
    assert_eq!(c.search_url, "https://search");
    assert_eq!(c.notify_url, "http://notify");
}

#[test]
fn store_replies() {
    assert_eq!(lookup_status(Lookup::Found { readable: true }), 200);
    assert_eq!(lookup_status(Lookup::Found { readable: false }), 500);
    assert_eq!(lookup_status(Lookup::Missing), 404);
    assert_eq!(lookup_status(Lookup::StoreFailed), 500);
    assert_eq!(removal_status(Removal::Removed), 200);
    assert_eq!(removal_status(Removal::Missing), 404);
    assert_eq!(removal_status(Removal::StoreFailed), 500);
    assert_eq!(readable(vec![Some(1), None, Some(3), None]), vec![1, 3]);
    assert!(readable::<u8>(vec![None]).is_empty());
}

fn data() -> RuleData {
    RuleData {
        id: "r-1".to_string(),
        title: "t".to_string(),
        description: None,
        author: Some("a".to_string()),
        references: None,
        logsource: None,
        status: None,
        date: None,
        level: Some("high".to_string()),
        falsepositives: None,
        tags: Some(vec!["x".to_string()]),
    }
}

#[test]
fn created_rules_get_fresh_identifiers() {
    let q: serde_json::Value = serde_json::from_str(r#"{"query":{"match_all":{}}}"#).unwrap();
    let r1 = create_rule(NewRule { rule_query: q.clone(), rule_data: data() });
    let r2 = create_rule(NewRule { rule_query: q.clone(), rule_data: data() });
    assert_eq!(r1.id.len(), 36);
    for (i, c) in r1.id.chars().enumerate() {
        if i == 8 || i == 13 || i == 18 || i == 23 {
            assert_eq!(c, '-');
        } else {
            assert!(c.is_ascii_digit() || ('a'..='f').contains(&c));
        }
    }
    assert_ne!(r1.id, r2.id);
    assert_eq!(r1.rule_query, q);
    assert_eq!(r1.rule_data.id, "r-1");
    assert_eq!(r1.rule_data.level.as_deref(), Some("high"));
}

#[test]
fn hits_keep_their_order() {
    let a: serde_json::Value = serde_json::from_str(r#"{"_index":"i1","_id":"1"}"#).unwrap();
    let b: serde_json::Value = serde_json::from_str(r#"{"_index":"i2","_id":"2"}"#).unwrap();
    let ms = read_hits(vec![a.clone(), b.clone()]);
    assert_eq!(ms.len(), 2);
    assert_eq!(ms[0].document, a);
    assert_eq!(ms[1].document, b);
    assert_eq!(ms[1].index, "i2");
    assert!(read_hits(vec![]).is_empty());
}
