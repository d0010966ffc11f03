use ai_voting_agent::proposal::{Axis, Proposal};
use ai_voting_agent::recommendation::{Recommendation, WEIGHT_SCALE};
use ai_voting_agent::store::Store;
use ai_voting_agent::CoreError;

fn prop(id: &str) -> Proposal {
    Proposal {
        id: id.to_string(),
        ipfs: None,
        space: None,
        proposal_type: None,
        title: None,
        body: None,
        discussion: None,
        author: None,
        quorum: "0".to_string(),
        quorum_type: None,
        start: None,
        end: None,
        snapshot: None,
        choices: None,
        labels: None,
        scores: None,
        scores_total: "0".to_string(),
        scores_state: None,
        state: None,
        strategies: None,
        created: None,
        updated: None,
        votes: "0".to_string(),
        privacy: None,
        plugins: None,
        flagged: None,
    }
}

fn rec(id: &str, created_at: i64) -> Recommendation {
    Recommendation {
        proposal_id: id.to_string(),
        technical_impact: "\"t\"".to_string(),
        economic_consequences: "\"e\"".to_string(),
        governance_and_decentralization: "\"g\"".to_string(),
        advantages: "[]".to_string(),
        risks: "[]".to_string(),
        recommendation: vec![
            ("For".to_string(), 800_000u64),
            ("Against".to_string(), 200_000u64),
        ],
        created_at,
        new_flag: true,
    }
}

#[test]
fn upsert_idempotence_same_batch_twice() {
    let mut store = Store::new();
    let mut a = prop("a");
    a.title = Some("first".to_string());
    a.votes = "10".to_string();
    let mut b = prop("b");
    b.title = Some("second".to_string());
    let c = prop("c");
    let batch = vec![a, b, c];
    assert!(store.upsert_proposals(&batch).is_ok());
    assert_eq!(store.proposals.len(), 3);
    assert!(store.upsert_proposals(&batch).is_ok());
    assert_eq!(store.proposals.len(), 3);
    assert_eq!(store.proposals[0].title, Some("first".to_string()));
    assert_eq!(store.proposals[0].votes, "10".to_string());
    assert_eq!(store.proposals[1].title, Some("second".to_string()));
    assert_eq!(store.proposals[2].id, "c".to_string());
}

#[test]
fn creation_time_fields_are_immutable() {
    let mut store = Store::new();
    let mut v1 = prop("p");
    v1.title = Some("first title".to_string());
    v1.space = Some("{\"id\":\"s1\"}".to_string());
    v1.votes = "1".to_string();
    assert!(store.upsert_proposals(&vec![v1]).is_ok());
    let mut v2 = prop("p");
    v2.title = Some("changed title".to_string());
    v2.space = Some("{\"id\":\"s2\"}".to_string());
    v2.votes = "7".to_string();
    assert!(store.upsert_proposals(&vec![v2]).is_ok());
    assert_eq!(store.proposals.len(), 1);
    // creation-time field: the first-seen value stays
    assert_eq!(store.proposals[0].title, Some("first title".to_string()));
    // volatile fields: refreshed by the later write
    assert_eq!(store.proposals[0].space, Some("{\"id\":\"s2\"}".to_string()));
    assert_eq!(store.proposals[0].votes, "7".to_string());
}

#[test]
fn upsert_rolls_back_whole_batch_on_bad_row() {
    let mut store = Store::new();
    let mut seeded = prop("keep");
    seeded.title = Some("kept".to_string());
    assert!(store.upsert_proposals(&vec![seeded]).is_ok());
    let batch = vec![prop("r1"), prop("r2"), prop(""), prop("r4"), prop("r5")];
    let res = store.upsert_proposals(&batch);
    assert!(matches!(res, Err(CoreError::Persistence(_))));
    // none of the five rows survives, and the seeded row is untouched
    assert_eq!(store.proposals.len(), 1);
    assert_eq!(store.proposals[0].id, "keep".to_string());
    assert_eq!(store.proposals[0].title, Some("kept".to_string()));
}

#[test]
fn empty_batch_is_a_no_op() {
    let mut store = Store::new();
    assert!(store.upsert_proposals(&vec![]).is_ok());
    assert_eq!(store.proposals.len(), 0);
}

#[test]
fn backfill_selects_active_unended_unrecommended() {
    let now: i64 = 1_000;
    let mut store = Store::new();
    let mut a = prop("a");
    a.state = Some("active".to_string());
    a.end = Some(2_000);
    let mut b = prop("b");
    b.state = Some("active".to_string());
    b.end = Some(2_000);
    let mut c = prop("c");
    c.state = Some("active".to_string());
    c.end = Some(500);
    let mut d = prop("d");
    d.state = Some("closed".to_string());
    d.end = Some(2_000);
    assert!(store.upsert_proposals(&vec![a, b, c, d]).is_ok());
    assert!(store.save_recommendation(rec("b", 10)).is_ok());
    let selected = store.get_active_proposals_without_rec(now);
    assert_eq!(selected.len(), 1);
    assert_eq!(selected[0].id, "a".to_string());
}

#[test]
fn save_recommendation_rejects_bad_weights() {
    let mut store = Store::new();
    assert!(store.upsert_proposals(&vec![prop("p")]).is_ok());
    let mut bad = rec("p", 1);
    bad.recommendation = vec![("For".to_string(), 400_000u64)];
    assert!(matches!(
        store.save_recommendation(bad),
        Err(CoreError::Persistence(_))
    ));
    assert_eq!(store.recommendations.len(), 0);
}

#[test]
fn save_recommendation_rejects_unknown_proposal() {
    let mut store = Store::new();
    let res = store.save_recommendation(rec("nobody", 1));
    assert!(matches!(res, Err(CoreError::Persistence(_))));
}

#[test]
fn save_recommendation_accepts_weights_within_epsilon() {
    let mut store = Store::new();
    assert!(store.upsert_proposals(&vec![prop("p")]).is_ok());
    let mut r = rec("p", 1);
    r.recommendation = vec![
        ("A".to_string(), 333_333u64),
        ("B".to_string(), 333_333u64),
        ("C".to_string(), 333_333u64),
    ];
    assert!(store.save_recommendation(r).is_ok());
}

#[test]
fn persisted_weights_sum_to_whole_vote() {
    let mut store = Store::new();
    assert!(store.upsert_proposals(&vec![prop("p")]).is_ok());
    assert!(store.save_recommendation(rec("p", 1)).is_ok());
    assert!(store.save_recommendation(rec("p", 2)).is_ok());
    for r in &store.recommendations {
        let sum: u64 = r.recommendation.iter().map(|w| w.1).sum();
        let eps = 1_000u64;
        assert!(sum >= WEIGHT_SCALE - eps && sum <= WEIGHT_SCALE + eps);
    }
}

#[test]
fn current_recommendation_is_most_recent() {
    let mut store = Store::new();
    assert!(store.upsert_proposals(&vec![prop("p"), prop("q")]).is_ok());
    assert!(store.save_recommendation(rec("p", 5)).is_ok());
    assert!(store.save_recommendation(rec("q", 50)).is_ok());
    assert!(store.save_recommendation(rec("p", 9)).is_ok());
    let current = store.get_recommendation_by_id(&"p".to_string()).unwrap();
    assert_eq!(current.proposal_id, "p".to_string());
    assert_eq!(current.created_at, 9);
    assert!(store.get_recommendation_by_id(&"x".to_string()).is_none());
}

#[test]
fn new_recommendation_is_most_recent_unconsumed() {
    let mut store = Store::new();
    assert!(store.upsert_proposals(&vec![prop("p")]).is_ok());
    let mut consumed = rec("p", 30);
    consumed.new_flag = false;
    assert!(store.save_recommendation(consumed).is_ok());
    assert!(store.save_recommendation(rec("p", 10)).is_ok());
    let newest = store.get_new_recommendation().unwrap();
    assert!(newest.new_flag);
    assert_eq!(newest.created_at, 10);
}

#[test]
fn proposal_lookup_by_id() {
    let mut store = Store::new();
    let mut p = prop("p");
    p.title = Some("t".to_string());
    assert!(store.upsert_proposals(&vec![p]).is_ok());
    let found = store.get_proposals_by_id(&"p".to_string()).unwrap();
    assert_eq!(found.title, Some("t".to_string()));
    assert!(store.get_proposals_by_id(&"q".to_string()).is_none());
}

#[test]
fn cursor_is_max_stored_axis_value_or_zero() {
    let mut store = Store::new();
    assert_eq!(store.max_axis_value(Axis::Created), 0);
    let mut a = prop("a");
    a.created = Some(5);
    a.updated = Some(40);
    let mut b = prop("b");
    b.created = Some(17);
    let mut c = prop("c");
    c.updated = Some(2);
    assert!(store.upsert_proposals(&vec![a, b, c]).is_ok());
    assert_eq!(store.max_axis_value(Axis::Created), 17);
    assert_eq!(store.max_axis_value(Axis::Updated), 40);
}

#[test]
fn cursor_keeps_negative_maximum() {
    let mut store = Store::new();
    let mut a = prop("a");
    a.created = Some(-3);
    assert!(store.upsert_proposals(&vec![a]).is_ok());
    assert_eq!(store.max_axis_value(Axis::Created), -3);
    assert_eq!(store.max_axis_value(Axis::Updated), 0);
}
