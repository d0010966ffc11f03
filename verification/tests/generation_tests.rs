use ai_voting_agent::generation::{clean_markdown, run_recommendation_creator};
use ai_voting_agent::proposal::Proposal;
use ai_voting_agent::recommendation::{check_weights, Analysis};
use ai_voting_agent::store::Store;

fn active_prop(id: &str, end: i64) -> Proposal {
    Proposal {
        id: id.to_string(),
        ipfs: None,
        space: None,
        proposal_type: None,
        title: None,
        body: None,
        discussion: None,
        author: None,
        quorum: "0".to_string(),
        quorum_type: None,
        start: None,
        end: Some(end),
        snapshot: None,
        choices: None,
        labels: None,
        scores: None,
        scores_total: "0".to_string(),
        scores_state: None,
        state: Some("active".to_string()),
        strategies: None,
        created: None,
        updated: None,
        votes: "0".to_string(),
        privacy: None,
        plugins: None,
        flagged: None,
    }
}

fn analysis(weights: Vec<(&str, u64)>) -> Analysis {
    Analysis {
        technical_impact: "\"t\"".to_string(),
        economic_consequences: "\"e\"".to_string(),
        governance_and_decentralization: "\"g\"".to_string(),
        advantages: "[]".to_string(),
        risks: "[]".to_string(),
        recommendation: weights.into_iter().map(|(k, v)| (k.to_string(), v)).collect(),
    }
}

#[test]
fn clean_markdown_strips_fenced_block() {
    let input = "```json\n{\"recommendation\": {\"For\": 0.8}}\n```";
    assert_eq!(clean_markdown(input), "{\"recommendation\": {\"For\": 0.8}}");
}

#[test]
fn clean_markdown_trims_plain_text() {
    assert_eq!(clean_markdown("  hello world \n"), "hello world");
    assert_eq!(clean_markdown("a\nb"), "a\nb");
}

#[test]
fn clean_markdown_handles_lone_fences() {
    assert_eq!(clean_markdown("```\nfoo"), "foo");
    assert_eq!(clean_markdown("foo\n```"), "foo");
    assert_eq!(clean_markdown("```"), "");
}

#[test]
fn clean_markdown_drops_padded_closing_fence() {
    assert_eq!(clean_markdown("x\n  ``` "), "x");
}

#[test]
fn clean_markdown_keeps_inner_backticks() {
    assert_eq!(clean_markdown("use `code` here"), "use `code` here");
}

#[test]
fn weight_check_accepts_exact_and_slack_sums() {
    assert!(check_weights(&vec![("For".to_string(), 800_000u64), ("Against".to_string(), 200_000u64)]));
    assert!(check_weights(&vec![
        ("A".to_string(), 333_333u64),
        ("B".to_string(), 333_333u64),
        ("C".to_string(), 333_333u64),
    ]));
    assert!(!check_weights(&vec![("For".to_string(), 400_000u64)]));
    assert!(!check_weights(&vec![("For".to_string(), 1_200_000u64)]));
    assert!(!check_weights(&vec![]));
}

#[test]
fn one_failed_analysis_never_aborts_the_scan() {
    let now = 100;
    let mut store = Store::new();
    let batch = vec![active_prop("a", 500), active_prop("b", 500), active_prop("c", 500)];
    assert!(store.upsert_proposals(&batch).is_ok());
    // the middle analysis fails; the weights of the last are malformed
    let outcomes = vec![
        Some(analysis(vec![("For", 1_000_000)])),
        None,
        Some(analysis(vec![("For", 1)])),
    ];
    run_recommendation_creator(&mut store, &outcomes, now);
    assert_eq!(store.recommendations.len(), 1);
    assert_eq!(store.recommendations[0].proposal_id, "a".to_string());
    assert_eq!(store.recommendations[0].created_at, now);
    assert!(store.recommendations[0].new_flag);
}

#[test]
fn enrichment_skips_already_recommended_proposals() {
    let now = 100;
    let mut store = Store::new();
    assert!(store.upsert_proposals(&vec![active_prop("a", 500), active_prop("b", 500)]).is_ok());
    run_recommendation_creator(
        &mut store,
        &vec![Some(analysis(vec![("For", 1_000_000)])), Some(analysis(vec![("Against", 1_000_000)]))],
        now,
    );
    assert_eq!(store.recommendations.len(), 2);
    // a second pass finds nothing to enrich
    run_recommendation_creator(&mut store, &vec![], now);
    assert_eq!(store.recommendations.len(), 2);
}
