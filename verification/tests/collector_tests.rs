use ai_voting_agent::collector::{
    collect_proposals, get_proposals, proposals_query, proposals_query_create,
    proposals_query_update, run_collect, PageOutcome,
};
use ai_voting_agent::proposal::Proposal;
use ai_voting_agent::store::Store;
use ai_voting_agent::CoreError;

fn prop_at(id: &str, created: i64) -> Proposal {
    Proposal {
        id: id.to_string(),
        ipfs: None,
        space: None,
        proposal_type: None,
        title: None,
        body: None,
        discussion: None,
        author: None,
        quorum: "0".to_string(),
        quorum_type: None,
        start: None,
        end: None,
        snapshot: None,
        choices: None,
        labels: None,
        scores: None,
        scores_total: "0".to_string(),
        scores_state: None,
        state: None,
        strategies: None,
        created: Some(created),
        updated: None,
        votes: "0".to_string(),
        privacy: None,
        plugins: None,
        flagged: None,
    }
}

fn page(items: Vec<Proposal>, raw_count: usize, last_axis: Option<i64>) -> PageOutcome {
    PageOutcome::Items { items, raw_count, last_axis }
}

#[test]
fn query_builders_pick_the_axis_filter() {
    let created = proposals_query_create();
    let updated = proposals_query_update();
    assert!(created.contains("created_gt: $start"));
    assert!(!created.contains("updated_gt"));
    assert!(updated.contains("updated_gt: $start"));
    assert!(!updated.contains("created_gt"));
    assert!(created.contains("...offchainProposalFragment"));
    assert!(created.contains("scores_total"));
    assert_eq!(proposals_query("created"), created);
    assert_eq!(proposals_query("updated"), updated);
}

#[test]
fn pagination_two_full_pages_then_short_page() {
    // page size 2: two full pages, then one of size 1 ends the fetch
    let pages = vec![
        page(vec![prop_at("n1", 1), prop_at("n2", 2)], 2, Some(2)),
        page(vec![prop_at("n3", 3), prop_at("n4", 4)], 2, Some(4)),
        page(vec![prop_at("n5", 5)], 1, Some(5)),
        page(vec![prop_at("never", 99)], 1, Some(99)),
    ];
    let out = get_proposals(pages, 0, 2).unwrap();
    assert_eq!(out.requests, 3);
    assert_eq!(out.items.len(), 5);
    assert_eq!(out.cursor, 5);
    assert_eq!(out.items[4].id, "n5".to_string());
}

#[test]
fn pagination_full_page_then_empty_page() {
    // page size 2: one full page, then an empty page ends the fetch
    let pages = vec![
        page(vec![prop_at("n1", 1), prop_at("n2", 2)], 2, Some(2)),
        page(vec![], 0, None),
        page(vec![prop_at("never", 9)], 1, Some(9)),
    ];
    let out = get_proposals(pages, 0, 2).unwrap();
    assert_eq!(out.requests, 2);
    assert_eq!(out.items.len(), 2);
    assert_eq!(out.cursor, 2);
}

#[test]
fn transport_failure_keeps_partial_results() {
    let pages = vec![
        page(vec![prop_at("n1", 1), prop_at("n2", 2)], 2, Some(2)),
        PageOutcome::Transport,
        page(vec![prop_at("never", 9)], 1, Some(9)),
    ];
    let out = get_proposals(pages, 0, 2).unwrap();
    assert_eq!(out.requests, 2);
    assert_eq!(out.items.len(), 2);
    assert_eq!(out.cursor, 2);
}

#[test]
fn protocol_error_on_first_page_yields_nothing() {
    let pages = vec![PageOutcome::Protocol, page(vec![prop_at("never", 9)], 1, Some(9))];
    let out = get_proposals(pages, 7, 2).unwrap();
    assert_eq!(out.requests, 1);
    assert_eq!(out.items.len(), 0);
    assert_eq!(out.cursor, 7);
}

#[test]
fn malformed_response_fails_the_fetch() {
    let pages = vec![
        page(vec![prop_at("n1", 1), prop_at("n2", 2)], 2, Some(2)),
        PageOutcome::Malformed,
    ];
    let res = get_proposals(pages, 0, 2);
    assert!(matches!(res, Err(CoreError::Decode)));
}

#[test]
fn cursor_stays_put_when_last_item_lacks_axis_value() {
    let pages = vec![page(vec![prop_at("n1", 1)], 1, None)];
    let out = get_proposals(pages, 42, 2).unwrap();
    assert_eq!(out.cursor, 42);
    assert_eq!(out.items.len(), 1);
}

#[test]
fn skipped_item_decodes_still_count_toward_page_size() {
    // two raw items, one decoded: the page is still full, so the fetch goes on
    let pages = vec![
        page(vec![prop_at("n1", 1)], 2, Some(2)),
        page(vec![], 0, None),
    ];
    let out = get_proposals(pages, 0, 2).unwrap();
    assert_eq!(out.requests, 2);
    assert_eq!(out.items.len(), 1);
    assert_eq!(out.cursor, 2);
}

#[test]
fn dedup_prefers_updated_axis_entry() {
    let mut stale = prop_at("p", 1);
    stale.votes = "1".to_string();
    let mut fresh = prop_at("p", 1);
    fresh.votes = "9".to_string();
    let other = prop_at("q", 2);
    let merged = collect_proposals(&vec![stale, other], &vec![fresh]);
    assert_eq!(merged.len(), 2);
    let p_entries: Vec<_> = merged.iter().filter(|p| p.id == "p").collect();
    assert_eq!(p_entries.len(), 1);
    assert_eq!(p_entries[0].votes, "9".to_string());
}

#[test]
fn dedup_keeps_last_occurrence_within_one_axis() {
    let mut first = prop_at("p", 1);
    first.votes = "1".to_string();
    let mut second = prop_at("p", 1);
    second.votes = "2".to_string();
    let merged = collect_proposals(&vec![first, second], &vec![]);
    assert_eq!(merged.len(), 1);
    assert_eq!(merged[0].votes, "2".to_string());
}

#[test]
fn run_collect_ingests_both_axes() {
    let mut store = Store::new();
    let created_pages = vec![page(vec![prop_at("a", 10), prop_at("b", 20)], 2, Some(20)), page(
        vec![],
        0,
        None,
    )];
    let mut b_updated = prop_at("b", 20);
    b_updated.votes = "5".to_string();
    let updated_pages = vec![page(vec![b_updated], 1, Some(30))];
    assert!(run_collect(&mut store, created_pages, updated_pages, 2).is_ok());
    assert_eq!(store.proposals.len(), 2);
    let b = store.get_proposals_by_id(&"b".to_string()).unwrap();
    assert_eq!(b.votes, "5".to_string());
}

#[test]
fn run_collect_leaves_store_unchanged_on_decode_failure() {
    let mut store = Store::new();
    assert!(run_collect(&mut store, vec![page(vec![prop_at("a", 1)], 1, Some(1))], vec![], 2)
        .is_ok());
    assert_eq!(store.proposals.len(), 1);
    let res = run_collect(&mut store, vec![PageOutcome::Malformed], vec![], 2);
    assert!(matches!(res, Err(CoreError::Decode)));
    assert_eq!(store.proposals.len(), 1);
}
