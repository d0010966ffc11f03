use ai_voting_agent::proposal::{JsonScalar, Proposal, RawItem};

fn empty_item() -> RawItem {
    RawItem {
        id: JsonScalar::Missing,
        ipfs: JsonScalar::Missing,
        space: JsonScalar::Missing,
        proposal_type: JsonScalar::Missing,
        title: JsonScalar::Missing,
        body: JsonScalar::Missing,
        discussion: JsonScalar::Missing,
        author: JsonScalar::Missing,
        quorum: JsonScalar::Missing,
        quorum_type: JsonScalar::Missing,
        start: JsonScalar::Missing,
        end: JsonScalar::Missing,
        snapshot: JsonScalar::Missing,
        choices: JsonScalar::Missing,
        labels: JsonScalar::Missing,
        scores: JsonScalar::Missing,
        scores_total: JsonScalar::Missing,
        scores_state: JsonScalar::Missing,
        state: JsonScalar::Missing,
        strategies: JsonScalar::Missing,
        created: JsonScalar::Missing,
        updated: JsonScalar::Missing,
        votes: JsonScalar::Missing,
        privacy: JsonScalar::Missing,
        plugins: JsonScalar::Missing,
        flagged: JsonScalar::Missing,
    }
}

fn str_scalar(s: &str) -> JsonScalar {
    JsonScalar::Str(s.to_string())
}

fn num(text: &str, int_val: Option<i64>) -> JsonScalar {
    JsonScalar::Num { text: text.to_string(), int_val }
}

#[test]
fn decoding_requires_a_string_id() {
    assert!(Proposal::from_json(empty_item()).is_none());
    let mut numeric_id = empty_item();
    numeric_id.id = num("7", Some(7));
    assert!(Proposal::from_json(numeric_id).is_none());
    let mut ok = empty_item();
    ok.id = str_scalar("prop-1");
    let p = Proposal::from_json(ok).unwrap();
    assert_eq!(p.id, "prop-1".to_string());
}

#[test]
fn loose_numeric_fields_fall_back_to_zero() {
    let mut item = empty_item();
    item.id = str_scalar("p");
    item.quorum = num("1.5", None);
    item.scores_total = str_scalar("123.4");
    // votes stays missing, and a wrong-shaped value behaves the same
    item.votes = JsonScalar::Other;
    let p = Proposal::from_json(item).unwrap();
    assert_eq!(p.quorum, "1.5".to_string());
    assert_eq!(p.scores_total, "123.4".to_string());
    assert_eq!(p.votes, "0".to_string());
}

#[test]
fn time_fields_take_only_integer_values() {
    let mut item = empty_item();
    item.id = str_scalar("p");
    item.start = num("10", Some(10));
    item.end = num("10.5", None);
    item.created = JsonScalar::Missing;
    let p = Proposal::from_json(item).unwrap();
    assert_eq!(p.start, Some(10));
    assert_eq!(p.end, None);
    assert_eq!(p.created, None);
}

#[test]
fn documents_and_scalars_carry_over() {
    let mut item = empty_item();
    item.id = str_scalar("p");
    item.title = str_scalar("A proposal");
    item.space = JsonScalar::Doc("{\"id\":\"dao.eth\"}".to_string());
    item.flagged = JsonScalar::Bool(true);
    let p = Proposal::from_json(item).unwrap();
    assert_eq!(p.title, Some("A proposal".to_string()));
    assert_eq!(p.space, Some("{\"id\":\"dao.eth\"}".to_string()));
    assert_eq!(p.flagged, Some(true));
    assert_eq!(p.body, None);
}
