//! Collection: cursor-based pagination over the feed and the dedup of
//! the two axis windows.
//!
//! The network is outside: a page arrives here as a [`PageOutcome`],
//! already reduced to plain values.  [`fetch_step`] is the decision the
//! fetch loop takes on one page; [`get_proposals`] drains a whole page
//! sequence deterministically.  [`collect_proposals`] merges the
//! "created"-axis window with the "updated"-axis window, later entries
//! overwriting earlier ones, and [`run_collect`] runs one whole ingest
//! cycle against the store.

use vstd::prelude::*;
use vstd::string::StringExecFns;

use crate::errors::CoreError;
use crate::proposal::{Axis, Proposal};
use crate::store::{
    batch_ok, find_by_id, has_id, idx_of, lemma_idx_of, max_axis_spec, unique_ids, upsert_seq,
    Store,
};

verus! {

/// The fixed size of the pages requested from the feed.
pub const BATCH_SIZE: i64 = 1000;

/// The piece of the proposals query that precedes the cursor filter key.
pub open spec fn spec_query_head() -> Seq<char> {
    "
query Proposals($first: Int!, $start: Int!) {
  proposals(
    first: $first
     where: { "@
}

/// The piece of the proposals query that follows the cursor filter key.
pub open spec fn spec_query_tail() -> Seq<char> {
    ": $start }
    orderBy: \"created\"
    orderDirection: asc
  ) {
    ...offchainProposalFragment
    start
  }
}

fragment offchainProposalFragment on Proposal {
  id
  ipfs
  space {
    id
    name
    avatar
    network
    admins
    moderators
    symbol
    terms
  }
  type
  title
  body
  discussion
  author
  quorum
  quorumType
  start
  end
  snapshot
  choices
  labels
  scores
  scores_total
  scores_state
  state
  strategies {
    name
    params
    network
  }
  created
  updated
  votes
  privacy
  plugins
  flagged
}

"@
}

/// The paginated proposals query filtered by `created` strictly beyond
/// the cursor.
pub fn proposals_query_create() -> (q: String)
    ensures
        q@ == spec_query_head() + "created_gt"@ + spec_query_tail(),
{
    let mut q = "
query Proposals($first: Int!, $start: Int!) {
  proposals(
    first: $first
     where: { ".to_owned();
    q.append("created_gt");
    q.append(": $start }
    orderBy: \"created\"
    orderDirection: asc
  ) {
    ...offchainProposalFragment
    start
  }
}

fragment offchainProposalFragment on Proposal {
  id
  ipfs
  space {
    id
    name
    avatar
    network
    admins
    moderators
    symbol
    terms
  }
  type
  title
  body
  discussion
  author
  quorum
  quorumType
  start
  end
  snapshot
  choices
  labels
  scores
  scores_total
  scores_state
  state
  strategies {
    name
    params
    network
  }
  created
  updated
  votes
  privacy
  plugins
  flagged
}

");
    q
}

/// The paginated proposals query filtered by `updated` strictly beyond
/// the cursor.
pub fn proposals_query_update() -> (q: String)
    ensures
        q@ == spec_query_head() + "updated_gt"@ + spec_query_tail(),
{
    let mut q = "
query Proposals($first: Int!, $start: Int!) {
  proposals(
    first: $first
     where: { ".to_owned();
    q.append("updated_gt");
    q.append(": $start }
    orderBy: \"created\"
    orderDirection: asc
  ) {
    ...offchainProposalFragment
    start
  }
}

fragment offchainProposalFragment on Proposal {
  id
  ipfs
  space {
    id
    name
    avatar
    network
    admins
    moderators
    symbol
    terms
  }
  type
  title
  body
  discussion
  author
  quorum
  quorumType
  start
  end
  snapshot
  choices
  labels
  scores
  scores_total
  scores_state
  state
  strategies {
    name
    params
    network
  }
  created
  updated
  votes
  privacy
  plugins
  flagged
}

");
    q
}

/// The query for a named axis: the cursor filter key is the axis name
/// with `_gt` appended.
pub open spec fn spec_proposals_query(key: Seq<char>) -> Seq<char> {
    if key == "created"@ {
        spec_query_head() + "created_gt"@ + spec_query_tail()
    } else {
        spec_query_head() + "updated_gt"@ + spec_query_tail()
    }
}

/// The paginated proposals query for the axis named `key`.  Only the
/// two axis names are meaningful.
pub fn proposals_query(key: &str) -> (q: String)
    requires
        key@ == "created"@ || key@ == "updated"@,
    ensures
        q@ == spec_proposals_query(key@),
{
    let k = key.to_owned();
    let created = "created".to_owned();
    if k == created {
        proposals_query_create()
    } else {
        proposals_query_update()
    }
}

/// What one page request came to, reduced to plain values:
/// - `Transport`: the request did not reach the feed;
/// - `Protocol`: the feed answered with an explicit error payload;
/// - `Malformed`: the response carried no proposals array;
/// - `Items`: a page, with its decoded items, the raw item count of the
///   page, and the axis value of the page's last raw item if it has one.
pub enum PageOutcome {
    Transport,
    Protocol,
    Malformed,
    Items { items: Vec<Proposal>, raw_count: usize, last_axis: Option<i64> },
}

/// The mathematical progress of one axis fetch.
#[verifier::ext_equal]
pub struct FetchView {
    pub items: Seq<Proposal>,
    pub cursor: i64,
    pub requests: nat,
    pub done: bool,
    pub failed: bool,
}

/// Where a fetch starts: nothing collected, the cursor read from the
/// store, no request issued yet.
pub open spec fn fetch_init(cursor: i64) -> FetchView {
    FetchView { items: Seq::empty(), cursor: cursor, requests: 0, done: false, failed: false }
}

/// The decision taken on one page:
/// - a transport failure or an error payload ends the fetch, keeping
///   what was already decoded;
/// - a response with no proposals array fails the fetch;
/// - an empty page ends the fetch with nothing appended;
/// - otherwise the decoded items are appended, the cursor advances to
///   the axis value of the page's last raw item (staying put if that
///   item carries none), and the fetch ends if the page was short.
pub open spec fn fetch_step_spec(st: FetchView, page: PageOutcome, page_size: nat) -> FetchView {
    match page {
        PageOutcome::Transport => FetchView { requests: st.requests + 1, done: true, ..st },
        PageOutcome::Protocol => FetchView { requests: st.requests + 1, done: true, ..st },
        PageOutcome::Malformed => FetchView {
            requests: st.requests + 1,
            done: true,
            failed: true,
            ..st
        },
        PageOutcome::Items { items, raw_count, last_axis } => {
            if raw_count == 0 {
                FetchView { requests: st.requests + 1, done: true, ..st }
            } else {
                FetchView {
                    items: st.items + items@,
                    cursor: match last_axis {
                        Some(v) => v,
                        None => st.cursor,
                    },
                    requests: st.requests + 1,
                    done: raw_count < page_size,
                    failed: false,
                }
            }
        },
    }
}

/// A fetch run to completion over a page sequence: pages are consumed
/// in order until the fetch decides to stop or the feed has no more.
pub open spec fn run_fetch_spec(st: FetchView, pages: Seq<PageOutcome>, page_size: nat) -> FetchView
    decreases pages.len(),
{
    if st.done || pages.len() == 0 {
        st
    } else {
        run_fetch_spec(fetch_step_spec(st, pages[0], page_size), pages.skip(1), page_size)
    }
}

/// The running state of one axis fetch.
pub struct FetchState {
    pub items: Vec<Proposal>,
    pub cursor: i64,
    pub requests: usize,
    pub done: bool,
    pub failed: bool,
}

impl View for FetchState {
    type V = FetchView;

    open spec fn view(&self) -> FetchView {
        FetchView {
            items: self.items@,
            cursor: self.cursor,
            requests: self.requests as nat,
            done: self.done,
            failed: self.failed,
        }
    }
}

/// Begin an axis fetch at the given cursor.
pub fn fetch_start(max_value: i64) -> (st: FetchState)
    ensures
        st@ == fetch_init(max_value),
{
    let st = FetchState {
        items: Vec::new(),
        cursor: max_value,
        requests: 0,
        done: false,
        failed: false,
    };
    proof {
        assert(st@ =~= fetch_init(max_value));
    }
    st
}

/// Take the decision on one page (see [`fetch_step_spec`]).
pub fn fetch_step(st: &mut FetchState, page: PageOutcome, page_size: usize)
    requires
        !old(st)@.done,
        old(st)@.requests < usize::MAX,
    ensures
        final(st)@ == fetch_step_spec(old(st)@, page, page_size as nat),
{
    match page {
        PageOutcome::Transport => {
            st.requests = st.requests + 1;
            st.done = true;
        },
        PageOutcome::Protocol => {
            st.requests = st.requests + 1;
            st.done = true;
        },
        PageOutcome::Malformed => {
            st.requests = st.requests + 1;
            st.done = true;
            st.failed = true;
        },
        PageOutcome::Items { items, raw_count, last_axis } => {
            st.requests = st.requests + 1;
            if raw_count == 0 {
                st.done = true;
            } else {
                match last_axis {
                    Some(v) => {
                        st.cursor = v;
                    },
                    None => {},
                }
                let mut arriving = items;
                st.items.append(&mut arriving);
                st.failed = false;
                if raw_count < page_size {
                    st.done = true;
                }
            }
        },
    }
    proof {
        assert(st@ =~= fetch_step_spec(old(st)@, page, page_size as nat));
    }
}

/// What draining one axis came to.
pub struct FetchOutcome {
    pub items: Vec<Proposal>,
    pub cursor: i64,
    pub requests: usize,
}

/// Drain one axis of the feed, the successive page requests having
/// come to `pages`: pages are consumed in order until the fetch stops,
/// as [`run_fetch_spec`] lays down.  A response with no proposals array
/// fails the whole fetch; a transport failure or an error payload only
/// ends it, keeping the partial results.
pub fn get_proposals(pages: Vec<PageOutcome>, max_value: i64, page_size: usize) -> (r: Result<
    FetchOutcome,
    CoreError,
>)
    ensures
        ({
            let end = run_fetch_spec(fetch_init(max_value), pages@, page_size as nat);
            match r {
                Ok(out) => !end.failed && out.items@ == end.items && out.cursor == end.cursor
                    && out.requests == end.requests,
                Err(e) => end.failed && e is Decode,
            }
        }),
{
    let ghost pages0 = pages@;
    let total = pages.len();
    let mut remaining = pages;
    let mut st = fetch_start(max_value);
    while !st.done && remaining.len() > 0
        invariant
            pages0.len() == total,
            run_fetch_spec(fetch_init(max_value), pages0, page_size as nat) == run_fetch_spec(
                st@,
                remaining@,
                page_size as nat,
            ),
            st@.requests == pages0.len() - remaining@.len(),
            remaining@.len() <= pages0.len(),
        decreases remaining@.len(),
    {
        let ghost rem0 = remaining@;
        let page = remaining.remove(0);
        proof {
            assert(remaining@ =~= rem0.skip(1));
        }
        fetch_step(&mut st, page, page_size);
    }
    if st.failed {
        Err(CoreError::Decode)
    } else {
        Ok(FetchOutcome { items: st.items, cursor: st.cursor, requests: st.requests })
    }
}

/// One entry folded into the dedup mapping: a later entry overwrites an
/// earlier entry with the same id entirely.
pub open spec fn merge_entry(r: Seq<Proposal>, p: Proposal) -> Seq<Proposal> {
    if has_id(r, p.id@) {
        r.update(idx_of(r, p.id@), p)
    } else {
        r.push(p)
    }
}

/// The dedup of a concatenated window: entries folded in order into a
/// mapping keyed by id, later entries winning.
pub open spec fn dedup_spec(s: Seq<Proposal>) -> Seq<Proposal>
    decreases s.len(),
{
    if s.len() == 0 {
        Seq::empty()
    } else {
        merge_entry(dedup_spec(s.drop_last()), s.last())
    }
}

proof fn lemma_merge_entry(r: Seq<Proposal>, p: Proposal)
    requires
        unique_ids(r),
    ensures
        unique_ids(merge_entry(r, p)),
        forall|id: Seq<char>|
            #[trigger] has_id(merge_entry(r, p), id) <==> has_id(r, id) || id == p.id@,
        has_id(merge_entry(r, p), p.id@),
        merge_entry(r, p)[idx_of(merge_entry(r, p), p.id@)] == p,
        forall|id: Seq<char>|
            has_id(r, id) && id != p.id@ ==> #[trigger] has_id(merge_entry(r, p), id)
                && merge_entry(r, p)[idx_of(merge_entry(r, p), id)] == r[idx_of(r, id)],
{
    let m = merge_entry(r, p);
    if has_id(r, p.id@) {
        let k = idx_of(r, p.id@);
        assert(0 <= k < r.len() && r[k].id@ == p.id@);
        assert forall|i: int, j: int| 0 <= i < j < m.len() implies m[i].id@ != m[j].id@ by {
            assert(m[i] == if i == k {
                p
            } else {
                r[i]
            });
            assert(m[j] == if j == k {
                p
            } else {
                r[j]
            });
        }
        assert forall|id: Seq<char>| #[trigger] has_id(m, id) implies has_id(r, id) || id
            == p.id@ by {
            let w = choose|w: int| 0 <= w < m.len() && m[w].id@ == id;
            if w != k {
                assert(r[w].id@ == id);
            }
        }
        assert forall|id: Seq<char>| has_id(r, id) || id == p.id@ implies #[trigger] has_id(
            m,
            id,
        ) by {
            if id == p.id@ {
                assert(m[k].id@ == id);
            } else {
                let w = choose|w: int| 0 <= w < r.len() && r[w].id@ == id;
                assert(w != k);
                assert(m[w].id@ == id);
            }
        }
        lemma_idx_of(m, k);
        assert forall|id: Seq<char>| has_id(r, id) && id != p.id@ implies #[trigger] has_id(m, id)
            && m[idx_of(m, id)] == r[idx_of(r, id)] by {
            let w = idx_of(r, id);
            assert(0 <= w < r.len() && r[w].id@ == id);
            assert(w != k);
            assert(m[w] == r[w]);
            lemma_idx_of(m, w);
        }
    } else {
        assert forall|i: int, j: int| 0 <= i < j < m.len() implies m[i].id@ != m[j].id@ by {
            if j == r.len() {
                if r[i].id@ == p.id@ {
                    assert(has_id(r, p.id@));
                }
            }
        }
        assert forall|id: Seq<char>| #[trigger] has_id(m, id) implies has_id(r, id) || id
            == p.id@ by {
            let w = choose|w: int| 0 <= w < m.len() && m[w].id@ == id;
            if w < r.len() {
                assert(r[w].id@ == id);
            }
        }
        assert forall|id: Seq<char>| has_id(r, id) || id == p.id@ implies #[trigger] has_id(
            m,
            id,
        ) by {
            if id == p.id@ {
                assert(m[r.len() as int].id@ == id);
            } else {
                let w = choose|w: int| 0 <= w < r.len() && r[w].id@ == id;
                assert(m[w].id@ == id);
            }
        }
        lemma_idx_of(m, r.len() as int);
        assert forall|id: Seq<char>| has_id(r, id) && id != p.id@ implies #[trigger] has_id(m, id)
            && m[idx_of(m, id)] == r[idx_of(r, id)] by {
            let w = idx_of(r, id);
            assert(0 <= w < r.len() && r[w].id@ == id);
            assert(m[w] == r[w]);
            lemma_idx_of(m, w);
        }
    }
}

/// The dedup of any window has unique ids, and carries exactly the ids
/// of the window.
pub proof fn lemma_dedup_ids(s: Seq<Proposal>)
    ensures
        unique_ids(dedup_spec(s)),
        forall|id: Seq<char>| #[trigger] has_id(dedup_spec(s), id) <==> has_id(s, id),
    decreases s.len(),
{
    if s.len() == 0 {
    } else {
        let butlast = s.drop_last();
        let d = dedup_spec(butlast);
        lemma_dedup_ids(butlast);
        lemma_merge_entry(d, s.last());
        assert forall|id: Seq<char>| #[trigger] has_id(s, id) implies has_id(
            dedup_spec(s),
            id,
        ) by {
            let w = choose|w: int| 0 <= w < s.len() && s[w].id@ == id;
            if w < s.len() - 1 {
                assert(butlast[w].id@ == id);
                assert(has_id(butlast, id));
            }
        }
        assert forall|id: Seq<char>| #[trigger] has_id(dedup_spec(s), id) implies has_id(
            s,
            id,
        ) by {
            if has_id(butlast, id) {
                let w = choose|w: int| 0 <= w < butlast.len() && butlast[w].id@ == id;
                assert(s[w].id@ == id);
            } else {
                assert(id == s.last().id@);
                assert(s[s.len() - 1].id@ == id);
            }
        }
    }
}

/// The position of the last entry of the window carrying `id`.
pub open spec fn last_idx_of(s: Seq<Proposal>, id: Seq<char>) -> int
    decreases s.len(),
{
    if s.len() == 0 {
        0
    } else if s.last().id@ == id {
        s.len() - 1
    } else {
        last_idx_of(s.drop_last(), id)
    }
}

/// The dedup keeps, for each id of the window, exactly the last entry
/// that carried it.
pub proof fn lemma_dedup_last_wins(s: Seq<Proposal>, id: Seq<char>)
    requires
        has_id(s, id),
    ensures
        unique_ids(dedup_spec(s)),
        has_id(dedup_spec(s), id),
        0 <= last_idx_of(s, id) < s.len(),
        s[last_idx_of(s, id)].id@ == id,
        dedup_spec(s)[idx_of(dedup_spec(s), id)] == s[last_idx_of(s, id)],
    decreases s.len(),
{
    lemma_dedup_ids(s);
    let butlast = s.drop_last();
    let d = dedup_spec(butlast);
    lemma_dedup_ids(butlast);
    lemma_merge_entry(d, s.last());
    if s.last().id@ == id {
        assert(s[s.len() - 1].id@ == id);
    } else {
        assert(has_id(butlast, id)) by {
            let w = choose|w: int| 0 <= w < s.len() && s[w].id@ == id;
            assert(w != s.len() - 1);
            assert(butlast[w].id@ == id);
        }
        lemma_dedup_last_wins(butlast, id);
        assert(last_idx_of(s, id) == last_idx_of(butlast, id));
        assert(s[last_idx_of(s, id)] == butlast[last_idx_of(butlast, id)]);
        assert(has_id(d, id));
        assert(has_id(merge_entry(d, s.last()), id));
        assert(merge_entry(d, s.last())[idx_of(merge_entry(d, s.last()), id)] == d[idx_of(d, id)]);
        assert(dedup_spec(s)[idx_of(dedup_spec(s), id)] == d[idx_of(d, id)]);
    }
}

/// Dedup precedence: when an id surfaces in both axis windows of one
/// cycle, the merged batch holds exactly one entry for it — the
/// "updated"-axis version (its last occurrence there).
pub proof fn lemma_dedup_precedence(created: Seq<Proposal>, updated: Seq<Proposal>, j: int)
    requires
        0 <= j < updated.len(),
        forall|k: int| j < k < updated.len() ==> (#[trigger] updated[k]).id@ != updated[j].id@,
    ensures
        unique_ids(dedup_spec(created + updated)),
        has_id(dedup_spec(created + updated), updated[j].id@),
        dedup_spec(created + updated)[idx_of(dedup_spec(created + updated), updated[j].id@)]
            == updated[j],
{
    let s = created + updated;
    let id = updated[j].id@;
    let pos = created.len() + j;
    assert(s[pos] == updated[j]);
    assert(has_id(s, id));
    assert forall|i: int| pos < i < s.len() implies (#[trigger] s[i]).id@ != id by {
        assert(s[i] == updated[i - created.len()]);
    }
    lemma_last_idx_pins(s, id, pos);
    lemma_dedup_last_wins(s, id);
}

proof fn lemma_last_idx_pins(s: Seq<Proposal>, id: Seq<char>, pos: int)
    requires
        0 <= pos < s.len(),
        s[pos].id@ == id,
        forall|i: int| pos < i < s.len() ==> (#[trigger] s[i]).id@ != id,
    ensures
        last_idx_of(s, id) == pos,
    decreases s.len(),
{
    if pos == s.len() - 1 {
    } else {
        assert(s.last().id@ != id);
        let butlast = s.drop_last();
        assert(butlast[pos].id@ == id);
        assert forall|i: int| pos < i < butlast.len() implies (#[trigger] butlast[i]).id@ != id by {
            assert(butlast[i] == s[i]);
        }
        lemma_last_idx_pins(butlast, id, pos);
    }
}

/// Merge the two axis windows into the batch to persist: the
/// "created"-axis results followed by the "updated"-axis results,
/// folded into a mapping keyed by id, later entries overwriting
/// earlier ones.
pub fn collect_proposals(new_props: &Vec<Proposal>, updated_props: &Vec<Proposal>) -> (r: Vec<
    Proposal,
>)
    ensures
        r@ == dedup_spec(new_props@ + updated_props@),
        unique_ids(r@),
{
    let mut r: Vec<Proposal> = Vec::new();
    proof {
        assert(new_props@.take(0) =~= Seq::<Proposal>::empty());
        assert(dedup_spec(Seq::<Proposal>::empty()) =~= Seq::<Proposal>::empty());
    }
    let mut i: usize = 0;
    while i < new_props.len()
        invariant
            i <= new_props@.len(),
            r@ == dedup_spec(new_props@.take(i as int)),
            unique_ids(r@),
        decreases new_props@.len() - i,
    {
        proof {
            assert(new_props@.take(i + 1).drop_last() =~= new_props@.take(i as int));
            assert(new_props@.take(i + 1).last() == new_props@[i as int]);
            lemma_merge_entry(r@, new_props@[i as int]);
        }
        merge_step(&mut r, &new_props[i]);
        i = i + 1;
    }
    proof {
        assert(new_props@.take(new_props@.len() as int) =~= new_props@);
        assert((new_props@ + updated_props@.take(0)) =~= new_props@);
    }
    let mut k: usize = 0;
    while k < updated_props.len()
        invariant
            k <= updated_props@.len(),
            r@ == dedup_spec(new_props@ + updated_props@.take(k as int)),
            unique_ids(r@),
        decreases updated_props@.len() - k,
    {
        proof {
            assert((new_props@ + updated_props@.take(k + 1)).drop_last() =~= (new_props@
                + updated_props@.take(k as int)));
            assert((new_props@ + updated_props@.take(k + 1)).last() == updated_props@[k as int]);
            lemma_merge_entry(r@, updated_props@[k as int]);
        }
        merge_step(&mut r, &updated_props[k]);
        k = k + 1;
    }
    proof {
        assert((new_props@ + updated_props@.take(updated_props@.len() as int)) =~= (new_props@
            + updated_props@));
    }
    r
}

fn merge_step(r: &mut Vec<Proposal>, p: &Proposal)
    requires
        unique_ids(old(r)@),
    ensures
        final(r)@ == merge_entry(old(r)@, *p),
{
    match find_by_id(r, &p.id) {
        Some(idx) => {
            proof {
                lemma_idx_of(r@, idx as int);
            }
            r.set(idx, p.clone());
        },
        None => {
            r.push(p.clone());
        },
    }
}

/// One whole ingest cycle against the store: read each axis's cursor,
/// drain both axis windows of the feed, merge them (the "updated"-axis
/// entry for an id winning), and persist the batch atomically.  On any
/// failure — a malformed feed response or a rejected batch — the store
/// is exactly what it was.
pub fn run_collect(
    store: &mut Store,
    created_pages: Vec<PageOutcome>,
    updated_pages: Vec<PageOutcome>,
    page_size: usize,
) -> (r: Result<(), CoreError>)
    requires
        old(store).wf(),
    ensures
        final(store).wf(),
        final(store).recommendations == old(store).recommendations,
        r is Err ==> *final(store) == *old(store),
        ({
            let c_end = run_fetch_spec(
                fetch_init(max_axis_spec(old(store).proposals@, Axis::Created)),
                created_pages@,
                page_size as nat,
            );
            let u_end = run_fetch_spec(
                fetch_init(max_axis_spec(old(store).proposals@, Axis::Updated)),
                updated_pages@,
                page_size as nat,
            );
            let batch = dedup_spec(c_end.items + u_end.items);
            &&& (r is Ok <==> !c_end.failed && !u_end.failed && batch_ok(batch))
            &&& (r is Ok ==> final(store).proposals@ == upsert_seq(old(store).proposals@, batch))
            &&& ((c_end.failed || u_end.failed) <==> (r matches Err(e) && e is Decode))
            &&& (!c_end.failed && !u_end.failed && !batch_ok(batch) <==> (r matches Err(e)
                && e is Persistence))
        }),
{
    let c0 = store.max_axis_value(Axis::Created);
    let created = match get_proposals(created_pages, c0, page_size) {
        Ok(out) => out,
        Err(e) => {
            return Err(e);
        },
    };
    let u0 = store.max_axis_value(Axis::Updated);
    let updated = match get_proposals(updated_pages, u0, page_size) {
        Ok(out) => out,
        Err(e) => {
            return Err(e);
        },
    };
    let batch = collect_proposals(&created.items, &updated.items);
    match store.upsert_proposals(&batch) {
        Ok(()) => Ok(()),
        Err(e) => Err(e),
    }
}

} // verus!
