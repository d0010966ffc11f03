//! The enrichment driver: attach an analysis to every proposal the
//! backfill scan selects.
//!
//! Calling the analysis collaborator is outside work; the driver takes
//! each call's outcome as a plain value — `None` for a transport
//! failure or a malformed response — and decides what to persist.  One
//! failed item never affects the others: every outcome is processed,
//! and exactly the successful, well-weighted ones leave a row behind.

use vstd::prelude::*;

use crate::proposal::Proposal;
use crate::recommendation::{
    check_weights, make_recommendation, rec_of, weights_ok, Analysis, RecView,
};
use crate::store::{backfill_eligible, backfill_seq, has_id, row_ok, Store};

verus! {

/// The whitespace the cleanup trims at either end.
pub open spec fn is_space(c: char) -> bool {
    c == ' ' || c == '\t' || c == '\n' || c == '\r'
}

/// The sequence with its leading whitespace removed.
pub open spec fn trim_start_spec(s: Seq<char>) -> Seq<char>
    decreases s.len(),
{
    if s.len() > 0 && is_space(s[0]) {
        trim_start_spec(s.skip(1))
    } else {
        s
    }
}

/// The sequence with its trailing whitespace removed.
pub open spec fn trim_end_spec(s: Seq<char>) -> Seq<char>
    decreases s.len(),
{
    if s.len() > 0 && is_space(s.last()) {
        trim_end_spec(s.drop_last())
    } else {
        s
    }
}

/// The sequence with whitespace removed at both ends.
pub open spec fn trim_spec(s: Seq<char>) -> Seq<char> {
    trim_end_spec(trim_start_spec(s))
}

/// A code-fence marker: three backticks.
pub open spec fn fence() -> Seq<char> {
    seq!['`', '`', '`']
}

/// Whether the text opens with a code-fence marker.
pub open spec fn starts_with_fence(s: Seq<char>) -> bool {
    s.len() >= 3 && s[0] == '`' && s[1] == '`' && s[2] == '`'
}

/// Whether the text contains a line break.
pub open spec fn has_nl(s: Seq<char>) -> bool {
    exists|i: int| 0 <= i < s.len() && s[i] == '\n'
}

/// The position of the first line break (meaningful when one exists).
pub open spec fn first_nl(s: Seq<char>) -> int
    decreases s.len(),
{
    if s.len() == 0 {
        0
    } else if s[0] == '\n' {
        0
    } else {
        1 + first_nl(s.skip(1))
    }
}

/// The position of the last line break (meaningful when one exists).
pub open spec fn last_nl(s: Seq<char>) -> int
    decreases s.len(),
{
    if s.len() == 0 {
        0
    } else if s.last() == '\n' {
        s.len() - 1
    } else {
        last_nl(s.drop_last())
    }
}

/// Text that opens with a code fence loses its first line (all of it,
/// when it is the only line).
pub open spec fn strip_leading_fence(s: Seq<char>) -> Seq<char> {
    if starts_with_fence(s) {
        if has_nl(s) {
            s.skip(first_nl(s) + 1)
        } else {
            Seq::empty()
        }
    } else {
        s
    }
}

/// Where the last line begins: right after the last line break, or at
/// the start when there is none.
pub open spec fn last_line_start(s: Seq<char>) -> int {
    if has_nl(s) {
        last_nl(s) + 1
    } else {
        0
    }
}

/// Text whose last line is nothing but a code-fence marker loses that
/// line, together with the break before it.
pub open spec fn strip_trailing_fence(s: Seq<char>) -> Seq<char> {
    let ls = last_line_start(s);
    if trim_spec(s.skip(ls)) == fence() {
        if ls == 0 {
            Seq::empty()
        } else {
            s.take(ls - 1)
        }
    } else {
        s
    }
}

/// What cleaning a model answer means: trim it, drop an opening
/// code-fence line, drop a closing code-fence line, trim again.  Line
/// breaks are `'\n'`; a carriage return counts only as whitespace at
/// the ends.
pub open spec fn spec_clean_markdown(s: Seq<char>) -> Seq<char> {
    trim_spec(strip_trailing_fence(strip_leading_fence(trim_spec(s))))
}

proof fn lemma_trim_start_at(s: Seq<char>, a: int)
    requires
        0 <= a <= s.len(),
        forall|k: int| 0 <= k < a ==> is_space(s[k]),
        a < s.len() ==> !is_space(s[a]),
    ensures
        trim_start_spec(s) == s.skip(a),
    decreases s.len(),
{
    if s.len() > 0 && is_space(s[0]) {
        assert(a > 0);
        lemma_trim_start_at(s.skip(1), a - 1);
        assert(s.skip(1).skip(a - 1) =~= s.skip(a));
    } else {
        assert(a == 0);
        assert(s.skip(0) =~= s);
    }
}

proof fn lemma_trim_end_at(s: Seq<char>, b: int)
    requires
        0 <= b <= s.len(),
        forall|k: int| b <= k < s.len() ==> is_space(s[k]),
        b > 0 ==> !is_space(s[b - 1]),
    ensures
        trim_end_spec(s) == s.take(b),
    decreases s.len(),
{
    if s.len() > 0 && is_space(s.last()) {
        assert(b < s.len());
        lemma_trim_end_at(s.drop_last(), b);
        assert(s.drop_last().take(b) =~= s.take(b));
    } else {
        assert(b == s.len());
        assert(s.take(s.len() as int) =~= s);
    }
}

proof fn lemma_trim_at(s: Seq<char>, a: int, b: int)
    requires
        0 <= a <= b <= s.len(),
        forall|k: int| 0 <= k < a ==> is_space(s[k]),
        forall|k: int| b <= k < s.len() ==> is_space(s[k]),
        a < s.len() ==> !is_space(s[a]),
        b > a ==> !is_space(s[b - 1]),
        a == b ==> a == s.len(),
    ensures
        trim_spec(s) == s.subrange(a, b),
{
    lemma_trim_start_at(s, a);
    let t = s.skip(a);
    assert forall|k: int| b - a <= k < t.len() implies is_space(t[k]) by {
        assert(t[k] == s[a + k]);
    }
    lemma_trim_end_at(t, b - a);
    assert(t.take(b - a) =~= s.subrange(a, b));
}

proof fn lemma_first_nl_at(s: Seq<char>, i: int)
    requires
        0 <= i < s.len(),
        s[i] == '\n',
        forall|k: int| 0 <= k < i ==> s[k] != '\n',
    ensures
        has_nl(s),
        first_nl(s) == i,
    decreases s.len(),
{
    if i == 0 {
    } else {
        assert(s[0] != '\n');
        assert(s.skip(1)[i - 1] == s[i]);
        assert forall|k: int| 0 <= k < i - 1 implies s.skip(1)[k] != '\n' by {
            assert(s.skip(1)[k] == s[k + 1]);
        }
        lemma_first_nl_at(s.skip(1), i - 1);
    }
}

proof fn lemma_last_nl_at(s: Seq<char>, i: int)
    requires
        0 <= i < s.len(),
        s[i] == '\n',
        forall|k: int| i < k < s.len() ==> s[k] != '\n',
    ensures
        has_nl(s),
        last_nl(s) == i,
    decreases s.len(),
{
    if i == s.len() - 1 {
    } else {
        assert(s.last() != '\n');
        assert(s.drop_last()[i] == s[i]);
        lemma_last_nl_at(s.drop_last(), i);
    }
}

fn is_space_char(c: char) -> (b: bool)
    ensures
        b == is_space(c),
{
    c == ' ' || c == '\t' || c == '\n' || c == '\r'
}

fn chars_of(text: &str) -> (cs: Vec<char>)
    ensures
        cs@ == text@,
{
    let n = text.unicode_len();
    let mut cs: Vec<char> = Vec::new();
    let mut i: usize = 0;
    while i < n
        invariant
            n == text@.len(),
            i <= n,
            cs@ =~= text@.take(i as int),
        decreases n - i,
    {
        cs.push(text.get_char(i));
        proof {
            assert(cs@ =~= text@.take(i + 1));
        }
        i = i + 1;
    }
    proof {
        assert(text@.take(n as int) =~= text@);
    }
    cs
}

fn trim_window(cs: &Vec<char>, a0: usize, b0: usize) -> (r: (usize, usize))
    requires
        a0 <= b0 <= cs@.len(),
    ensures
        ({
            let (a, b) = r;
            &&& a0 <= a <= b <= b0
            &&& trim_spec(cs@.subrange(a0 as int, b0 as int)) == cs@.subrange(a as int, b as int)
        }),
{
    let ghost t = cs@.subrange(a0 as int, b0 as int);
    let mut a = a0;
    while a < b0 && is_space_char(cs[a])
        invariant
            a0 <= a <= b0 <= cs@.len(),
            forall|k: int| a0 <= k < a ==> is_space(cs@[k]),
        decreases b0 - a,
    {
        a = a + 1;
    }
    if a == b0 {
        proof {
            assert forall|k: int| 0 <= k < t.len() implies is_space(t[k]) by {
                assert(t[k] == cs@[a0 + k]);
            }
            lemma_trim_at(t, t.len() as int, t.len() as int);
            assert(t.subrange(t.len() as int, t.len() as int) =~= cs@.subrange(
                a as int,
                a as int,
            ));
        }
        return (a, a);
    }
    let mut b = b0;
    while b > a && is_space_char(cs[b - 1])
        invariant
            a <= b <= b0 <= cs@.len(),
            forall|k: int| b <= k < b0 ==> is_space(cs@[k]),
        decreases b,
    {
        b = b - 1;
    }
    proof {
        assert(!is_space(cs@[a as int]));
        assert(b > a);
        assert(!is_space(cs@[b - 1]));
        assert forall|k: int| 0 <= k < a - a0 implies is_space(t[k]) by {
            assert(t[k] == cs@[a0 + k]);
        }
        assert forall|k: int| b - a0 <= k < t.len() implies is_space(t[k]) by {
            assert(t[k] == cs@[a0 + k]);
        }
        assert(t[a - a0] == cs@[a as int]);
        assert(t[b - a0 - 1] == cs@[b - 1]);
        lemma_trim_at(t, a - a0, b - a0);
        assert(t.subrange(a - a0, b - a0) =~= cs@.subrange(a as int, b as int));
    }
    (a, b)
}

/// Strip the code fences a model may wrap its answer in: leading and
/// trailing whitespace goes, an opening ```` ``` ```` line goes, a
/// closing line that is nothing but ```` ``` ```` goes, and the rest is
/// handed back trimmed.
#[verifier::rlimit(60)]
pub fn clean_markdown(text: &str) -> (r: String)
    ensures
        r@ == spec_clean_markdown(text@),
{
    let cs = chars_of(text);
    let n = cs.len();
    let ghost s = cs@;
    // first trim
    let (a1, b1) = trim_window(&cs, 0, n);
    let ghost t1 = s.subrange(a1 as int, b1 as int);
    proof {
        assert(s.subrange(0, n as int) =~= s);
        assert(t1 == trim_spec(s));
    }
    // opening fence line
    let mut a2 = a1;
    let b2 = b1;
    if b1 - a1 >= 3 && cs[a1] == '`' && cs[a1 + 1] == '`' && cs[a1 + 2] == '`' {
        proof {
            assert(t1[0] == s[a1 as int] && t1[1] == s[a1 + 1] && t1[2] == s[a1 + 2]);
            assert(starts_with_fence(t1));
        }
        let mut i = a1;
        while i < b1 && cs[i] != '\n'
            invariant
                a1 <= i <= b1 <= cs@.len(),
                forall|k: int| a1 <= k < i ==> cs@[k] != '\n',
            decreases b1 - i,
        {
            i = i + 1;
        }
        if i < b1 {
            proof {
                assert(t1[i - a1] == s[i as int]);
                assert forall|k: int| 0 <= k < i - a1 implies t1[k] != '\n' by {
                    assert(t1[k] == s[a1 + k]);
                }
                lemma_first_nl_at(t1, i - a1);
                assert(t1.skip(i - a1 + 1) =~= s.subrange(i + 1, b1 as int));
            }
            a2 = i + 1;
        } else {
            proof {
                if has_nl(t1) {
                    let w = choose|w: int| 0 <= w < t1.len() && t1[w] == '\n';
                    assert(t1[w] == s[a1 + w]);
                    assert(false);
                }
                assert(s.subrange(b1 as int, b1 as int) =~= Seq::<char>::empty());
            }
            a2 = b1;
        }
    } else {
        proof {
            assert(!starts_with_fence(t1));
        }
    }
    let ghost t2 = s.subrange(a2 as int, b2 as int);
    proof {
        assert(t2 == strip_leading_fence(t1));
    }
    // closing fence line
    let a3 = a2;
    let mut b3 = b2;
    let mut j = b2;
    while j > a2 && cs[j - 1] != '\n'
        invariant
            a2 <= j <= b2 <= cs@.len(),
            forall|k: int| j <= k < b2 ==> cs@[k] != '\n',
        decreases j,
    {
        j = j - 1;
    }
    let ll = if j > a2 {
        j
    } else {
        a2
    };
    proof {
        if j > a2 {
            assert(cs@[j - 1] == '\n');
            assert(t2[j - 1 - a2] == s[j - 1]);
            assert forall|k: int| j - 1 - a2 < k < t2.len() implies t2[k] != '\n' by {
                assert(t2[k] == s[a2 + k]);
            }
            lemma_last_nl_at(t2, j - 1 - a2);
            assert(last_line_start(t2) == ll - a2);
        } else {
            if has_nl(t2) {
                let w = choose|w: int| 0 <= w < t2.len() && t2[w] == '\n';
                assert(t2[w] == s[a2 + w]);
                assert(false);
            }
            assert(last_line_start(t2) == 0);
        }
        assert(t2.skip(ll - a2) =~= s.subrange(ll as int, b2 as int));
    }
    let (al, bl) = trim_window(&cs, ll, b2);
    let is_fence_line = bl - al == 3 && cs[al] == '`' && cs[al + 1] == '`' && cs[al + 2] == '`';
    proof {
        let lastline = s.subrange(al as int, bl as int);
        assert(trim_spec(t2.skip(ll - a2)) == lastline);
        if is_fence_line {
            assert(lastline[0] == s[al as int] && lastline[1] == s[al + 1] && lastline[2] == s[al
                + 2]);
            assert(lastline =~= fence());
        } else {
            if lastline == fence() {
                assert(lastline.len() == 3);
                assert(lastline[0] == '`' && lastline[1] == '`' && lastline[2] == '`');
                assert(s[al as int] == '`' && s[al + 1] == '`' && s[al + 2] == '`');
                assert(false);
            }
        }
    }
    if is_fence_line {
        if ll == a2 {
            b3 = a2;
            proof {
                assert(s.subrange(a2 as int, a2 as int) =~= Seq::<char>::empty());
            }
        } else {
            b3 = ll - 1;
            proof {
                assert(t2.take(ll - 1 - a2) =~= s.subrange(a2 as int, ll - 1));
            }
        }
    }
    let ghost t3 = s.subrange(a3 as int, b3 as int);
    proof {
        assert(t3 == strip_trailing_fence(t2));
    }
    // final trim
    let (a4, b4) = trim_window(&cs, a3, b3);
    proof {
        assert(s.subrange(a4 as int, b4 as int) == spec_clean_markdown(text@));
    }
    let out = text.substring_char(a4, b4);
    out.to_owned()
}

/// The rows one enrichment pass appends: for each scanned proposal, in
/// scan order, one row when its analysis came back with well-formed
/// weights, none otherwise.
pub open spec fn appended_recs(
    cands: Seq<Proposal>,
    outcomes: Seq<Option<Analysis>>,
    now: i64,
) -> Seq<RecView>
    decreases cands.len(),
{
    if cands.len() == 0 {
        Seq::empty()
    } else {
        let rest = appended_recs(cands.drop_last(), outcomes.drop_last(), now);
        match outcomes.last() {
            Some(a) => if weights_ok(a.recommendation@) {
                rest.push(rec_of(cands.last().id, a, now))
            } else {
                rest
            },
            None => rest,
        }
    }
}

/// Every proposal the backfill scan returns is a stored row, and is
/// eligible; every eligible stored row is returned.
pub proof fn lemma_backfill_members(props: Seq<Proposal>, recs: Seq<RecView>, now: i64)
    ensures
        forall|j: int|
            0 <= j < backfill_seq(props, recs, now).len() ==> props.contains(
                #[trigger] backfill_seq(props, recs, now)[j],
            ) && backfill_eligible(backfill_seq(props, recs, now)[j], recs, now),
        forall|j: int|
            0 <= j < props.len() && backfill_eligible(#[trigger] props[j], recs, now)
                ==> backfill_seq(props, recs, now).contains(props[j]),
    decreases props.len(),
{
    if props.len() == 0 {
    } else {
        let butlast = props.drop_last();
        let rest = backfill_seq(butlast, recs, now);
        let r = backfill_seq(props, recs, now);
        lemma_backfill_members(butlast, recs, now);
        assert forall|j: int| 0 <= j < r.len() implies props.contains(#[trigger] r[j])
            && backfill_eligible(r[j], recs, now) by {
            if j < rest.len() {
                assert(rest[j] == r[j]);
                let w = choose|w: int| 0 <= w < butlast.len() && butlast[w] == rest[j];
                assert(props[w] == rest[j]);
            } else {
                assert(r[j] == props.last());
                assert(props[props.len() - 1] == props.last());
            }
        }
        assert forall|j: int|
            0 <= j < props.len() && backfill_eligible(#[trigger] props[j], recs, now) implies r
            .contains(props[j]) by {
            if j < props.len() - 1 {
                assert(butlast[j] == props[j]);
                let w = choose|w: int| 0 <= w < rest.len() && rest[w] == props[j];
                assert(r[w] == props[j]);
            } else {
                if backfill_eligible(props.last(), recs, now) {
                    assert(r[r.len() - 1] == props.last());
                }
            }
        }
    }
}

/// One enrichment pass: scan the store for proposals needing analysis,
/// take the collaborator's outcome for each — in scan order, one
/// outcome per scanned proposal — and persist a row for every outcome
/// that succeeded with well-formed weights.  A failed item is skipped;
/// it never affects the others.  Proposals are untouched.
pub fn run_recommendation_creator(store: &mut Store, outcomes: &Vec<Option<Analysis>>, now: i64)
    requires
        old(store).wf(),
        outcomes@.len() == backfill_seq(old(store).proposals@, old(store).recs(), now).len(),
    ensures
        final(store).wf(),
        final(store).proposals == old(store).proposals,
        final(store).recs() == old(store).recs() + appended_recs(
            backfill_seq(old(store).proposals@, old(store).recs(), now),
            outcomes@,
            now,
        ),
{
    let candidates = store.get_active_proposals_without_rec(now);
    let ghost cands = candidates@;
    let ghost recs0 = store.recs();
    proof {
        lemma_backfill_members(store.proposals@, store.recs(), now);
        assert(cands.take(0) =~= Seq::<Proposal>::empty());
        assert(outcomes@.take(0) =~= Seq::<Option<Analysis>>::empty());
        assert(store.recs() =~= recs0 + appended_recs(cands.take(0), outcomes@.take(0), now));
    }
    let mut i: usize = 0;
    while i < candidates.len()
        invariant
            cands == candidates@,
            i <= cands.len(),
            cands.len() == outcomes@.len(),
            store.wf(),
            store.proposals == old(store).proposals,
            recs0 == old(store).recs(),
            cands == backfill_seq(old(store).proposals@, recs0, now),
            forall|j: int|
                0 <= j < cands.len() ==> old(store).proposals@.contains(#[trigger] cands[j]),
            store.recs() == recs0 + appended_recs(cands.take(i as int), outcomes@.take(i as int), now),
        decreases cands.len() - i,
    {
        proof {
            assert(cands.take(i + 1).drop_last() =~= cands.take(i as int));
            assert(outcomes@.take(i + 1).drop_last() =~= outcomes@.take(i as int));
            assert(cands.take(i + 1).last() == cands[i as int]);
            assert(outcomes@.take(i + 1).last() == outcomes@[i as int]);
        }
        match &outcomes[i] {
            Some(a) => {
                if check_weights(&a.recommendation) {
                    let rec = make_recommendation(&candidates[i].id, a, now);
                    proof {
                        let w = choose|w: int|
                            0 <= w < old(store).proposals@.len() && old(store).proposals@[w]
                                == cands[i as int];
                        assert(row_ok(old(store).proposals@[w]));
                        assert(has_id(store.proposals@, rec@.proposal_id@));
                    }
                    let res = store.save_recommendation(rec);
                    proof {
                        assert(res is Ok);
                        assert(store.recs() =~= recs0 + appended_recs(
                            cands.take(i + 1),
                            outcomes@.take(i + 1),
                            now,
                        ));
                    }
                }
            },
            None => {},
        }
        proof {
            assert(store.recs() =~= recs0 + appended_recs(
                cands.take(i + 1),
                outcomes@.take(i + 1),
                now,
            ));
        }
        i = i + 1;
    }
    proof {
        assert(cands.take(cands.len() as int) =~= cands);
        assert(outcomes@.take(outcomes@.len() as int) =~= outcomes@);
    }
}

} // verus!
