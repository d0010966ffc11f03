//! The proposal record and the decoding of feed items into it.
//!
//! The remote feed hands back JSON objects.  The unverified boundary
//! reduces each object to a [`RawItem`]: one [`JsonScalar`] per field,
//! holding as plain values exactly what the decoding logic reads.  Nested
//! documents (space, choices, scores, ...) are carried as their serialized
//! text, never interpreted here.  [`Proposal::from_json`] then performs the
//! decoding decisions — required identity, type coercions, fallbacks — and
//! is verified against an exact contract.

use vstd::prelude::*;

verus! {

/// One field of a decoded feed item, reduced to a plain value.
///
/// `Num` carries the number's decimal rendering together with its integer
/// value when it has one.  `Doc` carries a nested document as its
/// serialized text.  `Other` stands for a present value of any other
/// shape (an object where a scalar was expected, an explicit null).
pub enum JsonScalar {
    Missing,
    Str(String),
    Num { text: String, int_val: Option<i64> },
    Bool(bool),
    Doc(String),
    Other,
}

/// The string read from a scalar, if it is a string.
pub open spec fn as_str_opt(s: JsonScalar) -> Option<String> {
    match s {
        JsonScalar::Str(t) => Some(t),
        _ => None,
    }
}

/// The integer value of a scalar, if it is an integer-valued number.
pub open spec fn as_int_opt(s: JsonScalar) -> Option<i64> {
    match s {
        JsonScalar::Num { text: _, int_val } => int_val,
        _ => None,
    }
}

/// The boolean read from a scalar, if it is a boolean.
pub open spec fn as_bool_opt(s: JsonScalar) -> Option<bool> {
    match s {
        JsonScalar::Bool(b) => Some(b),
        _ => None,
    }
}

/// The serialized text of a nested document, if one is present.
pub open spec fn as_doc_opt(s: JsonScalar) -> Option<String> {
    match s {
        JsonScalar::Doc(t) => Some(t),
        _ => None,
    }
}

/// The numeric-or-string coercion the feed's loose fields need: a number's
/// decimal text, a string as itself, anything else (including a missing
/// field) the literal "0".
pub open spec fn num_or_str_text(s: JsonScalar) -> Seq<char> {
    match s {
        JsonScalar::Num { text, int_val: _ } => text@,
        JsonScalar::Str(t) => t@,
        _ => "0"@,
    }
}

/// A feed item with every field reduced to a plain scalar, in the shape
/// the remote feed's proposal records have.
pub struct RawItem {
    pub id: JsonScalar,
    pub ipfs: JsonScalar,
    pub space: JsonScalar,
    pub proposal_type: JsonScalar,
    pub title: JsonScalar,
    pub body: JsonScalar,
    pub discussion: JsonScalar,
    pub author: JsonScalar,
    pub quorum: JsonScalar,
    pub quorum_type: JsonScalar,
    pub start: JsonScalar,
    pub end: JsonScalar,
    pub snapshot: JsonScalar,
    pub choices: JsonScalar,
    pub labels: JsonScalar,
    pub scores: JsonScalar,
    pub scores_total: JsonScalar,
    pub scores_state: JsonScalar,
    pub state: JsonScalar,
    pub strategies: JsonScalar,
    pub created: JsonScalar,
    pub updated: JsonScalar,
    pub votes: JsonScalar,
    pub privacy: JsonScalar,
    pub plugins: JsonScalar,
    pub flagged: JsonScalar,
}

/// A governance proposal as the store keeps it.
///
/// Time fields are absolute Unix seconds.  Nested documents are kept as
/// their serialized text; the engine never reads inside them.
pub struct Proposal {
    pub id: String,
    pub ipfs: Option<String>,
    pub space: Option<String>,
    pub proposal_type: Option<String>,
    pub title: Option<String>,
    pub body: Option<String>,
    pub discussion: Option<String>,
    pub author: Option<String>,
    pub quorum: String,
    pub quorum_type: Option<String>,
    pub start: Option<i64>,
    pub end: Option<i64>,
    pub snapshot: Option<String>,
    pub choices: Option<String>,
    pub labels: Option<String>,
    pub scores: Option<String>,
    pub scores_total: String,
    pub scores_state: Option<String>,
    pub state: Option<String>,
    pub strategies: Option<String>,
    pub created: Option<i64>,
    pub updated: Option<i64>,
    pub votes: String,
    pub privacy: Option<String>,
    pub plugins: Option<String>,
    pub flagged: Option<bool>,
}

/// One of the two independent time axes the feed can be paginated by.
#[derive(Clone, Copy)]
pub enum Axis {
    Created,
    Updated,
}

/// The value a proposal carries on an axis.
pub open spec fn spec_axis_of(p: Proposal, a: Axis) -> Option<i64> {
    match a {
        Axis::Created => p.created,
        Axis::Updated => p.updated,
    }
}

/// Read the value a proposal carries on an axis.
pub fn axis_of(p: &Proposal, a: Axis) -> (r: Option<i64>)
    ensures
        r == spec_axis_of(*p, a),
{
    match a {
        Axis::Created => p.created,
        Axis::Updated => p.updated,
    }
}

/// The record a conflicting write leaves behind: volatile fields are
/// refreshed from the incoming record, creation-time fields keep the
/// values the current record already has.
pub open spec fn merged(current: Proposal, incoming: Proposal) -> Proposal {
    Proposal {
        space: incoming.space,
        state: incoming.state,
        discussion: incoming.discussion,
        scores: incoming.scores,
        scores_total: incoming.scores_total,
        scores_state: incoming.scores_state,
        votes: incoming.votes,
        updated: incoming.updated,
        ..current
    }
}

/// Exact statement of what a decoded proposal holds, field by field,
/// in terms of the raw item it was decoded from.
pub open spec fn decoded_from(p: Proposal, item: RawItem) -> bool {
    &&& Some(p.id) == as_str_opt(item.id)
    &&& p.ipfs == as_str_opt(item.ipfs)
    &&& p.space == as_doc_opt(item.space)
    &&& p.proposal_type == as_str_opt(item.proposal_type)
    &&& p.title == as_str_opt(item.title)
    &&& p.body == as_str_opt(item.body)
    &&& p.discussion == as_str_opt(item.discussion)
    &&& p.author == as_str_opt(item.author)
    &&& p.quorum@ == num_or_str_text(item.quorum)
    &&& p.quorum_type == as_str_opt(item.quorum_type)
    &&& p.start == as_int_opt(item.start)
    &&& p.end == as_int_opt(item.end)
    &&& p.snapshot == as_str_opt(item.snapshot)
    &&& p.choices == as_doc_opt(item.choices)
    &&& p.labels == as_doc_opt(item.labels)
    &&& p.scores == as_doc_opt(item.scores)
    &&& p.scores_total@ == num_or_str_text(item.scores_total)
    &&& p.scores_state == as_str_opt(item.scores_state)
    &&& p.state == as_str_opt(item.state)
    &&& p.strategies == as_doc_opt(item.strategies)
    &&& p.created == as_int_opt(item.created)
    &&& p.updated == as_int_opt(item.updated)
    &&& p.votes@ == num_or_str_text(item.votes)
    &&& p.privacy == as_str_opt(item.privacy)
    &&& p.plugins == as_doc_opt(item.plugins)
    &&& p.flagged == as_bool_opt(item.flagged)
}

fn scalar_str(s: JsonScalar) -> (r: Option<String>)
    ensures
        r == as_str_opt(s),
{
    match s {
        JsonScalar::Str(t) => Some(t),
        _ => None,
    }
}

fn scalar_int(s: JsonScalar) -> (r: Option<i64>)
    ensures
        r == as_int_opt(s),
{
    match s {
        JsonScalar::Num { text: _, int_val } => int_val,
        _ => None,
    }
}

fn scalar_bool(s: JsonScalar) -> (r: Option<bool>)
    ensures
        r == as_bool_opt(s),
{
    match s {
        JsonScalar::Bool(b) => Some(b),
        _ => None,
    }
}

fn scalar_doc(s: JsonScalar) -> (r: Option<String>)
    ensures
        r == as_doc_opt(s),
{
    match s {
        JsonScalar::Doc(t) => Some(t),
        _ => None,
    }
}

fn scalar_num_text(s: JsonScalar) -> (r: String)
    ensures
        r@ == num_or_str_text(s),
{
    match s {
        JsonScalar::Num { text, int_val: _ } => text,
        JsonScalar::Str(t) => t,
        _ => "0".to_owned(),
    }
}

impl Proposal {
    /// Decode one feed item.  The identity is the only required field:
    /// the result is `Some` exactly when the item carries a string id,
    /// and every field of the decoded record is pinned by `decoded_from`.
    pub fn from_json(item: RawItem) -> (r: Option<Proposal>)
        ensures
            r is Some <==> item.id is Str,
            r matches Some(p) ==> decoded_from(p, item),
    {
        let id = match scalar_str(item.id) {
            Some(id) => id,
            None => {
                return None;
            },
        };
        Some(Proposal {
            id,
            ipfs: scalar_str(item.ipfs),
            space: scalar_doc(item.space),
            proposal_type: scalar_str(item.proposal_type),
            title: scalar_str(item.title),
            body: scalar_str(item.body),
            discussion: scalar_str(item.discussion),
            author: scalar_str(item.author),
            quorum: scalar_num_text(item.quorum),
            quorum_type: scalar_str(item.quorum_type),
            start: scalar_int(item.start),
            end: scalar_int(item.end),
            snapshot: scalar_str(item.snapshot),
            choices: scalar_doc(item.choices),
            labels: scalar_doc(item.labels),
            scores: scalar_doc(item.scores),
            scores_total: scalar_num_text(item.scores_total),
            scores_state: scalar_str(item.scores_state),
            state: scalar_str(item.state),
            strategies: scalar_doc(item.strategies),
            created: scalar_int(item.created),
            updated: scalar_int(item.updated),
            votes: scalar_num_text(item.votes),
            privacy: scalar_str(item.privacy),
            plugins: scalar_doc(item.plugins),
            flagged: scalar_bool(item.flagged),
        })
    }
}

fn clone_opt_string(o: &Option<String>) -> (r: Option<String>)
    ensures
        r == *o,
{
    match o {
        Some(s) => Some(s.clone()),
        None => None,
    }
}

impl Clone for Proposal {
    fn clone(&self) -> (res: Self)
        ensures
            res == *self,
    {
        Proposal {
            id: self.id.clone(),
            ipfs: clone_opt_string(&self.ipfs),
            space: clone_opt_string(&self.space),
            proposal_type: clone_opt_string(&self.proposal_type),
            title: clone_opt_string(&self.title),
            body: clone_opt_string(&self.body),
            discussion: clone_opt_string(&self.discussion),
            author: clone_opt_string(&self.author),
            quorum: self.quorum.clone(),
            quorum_type: clone_opt_string(&self.quorum_type),
            start: self.start,
            end: self.end,
            snapshot: clone_opt_string(&self.snapshot),
            choices: clone_opt_string(&self.choices),
            labels: clone_opt_string(&self.labels),
            scores: clone_opt_string(&self.scores),
            scores_total: self.scores_total.clone(),
            scores_state: clone_opt_string(&self.scores_state),
            state: clone_opt_string(&self.state),
            strategies: clone_opt_string(&self.strategies),
            created: self.created,
            updated: self.updated,
            votes: self.votes.clone(),
            privacy: clone_opt_string(&self.privacy),
            plugins: clone_opt_string(&self.plugins),
            flagged: self.flagged,
        }
    }
}

/// Build the record a conflicting write leaves behind (see [`merged`]).
pub fn merge_into(current: &Proposal, incoming: &Proposal) -> (r: Proposal)
    ensures
        r == merged(*current, *incoming),
{
    Proposal {
        id: current.id.clone(),
        ipfs: clone_opt_string(&current.ipfs),
        space: clone_opt_string(&incoming.space),
        proposal_type: clone_opt_string(&current.proposal_type),
        title: clone_opt_string(&current.title),
        body: clone_opt_string(&current.body),
        discussion: clone_opt_string(&incoming.discussion),
        author: clone_opt_string(&current.author),
        quorum: current.quorum.clone(),
        quorum_type: clone_opt_string(&current.quorum_type),
        start: current.start,
        end: current.end,
        snapshot: clone_opt_string(&current.snapshot),
        choices: clone_opt_string(&current.choices),
        labels: clone_opt_string(&current.labels),
        scores: clone_opt_string(&incoming.scores),
        scores_total: incoming.scores_total.clone(),
        scores_state: clone_opt_string(&incoming.scores_state),
        state: clone_opt_string(&incoming.state),
        strategies: clone_opt_string(&current.strategies),
        created: current.created,
        updated: incoming.updated,
        votes: incoming.votes.clone(),
        privacy: clone_opt_string(&current.privacy),
        plugins: clone_opt_string(&current.plugins),
        flagged: current.flagged,
    }
}

} // verus!
