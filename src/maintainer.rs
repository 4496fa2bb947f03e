//! The document maintainer: decides which operations on the index an
//! observation or a removal of a file stages.
use vstd::prelude::*;

use crate::document::{
    opt_doc_view, ops_view, DocView, DocumentSchema, IndexOp, IndexedDoc, OpView,
};

use crate::text::{join_separated, separated};

verus! {

/// What to do with an observed file once the index has been asked for its digest.
pub enum ObservePlan {
    /// Stage these operations; no extraction is needed.
    Stage(Vec<IndexOp>),
    /// The content is new: run the extractors, then call `finish_observe`.
    Analyse,
}

pub ghost enum ObservePlanView {
    Stage(Seq<OpView>),
    Analyse,
}

impl View for ObservePlan {
    type V = ObservePlanView;

    open spec fn view(&self) -> ObservePlanView {
        match self {
            ObservePlan::Stage(ops) => ObservePlanView::Stage(ops_view(ops@)),
            ObservePlan::Analyse => ObservePlanView::Analyse,
        }
    }
}

pub open spec fn fields_view(fields: Seq<DocumentSchema>) -> Seq<(Seq<char>, Seq<char>)> {
    fields.map_values(|f: DocumentSchema| (f.name@, f.body@))
}

/// The bodies of `fields`, with one space between each two.
pub open spec fn joined_bodies(fields: Seq<(Seq<char>, Seq<char>)>) -> Seq<char> {
    separated(fields.map_values(|f: (Seq<char>, Seq<char>)| f.1))
}

pub open spec fn with_location(d: DocView, l: Seq<char>) -> DocView {
    DocView { locations: d.locations.push(l), ..d }
}

/// Holds of every location but `l`.
pub open spec fn other_than(l: Seq<char>) -> spec_fn(Seq<char>) -> bool {
    |x: Seq<char>| x != l
}

pub open spec fn without_location(d: DocView, l: Seq<char>) -> DocView {
    DocView { locations: d.locations.filter(other_than(l)), ..d }
}

/// The first step of an observation, given the document that holds the digest.
pub open spec fn observe_plan(existing: Option<DocView>, location: Seq<char>, digest: Seq<char>)
    -> ObservePlanView
{
    match existing {
        None => ObservePlanView::Analyse,
        Some(d) => if d.locations.contains(location) {
            ObservePlanView::Stage(seq![])
        } else {
            ObservePlanView::Stage(
                seq![OpView::DeleteByHash(digest), OpView::Add(with_location(d, location))],
            )
        },
    }
}

/// The document made for new content from what the extractors returned.
pub open spec fn new_document(
    fields: Seq<(Seq<char>, Seq<char>)>,
    location: Seq<char>,
    digest: Seq<char>,
) -> DocView {
    DocView {
        title: fields[0].0,
        hash: digest,
        locations: seq![location],
        body: joined_bodies(fields),
    }
}

/// The operations that end an observation of new content.
pub open spec fn finish_ops(
    fields: Seq<(Seq<char>, Seq<char>)>,
    location: Seq<char>,
    digest: Seq<char>,
) -> Seq<OpView> {
    if fields.len() == 0 {
        seq![]
    } else {
        seq![OpView::Add(new_document(fields, location, digest))]
    }
}

/// The operations of a removal, given the document that lists the location.
pub open spec fn remove_ops(existing: Option<DocView>, location: Seq<char>) -> Seq<OpView> {
    match existing {
        None => seq![],
        Some(d) => if d.locations.len() >= 2 {
            seq![OpView::DeleteByLocation(location), OpView::Add(without_location(d, location))]
        } else {
            seq![OpView::DeleteByLocation(location)]
        },
    }
}

fn clone_locations(v: &Vec<String>) -> (r: Vec<String>)
    ensures
        r.deep_view() == v.deep_view(),
{
    let mut r: Vec<String> = Vec::new();
    let mut i: usize = 0;
    while i < v.len()
        invariant
            i <= v.len(),
            r.deep_view() == v.deep_view().take(i as int),
        decreases v.len() - i,
    {
        r.push(v[i].clone());
        assert(v.deep_view().take(i + 1) == v.deep_view().take(i as int).push(v[i as int]@));
        i = i + 1;
    }
    assert(v.deep_view().take(v.len() as int) == v.deep_view());
    r
}

/// Whether `location` is one of `locations`.
pub fn lists_location(locations: &Vec<String>, location: &String) -> (r: bool)
    ensures
        r == locations.deep_view().contains(location@),
{
    let mut i: usize = 0;
    while i < locations.len()
        invariant
            i <= locations.len(),
            forall|j: int| 0 <= j < i ==> locations.deep_view()[j] != location@,
        decreases locations.len() - i,
    {
        if locations[i] == *location {
            assert(locations.deep_view()[i as int] == location@);
            return true;
        }
        i = i + 1;
    }
    false
}

/// Decides the first step of an observation of the file at `location` whose
/// content has digest `digest`, given the document that the index holds for
/// that digest.
pub fn plan_observe(existing: &Option<IndexedDoc>, location: &String, digest: &String) -> (r:
    ObservePlan)
    ensures
        r@ == observe_plan(opt_doc_view(*existing), location@, digest@),
{
    match existing {
        None => ObservePlan::Analyse,
        Some(d) => {
            if lists_location(&d.locations, location) {
                let ops: Vec<IndexOp> = Vec::new();
                assert(ops_view(ops@) =~= seq![]);
                ObservePlan::Stage(ops)
            } else {
                let mut locations = clone_locations(&d.locations);
                locations.push(location.clone());
                assert(locations.deep_view() =~= d.locations.deep_view().push(location@));
                let updated = IndexedDoc {
                    title: d.title.clone(),
                    hash: d.hash.clone(),
                    locations,
                    body: d.body.clone(),
                };
                assert(updated@ == with_location(d@, location@));
                let ops = vec![IndexOp::DeleteByHash(digest.clone()), IndexOp::Add(updated)];
                assert(ops_view(ops@) =~= seq![
                    OpView::DeleteByHash(digest@),
                    OpView::Add(with_location(d@, location@)),
                ]);
                ObservePlan::Stage(ops)
            }
        },
    }
}

/// The bodies of `fields`, with one space between each two.
pub fn join_bodies(fields: &Vec<DocumentSchema>) -> (r: String)
    ensures
        r@ == joined_bodies(fields_view(fields@)),
{
    let mut bodies: Vec<String> = Vec::new();
    let mut i: usize = 0;
    while i < fields.len()
        invariant
            i <= fields.len(),
            bodies.deep_view() == fields_view(fields@).take(i as int).map_values(
                |f: (Seq<char>, Seq<char>)| f.1,
            ),
        decreases fields.len() - i,
    {
        let ghost before = bodies.deep_view();
        bodies.push(fields[i].body.clone());
        assert(bodies.deep_view() =~= before.push(fields[i as int].body@));
        assert(bodies.deep_view() =~= fields_view(fields@).take(i + 1).map_values(
            |f: (Seq<char>, Seq<char>)| f.1,
        ));
        i = i + 1;
    }
    assert(fields_view(fields@).take(fields.len() as int) =~= fields_view(fields@));
    join_separated(&bodies)
}

/// Ends the observation of new content at `location` with digest `digest`,
/// given what the matching extractors returned: one new document when any
/// of them succeeded, nothing otherwise.
pub fn finish_observe(fields: &Vec<DocumentSchema>, location: &String, digest: &String) -> (r:
    Vec<IndexOp>)
    ensures
        ops_view(r@) == finish_ops(fields_view(fields@), location@, digest@),
{
    if fields.len() == 0 {
        let ops: Vec<IndexOp> = Vec::new();
        assert(ops_view(ops@) =~= seq![]);
        ops
    } else {
        let locations = vec![location.clone()];
        assert(locations.deep_view() =~= seq![location@]);
        let doc = IndexedDoc {
            title: fields[0].name.clone(),
            hash: digest.clone(),
            locations,
            body: join_bodies(fields),
        };
        assert(doc@ == new_document(fields_view(fields@), location@, digest@));
        let ops = vec![IndexOp::Add(doc)];
        assert(ops_view(ops@) =~= finish_ops(fields_view(fields@), location@, digest@));
        ops
    }
}

fn locations_without(v: &Vec<String>, location: &String) -> (r: Vec<String>)
    ensures
        r.deep_view() == v.deep_view().filter(other_than(location@)),
{
    let ghost pred = other_than(location@);
    let mut r: Vec<String> = Vec::new();
    let mut i: usize = 0;
    while i < v.len()
        invariant
            i <= v.len(),
            pred == other_than(location@),
            r.deep_view() == v.deep_view().take(i as int).filter(pred),
        decreases v.len() - i,
    {
        proof {
            assert(v.deep_view().take(i + 1) == v.deep_view().take(i as int).push(v[i as int]@));
            v.deep_view().take(i as int).lemma_filter_push(v[i as int]@, pred);
        }
        if !(v[i] == *location) {
            r.push(v[i].clone());
            assert(r.deep_view() =~= v.deep_view().take(i as int).filter(pred).push(v[i as int]@));
        }
        i = i + 1;
    }
    assert(v.deep_view().take(v.len() as int) == v.deep_view());
    r
}

/// Decides the operations that remove `location` from the index, given the
/// document that lists it: that document goes; if it listed other locations,
/// it comes back without this one.
pub fn plan_remove(existing: &Option<IndexedDoc>, location: &String) -> (r: Vec<IndexOp>)
    ensures
        ops_view(r@) == remove_ops(opt_doc_view(*existing), location@),
{
    match existing {
        None => {
            let ops: Vec<IndexOp> = Vec::new();
            assert(ops_view(ops@) =~= seq![]);
            ops
        },
        Some(d) => {
            if d.locations.len() >= 2 {
                let rest = IndexedDoc {
                    title: d.title.clone(),
                    hash: d.hash.clone(),
                    locations: locations_without(&d.locations, location),
                    body: d.body.clone(),
                };
                assert(rest@ == without_location(d@, location@));
                let ops = vec![IndexOp::DeleteByLocation(location.clone()), IndexOp::Add(rest)];
                assert(ops_view(ops@) =~= remove_ops(opt_doc_view(*existing), location@));
                ops
            } else {
                let ops = vec![IndexOp::DeleteByLocation(location.clone())];
                assert(ops_view(ops@) =~= remove_ops(opt_doc_view(*existing), location@));
                ops
            }
        },
    }
}

} // verus!
