//! Documents of the full-text index, the operations staged on it, and the
//! model of the index against which the maintainer is proved.
use vstd::prelude::*;

verus! {

/// The fields that one extractor takes out of a file.
pub struct DocumentSchema {
    pub name: String,
    pub body: String,
}

/// A document of the full-text index: one per distinct content digest.
pub struct IndexedDoc {
    pub title: String,
    pub hash: String,
    /// The encoded facets of every path known to hold this content.
    pub locations: Vec<String>,
    pub body: String,
}

/// The mathematical value of an indexed document.
pub ghost struct DocView {
    pub title: Seq<char>,
    pub hash: Seq<char>,
    pub locations: Seq<Seq<char>>,
    pub body: Seq<char>,
}

impl View for IndexedDoc {
    type V = DocView;

    open spec fn view(&self) -> DocView {
        DocView {
            title: self.title@,
            hash: self.hash@,
            locations: self.locations.deep_view(),
            body: self.body@,
        }
    }
}

/// One staged change to the index.
pub enum IndexOp {
    Add(IndexedDoc),
    DeleteByHash(String),
    DeleteByLocation(String),
}

pub ghost enum OpView {
    Add(DocView),
    DeleteByHash(Seq<char>),
    DeleteByLocation(Seq<char>),
}

impl View for IndexOp {
    type V = OpView;

    open spec fn view(&self) -> OpView {
        match self {
            IndexOp::Add(d) => OpView::Add(d@),
            IndexOp::DeleteByHash(h) => OpView::DeleteByHash(h@),
            IndexOp::DeleteByLocation(l) => OpView::DeleteByLocation(l@),
        }
    }
}

pub open spec fn ops_view(ops: Seq<IndexOp>) -> Seq<OpView> {
    ops.map_values(|o: IndexOp| o@)
}

pub open spec fn opt_doc_view(d: Option<IndexedDoc>) -> Option<DocView> {
    match d {
        Some(x) => Some(x@),
        None => None,
    }
}

/// The index as a map from document address to document; `next` is the address
/// that the next added document receives.
pub ghost struct IndexModel {
    pub docs: Map<nat, DocView>,
    pub next: nat,
}

pub open spec fn empty_index() -> IndexModel {
    IndexModel { docs: Map::empty(), next: 0 }
}

/// The index invariants: one document per hash, one document per location,
/// no document without a location, no location listed twice in a document.
pub open spec fn index_wf(s: IndexModel) -> bool {
    &&& forall|k: nat| #[trigger] s.docs.contains_key(k) ==> k < s.next
    &&& forall|k: nat| #[trigger] s.docs.contains_key(k) ==> s.docs[k].locations.len() > 0
    &&& forall|k: nat| #[trigger] s.docs.contains_key(k) ==> s.docs[k].locations.no_duplicates()
    &&& hash_unique(s)
    &&& location_singular(s)
}

/// No two documents share a hash.
pub open spec fn hash_unique(s: IndexModel) -> bool {
    forall|a: nat, b: nat|
        #[trigger] s.docs.contains_key(a) && #[trigger] s.docs.contains_key(b) && s.docs[a].hash
            == s.docs[b].hash ==> a == b
}

/// No location is listed by two documents.
pub open spec fn location_singular(s: IndexModel) -> bool {
    forall|a: nat, b: nat, l: Seq<char>|
        #[trigger] s.docs.contains_key(a) && #[trigger] s.docs.contains_key(b)
            && #[trigger] s.docs[a].locations.contains(l) && s.docs[b].locations.contains(l) ==> a
            == b
}

pub open spec fn has_hash(s: IndexModel, h: Seq<char>) -> bool {
    exists|k: nat| #[trigger] s.docs.contains_key(k) && s.docs[k].hash == h
}

pub open spec fn has_location(s: IndexModel, l: Seq<char>) -> bool {
    exists|k: nat| #[trigger] s.docs.contains_key(k) && s.docs[k].locations.contains(l)
}

/// The document that a lookup by hash returns.
pub open spec fn lookup_hash(s: IndexModel, h: Seq<char>) -> Option<DocView> {
    if has_hash(s, h) {
        Some(s.docs[choose|k: nat| #[trigger] s.docs.contains_key(k) && s.docs[k].hash == h])
    } else {
        None
    }
}

/// The document that a lookup by location returns.
pub open spec fn lookup_location(s: IndexModel, l: Seq<char>) -> Option<DocView> {
    if has_location(s, l) {
        Some(
            s.docs[choose|k: nat|
                #[trigger] s.docs.contains_key(k) && s.docs[k].locations.contains(l)],
        )
    } else {
        None
    }
}

pub open spec fn apply_op(s: IndexModel, op: OpView) -> IndexModel {
    match op {
        OpView::Add(d) => IndexModel { docs: s.docs.insert(s.next, d), next: s.next + 1 },
        OpView::DeleteByHash(h) => IndexModel {
            docs: Map::new(
                |k: nat| s.docs.contains_key(k) && s.docs[k].hash != h,
                |k: nat| s.docs[k],
            ),
            next: s.next,
        },
        OpView::DeleteByLocation(l) => IndexModel {
            docs: Map::new(
                |k: nat| s.docs.contains_key(k) && !s.docs[k].locations.contains(l),
                |k: nat| s.docs[k],
            ),
            next: s.next,
        },
    }
}

/// The index after the staged operations, applied in order, are committed.
pub open spec fn apply_ops(s: IndexModel, ops: Seq<OpView>) -> IndexModel
    decreases ops.len(),
{
    if ops.len() == 0 {
        s
    } else {
        apply_ops(apply_op(s, ops[0]), ops.drop_first())
    }
}

/// The index holds several documents where at most one may be.
#[derive(PartialEq, Eq, Structural, Clone, Copy, Debug)]
pub struct InvariantViolation {
    /// How many documents matched.
    pub count: usize,
}

/// The one document that a lookup by hash or by location found, given the
/// first hits and the number of matches: none for no match, the first hit for
/// one, and a violation of the index invariants for more.
pub fn unique_hit<T>(hits: Vec<T>, count: usize) -> (r: Result<Option<T>, InvariantViolation>)
    requires
        count >= 1 ==> hits@.len() >= 1,
    ensures
        count == 0 ==> r == Ok::<Option<T>, InvariantViolation>(None),
        count == 1 ==> r == Ok::<Option<T>, InvariantViolation>(Some(hits@[0])),
        count > 1 ==> r == Err::<Option<T>, InvariantViolation>(InvariantViolation { count }),
{
    if count == 0 {
        Ok(None)
    } else if count == 1 {
        let mut hits = hits;
        hits.truncate(1);
        Ok(hits.pop())
    } else {
        Err(InvariantViolation { count })
    }
}

} // verus!
