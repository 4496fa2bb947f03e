//! The index invariants hold across every observation and removal.
use vstd::prelude::*;

use crate::document::{
    apply_op, apply_ops, empty_index, has_hash, has_location, hash_unique, index_wf, lookup_hash,
    lookup_location, DocView, IndexModel, OpView,
};
use crate::maintainer::{
    finish_ops, new_document, observe_plan, other_than, remove_ops, with_location,
    without_location, ObservePlanView,
};

verus! {

/// The index after observing the file at `location` whose content has digest
/// `digest`; `fields` is what the extractors return for it.
pub open spec fn observe_model(
    s: IndexModel,
    location: Seq<char>,
    digest: Seq<char>,
    fields: Seq<(Seq<char>, Seq<char>)>,
) -> IndexModel {
    match observe_plan(lookup_hash(s, digest), location, digest) {
        ObservePlanView::Stage(ops) => apply_ops(s, ops),
        ObservePlanView::Analyse => apply_ops(s, finish_ops(fields, location, digest)),
    }
}

/// The index after removing `location`.
pub open spec fn remove_model(s: IndexModel, location: Seq<char>) -> IndexModel {
    apply_ops(s, remove_ops(lookup_location(s, location), location))
}

/// `location` is not listed under content other than `digest`.
pub open spec fn not_listed_elsewhere(s: IndexModel, location: Seq<char>, digest: Seq<char>) -> bool {
    match lookup_location(s, location) {
        None => true,
        Some(d) => d.hash == digest,
    }
}

proof fn lemma_apply_two(s: IndexModel, a: OpView, b: OpView)
    ensures
        apply_ops(s, seq![a, b]) == apply_op(apply_op(s, a), b),
{
    let ops = seq![a, b];
    assert(ops.drop_first() =~= seq![b]);
    assert(seq![b].drop_first() =~= Seq::<OpView>::empty());
    let s1 = apply_op(s, a);
    assert(apply_ops(s, ops) == apply_ops(s1, seq![b]));
    assert(apply_ops(s1, seq![b]) == apply_ops(apply_op(s1, b), Seq::<OpView>::empty()));
}

proof fn lemma_apply_one(s: IndexModel, a: OpView)
    ensures
        apply_ops(s, seq![a]) == apply_op(s, a),
{
    assert(seq![a].drop_first() =~= Seq::<OpView>::empty());
    assert(apply_ops(s, seq![a]) == apply_ops(apply_op(s, a), Seq::<OpView>::empty()));
}

proof fn lemma_lookup_hash(s: IndexModel, k: nat)
    requires
        index_wf(s),
        s.docs.contains_key(k),
    ensures
        lookup_hash(s, s.docs[k].hash) == Some(s.docs[k]),
{
    assert(has_hash(s, s.docs[k].hash));
}

proof fn lemma_lookup_location(s: IndexModel, k: nat, l: Seq<char>)
    requires
        index_wf(s),
        s.docs.contains_key(k),
        s.docs[k].locations.contains(l),
    ensures
        lookup_location(s, l) == Some(s.docs[k]),
{
    assert(has_location(s, l));
}

proof fn lemma_delete_wf(s: IndexModel, op: OpView)
    requires
        index_wf(s),
        !(op is Add),
    ensures
        index_wf(apply_op(s, op)),
        apply_op(s, op).next == s.next,
        forall|k: nat| #[trigger]
            apply_op(s, op).docs.contains_key(k) ==> s.docs.contains_key(k) && apply_op(
                s,
                op,
            ).docs[k] == s.docs[k],
{
}

proof fn lemma_add_wf(s: IndexModel, d: DocView)
    requires
        index_wf(s),
        d.locations.len() > 0,
        d.locations.no_duplicates(),
        !has_hash(s, d.hash),
        forall|l: Seq<char>| #[trigger] d.locations.contains(l) ==> !has_location(s, l),
    ensures
        index_wf(apply_op(s, OpView::Add(d))),
{
    let t = apply_op(s, OpView::Add(d));
    assert forall|a: nat, b: nat|
        #[trigger] t.docs.contains_key(a) && #[trigger] t.docs.contains_key(b) && t.docs[a].hash
            == t.docs[b].hash implies a == b by {
        if a != b && (a == s.next || b == s.next) {
            let o = if a == s.next { b } else { a };
            assert(s.docs.contains_key(o) && s.docs[o].hash == d.hash);
        }
    }
    assert forall|a: nat, b: nat, l: Seq<char>|
        #[trigger] t.docs.contains_key(a) && #[trigger] t.docs.contains_key(b)
            && #[trigger] t.docs[a].locations.contains(l) && t.docs[b].locations.contains(
            l,
        ) implies a == b by {
        if a != b && (a == s.next || b == s.next) {
            let o = if a == s.next { b } else { a };
            assert(s.docs.contains_key(o) && s.docs[o].locations.contains(l));
            assert(d.locations.contains(l));
        }
    }
}

proof fn lemma_filter_no_duplicates(v: Seq<Seq<char>>, p: spec_fn(Seq<char>) -> bool)
    requires
        v.no_duplicates(),
    ensures
        v.filter(p).no_duplicates(),
    decreases v.len(),
{
    if v.len() > 0 {
        let init = v.drop_last();
        assert(init.push(v.last()) =~= v);
        assert(init.no_duplicates());
        lemma_filter_no_duplicates(init, p);
        init.lemma_filter_push(v.last(), p);
        if p(v.last()) {
            if init.filter(p).contains(v.last()) {
                init.lemma_filter_contains_rev(p, v.last());
            }
            let f = init.filter(p).push(v.last());
            assert forall|i: int, j: int| 0 <= i < f.len() && 0 <= j < f.len() && i != j implies f[i]
                != f[j] by {
                if i < f.len() - 1 && j < f.len() - 1 {
                } else if i == f.len() - 1 {
                    assert(init.filter(p).contains(f[j]));
                } else {
                    assert(init.filter(p).contains(f[i]));
                }
            }
        }
    }
}

proof fn lemma_filter_keeps_other(v: Seq<Seq<char>>, l: Seq<char>)
    requires
        v.no_duplicates(),
        v.len() >= 2,
    ensures
        v.filter(other_than(l)).len() > 0,
{
    let x = if v[0] != l { v[0] } else { v[1] };
    assert(v.contains(x));
    broadcast use vstd::seq_lib::group_filter_ensures;

    let i = if v[0] != l { 0int } else { 1int };
    assert(v[i] == x);
    assert(other_than(l)(v[i]));
    assert(v.filter(other_than(l)).contains(x));
}

/// Observing a file keeps one document per hash and one document per
/// location, provided its location is not listed under other content.
pub proof fn lemma_observe_keeps_invariants(
    s: IndexModel,
    location: Seq<char>,
    digest: Seq<char>,
    fields: Seq<(Seq<char>, Seq<char>)>,
)
    requires
        index_wf(s),
        not_listed_elsewhere(s, location, digest),
    ensures
        index_wf(observe_model(s, location, digest, fields)),
{
    if has_hash(s, digest) {
        let k = choose|k: nat| #[trigger] s.docs.contains_key(k) && s.docs[k].hash == digest;
        lemma_lookup_hash(s, k);
        let d = s.docs[k];
        if !d.locations.contains(location) {
            let ops = seq![OpView::DeleteByHash(digest), OpView::Add(with_location(d, location))];
            lemma_apply_two(s, ops[0], ops[1]);
            let s1 = apply_op(s, ops[0]);
            lemma_delete_wf(s, ops[0]);
            let nd = with_location(d, location);
            if has_location(s, location) {
                let j = choose|j: nat| #[trigger] s.docs.contains_key(j) && s.docs[j].locations.contains(location);
                lemma_lookup_location(s, j, location);
                lemma_lookup_hash(s, j);
            }
            assert forall|l: Seq<char>| #[trigger] nd.locations.contains(l) implies !has_location(s1, l) by {
                if has_location(s1, l) {
                    let j = choose|j: nat| #[trigger] s1.docs.contains_key(j) && s1.docs[j].locations.contains(l);
                    if l != location {
                        let i = choose|i: int| 0 <= i < nd.locations.len() && nd.locations[i] == l;
                        assert(d.locations[i] == l);
                        assert(d.locations.contains(l));
                    }
                }
            }
            assert(nd.locations.no_duplicates()) by {
                assert forall|i: int, j: int| 0 <= i < nd.locations.len() && 0 <= j < nd.locations.len() && i != j implies nd.locations[i] != nd.locations[j] by {
                    if i == d.locations.len() {
                        assert(d.locations.contains(nd.locations[j]));
                    } else if j == d.locations.len() {
                        assert(d.locations.contains(nd.locations[i]));
                    }
                }
            }
            lemma_add_wf(s1, nd);
        }
    } else {
        if fields.len() > 0 {
            let nd = new_document(fields, location, digest);
            lemma_apply_one(s, OpView::Add(nd));
            if has_location(s, location) {
                let j = choose|j: nat| #[trigger] s.docs.contains_key(j) && s.docs[j].locations.contains(location);
                lemma_lookup_location(s, j, location);
            }
            assert forall|l: Seq<char>| #[trigger] nd.locations.contains(l) implies !has_location(s, l) by {
                assert(l == location);
            }
            lemma_add_wf(s, nd);
        } else {
            assert(finish_ops(fields, location, digest) =~= Seq::<OpView>::empty());
        }
    }
}

/// Removing a location keeps one document per hash and one document per
/// location, and leaves no document without a location.
pub proof fn lemma_remove_keeps_invariants(s: IndexModel, location: Seq<char>)
    requires
        index_wf(s),
    ensures
        index_wf(remove_model(s, location)),
{
    if has_location(s, location) {
        let k = choose|k: nat| #[trigger] s.docs.contains_key(k) && s.docs[k].locations.contains(location);
        lemma_lookup_location(s, k, location);
        let d = s.docs[k];
        let del = OpView::DeleteByLocation(location);
        lemma_delete_wf(s, del);
        let s1 = apply_op(s, del);
        if d.locations.len() >= 2 {
            let nd = without_location(d, location);
            lemma_apply_two(s, del, OpView::Add(nd));
            lemma_filter_no_duplicates(d.locations, other_than(location));
            lemma_filter_keeps_other(d.locations, location);
            assert forall|l: Seq<char>| #[trigger] nd.locations.contains(l) implies !has_location(s1, l) by {
                d.locations.lemma_filter_contains_rev(other_than(location), l);
                if has_location(s1, l) {
                    let j = choose|j: nat| #[trigger] s1.docs.contains_key(j) && s1.docs[j].locations.contains(l);
                    assert(s.docs.contains_key(j));
                }
            }
            if has_hash(s1, nd.hash) {
                let j = choose|j: nat| #[trigger] s1.docs.contains_key(j) && s1.docs[j].hash == nd.hash;
                assert(s.docs.contains_key(j));
            }
            lemma_add_wf(s1, nd);
        } else {
            lemma_apply_one(s, del);
        }
    } else {
        assert(remove_ops(lookup_location(s, location), location) =~= Seq::<OpView>::empty());
    }
}

/// Exactly one document has hash `h`, and it lists exactly `locations`.
pub open spec fn sole_document(s: IndexModel, h: Seq<char>, locations: Seq<Seq<char>>) -> bool {
    exists|k: nat|
        #![trigger s.docs[k]]
        s.docs.contains_key(k) && s.docs[k].hash == h && s.docs[k].locations == locations && (
        forall|j: nat| #[trigger] s.docs.contains_key(j) && s.docs[j].hash == h ==> j == k)
}

/// Observing two distinct paths with the same content, neither of them indexed
/// before and the content new, yields exactly one document for that content,
/// listing both paths.
pub proof fn lemma_dedup(
    s: IndexModel,
    a: Seq<char>,
    b: Seq<char>,
    digest: Seq<char>,
    fields_a: Seq<(Seq<char>, Seq<char>)>,
    fields_b: Seq<(Seq<char>, Seq<char>)>,
)
    requires
        index_wf(s),
        !has_hash(s, digest),
        !has_location(s, a),
        !has_location(s, b),
        a != b,
        fields_a.len() > 0,
    ensures
        sole_document(
            observe_model(observe_model(s, a, digest, fields_a), b, digest, fields_b),
            digest,
            seq![a, b],
        ),
{
    let nd = new_document(fields_a, a, digest);
    lemma_apply_one(s, OpView::Add(nd));
    let s1 = observe_model(s, a, digest, fields_a);
    assert(s1 == apply_op(s, OpView::Add(nd)));
    lemma_observe_keeps_invariants(s, a, digest, fields_a);
    let k = s.next;
    assert(s1.docs.contains_key(k) && s1.docs[k] == nd);
    lemma_lookup_hash(s1, k);
    assert(!nd.locations.contains(b)) by {
        assert(nd.locations == seq![a]);
    }
    let ops = seq![OpView::DeleteByHash(digest), OpView::Add(with_location(nd, b))];
    lemma_apply_two(s1, ops[0], ops[1]);
    let s2 = observe_model(s1, b, digest, fields_b);
    let t = apply_op(s1, ops[0]);
    assert(s2 == apply_op(t, ops[1]));
    let k2 = s1.next;
    assert(with_location(nd, b).locations =~= seq![a, b]);
    assert(s2.docs.contains_key(k2) && s2.docs[k2].hash == digest);
    assert forall|j: nat| #[trigger] s2.docs.contains_key(j) && s2.docs[j].hash == digest implies j
        == k2 by {
        if j != k2 {
            assert(t.docs.contains_key(j));
        }
    }
}

/// From a document listing exactly `a` and `b`, removing `a` leaves exactly one
/// document for that content, listing `b` alone; removing `b` as well leaves
/// none.
pub proof fn lemma_split_on_removal(s: IndexModel, k: nat, a: Seq<char>, b: Seq<char>)
    requires
        index_wf(s),
        s.docs.contains_key(k),
        s.docs[k].locations == seq![a, b],
    ensures
        sole_document(remove_model(s, a), s.docs[k].hash, seq![b]),
        !has_hash(remove_model(remove_model(s, a), b), s.docs[k].hash),
{
    let d = s.docs[k];
    let h = d.hash;
    assert(d.locations.contains(a)) by {
        assert(d.locations[0] == a);
    }
    lemma_lookup_location(s, k, a);
    assert(a != b) by {
        assert(d.locations[0] == a && d.locations[1] == b);
    }
    let del = OpView::DeleteByLocation(a);
    let nd = without_location(d, a);
    {
        let p = other_than(a);
        Seq::<Seq<char>>::empty().lemma_filter_push(a, p);
        assert(Seq::<Seq<char>>::empty().filter(p) =~= Seq::<Seq<char>>::empty()) by {
            reveal(Seq::filter);
        }
        assert(Seq::<Seq<char>>::empty().push(a) =~= seq![a]);
        seq![a].lemma_filter_push(b, p);
        assert(seq![a].push(b) =~= seq![a, b]);
        assert(Seq::<Seq<char>>::empty().push(b) =~= seq![b]);
    }
    assert(nd.locations == seq![b]);
    lemma_apply_two(s, del, OpView::Add(nd));
    let t = apply_op(s, del);
    let s1 = remove_model(s, a);
    assert(s1 == apply_op(t, OpView::Add(nd)));
    let k1 = s.next;
    assert forall|j: nat| #[trigger] s1.docs.contains_key(j) && s1.docs[j].hash == h implies j
        == k1 by {
        if j != k1 {
            assert(t.docs.contains_key(j) && s.docs.contains_key(j));
        }
    }
    assert(s1.docs.contains_key(k1) && s1.docs[k1].hash == h && s1.docs[k1].locations == seq![b]);
    lemma_remove_keeps_invariants(s, a);
    assert(s1.docs[k1].locations.contains(b)) by {
        assert(s1.docs[k1].locations[0] == b);
    }
    lemma_lookup_location(s1, k1, b);
    lemma_apply_one(s1, OpView::DeleteByLocation(b));
    let s2 = remove_model(s1, b);
    assert(s2 == apply_op(s1, OpView::DeleteByLocation(b)));
    if has_hash(s2, h) {
        let j = choose|j: nat| #[trigger] s2.docs.contains_key(j) && s2.docs[j].hash == h;
        assert(s1.docs.contains_key(j));
    }
}

/// Addresses below `next`, and one document per hash.
pub open spec fn hash_wf(s: IndexModel) -> bool {
    &&& forall|k: nat| #[trigger] s.docs.contains_key(k) ==> k < s.next
    &&& hash_unique(s)
}

proof fn lemma_add_keeps_hashes(s: IndexModel, d: DocView)
    requires
        hash_wf(s),
        !has_hash(s, d.hash),
    ensures
        hash_wf(apply_op(s, OpView::Add(d))),
{
    let t = apply_op(s, OpView::Add(d));
    assert forall|a: nat, b: nat|
        #[trigger] t.docs.contains_key(a) && #[trigger] t.docs.contains_key(b) && t.docs[a].hash
            == t.docs[b].hash implies a == b by {
        if a != b && (a == s.next || b == s.next) {
            let o = if a == s.next { b } else { a };
            assert(s.docs.contains_key(o) && s.docs[o].hash == d.hash);
        }
    }
}

proof fn lemma_observe_keeps_hashes(
    s: IndexModel,
    location: Seq<char>,
    digest: Seq<char>,
    fields: Seq<(Seq<char>, Seq<char>)>,
)
    requires
        hash_wf(s),
    ensures
        hash_wf(observe_model(s, location, digest, fields)),
{
    if has_hash(s, digest) {
        let k = choose|k: nat| #[trigger] s.docs.contains_key(k) && s.docs[k].hash == digest;
        assert(lookup_hash(s, digest) == Some(s.docs[k]));
        let d = s.docs[k];
        if !d.locations.contains(location) {
            let del = OpView::DeleteByHash(digest);
            let nd = with_location(d, location);
            lemma_apply_two(s, del, OpView::Add(nd));
            let t = apply_op(s, del);
            if has_hash(t, nd.hash) {
                let j = choose|j: nat| #[trigger] t.docs.contains_key(j) && t.docs[j].hash == nd.hash;
                assert(s.docs.contains_key(j));
            }
            lemma_add_keeps_hashes(t, nd);
        }
    } else if fields.len() > 0 {
        let nd = new_document(fields, location, digest);
        lemma_apply_one(s, OpView::Add(nd));
        lemma_add_keeps_hashes(s, nd);
    } else {
        assert(finish_ops(fields, location, digest) =~= Seq::<OpView>::empty());
    }
}

proof fn lemma_remove_keeps_hashes(s: IndexModel, location: Seq<char>)
    requires
        hash_wf(s),
    ensures
        hash_wf(remove_model(s, location)),
{
    if has_location(s, location) {
        let k = choose|k: nat| #[trigger] s.docs.contains_key(k) && s.docs[k].locations.contains(location);
        let d = lookup_location(s, location)->Some_0;
        let j0 = choose|j: nat| #[trigger] s.docs.contains_key(j) && s.docs[j].locations.contains(location);
        assert(d == s.docs[j0]);
        let del = OpView::DeleteByLocation(location);
        let t = apply_op(s, del);
        if d.locations.len() >= 2 {
            let nd = without_location(d, location);
            lemma_apply_two(s, del, OpView::Add(nd));
            if has_hash(t, nd.hash) {
                let j = choose|j: nat| #[trigger] t.docs.contains_key(j) && t.docs[j].hash == nd.hash;
                assert(s.docs.contains_key(j) && s.docs[j].hash == s.docs[j0].hash);
            }
            lemma_add_keeps_hashes(t, nd);
        } else {
            lemma_apply_one(s, del);
        }
    } else {
        assert(remove_ops(lookup_location(s, location), location) =~= Seq::<OpView>::empty());
    }
}

/// One operation of the maintainer, as the index sees it.
pub ghost enum Step {
    /// An observation of `location`, with content digest and extractor results.
    Observe(Seq<char>, Seq<char>, Seq<(Seq<char>, Seq<char>)>),
    Remove(Seq<char>),
}

pub open spec fn apply_step(s: IndexModel, step: Step) -> IndexModel {
    match step {
        Step::Observe(location, digest, fields) => observe_model(s, location, digest, fields),
        Step::Remove(location) => remove_model(s, location),
    }
}

/// The index after the steps, in order, each followed by a commit.
pub open spec fn run_steps(s: IndexModel, steps: Seq<Step>) -> IndexModel
    decreases steps.len(),
{
    if steps.len() == 0 {
        s
    } else {
        run_steps(apply_step(s, steps[0]), steps.drop_first())
    }
}

/// Every observation in `steps` is of a location that is not listed under
/// other content at that point.
pub open spec fn locations_respected(s: IndexModel, steps: Seq<Step>) -> bool
    decreases steps.len(),
{
    if steps.len() == 0 {
        true
    } else {
        &&& match steps[0] {
            Step::Observe(location, digest, _) => not_listed_elsewhere(s, location, digest),
            Step::Remove(_) => true,
        }
        &&& locations_respected(apply_step(s, steps[0]), steps.drop_first())
    }
}

/// After any sequence of observations and removals, no two documents share
/// a hash.
pub proof fn lemma_hash_unique_across_steps(s: IndexModel, steps: Seq<Step>)
    requires
        hash_wf(s),
    ensures
        hash_unique(run_steps(s, steps)),
    decreases steps.len(),
{
    if steps.len() > 0 {
        match steps[0] {
            Step::Observe(location, digest, fields) => {
                lemma_observe_keeps_hashes(s, location, digest, fields);
            },
            Step::Remove(location) => {
                lemma_remove_keeps_hashes(s, location);
            },
        }
        lemma_hash_unique_across_steps(apply_step(s, steps[0]), steps.drop_first());
    }
}

/// After any sequence of observations and removals in which no path is
/// observed while listed under other content, no two documents share a hash
/// or a location, and every document has a location.
pub proof fn lemma_invariants_across_steps(s: IndexModel, steps: Seq<Step>)
    requires
        index_wf(s),
        locations_respected(s, steps),
    ensures
        index_wf(run_steps(s, steps)),
    decreases steps.len(),
{
    if steps.len() > 0 {
        match steps[0] {
            Step::Observe(location, digest, fields) => {
                lemma_observe_keeps_invariants(s, location, digest, fields);
            },
            Step::Remove(location) => {
                lemma_remove_keeps_invariants(s, location);
            },
        }
        lemma_invariants_across_steps(apply_step(s, steps[0]), steps.drop_first());
    }
}

/// The empty index meets the invariants.
pub proof fn lemma_empty_index_wf()
    ensures
        index_wf(empty_index()),
        hash_wf(empty_index()),
{
}

} // verus!
