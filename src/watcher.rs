//! The decisions of the initial walk and of the file watcher: which entries
//! are indexed, and which maintainer operations each filesystem event causes.
use vstd::prelude::*;

use crate::consistency::{
    lemma_observe_keeps_invariants, lemma_remove_keeps_invariants, observe_model, remove_model,
};
use crate::document::{
    apply_op, apply_ops, has_location, index_wf, lookup_location, IndexModel, OpView,
};
use crate::maintainer::{other_than, remove_ops, without_location};
use crate::paths::{
    contains_str, extension, extension_of, file_name, file_name_of, hidden_name, is_hidden,
};

verus! {

/// A debounced filesystem event.
pub enum WatchEvent {
    Create(String),
    Write(String),
    Remove(String),
    Rename(String, String),
    Other,
}

/// A maintainer operation on one path.
pub enum WatchAction {
    Observe(String),
    Remove(String),
}

pub ghost enum EventView {
    Create(Seq<char>),
    Write(Seq<char>),
    Remove(Seq<char>),
    Rename(Seq<char>, Seq<char>),
    Other,
}

pub ghost enum ActionView {
    Observe(Seq<char>),
    Remove(Seq<char>),
}

impl View for WatchEvent {
    type V = EventView;

    open spec fn view(&self) -> EventView {
        match self {
            WatchEvent::Create(p) => EventView::Create(p@),
            WatchEvent::Write(p) => EventView::Write(p@),
            WatchEvent::Remove(p) => EventView::Remove(p@),
            WatchEvent::Rename(a, b) => EventView::Rename(a@, b@),
            WatchEvent::Other => EventView::Other,
        }
    }
}

impl View for WatchAction {
    type V = ActionView;

    open spec fn view(&self) -> ActionView {
        match self {
            WatchAction::Observe(p) => ActionView::Observe(p@),
            WatchAction::Remove(p) => ActionView::Remove(p@),
        }
    }
}

/// The operations that an event causes, in order: a write is a removal
/// followed by an observation, a rename a removal of the source followed by
/// an observation of the destination.
pub open spec fn event_actions(e: EventView) -> Seq<ActionView> {
    match e {
        EventView::Create(p) => seq![ActionView::Observe(p)],
        EventView::Write(p) => seq![ActionView::Remove(p), ActionView::Observe(p)],
        EventView::Remove(p) => seq![ActionView::Remove(p)],
        EventView::Rename(a, b) => seq![ActionView::Remove(a), ActionView::Observe(b)],
        EventView::Other => seq![],
    }
}

/// Translates a filesystem event into maintainer operations.
pub fn actions_for_event(event: &WatchEvent) -> (r: Vec<WatchAction>)
    ensures
        r@.map_values(|a: WatchAction| a@) == event_actions(event@),
{
    let r = match event {
        WatchEvent::Create(p) => vec![WatchAction::Observe(p.clone())],
        WatchEvent::Write(p) => vec![WatchAction::Remove(p.clone()), WatchAction::Observe(p.clone())],
        WatchEvent::Remove(p) => vec![WatchAction::Remove(p.clone())],
        WatchEvent::Rename(a, b) => vec![WatchAction::Remove(a.clone()), WatchAction::Observe(b.clone())],
        WatchEvent::Other => Vec::new(),
    };
    assert(r@.map_values(|a: WatchAction| a@) =~= event_actions(event@));
    r
}

/// Whether the walker indexes the entry at `path`: a file, not hidden, whose
/// extension is one of `supported`.
pub open spec fn indexable(path: Seq<char>, is_dir: bool, supported: Seq<Seq<char>>) -> bool {
    &&& !is_dir
    &&& !hidden_name(file_name_of(path))
    &&& match extension_of(file_name_of(path)) {
        Some(e) => supported.contains(e),
        None => false,
    }
}

/// Decides whether the walker feeds the entry at `path` to the maintainer.
pub fn should_index(path: &str, is_dir: bool, supported: &Vec<String>) -> (r: bool)
    ensures
        r == indexable(path@, is_dir, supported.deep_view()),
{
    if is_dir {
        return false;
    }
    let name = file_name(path);
    if is_hidden(name) {
        return false;
    }
    match extension(name) {
        Some(e) => contains_str(supported, e),
        None => false,
    }
}

/// The walker only feeds the maintainer files whose extension is supported.
pub proof fn lemma_walk_filters_extensions(path: Seq<char>, is_dir: bool, supported: Seq<Seq<char>>)
    requires
        indexable(path, is_dir, supported),
    ensures
        extension_of(file_name_of(path)) is Some,
        supported.contains(extension_of(file_name_of(path))->Some_0),
{
}

/// The index after one maintainer operation; `digest` and `fields` describe the
/// content that an observation reads.
pub open spec fn run_action(
    s: IndexModel,
    a: ActionView,
    digest: Seq<char>,
    fields: Seq<(Seq<char>, Seq<char>)>,
) -> IndexModel {
    match a {
        ActionView::Observe(p) => observe_model(s, p, digest, fields),
        ActionView::Remove(p) => remove_model(s, p),
    }
}

pub open spec fn run_actions(
    s: IndexModel,
    acts: Seq<ActionView>,
    digest: Seq<char>,
    fields: Seq<(Seq<char>, Seq<char>)>,
) -> IndexModel
    decreases acts.len(),
{
    if acts.len() == 0 {
        s
    } else {
        run_actions(run_action(s, acts[0], digest, fields), acts.drop_first(), digest, fields)
    }
}

/// A write to `p` leaves the index as removing `p` and then observing its new
/// content does.
pub proof fn lemma_modify_is_remove_then_observe(
    s: IndexModel,
    p: Seq<char>,
    digest: Seq<char>,
    fields: Seq<(Seq<char>, Seq<char>)>,
)
    ensures
        run_actions(s, event_actions(EventView::Write(p)), digest, fields) == observe_model(
            remove_model(s, p),
            p,
            digest,
            fields,
        ),
{
    let acts = event_actions(EventView::Write(p));
    assert(acts.drop_first() =~= seq![ActionView::Observe(p)]);
    assert(acts.drop_first().drop_first() =~= Seq::<ActionView>::empty());
    let s1 = remove_model(s, p);
    assert(run_actions(s, acts, digest, fields) == run_actions(s1, acts.drop_first(), digest, fields));
    assert(run_actions(s1, acts.drop_first(), digest, fields) == run_actions(
        observe_model(s1, p, digest, fields),
        Seq::<ActionView>::empty(),
        digest,
        fields,
    ));
}

/// After a removal of `p`, no document lists `p`.
pub proof fn lemma_removed_location_gone(s: IndexModel, p: Seq<char>)
    requires
        index_wf(s),
    ensures
        !has_location(remove_model(s, p), p),
{
    let s2 = remove_model(s, p);
    if has_location(s, p) {
        let k = choose|k: nat| #[trigger] s.docs.contains_key(k) && s.docs[k].locations.contains(p);
        let d = lookup_location(s, p)->Some_0;
        let del = OpView::DeleteByLocation(p);
        let t = apply_op(s, del);
        if d.locations.len() >= 2 {
            let nd = without_location(d, p);
            let ops = seq![del, OpView::Add(nd)];
            assert(ops.drop_first() =~= seq![OpView::Add(nd)]);
            assert(seq![OpView::Add(nd)].drop_first() =~= Seq::<OpView>::empty());
            assert(apply_ops(s, ops) == apply_ops(t, seq![OpView::Add(nd)]));
            assert(apply_ops(t, seq![OpView::Add(nd)]) == apply_ops(apply_op(t, OpView::Add(nd)), Seq::<OpView>::empty()));
            if has_location(s2, p) {
                let j = choose|j: nat| #[trigger] s2.docs.contains_key(j) && s2.docs[j].locations.contains(p);
                if j == t.next {
                    d.locations.lemma_filter_contains_rev(other_than(p), p);
                }
            }
        } else {
            let ops = seq![del];
            assert(ops.drop_first() =~= Seq::<OpView>::empty());
            assert(apply_ops(s, ops) == apply_ops(t, Seq::<OpView>::empty()));
        }
    } else {
        assert(remove_ops(lookup_location(s, p), p) =~= Seq::<OpView>::empty());
    }
}

/// A write keeps one document per hash and one document per location.
pub proof fn lemma_modify_keeps_invariants(
    s: IndexModel,
    p: Seq<char>,
    digest: Seq<char>,
    fields: Seq<(Seq<char>, Seq<char>)>,
)
    requires
        index_wf(s),
    ensures
        index_wf(run_actions(s, event_actions(EventView::Write(p)), digest, fields)),
{
    lemma_modify_is_remove_then_observe(s, p, digest, fields);
    lemma_remove_keeps_invariants(s, p);
    lemma_removed_location_gone(s, p);
    lemma_observe_keeps_invariants(remove_model(s, p), p, digest, fields);
}

} // verus!
