//! Joining pieces of text with spaces.
use vstd::prelude::*;

verus! {

/// Every item, each followed by one space.
pub open spec fn spaced(items: Seq<Seq<char>>) -> Seq<char>
    decreases items.len(),
{
    if items.len() == 0 {
        Seq::empty()
    } else {
        spaced(items.drop_last()) + items.last() + seq![' ']
    }
}

/// The items with one space between each two.
pub open spec fn separated(items: Seq<Seq<char>>) -> Seq<char>
    decreases items.len(),
{
    if items.len() == 0 {
        Seq::empty()
    } else if items.len() == 1 {
        items[0]
    } else {
        separated(items.drop_last()) + seq![' '] + items.last()
    }
}

/// Every item of `items`, each followed by one space.
pub fn join_spaced(items: &Vec<String>) -> (r: String)
    ensures
        r@ == spaced(items.deep_view()),
{
    let mut acc = String::new();
    let mut i: usize = 0;
    while i < items.len()
        invariant
            i <= items.len(),
            acc@ == spaced(items.deep_view().take(i as int)),
        decreases items.len() - i,
    {
        proof {
            reveal_strlit(" ");
            assert(items.deep_view().take(i + 1).drop_last() =~= items.deep_view().take(i as int));
        }
        acc.append(items[i].as_str());
        acc.append(" ");
        i = i + 1;
    }
    assert(items.deep_view().take(items.len() as int) =~= items.deep_view());
    acc
}

/// The items of `items` with one space between each two.
pub fn join_separated(items: &Vec<String>) -> (r: String)
    ensures
        r@ == separated(items.deep_view()),
{
    let mut acc = String::new();
    let mut i: usize = 0;
    while i < items.len()
        invariant
            i <= items.len(),
            acc@ == separated(items.deep_view().take(i as int)),
        decreases items.len() - i,
    {
        proof {
            reveal_strlit(" ");
            assert(items.deep_view().take(i + 1).drop_last() =~= items.deep_view().take(i as int));
        }
        if i > 0 {
            acc.append(" ");
        } else {
            assert(acc@ =~= Seq::<char>::empty());
        }
        acc.append(items[i].as_str());
        assert(acc@ =~= separated(items.deep_view().take(i + 1)));
        i = i + 1;
    }
    assert(items.deep_view().take(items.len() as int) =~= items.deep_view());
    acc
}

} // verus!
