//! The bijection between canonical absolute paths and the encoded form of the
//! hierarchical location facet: the facet drops the root `/` and separates its
//! segments with the NUL character.
use vstd::prelude::*;

verus! {

pub open spec fn path_char_to_facet(c: char) -> char {
    if c == '/' {
        '\0'
    } else {
        c
    }
}

pub open spec fn facet_char_to_path(c: char) -> char {
    if c == '\0' {
        '/'
    } else {
        c
    }
}

/// The encoded facet of a path: without its leading `/`, each `/` a NUL.
pub open spec fn facet_of(path: Seq<char>) -> Seq<char> {
    let rel = if path.len() > 0 && path[0] == '/' {
        path.drop_first()
    } else {
        path
    };
    rel.map_values(|c: char| path_char_to_facet(c))
}

/// The absolute path of an encoded facet: a leading `/`, each NUL a `/`.
pub open spec fn path_of(facet: Seq<char>) -> Seq<char> {
    seq!['/'] + facet.map_values(|c: char| facet_char_to_path(c))
}

/// A canonical absolute path: rooted, and without NUL characters.
pub open spec fn is_absolute_path(path: Seq<char>) -> bool {
    path.len() > 0 && path[0] == '/' && !path.contains('\0')
}

/// Appends `c` to `s`.
fn push_char(s: &mut String, src: &str, i: usize, c: char)
    requires
        i < src@.len() <= usize::MAX,
        src@[i as int] == c,
    ensures
        final(s)@ == old(s)@.push(c),
{
    let one = src.substring_char(i, i + 1);
    assert(one@ =~= seq![c]);
    s.append(one);
}

/// Encodes a canonical path as a location facet.
pub fn to_facet_value(path: &str) -> (r: String)
    ensures
        r@ == facet_of(path@),
{
    let n = path.unicode_len();
    let start: usize = if n > 0 && path.get_char(0) == '/' {
        1
    } else {
        0
    };
    let ghost rel = if path@.len() > 0 && path@[0] == '/' {
        path@.drop_first()
    } else {
        path@
    };
    assert(rel =~= path@.subrange(start as int, n as int));
    let mut r = String::new();
    let mut i: usize = start;
    while i < n
        invariant
            start <= i <= n,
            n == path@.len(),
            rel == path@.subrange(start as int, n as int),
            r@ == rel.take(i - start).map_values(|c: char| path_char_to_facet(c)),
        decreases n - i,
    {
        let c = path.get_char(i);
        if c == '/' {
            proof {
                reveal_strlit("\0");
            }
            r.append("\0");
        } else {
            push_char(&mut r, path, i, c);
        }
        assert(rel.take(i + 1 - start) =~= rel.take(i - start).push(c));
        assert(r@ =~= rel.take(i + 1 - start).map_values(|c: char| path_char_to_facet(c)));
        i = i + 1;
    }
    assert(rel.take(n - start) =~= rel);
    r
}

/// Decodes a location facet back into its absolute path.
pub fn from_facet_value(facet: &str) -> (r: String)
    ensures
        r@ == path_of(facet@),
{
    proof {
        reveal_strlit("/");
    }
    let n = facet.unicode_len();
    let mut r = String::from_str("/");
    let mut i: usize = 0;
    while i < n
        invariant
            i <= n,
            n == facet@.len(),
            r@ == seq!['/'] + facet@.take(i as int).map_values(|c: char| facet_char_to_path(c)),
        decreases n - i,
    {
        let c = facet.get_char(i);
        if c == '\0' {
            proof {
                reveal_strlit("/");
            }
            r.append("/");
        } else {
            push_char(&mut r, facet, i, c);
        }
        assert(facet@.take(i + 1) =~= facet@.take(i as int).push(c));
        assert(r@ =~= seq!['/'] + facet@.take(i + 1).map_values(|c: char| facet_char_to_path(c)));
        i = i + 1;
    }
    assert(facet@.take(n as int) =~= facet@);
    r
}

/// Decoding the facet of a canonical absolute path gives the path back.
pub proof fn lemma_facet_round_trip(path: Seq<char>)
    requires
        is_absolute_path(path),
    ensures
        path_of(facet_of(path)) == path,
{
    let f = facet_of(path);
    assert forall|i: int| 0 <= i < path.len() implies #[trigger] path_of(f)[i] == path[i] by {
        if i > 0 {
            assert(path.contains(path[i]));
        }
    }
    assert(path_of(f) =~= path);
}

} // verus!
