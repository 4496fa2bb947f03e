//! File names and extensions of paths, read as `/`-separated text.
use vstd::prelude::*;

verus! {

/// The last component of a path: what follows its last `/`.
pub open spec fn file_name_of(p: Seq<char>) -> Seq<char>
    decreases p.len(),
{
    if p.len() == 0 || p.last() == '/' {
        Seq::empty()
    } else {
        file_name_of(p.drop_last()).push(p.last())
    }
}

/// What follows the last `.` of `s`, if it has one.
pub open spec fn after_last_dot(s: Seq<char>) -> Option<Seq<char>>
    decreases s.len(),
{
    if s.len() == 0 {
        None
    } else if s.last() == '.' {
        Some(Seq::empty())
    } else {
        match after_last_dot(s.drop_last()) {
            Some(e) => Some(e.push(s.last())),
            None => None,
        }
    }
}

/// The extension of a file name: what follows its last `.`, unless that `.`
/// is the name's first character.
pub open spec fn extension_of(name: Seq<char>) -> Option<Seq<char>> {
    match after_last_dot(name) {
        Some(e) => if e.len() + 1 < name.len() {
            Some(e)
        } else {
            None
        },
        None => None,
    }
}

/// A hidden entry's name begins with `.`.
pub open spec fn hidden_name(name: Seq<char>) -> bool {
    name.len() > 0 && name[0] == '.'
}

/// The file name of `path`.
pub fn file_name(path: &str) -> (r: &str)
    ensures
        r@ == file_name_of(path@),
{
    let n = path.unicode_len();
    let mut start: usize = 0;
    let mut i: usize = 0;
    while i < n
        invariant
            start <= i <= n,
            n == path@.len(),
            file_name_of(path@.take(i as int)) == path@.subrange(start as int, i as int),
        decreases n - i,
    {
        assert(path@.take(i + 1).drop_last() =~= path@.take(i as int));
        if path.get_char(i) == '/' {
            start = i + 1;
        }
        assert(path@.subrange(start as int, i + 1) =~= if path@[i as int] == '/' {
            Seq::empty()
        } else {
            path@.subrange(start as int, i as int).push(path@[i as int])
        });
        i = i + 1;
    }
    assert(path@.take(n as int) =~= path@);
    path.substring_char(start, n)
}

/// The extension of the file name `name`, if it has one.
pub fn extension(name: &str) -> (r: Option<&str>)
    ensures
        match r {
            Some(e) => extension_of(name@) == Some(e@),
            None => extension_of(name@) is None,
        },
{
    let n = name.unicode_len();
    let mut dot: Option<usize> = None;
    let mut i: usize = 0;
    while i < n
        invariant
            i <= n,
            n == name@.len(),
            match dot {
                Some(j) => j < i && after_last_dot(name@.take(i as int)) == Some(
                    name@.subrange(j + 1, i as int),
                ),
                None => after_last_dot(name@.take(i as int)) is None,
            },
        decreases n - i,
    {
        assert(name@.take(i + 1).drop_last() =~= name@.take(i as int));
        if name.get_char(i) == '.' {
            dot = Some(i);
            assert(name@.subrange(i + 1, i + 1) =~= Seq::<char>::empty());
        } else {
            match dot {
                Some(j) => {
                    assert(name@.subrange(j + 1, i + 1) =~= name@.subrange(j + 1, i as int).push(
                        name@[i as int],
                    ));
                },
                None => {},
            }
        }
        i = i + 1;
    }
    assert(name@.take(n as int) =~= name@);
    match dot {
        Some(j) => {
            if j > 0 {
                Some(name.substring_char(j + 1, n))
            } else {
                None
            }
        },
        None => None,
    }
}

/// Whether an entry with this name is hidden.
pub fn is_hidden(name: &str) -> (r: bool)
    ensures
        r == hidden_name(name@),
{
    name.unicode_len() > 0 && name.get_char(0) == '.'
}

/// Whether two strings hold the same characters.
pub fn same_text(a: &str, b: &str) -> (r: bool)
    ensures
        r == (a@ == b@),
{
    let n = a.unicode_len();
    if n != b.unicode_len() {
        return false;
    }
    let mut i: usize = 0;
    while i < n
        invariant
            i <= n,
            n == a@.len() && n == b@.len(),
            forall|j: int| 0 <= j < i ==> a@[j] == b@[j],
        decreases n - i,
    {
        if a.get_char(i) != b.get_char(i) {
            return false;
        }
        i = i + 1;
    }
    assert(a@ =~= b@);
    true
}

/// Whether `e` is one of `items`.
pub fn contains_str(items: &Vec<String>, e: &str) -> (r: bool)
    ensures
        r == items.deep_view().contains(e@),
{
    let mut i: usize = 0;
    while i < items.len()
        invariant
            i <= items.len(),
            forall|j: int| 0 <= j < i ==> items.deep_view()[j] != e@,
        decreases items.len() - i,
    {
        if same_text(items[i].as_str(), e) {
            assert(items.deep_view()[i as int] == e@);
            return true;
        }
        i = i + 1;
    }
    false
}

} // verus!
