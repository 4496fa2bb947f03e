//! Validation of the daemon's command-line settings.
use vstd::prelude::*;

verus! {

/// How much the daemon logs.
#[derive(PartialEq, Eq, Structural, Clone, Copy, Debug)]
pub enum Verbosity {
    Error,
    Warn,
    Info,
    Debug,
    Trace,
}

/// The daemon's settings.
pub struct AppConfig {
    pub scan_directories: Vec<String>,
    pub verbosity: Verbosity,
    pub port: u16,
}

/// The level for a flag given `count` times: none is errors only, four or
/// more is everything.
pub fn verbosity_level(count: u64) -> (r: Verbosity)
    ensures
        r == (if count == 1 {
            Verbosity::Warn
        } else if count == 2 {
            Verbosity::Info
        } else if count == 3 {
            Verbosity::Debug
        } else if count == 4 {
            Verbosity::Trace
        } else {
            Verbosity::Error
        }),
{
    match count {
        1 => Verbosity::Warn,
        2 => Verbosity::Info,
        3 => Verbosity::Debug,
        4 => Verbosity::Trace,
        _ => Verbosity::Error,
    }
}

pub open spec fn is_digit(c: char) -> bool {
    '0' <= c && c <= '9'
}

pub open spec fn digits_value(s: Seq<char>) -> nat
    decreases s.len(),
{
    if s.len() == 0 {
        0
    } else {
        (digits_value(s.drop_last()) * 10 + (s.last() as int - '0' as int)) as nat
    }
}

/// A literal without its optional leading `+`.
pub open spec fn unsigned_part(s: Seq<char>) -> Seq<char> {
    if s.len() > 0 && s[0] == '+' {
        s.drop_first()
    } else {
        s
    }
}

/// The value of a decimal `u16` literal: an optional `+`, then one or more
/// digits, at most 65535.
pub open spec fn parse_u16(s: Seq<char>) -> Option<nat> {
    let d = unsigned_part(s);
    if d.len() > 0 && (forall|i: int| 0 <= i < d.len() ==> is_digit(#[trigger] d[i]))
        && digits_value(d) <= 65535 {
        Some(digits_value(d))
    } else {
        None
    }
}

proof fn lemma_digits_value_monotone(s: Seq<char>, i: int)
    requires
        0 <= i <= s.len(),
        forall|j: int| 0 <= j < s.len() ==> is_digit(#[trigger] s[j]),
    ensures
        digits_value(s.take(i)) <= digits_value(s),
    decreases s.len() - i,
{
    if i < s.len() {
        lemma_digits_value_monotone(s, i + 1);
        assert(s.take(i + 1).drop_last() =~= s.take(i));
    } else {
        assert(s.take(i) =~= s);
    }
}

/// Parses a decimal `u16`.
pub fn parse_port(s: &str) -> (r: Option<u16>)
    ensures
        match r {
            Some(v) => parse_u16(s@) == Some(v as nat),
            None => parse_u16(s@) is None,
        },
{
    let n = s.unicode_len();
    let start: usize = if n > 0 && s.get_char(0) == '+' {
        1
    } else {
        0
    };
    let ghost d = unsigned_part(s@);
    assert(d =~= s@.subrange(start as int, n as int));
    if start == n {
        return None;
    }
    let mut value: u32 = 0;
    let mut i: usize = start;
    while i < n
        invariant
            start <= i <= n,
            n == s@.len(),
            d == s@.subrange(start as int, n as int),
            d == unsigned_part(s@),
            forall|j: int| 0 <= j < i - start ==> is_digit(#[trigger] d[j]),
            value as nat == digits_value(d.take(i - start)),
            value <= 65535,
        decreases n - i,
    {
        let c = s.get_char(i);
        assert(d[i - start] == c);
        if !('0' <= c && c <= '9') {
            assert(!is_digit(d[i - start]));
            assert(0 <= i - start < d.len());
            return None;
        }
        assert(d.take(i + 1 - start).drop_last() =~= d.take(i - start));
        let next = value * 10 + (c as u32 - '0' as u32);
        assert(digits_value(d.take(i + 1 - start)) == next as nat);
        if next > 65535 {
            proof {
                assert(forall|j: int| 0 <= j < i + 1 - start ==> is_digit(#[trigger] d[j]));
                if forall|j: int| 0 <= j < d.len() ==> is_digit(#[trigger] d[j]) {
                    lemma_digits_value_monotone(d, i + 1 - start);
                }
            }
            return None;
        }
        value = next;
        i = i + 1;
    }
    assert(d.take(n - start) =~= d);
    Some(value as u16)
}

/// Accepts a port between 1 and 65535.
pub fn port_validator(v: &str) -> (r: Result<(), String>)
    ensures
        r is Ok <==> (parse_u16(v@) matches Some(p) && p >= 1),
{
    match parse_port(v) {
        Some(p) => {
            if p >= 1 {
                return Ok(());
            }
        },
        None => {},
    }
    Err(String::from_str("The port value needs to be a number >= 1 and <= 65535"))
}

/// The pieces of `s` between commas.
pub open spec fn split_commas(s: Seq<char>) -> Seq<Seq<char>>
    decreases s.len(),
{
    if s.len() == 0 {
        seq![Seq::empty()]
    } else {
        let parts = split_commas(s.drop_last());
        if s.last() == ',' {
            parts.push(Seq::empty())
        } else {
            parts.update(parts.len() - 1, parts.last().push(s.last()))
        }
    }
}

proof fn lemma_split_commas_nonempty(s: Seq<char>)
    ensures
        split_commas(s).len() > 0,
    decreases s.len(),
{
    if s.len() > 0 {
        lemma_split_commas_nonempty(s.drop_last());
    }
}

/// Splits a comma-separated list of paths.
pub fn split_scan_directories(v: &str) -> (r: Vec<String>)
    ensures
        r.deep_view() == split_commas(v@),
{
    let n = v.unicode_len();
    let mut parts: Vec<String> = Vec::new();
    let mut start: usize = 0;
    let mut i: usize = 0;
    assert(v@.take(0) =~= Seq::<char>::empty());
    assert(parts.deep_view().push(v@.subrange(0, 0)) =~= seq![Seq::<char>::empty()]);
    while i < n
        invariant
            start <= i <= n,
            n == v@.len(),
            split_commas(v@.take(i as int)) == parts.deep_view().push(
                v@.subrange(start as int, i as int),
            ),
        decreases n - i,
    {
        assert(v@.take(i + 1).drop_last() =~= v@.take(i as int));
        if v.get_char(i) == ',' {
            let ghost before = parts.deep_view();
            parts.push(String::from_str(v.substring_char(start, i)));
            assert(parts.deep_view() =~= before.push(v@.subrange(start as int, i as int)));
            start = i + 1;
            assert(v@.subrange(start as int, i + 1) =~= Seq::<char>::empty());
        } else {
            assert(v@.subrange(start as int, i + 1) =~= v@.subrange(start as int, i as int).push(
                v@[i as int],
            ));
        }
        assert(split_commas(v@.take(i + 1)) =~= parts.deep_view().push(
            v@.subrange(start as int, i + 1),
        ));
        i = i + 1;
    }
    let ghost before = parts.deep_view();
    parts.push(String::from_str(v.substring_char(start, n)));
    assert(v@.take(n as int) =~= v@);
    assert(parts.deep_view() =~= before.push(v@.subrange(start as int, n as int)));
    parts
}

/// `"p1", "p2", ...`: each path in double quotes, separated by a comma and a
/// space.
pub open spec fn quoted_list(paths: Seq<Seq<char>>) -> Seq<char>
    decreases paths.len(),
{
    if paths.len() == 0 {
        Seq::empty()
    } else if paths.len() == 1 {
        seq!['"'] + paths[0] + seq!['"']
    } else {
        quoted_list(paths.drop_last()) + seq![',', ' ', '"'] + paths.last() + seq!['"']
    }
}

/// The paths of `paths` whose flag in `exists` is false.
pub open spec fn missing_paths(paths: Seq<Seq<char>>, exists: Seq<bool>) -> Seq<Seq<char>>
    decreases paths.len(),
{
    if paths.len() == 0 || exists.len() == 0 {
        Seq::empty()
    } else {
        missing_paths(paths.drop_last(), exists.drop_last()) + if exists.last() {
            Seq::empty()
        } else {
            seq![paths.last()]
        }
    }
}

pub open spec fn unresolved_message(missing: Seq<Seq<char>>) -> Seq<char> {
    "The following paths could not be resolved: ["@ + quoted_list(missing) + "]"@
}

/// Accepts a comma-separated list of paths when every one exists;
/// `exists[i]` tells whether the `i`-th path of the list exists.
pub fn path_validator(v: &str, exists: &Vec<bool>) -> (r: Result<(), String>)
    requires
        exists@.len() == split_commas(v@).len(),
    ensures
        r is Ok <==> (forall|i: int| 0 <= i < exists@.len() ==> #[trigger] exists@[i]),
        r matches Err(m) ==> m@ == unresolved_message(missing_paths(split_commas(v@), exists@)),
{
    let paths = split_scan_directories(v);
    let mut listed = String::new();
    let mut count: usize = 0;
    let mut i: usize = 0;
    while i < paths.len()
        invariant
            i <= paths.len(),
            paths.deep_view() == split_commas(v@),
            exists@.len() == paths.len(),
            missing_paths(paths.deep_view().take(i as int), exists@.take(i as int)).len()
                == count,
            listed@ == quoted_list(
                missing_paths(paths.deep_view().take(i as int), exists@.take(i as int)),
            ),
            count == 0 <==> (forall|j: int| 0 <= j < i ==> #[trigger] exists@[j]),
            count <= i,
        decreases paths.len() - i,
    {
        proof {
            reveal_strlit("\"");
            reveal_strlit(", \"");
        }
        assert(paths.deep_view().take(i + 1).drop_last() =~= paths.deep_view().take(i as int));
        assert(exists@.take(i + 1).drop_last() =~= exists@.take(i as int));
        let ghost ms = missing_paths(paths.deep_view().take(i as int), exists@.take(i as int));
        if !exists[i] {
            let ghost next = ms.push(paths.deep_view()[i as int]);
            assert(missing_paths(paths.deep_view().take(i + 1), exists@.take(i + 1)) =~= next);
            assert(next.drop_last() =~= ms);
            if count > 0 {
                listed.append(", \"");
            } else {
                listed.append("\"");
            }
            listed.append(paths[i].as_str());
            listed.append("\"");
            assert(listed@ =~= quoted_list(next));
            count = count + 1;
        } else {
            assert(missing_paths(paths.deep_view().take(i + 1), exists@.take(i + 1)) =~= ms);
        }
        i = i + 1;
    }
    assert(paths.deep_view().take(paths.len() as int) =~= paths.deep_view());
    assert(exists@.take(paths.len() as int) =~= exists@);
    if count == 0 {
        Ok(())
    } else {
        let mut m = String::from_str("The following paths could not be resolved: [");
        m.append(listed.as_str());
        m.append("]");
        Err(m)
    }
}

} // verus!
