//! The final component of a `/`-separated path.
use vstd::prelude::*;
use crate::text::{chars_of, string_of};

verus! {

/// The pieces of `s` between occurrences of `sep`, empty pieces included,
/// built from left to right (`str::split` on a character).
pub open spec fn split_on(s: Seq<char>, sep: char) -> Seq<Seq<char>>
    decreases s.len(),
{
    if s.len() == 0 {
        seq![Seq::<char>::empty()]
    } else {
        let init = split_on(s.drop_last(), sep);
        if s.last() == sep {
            init.push(Seq::<char>::empty())
        } else {
            init.update(init.len() - 1, init.last().push(s.last()))
        }
    }
}

/// The ranges `[start, end)` picked out of `s`.
pub open spec fn char_ranges(s: Seq<char>, r: Seq<(usize, usize)>) -> Seq<Seq<char>> {
    r.map_values(|p: (usize, usize)| s.subrange(p.0 as int, p.1 as int))
}

/// The ranges of the pieces of `s` between occurrences of `sep`.
pub fn split_ranges(s: &Vec<char>, sep: char) -> (r: Vec<(usize, usize)>)
    ensures
        char_ranges(s@, r@) == split_on(s@, sep),
        forall|k: int| 0 <= k < r@.len() ==> (#[trigger] r@[k]).0 <= r@[k].1 <= s@.len(),
{
    let mut out: Vec<(usize, usize)> = Vec::new();
    let mut start: usize = 0;
    let mut i: usize = 0;
    assert(s@.take(0) =~= Seq::<char>::empty());
    assert(s@.subrange(0, 0) =~= Seq::<char>::empty());
    assert(char_ranges(s@, out@) =~= Seq::<Seq<char>>::empty());
    while i < s.len()
        invariant
            0 <= start <= i <= s@.len(),
            split_on(s@.take(i as int), sep) == char_ranges(s@, out@).push(
                s@.subrange(start as int, i as int),
            ),
            forall|k: int| 0 <= k < out@.len() ==> (#[trigger] out@[k]).0 <= out@[k].1 <= start,
        decreases s.len() - i,
    {
        assert(s@.take(i + 1).drop_last() =~= s@.take(i as int));
        assert(s@.take(i + 1).last() == s@[i as int]);
        let ghost before = char_ranges(s@, out@);
        if s[i] == sep {
            out.push((start, i));
            assert(char_ranges(s@, out@) =~= before.push(s@.subrange(start as int, i as int)));
            assert(s@.subrange(i + 1, i + 1) =~= Seq::<char>::empty());
            start = i + 1;
        } else {
            let ghost cur = s@.subrange(start as int, i as int);
            assert(cur.push(s@[i as int]) =~= s@.subrange(start as int, i + 1));
            assert(before.push(cur).update(before.len() as int, cur.push(s@[i as int])) =~= before.push(
                s@.subrange(start as int, i + 1),
            ));
        }
        i = i + 1;
    }
    let ghost before = char_ranges(s@, out@);
    let ghost old_out = out@;
    out.push((start, i));
    assert(char_ranges(s@, out@) =~= before.push(s@.subrange(start as int, i as int)));
    assert(s@.take(i as int) =~= s@);
    assert forall|k: int| 0 <= k < out@.len() implies (#[trigger] out@[k]).0 <= out@[k].1 <= s@.len() by {
        if k < out@.len() - 1 {
            assert(out@[k] == old_out[k]);
        }
    }
    out
}

/// A path component that names something: not empty (two separators in a
/// row, or one at an end) and not the current directory `.`.
pub open spec fn is_named_component(p: Seq<char>) -> bool {
    p.len() > 0 && p != seq!['.']
}

/// The components of a `/`-separated path that name something, in order.
pub open spec fn path_components(p: Seq<char>) -> Seq<Seq<char>> {
    split_on(p, '/').filter(named_filter())
}

/// `is_named_component` as a predicate to filter with.
pub open spec fn named_filter() -> spec_fn(Seq<char>) -> bool {
    |x: Seq<char>| is_named_component(x)
}

/// The final component of a path, as `Path::file_name` gives it: none when
/// the path has no named component or ends in `..`.
pub open spec fn file_name_of(p: Seq<char>) -> Option<Seq<char>> {
    let cs = path_components(p);
    if cs.len() == 0 || cs.last() == seq!['.', '.'] {
        None
    } else {
        Some(cs.last())
    }
}

/// A sequence none of whose elements satisfies the predicate filters to
/// nothing.
proof fn lemma_filter_none(s: Seq<Seq<char>>)
    requires
        forall|i: int| 0 <= i < s.len() ==> !is_named_component(#[trigger] s[i]),
    ensures
        s.filter(named_filter()).len() == 0,
    decreases s.len(),
{
    reveal_with_fuel(Seq::filter, 1);
    if s.len() > 0 {
        assert(!is_named_component(s[s.len() - 1]));
        lemma_filter_none(s.drop_last());
    }
}

fn is_named_piece(s: &Vec<char>, a: usize, b: usize) -> (r: bool)
    requires
        a <= b <= s@.len(),
    ensures
        r == is_named_component(s@.subrange(a as int, b as int)),
{
    if a == b {
        return false;
    }
    if b - a == 1 && s[a] == '.' {
        assert(s@.subrange(a as int, b as int) =~= seq!['.']);
        return false;
    }
    if b - a == 1 {
        assert(s@.subrange(a as int, b as int)[0] != seq!['.'][0]);
    }
    true
}

/// The final component of `path` (see `file_name_of`).
pub fn file_name(path: &str) -> (r: Option<String>)
    ensures
        match file_name_of(path@) {
            None => r is None,
            Some(n) => r matches Some(s) && s@ == n,
        },
{
    let s = chars_of(path);
    let ranges = split_ranges(&s, '/');
    let ghost pieces = split_on(s@, '/');
    assert(pieces == split_on(path@, '/'));
    let mut k: usize = ranges.len();
    while k > 0
        invariant
            k <= ranges@.len(),
            char_ranges(s@, ranges@) == pieces,
            forall|j: int| 0 <= j < ranges@.len() ==> (#[trigger] ranges@[j]).0 <= ranges@[j].1 <= s@.len(),
            forall|j: int| k <= j < pieces.len() ==> !is_named_component(#[trigger] pieces[j]),
        ensures
            k <= ranges@.len(),
            forall|j: int| k <= j < pieces.len() ==> !is_named_component(#[trigger] pieces[j]),
            k == 0 || is_named_component(pieces[k - 1]),
        decreases k,
    {
        let (a, b) = ranges[k - 1];
        assert(pieces[k - 1] == s@.subrange(a as int, b as int));
        if is_named_piece(&s, a, b) {
            break;
        }
        k = k - 1;
    }
    proof {
        let f = named_filter();
        assert(pieces =~= pieces.take(k as int) + pieces.skip(k as int));
        lemma_filter_none(pieces.skip(k as int));
        Seq::filter_distributes_over_add(pieces.take(k as int), pieces.skip(k as int), f);
        assert(pieces.filter(f) =~= pieces.take(k as int).filter(f));
        if k > 0 {
            reveal_with_fuel(Seq::filter, 1);
            assert(pieces.take(k as int).drop_last() =~= pieces.take(k - 1));
        } else {
            reveal_with_fuel(Seq::filter, 1);
        }
    }
    if k == 0 {
        return None;
    }
    let (a, b) = ranges[k - 1];
    let mut name: Vec<char> = Vec::new();
    let mut i: usize = a;
    while i < b
        invariant
            a <= i <= b <= s@.len(),
            name@ == s@.subrange(a as int, i as int),
        decreases b - i,
    {
        name.push(s[i]);
        assert(name@ =~= s@.subrange(a as int, i + 1));
        i = i + 1;
    }
    assert(path_components(path@).last() == name@);
    if name.len() == 2 && name[0] == '.' && name[1] == '.' {
        assert(name@ =~= seq!['.', '.']);
        return None;
    }
    if name.len() == 2 {
        assert(name@ != seq!['.', '.']) by {
            if name@ == seq!['.', '.'] {
                assert(name@[0] == '.' && name@[1] == '.');
            }
        }
    }
    Some(string_of(&name))
}

/// No piece holds the separator.
pub proof fn lemma_split_on_no_sep(s: Seq<char>, sep: char)
    ensures
        forall|i: int|
            0 <= i < split_on(s, sep).len() ==> !(#[trigger] split_on(s, sep)[i]).contains(sep),
    decreases s.len(),
{
    if s.len() > 0 {
        lemma_split_on_no_sep(s.drop_last(), sep);
        lemma_split_on_nonempty(s.drop_last(), sep);
        let init = split_on(s.drop_last(), sep);
        assert forall|i: int|
            0 <= i < split_on(s, sep).len() implies !(#[trigger] split_on(s, sep)[i]).contains(sep) by {
            if s.last() == sep {
                if i < init.len() {
                    assert(split_on(s, sep)[i] == init[i]);
                } else {
                    assert(split_on(s, sep)[i] =~= Seq::<char>::empty());
                }
            } else if i < init.len() - 1 {
                assert(split_on(s, sep)[i] == init[i]);
            } else {
                let p = init.last().push(s.last());
                assert(split_on(s, sep)[i] == p);
                if p.contains(sep) {
                    let j = choose|j: int| 0 <= j < p.len() && p[j] == sep;
                    if j < p.len() - 1 {
                        assert(init[init.len() - 1][j] == sep);
                        assert(init[init.len() - 1].contains(sep));
                    }
                }
            }
        }
    }
}

/// A split gives at least one piece.
pub proof fn lemma_split_on_nonempty(s: Seq<char>, sep: char)
    ensures
        split_on(s, sep).len() >= 1,
    decreases s.len(),
{
    if s.len() > 0 {
        lemma_split_on_nonempty(s.drop_last(), sep);
    }
}

/// A file name is a single named component: not empty, not `.` or `..`,
/// without a `/`.
pub proof fn lemma_file_name_shape(p: Seq<char>)
    ensures
        file_name_of(p) matches Some(n) ==> {
            &&& n.len() > 0
            &&& n != seq!['.']
            &&& n != seq!['.', '.']
            &&& !n.contains('/')
        },
{
    broadcast use vstd::seq_lib::group_filter_ensures;

    let pieces = split_on(p, '/');
    let cs = path_components(p);
    if cs.len() > 0 {
        let n = cs.last();
        assert(cs.contains(n)) by {
            assert(cs[cs.len() - 1] == n);
        }
        pieces.lemma_filter_contains_rev(named_filter(), n);
        lemma_split_on_no_sep(p, '/');
        let i = choose|i: int| 0 <= i < pieces.len() && pieces[i] == n;
        assert(!pieces[i].contains('/'));
        assert(is_named_component(cs[cs.len() - 1]));
    }
}

} // verus!
