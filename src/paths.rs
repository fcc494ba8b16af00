//! Paths as strings, with the Unix meaning of joining and of absoluteness.

use vstd::prelude::*;

verus! {

/// A path is absolute when it starts at the root.
pub open spec fn spec_is_absolute(p: Seq<char>) -> bool {
    p.len() > 0 && p[0] == '/'
}

/// A separator is needed between `base` and a relative path unless `base`
/// is empty or already ends with one.
pub open spec fn needs_separator(base: Seq<char>) -> bool {
    base.len() > 0 && base.last() != '/'
}

/// `base` joined with `rel`: an absolute `rel` replaces `base`; otherwise
/// `rel` is appended after a separator where one is needed.
pub open spec fn spec_join(base: Seq<char>, rel: Seq<char>) -> Seq<char> {
    if spec_is_absolute(rel) {
        rel
    } else if needs_separator(base) {
        base + seq!['/'] + rel
    } else {
        base + rel
    }
}

/// Whether the path `p` is absolute.
pub fn is_absolute(p: &str) -> (r: bool)
    ensures
        r == spec_is_absolute(p@),
{
    p.unicode_len() > 0 && p.get_char(0) == '/'
}

/// Whether two strings hold the same characters.
pub fn same_text(a: &str, b: &str) -> (r: bool)
    ensures
        r == (a@ == b@),
{
    let n = a.unicode_len();
    if n != b.unicode_len() {
        return false;
    }
    let mut i: usize = 0;
    while i < n
        invariant
            n == a@.len(),
            n == b@.len(),
            i <= n,
            forall|j: int| 0 <= j < i ==> a@[j] == b@[j],
        decreases n - i,
    {
        if a.get_char(i) != b.get_char(i) {
            return false;
        }
        i = i + 1;
    }
    assert(a@ =~= b@);
    true
}

/// Joins `rel` onto `base`.
pub fn join_path(base: &str, rel: &str) -> (r: String)
    ensures
        r@ == spec_join(base@, rel@),
{
    if is_absolute(rel) {
        return String::from_str(rel);
    }
    let n = base.unicode_len();
    let mut r = String::from_str(base);
    if n > 0 && base.get_char(n - 1) != '/' {
        r.append("/");
        proof {
            reveal_strlit("/");
        }
    }
    r.append(rel);
    proof {
        if needs_separator(base@) {
            assert(r@ =~= base@ + seq!['/'] + rel@);
        } else {
            assert(r@ =~= base@ + rel@);
        }
    }
    r
}

/// Joining is associative: joining `c` onto `a` joined with `b` is joining
/// `b` joined with `c` onto `a`.
pub proof fn lemma_join_assoc(a: Seq<char>, b: Seq<char>, c: Seq<char>)
    ensures
        spec_join(spec_join(a, b), c) == spec_join(a, spec_join(b, c)),
{
    let ab = spec_join(a, b);
    let bc = spec_join(b, c);
    if spec_is_absolute(c) {
    } else if spec_is_absolute(b) {
        if needs_separator(b) {
            assert(bc[0] == b[0]);
        } else {
            assert(bc[0] == b[0]);
        }
    } else if b.len() == 0 {
        assert(bc =~= c);
        if needs_separator(a) {
            assert(ab =~= a + seq!['/']);
            assert(ab.last() == '/');
            assert(spec_join(ab, c) =~= a + seq!['/'] + c);
        } else {
            assert(ab =~= a);
        }
    } else {
        assert(bc[0] == b[0]);
        assert(!spec_is_absolute(bc));
        if needs_separator(a) {
            assert(ab =~= a + seq!['/'] + b);
        } else {
            assert(ab =~= a + b);
        }
        assert(ab.len() > 0);
        assert(ab.last() == b.last());
        if needs_separator(b) {
            assert(spec_join(ab, c) =~= spec_join(a, bc));
        } else {
            assert(spec_join(ab, c) =~= spec_join(a, bc));
        }
    }
}

/// The pieces of `s` between occurrences of `sep`, built from the left one
/// character at a time: `sep` opens a new (empty) piece, any other character
/// extends the last piece. The result always holds at least one piece.
pub open spec fn spec_split_on(s: Seq<char>, sep: char) -> Seq<Seq<char>>
    decreases s.len(),
{
    if s.len() == 0 {
        seq![Seq::<char>::empty()]
    } else {
        let init = spec_split_on(s.drop_last(), sep);
        if s.last() == sep {
            init.push(Seq::<char>::empty())
        } else {
            init.update(init.len() - 1, init.last().push(s.last()))
        }
    }
}

pub proof fn lemma_split_on_nonempty(s: Seq<char>, sep: char)
    ensures
        spec_split_on(s, sep).len() >= 1,
    decreases s.len(),
{
    if s.len() > 0 {
        lemma_split_on_nonempty(s.drop_last(), sep);
    }
}

/// The absolute members of `ps`, in their order.
pub open spec fn spec_keep_absolute(ps: Seq<Seq<char>>) -> Seq<Seq<char>>
    decreases ps.len(),
{
    if ps.len() == 0 {
        Seq::<Seq<char>>::empty()
    } else if spec_is_absolute(ps.last()) {
        spec_keep_absolute(ps.drop_last()).push(ps.last())
    } else {
        spec_keep_absolute(ps.drop_last())
    }
}

/// The non-empty members of `ps`, in their order.
pub open spec fn spec_keep_nonempty(ps: Seq<Seq<char>>) -> Seq<Seq<char>>
    decreases ps.len(),
{
    if ps.len() == 0 {
        Seq::<Seq<char>>::empty()
    } else if ps.last().len() > 0 {
        spec_keep_nonempty(ps.drop_last()).push(ps.last())
    } else {
        spec_keep_nonempty(ps.drop_last())
    }
}

/// The absolute entries of the colon-separated list `s`, in their order.
pub open spec fn spec_absolute_entries(s: Seq<char>) -> Seq<Seq<char>> {
    spec_keep_absolute(spec_split_on(s, ':'))
}

/// The views of a vector of strings.
pub open spec fn views(v: Seq<String>) -> Seq<Seq<char>> {
    v.map_values(|s: String| s@)
}

/// The pieces of `s` between occurrences of `sep`.
pub fn split_on(s: &str, sep: char) -> (r: Vec<String>)
    ensures
        views(r@) == spec_split_on(s@, sep),
{
    let n = s.unicode_len();
    let mut out: Vec<String> = Vec::new();
    let mut start: usize = 0;
    let mut i: usize = 0;
    proof {
        assert(s@.subrange(0, 0) =~= Seq::<char>::empty());
        assert(views(out@) =~= Seq::<Seq<char>>::empty());
    }
    while i < n
        invariant
            n == s@.len(),
            start <= i <= n,
            spec_split_on(s@.subrange(0, i as int), sep).last() == s@.subrange(
                start as int,
                i as int,
            ),
            views(out@) == spec_split_on(s@.subrange(0, i as int), sep).drop_last(),
        decreases n - i,
    {
        let c = s.get_char(i);
        let ghost pre = s@.subrange(0, i as int);
        let ghost next = s@.subrange(0, i + 1);
        proof {
            assert(next.drop_last() =~= pre);
            assert(next.last() == c);
            lemma_split_on_nonempty(pre, sep);
        }
        if c == sep {
            let piece = String::from_str(s.substring_char(start, i));
            let ghost before = out@;
            out.push(piece);
            proof {
                let sp = spec_split_on(pre, sep);
                assert(spec_split_on(next, sep) == sp.push(Seq::<char>::empty()));
                assert(views(out@) =~= views(before).push(piece@));
                assert(spec_split_on(next, sep).drop_last() =~= sp);
                assert(sp =~= sp.drop_last().push(sp.last()));
                assert(s@.subrange(i + 1, i + 1) =~= Seq::<char>::empty());
            }
            start = i + 1;
        } else {
            proof {
                let sp = spec_split_on(pre, sep);
                assert(spec_split_on(next, sep) == sp.update(sp.len() - 1, sp.last().push(c)));
                assert(spec_split_on(next, sep).drop_last() =~= sp.drop_last());
                assert(s@.subrange(start as int, i + 1) =~= s@.subrange(
                    start as int,
                    i as int,
                ).push(c));
            }
        }
        i = i + 1;
    }
    let last = String::from_str(s.substring_char(start, n));
    let ghost before = out@;
    out.push(last);
    proof {
        assert(s@.subrange(0, n as int) =~= s@);
        let sp = spec_split_on(s@, sep);
        lemma_split_on_nonempty(s@, sep);
        assert(views(out@) =~= views(before).push(last@));
        assert(sp =~= sp.drop_last().push(sp.last()));
    }
    out
}

/// Splits the colon-separated list `s` and keeps its absolute entries.
pub fn split_path_list(s: &str) -> (r: Vec<String>)
    ensures
        views(r@) == spec_absolute_entries(s@),
{
    let pieces = split_on(s, ':');
    let mut out: Vec<String> = Vec::new();
    let mut i: usize = 0;
    while i < pieces.len()
        invariant
            i <= pieces@.len(),
            views(out@) == spec_keep_absolute(views(pieces@).subrange(0, i as int)),
        decreases pieces.len() - i,
    {
        proof {
            assert(views(pieces@).subrange(0, i + 1).drop_last() =~= views(pieces@).subrange(
                0,
                i as int,
            ));
        }
        if is_absolute(pieces[i].as_str()) {
            let ghost before = out@;
            out.push(pieces[i].clone());
            proof {
                assert(views(out@) =~= views(before).push(pieces@[i as int]@));
            }
        }
        i = i + 1;
    }
    proof {
        assert(views(pieces@).subrange(0, pieces@.len() as int) =~= views(pieces@));
    }
    out
}

/// Splits `s` at each `sep` and keeps the non-empty pieces.
pub fn split_nonempty(s: &str, sep: char) -> (r: Vec<String>)
    ensures
        views(r@) == spec_keep_nonempty(spec_split_on(s@, sep)),
{
    let pieces = split_on(s, sep);
    let mut out: Vec<String> = Vec::new();
    let mut i: usize = 0;
    while i < pieces.len()
        invariant
            i <= pieces@.len(),
            views(out@) == spec_keep_nonempty(views(pieces@).subrange(0, i as int)),
        decreases pieces.len() - i,
    {
        proof {
            assert(views(pieces@).subrange(0, i + 1).drop_last() =~= views(pieces@).subrange(
                0,
                i as int,
            ));
        }
        if pieces[i].unicode_len() > 0 {
            let ghost before = out@;
            out.push(pieces[i].clone());
            proof {
                assert(views(out@) =~= views(before).push(pieces@[i as int]@));
            }
        }
        i = i + 1;
    }
    proof {
        assert(views(pieces@).subrange(0, pieces@.len() as int) =~= views(pieces@));
    }
    out
}

} // verus!
