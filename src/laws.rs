//! Laws that relate the operations of `BaseDirectories` to one another.
//!
//! Each law is stated over the views and spec functions that the operations'
//! own contracts use, so it holds of every call that meets those contracts.

use vstd::prelude::*;

use crate::base_directories::{
    spec_directory, spec_first_existing, spec_first_of_each_name, spec_found, spec_listing,
    spec_listing_once, spec_named_listing, spec_names_of, spec_opt_placement, spec_opt_under,
    spec_paths_of, spec_require_home, spec_runtime_directory, spec_search_paths, DirStatusView,
    DirsView, ErrorView,
};
use crate::base_directories::lemma_first_of_each_name_names;
use crate::paths::{lemma_join_assoc, spec_join};
use crate::permissions::Permissions;

verus! {

broadcast use vstd::seq_lib::group_to_multiset_ensures;

/// A `get_*_file` result depends on nothing but the category root, the user
/// prefix and the path: two configurations that agree on those give the
/// same path.
pub proof fn lemma_get_file_determined(d1: DirsView, d2: DirsView, path: Seq<char>)
    requires
        d1.config_home == d2.config_home,
        d1.user_prefix == d2.user_prefix,
    ensures
        spec_opt_under(d1.config_home, d1.user_prefix, path) == spec_opt_under(
            d2.config_home,
            d2.user_prefix,
            path,
        ),
{
}

/// Placing a file succeeds exactly when the category root is known, and then
/// gives the same path as getting it.
pub proof fn lemma_place_then_get(root: Option<Seq<char>>, user_prefix: Seq<char>, path: Seq<char>)
    ensures
        spec_opt_placement(spec_require_home(root), user_prefix, path) is Ok <==> root is Some,
        spec_opt_placement(spec_require_home(root), user_prefix, path) matches Ok(pl) ==> Some(
            pl.path,
        ) == spec_opt_under(root, user_prefix, path),
{
}

/// When the home-rooted candidate exists, a search returns it, whatever
/// exists in the system-wide directories.
pub proof fn lemma_home_wins(
    home: Seq<char>,
    dirs: Seq<Seq<char>>,
    user_prefix: Seq<char>,
    shared_prefix: Seq<char>,
    path: Seq<char>,
    exists: Seq<bool>,
)
    requires
        spec_found(exists, 0),
    ensures
        spec_first_existing(
            spec_search_paths(Some(home), dirs, user_prefix, shared_prefix, path),
            exists,
            0,
        ) == Some(spec_join(spec_join(home, user_prefix), path)),
{
}

/// A file placed in a category's home is the one a later search finds once
/// it exists: the path of the placement is the home-rooted candidate.
pub proof fn lemma_place_then_find(
    home: Seq<char>,
    dirs: Seq<Seq<char>>,
    user_prefix: Seq<char>,
    shared_prefix: Seq<char>,
    path: Seq<char>,
    exists: Seq<bool>,
)
    requires
        spec_found(exists, 0),
    ensures
        spec_opt_placement(spec_require_home(Some(home)), user_prefix, path) matches Ok(pl)
            && spec_first_existing(
            spec_search_paths(Some(home), dirs, user_prefix, shared_prefix, path),
            exists,
            0,
        ) == Some(pl.path),
{
    lemma_join_assoc(home, user_prefix, path);
}

/// The runtime directory guard accepts a configured, readable directory
/// exactly when no group or other permission bit is set, and otherwise
/// reports it as insecure with the bits observed.
pub proof fn lemma_runtime_guard(rt: Seq<char>, mode: u32)
    ensures
        spec_runtime_directory(Some(rt), DirStatusView::Mode(mode)) == if mode & 0o077 == 0 {
            Ok::<Seq<char>, ErrorView>(rt)
        } else {
            Err(ErrorView::RuntimeDirInsecure(rt, mode))
        },
        spec_runtime_directory(None, DirStatusView::Mode(mode)) == Err::<Seq<char>, ErrorView>(
            ErrorView::RuntimeDirMissing,
        ),
{
    assert(Permissions(mode).spec_only_owner() == (mode & 0o077 == 0));
}

/// Creating a directory needs the category root exactly as getting a file does.
pub proof fn lemma_create_matches_get(root: Option<Seq<char>>, user_prefix: Seq<char>, path: Seq<char>)
    ensures
        spec_directory(spec_require_home(root), user_prefix, path) is Ok <==> root is Some,
        spec_directory(spec_require_home(root), user_prefix, path) matches Ok(p) ==> Some(p)
            == spec_opt_under(root, user_prefix, path),
{
}

/// Steps over a two-ended cursor on `s`: `true` takes from the front, `false`
/// from the back. Gives what was handed out from the front, what was handed
/// out from the back (in the order handed out), and what is left.
pub open spec fn spec_drain(s: Seq<Seq<char>>, steps: Seq<bool>) -> (
    Seq<Seq<char>>,
    Seq<Seq<char>>,
    Seq<Seq<char>>,
)
    decreases steps.len(),
{
    if steps.len() == 0 {
        (Seq::empty(), Seq::empty(), s)
    } else {
        let (f, b, rest) = spec_drain(s, steps.drop_last());
        if rest.len() == 0 {
            (f, b, rest)
        } else if steps.last() {
            (f.push(rest[0]), b, rest.drop_first())
        } else {
            (f, b.push(rest.last()), rest.drop_last())
        }
    }
}

/// However steps from the two ends interleave, what was handed out from the
/// front, then what is left, then what was handed out from the back read
/// backwards, is the whole sequence: every candidate is handed out at most
/// once, in order from the front and in reverse order from the back.
pub proof fn lemma_drain_partitions(s: Seq<Seq<char>>, steps: Seq<bool>)
    ensures
        ({
            let (f, b, rest) = spec_drain(s, steps);
            f + rest + b.reverse() == s
        }),
    decreases steps.len(),
{
    if steps.len() == 0 {
        let (f, b, rest) = spec_drain(s, steps);
        assert(f + rest + b.reverse() =~= s);
    } else {
        lemma_drain_partitions(s, steps.drop_last());
        let (f, b, rest) = spec_drain(s, steps.drop_last());
        if rest.len() > 0 {
            if steps.last() {
                assert(f.push(rest[0]) + rest.drop_first() =~= f + rest);
                assert(f.push(rest[0]) + rest.drop_first() + b.reverse() =~= f + rest + b.reverse());
            } else {
                assert(b.push(rest.last()).reverse() =~= seq![rest.last()] + b.reverse());
                assert(f + rest.drop_last() + b.push(rest.last()).reverse() =~= f + rest
                    + b.reverse());
            }
        }
    }
}

/// Taking only from the front hands out the whole sequence in order; taking
/// only from the back hands it out in reverse order.
pub proof fn lemma_drain_one_end(s: Seq<Seq<char>>, n: nat)
    requires
        n >= s.len(),
    ensures
        spec_drain(s, Seq::new(n, |i: int| true)).0 == s,
        spec_drain(s, Seq::new(n, |i: int| false)).1 == s.reverse(),
    decreases n,
{
    lemma_drain_front(s, n);
    lemma_drain_back(s, n);
}

proof fn lemma_drain_front(s: Seq<Seq<char>>, n: nat)
    ensures
        ({
            let (f, b, rest) = spec_drain(s, Seq::new(n, |i: int| true));
            &&& b.len() == 0
            &&& f.len() == if n <= s.len() {
                n as int
            } else {
                s.len() as int
            }
            &&& f + rest == s
        }),
    decreases n,
{
    if n > 0 {
        let steps = Seq::new(n, |i: int| true);
        assert(steps.drop_last() =~= Seq::new((n - 1) as nat, |i: int| true));
        lemma_drain_front(s, (n - 1) as nat);
        let (f, b, rest) = spec_drain(s, steps.drop_last());
        if rest.len() > 0 {
            assert(f.push(rest[0]) + rest.drop_first() =~= f + rest);
        }
    } else {
        assert(Seq::<Seq<char>>::empty() + s =~= s);
    }
}

proof fn lemma_drain_back(s: Seq<Seq<char>>, n: nat)
    ensures
        ({
            let (f, b, rest) = spec_drain(s, Seq::new(n, |i: int| false));
            &&& f.len() == 0
            &&& b.len() == if n <= s.len() {
                n as int
            } else {
                s.len() as int
            }
            &&& rest + b.reverse() == s
        }),
    decreases n,
{
    if n > 0 {
        let steps = Seq::new(n, |i: int| false);
        assert(steps.drop_last() =~= Seq::new((n - 1) as nat, |i: int| false));
        lemma_drain_back(s, (n - 1) as nat);
        let (f, b, rest) = spec_drain(s, steps.drop_last());
        if rest.len() > 0 {
            assert(b.push(rest.last()).reverse() =~= seq![rest.last()] + b.reverse());
            assert(rest.drop_last() + b.push(rest.last()).reverse() =~= rest + b.reverse());
        }
    } else {
        assert(s + Seq::<Seq<char>>::empty().reverse() =~= s);
    }
}

/// The entries kept once per name never share a name.
pub proof fn lemma_once_distinct_names(es: Seq<(Seq<char>, Seq<char>)>)
    ensures
        spec_names_of(spec_first_of_each_name(es)).no_duplicates(),
    decreases es.len(),
{
    if es.len() > 0 {
        let init = es.drop_last();
        lemma_once_distinct_names(init);
        let kept = spec_first_of_each_name(init);
        if !spec_names_of(init).contains(es.last().0) {
            lemma_first_of_each_name_names(init, es.last().0);
            let ns = spec_names_of(kept.push(es.last()));
            assert(ns =~= spec_names_of(kept).push(es.last().0));
            assert forall|i: int, j: int|
                0 <= i < ns.len() && 0 <= j < ns.len() && i != j implies ns[i] != ns[j] by {
                if i == ns.len() - 1 {
                    assert(spec_names_of(kept)[j] == ns[j]);
                } else if j == ns.len() - 1 {
                    assert(spec_names_of(kept)[i] == ns[i]);
                }
            }
        }
    }
}

/// Listing once per name keeps entries with pairwise different names, and
/// keeps only entries of the full listing, counting repetitions: whatever
/// directories are listed and whatever names were read from them.
pub proof fn lemma_listing_once(dirs: Seq<Seq<char>>, names: Seq<Seq<Seq<char>>>)
    ensures
        spec_names_of(spec_first_of_each_name(spec_named_listing(dirs, names))).no_duplicates(),
        spec_listing_once(dirs, names).to_multiset().subset_of(
            spec_listing(dirs, names).to_multiset(),
        ),
{
    lemma_once_distinct_names(spec_named_listing(dirs, names));
    lemma_once_within_all(spec_named_listing(dirs, names));
}

/// Every listing kept once per name is contained, counting repetitions, in
/// the full listing.
pub proof fn lemma_once_within_all(es: Seq<(Seq<char>, Seq<char>)>)
    ensures
        spec_paths_of(spec_first_of_each_name(es)).to_multiset().subset_of(
            spec_paths_of(es).to_multiset(),
        ),
    decreases es.len(),
{
    if es.len() > 0 {
        let init = es.drop_last();
        lemma_once_within_all(init);
        let kept = spec_first_of_each_name(init);
        let x = es.last();
        assert(spec_paths_of(es) =~= spec_paths_of(init).push(x.1));
        if !spec_names_of(init).contains(x.0) {
            assert(spec_paths_of(kept.push(x)) =~= spec_paths_of(kept).push(x.1));
        }
    } else {
        assert(spec_paths_of(spec_first_of_each_name(es)) =~= Seq::<Seq<char>>::empty());
    }
}

} // verus!
