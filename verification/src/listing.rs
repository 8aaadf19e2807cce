//! Ordering of directory listings in the file browser: directories first, then by
//! file name; entries that compare equal keep the order they were listed in.

use vstd::prelude::*;
use crate::config::opt_text;
use crate::paths::{path_file_name, std_path_file_name};
use crate::text::{lemma_text_lt_asymmetric, lemma_text_lt_transitive, text_less, text_lt};

verus! {

/// One entry of a directory listing: its path, and whether it is a directory.
#[derive(Debug)]
pub struct DirListing {
    pub path: String,
    pub is_dir: bool,
}

/// View of a listing entry: path and whether it is a directory.
pub open spec fn listing_view(l: Seq<DirListing>) -> Seq<(Seq<char>, bool)> {
    l.map_values(|e: DirListing| (e.path@, e.is_dir))
}

/// Order on optional file names: no name comes first, names by [`text_lt`].
pub open spec fn name_lt(a: Option<Seq<char>>, b: Option<Seq<char>>) -> bool {
    match (a, b) {
        (None, Some(_)) => true,
        (Some(x), Some(y)) => text_lt(x, y),
        _ => false,
    }
}

/// Whether entry `a` goes strictly before entry `b`: directories before other
/// entries, then by file name.
pub open spec fn listed_before(a: (Seq<char>, bool), b: (Seq<char>, bool)) -> bool {
    (a.1 && !b.1) || (a.1 == b.1 && name_lt(std_path_file_name(a.0), std_path_file_name(b.0)))
}

/// Index of the first entry at or after `i` that `x` goes strictly before
/// (`s.len()` if there is none): where `x` is inserted, after its equals.
pub open spec fn insertion_point(s: Seq<(Seq<char>, bool)>, x: (Seq<char>, bool), i: int) -> int
    decreases s.len() - i,
{
    if i < 0 || i >= s.len() {
        s.len() as int
    } else if listed_before(x, s[i]) {
        i
    } else {
        insertion_point(s, x, i + 1)
    }
}

/// `s` with `x` inserted after every entry it does not go strictly before.
pub open spec fn insert_listed(s: Seq<(Seq<char>, bool)>, x: (Seq<char>, bool)) -> Seq<
    (Seq<char>, bool),
> {
    s.insert(insertion_point(s, x, 0), x)
}

/// The listing in browser order (a stable insertion sort).
pub open spec fn browser_order(s: Seq<(Seq<char>, bool)>) -> Seq<(Seq<char>, bool)>
    decreases s.len(),
{
    if s.len() == 0 {
        s
    } else {
        insert_listed(browser_order(s.drop_last()), s.last())
    }
}

struct Keyed {
    path: String,
    is_dir: bool,
    name: Option<String>,
}

spec fn keyed_view(k: Seq<Keyed>) -> Seq<(Seq<char>, bool)> {
    k.map_values(|e: Keyed| (e.path@, e.is_dir))
}

spec fn keyed_ok(k: Seq<Keyed>) -> bool {
    forall|i: int| 0 <= i < k.len() ==> opt_text(#[trigger] k[i].name) == std_path_file_name(k[i].path@)
}

fn goes_before(a: &Keyed, b: &Keyed) -> (r: bool)
    requires
        opt_text(a.name) == std_path_file_name(a.path@),
        opt_text(b.name) == std_path_file_name(b.path@),
    ensures
        r == listed_before((a.path@, a.is_dir), (b.path@, b.is_dir)),
{
    if a.is_dir && !b.is_dir {
        return true;
    }
    if a.is_dir != b.is_dir {
        return false;
    }
    match (&a.name, &b.name) {
        (None, Some(_)) => true,
        (Some(x), Some(y)) => text_less(x.as_str(), y.as_str()),
        _ => false,
    }
}

/// Sorts a directory listing into browser order: directories first, then by file
/// name, equal entries in listing order.
pub fn sort_listing(listing: Vec<DirListing>) -> (sorted: Vec<DirListing>)
    ensures
        listing_view(sorted@) == browser_order(listing_view(listing@)),
{
    let ghost all = listing_view(listing@);
    let n = listing.len();
    let mut rest = listing;
    let mut keyed: Vec<Keyed> = Vec::new();
    let mut i: usize = 0;
    assert(all.take(0) =~= Seq::<(Seq<char>, bool)>::empty());
    while i < n
        invariant
            n == all.len(),
            i <= n,
            listing_view(rest@) == all.subrange(i as int, n as int),
            rest@.len() == n - i,
            keyed_ok(keyed@),
            keyed_view(keyed@) == browser_order(all.take(i as int)),
        decreases n - i,
    {
        let ghost old_rest = rest@;
        let e = rest.remove(0);
        assert(listing_view(old_rest)[0] == (e.path@, e.is_dir));
        assert(listing_view(rest@) =~= all.subrange(i + 1, n as int)) by {
            assert forall|q: int| 0 <= q < rest@.len() implies #[trigger] listing_view(rest@)[q]
                == all.subrange(i + 1, n as int)[q] by {
                assert(rest@[q] == old_rest[q + 1]);
                assert(listing_view(old_rest)[q + 1] == all[i + 1 + q]);
            }
        }
        let name = path_file_name(e.path.as_str());
        let x = Keyed { path: e.path, is_dir: e.is_dir, name };
        let ghost xv = (x.path@, x.is_dir);
        assert(xv == all[i as int]);
        let ghost sv = keyed_view(keyed@);
        let mut j: usize = 0;
        while j < keyed.len() && !goes_before(&x, &keyed[j])
            invariant
                j <= keyed@.len(),
                keyed_ok(keyed@),
                opt_text(x.name) == std_path_file_name(x.path@),
                xv == (x.path@, x.is_dir),
                sv == keyed_view(keyed@),
                insertion_point(sv, xv, 0) == insertion_point(sv, xv, j as int),
            decreases keyed@.len() - j,
        {
            assert(sv[j as int] == (keyed@[j as int].path@, keyed@[j as int].is_dir));
            j = j + 1;
        }
        if j < keyed.len() {
            assert(sv[j as int] == (keyed@[j as int].path@, keyed@[j as int].is_dir));
        }
        assert(insertion_point(sv, xv, j as int) == j);
        let ghost before = keyed@;
        keyed.insert(j, x);
        assert(keyed_view(keyed@) =~= sv.insert(j as int, xv));
        assert(all.take(i + 1).drop_last() =~= all.take(i as int));
        assert(all.take(i + 1).last() == xv);
        assert(keyed_ok(keyed@)) by {
            assert forall|q: int| 0 <= q < keyed@.len() implies opt_text(#[trigger] keyed@[q].name)
                == std_path_file_name(keyed@[q].path@) by {
                if q < j {
                    assert(keyed@[q] == before[q]);
                } else if q > j {
                    assert(keyed@[q] == before[q - 1]);
                }
            }
        }
        i = i + 1;
    }
    assert(all.take(n as int) =~= all);
    let mut sorted: Vec<DirListing> = Vec::new();
    let mut k: usize = 0;
    let ghost kv = keyed_view(keyed@);
    let m = keyed.len();
    while k < m
        invariant
            m == kv.len(),
            k <= m,
            keyed_view(keyed@) == kv.subrange(k as int, m as int),
            keyed@.len() == m - k,
            sorted@.len() == k,
            listing_view(sorted@) == kv.take(k as int),
        decreases m - k,
    {
        let ghost old_keyed = keyed@;
        let e = keyed.remove(0);
        assert(keyed_view(old_keyed)[0] == (e.path@, e.is_dir));
        assert(keyed_view(keyed@) =~= kv.subrange(k + 1, m as int)) by {
            assert forall|q: int| 0 <= q < keyed@.len() implies #[trigger] keyed_view(keyed@)[q]
                == kv.subrange(k + 1, m as int)[q] by {
                assert(keyed@[q] == old_keyed[q + 1]);
                assert(keyed_view(old_keyed)[q + 1] == kv[k + 1 + q]);
            }
        }
        assert(kv[k as int] == (e.path@, e.is_dir)) by {
            assert(kv.subrange(k as int, m as int)[0] == kv[k as int]);
        }
        let ghost prev = sorted@;
        sorted.push(DirListing { path: e.path, is_dir: e.is_dir });
        assert(listing_view(sorted@) =~= kv.take(k + 1)) by {
            assert forall|q: int| 0 <= q < k + 1 implies #[trigger] listing_view(sorted@)[q]
                == kv.take(k + 1)[q] by {
                if q < k {
                    assert(sorted@[q] == prev[q]);
                    assert(listing_view(prev)[q] == kv.take(k as int)[q]);
                }
            }
        }
        k = k + 1;
    }
    assert(kv.take(m as int) =~= kv);
    sorted
}

/// A listing in which no entry goes strictly before an earlier one.
pub open spec fn in_browser_order(s: Seq<(Seq<char>, bool)>) -> bool {
    forall|i: int, j: int| 0 <= i < j < s.len() ==> !listed_before(#[trigger] s[j], #[trigger] s[i])
}

proof fn lemma_listed_before_asymmetric(a: (Seq<char>, bool), b: (Seq<char>, bool))
    ensures
        !(listed_before(a, b) && listed_before(b, a)),
{
    let na = std_path_file_name(a.0);
    let nb = std_path_file_name(b.0);
    if na is Some && nb is Some {
        lemma_text_lt_asymmetric(na->0, nb->0);
    }
}

proof fn lemma_listed_before_transitive(
    a: (Seq<char>, bool),
    b: (Seq<char>, bool),
    c: (Seq<char>, bool),
)
    requires
        listed_before(a, b),
        listed_before(b, c),
    ensures
        listed_before(a, c),
{
    let na = std_path_file_name(a.0);
    let nb = std_path_file_name(b.0);
    let nc = std_path_file_name(c.0);
    if a.1 == b.1 && b.1 == c.1 && na is Some && nb is Some && nc is Some {
        lemma_text_lt_transitive(na->0, nb->0, nc->0);
    }
}

proof fn lemma_insertion_point_facts(s: Seq<(Seq<char>, bool)>, x: (Seq<char>, bool), i: int)
    requires
        0 <= i <= s.len(),
    ensures
        i <= insertion_point(s, x, i) <= s.len(),
        forall|j: int| i <= j < insertion_point(s, x, i) ==> !listed_before(x, #[trigger] s[j]),
        insertion_point(s, x, i) < s.len() ==> listed_before(x, s[insertion_point(s, x, i)]),
    decreases s.len() - i,
{
    if i < s.len() && !listed_before(x, s[i]) {
        lemma_insertion_point_facts(s, x, i + 1);
    }
}

proof fn lemma_insert_keeps_order(s: Seq<(Seq<char>, bool)>, x: (Seq<char>, bool))
    requires
        in_browser_order(s),
    ensures
        in_browser_order(insert_listed(s, x)),
{
    lemma_insertion_point_facts(s, x, 0);
    let p = insertion_point(s, x, 0);
    let r = s.insert(p, x);
    assert forall|i: int, j: int| 0 <= i < j < r.len() implies !listed_before(
        #[trigger] r[j],
        #[trigger] r[i],
    ) by {
        if j < p {
            assert(r[i] == s[i] && r[j] == s[j]);
        } else if j == p {
            assert(r[i] == s[i]);
        } else if i == p {
            assert(r[j] == s[j - 1]);
            if listed_before(s[j - 1], x) {
                assert(listed_before(x, s[p]));
                if j - 1 == p {
                    lemma_listed_before_asymmetric(x, s[p]);
                } else {
                    lemma_listed_before_transitive(s[j - 1], x, s[p]);
                    assert(!listed_before(s[j - 1], s[p]));
                }
            }
        } else if i < p {
            assert(r[i] == s[i] && r[j] == s[j - 1]);
        } else {
            assert(r[i] == s[i - 1] && r[j] == s[j - 1]);
        }
    }
}

/// Law: browser order puts no entry after one it goes strictly before
/// (directories first, then file names ascending), and holds exactly the listed
/// entries, each as often as listed.
pub proof fn lemma_browser_order_sorted_permutation(s: Seq<(Seq<char>, bool)>)
    ensures
        in_browser_order(browser_order(s)),
        browser_order(s).to_multiset() == s.to_multiset(),
    decreases s.len(),
{
    broadcast use vstd::seq_lib::to_multiset_insert, vstd::seq_lib::to_multiset_build;

    if s.len() == 0 {
    } else {
        let rest = browser_order(s.drop_last());
        lemma_browser_order_sorted_permutation(s.drop_last());
        lemma_insert_keeps_order(rest, s.last());
        lemma_insertion_point_facts(rest, s.last(), 0);
        assert(s.drop_last().push(s.last()) =~= s);
    }
}

/// Law: entries that compare equal (same kind, same file name) keep the order in
/// which they were listed: inserting an entry puts it after every entry it does
/// not go strictly before.
pub proof fn lemma_insertion_is_stable(s: Seq<(Seq<char>, bool)>, x: (Seq<char>, bool))
    ensures
        forall|j: int|
            0 <= j < insertion_point(s, x, 0) ==> !listed_before(x, #[trigger] s[j]),
{
    lemma_insertion_point_facts(s, x, 0);
}

} // verus!
