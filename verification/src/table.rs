//! Keyed rows and the table operations the cache is built from: lookup by
//! primary key, insert-or-replace, filtering and sorting.
use vstd::prelude::*;
use vstd::relations::sorted_by;
use crate::text::str_eq;

verus! {

broadcast use vstd::seq_lib::group_seq_properties;

/// A row with a text primary key that can be copied.
pub trait Row: Sized {
    /// The primary key.
    spec fn key(&self) -> Seq<char>;

    /// The primary key.
    fn key_str(&self) -> (r: &str)
        ensures
            r@ == self.key(),
    ;

    /// A copy equal to the row.
    fn dup(&self) -> (r: Self)
        ensures
            r == *self,
    ;
}

/// A row type with an order for listings.
pub trait Ordered: Row {
    /// `a` may come before `b`.
    spec fn le(a: Self, b: Self) -> bool;

    /// `a` may come before `b`.
    fn le_exec(a: &Self, b: &Self) -> (r: bool)
        ensures
            r == Self::le(*a, *b),
    ;

    /// The order is total.
    proof fn lemma_le_total(a: Self, b: Self)
        ensures
            Self::le(a, b) || Self::le(b, a),
    ;

    /// The order is transitive.
    proof fn lemma_le_transitive(a: Self, b: Self, c: Self)
        requires
            Self::le(a, b),
            Self::le(b, c),
        ensures
            Self::le(a, c),
    ;
}

/// No two rows share a key.
pub open spec fn keys_unique<T: Row>(s: Seq<T>) -> bool {
    forall|i: int, j: int|
        0 <= i < s.len() && 0 <= j < s.len() && i != j ==> #[trigger] s[i].key() != #[trigger] s[j].key()
}

/// Some row has key `k`.
pub open spec fn has_key<T: Row>(s: Seq<T>, k: Seq<char>) -> bool {
    exists|i: int| 0 <= i < s.len() && #[trigger] s[i].key() == k
}

/// The row with key `k`, if there is one.
pub open spec fn row_with_key<T: Row>(s: Seq<T>, k: Seq<char>) -> Option<T> {
    if has_key(s, k) {
        Some(s[choose|i: int| 0 <= i < s.len() && #[trigger] s[i].key() == k])
    } else {
        None
    }
}

/// With unique keys, the row at an index is the row with its key.
pub proof fn lemma_row_with_key_at<T: Row>(s: Seq<T>, i: int)
    requires
        keys_unique(s),
        0 <= i < s.len(),
    ensures
        row_with_key(s, s[i].key()) == Some(s[i]),
{
    let k = s[i].key();
    assert(has_key(s, k));
    let j = choose|j: int| 0 <= j < s.len() && #[trigger] s[j].key() == k;
    assert(i == j);
}

/// Finds the index of the row with key `k`.
pub fn find_key<T: Row>(v: &Vec<T>, k: &str) -> (r: Option<usize>)
    ensures
        match r {
            Some(i) => i < v.len() && v@[i as int].key() == k@,
            None => !has_key(v@, k@),
        },
{
    let mut i: usize = 0;
    while i < v.len()
        invariant
            i <= v.len(),
            forall|j: int| 0 <= j < i ==> v@[j].key() != k@,
        decreases v.len() - i,
    {
        if str_eq(v[i].key_str(), k) {
            return Some(i);
        }
        i = i + 1;
    }
    None
}

/// A copy of the row with key `k`, if there is one.
pub fn get_row<T: Row>(v: &Vec<T>, k: &str) -> (r: Option<T>)
    requires
        keys_unique(v@),
    ensures
        r == row_with_key(v@, k@),
{
    match find_key(v, k) {
        Some(i) => {
            proof {
                lemma_row_with_key_at(v@, i as int);
            }
            Some(v[i].dup())
        },
        None => None,
    }
}

/// A copy of every row, in order.
pub fn dup_rows<T: Row>(v: &Vec<T>) -> (r: Vec<T>)
    ensures
        r@ == v@,
{
    let mut r: Vec<T> = Vec::new();
    let mut i: usize = 0;
    while i < v.len()
        invariant
            i <= v.len(),
            r@ == v@.take(i as int),
        decreases v.len() - i,
    {
        r.push(v[i].dup());
        assert(v@.take(i + 1) =~= v@.take(i as int).push(v@[i as int]));
        i = i + 1;
    }
    assert(v@.take(v.len() as int) =~= v@);
    r
}

/// The rows after inserting `row`, or replacing the row with its key in place.
pub open spec fn upserted<T: Row>(s: Seq<T>, row: T) -> Seq<T> {
    if has_key(s, row.key()) {
        s.update(choose|i: int| 0 <= i < s.len() && #[trigger] s[i].key() == row.key(), row)
    } else {
        s.push(row)
    }
}

/// Inserts `row`, or replaces the row with its key in place.
pub fn upsert_row<T: Row>(v: &mut Vec<T>, row: T)
    requires
        keys_unique(old(v)@),
    ensures
        final(v)@ == upserted(old(v)@, row),
        keys_unique(final(v)@),
{
    match find_key(v, row.key_str()) {
        Some(i) => {
            proof {
                let j = choose|j: int| 0 <= j < v@.len() && #[trigger] v@[j].key() == row.key();
                assert(v@[i as int].key() == v@[j].key());
                assert(i == j);
            }
            v.set(i, row);
        },
        None => {
            v.push(row);
            assert forall|a: int, b: int|
                0 <= a < v@.len() && 0 <= b < v@.len() && a != b implies #[trigger] v@[a].key()
                != #[trigger] v@[b].key() by {
                if a == v@.len() - 1 {
                    assert(old(v)@[b].key() == v@[b].key());
                } else if b == v@.len() - 1 {
                    assert(old(v)@[a].key() == v@[a].key());
                } else {
                    assert(old(v)@[a] == v@[a]);
                    assert(old(v)@[b] == v@[b]);
                }
            }
        },
    }
}

/// Filtering keeps keys unique.
pub proof fn lemma_filter_keys_unique<T: Row>(s: Seq<T>, p: spec_fn(T) -> bool)
    requires
        keys_unique(s),
    ensures
        keys_unique(s.filter(p)),
    decreases s.len(),
{
    reveal(Seq::filter);
    if s.len() > 0 {
        lemma_filter_keys_unique(s.drop_last(), p);
        let f = s.drop_last().filter(p);
        if p(s.last()) {
            assert forall|i: int| 0 <= i < f.len() implies #[trigger] f[i].key() != s.last().key() by {
                assert(s.drop_last().filter(p).contains(f[i]));
                lemma_filter_subset(s.drop_last(), p, f[i]);
                let j = choose|j: int| 0 <= j < s.drop_last().len() && s.drop_last()[j] == f[i];
                assert(s[j] == f[i]);
                assert(j != s.len() - 1);
            }
            let g = f.push(s.last());
            assert forall|a: int, b: int|
                0 <= a < g.len() && 0 <= b < g.len() && a != b implies #[trigger] g[a].key()
                != #[trigger] g[b].key() by {
                if a < f.len() && b < f.len() {
                    assert(g[a] == f[a] && g[b] == f[b]);
                } else if a < f.len() {
                    assert(g[a] == f[a]);
                } else if b < f.len() {
                    assert(g[b] == f[b]);
                }
            }
        }
    }
}

/// Every element of a filtered sequence is an element of the unfiltered one.
pub proof fn lemma_filter_subset<T>(s: Seq<T>, p: spec_fn(T) -> bool, x: T)
    requires
        s.filter(p).contains(x),
    ensures
        s.contains(x),
        p(x),
    decreases s.len(),
{
    reveal(Seq::filter);
    if s.len() > 0 {
        let f = s.drop_last().filter(p);
        if p(s.last()) && x == s.last() {
        } else {
            if p(s.last()) {
                let i = choose|i: int| 0 <= i < s.filter(p).len() && s.filter(p)[i] == x;
                assert(i < f.len());
                assert(f[i] == x);
            }
            assert(f.contains(x));
            lemma_filter_subset(s.drop_last(), p, x);
            let j = choose|j: int| 0 <= j < s.drop_last().len() && s.drop_last()[j] == x;
            assert(s[j] == x);
        }
    }
}

/// Looking up a key after an insert-or-replace.
pub proof fn lemma_upserted_lookup<T: Row>(s: Seq<T>, row: T, k: Seq<char>)
    requires
        keys_unique(s),
    ensures
        keys_unique(upserted(s, row)),
        row_with_key(upserted(s, row), k) == if k == row.key() {
            Some(row)
        } else {
            row_with_key(s, k)
        },
        has_key(upserted(s, row), k) == (k == row.key() || has_key(s, k)),
{
    let u = upserted(s, row);
    if has_key(s, row.key()) {
        let i = choose|i: int| 0 <= i < s.len() && #[trigger] s[i].key() == row.key();
        assert(u == s.update(i, row));
        assert forall|a: int, b: int| 0 <= a < u.len() && 0 <= b < u.len() && a != b implies #[trigger] u[a].key()
            != #[trigger] u[b].key() by {
            if a == i {
                assert(s[b].key() != s[i].key());
            } else if b == i {
                assert(s[a].key() != s[i].key());
            } else {
                assert(s[a].key() != s[b].key());
            }
        }
        if k == row.key() {
            assert(u[i].key() == k);
            lemma_row_with_key_at(u, i);
        } else {
            if has_key(s, k) {
                let j = choose|j: int| 0 <= j < s.len() && #[trigger] s[j].key() == k;
                assert(u[j] == s[j]);
                lemma_row_with_key_at(u, j);
                lemma_row_with_key_at(s, j);
            } else {
                assert forall|j: int| 0 <= j < u.len() implies #[trigger] u[j].key() != k by {
                    if j != i {
                        assert(u[j] == s[j]);
                    }
                }
            }
        }
    } else {
        assert(u == s.push(row));
        assert forall|a: int, b: int| 0 <= a < u.len() && 0 <= b < u.len() && a != b implies #[trigger] u[a].key()
            != #[trigger] u[b].key() by {
            if a < s.len() && b < s.len() {
                assert(u[a] == s[a] && u[b] == s[b]);
            } else if a < s.len() {
                assert(u[a] == s[a]);
            } else {
                assert(u[b] == s[b]);
            }
        }
        if k == row.key() {
            lemma_row_with_key_at(u, s.len() as int);
        } else if has_key(s, k) {
            let j = choose|j: int| 0 <= j < s.len() && #[trigger] s[j].key() == k;
            assert(u[j] == s[j]);
            lemma_row_with_key_at(u, j);
            lemma_row_with_key_at(s, j);
        } else {
            assert forall|j: int| 0 <= j < u.len() implies #[trigger] u[j].key() != k by {
                if j < s.len() {
                    assert(u[j] == s[j]);
                }
            }
        }
    }
}

/// Looking up a key after a filter.
pub proof fn lemma_filter_lookup<T: Row>(s: Seq<T>, p: spec_fn(T) -> bool, k: Seq<char>)
    requires
        keys_unique(s),
    ensures
        keys_unique(s.filter(p)),
        row_with_key(s.filter(p), k) == match row_with_key(s, k) {
            Some(x) => if p(x) {
                Some(x)
            } else {
                None
            },
            None => None,
        },
{
    lemma_filter_keys_unique(s, p);
    let f = s.filter(p);
    if has_key(f, k) {
        let i = choose|i: int| 0 <= i < f.len() && #[trigger] f[i].key() == k;
        assert(f.contains(f[i]));
        lemma_filter_subset(s, p, f[i]);
        let j = choose|j: int| 0 <= j < s.len() && s[j] == f[i];
        assert(s[j].key() == k);
        lemma_row_with_key_at(s, j);
        lemma_row_with_key_at(f, i);
    } else if has_key(s, k) {
        let j = choose|j: int| 0 <= j < s.len() && #[trigger] s[j].key() == k;
        lemma_row_with_key_at(s, j);
        if p(s[j]) {
            s.lemma_filter_contains(p, j);
            let i = choose|i: int| 0 <= i < f.len() && f[i] == s[j];
            assert(f[i].key() == k);
        }
    }
}

/// A filter that keeps every element changes nothing.
pub proof fn lemma_filter_all<T>(s: Seq<T>, p: spec_fn(T) -> bool)
    requires
        forall|i: int| 0 <= i < s.len() ==> p(#[trigger] s[i]),
    ensures
        s.filter(p) == s,
    decreases s.len(),
{
    reveal(Seq::filter);
    if s.len() > 0 {
        lemma_filter_all(s.drop_last(), p);
        assert(s.drop_last().push(s.last()) =~= s);
    } else {
        assert(s.filter(p) =~= s);
    }
}

/// A filter keeps a pairwise property.
pub proof fn lemma_filter_pairwise<T>(s: Seq<T>, p: spec_fn(T) -> bool, rel: spec_fn(T, T) -> bool)
    requires
        forall|i: int, j: int| 0 <= i < s.len() && 0 <= j < s.len() && i != j ==> rel(s[i], s[j]),
    ensures
        forall|i: int, j: int|
            0 <= i < s.filter(p).len() && 0 <= j < s.filter(p).len() && i != j ==> rel(
                s.filter(p)[i],
                s.filter(p)[j],
            ),
    decreases s.len(),
{
    reveal(Seq::filter);
    if s.len() > 0 {
        let d = s.drop_last();
        assert forall|i: int, j: int| 0 <= i < d.len() && 0 <= j < d.len() && i != j implies rel(d[i], d[j]) by {
            assert(d[i] == s[i] && d[j] == s[j]);
        }
        lemma_filter_pairwise(d, p, rel);
        let f = d.filter(p);
        if p(s.last()) {
            let g = f.push(s.last());
            assert forall|i: int| 0 <= i < f.len() implies rel(f[i], s.last()) && rel(s.last(), f[i]) by {
                assert(f.contains(f[i]));
                lemma_filter_subset(d, p, f[i]);
                let j = choose|j: int| 0 <= j < d.len() && d[j] == f[i];
                assert(s[j] == f[i]);
            }
            assert forall|i: int, j: int| 0 <= i < g.len() && 0 <= j < g.len() && i != j implies rel(g[i], g[j]) by {
                if i < f.len() && j < f.len() {
                    assert(g[i] == f[i] && g[j] == f[j]);
                } else if i < f.len() {
                    assert(g[i] == f[i]);
                } else {
                    assert(g[j] == f[j]);
                }
            }
        }
    }
}

/// Every element of a filtered sequence satisfies the predicate.
pub proof fn lemma_filter_all_satisfy<T>(s: Seq<T>, p: spec_fn(T) -> bool)
    ensures
        forall|i: int| 0 <= i < s.filter(p).len() ==> p(#[trigger] s.filter(p)[i]),
{
    assert forall|i: int| 0 <= i < s.filter(p).len() implies p(#[trigger] s.filter(p)[i]) by {
        s.lemma_filter_pred(p, i);
    }
}

/// A test on rows with a stated meaning.
pub trait RowTest<T> {
    /// What the test means.
    spec fn holds(&self, x: T) -> bool;

    /// Runs the test.
    fn test(&self, x: &T) -> (b: bool)
        ensures
            b == self.holds(*x),
    ;
}

/// The rows that pass `p`, in order.
pub fn filter_rows<T: Row, P: RowTest<T>>(v: &Vec<T>, p: &P) -> (r: Vec<T>)
    ensures
        r@ == v@.filter(|x: T| p.holds(x)),
{
    let ghost pred = |x: T| p.holds(x);
    let mut r: Vec<T> = Vec::new();
    let mut i: usize = 0;
    while i < v.len()
        invariant
            i <= v.len(),
            pred == (|x: T| p.holds(x)),
            r@ == v@.take(i as int).filter(pred),
        decreases v.len() - i,
    {
        let ghost prefix = v@.take(i as int);
        assert(v@.take(i + 1) =~= prefix.push(v@[i as int]));
        proof {
            prefix.lemma_filter_push(v@[i as int], pred);
        }
        if p.test(&v[i]) {
            r.push(v[i].dup());
        }
        i = i + 1;
    }
    assert(v@.take(v.len() as int) =~= v@);
    r
}

/// `s` is ordered by the row order.
pub open spec fn ordered<T: Ordered>(s: Seq<T>) -> bool {
    sorted_by(s, |a: T, b: T| T::le(a, b))
}

/// The rows of `v` ordered by the row order (a stable insertion sort).
pub fn sort_rows<T: Ordered>(v: Vec<T>) -> (r: Vec<T>)
    ensures
        ordered(r@),
        r@.to_multiset() == v@.to_multiset(),
{
    let mut r: Vec<T> = Vec::new();
    let mut i: usize = 0;
    let ghost leq = |a: T, b: T| T::le(a, b);
    while i < v.len()
        invariant
            i <= v.len(),
            leq == (|a: T, b: T| T::le(a, b)),
            sorted_by(r@, leq),
            r@.to_multiset() == v@.take(i as int).to_multiset(),
        decreases v.len() - i,
    {
        let x = v[i].dup();
        // First position whose row must come after x.
        let mut p: usize = 0;
        while p < r.len() && T::le_exec(&r[p], &x)
            invariant
                p <= r.len(),
                forall|k: int| 0 <= k < p ==> T::le(#[trigger] r@[k], x),
            decreases r.len() - p,
        {
            p = p + 1;
        }
        let ghost old_r = r@;
        proof {
            if p < old_r.len() {
                T::lemma_le_total(old_r[p as int], x);
            }
        }
        r.insert(p, x);
        proof {
            assert(r@ =~= old_r.insert(p as int, x));
            old_r.insert_ensures(p as int, x);
            assert forall|a: int, b: int| 0 <= a < b < r@.len() implies #[trigger] leq(
                r@[a],
                r@[b],
            ) by {
                if a < p && b < p {
                    assert(leq(old_r[a], old_r[b]));
                } else if a < p && b == p {
                } else if a < p && b > p {
                    assert(r@[b] == old_r[b - 1]);
                    if b - 1 > p {
                        assert(leq(old_r[p as int], old_r[b - 1]));
                        T::lemma_le_transitive(x, old_r[p as int], old_r[b - 1]);
                    }
                    T::lemma_le_transitive(old_r[a], x, old_r[b - 1]);
                } else if a == p {
                    assert(r@[b] == old_r[b - 1]);
                    if b - 1 > p {
                        assert(leq(old_r[p as int], old_r[b - 1]));
                        T::lemma_le_transitive(x, old_r[p as int], old_r[b - 1]);
                    }
                } else {
                    assert(r@[a] == old_r[a - 1]);
                    assert(r@[b] == old_r[b - 1]);
                    assert(leq(old_r[a - 1], old_r[b - 1]));
                }
            }
            let pre = old_r.subrange(0, p as int);
            let post = old_r.subrange(p as int, old_r.len() as int);
            assert(old_r =~= pre + post);
            vstd::seq_lib::lemma_multiset_commutative(pre, post);
            vstd::seq_lib::lemma_multiset_commutative(pre.push(x), post);
            pre.to_multiset_ensures();
            assert(v@.take(i + 1) =~= v@.take(i as int).push(v@[i as int]));
            v@.take(i as int).to_multiset_ensures();
            assert(r@.to_multiset() =~= v@.take(i + 1).to_multiset());
        }
        i = i + 1;
    }
    assert(v@.take(v.len() as int) =~= v@);
    r
}

} // verus!
