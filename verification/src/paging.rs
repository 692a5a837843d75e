//! The ordering and selection model shared by every table.
//!
//! Rows are kept sorted by `(create_time, id)`; listings select the rows of
//! one parent, start strictly after a cursor position and serve a bounded
//! page. The lemmas here establish the facts every listing relies on: a
//! cursor filter on a sorted sequence is a suffix, and the cursor taken
//! from the last row of a page points exactly at the next row, so that
//! following tokens walks the whole selection without gaps or duplicates.

use vstd::prelude::*;

verus! {

/// Strict order on `(create_time, id)` sort keys.
pub open spec fn key_lt(a: (i64, u64), b: (i64, u64)) -> bool {
    a.0 < b.0 || (a.0 == b.0 && a.1 < b.1)
}

/// Whether a row at `key` lies at or past the cursor position. A cursor
/// records the first row of the next page, so resumption is inclusive.
pub open spec fn past_cursor(key: (i64, u64), after: Option<(i64, u64)>) -> bool {
    match after {
        None => true,
        Some(k) => !key_lt(key, k),
    }
}

/// The rows of `s` satisfying `p`, in order.
pub open spec fn sel_rows<T>(s: Seq<T>, p: spec_fn(T) -> bool) -> Seq<T>
    decreases s.len(),
{
    if s.len() == 0 {
        Seq::empty()
    } else {
        (if p(s[0]) {
            seq![s[0]]
        } else {
            Seq::empty()
        }) + sel_rows(s.drop_first(), p)
    }
}

/// A sequence strictly sorted by its rows' sort keys.
pub open spec fn sorted_by_key<T>(s: Seq<T>, key: spec_fn(T) -> (i64, u64)) -> bool {
    forall|i: int, j: int| 0 <= i < j < s.len() ==> key_lt(key(s[i]), key(s[j]))
}

/// The cursor filter alone.
pub open spec fn past_fn<T>(
    key: spec_fn(T) -> (i64, u64),
    after: Option<(i64, u64)>,
) -> spec_fn(T) -> bool {
    |x: T| past_cursor(key(x), after)
}

/// The combined page filter: the row is selected and lies past the cursor.
pub open spec fn admit_fn<T>(
    sel: spec_fn(T) -> bool,
    key: spec_fn(T) -> (i64, u64),
    after: Option<(i64, u64)>,
) -> spec_fn(T) -> bool {
    |x: T| sel(x) && past_cursor(key(x), after)
}

/// How many leading rows of a sorted sequence a cursor at `k` skips.
pub open spec fn spec_cut<T>(s: Seq<T>, key: spec_fn(T) -> (i64, u64), k: (i64, u64)) -> int
    decreases s.len(),
{
    if s.len() == 0 {
        0
    } else if key_lt(key(s[0]), k) {
        1 + spec_cut(s.drop_first(), key, k)
    } else {
        0
    }
}

/// Where a listing starts within the selected rows.
pub open spec fn spec_start<T>(
    m: Seq<T>,
    key: spec_fn(T) -> (i64, u64),
    after: Option<(i64, u64)>,
) -> int {
    match after {
        None => 0,
        Some(k) => spec_cut(m, key, k),
    }
}

/// The page a listing returns: up to `n` selected rows starting past the
/// cursor, in sort order.
pub open spec fn spec_page<T>(
    s: Seq<T>,
    sel: spec_fn(T) -> bool,
    key: spec_fn(T) -> (i64, u64),
    after: Option<(i64, u64)>,
    n: int,
) -> Seq<T> {
    let m = sel_rows(s, sel);
    let c = spec_start(m, key, after);
    m.skip(c).take(if n <= m.len() - c {
        n
    } else {
        m.len() - c
    })
}

/// Selection looks only at membership: every selected row comes from `s`.
pub proof fn lemma_sel_subset<T>(s: Seq<T>, p: spec_fn(T) -> bool)
    ensures
        forall|i: int|
            0 <= i < sel_rows(s, p).len() ==> p(#[trigger] sel_rows(s, p)[i]) && s.contains(
                sel_rows(s, p)[i],
            ),
        sel_rows(s, p).len() <= s.len(),
    decreases s.len(),
{
    if s.len() > 0 {
        lemma_sel_subset(s.drop_first(), p);
        assert forall|i: int| 0 <= i < sel_rows(s, p).len() implies p(
            #[trigger] sel_rows(s, p)[i],
        ) && s.contains(sel_rows(s, p)[i]) by {
            let r = sel_rows(s, p);
            let rest = sel_rows(s.drop_first(), p);
            if p(s[0]) {
                if i == 0 {
                    assert(r[i] == s[0]);
                } else {
                    assert(r[i] == rest[i - 1]);
                    assert(s.drop_first().contains(rest[i - 1]));
                    let j = choose|j: int|
                        0 <= j < s.drop_first().len() && s.drop_first()[j] == rest[i - 1];
                    assert(s[j + 1] == rest[i - 1]);
                }
            } else {
                assert(r[i] == rest[i]);
                assert(s.drop_first().contains(rest[i]));
                let j = choose|j: int|
                    0 <= j < s.drop_first().len() && s.drop_first()[j] == rest[i];
                assert(s[j + 1] == rest[i]);
            }
        }
    }
}

/// When every row passes the predicate, selection is the identity.
pub proof fn lemma_sel_all<T>(s: Seq<T>, p: spec_fn(T) -> bool)
    requires
        forall|i: int| 0 <= i < s.len() ==> p(#[trigger] s[i]),
    ensures
        sel_rows(s, p) == s,
    decreases s.len(),
{
    if s.len() == 0 {
        assert(sel_rows(s, p) =~= s);
    } else {
        assert(forall|i: int|
            0 <= i < s.drop_first().len() ==> p(#[trigger] s.drop_first()[i]));
        lemma_sel_all(s.drop_first(), p);
        assert(sel_rows(s, p) =~= s);
    }
}

/// Selecting with a conjunction equals selecting in two stages.
pub proof fn lemma_sel_compose<T>(
    s: Seq<T>,
    sel: spec_fn(T) -> bool,
    key: spec_fn(T) -> (i64, u64),
    after: Option<(i64, u64)>,
)
    ensures
        sel_rows(s, admit_fn(sel, key, after)) == sel_rows(sel_rows(s, sel), past_fn(key, after)),
    decreases s.len(),
{
    let p = admit_fn(sel, key, after);
    let q = past_fn(key, after);
    if s.len() == 0 {
        assert(sel_rows(s, p) =~= sel_rows(sel_rows(s, sel), q));
    } else {
        lemma_sel_compose(s.drop_first(), sel, key, after);
        if sel(s[0]) {
            assert(sel_rows(s, sel) == seq![s[0]] + sel_rows(s.drop_first(), sel));
            assert(sel_rows(s, sel).drop_first() =~= sel_rows(s.drop_first(), sel));
            assert(sel_rows(s, p) =~= sel_rows(sel_rows(s, sel), q));
        } else {
            assert(sel_rows(s, sel) =~= sel_rows(s.drop_first(), sel));
            assert(sel_rows(s, p) =~= sel_rows(sel_rows(s, sel), q));
        }
    }
}

/// Selection preserves sortedness.
pub proof fn lemma_sel_sorted<T>(s: Seq<T>, p: spec_fn(T) -> bool, key: spec_fn(T) -> (i64, u64))
    requires
        sorted_by_key(s, key),
    ensures
        sorted_by_key(sel_rows(s, p), key),
    decreases s.len(),
{
    if s.len() > 0 {
        let rest = s.drop_first();
        assert(sorted_by_key(rest, key)) by {
            assert(forall|i: int, j: int|
                0 <= i < j < rest.len() ==> key_lt(key(#[trigger] rest[i]), key(#[trigger] rest[j])))
                by {
                assert(forall|i: int| 0 <= i < rest.len() ==> #[trigger] rest[i] == s[i + 1]);
            }
        }
        lemma_sel_sorted(rest, p, key);
        lemma_sel_subset(rest, p);
        let r = sel_rows(s, p);
        let rr = sel_rows(rest, p);
        if p(s[0]) {
            assert(r == seq![s[0]] + rr);
            assert forall|i: int, j: int| 0 <= i < j < r.len() implies key_lt(
                key(#[trigger] r[i]),
                key(#[trigger] r[j]),
            ) by {
                if i == 0 {
                    assert(r[j] == rr[j - 1]);
                    assert(rest.contains(rr[j - 1]));
                    let w = choose|w: int| 0 <= w < rest.len() && rest[w] == rr[j - 1];
                    assert(s[w + 1] == rr[j - 1]);
                    assert(key_lt(key(s[0]), key(s[w + 1])));
                } else {
                    assert(r[i] == rr[i - 1] && r[j] == rr[j - 1]);
                }
            }
        } else {
            assert(r == rr);
        }
    }
}

/// The cut never exceeds the length.
pub proof fn lemma_cut_bounds<T>(s: Seq<T>, key: spec_fn(T) -> (i64, u64), k: (i64, u64))
    ensures
        0 <= spec_cut(s, key, k) <= s.len(),
    decreases s.len(),
{
    if s.len() > 0 {
        lemma_cut_bounds(s.drop_first(), key, k);
    }
}

/// On a sorted sequence, the cursor filter keeps exactly the suffix that
/// starts at the cut.
pub proof fn lemma_cursor_suffix<T>(s: Seq<T>, key: spec_fn(T) -> (i64, u64), after: Option<(i64, u64)>)
    requires
        sorted_by_key(s, key),
        after is Some,
    ensures
        sel_rows(s, past_fn(key, after)) == s.skip(spec_cut(s, key, after->0)),
    decreases s.len(),
{
    let p = past_fn(key, after);
    let k = after->0;
    lemma_cut_bounds(s, key, k);
    if s.len() == 0 {
        assert(sel_rows(s, p) =~= s.skip(0));
    } else {
        let rest = s.drop_first();
        assert(sorted_by_key(rest, key)) by {
            assert(forall|i: int| 0 <= i < rest.len() ==> #[trigger] rest[i] == s[i + 1]);
        }
        if key_lt(key(s[0]), k) {
            lemma_cursor_suffix(rest, key, after);
            lemma_cut_bounds(rest, key, k);
            assert(sel_rows(s, p) =~= rest.skip(spec_cut(rest, key, k)));
            assert(spec_cut(s, key, k) == 1 + spec_cut(rest, key, k));
            assert forall|i: int| 0 <= i < rest.len() implies #[trigger] rest[i] == s[i + 1] by {}
            assert(s.skip(spec_cut(s, key, k)) =~= rest.skip(spec_cut(rest, key, k)));
        } else {
            // every element is at or past the cursor: keys only grow
            assert(forall|i: int| 0 <= i < s.len() ==> !key_lt(key(#[trigger] s[i]), k)) by {
                assert(forall|i: int| 0 < i < s.len() ==> key_lt(key(s[0]), key(#[trigger] s[i])));
            }
            assert(forall|i: int| 0 <= i < s.len() ==> p(#[trigger] s[i]));
            lemma_sel_all(s, p);
            assert(spec_cut(s, key, k) == 0);
            assert(s.skip(0) =~= s);
        }
    }
}

/// On a sorted sequence the cursor taken from the row at position `c`
/// cuts exactly `c` rows: a page token made from the first unserved row
/// resumes exactly there, with no gap and no overlap.
pub proof fn lemma_cut_at_key<T>(s: Seq<T>, key: spec_fn(T) -> (i64, u64), c: int)
    requires
        sorted_by_key(s, key),
        0 <= c < s.len(),
    ensures
        spec_cut(s, key, key(s[c])) == c,
    decreases s.len(),
{
    let k = key(s[c]);
    if c == 0 {
        assert(!key_lt(key(s[0]), k));
    } else {
        let rest = s.drop_first();
        assert(sorted_by_key(rest, key)) by {
            assert(forall|i: int| 0 <= i < rest.len() ==> #[trigger] rest[i] == s[i + 1]);
        }
        assert(rest[c - 1] == s[c]);
        lemma_cut_at_key(rest, key, c - 1);
        assert(key_lt(key(s[0]), k));
    }
}

/// Insertion of a row into a sorted sequence, at its key's position.
pub open spec fn spec_insert_row<T>(s: Seq<T>, x: T, key: spec_fn(T) -> (i64, u64)) -> Seq<T>
    decreases s.len(),
{
    if s.len() == 0 {
        seq![x]
    } else if key_lt(key(x), key(s[0])) {
        seq![x] + s
    } else {
        seq![s[0]] + spec_insert_row(s.drop_first(), x, key)
    }
}

/// Where the scan of a sorted sequence stops, that is where the insertion
/// lands: the result is the two surrounding pieces with the row between.
pub proof fn lemma_insert_at<T>(s: Seq<T>, x: T, key: spec_fn(T) -> (i64, u64), i: int)
    requires
        0 <= i <= s.len(),
        forall|j: int| 0 <= j < i ==> !key_lt(key(x), key(#[trigger] s[j])),
        i < s.len() ==> key_lt(key(x), key(s[i])),
    ensures
        spec_insert_row(s, x, key) == s.subrange(0, i) + seq![x] + s.subrange(i, s.len() as int),
    decreases s.len(),
{
    if s.len() == 0 {
        assert(spec_insert_row(s, x, key) =~= s.subrange(0, i) + seq![x] + s.subrange(
            i,
            s.len() as int,
        ));
    } else if i == 0 {
        assert(spec_insert_row(s, x, key) =~= s.subrange(0, 0) + seq![x] + s.subrange(
            0,
            s.len() as int,
        ));
    } else {
        let rest = s.drop_first();
        assert(forall|j: int| 0 <= j < i - 1 ==> #[trigger] rest[j] == s[j + 1]);
        assert(i - 1 < rest.len() ==> key_lt(key(x), key(rest[i - 1])));
        lemma_insert_at(rest, x, key, i - 1);
        assert(spec_insert_row(s, x, key) == seq![s[0]] + spec_insert_row(rest, x, key));
        assert(spec_insert_row(s, x, key) =~= s.subrange(0, i) + seq![x] + s.subrange(
            i,
            s.len() as int,
        ));
    }
}

/// Clamping of a requested page size into the served range `[1, 100]`.
pub open spec fn clamp_page(n: i64) -> int {
    if n < 1 {
        1
    } else if n > 100 {
        100
    } else {
        n as int
    }
}

/// Clamps a requested page size into the served range.
pub fn clamp_page_exec(n: i64) -> (r: usize)
    ensures
        r == clamp_page(n),
        1 <= r <= 100,
{
    if n < 1 {
        1
    } else if n > 100 {
        100
    } else {
        n as usize
    }
}

/// Exec comparison of sort keys.
pub fn key_lt_exec(a_time: i64, a_id: u64, b_time: i64, b_id: u64) -> (r: bool)
    ensures
        r == key_lt((a_time, a_id), (b_time, b_id)),
{
    a_time < b_time || (a_time == b_time && a_id < b_id)
}

/// The first row of `s` satisfying `p`, if any.
pub open spec fn find_first<T>(s: Seq<T>, p: spec_fn(T) -> bool) -> Option<T>
    decreases s.len(),
{
    if s.len() == 0 {
        None
    } else if p(s[0]) {
        Some(s[0])
    } else {
        find_first(s.drop_first(), p)
    }
}

/// One step of a left-to-right scan, for selection.
pub proof fn lemma_sel_skip_step<T>(s: Seq<T>, p: spec_fn(T) -> bool, i: int)
    requires
        0 <= i < s.len(),
    ensures
        sel_rows(s.skip(i), p) == (if p(s[i]) {
            seq![s[i]]
        } else {
            Seq::<T>::empty()
        }) + sel_rows(s.skip(i + 1), p),
{
    assert(s.skip(i).len() > 0);
    assert(s.skip(i)[0] == s[i]);
    assert(s.skip(i).drop_first() =~= s.skip(i + 1));
}

/// One step of a left-to-right scan, for first-match search.
pub proof fn lemma_find_skip_step<T>(s: Seq<T>, p: spec_fn(T) -> bool, i: int)
    requires
        0 <= i < s.len(),
    ensures
        find_first(s.skip(i), p) == (if p(s[i]) {
            Some(s[i])
        } else {
            find_first(s.skip(i + 1), p)
        }),
{
    assert(s.skip(i).len() > 0);
    assert(s.skip(i)[0] == s[i]);
    assert(s.skip(i).drop_first() =~= s.skip(i + 1));
}

/// No two rows of `s` share the value of `f`.
pub open spec fn unique_by<T>(s: Seq<T>, f: spec_fn(T) -> u64) -> bool {
    forall|i: int, j: int| 0 <= i < j < s.len() ==> f(s[i]) != f(s[j])
}

/// Every row's `f` value lies below the bound.
pub open spec fn ids_below<T>(s: Seq<T>, f: spec_fn(T) -> u64, b: u64) -> bool {
    forall|i: int| 0 <= i < s.len() ==> f(#[trigger] s[i]) < b
}

/// Selection keeps per-row uniqueness.
pub proof fn lemma_sel_unique<T>(s: Seq<T>, p: spec_fn(T) -> bool, f: spec_fn(T) -> u64)
    requires
        unique_by(s, f),
    ensures
        unique_by(sel_rows(s, p), f),
    decreases s.len(),
{
    if s.len() > 0 {
        let rest = s.drop_first();
        assert(unique_by(rest, f)) by {
            assert(forall|i: int| 0 <= i < rest.len() ==> #[trigger] rest[i] == s[i + 1]);
        }
        lemma_sel_unique(rest, p, f);
        lemma_sel_subset(rest, p);
        let r = sel_rows(s, p);
        let rr = sel_rows(rest, p);
        if p(s[0]) {
            assert(r == seq![s[0]] + rr);
            assert forall|i: int, j: int| 0 <= i < j < r.len() implies f(r[i]) != f(r[j]) by {
                if i == 0 {
                    assert(r[j] == rr[j - 1]);
                    assert(rest.contains(rr[j - 1]));
                    let w = choose|w: int| 0 <= w < rest.len() && rest[w] == rr[j - 1];
                    assert(s[w + 1] == rr[j - 1]);
                    assert(f(s[0]) != f(s[w + 1]));
                } else {
                    assert(r[i] == rr[i - 1] && r[j] == rr[j - 1]);
                }
            }
        } else {
            assert(r == rr);
        }
    }
}

/// What a sorted insertion guarantees: the result is one row longer, still
/// sorted, still unique, and holds nothing but the old rows and the new one.
pub proof fn lemma_insert_row_props<T>(
    s: Seq<T>,
    x: T,
    key: spec_fn(T) -> (i64, u64),
    f: spec_fn(T) -> u64,
)
    requires
        sorted_by_key(s, key),
        unique_by(s, f),
        forall|i: int| 0 <= i < s.len() ==> f(#[trigger] s[i]) != f(x),
        forall|i: int| 0 <= i < s.len() ==> key(#[trigger] s[i]) != key(x),
    ensures
        sorted_by_key(spec_insert_row(s, x, key), key),
        unique_by(spec_insert_row(s, x, key), f),
        spec_insert_row(s, x, key).len() == s.len() + 1,
        forall|i: int|
            0 <= i < spec_insert_row(s, x, key).len() ==> (#[trigger] spec_insert_row(
                s,
                x,
                key,
            )[i] == x || s.contains(spec_insert_row(s, x, key)[i])),
        exists|i: int|
            0 <= i <= s.len() && spec_insert_row(s, x, key) == s.subrange(0, i) + seq![x]
                + s.subrange(i, s.len() as int),
    decreases s.len(),
{
    let r = spec_insert_row(s, x, key);
    if s.len() == 0 {
        assert(r == seq![x]);
        assert(r[0] == x);
        assert(r =~= s.subrange(0, 0) + seq![x] + s.subrange(0, s.len() as int));
    } else if key_lt(key(x), key(s[0])) {
        assert(r == seq![x] + s);
        assert(r =~= s.subrange(0, 0) + seq![x] + s.subrange(0, s.len() as int));
        assert forall|i: int, j: int| 0 <= i < j < r.len() implies key_lt(
            key(#[trigger] r[i]),
            key(#[trigger] r[j]),
        ) by {
            if i == 0 {
                assert(r[j] == s[j - 1]);
                if j > 1 {
                    assert(key_lt(key(s[0]), key(s[j - 1])));
                }
            } else {
                assert(r[i] == s[i - 1] && r[j] == s[j - 1]);
            }
        }
        assert forall|i: int, j: int| 0 <= i < j < r.len() implies f(r[i]) != f(r[j]) by {
            if i > 0 {
                assert(r[i] == s[i - 1] && r[j] == s[j - 1]);
            } else {
                assert(r[j] == s[j - 1]);
            }
        }
        assert(forall|i: int| 0 < i < r.len() ==> #[trigger] r[i] == s[i - 1]);
    } else {
        let rest = s.drop_first();
        assert(forall|i: int| 0 <= i < rest.len() ==> #[trigger] rest[i] == s[i + 1]);
        assert(sorted_by_key(rest, key));
        assert(unique_by(rest, f));
        lemma_insert_row_props(rest, x, key, f);
        let rr = spec_insert_row(rest, x, key);
        assert(r == seq![s[0]] + rr);
        // the head precedes the inserted row and everything behind it
        assert(key_lt(key(s[0]), key(x))) by {
            assert(key(s[0]) != key(x));
        }
        assert forall|i: int, j: int| 0 <= i < j < r.len() implies key_lt(
            key(#[trigger] r[i]),
            key(#[trigger] r[j]),
        ) by {
            if i == 0 {
                assert(r[j] == rr[j - 1]);
                if rr[j - 1] == x {
                } else {
                    assert(rest.contains(rr[j - 1]));
                    let w = choose|w: int| 0 <= w < rest.len() && rest[w] == rr[j - 1];
                    assert(key_lt(key(s[0]), key(s[w + 1])));
                }
            } else {
                assert(r[i] == rr[i - 1] && r[j] == rr[j - 1]);
            }
        }
        assert forall|i: int, j: int| 0 <= i < j < r.len() implies f(r[i]) != f(r[j]) by {
            if i == 0 {
                assert(r[j] == rr[j - 1]);
                if rr[j - 1] == x {
                    assert(f(s[0]) != f(x));
                } else {
                    assert(rest.contains(rr[j - 1]));
                    let w = choose|w: int| 0 <= w < rest.len() && rest[w] == rr[j - 1];
                    assert(f(s[0]) != f(s[w + 1]));
                }
            } else {
                assert(r[i] == rr[i - 1] && r[j] == rr[j - 1]);
            }
        }
        assert forall|i: int| 0 <= i < r.len() implies (#[trigger] r[i] == x || s.contains(
            r[i],
        )) by {
            if i == 0 {
                assert(s[0] == r[0]);
            } else {
                assert(r[i] == rr[i - 1]);
                if rr[i - 1] != x {
                    assert(rest.contains(rr[i - 1]));
                    let w = choose|w: int| 0 <= w < rest.len() && rest[w] == rr[i - 1];
                    assert(s[w + 1] == rr[i - 1]);
                }
            }
        }
        let iw = choose|i: int|
            0 <= i <= rest.len() && rr == rest.subrange(0, i) + seq![x] + rest.subrange(
                i,
                rest.len() as int,
            );
        assert(r =~= s.subrange(0, iw + 1) + seq![x] + s.subrange(iw + 1, s.len() as int)) by {
            assert(forall|j: int| 0 <= j < rest.len() ==> #[trigger] rest[j] == s[j + 1]);
        }
    }
}

/// Conjunction of two row predicates.
pub open spec fn both_sel<T>(p: spec_fn(T) -> bool, q: spec_fn(T) -> bool) -> spec_fn(T) -> bool {
    |x: T| p(x) && q(x)
}

/// Selecting in two stages equals selecting with the conjunction.
pub proof fn lemma_sel_both<T>(s: Seq<T>, p: spec_fn(T) -> bool, q: spec_fn(T) -> bool)
    ensures
        sel_rows(sel_rows(s, p), q) == sel_rows(s, both_sel(p, q)),
    decreases s.len(),
{
    let b = both_sel(p, q);
    if s.len() == 0 {
        assert(sel_rows(sel_rows(s, p), q) =~= sel_rows(s, b));
    } else {
        lemma_sel_both(s.drop_first(), p, q);
        if p(s[0]) {
            assert(sel_rows(s, p) == seq![s[0]] + sel_rows(s.drop_first(), p));
            assert(sel_rows(s, p).drop_first() =~= sel_rows(s.drop_first(), p));
            assert(sel_rows(sel_rows(s, p), q) =~= sel_rows(s, b));
        } else {
            assert(sel_rows(s, p) =~= sel_rows(s.drop_first(), p));
            assert(sel_rows(sel_rows(s, p), q) =~= sel_rows(s, b));
        }
    }
}

/// Predicates that agree on every row of `s` select the same rows.
pub proof fn lemma_sel_ext<T>(s: Seq<T>, p: spec_fn(T) -> bool, q: spec_fn(T) -> bool)
    requires
        forall|i: int| 0 <= i < s.len() ==> p(#[trigger] s[i]) == q(s[i]),
    ensures
        sel_rows(s, p) == sel_rows(s, q),
    decreases s.len(),
{
    if s.len() == 0 {
        assert(sel_rows(s, p) =~= sel_rows(s, q));
    } else {
        assert(forall|i: int|
            0 <= i < s.drop_first().len() ==> p(#[trigger] s.drop_first()[i]) == q(
                s.drop_first()[i],
            ));
        lemma_sel_ext(s.drop_first(), p, q);
        assert(sel_rows(s, p) =~= sel_rows(s, q));
    }
}

/// When no row passes the predicate, selection is empty.
pub proof fn lemma_sel_none<T>(s: Seq<T>, p: spec_fn(T) -> bool)
    requires
        forall|i: int| 0 <= i < s.len() ==> !p(#[trigger] s[i]),
    ensures
        sel_rows(s, p) == Seq::<T>::empty(),
    decreases s.len(),
{
    if s.len() == 0 {
        assert(sel_rows(s, p) =~= Seq::<T>::empty());
    } else {
        assert(forall|i: int|
            0 <= i < s.drop_first().len() ==> !p(#[trigger] s.drop_first()[i]));
        lemma_sel_none(s.drop_first(), p);
        assert(sel_rows(s, p) =~= Seq::<T>::empty());
    }
}

/// Selection over an appended row.
pub proof fn lemma_sel_push<T>(s: Seq<T>, x: T, p: spec_fn(T) -> bool)
    ensures
        sel_rows(s.push(x), p) == sel_rows(s, p) + (if p(x) {
            seq![x]
        } else {
            Seq::<T>::empty()
        }),
    decreases s.len(),
{
    if s.len() == 0 {
        assert(s.push(x).drop_first() =~= Seq::<T>::empty());
        assert(s.push(x)[0] == x);
        assert(sel_rows(s.push(x), p) == (if p(x) {
            seq![x]
        } else {
            Seq::<T>::empty()
        }) + sel_rows(Seq::<T>::empty(), p));
        assert(sel_rows(s.push(x), p) =~= sel_rows(s, p) + (if p(x) {
            seq![x]
        } else {
            Seq::<T>::empty()
        }));
    } else {
        assert(s.push(x).drop_first() =~= s.drop_first().push(x));
        assert(s.push(x)[0] == s[0]);
        lemma_sel_push(s.drop_first(), x, p);
        assert(sel_rows(s.push(x), p) == (if p(s[0]) {
            seq![s[0]]
        } else {
            Seq::<T>::empty()
        }) + sel_rows(s.drop_first().push(x), p));
        assert(sel_rows(s.push(x), p) =~= sel_rows(s, p) + (if p(x) {
            seq![x]
        } else {
            Seq::<T>::empty()
        }));
    }
}

/// First-match search over an appended row that is the only match.
pub proof fn lemma_find_push_fresh<T>(s: Seq<T>, x: T, p: spec_fn(T) -> bool)
    requires
        forall|i: int| 0 <= i < s.len() ==> !p(#[trigger] s[i]),
        p(x),
    ensures
        find_first(s.push(x), p) == Some(x),
    decreases s.len(),
{
    if s.len() == 0 {
        assert(s.push(x)[0] == x);
    } else {
        assert(s.push(x).drop_first() =~= s.drop_first().push(x));
        assert(forall|i: int|
            0 <= i < s.drop_first().len() ==> !p(#[trigger] s.drop_first()[i]));
        lemma_find_push_fresh(s.drop_first(), x, p);
        assert(!p(s.push(x)[0]));
    }
}

/// The rows served by repeatedly following the next cursor from position
/// `c` of the selected rows, with page size `n`, concatenated.
pub open spec fn spec_pages_from<T>(m: Seq<T>, c: int, n: int) -> Seq<T>
    decreases m.len() - c
        when 0 <= c <= m.len() && n >= 1
{
    if m.len() - c <= n {
        m.skip(c)
    } else {
        m.skip(c).take(n) + spec_pages_from(m, c + n, n)
    }
}

/// Pagination has no gaps and no duplicates: the pages concatenated by
/// following next cursors from position `c` are exactly the remaining
/// selected rows, in order, and the walk ends at the terminal page.
pub proof fn lemma_pages_cover<T>(m: Seq<T>, c: int, n: int)
    requires
        0 <= c <= m.len(),
        n >= 1,
    ensures
        spec_pages_from(m, c, n) == m.skip(c),
    decreases m.len() - c,
{
    if m.len() - c <= n {
    } else {
        lemma_pages_cover(m, c + n, n);
        assert(m.skip(c).take(n) + m.skip(c + n) =~= m.skip(c));
    }
}

/// One listing round, as the listing operations serve it: when a fetch of
/// `n + 1` rows comes back full, the served page is the first `n` of the
/// remaining selected rows and the cursor taken from the extra row
/// resumes exactly `n` rows later — the same cursor always reproduces the
/// same page over an unchanged table, and consecutive pages neither skip
/// nor repeat a row.
pub proof fn lemma_next_cursor_resumes<T>(
    s: Seq<T>,
    sel: spec_fn(T) -> bool,
    key: spec_fn(T) -> (i64, u64),
    after: Option<(i64, u64)>,
    n: int,
)
    requires
        sorted_by_key(s, key),
        n >= 1,
        spec_page(s, sel, key, after, n + 1).len() == n + 1,
    ensures
        ({
            let m = sel_rows(s, sel);
            let c = spec_start(m, key, after);
            let page = spec_page(s, sel, key, after, n + 1);
            &&& 0 <= c && c + n + 1 <= m.len()
            &&& page == m.skip(c).take(n + 1)
            &&& spec_start(m, key, Some(key(page[n]))) == c + n
            &&& spec_page(s, sel, key, after, n) == m.skip(c).take(n)
        }),
{
    let m = sel_rows(s, sel);
    let c = spec_start(m, key, after);
    let page = spec_page(s, sel, key, after, n + 1);
    lemma_sel_sorted(s, sel, key);
    match after {
        None => {},
        Some(k) => {
            lemma_cut_bounds(m, key, k);
        },
    }
    assert(page.len() == n + 1);
    assert(c + n + 1 <= m.len());
    assert(page[n] == m[c + n]);
    lemma_cut_at_key(m, key, c + n);
    assert(spec_cut(m, key, key(m[c + n])) == c + n);
}

/// Count and listing agree: over an unchanged table, the pages gathered
/// by following next cursors from the start are exactly the selected
/// rows, so their total number equals what the count operation reports.
pub proof fn lemma_pages_match_count<T>(
    s: Seq<T>,
    sel: spec_fn(T) -> bool,
    key: spec_fn(T) -> (i64, u64),
    n: int,
)
    requires
        sorted_by_key(s, key),
        n >= 1,
    ensures
        spec_pages_from(sel_rows(s, sel), 0, n) == sel_rows(s, sel),
        spec_pages_from(sel_rows(s, sel), 0, n).len() == sel_rows(s, sel).len(),
{
    lemma_pages_cover(sel_rows(s, sel), 0, n);
    assert(sel_rows(s, sel).skip(0) =~= sel_rows(s, sel));
}

} // verus!
