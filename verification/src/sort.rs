//! Sorting of display rows. A row pairs a key with the text shown beside
//! it, and tables sort ascending by key: flattened parameters by dotted
//! path, sources by source identifier, checkpoints by partition identifier.
//!
//! The sort is specified by spec-level insertion into a sorted sequence, so
//! the result of the executable sort is pinned exactly, and sorting twice
//! provably changes nothing.

use vstd::prelude::*;
use crate::order::{
    lemma_str_le_antisymmetric, lemma_str_le_connected, lemma_str_le_transitive, str_le,
    str_le_exec,
};

verus! {

/// The order of two display rows: by key, in display order of strings.
pub open spec fn row_le(a: (String, String), b: (String, String)) -> bool {
    str_le(a.0@, b.0@)
}

/// The rows of `s` are ascending by key.
pub open spec fn rows_sorted(s: Seq<(String, String)>) -> bool {
    forall|i: int, j: int| 0 <= i < j < s.len() ==> row_le(s[i], s[j])
}

/// `x` inserted in front of the first row of `s` that is not below it.
pub open spec fn insert_sorted(s: Seq<(String, String)>, x: (String, String)) -> Seq<
    (String, String),
>
    decreases s.len(),
{
    if s.len() == 0 {
        seq![x]
    } else if row_le(x, s.first()) {
        seq![x] + s
    } else {
        seq![s.first()] + insert_sorted(s.drop_first(), x)
    }
}

/// The rows of `s` sorted ascending by key: each row inserted, last row
/// first, into the sorted rest.
pub open spec fn sort_rows_spec(s: Seq<(String, String)>) -> Seq<(String, String)>
    decreases s.len(),
{
    if s.len() == 0 {
        Seq::empty()
    } else {
        insert_sorted(sort_rows_spec(s.drop_first()), s.first())
    }
}

/// The view of a display row: both strings as character sequences.
pub open spec fn row_view(r: (String, String)) -> (Seq<char>, Seq<char>) {
    (r.0@, r.1@)
}

/// The view of a sequence of display rows.
pub open spec fn rows_view(rows: Seq<(String, String)>) -> Seq<(Seq<char>, Seq<char>)> {
    rows.map_values(|r: (String, String)| row_view(r))
}

/// The order of two row views: by key, in display order of strings.
pub open spec fn vrow_le(a: (Seq<char>, Seq<char>), b: (Seq<char>, Seq<char>)) -> bool {
    str_le(a.0, b.0)
}

/// `x` inserted in front of the first row view of `s` that is not below
/// it.
pub open spec fn vinsert_sorted(
    s: Seq<(Seq<char>, Seq<char>)>,
    x: (Seq<char>, Seq<char>),
) -> Seq<(Seq<char>, Seq<char>)>
    decreases s.len(),
{
    if s.len() == 0 {
        seq![x]
    } else if vrow_le(x, s.first()) {
        seq![x] + s
    } else {
        seq![s.first()] + vinsert_sorted(s.drop_first(), x)
    }
}

/// The row views of `s` sorted ascending by key.
pub open spec fn vsort_spec(s: Seq<(Seq<char>, Seq<char>)>) -> Seq<(Seq<char>, Seq<char>)>
    decreases s.len(),
{
    if s.len() == 0 {
        Seq::empty()
    } else {
        vinsert_sorted(vsort_spec(s.drop_first()), s.first())
    }
}

/// Inserting commutes with taking views.
proof fn lemma_insert_view(s: Seq<(String, String)>, x: (String, String))
    ensures
        rows_view(insert_sorted(s, x)) == vinsert_sorted(rows_view(s), row_view(x)),
    decreases s.len(),
{
    if s.len() == 0 {
        assert(rows_view(insert_sorted(s, x)) =~= vinsert_sorted(rows_view(s), row_view(x)));
    } else if row_le(x, s.first()) {
        assert(rows_view(s).first() == row_view(s.first()));
        assert(rows_view(seq![x] + s) =~= seq![row_view(x)] + rows_view(s));
    } else {
        assert(rows_view(s).first() == row_view(s.first()));
        lemma_insert_view(s.drop_first(), x);
        assert(rows_view(s.drop_first()) =~= rows_view(s).drop_first());
        assert(rows_view(seq![s.first()] + insert_sorted(s.drop_first(), x)) =~= seq![
            row_view(s.first()),
        ] + rows_view(insert_sorted(s.drop_first(), x)));
    }
}

/// Sorting commutes with taking views: the sorted views are the views
/// sorted.
pub proof fn lemma_sort_view(s: Seq<(String, String)>)
    ensures
        rows_view(sort_rows_spec(s)) == vsort_spec(rows_view(s)),
    decreases s.len(),
{
    if s.len() == 0 {
        assert(rows_view(sort_rows_spec(s)) =~= vsort_spec(rows_view(s)));
    } else {
        lemma_sort_view(s.drop_first());
        assert(rows_view(s.drop_first()) =~= rows_view(s).drop_first());
        lemma_insert_view(sort_rows_spec(s.drop_first()), s.first());
        assert(rows_view(s).first() == row_view(s.first()));
    }
}

/// Prepending one row adds exactly that row to the multiset of rows.
proof fn lemma_prepend_multiset(s: Seq<(String, String)>, x: (String, String))
    ensures
        (seq![x] + s).to_multiset() == s.to_multiset().insert(x),
{
    broadcast use vstd::seq_lib::group_to_multiset_ensures;
    broadcast use vstd::multiset::group_multiset_axioms;

    vstd::seq_lib::lemma_multiset_commutative(seq![x], s);
    assert(Seq::<(String, String)>::empty().push(x).to_multiset()
        =~= Seq::<(String, String)>::empty().to_multiset().insert(x));
    assert(seq![x] =~= Seq::<(String, String)>::empty().push(x));
    assert(Seq::<(String, String)>::empty().to_multiset().len() == 0);
    vstd::multiset::lemma_multiset_empty_len(Seq::<(String, String)>::empty().to_multiset());
    assert((seq![x] + s).to_multiset() =~= s.to_multiset().insert(x));
}

/// Inserting into a sorted sequence keeps it sorted, adds exactly the new
/// row, and grows the length by one.
pub proof fn lemma_insert_sorted(s: Seq<(String, String)>, x: (String, String))
    requires
        rows_sorted(s),
    ensures
        rows_sorted(insert_sorted(s, x)),
        insert_sorted(s, x).to_multiset() == s.to_multiset().insert(x),
        insert_sorted(s, x).len() == s.len() + 1,
    decreases s.len(),
{
    broadcast use vstd::seq_lib::group_to_multiset_ensures;

    if s.len() == 0 {
        assert(seq![x].to_multiset() =~= s.to_multiset().insert(x));
    } else if row_le(x, s.first()) {
        let r = seq![x] + s;
        assert forall|i: int, j: int| 0 <= i < j < r.len() implies row_le(r[i], r[j]) by {
            if i == 0 {
                if j > 1 {
                    assert(row_le(s[0], s[j - 1]));
                    lemma_str_le_transitive(x.0@, s.first().0@, s[j - 1].0@);
                }
            } else {
                assert(row_le(s[i - 1], s[j - 1]));
            }
        }
        assert(r.drop_first() =~= s);
        lemma_prepend_multiset(s, x);
    } else {
        lemma_str_le_connected(x.0@, s.first().0@);
        assert(row_le(s.first(), x));
        assert forall|i: int, j: int| 0 <= i < j < s.drop_first().len() implies row_le(
            s.drop_first()[i],
            s.drop_first()[j],
        ) by {
            assert(row_le(s[i + 1], s[j + 1]));
        }
        lemma_insert_sorted(s.drop_first(), x);
        let rest = insert_sorted(s.drop_first(), x);
        let r = seq![s.first()] + rest;
        assert forall|i: int, j: int| 0 <= i < j < r.len() implies row_le(r[i], r[j]) by {
            if i == 0 {
                assert(rest.to_multiset().contains(r[j]));
                assert(rest.contains(r[j]));
                let k = choose|k: int| 0 <= k < rest.len() && rest[k] == r[j];
                if rest[k] == x {
                    assert(row_le(s.first(), x));
                } else {
                    assert(s.drop_first().to_multiset().contains(rest[k]));
                    assert(s.drop_first().contains(rest[k]));
                    let m = choose|m: int|
                        0 <= m < s.drop_first().len() && s.drop_first()[m] == rest[k];
                    assert(row_le(s[0], s[m + 1]));
                }
            } else {
                assert(row_le(rest[i - 1], rest[j - 1]));
            }
        }
        assert(r.drop_first() =~= rest);
        assert(r.to_multiset() =~= s.to_multiset().insert(x)) by {
            broadcast use vstd::multiset::group_multiset_axioms;

            assert(rest.to_multiset() == s.drop_first().to_multiset().insert(x));
            assert(s =~= seq![s.first()] + s.drop_first());
            lemma_prepend_multiset(s.drop_first(), s.first());
            lemma_prepend_multiset(rest, s.first());
            assert(r.to_multiset() == rest.to_multiset().insert(s.first()));
        }
    }
}

/// The sorted rows are sorted, are the same rows, and are as many.
pub proof fn lemma_sort_rows_spec(s: Seq<(String, String)>)
    ensures
        rows_sorted(sort_rows_spec(s)),
        sort_rows_spec(s).to_multiset() == s.to_multiset(),
        sort_rows_spec(s).len() == s.len(),
    decreases s.len(),
{
    broadcast use vstd::seq_lib::group_to_multiset_ensures;

    if s.len() > 0 {
        lemma_sort_rows_spec(s.drop_first());
        lemma_insert_sorted(sort_rows_spec(s.drop_first()), s.first());
        assert(s =~= seq![s.first()] + s.drop_first());
        lemma_prepend_multiset(s.drop_first(), s.first());
        assert(s.to_multiset() == s.drop_first().to_multiset().insert(s.first()));
    }
}

/// Sorting a sequence that is already sorted gives it back unchanged.
pub proof fn lemma_sort_sorted_identity(s: Seq<(String, String)>)
    requires
        rows_sorted(s),
    ensures
        sort_rows_spec(s) == s,
    decreases s.len(),
{
    if s.len() > 0 {
        assert forall|i: int, j: int| 0 <= i < j < s.drop_first().len() implies row_le(
            s.drop_first()[i],
            s.drop_first()[j],
        ) by {
            assert(row_le(s[i + 1], s[j + 1]));
        }
        lemma_sort_sorted_identity(s.drop_first());
        if s.len() == 1 {
            assert(sort_rows_spec(s) =~= s);
        } else {
            assert(row_le(s[0], s[1]));
            assert(sort_rows_spec(s.drop_first()).first() == s[1]);
            assert(insert_sorted(s.drop_first(), s.first()) =~= seq![s.first()] + s.drop_first());
            assert(seq![s.first()] + s.drop_first() =~= s);
        }
    }
}

/// Sorting is idempotent: sorting the sorted rows changes nothing, so the
/// sorted order of the flattened paths is a fixed point.
pub proof fn lemma_sort_idempotent(s: Seq<(String, String)>)
    ensures
        sort_rows_spec(sort_rows_spec(s)) == sort_rows_spec(s),
{
    lemma_sort_rows_spec(s);
    lemma_sort_sorted_identity(sort_rows_spec(s));
}

/// No two rows share a key.
pub open spec fn distinct_keys(s: Seq<(String, String)>) -> bool {
    forall|i: int, j: int| 0 <= i < j < s.len() ==> s[i].0@ != s[j].0@
}

/// Inserting a row whose key no row of a sorted sequence carries keeps the
/// keys distinct.
proof fn lemma_insert_sorted_distinct(s: Seq<(String, String)>, x: (String, String))
    requires
        rows_sorted(s),
        distinct_keys(s),
        forall|i: int| 0 <= i < s.len() ==> s[i].0@ != x.0@,
    ensures
        distinct_keys(insert_sorted(s, x)),
    decreases s.len(),
{
    broadcast use vstd::seq_lib::group_to_multiset_ensures;

    if s.len() == 0 {
    } else if row_le(x, s.first()) {
        let r = seq![x] + s;
        assert forall|i: int, j: int| 0 <= i < j < r.len() implies r[i].0@ != r[j].0@ by {
            if i == 0 {
                assert(r[j] == s[j - 1]);
            } else {
                assert(r[i] == s[i - 1] && r[j] == s[j - 1]);
            }
        }
    } else {
        assert forall|i: int, j: int| 0 <= i < j < s.drop_first().len() implies row_le(
            s.drop_first()[i],
            s.drop_first()[j],
        ) by {
            assert(row_le(s[i + 1], s[j + 1]));
        }
        assert forall|i: int, j: int| 0 <= i < j < s.drop_first().len() implies s.drop_first()[i].0@
            != s.drop_first()[j].0@ by {
            assert(s[i + 1].0@ != s[j + 1].0@);
        }
        assert forall|i: int| 0 <= i < s.drop_first().len() implies s.drop_first()[i].0@ != x.0@ by {
            assert(s[i + 1].0@ != x.0@);
        }
        lemma_insert_sorted_distinct(s.drop_first(), x);
        lemma_insert_sorted(s.drop_first(), x);
        let rest = insert_sorted(s.drop_first(), x);
        let r = seq![s.first()] + rest;
        assert forall|i: int, j: int| 0 <= i < j < r.len() implies r[i].0@ != r[j].0@ by {
            if i == 0 {
                assert(rest.to_multiset().contains(r[j]));
                assert(rest.contains(r[j]));
                let k = choose|k: int| 0 <= k < rest.len() && rest[k] == r[j];
                if rest[k] == x {
                    assert(s[0].0@ != x.0@);
                } else {
                    assert(s.drop_first().to_multiset().contains(rest[k]));
                    assert(s.drop_first().contains(rest[k]));
                    let m = choose|m: int|
                        0 <= m < s.drop_first().len() && s.drop_first()[m] == rest[k];
                    assert(s[0].0@ != s[m + 1].0@);
                }
            } else {
                assert(rest[i - 1].0@ != rest[j - 1].0@);
            }
        }
    }
}

/// Sorting keeps the keys distinct.
pub proof fn lemma_sort_distinct(s: Seq<(String, String)>)
    requires
        distinct_keys(s),
    ensures
        distinct_keys(sort_rows_spec(s)),
    decreases s.len(),
{
    broadcast use vstd::seq_lib::group_to_multiset_ensures;

    if s.len() > 0 {
        assert forall|i: int, j: int| 0 <= i < j < s.drop_first().len() implies s.drop_first()[i].0@
            != s.drop_first()[j].0@ by {
            assert(s[i + 1].0@ != s[j + 1].0@);
        }
        lemma_sort_distinct(s.drop_first());
        lemma_sort_rows_spec(s.drop_first());
        let sorted_rest = sort_rows_spec(s.drop_first());
        assert forall|i: int| 0 <= i < sorted_rest.len() implies sorted_rest[i].0@
            != s.first().0@ by {
            assert(sorted_rest.contains(sorted_rest[i]));
            assert(sorted_rest.to_multiset().count(sorted_rest[i]) > 0);
            assert(s.drop_first().to_multiset().count(sorted_rest[i]) > 0);
            assert(s.drop_first().contains(sorted_rest[i]));
            let k = choose|k: int|
                0 <= k < s.drop_first().len() && s.drop_first()[k] == sorted_rest[i];
            assert(s[k + 1] == sorted_rest[i]);
            assert(s[0].0@ != s[k + 1].0@);
        }
        lemma_insert_sorted_distinct(sorted_rest, s.first());
    }
}

/// Two sorted row sequences that hold the same rows, with pairwise
/// distinct keys, are the same sequence: the sorted order of such rows is
/// unique, whatever order they arrived in.
pub proof fn lemma_sorted_unique(x: Seq<(String, String)>, y: Seq<(String, String)>)
    requires
        rows_sorted(x),
        rows_sorted(y),
        distinct_keys(x),
        x.to_multiset() == y.to_multiset(),
    ensures
        x == y,
    decreases x.len(),
{
    broadcast use vstd::seq_lib::group_to_multiset_ensures;

    if x.len() == 0 {
        assert(x.to_multiset().len() == 0);
        assert(y.to_multiset().len() == y.len());
        assert(x =~= y);
    } else {
        assert(x.to_multiset().len() == x.len());
        assert(y.to_multiset().len() == y.len());
        assert(y.contains(y[0]));
        assert(y.to_multiset().count(y[0]) > 0);
        assert(x.to_multiset().count(y[0]) > 0);
        assert(x.contains(y[0]));
        let k = choose|k: int| 0 <= k < x.len() && x[k] == y[0];
        assert(x.contains(x[0]));
        assert(x.to_multiset().count(x[0]) > 0);
        assert(y.to_multiset().count(x[0]) > 0);
        assert(y.contains(x[0]));
        let m = choose|m: int| 0 <= m < y.len() && y[m] == x[0];
        if k > 0 {
            assert(row_le(x[0], x[k]));
            if m == 0 {
                assert(x[0].0@ == x[k].0@);
                assert(false);
            } else {
                assert(row_le(y[0], y[m]));
                lemma_str_le_antisymmetric(x[0].0@, y[0].0@);
                assert(x[0].0@ == x[k].0@);
                assert(false);
            }
        }
        assert(x[0] == y[0]);
        assert(x.remove(0) =~= x.drop_first());
        assert(y.remove(0) =~= y.drop_first());
        assert(x.remove(0).to_multiset() =~= x.to_multiset().remove(x[0]));
        assert(y.remove(0).to_multiset() =~= y.to_multiset().remove(y[0]));
        assert(x.drop_first().to_multiset() == y.drop_first().to_multiset());
        assert forall|i: int, j: int| 0 <= i < j < x.drop_first().len() implies row_le(
            x.drop_first()[i],
            x.drop_first()[j],
        ) by {
            assert(row_le(x[i + 1], x[j + 1]));
        }
        assert forall|i: int, j: int| 0 <= i < j < y.drop_first().len() implies row_le(
            y.drop_first()[i],
            y.drop_first()[j],
        ) by {
            assert(row_le(y[i + 1], y[j + 1]));
        }
        assert forall|i: int, j: int| 0 <= i < j < x.drop_first().len() implies x.drop_first()[i].0@
            != x.drop_first()[j].0@ by {
            assert(x[i + 1].0@ != x[j + 1].0@);
        }
        lemma_sorted_unique(x.drop_first(), y.drop_first());
        assert forall|i: int| 0 <= i < x.len() implies x[i] == y[i] by {
            if i > 0 {
                assert(x.drop_first()[i - 1] == y.drop_first()[i - 1]);
            }
        }
        assert(x =~= y);
    }
}

/// Where the scan of the executable insertion stops, the spec insertion
/// splits the sequence.
proof fn lemma_insert_sorted_at(s: Seq<(String, String)>, x: (String, String), k: int)
    requires
        0 <= k <= s.len(),
        forall|j: int| 0 <= j < k ==> !row_le(x, s[j]),
        k < s.len() ==> row_le(x, s[k]),
    ensures
        insert_sorted(s, x) == s.subrange(0, k) + seq![x] + s.skip(k),
    decreases k,
{
    if k == 0 {
        assert(insert_sorted(s, x) =~= s.subrange(0, 0) + seq![x] + s.skip(0));
    } else {
        assert(!row_le(x, s[0]));
        assert forall|j: int| 0 <= j < k - 1 implies !row_le(x, s.drop_first()[j]) by {
            assert(s.drop_first()[j] == s[j + 1]);
        }
        assert(k - 1 < s.drop_first().len() ==> row_le(x, s.drop_first()[k - 1]));
        lemma_insert_sorted_at(s.drop_first(), x, k - 1);
        assert(insert_sorted(s, x) =~= s.subrange(0, k) + seq![x] + s.skip(k)) by {
            assert(s.drop_first().subrange(0, k - 1) =~= s.subrange(1, k));
            assert(s.drop_first().skip(k - 1) =~= s.skip(k));
            assert(seq![s.first()] + (s.subrange(1, k) + seq![x] + s.skip(k)) =~= s.subrange(0, k)
                + seq![x] + s.skip(k));
        }
    }
}

/// Inserts a row in front of the first row whose key is not below it.
fn insert_row(out: &mut Vec<(String, String)>, x: (String, String))
    ensures
        final(out)@ == insert_sorted(old(out)@, x),
{
    let mut k: usize = 0;
    while k < out.len()
        invariant
            0 <= k <= out@.len(),
            forall|j: int| 0 <= j < k ==> !row_le(x, out@[j]),
            out@ == old(out)@,
        decreases out@.len() - k,
    {
        if str_le_exec(x.0.as_str(), out[k].0.as_str()) {
            proof {
                lemma_insert_sorted_at(out@, x, k as int);
            }
            out.insert(k, x);
            proof {
                assert(out@ =~= old(out)@.subrange(0, k as int) + seq![x] + old(out)@.skip(
                    k as int,
                ));
            }
            return ;
        }
        k = k + 1;
    }
    proof {
        lemma_insert_sorted_at(out@, x, out@.len() as int);
    }
    out.push(x);
    proof {
        assert(out@ =~= old(out)@.subrange(0, old(out)@.len() as int) + seq![x] + old(out)@.skip(
            old(out)@.len() as int,
        ));
    }
}

/// Sorts display rows ascending by key. The result is exactly the
/// spec-level sort, hence sorted, a permutation of the input, and a fixed
/// point of further sorting.
pub fn sort_rows(rows: Vec<(String, String)>) -> (r: Vec<(String, String)>)
    ensures
        r@ == sort_rows_spec(rows@),
        rows_sorted(r@),
        r@.to_multiset() == rows@.to_multiset(),
        r@.len() == rows@.len(),
{
    let ghost original = rows@;
    let mut input = rows;
    let mut out: Vec<(String, String)> = Vec::new();
    proof {
        assert(original.skip(original.len() as int) =~= Seq::<(String, String)>::empty());
    }
    while input.len() > 0
        invariant
            input@.len() <= original.len(),
            input@ == original.subrange(0, input@.len() as int),
            out@ == sort_rows_spec(original.skip(input@.len() as int)),
        decreases input@.len(),
    {
        let ghost n = input@.len() as int;
        let x = input.pop().unwrap();
        proof {
            assert(input@ =~= original.subrange(0, n - 1));
            assert(original.skip(n - 1).first() == original[n - 1]);
            assert(x == original[n - 1]);
            assert(original.skip(n - 1).drop_first() =~= original.skip(n));
        }
        insert_row(&mut out, x);
    }
    proof {
        assert(original.skip(0) =~= original);
        lemma_sort_rows_spec(original);
    }
    out
}

} // verus!
