//! A tree-shaped JSON configuration value and its flattening into
//! dotted-path rows.
//!
//! A value is either an object (an ordered list of key/value members) or a
//! leaf. A leaf carries the textual rendering of a scalar or array JSON
//! value: the flattener never looks inside a leaf, so arrays are not
//! expanded element by element.

use vstd::prelude::*;
use vstd::string::StringExecFns;

verus! {

/// A tree-shaped configuration value: an object with ordered members, or a
/// leaf holding the rendered text of a scalar or array.
#[derive(Debug, PartialEq, Eq)]
pub enum JsonValue {
    Object(Vec<(String, JsonValue)>),
    Leaf(String),
}

/// The dotted path of a member: the key alone when the prefix is empty,
/// otherwise the prefix, a dot, and the key.
pub open spec fn extend_path(prefix: Seq<char>, key: Seq<char>) -> Seq<char> {
    if prefix.len() == 0 {
        key
    } else {
        prefix + seq!['.'] + key
    }
}

/// The flattening of `v` under the accumulated path `prefix`: one entry per
/// leaf of the tree. Members of an object are expanded last member first,
/// matching a work list that pushes members in order and pops the most
/// recently pushed one.
pub open spec fn flatten_spec(prefix: Seq<char>, v: JsonValue) -> Seq<(Seq<char>, JsonValue)>
    decreases v,
{
    match v {
        JsonValue::Leaf(_) => seq![(prefix, v)],
        JsonValue::Object(members) => flatten_members(prefix, members@),
    }
}

/// The flattening of the members `ms` of an object whose own path is
/// `prefix`, last member first.
pub open spec fn flatten_members(prefix: Seq<char>, ms: Seq<(String, JsonValue)>) -> Seq<
    (Seq<char>, JsonValue),
>
    decreases ms,
{
    if ms.len() == 0 {
        Seq::empty()
    } else {
        flatten_spec(extend_path(prefix, ms.last().0@), ms.last().1) + flatten_members(
            prefix,
            ms.drop_last(),
        )
    }
}

/// The view of a flattened entry: the path as a character sequence, the
/// leaf unchanged.
pub open spec fn entry_view(e: (String, JsonValue)) -> (Seq<char>, JsonValue) {
    (e.0@, e.1)
}

/// The view of a vector of flattened entries.
pub open spec fn entries_view(s: Seq<(String, JsonValue)>) -> Seq<(Seq<char>, JsonValue)> {
    s.map_values(|e: (String, JsonValue)| entry_view(e))
}

/// The work still to be done by the flattening loop: the entries that the
/// items of `ws` will contribute, most recently pushed item first.
pub open spec fn work_entries(ws: Seq<(String, JsonValue)>) -> Seq<(Seq<char>, JsonValue)>
    decreases ws.len(),
{
    if ws.len() == 0 {
        Seq::empty()
    } else {
        flatten_spec(ws.last().0@, ws.last().1) + work_entries(ws.drop_last())
    }
}

/// Converts a nested value into a flat list of (dotted path, leaf) pairs by
/// a depth-first walk over an explicit work list. An object contributes one
/// work item per member; anything else is a leaf and is appended to the
/// accumulator together with its accumulated path.
pub fn flatten_json(value: JsonValue) -> (r: Vec<(String, JsonValue)>)
    ensures
        entries_view(r@) == flatten_spec(Seq::<char>::empty(), value),
{
    let ghost original = value;
    let mut acc: Vec<(String, JsonValue)> = Vec::new();
    let mut work: Vec<(String, JsonValue)> = Vec::new();
    let empty_path = String::new();
    work.push((empty_path, value));
    proof {
        assert(work@.drop_last() =~= Seq::<(String, JsonValue)>::empty());
        assert(work_entries(work@.drop_last()) =~= Seq::<(Seq<char>, JsonValue)>::empty());
        assert(work@.last().0@ =~= Seq::<char>::empty());
        assert(work_entries(work@) == flatten_spec(work@.last().0@, original) + work_entries(
            work@.drop_last(),
        ));
        assert(entries_view(acc@) =~= Seq::<(Seq<char>, JsonValue)>::empty());
        assert(entries_view(acc@) + work_entries(work@) =~= flatten_spec(
            Seq::<char>::empty(),
            original,
        ));
    }
    while work.len() > 0
        invariant
            entries_view(acc@) + work_entries(work@) == flatten_spec(
                Seq::<char>::empty(),
                original,
            ),
        decreases work_size(work@),
    {
        let ghost work_before = work@;
        proof {
            lemma_work_size_last(work_before);
        }
        let (root, v) = work.pop().unwrap();
        proof {
            assert(work@ =~= work_before.drop_last());
            assert(work_before.last() == (root, v));
            assert(work_entries(work_before) == flatten_spec(root@, v) + work_entries(work@));
        }
        match v {
            JsonValue::Leaf(text) => {
                let ghost acc0 = acc@;
                acc.push((root, JsonValue::Leaf(text)));
                proof {
                    assert(flatten_spec(root@, JsonValue::Leaf(text)) =~= seq![
                        (root@, JsonValue::Leaf(text)),
                    ]);
                    assert(entries_view(acc@) =~= entries_view(acc0) + seq![
                        (root@, JsonValue::Leaf(text)),
                    ]);
                    assert(entries_view(acc@) + work_entries(work@) =~= entries_view(acc0)
                        + work_entries(work_before));
                }
            },
            JsonValue::Object(mut members) => {
                let ghost members0 = members@;
                let ghost work1 = work@;
                proof {
                    assert(members0.skip(0) =~= members0);
                    assert(flatten_members_partial(root@, members0, 0) + work_entries(work1)
                        =~= work_entries(work1));
                }
                while members.len() > 0
                    invariant
                        members@.len() <= members0.len(),
                        members@ =~= members0.skip(members0.len() - members@.len()),
                        work_entries(work@) == flatten_members_partial(
                            root@,
                            members0,
                            members0.len() - members@.len(),
                        ) + work_entries(work1),
                        work_size(work@) + size_members(members@) == work_size(work1)
                            + size_members(members0),
                    decreases members@.len(),
                {
                    let ghost k = members0.len() - members@.len();
                    let ghost worka = work@;
                    let (key, child) = members.remove(0);
                    proof {
                        assert(0 <= k < members0.len());
                        assert(members0.skip(k)[0] == (key, child));
                        assert(members0[k] == (key, child));
                    }
                    let path: String;
                    if root.as_str().is_empty() {
                        path = key;
                    } else {
                        let mut p = root.clone();
                        p.append(".");
                        p.append(key.as_str());
                        proof {
                            reveal_strlit(".");
                            assert("."@ =~= seq!['.']);
                            assert(p@ =~= extend_path(root@, key@));
                        }
                        path = p;
                    }
                    proof {
                        assert(path@ =~= extend_path(root@, key@));
                    }
                    work.push((path, child));
                    proof {
                        assert(work@.drop_last() =~= worka);
                        assert(work@.last() == (path, child));
                        assert(work_entries(work@) == flatten_spec(path@, child) + work_entries(
                            worka,
                        ));
                        assert(flatten_members_partial(root@, members0, k + 1)
                            =~= flatten_spec(extend_path(root@, members0[k].0@), members0[k].1)
                            + flatten_members_partial(root@, members0, k));
                        assert(members@ =~= members0.skip(k + 1));
                        lemma_size_members_skip(members0, k);
                    }
                }
                proof {
                    lemma_flatten_members_partial_full(root@, members0);
                    assert(members0.len() - members@.len() == members0.len() as int);
                    assert(work_entries(work@) == flatten_members(root@, members0) + work_entries(
                        work1,
                    ));
                    assert(flatten_spec(root@, v) == flatten_members(root@, members0));
                    assert(entries_view(acc@) + work_entries(work@) =~= entries_view(acc@)
                        + work_entries(work_before));
                }
            },
        }
    }
    proof {
        assert(work_entries(work@) =~= Seq::<(Seq<char>, JsonValue)>::empty());
        assert(entries_view(acc@) =~= entries_view(acc@) + work_entries(work@));
    }
    acc
}

/// The flattening of the first `k` members of `ms` under `prefix`, entries
/// of later members first.
pub open spec fn flatten_members_partial(
    prefix: Seq<char>,
    ms: Seq<(String, JsonValue)>,
    k: int,
) -> Seq<(Seq<char>, JsonValue)>
    decreases k,
{
    if k <= 0 {
        Seq::empty()
    } else {
        flatten_spec(extend_path(prefix, ms[k - 1].0@), ms[k - 1].1) + flatten_members_partial(
            prefix,
            ms,
            k - 1,
        )
    }
}

/// Flattening all members of an object agrees with the partial form taken
/// to the full length.
proof fn lemma_flatten_members_partial_full(prefix: Seq<char>, ms: Seq<(String, JsonValue)>)
    ensures
        flatten_members_partial(prefix, ms, ms.len() as int) == flatten_members(prefix, ms),
    decreases ms.len(),
{
    if ms.len() > 0 {
        lemma_flatten_members_partial_full(prefix, ms.drop_last());
        assert forall|k: int| 0 <= k <= ms.drop_last().len() implies flatten_members_partial(
            prefix,
            ms.drop_last(),
            k,
        ) == flatten_members_partial(prefix, ms, k) by {
            lemma_flatten_members_partial_prefix(prefix, ms, k);
        }
        assert(flatten_members_partial(prefix, ms, ms.len() as int) =~= flatten_spec(
            extend_path(prefix, ms.last().0@),
            ms.last().1,
        ) + flatten_members_partial(prefix, ms, ms.len() - 1));
    }
}

/// The partial flattening of `ms` up to `k` reads only the first `k`
/// members, so dropping the last member does not change it.
proof fn lemma_flatten_members_partial_prefix(
    prefix: Seq<char>,
    ms: Seq<(String, JsonValue)>,
    k: int,
)
    requires
        0 <= k <= ms.len() - 1,
    ensures
        flatten_members_partial(prefix, ms.drop_last(), k) == flatten_members_partial(
            prefix,
            ms,
            k,
        ),
    decreases k,
{
    if k > 0 {
        lemma_flatten_members_partial_prefix(prefix, ms, k - 1);
        assert(ms.drop_last()[k - 1] == ms[k - 1]);
    }
}

/// Every entry of a flattening is a leaf: objects only ever contribute
/// their members.
pub proof fn lemma_flatten_all_leaves(prefix: Seq<char>, v: JsonValue)
    ensures
        forall|k: int|
            0 <= k < flatten_spec(prefix, v).len() ==> flatten_spec(prefix, v)[k].1 is Leaf,
    decreases v,
{
    match v {
        JsonValue::Leaf(_) => {},
        JsonValue::Object(members) => {
            lemma_flatten_members_all_leaves(prefix, members@);
        },
    }
}

/// Every entry contributed by a list of members is a leaf.
proof fn lemma_flatten_members_all_leaves(prefix: Seq<char>, ms: Seq<(String, JsonValue)>)
    ensures
        forall|k: int|
            0 <= k < flatten_members(prefix, ms).len() ==> flatten_members(prefix, ms)[k].1
                is Leaf,
    decreases ms,
{
    if ms.len() > 0 {
        lemma_flatten_all_leaves(extend_path(prefix, ms.last().0@), ms.last().1);
        lemma_flatten_members_all_leaves(prefix, ms.drop_last());
        let head = flatten_spec(extend_path(prefix, ms.last().0@), ms.last().1);
        let tail = flatten_members(prefix, ms.drop_last());
        assert forall|k: int| 0 <= k < flatten_members(prefix, ms).len() implies flatten_members(
            prefix,
            ms,
        )[k].1 is Leaf by {
            if k < head.len() {
                assert(flatten_members(prefix, ms)[k] == head[k]);
            } else {
                assert(flatten_members(prefix, ms)[k] == tail[k - head.len()]);
            }
        }
    }
}

/// An object without members flattens to nothing: it contributes no leaf.
pub proof fn lemma_flatten_empty_object(prefix: Seq<char>, v: JsonValue)
    requires
        v matches JsonValue::Object(ms) && ms@.len() == 0,
    ensures
        flatten_spec(prefix, v).len() == 0,
{
}

/// A value that is not an object flattens to exactly one entry, carrying
/// the accumulated path unchanged.
pub proof fn lemma_flatten_leaf(prefix: Seq<char>, v: JsonValue)
    requires
        v is Leaf,
    ensures
        flatten_spec(prefix, v) == seq![(prefix, v)],
{
}

/// The number of leaves of a value.
pub open spec fn leaf_count(v: JsonValue) -> nat
    decreases v,
{
    match v {
        JsonValue::Leaf(_) => 1,
        JsonValue::Object(members) => leaf_count_members(members@),
    }
}

/// The number of leaves under a list of members.
pub open spec fn leaf_count_members(ms: Seq<(String, JsonValue)>) -> nat
    decreases ms,
{
    if ms.len() == 0 {
        0
    } else {
        leaf_count(ms.last().1) + leaf_count_members(ms.drop_last())
    }
}

/// A flattening holds exactly one entry per leaf of the value.
pub proof fn lemma_flatten_one_entry_per_leaf(prefix: Seq<char>, v: JsonValue)
    ensures
        flatten_spec(prefix, v).len() == leaf_count(v),
    decreases v,
{
    match v {
        JsonValue::Leaf(_) => {},
        JsonValue::Object(members) => {
            lemma_flatten_members_count(prefix, members@);
        },
    }
}

/// The members of an object contribute one entry per leaf under them.
proof fn lemma_flatten_members_count(prefix: Seq<char>, ms: Seq<(String, JsonValue)>)
    ensures
        flatten_members(prefix, ms).len() == leaf_count_members(ms),
    decreases ms,
{
    if ms.len() > 0 {
        lemma_flatten_one_entry_per_leaf(extend_path(prefix, ms.last().0@), ms.last().1);
        lemma_flatten_members_count(prefix, ms.drop_last());
    }
}

/// The keys `keys` lead from `v` down to the leaf `leaf`.
pub open spec fn resolves_to(v: JsonValue, keys: Seq<Seq<char>>, leaf: JsonValue) -> bool
    decreases keys.len(), 1int,
{
    if keys.len() == 0 {
        v == leaf && v is Leaf
    } else {
        match v {
            JsonValue::Leaf(_) => false,
            JsonValue::Object(members) => resolves_in(members@, keys, leaf),
        }
    }
}

/// Some member named `keys.first()` leads down to the leaf `leaf` along
/// the remaining keys.
pub open spec fn resolves_in(
    ms: Seq<(String, JsonValue)>,
    keys: Seq<Seq<char>>,
    leaf: JsonValue,
) -> bool
    decreases keys.len(), 0int,
{
    keys.len() > 0 && exists|i: int|
        0 <= i < ms.len() && ms[i].0@ == keys.first() && resolves_to(
            ms[i].1,
            keys.drop_first(),
            leaf,
        )
}

/// The keys joined onto an accumulated path, one dot before each key, no
/// dot after an empty starting path.
pub open spec fn dot_joined(prefix: Seq<char>, keys: Seq<Seq<char>>) -> Seq<char>
    decreases keys.len(),
{
    if keys.len() == 0 {
        prefix
    } else {
        dot_joined(extend_path(prefix, keys.first()), keys.drop_first())
    }
}

/// The entry `e` is accounted for: its path dot-joins keys that lead from
/// `v` down to exactly its leaf.
pub open spec fn entry_resolves(prefix: Seq<char>, v: JsonValue, e: (Seq<char>, JsonValue)) -> bool {
    exists|keys: Seq<Seq<char>>|
        #![auto]
        dot_joined(prefix, keys) == e.0 && resolves_to(v, keys, e.1)
}

/// The entry `e` is accounted for by one of the members `ms`: its path
/// dot-joins keys whose first names that member.
pub open spec fn entry_resolves_in(
    prefix: Seq<char>,
    ms: Seq<(String, JsonValue)>,
    e: (Seq<char>, JsonValue),
) -> bool {
    exists|keys: Seq<Seq<char>>|
        #![auto]
        dot_joined(prefix, keys) == e.0 && keys.len() > 0 && resolves_in(ms, keys, e.1)
}

/// Every entry's path is the dot-joining of keys that lead from the value
/// down to exactly that entry's leaf.
pub proof fn lemma_flatten_paths_resolve(prefix: Seq<char>, v: JsonValue)
    ensures
        forall|k: int|
            0 <= k < flatten_spec(prefix, v).len() ==> #[trigger] entry_resolves(
                prefix,
                v,
                flatten_spec(prefix, v)[k],
            ),
    decreases v, 0int,
{
    match v {
        JsonValue::Leaf(_) => {
            assert forall|k: int| 0 <= k < flatten_spec(prefix, v).len() implies #[trigger]
            entry_resolves(prefix, v, flatten_spec(prefix, v)[k]) by {
                let keys = Seq::<Seq<char>>::empty();
                assert(flatten_spec(prefix, v)[k] == (prefix, v));
                assert(dot_joined(prefix, keys) == prefix);
                assert(resolves_to(v, keys, v));
            }
        },
        JsonValue::Object(members) => {
            assert(members@.take(members@.len() as int) =~= members@);
            lemma_flatten_members_resolve(prefix, members@, members@.len() as int);
            assert forall|k: int| 0 <= k < flatten_spec(prefix, v).len() implies #[trigger]
            entry_resolves(prefix, v, flatten_spec(prefix, v)[k]) by {
                let e = flatten_members(prefix, members@)[k];
                assert(entry_resolves_in(prefix, members@, e));
                let keys = choose|keys: Seq<Seq<char>>|
                    #![auto]
                    dot_joined(prefix, keys) == e.0 && keys.len() > 0 && resolves_in(
                        members@,
                        keys,
                        e.1,
                    );
                assert(resolves_to(v, keys, e.1));
            }
        },
    }
}

/// Every entry contributed by the first `n` members of `full` is accounted
/// for by one of the members of `full`.
proof fn lemma_flatten_members_resolve(
    prefix: Seq<char>,
    full: Seq<(String, JsonValue)>,
    n: int,
)
    requires
        0 <= n <= full.len(),
    ensures
        forall|k: int|
            0 <= k < flatten_members(prefix, full.take(n)).len() ==> #[trigger] entry_resolves_in(
                prefix,
                full,
                flatten_members(prefix, full.take(n))[k],
            ),
    decreases full, n,
{
    if n == 0 {
        assert(full.take(0) =~= Seq::<(String, JsonValue)>::empty());
        assert(flatten_members(prefix, full.take(0)).len() == 0);
    } else {
        let ms = full.take(n);
        assert(ms.last() == full[n - 1]);
        let key = full[n - 1].0;
        let child = full[n - 1].1;
        assert(decreases_to!(full => full[n - 1]));
        assert(decreases_to!(full[n - 1] => child));
        lemma_flatten_paths_resolve(extend_path(prefix, key@), child);
        assert(ms.drop_last() =~= full.take(n - 1));
        lemma_flatten_members_resolve(prefix, full, n - 1);
        let head = flatten_spec(extend_path(prefix, key@), child);
        let tail = flatten_members(prefix, full.take(n - 1));
        assert(flatten_members(prefix, ms) == head + tail);
        assert forall|k: int| 0 <= k < flatten_members(prefix, ms).len() implies #[trigger]
        entry_resolves_in(prefix, full, flatten_members(prefix, ms)[k]) by {
            let e = flatten_members(prefix, ms)[k];
            if k < head.len() {
                assert(e == head[k]);
                assert(entry_resolves(extend_path(prefix, key@), child, head[k]));
                let child_keys = choose|keys: Seq<Seq<char>>|
                    #![auto]
                    dot_joined(extend_path(prefix, key@), keys) == head[k].0 && resolves_to(
                        child,
                        keys,
                        head[k].1,
                    );
                let keys = seq![key@] + child_keys;
                assert(keys.first() == key@);
                assert(keys.drop_first() =~= child_keys);
                assert(dot_joined(prefix, keys) == dot_joined(
                    extend_path(prefix, key@),
                    child_keys,
                ));
                assert(full[n - 1].0@ == keys.first() && resolves_to(
                    full[n - 1].1,
                    keys.drop_first(),
                    e.1,
                ));
                assert(resolves_in(full, keys, e.1));
            } else {
                assert(e == tail[k - head.len()]);
                assert(entry_resolves_in(prefix, full, tail[k - head.len()]));
            }
        }
    }
}

/// The number of nodes of a value: every object and every leaf counts one.
pub open spec fn size(v: JsonValue) -> nat
    decreases v,
{
    match v {
        JsonValue::Leaf(_) => 1,
        JsonValue::Object(members) => 1 + size_members(members@),
    }
}

/// The number of nodes of a list of members.
pub open spec fn size_members(ms: Seq<(String, JsonValue)>) -> nat
    decreases ms,
{
    if ms.len() == 0 {
        0
    } else {
        size(ms.last().1) + size_members(ms.drop_last())
    }
}

/// The number of nodes left on the work list.
pub open spec fn work_size(ws: Seq<(String, JsonValue)>) -> nat
    decreases ws.len(),
{
    if ws.len() == 0 {
        0
    } else {
        size(ws.last().1) + work_size(ws.drop_last())
    }
}

/// The node count of the members from position `k` on splits off the node
/// count of the member at `k`.
proof fn lemma_size_members_skip(s: Seq<(String, JsonValue)>, k: int)
    requires
        0 <= k < s.len(),
    ensures
        size_members(s.skip(k)) == size(s[k].1) + size_members(s.skip(k + 1)),
    decreases s.len(),
{
    if k == s.len() - 1 {
        assert(s.skip(k) =~= seq![s[k]]);
        assert(s.skip(k + 1) =~= Seq::<(String, JsonValue)>::empty());
        assert(s.skip(k).drop_last() =~= Seq::<(String, JsonValue)>::empty());
    } else {
        assert(s.skip(k).drop_last() =~= s.drop_last().skip(k));
        assert(s.skip(k + 1).drop_last() =~= s.drop_last().skip(k + 1));
        assert(s.skip(k).last() == s.last());
        assert(s.skip(k + 1).last() == s.last());
        lemma_size_members_skip(s.drop_last(), k);
        assert(s.drop_last()[k] == s[k]);
    }
}

/// Every value has at least one node.
proof fn lemma_size_pos(v: JsonValue)
    ensures
        size(v) >= 1,
    decreases v,
{
}

/// Unfolds the work size of a non-empty work list.
proof fn lemma_work_size_last(ws: Seq<(String, JsonValue)>)
    requires
        ws.len() > 0,
    ensures
        work_size(ws) == size(ws.last().1) + work_size(ws.drop_last()),
        work_size(ws) >= 1,
{
    lemma_size_pos(ws.last().1);
}

} // verus!
