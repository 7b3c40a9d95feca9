//! The state accumulator: merging a report into what is kept of a device.
//!
//! Objects are united key by key; any other value is replaced by the incoming
//! one. Three keys keep their old value against an incoming gap: the job name,
//! the progress percentage and the remaining time.

use vstd::prelude::*;
use crate::number::Number;
use crate::text::text_eq;
use crate::tree::{
    Entries, Json, Tree, entry_views, find_entry, keys_unique, lemma_lookup_concat, lemma_position,
    lemma_position_is, lemma_position_none, lookup, position,
};

verus! {

/// Whether a job name says nothing: it is empty or one of the two placeholders.
pub open spec fn is_placeholder_name(name: Seq<char>) -> bool {
    name.len() == 0 || name == "Unknown"@ || name == "undefined"@
}

/// The job name is kept: the incoming value is no text or an empty one, and
/// the old one names a job.
pub open spec fn keeps_job_name(existing: Json, incoming: Json) -> bool {
    &&& match incoming.as_str() {
        Some(name) => name.len() == 0,
        None => true,
    }
    &&& match existing.as_str() {
        Some(name) => !is_placeholder_name(name),
        None => false,
    }
}

/// The progress percentage is kept: the incoming value is no number or zero,
/// and the old one lies strictly between 0 and 100.
pub open spec fn keeps_percent(existing: Json, incoming: Json) -> bool {
    &&& match incoming.as_number() {
        Some(n) => n.is_zero(),
        None => true,
    }
    &&& match existing.as_number() {
        Some(n) => n.is_positive() && n.is_below(100),
        None => false,
    }
}

/// The remaining time is kept: the incoming value is no integer or zero, and
/// the old one is a positive integer.
pub open spec fn keeps_remaining_time(existing: Json, incoming: Json) -> bool {
    &&& match incoming.as_i64() {
        Some(t) => t == 0,
        None => true,
    }
    &&& match existing.as_i64() {
        Some(t) => t > 0,
        None => false,
    }
}

/// Whether the member under `key` keeps its old value against `incoming`.
pub open spec fn retained(key: Seq<char>, existing: Json, incoming: Json) -> bool {
    ||| key == "subtask_name"@ && keeps_job_name(existing, incoming)
    ||| key == "mc_percent"@ && keeps_percent(existing, incoming)
    ||| key == "mc_remaining_time"@ && keeps_remaining_time(existing, incoming)
}

/// The entries of `incoming[..count]` whose key `base` does not hold, in their order.
pub open spec fn fresh_entries(base: Entries, incoming: Entries, count: int) -> Entries
    decreases count,
{
    if count <= 0 || count > incoming.len() {
        Seq::empty()
    } else {
        let earlier = fresh_entries(base, incoming, count - 1);
        if position(base, incoming[count - 1].0) is None {
            earlier.push(incoming[count - 1])
        } else {
            earlier
        }
    }
}

/// The entries of `base`, each with what the merge leaves under its key.
pub open spec fn merged_entries(base: Entries, incoming: Entries) -> Entries
    decreases base,
{
    Seq::new(
        base.len(),
        |i: int|
            if 0 <= i < base.len() {
                (
                    base[i].0,
                    match lookup(incoming, base[i].0) {
                        Some(v) => if retained(base[i].0, base[i].1, v) {
                            base[i].1
                        } else {
                            merge(base[i].1, v)
                        },
                        None => base[i].1,
                    },
                )
            } else {
                (Seq::empty(), Json::Null)
            },
    )
}

/// What is kept after `incoming` has been merged into `base`.
///
/// Two objects are united: each key of `base` stays in its place, with the
/// old value where it is retained and else the merge of the old and the
/// incoming value; the keys that only `incoming` holds follow in their order.
/// In every other case the incoming value stands.
pub open spec fn merge(base: Json, incoming: Json) -> Json
    decreases base,
{
    match (base, incoming) {
        (Json::Object(b), Json::Object(n)) => Json::Object(
            merged_entries(b, n) + fresh_entries(b, n, n.len() as int),
        ),
        (_, n) => n,
    }
}

/// Merging the empty object into an object changes nothing.
pub proof fn lemma_merge_empty_object(base: Json)
    requires
        base is Object,
    ensures
        merge(base, Json::empty_object()) == base,
{
    let b = base->Object_0;
    let none = Seq::<(Seq<char>, Json)>::empty();
    assert forall|i: int| 0 <= i < b.len() implies merged_entries(b, none)[i] == b[i] by {
        lemma_position_none(none, b[i].0);
    }
    assert(merged_entries(b, none) + fresh_entries(b, none, 0) =~= b);
}

/// No fresh entry stands under a key that `base` holds, and a key that `base`
/// does not hold is found among the fresh entries as it is found in
/// `incoming[..count]`.
pub proof fn lemma_fresh_lookup(base: Entries, incoming: Entries, count: int, key: Seq<char>)
    requires
        0 <= count <= incoming.len(),
    ensures
        lookup(fresh_entries(base, incoming, count), key) == if position(base, key) is None {
            lookup(incoming.take(count), key)
        } else {
            None
        },
    decreases count,
{
    if count == 0 {
        assert(incoming.take(0) =~= Seq::empty());
        lemma_position_none(Seq::empty(), key);
    } else {
        let last = incoming[count - 1];
        let earlier = fresh_entries(base, incoming, count - 1);
        lemma_fresh_lookup(base, incoming, count - 1, key);
        assert(incoming.take(count) =~= incoming.take(count - 1) + seq![last]);
        lemma_lookup_concat(incoming.take(count - 1), seq![last], key);
        lemma_lookup_concat(earlier, seq![last], key);
        lemma_position(seq![last], key);
        if position(base, last.0) is None {
            assert(earlier.push(last) =~= earlier + seq![last]);
        }
    }
}

/// The merge of two objects, key by key: a key of `base` holds the old value
/// where it is retained or `incoming` lacks it, and else the merge of both
/// values; any other key holds what `incoming` holds under it.
pub proof fn lemma_merge_lookup(base: Json, incoming: Json, key: Seq<char>)
    requires
        base is Object,
        incoming is Object,
    ensures
        merge(base, incoming).get(key) == match (base.get(key), incoming.get(key)) {
            (Some(old), Some(new)) => if retained(key, old, new) {
                Some(old)
            } else {
                Some(merge(old, new))
            },
            (Some(old), None) => Some(old),
            (None, new) => new,
        },
{
    let b = base->Object_0;
    let n = incoming->Object_0;
    let kept = merged_entries(b, n);
    let fresh = fresh_entries(b, n, n.len() as int);
    lemma_lookup_concat(kept, fresh, key);
    lemma_fresh_lookup(b, n, n.len() as int, key);
    assert(n.take(n.len() as int) =~= n);
    lemma_position(b, key);
    match position(b, key) {
        Some(i) => {
            lemma_position_is(kept, key, i);
        },
        None => {
            lemma_position_none(kept, key);
        },
    }
}

/// The merge of two objects is an object that holds every key of both: no
/// key ever leaves what is kept.
pub proof fn lemma_merge_keeps_keys(base: Json, incoming: Json, key: Seq<char>)
    requires
        base is Object,
        incoming is Object,
    ensures
        merge(base, incoming) is Object,
        base.get(key) is Some ==> merge(base, incoming).get(key) is Some,
        incoming.get(key) is Some ==> merge(base, incoming).get(key) is Some,
{
    lemma_merge_lookup(base, incoming, key);
}

/// A progress percentage under way stands against an incoming zero, and so
/// does a positive remaining time.
pub proof fn lemma_merge_retains_progress(base: Json, incoming: Json)
    requires
        base is Object,
        incoming is Object,
    ensures
        (base.get("mc_percent"@) matches Some(old) && incoming.get("mc_percent"@) matches Some(new)
            && keeps_percent(old, new)) ==> merge(base, incoming).get("mc_percent"@) == base.get(
            "mc_percent"@,
        ),
        (base.get("mc_remaining_time"@) matches Some(old) && incoming.get("mc_remaining_time"@) matches Some(
            new,
        ) && keeps_remaining_time(old, new)) ==> merge(base, incoming).get("mc_remaining_time"@)
            == base.get("mc_remaining_time"@),
{
    lemma_merge_lookup(base, incoming, "mc_percent"@);
    lemma_merge_lookup(base, incoming, "mc_remaining_time"@);
}

/// Where both objects hold a number under the percentage key, the merge
/// holds the old one if the incoming one is zero and the old one lies
/// strictly between 0 and 100, and else the incoming one.
pub proof fn lemma_merge_percent(base: Json, incoming: Json, old: Number, new: Number)
    requires
        base is Object,
        incoming is Object,
        base.get("mc_percent"@) == Some(Json::Number(old)),
        incoming.get("mc_percent"@) == Some(Json::Number(new)),
    ensures
        merge(base, incoming).get("mc_percent"@) == Some(
            Json::Number(
                if new.is_zero() && old.is_positive() && old.is_below(100) {
                    old
                } else {
                    new
                },
            ),
        ),
{
    lemma_merge_lookup(base, incoming, "mc_percent"@);
    lemma_keys_differ();
}

/// Where `base` holds every key of `incoming[..count]`, no entry is fresh.
pub proof fn lemma_fresh_none(base: Entries, incoming: Entries, count: int)
    requires
        0 <= count <= incoming.len(),
        forall|j: int| 0 <= j < count ==> position(base, (#[trigger] incoming[j]).0) is Some,
    ensures
        fresh_entries(base, incoming, count) == Seq::<(Seq<char>, Json)>::empty(),
    decreases count,
{
    if count > 0 {
        lemma_fresh_none(base, incoming, count - 1);
        assert(position(base, incoming[count - 1].0) is Some);
    }
}

/// Merging a well-formed tree into itself changes nothing.
pub proof fn lemma_merge_self(tree: Json)
    requires
        tree.wf(),
    ensures
        merge(tree, tree) == tree,
    decreases tree,
{
    if tree is Object {
        let e = tree->Object_0;
        let kept = merged_entries(e, e);
        assert forall|i: int| 0 <= i < e.len() implies kept[i] == e[i] by {
            lemma_position_is(e, e[i].0, i);
            assert(e[i].1.wf());
            lemma_merge_self(e[i].1);
        }
        assert forall|j: int| 0 <= j < e.len() implies position(e, (#[trigger] e[j]).0) is Some by {
            lemma_position(e, e[j].0);
        }
        lemma_fresh_none(e, e, e.len() as int);
        assert(kept + fresh_entries(e, e, e.len() as int) =~= e);
    }
}

/// Merging the same well-formed report a second time changes nothing.
pub proof fn lemma_merge_idempotent(base: Json, incoming: Json)
    requires
        incoming.wf(),
    ensures
        merge(merge(base, incoming), incoming) == merge(base, incoming),
    decreases base,
{
    if base is Object && incoming is Object {
        let b = base->Object_0;
        let n = incoming->Object_0;
        let kept = merged_entries(b, n);
        let fresh = fresh_entries(b, n, n.len() as int);
        let m = kept + fresh;
        let again = merged_entries(m, n);
        lemma_fresh_entries(b, n, n.len() as int);
        assert forall|j: int| 0 <= j < n.len() implies position(m, (#[trigger] n[j]).0) is Some by {
            lemma_position(n, n[j].0);
            lemma_merge_lookup(base, incoming, n[j].0);
        }
        lemma_fresh_none(m, n, n.len() as int);
        assert forall|i: int| 0 <= i < m.len() implies again[i] == m[i] by {
            let key = m[i].0;
            lemma_position(n, key);
            match position(n, key) {
                Some(j) => {
                    let v = n[j].1;
                    assert(n[j].1.wf());
                    if i < b.len() {
                        assert(m[i] == kept[i]);
                        if !retained(key, b[i].1, v) {
                            lemma_merge_idempotent(b[i].1, v);
                        }
                    } else {
                        let f = i - b.len();
                        assert(m[i] == fresh[f]);
                        let origin = choose|origin: int| 0 <= origin < n.len() && fresh[f] == n[origin];
                        assert(origin == j);
                        lemma_merge_self(v);
                    }
                },
                None => {},
            }
        }
        assert(again + fresh_entries(m, n, n.len() as int) =~= m);
    } else {
        lemma_merge_self(incoming);
    }
}

/// Merging well-formed trees leaves a well-formed tree.
pub proof fn lemma_merge_wf(base: Json, incoming: Json)
    requires
        base.wf(),
        incoming.wf(),
    ensures
        merge(base, incoming).wf(),
    decreases base,
{
    if base is Object && incoming is Object {
        let b = base->Object_0;
        let n = incoming->Object_0;
        let kept = merged_entries(b, n);
        let fresh = fresh_entries(b, n, n.len() as int);
        let all = kept + fresh;
        lemma_fresh_entries(b, n, n.len() as int);
        assert forall|i: int| 0 <= i < all.len() implies (#[trigger] all[i]).1.wf() by {
            if i < kept.len() {
                lemma_position(n, b[i].0);
                assert(b[i].1.wf());
                match lookup(n, b[i].0) {
                    Some(v) => {
                        let j = position(n, b[i].0)->Some_0;
                        assert(n[j].1.wf());
                        lemma_merge_wf(b[i].1, v);
                    },
                    None => {},
                }
            } else {
                let f = i - kept.len();
                assert(all[i] == fresh[f]);
                let j = choose|j: int| 0 <= j < n.len() && fresh[f] == n[j];
                assert(n[j].1.wf());
            }
        }
        assert forall|i: int, j: int| 0 <= i < j < all.len() implies all[i].0 != all[j].0 by {
            if j < kept.len() {
            } else if i < kept.len() {
                let f = j - kept.len();
                assert(all[j] == fresh[f]);
                lemma_position(b, fresh[f].0);
            } else {
                assert(all[i] == fresh[i - kept.len()]);
                assert(all[j] == fresh[j - kept.len()]);
            }
        }
    }
}

/// The fresh entries are entries of `incoming[..count]` that `base` has no
/// key for, and where `incoming` holds each key once, so do they.
pub proof fn lemma_fresh_entries(base: Entries, incoming: Entries, count: int)
    requires
        0 <= count <= incoming.len(),
    ensures
        forall|f: int|
            0 <= f < fresh_entries(base, incoming, count).len() ==> position(
                base,
                (#[trigger] fresh_entries(base, incoming, count)[f]).0,
            ) is None && exists|j: int|
                0 <= j < count && fresh_entries(base, incoming, count)[f] == incoming[j],
        keys_unique(incoming) ==> keys_unique(fresh_entries(base, incoming, count)),
    decreases count,
{
    if count > 0 {
        lemma_fresh_entries(base, incoming, count - 1);
        let earlier = fresh_entries(base, incoming, count - 1);
        let now = fresh_entries(base, incoming, count);
        assert forall|f: int| 0 <= f < now.len() implies position(base, (#[trigger] now[f]).0) is None
            && exists|j: int| 0 <= j < count && now[f] == incoming[j] by {
            if f < earlier.len() {
                let j = choose|j: int| 0 <= j < count - 1 && earlier[f] == incoming[j];
                assert(0 <= j < count && now[f] == incoming[j]);
            } else {
                assert(now[f] == incoming[count - 1]);
            }
        }
        if keys_unique(incoming) {
            assert forall|x: int, y: int| 0 <= x < y < now.len() implies now[x].0 != now[y].0 by {
                if y >= earlier.len() {
                    let j = choose|j: int| 0 <= j < count - 1 && earlier[x] == incoming[j];
                    assert(now[y] == incoming[count - 1]);
                }
            }
        }
    }
}

/// Whether a job name says nothing.
pub fn placeholder_name(name: &str) -> (r: bool)
    ensures
        r == is_placeholder_name(name@),
{
    name.unicode_len() == 0 || text_eq(name, "Unknown") || text_eq(name, "undefined")
}

/// Whether the member under `key` keeps its old value against `incoming`.
pub fn is_retained(key: &str, existing: &Tree, incoming: &Tree) -> (r: bool)
    ensures
        r == retained(key@, existing@, incoming@),
{
    if text_eq(key, "subtask_name") {
        let gap = match incoming.as_str() {
            Some(name) => name.unicode_len() == 0,
            None => true,
        };
        let named = match existing.as_str() {
            Some(name) => !placeholder_name(name),
            None => false,
        };
        proof {
            lemma_keys_differ();
        }
        gap && named
    } else if text_eq(key, "mc_percent") {
        let gap = match incoming.as_number() {
            Some(n) => n.zero(),
            None => true,
        };
        let under_way = match existing.as_number() {
            Some(n) => n.positive() && n.below(100),
            None => false,
        };
        proof {
            lemma_keys_differ();
        }
        gap && under_way
    } else if text_eq(key, "mc_remaining_time") {
        let gap = match incoming.as_i64() {
            Some(t) => t == 0,
            None => true,
        };
        let left = match existing.as_i64() {
            Some(t) => t > 0,
            None => false,
        };
        gap && left
    } else {
        false
    }
}

/// The three retained keys are three different texts.
proof fn lemma_keys_differ()
    ensures
        "subtask_name"@ != "mc_percent"@,
        "subtask_name"@ != "mc_remaining_time"@,
        "mc_percent"@ != "mc_remaining_time"@,
{
    reveal_strlit("subtask_name");
    reveal_strlit("mc_percent");
    reveal_strlit("mc_remaining_time");
    assert("subtask_name"@.len() == 12);
    assert("mc_percent"@.len() == 10);
    assert("mc_remaining_time"@.len() == 17);
}

/// The entries that `merge` leaves of two objects.
fn merge_entries(base: &Vec<(String, Tree)>, incoming: &Vec<(String, Tree)>) -> (r: Vec<(String, Tree)>)
    ensures
        entry_views(r@) == merged_entries(entry_views(base@), entry_views(incoming@)) + fresh_entries(
            entry_views(base@),
            entry_views(incoming@),
            incoming@.len() as int,
        ),
    decreases base,
{
    let ghost b = entry_views(base@);
    let ghost n = entry_views(incoming@);
    let mut out: Vec<(String, Tree)> = Vec::new();
    let mut i: usize = 0;
    while i < base.len()
        invariant
            i <= base@.len(),
            b == entry_views(base@),
            n == entry_views(incoming@),
            out@.len() == i,
            forall|j: int| 0 <= j < i ==> (#[trigger] out@[j]).0@ == merged_entries(b, n)[j].0
                && out@[j].1@ == merged_entries(b, n)[j].1,
        decreases base@.len() - i,
    {
        let key = base[i].0.clone();
        let member = match find_entry(incoming, key.as_str()) {
            Some(j) => if is_retained(key.as_str(), &base[i].1, &incoming[j].1) {
                base[i].1.clone()
            } else {
                deep_merge(&base[i].1, &incoming[j].1)
            },
            None => base[i].1.clone(),
        };
        out.push((key, member));
        i += 1;
    }
    let mut k: usize = 0;
    while k < incoming.len()
        invariant
            k <= incoming@.len(),
            b == entry_views(base@),
            n == entry_views(incoming@),
            b.len() == base@.len(),
            entry_views(out@) == merged_entries(b, n) + fresh_entries(b, n, k as int),
        decreases incoming@.len() - k,
    {
        if find_entry(base, incoming[k].0.as_str()).is_none() {
            let ghost before = entry_views(out@);
            out.push((incoming[k].0.clone(), incoming[k].1.clone()));
            assert(entry_views(out@) =~= before.push(n[k as int]));
            assert(before.push(n[k as int]) =~= merged_entries(b, n) + fresh_entries(b, n, k as int).push(n[k as int]));
        }
        k += 1;
    }
    out
}

/// Merges `incoming` into `base`: objects are united key by key, with the
/// retained keys keeping their old value; anything else is replaced.
pub fn deep_merge(base: &Tree, incoming: &Tree) -> (r: Tree)
    ensures
        r@ == merge(base@, incoming@),
    decreases base,
{
    match (base, incoming) {
        (Tree::Object(b), Tree::Object(n)) => Tree::Object(merge_entries(b, n)),
        (_, n) => n.clone(),
    }
}

} // verus!
