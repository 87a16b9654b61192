//! Tables keyed by process id: entries kept in strictly ascending id order,
//! viewed as a map from process id to value.
//!
//! The specifications of `BTreeMap`, its key-ordered iteration included,
//! hold only for keys known to obey the comparison spec, and the derived
//! `Ord` of `ProcessId` gives no such fact; a sorted `Vec` keeps lookups and
//! id order provable.

use vstd::prelude::*;
use crate::memory::ProcessId;

verus! {

/// Entries are strictly ascending by process id.
pub open spec fn sorted_by_pid<V>(s: Seq<(ProcessId, V)>) -> bool {
    forall|i: int, j: int| 0 <= i < j < s.len() ==> (#[trigger] s[i]).0.0 < (#[trigger] s[j]).0.0
}

/// Some entry of `s` belongs to `q`.
pub open spec fn has_pid<V>(s: Seq<(ProcessId, V)>, q: ProcessId) -> bool {
    exists|i: int| 0 <= i < s.len() && s[i].0 == q
}

/// The value of `q`'s entry in `s`.
pub open spec fn entry_value<V>(s: Seq<(ProcessId, V)>, q: ProcessId) -> V {
    s[choose|i: int| 0 <= i < s.len() && s[i].0 == q].1
}

/// The entries as a map from process to value.
pub open spec fn table_view<V>(s: Seq<(ProcessId, V)>) -> Map<ProcessId, V> {
    Map::new(|q: ProcessId| has_pid(s, q), |q: ProcessId| entry_value(s, q))
}

/// In a sorted table, the map holds entry `j`'s value under its id.
pub proof fn lemma_entry_at<V>(s: Seq<(ProcessId, V)>, j: int)
    requires
        sorted_by_pid(s),
        0 <= j < s.len(),
    ensures
        has_pid(s, s[j].0),
        entry_value(s, s[j].0) == s[j].1,
{
    assert(has_pid(s, s[j].0));
    let k = choose|i: int| 0 <= i < s.len() && s[i].0 == s[j].0;
    if k < j {
        assert(s[k].0.0 < s[j].0.0);
    } else if k > j {
        assert(s[j].0.0 < s[k].0.0);
    }
}

/// In a sorted table, the id of entry `i` is at least `i`.
proof fn lemma_pid_lower_bound<V>(s: Seq<(ProcessId, V)>, i: int)
    requires
        sorted_by_pid(s),
        0 <= i < s.len(),
    ensures
        s[i].0.0 >= i,
    decreases i,
{
    if i > 0 {
        lemma_pid_lower_bound(s, i - 1);
        assert(s[i - 1].0.0 < s[i].0.0);
    }
}

/// At most one entry per `u32` process id.
pub proof fn lemma_entry_count_bounded<V>(s: Seq<(ProcessId, V)>)
    requires
        sorted_by_pid(s),
    ensures
        s.len() <= 0x1_0000_0000,
{
    if s.len() > 0x1_0000_0000 {
        lemma_pid_lower_bound(s, 0x1_0000_0000);
    }
}

/// A sorted table has exactly one map key per entry.
pub proof fn lemma_table_view_len<V>(s: Seq<(ProcessId, V)>)
    requires
        sorted_by_pid(s),
    ensures
        table_view(s).dom().finite(),
        table_view(s).dom().len() == s.len(),
    decreases s.len(),
{
    if s.len() == 0 {
        assert(table_view(s).dom() =~= Set::<ProcessId>::empty());
    } else {
        let t = s.drop_last();
        let last = s.last().0;
        assert(sorted_by_pid(t)) by {
            assert forall|a: int, b: int| 0 <= a < b < t.len() implies (#[trigger] t[a]).0.0 < (
            #[trigger] t[b]).0.0 by {
                assert(s[a].0.0 < s[b].0.0);
            }
        }
        lemma_table_view_len(t);
        assert(!table_view(t).dom().contains(last)) by {
            if has_pid(t, last) {
                let j = choose|j: int| 0 <= j < t.len() && t[j].0 == last;
                assert(s[j].0.0 < s[s.len() - 1].0.0);
            }
        }
        assert forall|q: ProcessId| #[trigger] table_view(s).dom().contains(q) == table_view(t).dom().insert(
            last,
        ).contains(q) by {
            if has_pid(s, q) && q != last {
                let j = choose|j: int| 0 <= j < s.len() && s[j].0 == q;
                assert(t[j].0 == q);
            }
            if has_pid(t, q) {
                let j = choose|j: int| 0 <= j < t.len() && t[j].0 == q;
                assert(s[j].0 == q);
            }
            if q == last {
                assert(s[s.len() - 1].0 == q);
            }
        }
        assert(table_view(s).dom() =~= table_view(t).dom().insert(last));
    }
}

/// Replacing the entry of `pid` at `i` updates the map at `pid` only.
proof fn lemma_replace_entry<V>(s: Seq<(ProcessId, V)>, i: int, pid: ProcessId, value: V)
    requires
        sorted_by_pid(s),
        0 <= i < s.len(),
        s[i].0 == pid,
    ensures
        sorted_by_pid(s.update(i, (pid, value))),
        table_view(s.update(i, (pid, value))) == table_view(s).insert(pid, value),
{
    let t = s.update(i, (pid, value));
    assert(sorted_by_pid(t)) by {
        assert forall|a: int, b: int| 0 <= a < b < t.len() implies (#[trigger] t[a]).0.0 < (
        #[trigger] t[b]).0.0 by {
            assert(s[a].0.0 < s[b].0.0);
        }
    }
    assert forall|q: ProcessId| #[trigger] table_view(t).contains_key(q) == table_view(s).insert(
        pid,
        value,
    ).contains_key(q) && (table_view(t).contains_key(q) ==> table_view(t)[q] == table_view(s).insert(
        pid,
        value,
    )[q]) by {
        if q == pid {
            lemma_entry_at(t, i);
            lemma_entry_at(s, i);
        } else {
            if has_pid(s, q) {
                let j = choose|j: int| 0 <= j < s.len() && s[j].0 == q;
                lemma_entry_at(s, j);
                lemma_entry_at(t, j);
            }
            if has_pid(t, q) {
                let j = choose|j: int| 0 <= j < t.len() && t[j].0 == q;
                assert(s[j].0 == q);
            }
        }
    }
    assert(table_view(t) =~= table_view(s).insert(pid, value));
}

/// Inserting `pid` at its sorted position `i` adds it to the map.
proof fn lemma_insert_entry<V>(s: Seq<(ProcessId, V)>, i: int, pid: ProcessId, value: V)
    requires
        sorted_by_pid(s),
        0 <= i <= s.len(),
        forall|k: int| 0 <= k < i ==> (#[trigger] s[k]).0.0 < pid.0,
        i < s.len() ==> s[i].0.0 > pid.0,
    ensures
        sorted_by_pid(s.insert(i, (pid, value))),
        table_view(s.insert(i, (pid, value))) == table_view(s).insert(pid, value),
{
    let t = s.insert(i, (pid, value));
    assert forall|k: int| i < k < t.len() implies (#[trigger] t[k]).0.0 > pid.0 by {
        assert(t[k] == s[k - 1]);
        if k - 1 > i {
            assert(s[i].0.0 < s[k - 1].0.0);
        }
    }
    assert(sorted_by_pid(t)) by {
        assert forall|a: int, b: int| 0 <= a < b < t.len() implies (#[trigger] t[a]).0.0 < (
        #[trigger] t[b]).0.0 by {
            if b < i {
                assert(s[a].0.0 < s[b].0.0);
            } else if a > i {
                assert(s[a - 1].0.0 < s[b - 1].0.0);
            } else if a < i && b > i {
                assert(t[a].0.0 < pid.0);
            }
        }
    }
    assert forall|q: ProcessId| #[trigger] table_view(t).contains_key(q) == table_view(s).insert(
        pid,
        value,
    ).contains_key(q) && (table_view(t).contains_key(q) ==> table_view(t)[q] == table_view(s).insert(
        pid,
        value,
    )[q]) by {
        if q == pid {
            assert(t[i].0 == pid);
            lemma_entry_at(t, i);
        } else {
            if has_pid(s, q) {
                let j = choose|j: int| 0 <= j < s.len() && s[j].0 == q;
                lemma_entry_at(s, j);
                if j < i {
                    assert(t[j] == s[j]);
                    lemma_entry_at(t, j);
                } else {
                    assert(t[j + 1] == s[j]);
                    lemma_entry_at(t, j + 1);
                }
            }
            if has_pid(t, q) {
                let j = choose|j: int| 0 <= j < t.len() && t[j].0 == q;
                if j < i {
                    assert(s[j].0 == q);
                } else {
                    assert(j != i);
                    assert(s[j - 1].0 == q);
                }
            }
        }
    }
    assert(table_view(t) =~= table_view(s).insert(pid, value));
}


/// Position of `pid`'s entry in `v`, if any.
pub fn find_entry<V>(v: &Vec<(ProcessId, V)>, pid: ProcessId) -> (r: Option<usize>)
    requires
        sorted_by_pid(v@),
    ensures
        r is None <==> !has_pid(v@, pid),
        r matches Some(i) ==> i < v@.len() && v@[i as int].0 == pid && entry_value(v@, pid) == v@[i as int].1,
{
    let mut i: usize = 0;
    while i < v.len()
        invariant
            sorted_by_pid(v@),
            i <= v@.len(),
            forall|k: int| 0 <= k < i ==> v@[k].0 != pid,
        decreases v@.len() - i,
    {
        if v[i].0.0 == pid.0 {
            proof {
                lemma_entry_at(v@, i as int);
            }
            return Some(i);
        }
        i = i + 1;
    }
    None
}

/// Put `value` under `pid` in `v`, keeping the ids ascending.
pub fn upsert_entry<V>(v: &mut Vec<(ProcessId, V)>, pid: ProcessId, value: V)
    requires
        sorted_by_pid(old(v)@),
    ensures
        sorted_by_pid(final(v)@),
        table_view(final(v)@) == table_view(old(v)@).insert(pid, value),
        forall|i: int|
            0 <= i < final(v)@.len() ==> #[trigger] final(v)@[i] == (pid, value) || old(v)@.contains(
                final(v)@[i],
            ),
{
    let ghost before = v@;
    let mut i: usize = 0;
    while i < v.len() && v[i].0.0 < pid.0
        invariant
            v@ == before,
            i <= before.len(),
            forall|k: int| 0 <= k < i ==> (#[trigger] before[k]).0.0 < pid.0,
        decreases before.len() - i,
    {
        i = i + 1;
    }
    if i < v.len() && v[i].0.0 == pid.0 {
        proof {
            lemma_replace_entry(before, i as int, pid, value);
        }
        v[i] = (pid, value);
        proof {
            assert forall|k: int| 0 <= k < v@.len() && k != i implies #[trigger] before.contains(v@[k]) by {
                assert(v@[k] == before[k]);
            }
        }
    } else {
        proof {
            lemma_insert_entry(before, i as int, pid, value);
        }
        v.insert(i, (pid, value));
        proof {
            assert forall|k: int| 0 <= k < v@.len() && k != i implies #[trigger] before.contains(v@[k]) by {
                if k < i {
                    assert(v@[k] == before[k]);
                } else {
                    assert(v@[k] == before[k - 1]);
                }
            }
        }
    }
}

} // verus!
