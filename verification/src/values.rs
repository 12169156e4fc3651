//! The values last typed for each variable name, offered again the next time
//! a variable of that name is filled.

use vstd::prelude::*;
use crate::text::same_text;
use crate::template::entry_views;

verus! {

/// The remembered value of `name`, or the empty text when there is none.
pub open spec fn remembered(m: Map<Seq<char>, Seq<char>>, name: Seq<char>) -> Seq<char> {
    if m.dom().contains(name) {
        m[name]
    } else {
        Seq::empty()
    }
}

/// `m` after remembering each entry in turn.
pub open spec fn remember_all(
    m: Map<Seq<char>, Seq<char>>,
    entries: Seq<(Seq<char>, Seq<char>)>,
) -> Map<Seq<char>, Seq<char>>
    decreases entries.len(),
{
    if entries.len() == 0 {
        m
    } else {
        remember_all(m, entries.drop_last()).insert(entries.last().0, entries.last().1)
    }
}

/// The hint shown in an empty form field for a variable whose remembered
/// value is `previous`: that value after "默认：", or a request for input
/// when nothing is remembered.
pub open spec fn hint_text(previous: Seq<char>) -> Seq<char> {
    if previous.len() > 0 {
        "默认："@ + previous
    } else {
        "输入自定义内容"@
    }
}

/// The map that a list of (name, value) entries describes, later entries
/// taking precedence.
pub open spec fn entries_map(entries: Seq<(String, String)>) -> Map<Seq<char>, Seq<char>>
    decreases entries.len(),
{
    if entries.len() == 0 {
        Map::empty()
    } else {
        entries_map(entries.drop_last()).insert(entries.last().0@, entries.last().1@)
    }
}

/// No name occurs twice among the entries.
pub open spec fn distinct_names(entries: Seq<(String, String)>) -> bool {
    forall|i: int, j: int|
        0 <= i < entries.len() && 0 <= j < entries.len() && i != j ==> (#[trigger] entries[i]).0@
            != (#[trigger] entries[j]).0@
}

/// The names of the entries are the keys of the map, and each name maps to
/// its entry's value.
proof fn lemma_entries_map(entries: Seq<(String, String)>)
    requires
        distinct_names(entries),
    ensures
        forall|k: Seq<char>|
            #[trigger] entries_map(entries).dom().contains(k) <==> exists|i: int|
                0 <= i < entries.len() && (#[trigger] entries[i]).0@ == k,
        forall|i: int|
            0 <= i < entries.len() ==> entries_map(entries)[(#[trigger] entries[i]).0@]
                == entries[i].1@,
    decreases entries.len(),
{
    if entries.len() > 0 {
        let init = entries.drop_last();
        assert(distinct_names(init)) by {
            assert forall|i: int, j: int|
                0 <= i < init.len() && 0 <= j < init.len() && i != j implies (#[trigger] init[i]).0@
                != (#[trigger] init[j]).0@ by {
                assert(init[i] == entries[i] && init[j] == entries[j]);
            }
        }
        lemma_entries_map(init);
        let last = entries.len() - 1;
        assert(entries.last() == entries[last]);
        assert forall|k: Seq<char>|
            #[trigger] entries_map(entries).dom().contains(k) <==> exists|i: int|
                0 <= i < entries.len() && (#[trigger] entries[i]).0@ == k by {
            if entries_map(init).dom().contains(k) {
                let i = choose|i: int| 0 <= i < init.len() && (#[trigger] init[i]).0@ == k;
                assert(entries[i] == init[i]);
            }
            if exists|i: int| 0 <= i < entries.len() && (#[trigger] entries[i]).0@ == k {
                let i = choose|i: int| 0 <= i < entries.len() && (#[trigger] entries[i]).0@ == k;
                if i < last {
                    assert(init[i] == entries[i]);
                }
            }
        }
        assert forall|i: int| 0 <= i < entries.len() implies entries_map(entries)[(
        #[trigger] entries[i]).0@] == entries[i].1@ by {
            if i < last {
                assert(init[i] == entries[i]);
                assert(entries[i].0@ != entries[last].0@);
            }
        }
    }
}

/// The last value typed for each variable name.
pub struct ValueMemory {
    entries: Vec<(String, String)>,
}

impl View for ValueMemory {
    type V = Map<Seq<char>, Seq<char>>;

    closed spec fn view(&self) -> Map<Seq<char>, Seq<char>> {
        entries_map(self.entries@)
    }
}

impl ValueMemory {
    /// The memory keeps each name once.
    pub closed spec fn wf(&self) -> bool {
        distinct_names(self.entries@)
    }

    /// A memory that remembers nothing.
    pub fn new() -> (m: ValueMemory)
        ensures
            m.wf(),
            m@ == Map::<Seq<char>, Seq<char>>::empty(),
    {
        ValueMemory { entries: Vec::new() }
    }

    /// The value remembered for `name`, or the empty string.
    pub fn get(&self, name: &str) -> (value: String)
        requires
            self.wf(),
        ensures
            value@ == remembered(self@, name@),
    {
        let mut i: usize = 0;
        while i < self.entries.len()
            invariant
                i <= self.entries.len(),
                distinct_names(self.entries@),
                forall|k: int| 0 <= k < i ==> (#[trigger] self.entries@[k]).0@ != name@,
            decreases self.entries.len() - i,
        {
            if same_text(self.entries[i].0.as_str(), name) {
                proof {
                    lemma_entries_map(self.entries@);
                }
                return self.entries[i].1.clone();
            }
            i += 1;
        }
        proof {
            lemma_entries_map(self.entries@);
        }
        String::new()
    }

    /// The hint for the form field of the variable `name`.
    pub fn hint(&self, name: &str) -> (h: String)
        requires
            self.wf(),
        ensures
            h@ == hint_text(remembered(self@, name@)),
    {
        let previous = self.get(name);
        if previous.as_str().is_empty() {
            String::from_str("输入自定义内容")
        } else {
            let mut h = String::from_str("默认：");
            h.append(previous.as_str());
            h
        }
    }

    /// Remembers each (name, value) entry in turn.
    pub fn remember_entries(&mut self, entries: &[(String, String)])
        requires
            old(self).wf(),
        ensures
            final(self).wf(),
            final(self)@ == remember_all(old(self)@, entry_views(entries@)),
    {
        let ghost start = self@;
        let ghost all = entry_views(entries@);
        let mut i: usize = 0;
        while i < entries.len()
            invariant
                i <= entries.len(),
                all == entry_views(entries@),
                self.wf(),
                self@ == remember_all(start, all.take(i as int)),
            decreases entries.len() - i,
        {
            assert(all.take(i + 1).drop_last() =~= all.take(i as int));
            assert(all.take(i + 1).last() == (entries@[i as int].0@, entries@[i as int].1@));
            self.insert(entries[i].0.clone(), entries[i].1.clone());
            i += 1;
        }
        assert(all.take(entries.len() as int) =~= all);
    }

    /// Remembers `value` for `name`, replacing what was remembered for it.
    pub fn insert(&mut self, name: String, value: String)
        requires
            old(self).wf(),
        ensures
            final(self).wf(),
            final(self)@ == old(self)@.insert(name@, value@),
    {
        let mut i: usize = 0;
        while i < self.entries.len()
            invariant
                i <= self.entries.len(),
                self.entries@ == old(self).entries@,
                distinct_names(self.entries@),
                forall|k: int| 0 <= k < i ==> (#[trigger] self.entries@[k]).0@ != name@,
            decreases self.entries.len() - i,
        {
            if self.entries[i].0 == name {
                let ghost before = self.entries@;
                self.entries.set(i, (name, value));
                proof {
                    lemma_entries_map(before);
                    let after = self.entries@;
                    assert forall|a: int| 0 <= a < after.len() implies (#[trigger] after[a]).0@
                        == before[a].0@ by {
                        if a != i {
                            assert(after[a] == before[a]);
                        }
                    }
                    assert(distinct_names(after)) by {
                        assert forall|a: int, b: int|
                            0 <= a < after.len() && 0 <= b < after.len() && a != b implies (
                            #[trigger] after[a]).0@ != (#[trigger] after[b]).0@ by {
                            assert(before[a].0@ != before[b].0@);
                            assert(after[a].0@ == before[a].0@ && after[b].0@ == before[b].0@);
                        }
                    }
                    lemma_entries_map(after);
                    assert(entries_map(after) =~= entries_map(before).insert(name@, value@)) by {
                        assert forall|k: Seq<char>|
                            #[trigger] entries_map(after).dom().contains(k) <==> entries_map(
                                before,
                            ).insert(name@, value@).dom().contains(k) by {
                            assert(before[i as int].0@ == name@);
                            assert(entries_map(before).dom().contains(name@));
                            if exists|a: int| 0 <= a < before.len() && (#[trigger] before[a]).0@ == k {
                                let a = choose|a: int|
                                    0 <= a < before.len() && (#[trigger] before[a]).0@ == k;
                                assert(after[a].0@ == k);
                            }
                            if exists|a: int| 0 <= a < after.len() && (#[trigger] after[a]).0@ == k {
                                let a = choose|a: int|
                                    0 <= a < after.len() && (#[trigger] after[a]).0@ == k;
                                assert(before[a].0@ == k);
                            }
                        }
                        assert forall|k: Seq<char>|
                            #[trigger] entries_map(after).dom().contains(k) implies entries_map(
                                after,
                            )[k] == entries_map(before).insert(name@, value@)[k] by {
                            let a = choose|a: int|
                                0 <= a < after.len() && (#[trigger] after[a]).0@ == k;
                            if a != i {
                                assert(after[a] == before[a]);
                            }
                        }
                    }
                }
                return;
            }
            i += 1;
        }
        let ghost before = self.entries@;
        self.entries.push((name, value));
        proof {
            lemma_entries_map(before);
            let after = self.entries@;
            assert(after.drop_last() =~= before);
            assert forall|a: int, b: int|
                0 <= a < after.len() && 0 <= b < after.len() && a != b implies (
                #[trigger] after[a]).0@ != (#[trigger] after[b]).0@ by {
                if a < before.len() {
                    assert(after[a] == before[a]);
                }
                if b < before.len() {
                    assert(after[b] == before[b]);
                }
            }
        }
    }
}

} // verus!
