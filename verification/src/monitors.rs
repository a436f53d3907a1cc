//! The monitors that the server has, by their keys.
use crate::model::Monitor;
use crate::model::MonitorView;
use crate::search::find;
use crate::search::first_where;
use crate::search::law_found_first;
use crate::search::lemma_first_where;
use crate::search::lemma_first_where_is;
use vstd::prelude::*;

verus! {

/// The monitors of the server, each under a key of its own, in the order in which the keys came in.
#[derive(Debug)]
pub struct MonitorList {
    entries: Vec<(String, Monitor)>,
}

/// What an entry holds: the key and the monitor under it.
pub open spec fn entry_view(entry: (String, Monitor)) -> (Seq<char>, MonitorView) {
    (entry.0@, entry.1@)
}

/// Whether an entry stands under `key`.
pub open spec fn under(key: Seq<char>) -> spec_fn((Seq<char>, MonitorView)) -> bool {
    |entry: (Seq<char>, MonitorView)| entry.0 == key
}

/// The monitor under `key`.
pub open spec fn lookup(entries: Seq<(Seq<char>, MonitorView)>, key: Seq<char>) -> Option<MonitorView> {
    match find(entries, under(key)) {
        Some(entry) => Some(entry.1),
        None => None,
    }
}

/// The entries with `monitor` under `key`: in place of what stood there, or behind all of them.
pub open spec fn with_entry(
    entries: Seq<(Seq<char>, MonitorView)>,
    key: Seq<char>,
    monitor: MonitorView,
) -> Seq<(Seq<char>, MonitorView)> {
    let at = first_where(entries, under(key));
    if at < entries.len() {
        entries.update(at, (key, monitor))
    } else {
        entries.push((key, monitor))
    }
}

/// The entries that result from putting in each of `added` in turn.
pub open spec fn with_entries(
    entries: Seq<(Seq<char>, MonitorView)>,
    added: Seq<(Seq<char>, MonitorView)>,
) -> Seq<(Seq<char>, MonitorView)>
    decreases added.len(),
{
    if added.len() == 0 {
        entries
    } else {
        with_entry(with_entries(entries, added.drop_last()), added.last().0, added.last().1)
    }
}

/// No two entries stand under one key.
pub open spec fn distinct(entries: Seq<(Seq<char>, MonitorView)>) -> bool {
    forall|i: int, j: int|
        0 <= i < j < entries.len() ==> (#[trigger] entries[i]).0 != (#[trigger] entries[j]).0
}

impl View for MonitorList {
    type V = Seq<(Seq<char>, MonitorView)>;

    closed spec fn view(&self) -> Seq<(Seq<char>, MonitorView)> {
        self.entries@.map_values(|entry: (String, Monitor)| entry_view(entry))
    }
}

impl MonitorList {
    /// Every key has one entry.
    #[verifier::type_invariant]
    spec fn keyed(self) -> bool {
        distinct(self@)
    }

    /// A list without monitors.
    pub fn new() -> (r: Self)
        ensures
            r@ == Seq::<(Seq<char>, MonitorView)>::empty(),
            distinct(r@),
    {
        let r = MonitorList { entries: Vec::new() };
        assert(r@ =~= Seq::<(Seq<char>, MonitorView)>::empty());
        r
    }

    /// The number of monitors.
    pub fn len(&self) -> (r: usize)
        ensures
            r == self@.len(),
            distinct(self@),
    {
        proof {
            use_type_invariant(self);
        }
        self.entries.len()
    }

    /// The key of the entry at a position.
    pub fn key(&self, i: usize) -> (r: &str)
        requires
            i < self@.len(),
        ensures
            r@ == self@[i as int].0,
            distinct(self@),
    {
        proof {
            use_type_invariant(self);
        }
        self.entries[i].0.as_str()
    }

    /// The monitor of the entry at a position.
    pub fn monitor(&self, i: usize) -> (r: &Monitor)
        requires
            i < self@.len(),
        ensures
            r@ == self@[i as int].1,
            distinct(self@),
    {
        proof {
            use_type_invariant(self);
        }
        &self.entries[i].1
    }

    /// The position of the entry under `key`, the number of entries where there is none.
    fn slot(&self, key: &str) -> (r: usize)
        ensures
            r == first_where(self@, under(key@)),
    {
        let key = key.to_owned();
        let mut i: usize = 0;
        while i < self.entries.len() && self.entries[i].0 != key
            invariant
                i <= self.entries.len(),
                forall|k: int| 0 <= k < i ==> !under(key@)(#[trigger] self@[k]),
            decreases self.entries.len() - i,
        {
            assert(self@[i as int].0 == self.entries@[i as int].0@);
            i = i + 1;
        }
        proof {
            if i < self.entries.len() {
                assert(self@[i as int].0 == self.entries@[i as int].0@);
            }
            lemma_first_where_is(self@, under(key@), i as int);
        }
        i
    }

    /// The monitor under `key`.
    pub fn get(&self, key: &str) -> (r: Option<&Monitor>)
        ensures
            match r {
                Some(monitor) => lookup(self@, key@) == Some(monitor@),
                None => lookup(self@, key@) is None,
            },
            distinct(self@),
    {
        proof {
            use_type_invariant(self);
        }
        let i = self.slot(key);
        if i < self.entries.len() {
            assert(self@[i as int].1 == self.entries@[i as int].1@);
            Some(&self.entries[i].1)
        } else {
            None
        }
    }

    /// Puts a monitor under `key`, in place of what stood there.
    pub fn insert(&mut self, key: String, monitor: Monitor)
        ensures
            final(self)@ == with_entry(old(self)@, key@, monitor@),
            distinct(final(self)@),
    {
        let ghost before = self@;
        let ghost after = with_entry(before, key@, monitor@);
        let i = self.slot(key.as_str());
        proof {
            use_type_invariant(&*self);
            lemma_first_where(before, under(key@));
            law_insert_keeps_distinct(before, key@, monitor@);
        }
        let mut entries: Vec<(String, Monitor)> = Vec::new();
        std::mem::swap(&mut entries, &mut self.entries);
        if i < entries.len() {
            entries.set(i, (key, monitor));
        } else {
            entries.push((key, monitor));
        }
        assert(MonitorList { entries }@ =~= after);
        self.entries = entries;
    }

    /// The list of some monitors and their keys, of two under one key the later one.
    pub fn from_entries(entries: Vec<(String, Monitor)>) -> (r: Self)
        ensures
            r@ == with_entries(
                Seq::empty(),
                entries@.map_values(|entry: (String, Monitor)| entry_view(entry)),
            ),
            distinct(r@),
    {
        let mut list = MonitorList::new();
        let ghost views = entries@.map_values(|entry: (String, Monitor)| entry_view(entry));
        let mut i: usize = 0;
        while i < entries.len()
            invariant
                i <= entries.len(),
                views == entries@.map_values(|entry: (String, Monitor)| entry_view(entry)),
                list@ == with_entries(Seq::empty(), views.take(i as int)),
            decreases entries.len() - i,
        {
            assert(views.take(i + 1).drop_last() =~= views.take(i as int));
            assert(views.take(i + 1).last() == entry_view(entries@[i as int]));
            list.insert(entries[i].0.clone(), entries[i].1.clone());
            i = i + 1;
        }
        assert(views.take(views.len() as int) =~= views);
        proof {
            use_type_invariant(&list);
        }
        list
    }
}

impl Clone for MonitorList {
    fn clone(&self) -> (r: Self)
        ensures
            r@ == self@,
            distinct(r@),
    {
        proof {
            use_type_invariant(self);
        }
        let mut entries: Vec<(String, Monitor)> = Vec::new();
        let mut i: usize = 0;
        while i < self.entries.len()
            invariant
                i <= self.entries.len(),
                entries@.len() == i,
                forall|k: int|
                    0 <= k < i ==> entry_view(#[trigger] entries@[k]) == entry_view(self.entries@[k]),
            decreases self.entries.len() - i,
        {
            entries.push((self.entries[i].0.clone(), self.entries[i].1.clone()));
            i = i + 1;
        }
        assert(MonitorList { entries }@ =~= self@);
        MonitorList { entries }
    }
}

/// Putting a monitor under a key keeps every key to one entry.
pub proof fn law_insert_keeps_distinct(
    entries: Seq<(Seq<char>, MonitorView)>,
    key: Seq<char>,
    monitor: MonitorView,
)
    requires
        distinct(entries),
    ensures
        distinct(with_entry(entries, key, monitor)),
{
    lemma_first_where(entries, under(key));
    let after = with_entry(entries, key, monitor);
    let at = first_where(entries, under(key));
    assert forall|i: int, j: int| 0 <= i < j < after.len() implies (#[trigger] after[i]).0 != (
    #[trigger] after[j]).0 by {
        if at < entries.len() {
            assert(under(key)(entries[at]));
            assert(after[i].0 == entries[i].0);
            assert(after[j].0 == entries[j].0);
        } else {
            assert(!under(key)(entries[i]));
        }
    }
}

/// After a monitor was put under a key, it is what stands there, and under every other key stands
/// what stood there before.
pub proof fn law_get_after_insert(
    entries: Seq<(Seq<char>, MonitorView)>,
    key: Seq<char>,
    monitor: MonitorView,
    other: Seq<char>,
)
    ensures
        lookup(with_entry(entries, key, monitor), other) == if other == key {
            Some(monitor)
        } else {
            lookup(entries, other)
        },
{
    let at = first_where(entries, under(key));
    let after = with_entry(entries, key, monitor);
    lemma_first_where(entries, under(key));
    lemma_first_where(entries, under(other));
    if other == key {
        assert forall|k: int| 0 <= k < at implies !under(key)(#[trigger] after[k]) by {
            assert(!under(key)(entries[k]));
        }
        lemma_first_where_is(after, under(key), at);
    } else {
        let found = first_where(entries, under(other));
        if at < entries.len() {
            assert(under(key)(entries[at]));
        }
        assert forall|k: int| 0 <= k < found implies !under(other)(#[trigger] after[k]) by {
            assert(!under(other)(entries[k]));
        }
        if found < entries.len() {
            assert(under(other)(entries[found]));
            assert(after[found] == entries[found]);
            lemma_first_where_is(after, under(other), found);
        } else {
            assert forall|k: int| 0 <= k < after.len() implies !under(other)(
                #[trigger] after[k],
            ) by {
                if k < entries.len() {
                    assert(!under(other)(entries[k]));
                }
            }
            lemma_first_where_is(after, under(other), after.len() as int);
        }
    }
}

/// Where every key has one entry, what is found under the key of an entry is the monitor of that
/// entry.
pub proof fn law_every_entry_is_found(entries: Seq<(Seq<char>, MonitorView)>, i: int)
    requires
        distinct(entries),
        0 <= i < entries.len(),
    ensures
        lookup(entries, entries[i].0) == Some(entries[i].1),
{
    let key = entries[i].0;
    assert forall|k: int| 0 <= k < i implies !under(key)(#[trigger] entries[k]) by {
        assert(entries[k].0 != entries[i].0);
    }
    lemma_first_where_is(entries, under(key), i);
}

/// However monitors are put into a list that begins empty, every key has one entry.
pub proof fn law_entries_are_distinct(added: Seq<(Seq<char>, MonitorView)>)
    ensures
        distinct(with_entries(Seq::empty(), added)),
    decreases added.len(),
{
    if added.len() > 0 {
        law_entries_are_distinct(added.drop_last());
        law_insert_keeps_distinct(
            with_entries(Seq::empty(), added.drop_last()),
            added.last().0,
            added.last().1,
        );
    }
}

/// What is found under a key is the monitor of the first entry under it; where no entry stands under
/// the key, nothing is found.
pub proof fn law_first_entry_is_found(
    entries: Seq<(Seq<char>, MonitorView)>,
    key: Seq<char>,
    at: int,
)
    requires
        0 <= at <= entries.len(),
        at < entries.len() ==> entries[at].0 == key,
        forall|k: int| 0 <= k < at ==> (#[trigger] entries[k]).0 != key,
    ensures
        at < entries.len() ==> lookup(entries, key) == Some(entries[at].1),
        at == entries.len() ==> lookup(entries, key) is None,
{
    assert forall|k: int| 0 <= k < at implies !under(key)(#[trigger] entries[k]) by {
        assert(entries[k].0 != key);
    }
    law_found_first(entries, under(key), at);
}

/// Putting a monitor under a key leaves every entry under another key where it is, and makes the list
/// longer, by one entry, exactly if the key is new.
pub proof fn law_insert_keeps_other_entries(
    entries: Seq<(Seq<char>, MonitorView)>,
    key: Seq<char>,
    monitor: MonitorView,
)
    ensures
        forall|i: int|
            0 <= i < entries.len() && (#[trigger] entries[i]).0 != key ==> with_entry(
                entries,
                key,
                monitor,
            )[i] == entries[i],
        (exists|i: int| 0 <= i < entries.len() && (#[trigger] entries[i]).0 == key) ==> with_entry(
            entries,
            key,
            monitor,
        ).len() == entries.len(),
        (forall|i: int| 0 <= i < entries.len() ==> (#[trigger] entries[i]).0 != key) ==> with_entry(
            entries,
            key,
            monitor,
        ) == entries.push((key, monitor)),
{
    lemma_first_where(entries, under(key));
    let at = first_where(entries, under(key));
    if at < entries.len() {
        assert(under(key)(entries[at]));
        assert(entries[at].0 == key);
    }
    if exists|i: int| 0 <= i < entries.len() && (#[trigger] entries[i]).0 == key {
        let i = choose|i: int| 0 <= i < entries.len() && (#[trigger] entries[i]).0 == key;
        assert(under(key)(entries[i]));
    }
}

/// Of monitors that are put in under one key the last one stays; a key that none of them stands under
/// has what it had.
pub proof fn law_last_of_key_stays(
    entries: Seq<(Seq<char>, MonitorView)>,
    added: Seq<(Seq<char>, MonitorView)>,
    key: Seq<char>,
    at: int,
)
    requires
        -1 <= at < added.len(),
        at >= 0 ==> added[at].0 == key,
        forall|k: int| at < k < added.len() ==> (#[trigger] added[k]).0 != key,
    ensures
        at >= 0 ==> lookup(with_entries(entries, added), key) == Some(added[at].1),
        at == -1 ==> lookup(with_entries(entries, added), key) == lookup(entries, key),
    decreases added.len(),
{
    if added.len() > 0 {
        let front = added.drop_last();
        law_get_after_insert(with_entries(entries, front), added.last().0, added.last().1, key);
        if at < added.len() - 1 {
            assert(added[added.len() - 1].0 != key);
            assert forall|k: int| at < k < front.len() implies (#[trigger] front[k]).0 != key by {
                assert(front[k] == added[k]);
            }
            if at >= 0 {
                assert(front[at] == added[at]);
            }
            law_last_of_key_stays(entries, front, key, at);
        }
    }
}

/// Every entry of a list of some monitors is one of them, under its key.
pub proof fn law_entries_are_those_given(added: Seq<(Seq<char>, MonitorView)>, i: int)
    requires
        0 <= i < with_entries(Seq::empty(), added).len(),
    ensures
        added.contains(with_entries(Seq::empty(), added)[i]),
    decreases added.len(),
{
    if added.len() > 0 {
        let front = added.drop_last();
        let before = with_entries(Seq::empty(), front);
        let key = added.last().0;
        let after = with_entries(Seq::empty(), added);
        lemma_first_where(before, under(key));
        if i < before.len() && after[i] == before[i] {
            law_entries_are_those_given(front, i);
            let k = choose|k: int| 0 <= k < front.len() && front[k] == before[i];
            assert(added[k] == after[i]);
        } else {
            assert(after[i] == (key, added.last().1));
            assert(added[added.len() - 1] == after[i]);
        }
    }
}

/// An entry holds its key and its monitor.
pub proof fn law_entry_view(entry: (String, Monitor))
    ensures
        entry_view(entry).0 == entry.0@,
        entry_view(entry).1 == entry.1@,
{
}

} // verus!
