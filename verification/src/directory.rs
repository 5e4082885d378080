//! Who is reachable through which sink.
use crate::crypto::PublicKey;
use vstd::prelude::*;

verus! {

/// The name of a sink: of the queue in front of the writer of one connection. The tasks
/// around the service hold the queues themselves and know them by these names.
pub type SinkId = u64;

/// The sink that `entries` hold for `key`, if they hold one.
pub open spec fn lookup(entries: Seq<(Seq<u8>, SinkId)>, key: Seq<u8>) -> Option<SinkId>
    decreases entries.len(),
{
    if entries.len() == 0 {
        None
    } else if entries.last().0 == key {
        Some(entries.last().1)
    } else {
        lookup(entries.drop_last(), key)
    }
}

/// Where `entries` hold `key`: the last such place, or `None`.
pub open spec fn position(entries: Seq<(Seq<u8>, SinkId)>, key: Seq<u8>) -> Option<int>
    decreases entries.len(),
{
    if entries.len() == 0 {
        None
    } else if entries.last().0 == key {
        Some(entries.len() - 1)
    } else {
        position(entries.drop_last(), key)
    }
}

/// `entries` with `sink` for `key`: in the place of the old sink for `key`, or at the end.
pub open spec fn put(entries: Seq<(Seq<u8>, SinkId)>, key: Seq<u8>, sink: SinkId) -> Seq<
    (Seq<u8>, SinkId),
> {
    match position(entries, key) {
        Some(at) => entries.update(at, (key, sink)),
        None => entries.push((key, sink)),
    }
}

/// `entries` without those that lead to `sink`, in their order.
pub open spec fn without_sink(entries: Seq<(Seq<u8>, SinkId)>, sink: SinkId) -> Seq<
    (Seq<u8>, SinkId),
>
    decreases entries.len(),
{
    if entries.len() == 0 {
        Seq::empty()
    } else if entries.last().1 == sink {
        without_sink(entries.drop_last(), sink)
    } else {
        without_sink(entries.drop_last(), sink).push(entries.last())
    }
}

/// Whether no key stands twice in `entries`.
pub open spec fn distinct_keys(entries: Seq<(Seq<u8>, SinkId)>) -> bool {
    forall|i: int, j: int|
        0 <= i < entries.len() && 0 <= j < entries.len() && i != j ==> (#[trigger] entries[i]).0 != (
        #[trigger] entries[j]).0
}

/// Where a key is found, its entry stands; where it is not, no entry has it.
pub proof fn lemma_position(entries: Seq<(Seq<u8>, SinkId)>, key: Seq<u8>)
    ensures
        match position(entries, key) {
            Some(at) => 0 <= at < entries.len() && entries[at].0 == key && lookup(entries, key)
                == Some(entries[at].1),
            None => lookup(entries, key) is None && forall|i: int|
                0 <= i < entries.len() ==> (#[trigger] entries[i]).0 != key,
        },
    decreases entries.len(),
{
    if entries.len() > 0 && entries.last().0 != key {
        lemma_position(entries.drop_last(), key);
        match position(entries, key) {
            Some(at) => {},
            None => {
                assert forall|i: int| 0 <= i < entries.len() implies (#[trigger] entries[i]).0
                    != key by {
                    if i < entries.len() - 1 {
                        assert(entries.drop_last()[i].0 != key);
                    }
                }
            },
        }
    }
}

/// Among distinct keys, the entry at a place is the one that its key is found at.
pub proof fn lemma_position_of_entry(entries: Seq<(Seq<u8>, SinkId)>, at: int)
    requires
        distinct_keys(entries),
        0 <= at < entries.len(),
    ensures
        position(entries, entries[at].0) == Some(at),
        lookup(entries, entries[at].0) == Some(entries[at].1),
{
    lemma_position(entries, entries[at].0);
}

/// After `put`, the key has the new sink, every other key has what it had, and the keys
/// stay distinct.
pub proof fn lemma_put(entries: Seq<(Seq<u8>, SinkId)>, key: Seq<u8>, sink: SinkId)
    requires
        distinct_keys(entries),
    ensures
        distinct_keys(put(entries, key, sink)),
        lookup(put(entries, key, sink), key) == Some(sink),
        forall|other: Seq<u8>|
            other != key ==> lookup(put(entries, key, sink), other) == lookup(entries, other),
{
    let after = put(entries, key, sink);
    lemma_position(entries, key);
    assert(distinct_keys(after)) by {
        assert forall|i: int, j: int|
            0 <= i < after.len() && 0 <= j < after.len() && i != j implies (#[trigger] after[i]).0
            != (#[trigger] after[j]).0 by {
            match position(entries, key) {
                Some(at) => {
                    assert(after[i].0 == entries[i].0);
                },
                None => {
                    if i < entries.len() {
                        assert(after[i].0 == entries[i].0);
                    }
                    if j < entries.len() {
                        assert(after[j].0 == entries[j].0);
                    }
                },
            }
        }
    }
    match position(entries, key) {
        Some(at) => {
            lemma_position_of_entry(after, at);
        },
        None => {},
    }
    assert forall|other: Seq<u8>| other != key implies lookup(after, other) == lookup(
        entries,
        other,
    ) by {
        lemma_position(entries, other);
        lemma_position(after, other);
        match position(entries, other) {
            Some(at) => {
                lemma_position_of_entry(after, at);
            },
            None => {
                match position(after, other) {
                    Some(at) => {
                        if at < entries.len() {
                            assert(entries[at].0 == after[at].0);
                        }
                    },
                    None => {},
                }
            },
        }
    }
}

/// What is left without a sink is what there was, but for the entries of that sink: every
/// key keeps its sink unless that was the one, and the keys stay distinct.
pub proof fn lemma_without_sink(entries: Seq<(Seq<u8>, SinkId)>, sink: SinkId)
    requires
        distinct_keys(entries),
    ensures
        distinct_keys(without_sink(entries, sink)),
        without_sink(entries, sink).len() <= entries.len(),
        forall|i: int|
            0 <= i < without_sink(entries, sink).len() ==> exists|j: int|
                0 <= j < entries.len() && entries[j] == #[trigger] without_sink(entries, sink)[i],
        forall|key: Seq<u8>|
            lookup(without_sink(entries, sink), key) == match lookup(entries, key) {
                Some(found) => if found == sink {
                    None
                } else {
                    Some(found)
                },
                None => None,
            },
    decreases entries.len(),
{
    let left = without_sink(entries, sink);
    if entries.len() > 0 {
        let front = entries.drop_last();
        let last = entries.last();
        assert(distinct_keys(front)) by {
            assert forall|i: int, j: int|
                0 <= i < front.len() && 0 <= j < front.len() && i != j implies (
            #[trigger] front[i]).0 != (#[trigger] front[j]).0 by {
                assert(front[i] == entries[i]);
            }
        }
        lemma_without_sink(front, sink);
        let before = without_sink(front, sink);
        assert forall|i: int| 0 <= i < left.len() implies exists|j: int|
            0 <= j < entries.len() && entries[j] == #[trigger] left[i] by {
            if i < before.len() {
                let j = choose|j: int| 0 <= j < front.len() && front[j] == before[i];
                assert(entries[j] == left[i]);
            } else {
                assert(entries[entries.len() - 1] == left[i]);
            }
        }
        lemma_position(front, last.0);
        assert(lookup(front, last.0) is None) by {
            if lookup(front, last.0) is Some {
                let at = position(front, last.0)->0;
                assert(entries[at].0 == last.0);
            }
        }
        assert forall|key: Seq<u8>|
            lookup(left, key) == match lookup(entries, key) {
                Some(found) => if found == sink {
                    None
                } else {
                    Some(found)
                },
                None => None,
            } by {
            let earlier = lookup(before, key);
            assert(earlier == match lookup(front, key) {
                Some(found) => if found == sink {
                    None
                } else {
                    Some(found)
                },
                None => None,
            });
            if last.0 == key {
                assert(lookup(entries, key) == Some(last.1));
            } else {
                assert(lookup(entries, key) == lookup(front, key));
            }
            if last.1 != sink {
                assert(left.drop_last() =~= before);
                assert(lookup(left, key) == if last.0 == key {
                    Some(last.1)
                } else {
                    lookup(before, key)
                });
            } else {
                assert(left == before);
            }
        }
        if last.1 != sink {
            assert(distinct_keys(left)) by {
                assert forall|i: int, j: int|
                    0 <= i < left.len() && 0 <= j < left.len() && i != j implies (
                #[trigger] left[i]).0 != (#[trigger] left[j]).0 by {
                    if i < before.len() && j < before.len() {
                        assert(before[i].0 != before[j].0);
                    } else if i < before.len() {
                        let k = choose|k: int| 0 <= k < front.len() && front[k] == before[i];
                        assert(entries[k].0 != entries[entries.len() - 1].0);
                    } else {
                        let k = choose|k: int| 0 <= k < front.len() && front[k] == before[j];
                        assert(entries[k].0 != entries[entries.len() - 1].0);
                    }
                }
            }
        }
    }
}

/// A directory of sinks by the public key of who is reached through them. Each key has at
/// most one sink; the entries stand in the order in which their keys came in.
pub struct Directory {
    entries: Vec<(PublicKey, SinkId)>,
}

/// The entries as plain values.
pub open spec fn entry_views(entries: Seq<(PublicKey, SinkId)>) -> Seq<(Seq<u8>, SinkId)> {
    Seq::new(entries.len(), |i: int| (entries[i].0@, entries[i].1))
}

impl View for Directory {
    type V = Seq<(Seq<u8>, SinkId)>;

    /// The entries, in the order in which their keys came in.
    closed spec fn view(&self) -> Seq<(Seq<u8>, SinkId)> {
        entry_views(self.entries@)
    }
}

impl Directory {
    #[verifier::type_invariant]
    spec fn inv(&self) -> bool {
        distinct_keys(entry_views(self.entries@))
    }

    /// Whether no key stands twice, which holds of every directory.
    pub open spec fn wf(&self) -> bool {
        distinct_keys(self@)
    }

    /// A directory without entries.
    pub fn new() -> (directory: Self)
        ensures
            directory@ == Seq::<(Seq<u8>, SinkId)>::empty(),
            directory.wf(),
    {
        let directory = Directory { entries: Vec::new() };
        assert(directory@ =~= Seq::<(Seq<u8>, SinkId)>::empty());
        directory
    }

    /// No key stands twice in a directory: a call tells the caller so, and does nothing else.
    pub fn keys_are_distinct(&self)
        ensures
            self.wf(),
    {
        proof {
            use_type_invariant(self);
        }
    }

    /// How many entries there are.
    pub fn len(&self) -> (len: usize)
        ensures
            len == self@.len(),
    {
        self.entries.len()
    }

    fn find(&self, key: &PublicKey) -> (found: Option<usize>)
        ensures
            match found {
                Some(at) => position(self@, key@) == Some(at as int) && at < self.entries@.len(),
                None => position(self@, key@) is None,
            },
    {
        proof {
            use_type_invariant(self);
        }
        let ghost views = self@;
        let mut at: usize = 0;
        assert(views.take(0) =~= Seq::empty());
        while at < self.entries.len()
            invariant
                at <= self.entries@.len(),
                views == entry_views(self.entries@),
                distinct_keys(views),
                position(views.take(at as int), key@) is None,
            decreases self.entries@.len() - at,
        {
            if self.entries[at].0 == *key {
                proof {
                    lemma_position_of_entry(views, at as int);
                }
                return Some(at);
            }
            proof {
                assert(views.take(at + 1).drop_last() =~= views.take(at as int));
            }
            at = at + 1;
        }
        assert(views.take(at as int) =~= views);
        None
    }

    /// The sink for `key`, if there is one.
    pub fn get(&self, key: &PublicKey) -> (sink: Option<SinkId>)
        ensures
            sink == lookup(self@, key@),
    {
        proof {
            lemma_position(self@, key@);
        }
        match self.find(key) {
            Some(at) => Some(self.entries[at].1),
            None => None,
        }
    }

    /// Whether there is a sink for `key`.
    pub fn contains_key(&self, key: &PublicKey) -> (held: bool)
        ensures
            held == lookup(self@, key@).is_some(),
    {
        self.get(key).is_some()
    }

    /// Set the sink for `key`, and return the one that it had before, if it had one.
    pub fn insert(&mut self, key: PublicKey, sink: SinkId) -> (before: Option<SinkId>)
        ensures
            before == lookup(old(self)@, key@),
            final(self)@ == put(old(self)@, key@, sink),
            final(self).wf(),
    {
        proof {
            use_type_invariant(&*self);
            lemma_position(self@, key@);
            lemma_put(self@, key@, sink);
        }
        let found = self.find(&key);
        let ghost entries = self.entries@;
        let mut updated: Vec<(PublicKey, SinkId)> = Vec::new();
        let mut at: usize = 0;
        while at < self.entries.len()
            invariant
                at <= self.entries@.len(),
                entries == self.entries@,
                updated@.len() == at,
                found matches Some(place) ==> place < entries.len(),
                forall|i: int|
                    0 <= i < at ==> updated@[i] == if found == Some(i as usize) {
                        (key, sink)
                    } else {
                        entries[i]
                    },
            decreases self.entries@.len() - at,
        {
            if found == Some(at) {
                updated.push((key, sink));
            } else {
                updated.push(self.entries[at]);
            }
            at = at + 1;
        }
        match found {
            Some(place) => {
                let before = self.entries[place].1;
                assert(entry_views(updated@) =~= put(entry_views(entries), key@, sink));
                self.entries = updated;
                Some(before)
            },
            None => {
                updated.push((key, sink));
                assert(entry_views(updated@) =~= put(entry_views(entries), key@, sink));
                self.entries = updated;
                None
            },
        }
    }

    /// Take out every entry that leads to `sink`: its writer is gone.
    pub fn remove_sink(&mut self, sink: SinkId)
        ensures
            final(self)@ == without_sink(old(self)@, sink),
            final(self).wf(),
    {
        proof {
            use_type_invariant(&*self);
            lemma_without_sink(self@, sink);
        }
        let ghost entries = self.entries@;
        let mut kept: Vec<(PublicKey, SinkId)> = Vec::new();
        let mut at: usize = 0;
        assert(entry_views(entries).take(0) =~= Seq::empty());
        while at < self.entries.len()
            invariant
                at <= self.entries@.len(),
                entries == self.entries@,
                entry_views(kept@) == without_sink(entry_views(entries).take(at as int), sink),
            decreases self.entries@.len() - at,
        {
            let ghost before = kept@;
            let entry = self.entries[at];
            proof {
                let views = entry_views(entries);
                assert(views.take(at + 1).drop_last() =~= views.take(at as int));
            }
            if entry.1 != sink {
                kept.push(entry);
            }
            at = at + 1;
        }
        assert(entry_views(entries).take(at as int) =~= entry_views(entries));
        self.entries = kept;
    }

    /// The keys, in the order in which they came in.
    pub fn keys(&self) -> (keys: Vec<PublicKey>)
        ensures
            keys@.len() == self@.len(),
            forall|i: int| 0 <= i < keys@.len() ==> (#[trigger] keys@[i])@ == self@[i].0,
    {
        let mut keys: Vec<PublicKey> = Vec::new();
        let mut at: usize = 0;
        while at < self.entries.len()
            invariant
                at <= self.entries@.len(),
                keys@.len() == at,
                forall|i: int|
                    0 <= i < at ==> (#[trigger] keys@[i])@ == entry_views(self.entries@)[i].0,
            decreases self.entries@.len() - at,
        {
            keys.push(self.entries[at].0);
            at = at + 1;
        }
        keys
    }

    /// The sinks, in the order in which their keys came in.
    pub fn sinks(&self) -> (sinks: Vec<SinkId>)
        ensures
            sinks@.len() == self@.len(),
            forall|i: int| 0 <= i < sinks@.len() ==> sinks@[i] == self@[i].1,
    {
        let mut sinks: Vec<SinkId> = Vec::new();
        let mut at: usize = 0;
        while at < self.entries.len()
            invariant
                at <= self.entries@.len(),
                sinks@.len() == at,
                forall|i: int| 0 <= i < at ==> sinks@[i] == entry_views(self.entries@)[i].1,
            decreases self.entries@.len() - at,
        {
            sinks.push(self.entries[at].1);
            at = at + 1;
        }
        sinks
    }
}

} // verus!
