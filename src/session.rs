use vstd::prelude::*;

use network_tables::v4::subscription::SubscriptionOptions;

use crate::path::{path_string, segments_of, MushroomPath};
use crate::table::{
    empty_table, merge, merge_entries, EntryModel, MushroomEntry, MushroomTable, TableModel,
};
use crate::value::{kind_of, strings_view, MushroomValue, ValueKind};
use crate::wire::{encodes, value_of_wire, WireValue};

verus! {

#[verifier::external_type_specification]
#[verifier::external_body]
pub struct ExSubscriptionOptions(SubscriptionOptions);

/// Target period of one synchronization cycle, in microseconds.
pub const CADENCE_MICROS: u64 = 15000;

/// Capacity of the queues that carry publish and subscription requests to
/// the synchronization loop.
pub const QUEUE_CAPACITY: usize = 255;

/// A request to subscribe to a topic. Its identity is the topic name: a later
/// request for the same name replaces the earlier one's options.
pub struct SubscriptionPackage {
    name: String,
    options: Option<SubscriptionOptions>,
}

impl SubscriptionPackage {
    pub fn new(name: String, options: SubscriptionOptions) -> (r: SubscriptionPackage)
        ensures
            r.name_view() == name@,
            r.options() == Some(options),
    {
        SubscriptionPackage { name, options: Some(options) }
    }

    pub closed spec fn name_view(&self) -> Seq<char> {
        self.name@
    }

    pub closed spec fn options(&self) -> Option<SubscriptionOptions> {
        self.options
    }

    pub fn name(&self) -> (r: &String)
        ensures
            r@ == self.name_view(),
    {
        &self.name
    }

    /// The topic name and the options, for the protocol's subscribe call.
    pub fn into_parts(self) -> (r: (String, Option<SubscriptionOptions>))
        ensures
            r.0@ == self.name_view(),
            r.1 == self.options(),
    {
        (self.name, self.options)
    }
}

/// One subscription to issue. Where `replaces_existing` holds, a
/// subscription with the same topic name is active and is to be
/// unsubscribed first.
pub struct SubscriptionStep {
    pub replaces_existing: bool,
    pub package: SubscriptionPackage,
}

/// One value to send. Where `announce` holds a kind, the topic has not been
/// announced yet in this session and is to be announced with that kind first.
pub struct PublishStep {
    pub topic: String,
    pub announce: Option<ValueKind>,
    pub value: WireValue,
}

/// A message that arrived for a subscription: its topic, its payload, and
/// its time in microseconds of the server's clock.
pub struct InboundMessage {
    pub topic_name: String,
    pub data: WireValue,
    pub timestamp: u64,
}

/// Whether some element of `s` views as `x`.
pub open spec fn holds(s: Seq<Seq<char>>, x: Seq<char>) -> bool {
    exists|i: int| 0 <= i < s.len() && s[i] == x
}

/// Whether `x` is among the first `n` elements of `s`.
pub open spec fn holds_before(s: Seq<Seq<char>>, n: int, x: Seq<char>) -> bool {
    exists|j: int| 0 <= j < n && s[j] == x
}

proof fn lemma_holds_push(s: Seq<Seq<char>>, x: Seq<char>, y: Seq<char>)
    ensures
        holds(s.push(x), y) <==> (holds(s, y) || y == x),
{
    if holds(s, y) {
        let i = choose|i: int| 0 <= i < s.len() && s[i] == y;
        assert(s.push(x)[i] == y);
    }
    if y == x {
        assert(s.push(x)[s.len() as int] == y);
    }
    if holds(s.push(x), y) && y != x {
        let i = choose|i: int| 0 <= i < s.push(x).len() && s.push(x)[i] == y;
        assert(s[i] == y);
    }
}

proof fn lemma_holds_before_next(s: Seq<Seq<char>>, n: int, y: Seq<char>)
    requires
        0 <= n < s.len(),
    ensures
        holds_before(s, n + 1, y) <==> (holds_before(s, n, y) || s[n] == y),
{
    if holds_before(s, n, y) {
        let j = choose|j: int| 0 <= j < n && s[j] == y;
        assert(0 <= j < n + 1 && s[j] == y);
    }
}

proof fn lemma_holds_before_all(s: Seq<Seq<char>>, y: Seq<char>)
    ensures
        holds_before(s, s.len() as int, y) == holds(s, y),
{
}

pub open spec fn package_names(b: Seq<SubscriptionPackage>) -> Seq<Seq<char>> {
    b.map_values(|p: SubscriptionPackage| p.name_view())
}

pub open spec fn entry_topics(s: Seq<EntryModel>) -> Seq<Seq<char>> {
    s.map_values(|e: EntryModel| path_string(e.path))
}

/// The entries that a batch of inbound messages gives, in order; a message
/// whose payload does not read as a value gives none.
pub open spec fn inbound_entries(msgs: Seq<InboundMessage>) -> Seq<EntryModel>
    decreases msgs.len(),
{
    if msgs.len() == 0 {
        Seq::empty()
    } else {
        let m = msgs.last();
        let rest = inbound_entries(msgs.drop_last());
        match value_of_wire(m.data) {
            Some(v) => rest.push(EntryModel { value: v, path: segments_of(m.topic_name@), timestamp: Some(m.timestamp) }),
            None => rest,
        }
    }
}

/// The snapshot that one drain cycle builds: the inbound entries under the
/// server's time.
pub open spec fn inbound_table(server_time: u128, msgs: Seq<InboundMessage>) -> TableModel {
    merge(empty_table(server_time), TableModel { timestamp: server_time, entries: inbound_entries(msgs) })
}

/// Sleep, in microseconds, after a cycle that took `elapsed` microseconds.
pub open spec fn pause_after(elapsed: u64) -> u64 {
    if elapsed < CADENCE_MICROS {
        (CADENCE_MICROS - elapsed) as u64
    } else {
        0
    }
}

/// How long to sleep after a cycle that took `elapsed_micros`: what is left
/// of the cadence, never negative and never more than the cadence.
pub fn pace(elapsed_micros: u64) -> (r: u64)
    ensures
        r == pause_after(elapsed_micros),
        r <= CADENCE_MICROS,
{
    if elapsed_micros < CADENCE_MICROS {
        CADENCE_MICROS - elapsed_micros
    } else {
        0
    }
}

fn contains_string(v: &Vec<String>, x: &String) -> (r: bool)
    ensures
        r == holds(strings_view(v@), x@),
{
    let mut i: usize = 0;
    while i < v.len()
        invariant
            i <= v@.len(),
            forall|k: int| 0 <= k < i ==> v@[k]@ != x@,
        decreases v@.len() - i,
    {
        if v[i] == *x {
            assert(strings_view(v@)[i as int] == x@);
            return true;
        }
        i += 1;
    }
    false
}

/// The decisions of one connection's synchronization loop: which topics are
/// subscribed, which have been announced, and the accumulated table.
pub struct SyncSession {
    subscribed: Vec<String>,
    announced: Vec<String>,
    table: MushroomTable,
}

impl SyncSession {
    pub closed spec fn subscribed(&self) -> Seq<Seq<char>> {
        strings_view(self.subscribed@)
    }

    pub closed spec fn announced(&self) -> Seq<Seq<char>> {
        strings_view(self.announced@)
    }

    pub closed spec fn table(&self) -> TableModel {
        self.table@
    }

    pub closed spec fn wf(&self) -> bool {
        self.table.wf()
    }

    /// A session that has subscribed to and announced nothing, with an empty
    /// table at the server's time.
    pub fn new(server_time: u128) -> (r: SyncSession)
        ensures
            r.wf(),
            r.subscribed().len() == 0,
            r.announced().len() == 0,
            r.table() == empty_table(server_time),
    {
        let r = SyncSession {
            subscribed: Vec::new(),
            announced: Vec::new(),
            table: MushroomTable::new(server_time),
        };
        assert(strings_view(r.subscribed@) =~= Seq::<Seq<char>>::empty());
        assert(strings_view(r.announced@) =~= Seq::<Seq<char>>::empty());
        r
    }

    /// Turns a batch of subscription requests into the subscriptions to
    /// issue, in order. A request replaces an existing subscription when its
    /// topic was subscribed before or earlier in the batch.
    pub fn plan_subscriptions(&mut self, batch: Vec<SubscriptionPackage>) -> (r: Vec<SubscriptionStep>)
        requires
            old(self).wf(),
        ensures
            final(self).wf(),
            final(self).table() == old(self).table(),
            final(self).announced() == old(self).announced(),
            r@.len() == batch@.len(),
            forall|i: int| 0 <= i < r@.len() ==> (#[trigger] r@[i]).package == batch@[i],
            forall|i: int| 0 <= i < r@.len() ==> (#[trigger] r@[i]).replaces_existing == (
                holds(old(self).subscribed(), batch@[i].name_view())
                || holds_before(package_names(batch@), i, batch@[i].name_view())),
            forall|x: Seq<char>| holds(final(self).subscribed(), x) <==> (
                holds(old(self).subscribed(), x) || holds(package_names(batch@), x)),
    {
        let ghost names = package_names(batch@);
        let ghost orig = batch@;
        let mut batch = batch;
        let mut r: Vec<SubscriptionStep> = Vec::new();
        let mut i: usize = 0;
        let total = batch.len();
        while batch.len() > 0
            invariant
                total == orig.len(),
                self.wf(),
                self.table() == old(self).table(),
                self.announced() == old(self).announced(),
                i + batch@.len() == orig.len(),
                batch@ == orig.subrange(i as int, orig.len() as int),
                names == package_names(orig),
                r@.len() == i,
                forall|k: int| 0 <= k < i ==> (#[trigger] r@[k]).package == orig[k],
                forall|k: int| 0 <= k < i ==> (#[trigger] r@[k]).replaces_existing == (
                    holds(old(self).subscribed(), orig[k].name_view())
                    || holds_before(names, k, orig[k].name_view())),
                forall|x: Seq<char>| #[trigger] holds(self.subscribed(), x) <==> (
                    holds(old(self).subscribed(), x) || holds_before(names, i as int, x)),
            decreases batch@.len(),
        {
            let package = batch.remove(0);
            let ghost x = names[i as int];
            assert(package == orig[i as int]);
            assert(package.name@ == x);
            let ghost before = self.subscribed();
            assert(holds(self.subscribed(), x) == (holds(old(self).subscribed(), x) || holds_before(names, i as int, x)));
            let replaces = contains_string(&self.subscribed, &package.name);
            if !replaces {
                let ghost raw = self.subscribed@;
                self.subscribed.push(package.name.clone());
                assert(strings_view(self.subscribed@) =~= strings_view(raw).push(x));
            }
            proof {
                assert forall|y: Seq<char>| holds(self.subscribed(), y) <==> (
                    holds(old(self).subscribed(), y) || holds_before(names, i + 1, y)) by {
                    lemma_holds_before_next(names, i as int, y);
                    if !replaces {
                        lemma_holds_push(before, x, y);
                    }
                }
            }
            r.push(SubscriptionStep { replaces_existing: replaces, package });
            i += 1;
        }
        proof {
            assert forall|x: Seq<char>| holds_before(names, i as int, x) == holds(names, x) by {
                lemma_holds_before_all(names, x);
            }
        }
        r
    }

    /// Turns a snapshot to publish into the values to send, one per entry in
    /// order. A topic is announced the first time this session sends to it,
    /// with the kind of that first value.
    pub fn plan_publish(&mut self, table: &MushroomTable) -> (r: Vec<PublishStep>)
        requires
            old(self).wf(),
        ensures
            final(self).wf(),
            final(self).table() == old(self).table(),
            final(self).subscribed() == old(self).subscribed(),
            r@.len() == table@.entries.len(),
            forall|i: int| 0 <= i < r@.len() ==> (#[trigger] r@[i]).topic@ == path_string(table@.entries[i].path),
            forall|i: int| 0 <= i < r@.len() ==> encodes((#[trigger] r@[i]).value, table@.entries[i].value),
            forall|i: int| 0 <= i < r@.len() ==> (#[trigger] r@[i]).announce == (
                if holds(old(self).announced(), entry_topics(table@.entries)[i])
                    || holds_before(entry_topics(table@.entries), i, entry_topics(table@.entries)[i]) {
                    None
                } else {
                    Some(kind_of(table@.entries[i].value))
                }),
            forall|x: Seq<char>| holds(final(self).announced(), x) <==> (
                holds(old(self).announced(), x) || holds(entry_topics(table@.entries), x)),
    {
        let entries = table.get_entries();
        let ghost topics = entry_topics(table@.entries);
        let mut r: Vec<PublishStep> = Vec::new();
        let mut i: usize = 0;
        while i < entries.len()
            invariant
                self.wf(),
                self.table() == old(self).table(),
                self.subscribed() == old(self).subscribed(),
                crate::table::entries_view(entries@) == table@.entries,
                topics == entry_topics(table@.entries),
                i <= entries@.len(),
                r@.len() == i,
                forall|k: int| 0 <= k < i ==> (#[trigger] r@[k]).topic@ == path_string(table@.entries[k].path),
                forall|k: int| 0 <= k < i ==> encodes((#[trigger] r@[k]).value, table@.entries[k].value),
                forall|k: int| 0 <= k < i ==> (#[trigger] r@[k]).announce == (
                    if holds(old(self).announced(), topics[k]) || holds_before(topics, k, topics[k]) {
                        None
                    } else {
                        Some(kind_of(table@.entries[k].value))
                    }),
                forall|x: Seq<char>| #[trigger] holds(self.announced(), x) <==> (
                    holds(old(self).announced(), x) || holds_before(topics, i as int, x)),
            decreases entries@.len() - i,
        {
            let entry = &entries[i];
            assert(entry@ == table@.entries[i as int]);
            let topic = entry.get_path().to_string();
            assert(topic@ == topics[i as int]);
            let value = entry.get_value();
            let ghost x = topics[i as int];
            let ghost before = self.announced();
            assert(holds(self.announced(), x) == (holds(old(self).announced(), x) || holds_before(topics, i as int, x)));
            let seen = contains_string(&self.announced, &topic);
            let announce = if seen {
                None
            } else {
                let ghost raw = self.announced@;
                self.announced.push(topic.clone());
                assert(strings_view(self.announced@) =~= strings_view(raw).push(x));
                Some(value.kind())
            };
            proof {
                assert forall|y: Seq<char>| holds(self.announced(), y) <==> (
                    holds(old(self).announced(), y) || holds_before(topics, i + 1, y)) by {
                    lemma_holds_before_next(topics, i as int, y);
                    if !seen {
                        lemma_holds_push(before, x, y);
                    }
                }
            }
            r.push(PublishStep { topic, announce, value: value.to_wire() });
            i += 1;
        }
        proof {
            assert forall|x: Seq<char>| holds_before(topics, i as int, x) == holds(topics, x) by {
                lemma_holds_before_all(topics, x);
            }
        }
        r
    }

    /// Forgets that `topic` was announced, as after a failed announcement:
    /// the next value sent to it is announced again.
    pub fn forget_announcement(&mut self, topic: &String)
        requires
            old(self).wf(),
        ensures
            final(self).wf(),
            final(self).table() == old(self).table(),
            final(self).subscribed() == old(self).subscribed(),
            forall|x: Seq<char>| #[trigger] holds(final(self).announced(), x) <==> (
                holds(old(self).announced(), x) && x != topic@),
    {
        let ghost names = self.announced();
        let mut kept: Vec<String> = Vec::new();
        let mut i: usize = 0;
        assert(strings_view(kept@) =~= Seq::<Seq<char>>::empty());
        while i < self.announced.len()
            invariant
                i <= self.announced@.len(),
                names == self.announced(),
                self.wf(),
                self.table() == old(self).table(),
                self.subscribed() == old(self).subscribed(),
                names == old(self).announced(),
                forall|x: Seq<char>| #[trigger] holds(strings_view(kept@), x) <==> (
                    holds_before(names, i as int, x) && x != topic@),
            decreases self.announced@.len() - i,
        {
            let ghost before = strings_view(kept@);
            let ghost y = names[i as int];
            let drop = self.announced[i] == *topic;
            if !drop {
                kept.push(self.announced[i].clone());
                assert(strings_view(kept@) =~= before.push(y));
            }
            proof {
                assert forall|x: Seq<char>| #[trigger] holds(strings_view(kept@), x) <==> (
                    holds_before(names, i + 1, x) && x != topic@) by {
                    lemma_holds_before_next(names, i as int, x);
                    if !drop {
                        lemma_holds_push(before, y, x);
                    }
                }
            }
            i += 1;
        }
        proof {
            assert forall|x: Seq<char>| holds_before(names, i as int, x) == holds(names, x) by {
                lemma_holds_before_all(names, x);
            }
        }
        self.announced = kept;
    }

    /// Drains a cycle's inbound messages into a fresh snapshot at the
    /// server's time, merges it into the accumulated table, and returns the
    /// merged table for readers.
    pub fn absorb_inbound(&mut self, server_time: u128, messages: Vec<InboundMessage>) -> (r: MushroomTable)
        requires
            old(self).wf(),
        ensures
            final(self).wf(),
            final(self).subscribed() == old(self).subscribed(),
            final(self).announced() == old(self).announced(),
            final(self).table() == merge(old(self).table(), inbound_table(server_time, messages@)),
            r.wf(),
            r@ == final(self).table(),
    {
        let mut fresh = MushroomTable::new(server_time);
        let mut i: usize = 0;
        assert(messages@.take(0) =~= Seq::<InboundMessage>::empty());
        while i < messages.len()
            invariant
                i <= messages@.len(),
                fresh.wf(),
                fresh@ == (TableModel {
                    timestamp: server_time,
                    entries: merge_entries(Seq::empty(), inbound_entries(messages@.take(i as int))),
                }),
            decreases messages@.len() - i,
        {
            let m = &messages[i];
            proof {
                assert(messages@.take(i + 1).drop_last() =~= messages@.take(i as int));
                assert(messages@.take(i + 1).last() == messages@[i as int]);
            }
            let ghost prev = inbound_entries(messages@.take(i as int));
            match MushroomValue::from_wire(&m.data) {
                Ok(v) => {
                    let entry = MushroomEntry::new(v, MushroomPath::parse(m.topic_name.as_str()), Some(m.timestamp));
                    fresh.add_entry(entry);
                    proof {
                        let e = EntryModel { value: v@, path: segments_of(m.topic_name@), timestamp: Some(m.timestamp) };
                        assert(entry@ == e);
                        assert(inbound_entries(messages@.take(i + 1)) == prev.push(e));
                        assert(prev.push(e).drop_last() =~= prev);
                    }
                },
                Err(_) => {
                    assert(inbound_entries(messages@.take(i + 1)) == prev);
                },
            }
            i += 1;
        }
        assert(messages@.take(i as int) =~= messages@);
        self.table.update_all(&fresh);
        self.table.duplicate()
    }

    /// The accumulated table.
    pub fn snapshot(&self) -> (r: MushroomTable)
        requires
            self.wf(),
        ensures
            r.wf(),
            r@ == self.table(),
    {
        self.table.duplicate()
    }
}

} // verus!
