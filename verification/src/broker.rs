//! The in-process correlation broker: the map from correlation id to a
//! capacity-one delivery slot.
//!
//! The broker serializes all state changes through one owner; the
//! operations here are that owner's transitions, each with an exact
//! contract over the broker's map model.  A publish for an id with no
//! subscriber is discarded without touching any other id's slot, a second
//! publish before the waiter collects is dropped (at most one delivery per
//! id), and unsubscribing is idempotent.

use vstd::prelude::*;

verus! {

/// One response event from the bus: the correlation id, the opaque
/// payload, and the ASCII status code taken from the message metadata.
#[derive(Clone, Debug)]
pub struct Event {
    id: String,
    pub data: Vec<u8>,
    pub code: String,
}

impl Event {
    /// The correlation id this event answers.
    pub closed spec fn spec_id(&self) -> Seq<char> {
        self.id@
    }

    /// The payload bytes.
    pub closed spec fn spec_data(&self) -> Seq<u8> {
        self.data@
    }

    /// The ASCII status code.
    pub closed spec fn spec_code(&self) -> Seq<char> {
        self.code@
    }

    /// Packs a response event.
    pub fn new(id: String, data: Vec<u8>, code: String) -> (r: Event)
        ensures
            r.spec_id() == id@,
            r.spec_data() == data@,
            r.spec_code() == code@,
    {
        Event { id, data, code }
    }

    /// The correlation id, readable for dispatch.
    pub fn id(&self) -> (r: &str)
        ensures
            r@ == self.spec_id(),
    {
        self.id.as_str()
    }

    /// The status code text.
    pub fn code(&self) -> (r: &str)
        ensures
            r@ == self.spec_code(),
    {
        self.code.as_str()
    }

    /// The payload, consuming the event.
    pub fn into_data(self) -> (r: Vec<u8>)
        ensures
            r@ == self.spec_data(),
    {
        self.data
    }
}

/// One registration: a correlation id and its delivery slot.  The slot
/// holds at most one event until the waiter collects it.
struct Subscription {
    id: String,
    slot: Option<Event>,
}

/// The broker's meaning: which ids are subscribed, and what (if anything)
/// is pending in each slot.
spec fn model_of(s: Seq<Subscription>) -> Map<Seq<char>, Option<Event>>
    decreases s.len(),
{
    if s.len() == 0 {
        Map::empty()
    } else {
        model_of(s.drop_last()).insert(s.last().id@, s.last().slot)
    }
}

/// No id is registered twice.
spec fn unique_ids(s: Seq<Subscription>) -> bool {
    forall|i: int, j: int| 0 <= i < j < s.len() ==> s[i].id@ != s[j].id@
}

/// An id occurs in the list exactly when the model knows it.
proof fn lemma_model_contains(s: Seq<Subscription>, x: Seq<char>)
    ensures
        model_of(s).contains_key(x) <==> exists|i: int| 0 <= i < s.len() && s[i].id@ == x,
    decreases s.len(),
{
    if s.len() == 0 {
    } else {
        lemma_model_contains(s.drop_last(), x);
        if s.last().id@ == x {
            assert(s[s.len() - 1].id@ == x);
        } else {
            assert forall|i: int| 0 <= i < s.len() && s[i].id@ == x implies 0 <= i < s.len() - 1
                && s.drop_last()[i].id@ == x by {
                assert(s[i] == s.drop_last()[i]);
            }
        }
    }
}

/// The model maps each registered id to that registration's slot.
proof fn lemma_model_at(s: Seq<Subscription>, i: int)
    requires
        unique_ids(s),
        0 <= i < s.len(),
    ensures
        model_of(s).contains_key(s[i].id@),
        model_of(s)[s[i].id@] == s[i].slot,
    decreases s.len(),
{
    if i == s.len() - 1 {
    } else {
        assert(s.drop_last()[i] == s[i]);
        lemma_model_at(s.drop_last(), i);
        assert(s.last().id@ != s[i].id@);
    }
}

/// Removing one registration removes exactly its id from the model.
proof fn lemma_model_remove(s: Seq<Subscription>, i: int)
    requires
        unique_ids(s),
        0 <= i < s.len(),
    ensures
        model_of(s.remove(i)) == model_of(s).remove(s[i].id@),
    decreases s.len(),
{
    if i == s.len() - 1 {
        assert(s.remove(i) =~= s.drop_last());
        lemma_model_contains(s.drop_last(), s[i].id@);
        assert forall|j: int| 0 <= j < s.drop_last().len() implies s.drop_last()[j].id@
            != s[i].id@ by {
            assert(s.drop_last()[j] == s[j]);
        }
        assert(!model_of(s.drop_last()).contains_key(s[i].id@));
        assert(model_of(s.drop_last()).insert(s.last().id@, s.last().slot).remove(s[i].id@)
            =~= model_of(s.drop_last()));
    } else {
        assert(s.remove(i).drop_last() =~= s.drop_last().remove(i));
        assert(s.remove(i).last() == s.last());
        assert(forall|j: int| 0 <= j < s.drop_last().len() ==> s.drop_last()[j] == s[j]);
        lemma_model_remove(s.drop_last(), i);
        assert(s.last().id@ != s[i].id@);
        assert(model_of(s.drop_last()).remove(s[i].id@).insert(s.last().id@, s.last().slot)
            =~= model_of(s.drop_last()).insert(s.last().id@, s.last().slot).remove(s[i].id@));
    }
}

/// What one publish does to the broker's map: fill the id's empty slot,
/// or change nothing when the id is unknown or its slot is already full.
pub open spec fn publish_effect(m: Map<Seq<char>, Option<Event>>, e: Event) -> Map<
    Seq<char>,
    Option<Event>,
> {
    if m.contains_key(e.spec_id()) && m[e.spec_id()] is None {
        m.insert(e.spec_id(), Some(e))
    } else {
        m
    }
}

/// What a queue of publishes does to the broker's map, first to last.
pub open spec fn drain_effect(m: Map<Seq<char>, Option<Event>>, evs: Seq<Event>) -> Map<
    Seq<char>,
    Option<Event>,
>
    decreases evs.len(),
{
    if evs.len() == 0 {
        m
    } else {
        drain_effect(publish_effect(m, evs[0]), evs.drop_first())
    }
}

/// A command for the broker's owner task, read off its input channels.
pub enum Command {
    Subscribe(String),
    Unsubscribe(String),
    Publish(Event),
}

/// The correlation broker.  All mutations go through its methods; the
/// owner task applies them one at a time.
pub struct Broker {
    subs: Vec<Subscription>,
}

impl Broker {
    /// Which ids are subscribed, and what is pending for each.
    pub closed spec fn model(&self) -> Map<Seq<char>, Option<Event>> {
        model_of(self.subs@)
    }

    /// Internal consistency: one registration per id.
    pub closed spec fn wf(&self) -> bool {
        unique_ids(self.subs@)
    }

    /// True when `id` has an active subscription.
    pub open spec fn has_subscriber(&self, id: Seq<char>) -> bool {
        self.model().contains_key(id)
    }

    /// A broker with no subscriptions.
    pub fn new() -> (r: Broker)
        ensures
            r.wf(),
            r.model() == Map::<Seq<char>, Option<Event>>::empty(),
    {
        Broker { subs: Vec::new() }
    }

    /// The position of `id`'s registration, if any.
    fn find_index(&self, id: &str) -> (r: Option<usize>)
        ensures
            r matches Some(i) ==> i < self.subs@.len() && self.subs@[i as int].id@ == id@,
            r is None ==> forall|j: int| 0 <= j < self.subs@.len() ==> self.subs@[j].id@ != id@,
    {
        let n = self.subs.len();
        let mut i: usize = 0;
        while i < n
            invariant
                0 <= i <= n,
                n == self.subs@.len(),
                forall|j: int| 0 <= j < i ==> self.subs@[j].id@ != id@,
            decreases n - i,
        {
            if crate::types::str_eq(self.subs[i].id.as_str(), id) {
                return Some(i);
            }
            i = i + 1;
        }
        None
    }

    /// Registers a fresh empty slot under `id`.  Registering an id twice
    /// is a programming error; the publisher mints a fresh id per request,
    /// so the caller can always meet this.
    pub fn subscribe(&mut self, id: String)
        requires
            old(self).wf(),
            !old(self).has_subscriber(id@),
        ensures
            final(self).wf(),
            final(self).model() == old(self).model().insert(id@, Option::<Event>::None),
    {
        proof {
            lemma_model_contains(self.subs@, id@);
        }
        self.subs.push(Subscription { id, slot: None });
        proof {
            assert(self.subs@.drop_last() =~= old(self).subs@);
        }
    }

    /// Drops `id`'s registration and anything pending in its slot.
    /// Idempotent: unsubscribing an unknown id changes nothing.
    pub fn unsubscribe(&mut self, id: &str)
        requires
            old(self).wf(),
        ensures
            final(self).wf(),
            final(self).model() == old(self).model().remove(id@),
            !final(self).has_subscriber(id@),
    {
        match self.find_index(id) {
            Some(i) => {
                proof {
                    lemma_model_remove(self.subs@, i as int);
                    lemma_model_contains(self.subs@.remove(i as int), id@);
                }
                self.subs.remove(i);
                proof {
                    assert(unique_ids(self.subs@)) by {
                        assert(forall|a: int|
                            0 <= a < self.subs@.len() ==> self.subs@[a] == old(self).subs@.remove(
                                i as int,
                            )[a]);
                    }
                }
            },
            None => {
                proof {
                    lemma_model_contains(self.subs@, id@);
                    assert(self.model().remove(id@) =~= self.model());
                }
            },
        }
    }

    /// Delivers `e` to the slot registered under its correlation id.  With
    /// no subscriber the event is discarded; with a full slot it is
    /// dropped, so at most one event is ever delivered per id.  Either
    /// way every other id's registration and slot are untouched, and the
    /// call never waits.
    pub fn publish(&mut self, e: Event)
        requires
            old(self).wf(),
        ensures
            final(self).wf(),
            !old(self).has_subscriber(e.spec_id()) ==> final(self).model() == old(self).model(),
            old(self).has_subscriber(e.spec_id()) && old(self).model()[e.spec_id()] is Some
                ==> final(self).model() == old(self).model(),
            old(self).has_subscriber(e.spec_id()) && old(self).model()[e.spec_id()] is None
                ==> final(self).model() == old(self).model().insert(
                e.spec_id(),
                Some(e),
            ),
            final(self).model() == publish_effect(old(self).model(), e),
            forall|x: Seq<char>|
                x != e.spec_id() ==> (#[trigger] final(self).model().contains_key(x)) == old(
                    self,
                ).model().contains_key(x) && (old(self).model().contains_key(x)
                    ==> final(self).model()[x] == old(self).model()[x]),
    {
        let idx = self.find_index(e.id.as_str());
        match idx {
            None => {
                proof {
                    lemma_model_contains(self.subs@, e.spec_id());
                }
            },
            Some(i) => {
                proof {
                    lemma_model_at(self.subs@, i as int);
                }
                if self.subs[i].slot.is_some() {
                    return ;
                }
                proof {
                    lemma_model_remove(self.subs@, i as int);
                }
                let ghost pre = self.subs@;
                let entry = self.subs.remove(i);
                proof {
                    lemma_model_contains(self.subs@, e.spec_id());
                    assert(unique_ids(self.subs@)) by {
                        assert(forall|a: int|
                            0 <= a < self.subs@.len() ==> self.subs@[a] == pre.remove(i as int)[a]);
                    }
                }
                self.subs.push(Subscription { id: entry.id, slot: Some(e) });
                proof {
                    assert(self.subs@.drop_last() =~= pre.remove(i as int));
                    assert(final(self).model() =~= old(self).model().insert(
                        e.spec_id(),
                        Some(e),
                    ));
                }
            },
        }
    }

    /// Collects the pending event for `id`, if any, leaving the
    /// subscription registered with an empty slot.
    pub fn take(&mut self, id: &str) -> (r: Option<Event>)
        requires
            old(self).wf(),
        ensures
            final(self).wf(),
            !old(self).has_subscriber(id@) ==> r is None && final(self).model() == old(
                self,
            ).model(),
            old(self).has_subscriber(id@) && old(self).model()[id@] is None ==> r is None
                && final(self).model() == old(self).model(),
            old(self).has_subscriber(id@) && old(self).model()[id@] is Some ==> r == old(
                self,
            ).model()[id@] && final(self).model() == old(self).model().insert(
                id@,
                Option::<Event>::None,
            ),
    {
        let idx = self.find_index(id);
        match idx {
            None => {
                proof {
                    lemma_model_contains(self.subs@, id@);
                }
                None
            },
            Some(i) => {
                proof {
                    lemma_model_at(self.subs@, i as int);
                }
                if self.subs[i].slot.is_none() {
                    return None;
                }
                proof {
                    lemma_model_remove(self.subs@, i as int);
                }
                let ghost pre = self.subs@;
                let entry = self.subs.remove(i);
                proof {
                    lemma_model_contains(self.subs@, id@);
                    assert(unique_ids(self.subs@)) by {
                        assert(forall|a: int|
                            0 <= a < self.subs@.len() ==> self.subs@[a] == pre.remove(i as int)[a]);
                    }
                }
                self.subs.push(Subscription { id: entry.id, slot: None });
                proof {
                    assert(self.subs@.drop_last() =~= pre.remove(i as int));
                    assert(final(self).model() =~= old(self).model().insert(
                        id@,
                        Option::<Event>::None,
                    ));
                }
                entry.slot
            },
        }
    }

    /// Applies one owner-task command.  A subscribe for an id already
    /// registered drops the previous registration and starts fresh; the
    /// other commands behave as their direct counterparts.
    pub fn step(&mut self, cmd: Command)
        requires
            old(self).wf(),
        ensures
            final(self).wf(),
            cmd matches Command::Subscribe(id) ==> final(self).model() == old(
                self,
            ).model().insert(id@, Option::<Event>::None),
            cmd matches Command::Unsubscribe(id) ==> final(self).model() == old(
                self,
            ).model().remove(id@),
            cmd matches Command::Publish(e) ==> final(self).model() == publish_effect(
                old(self).model(),
                e,
            ),
    {
        match cmd {
            Command::Subscribe(id) => {
                let ghost gid = id@;
                self.unsubscribe(id.as_str());
                self.subscribe(id);
                proof {
                    assert(final(self).model() =~= old(self).model().insert(
                        gid,
                        Option::<Event>::None,
                    ));
                }
            },
            Command::Unsubscribe(id) => {
                self.unsubscribe(id.as_str());
            },
            Command::Publish(e) => {
                self.publish(e);
            },
        }
    }

    /// Delivers every queued publish event, first to last: the
    /// shutdown-time drain of the owner task.
    pub fn drain(&mut self, pending: Vec<Event>)
        requires
            old(self).wf(),
        ensures
            final(self).wf(),
            final(self).model() == drain_effect(old(self).model(), pending@),
    {
        let ghost evs = pending@;
        let mut work = pending;
        let mut i: usize = 0;
        let n = work.len();
        while i < n
            invariant
                0 <= i <= n,
                n == evs.len(),
                work@ =~= evs.skip(i as int),
                self.wf(),
                drain_effect(old(self).model(), evs) == drain_effect(
                    self.model(),
                    evs.skip(i as int),
                ),
            decreases n - i,
        {
            let e = work.remove(0);
            proof {
                assert(evs.skip(i as int)[0] == e);
                assert(evs.skip(i as int).drop_first() =~= evs.skip(i + 1));
            }
            self.publish(e);
            i = i + 1;
            proof {
                assert(work@ =~= evs.skip(i as int));
            }
        }
        proof {
            assert(evs.skip(n as int) =~= Seq::<Event>::empty());
        }
    }
}

/// The drain registers nothing new: delivering queued publishes can fill
/// slots but never adds or removes a subscription, so shutdown does not
/// accept new work.
pub proof fn lemma_drain_adds_no_subscribers(
    m: Map<Seq<char>, Option<Event>>,
    evs: Seq<Event>,
)
    ensures
        drain_effect(m, evs).dom() =~= m.dom(),
    decreases evs.len(),
{
    if evs.len() > 0 {
        assert(publish_effect(m, evs[0]).dom() =~= m.dom());
        lemma_drain_adds_no_subscribers(publish_effect(m, evs[0]), evs.drop_first());
    }
}

} // verus!
