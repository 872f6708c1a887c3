//! The claims on the canonical value, as the native runtime counts them.
//!
//! The native runtime frees a value when its last claim is released. The
//! cache builds the canonical value with one claim, which it keeps for good,
//! and adds one claim for every request; a requester releases the claim it
//! was given and no other. `Ledger` is the count that follows from these
//! rules, and the laws below say that the canonical value outlives every
//! requester, is built at most once and never changes.

use vstd::prelude::*;
use vstd::string::StringSliceAdditionalSpecFns;
use crate::cache::{plan, CacheStep};
use crate::config::SPOOFED_UUID;
use crate::dispatch::{
    decision, lemma_only_the_target_key_is_spoofed, reads, target_key, Action, CallArguments,
    DispatchError, Reading,
};

verus! {

/// The bytes of the text that the canonical value is built from.
pub open spec fn payload() -> Seq<u8> {
    SPOOFED_UUID.spec_bytes()
}

/// The cache entry together with what the native runtime knows of the value
/// behind it.
pub struct Ledger {
    /// The handle that the cache holds.
    pub entry: Option<usize>,
    /// The text that the value at that handle was built from.
    pub content: Seq<u8>,
    /// How many values have been built.
    pub constructions: nat,
    /// The claims on the canonical value: the cache's own and the requesters'.
    pub claims: nat,
    /// The claims that were given to requesters and not released yet.
    pub outstanding: nat,
}

/// What can happen to the canonical value.
pub enum Event {
    /// A request is served. `fresh` is the handle that the native runtime
    /// gives to the value if the request has it built.
    Acquire { fresh: usize },
    /// A requester releases the claim it was given.
    Release,
}

impl Ledger {
    /// The ledger of a cache that holds nothing.
    pub open spec fn empty() -> Ledger {
        Ledger { entry: None, content: Seq::empty(), constructions: 0, claims: 0, outstanding: 0 }
    }

    /// The counts agree with the entry: nothing is counted before the value
    /// is built; after that it was built once, from the fixed text, and of its
    /// claims exactly one is the cache's own.
    pub open spec fn sound(self) -> bool {
        match self.entry {
            None => self.constructions == 0 && self.claims == 0 && self.outstanding == 0,
            Some(handle) => {
                &&& handle != 0
                &&& self.content == payload()
                &&& self.constructions == 1
                &&& self.claims == self.outstanding + 1
            },
        }
    }

    /// The native runtime has built a value from `text` at `handle`, with one
    /// claim, and the cache has stored it.
    pub open spec fn built(self, handle: usize, text: Seq<u8>) -> Ledger {
        Ledger {
            entry: Some(handle),
            content: text,
            constructions: self.constructions + 1,
            claims: 1,
            outstanding: self.outstanding,
        }
    }

    /// One more claim was added and given to a requester.
    pub open spec fn retained(self) -> Ledger {
        Ledger { claims: self.claims + 1, outstanding: self.outstanding + 1, ..self }
    }

    /// A requester has released its claim.
    pub open spec fn released(self) -> Ledger {
        Ledger {
            claims: (self.claims - 1) as nat,
            outstanding: (self.outstanding - 1) as nat,
            ..self
        }
    }

    /// The ledger after `step` was carried out, `fresh` being the handle
    /// that the native runtime gives to a value it builds.
    pub open spec fn carried_out(self, step: CacheStep, fresh: usize) -> Ledger {
        match step {
            CacheStep::Construct { text, .. } => self.built(fresh, text.spec_bytes()),
            CacheStep::Retain { .. } => self.retained(),
        }
    }

    /// One whole request: the step that the cache plans is carried out, and
    /// where that was the building, the step that it plans next.
    pub open spec fn acquired(self, fresh: usize) -> Ledger {
        let first = self.carried_out(plan(self.entry), fresh);
        if plan(self.entry) is Construct {
            first.carried_out(plan(first.entry), fresh)
        } else {
            first
        }
    }

    /// `event` can happen: the native runtime gives no null handle to a
    /// value, and only a claim that is outstanding can be released.
    pub open spec fn admits(self, event: Event) -> bool {
        match event {
            Event::Acquire { fresh } => fresh != 0,
            Event::Release => self.outstanding > 0,
        }
    }

    /// The ledger after `event`.
    pub open spec fn after(self, event: Event) -> Ledger {
        match event {
            Event::Acquire { fresh } => self.acquired(fresh),
            Event::Release => self.released(),
        }
    }

    /// The ledger after `events`, in their order.
    pub open spec fn run(self, events: Seq<Event>) -> Ledger
        decreases events.len(),
    {
        if events.len() == 0 {
            self
        } else {
            self.run(events.drop_last()).after(events.last())
        }
    }

    /// Each of `events` can happen when its turn comes.
    pub open spec fn admits_all(self, events: Seq<Event>) -> bool
        decreases events.len(),
    {
        events.len() == 0 || (self.admits_all(events.drop_last()) && self.run(
            events.drop_last(),
        ).admits(events.last()))
    }
}

/// One request after the other, the native runtime offering `fresh[i]` to the
/// request `i`.
pub open spec fn requests(fresh: Seq<usize>) -> Seq<Event> {
    Seq::new(fresh.len(), |i: int| Event::Acquire { fresh: fresh[i] })
}

/// `n` releases in a row.
pub open spec fn releases(n: nat) -> Seq<Event> {
    Seq::new(n, |i: int| Event::Release)
}

/// One event keeps a sound ledger sound, builds nothing where a value is
/// held, and leaves the entry and its text as they are once they are there.
pub proof fn lemma_event_keeps_sound(ledger: Ledger, event: Event)
    requires
        ledger.sound(),
        ledger.admits(event),
    ensures
        ledger.after(event).sound(),
        ledger.after(event).entry is Some ==> ledger.after(event).claims >= 1,
        ledger.entry is Some ==> ledger.after(event).entry == ledger.entry,
        ledger.entry is Some ==> ledger.after(event).content == ledger.content,
        ledger.entry is Some ==> ledger.after(event).constructions == ledger.constructions,
        event is Acquire ==> ledger.after(event).entry is Some,
{
}

/// Whatever requesters do with the claims they were given, in whatever
/// order requests and releases come: the counts stay sound, so the canonical
/// value keeps the cache's own claim and is never freed; at most one value is
/// ever built; and an entry that was there stays, with its text.
pub proof fn lemma_run_keeps_sound(ledger: Ledger, events: Seq<Event>)
    requires
        ledger.sound(),
        ledger.admits_all(events),
    ensures
        ledger.run(events).sound(),
        ledger.run(events).constructions <= 1,
        ledger.run(events).entry is Some ==> ledger.run(events).claims >= 1,
        ledger.entry is Some ==> ledger.run(events).entry == ledger.entry,
        ledger.entry is Some ==> ledger.run(events).content == ledger.content,
    decreases events.len(),
{
    if events.len() > 0 {
        lemma_run_keeps_sound(ledger, events.drop_last());
        lemma_event_keeps_sound(ledger.run(events.drop_last()), events.last());
    }
}

/// The value is alive at every moment of such a history, not only at its end.
pub proof fn lemma_never_freed(ledger: Ledger, events: Seq<Event>, k: int)
    requires
        ledger.sound(),
        ledger.admits_all(events),
        0 <= k <= events.len(),
    ensures
        ledger.admits_all(events.take(k)),
        ledger.run(events.take(k)).sound(),
        ledger.run(events.take(k)).entry is Some ==> ledger.run(events.take(k)).claims >= 1,
    decreases events.len(),
{
    if k == events.len() {
        assert(events.take(k) =~= events);
        lemma_run_keeps_sound(ledger, events);
    } else {
        assert(events.drop_last().take(k) =~= events.take(k));
        lemma_never_freed(ledger, events.drop_last(), k);
    }
}

/// Running two histories in a row is running their concatenation.
pub proof fn lemma_run_concat(ledger: Ledger, first: Seq<Event>, second: Seq<Event>)
    ensures
        ledger.run(first + second) == ledger.run(first).run(second),
        ledger.admits_all(first + second) == (ledger.admits_all(first) && ledger.run(
            first,
        ).admits_all(second)),
    decreases second.len(),
{
    if second.len() == 0 {
        assert(first + second =~= first);
    } else {
        assert((first + second).drop_last() =~= first + second.drop_last());
        assert((first + second).last() == second.last());
        lemma_run_concat(ledger, first, second.drop_last());
    }
}

/// Requests alone: each can be served, each adds one claim and one
/// outstanding handle, and the first of them on an empty cache builds the
/// value, at the handle that the native runtime offered to it.
pub proof fn lemma_requests(ledger: Ledger, fresh: Seq<usize>)
    requires
        ledger.sound(),
        forall|i: int| 0 <= i < fresh.len() ==> fresh[i] != 0,
    ensures
        ledger.admits_all(requests(fresh)),
        ledger.run(requests(fresh)).sound(),
        ledger.run(requests(fresh)).outstanding == ledger.outstanding + fresh.len(),
        fresh.len() > 0 ==> ledger.run(requests(fresh)).entry == (match ledger.entry {
            Some(handle) => Some(handle),
            None => Some(fresh[0]),
        }),
        fresh.len() > 0 ==> ledger.run(requests(fresh)).constructions == 1,
    decreases fresh.len(),
{
    if fresh.len() > 0 {
        let head = fresh.drop_last();
        lemma_requests(ledger, head);
        assert(requests(fresh).drop_last() =~= requests(head));
        assert(requests(fresh).last() == Event::Acquire { fresh: fresh.last() });
        lemma_event_keeps_sound(ledger.run(requests(head)), requests(fresh).last());
    }
}

/// Releases alone: as many can happen as there are outstanding handles, and
/// they take away those claims and nothing else.
pub proof fn lemma_releases(ledger: Ledger, n: nat)
    requires
        ledger.sound(),
        n <= ledger.outstanding,
    ensures
        ledger.admits_all(releases(n)),
        ledger.run(releases(n)).sound(),
        ledger.run(releases(n)).outstanding == ledger.outstanding - n,
        ledger.run(releases(n)).entry == ledger.entry,
        ledger.run(releases(n)).content == ledger.content,
        ledger.run(releases(n)).constructions == ledger.constructions,
    decreases n,
{
    if n > 0 {
        let fewer = (n - 1) as nat;
        lemma_releases(ledger, fewer);
        assert(releases(n).drop_last() =~= releases(fewer));
        assert(releases(n).last() == Event::Release);
        lemma_event_keeps_sound(ledger.run(releases(fewer)), Event::Release);
    }
}

/// Acquiring any number of times and then releasing every handle that was
/// returned leaves the canonical value as it was: still held by the cache,
/// at the same handle and with the same text, with the cache's own claim and
/// none more than before. The next request is served from it and builds
/// nothing.
pub proof fn lemma_acquire_release_balanced(ledger: Ledger, fresh: Seq<usize>)
    requires
        ledger.sound(),
        fresh.len() >= 1,
        forall|i: int| 0 <= i < fresh.len() ==> fresh[i] != 0,
    ensures
        ({
            let history = requests(fresh) + releases(fresh.len());
            let end = ledger.run(history);
            &&& ledger.admits_all(history)
            &&& end.sound()
            &&& end.entry == ledger.run(requests(fresh)).entry
            &&& end.entry is Some
            &&& end.content == payload()
            &&& end.constructions == 1
            &&& end.outstanding == ledger.outstanding
            &&& end.claims == ledger.outstanding + 1
            &&& plan(end.entry) == (CacheStep::Retain { handle: end.entry->Some_0 })
            &&& forall|next: usize| end.acquired(next).entry == end.entry
            &&& forall|next: usize| end.acquired(next).constructions == 1
        }),
{
    let served = ledger.run(requests(fresh));
    lemma_requests(ledger, fresh);
    lemma_releases(served, fresh.len());
    lemma_run_concat(ledger, requests(fresh), releases(fresh.len()));
}

/// A call for the target key is answered from the cache, whatever else it
/// carries and whether or not the binding is armed, and the handle it is
/// given stands for a value built from the fixed text: the one the cache
/// held before, or the one built for this call.
pub proof fn lemma_spoofed_call_gets_payload(
    original: Option<usize>,
    arguments: CallArguments,
    reading: Option<Reading>,
    ledger: Ledger,
    fresh: usize,
)
    requires
        arguments.key != 0,
        reading is Some,
        reads(target_key(), reading),
        ledger.sound(),
        fresh != 0,
    ensures
        decision(original, arguments, reading) == Ok::<Action, DispatchError>(Action::Spoof),
        ledger.acquired(fresh).sound(),
        ledger.acquired(fresh).content == payload(),
        ledger.acquired(fresh).entry == (match ledger.entry {
            Some(handle) => Some(handle),
            None => Some(fresh),
        }),
        ledger.acquired(fresh).outstanding == ledger.outstanding + 1,
{
    lemma_only_the_target_key_is_spoofed(original, arguments, target_key(), reading);
}

/// However many first requests arrive at an empty cache, once each has had
/// the cache to itself in turn exactly one value has been built: the one of
/// the request that came first.
pub proof fn lemma_first_requests_build_once(fresh: Seq<usize>)
    requires
        fresh.len() >= 1,
        forall|i: int| 0 <= i < fresh.len() ==> fresh[i] != 0,
    ensures
        Ledger::empty().run(requests(fresh)).constructions == 1,
        Ledger::empty().run(requests(fresh)).entry == Some(fresh[0]),
        Ledger::empty().run(requests(fresh)).content == payload(),
        Ledger::empty().run(requests(fresh)).claims == fresh.len() + 1,
{
    lemma_requests(Ledger::empty(), fresh);
}

} // verus!
