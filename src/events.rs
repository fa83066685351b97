use vstd::prelude::*;

verus! {

/// An occurrence delivered through the event queue, identified by a stable
/// token and carrying a payload. Two events are the same for containment
/// checks when their tokens agree, whatever their payloads.
#[derive(Debug)]
pub struct Event {
    id: String,
    payload: String,
}

impl View for Event {
    type V = Seq<char>;

    /// The identity token.
    closed spec fn view(&self) -> Seq<char> {
        self.id@
    }
}

impl Clone for Event {
    fn clone(&self) -> (r: Self)
        ensures
            r == *self,
    {
        Event { id: self.id.clone(), payload: self.payload.clone() }
    }
}

impl Event {
    pub closed spec fn spec_payload(&self) -> Seq<char> {
        self.payload@
    }

    /// An event with an empty payload.
    pub fn new(id: &str) -> (e: Event)
        ensures
            e@ == id@,
            e.spec_payload() == Seq::<char>::empty(),
    {
        Event { id: id.to_owned(), payload: String::new() }
    }

    pub fn with_payload(id: &str, payload: &str) -> (e: Event)
        ensures
            e@ == id@,
            e.spec_payload() == payload@,
    {
        Event { id: id.to_owned(), payload: payload.to_owned() }
    }

    pub fn payload(&self) -> (r: &str)
        ensures
            r@ == self.spec_payload(),
    {
        self.payload.as_str()
    }

    /// The identity token of this event.
    pub fn id(&self) -> (r: &str)
        ensures
            r@ == self@,
    {
        self.id.as_str()
    }

    /// Whether two events carry the same identity token.
    pub fn same_identity(&self, other: &Event) -> (r: bool)
        ensures
            r == (self@ == other@),
    {
        self.id == other.id
    }
}

/// The token of the event that asks the frame loop to stop.
pub const EXIT_EVENT_ID: &'static str = "__exit";

/// The one-shot signal that asks the frame loop to stop.
pub fn exit_event() -> (e: Event)
    ensures
        e@ == EXIT_EVENT_ID@,
{
    Event::new(EXIT_EVENT_ID)
}

/// How long an event stays readable.
#[derive(Debug, Clone, Copy, PartialEq, Eq, Structural)]
pub enum EventQueueMode {
    /// Events accumulate until `read` drains them; the caller keeps the
    /// queue from growing without bound.
    StoreUntilConsume,
    /// Events are readable for exactly one rotation, then discarded.
    StoreOnce,
}

impl Default for EventQueueMode {
    fn default() -> (m: Self)
        ensures
            m == EventQueueMode::StoreOnce,
    {
        EventQueueMode::StoreOnce
    }
}

/// Abstract state of an [`EventHandle`]: the events readable this tick,
/// those collected for the next one, and the rotation mode.
pub struct EventQueueView {
    pub current: Seq<Event>,
    pub pending: Seq<Event>,
    pub mode: EventQueueMode,
}

/// Whether an event keeps its place when events with identity `id` are
/// consumed.
pub open spec fn keeps(id: Seq<char>) -> spec_fn(Event) -> bool {
    |e: Event| e@ != id
}

impl EventQueueView {
    pub open spec fn empty(mode: EventQueueMode) -> EventQueueView {
        EventQueueView { current: Seq::empty(), pending: Seq::empty(), mode }
    }

    /// `e` is appended to the events of the next tick.
    pub open spec fn added(self, e: Event) -> EventQueueView {
        EventQueueView { current: self.current, pending: self.pending.push(e), mode: self.mode }
    }

    /// The one-time initial rotation: pending events join the current ones.
    pub open spec fn set_up(self) -> EventQueueView {
        EventQueueView {
            current: self.current + self.pending,
            pending: Seq::empty(),
            mode: self.mode,
        }
    }

    /// The per-tick rotation: in `StoreOnce` mode the current events are
    /// dropped first; the pending events then join the current ones.
    pub open spec fn rotated(self) -> EventQueueView {
        EventQueueView {
            current: if self.mode == EventQueueMode::StoreOnce {
                self.pending
            } else {
                self.current + self.pending
            },
            pending: Seq::empty(),
            mode: self.mode,
        }
    }

    /// What `read` hands out: nothing when no event is current, else all of
    /// them in order.
    pub open spec fn readable(self) -> Option<Seq<Event>> {
        if self.current.len() == 0 {
            None
        } else {
            Some(self.current)
        }
    }

    /// The state after `read`: no event is current any more.
    pub open spec fn drained(self) -> EventQueueView {
        EventQueueView { current: Seq::empty(), pending: self.pending, mode: self.mode }
    }

    /// Whether a current event carries identity `id`.
    pub open spec fn holds(self, id: Seq<char>) -> bool {
        exists|i: int| 0 <= i < self.current.len() && (#[trigger] self.current[i])@ == id
    }

    /// The state after a containment check for `id`: every current event
    /// with that identity is gone, the others keep their order.
    pub open spec fn consumed(self, id: Seq<char>) -> EventQueueView {
        EventQueueView {
            current: self.current.filter(keeps(id)),
            pending: self.pending,
            mode: self.mode,
        }
    }
}

/// Double-buffered event channel: events added during a tick become
/// readable after the next rotation.
#[derive(Debug)]
pub struct EventHandle {
    events: Vec<Event>,
    queue: Vec<Event>,
    mode: EventQueueMode,
}

impl View for EventHandle {
    type V = EventQueueView;

    closed spec fn view(&self) -> EventQueueView {
        EventQueueView { current: self.events@, pending: self.queue@, mode: self.mode }
    }
}

impl EventHandle {
    pub fn new(mode: EventQueueMode) -> (h: EventHandle)
        ensures
            h@ == EventQueueView::empty(mode),
    {
        EventHandle { events: Vec::new(), queue: Vec::new(), mode }
    }

    pub fn mode(&self) -> (m: EventQueueMode)
        ensures
            m == self@.mode,
    {
        self.mode
    }

    /// Queues `event` for the next tick.
    pub fn add(&mut self, event: Event)
        ensures
            final(self)@ == old(self)@.added(event),
    {
        self.queue.push(event);
    }

    /// The initial rotation, run once before the first tick so that events
    /// queued while the game was built are readable in that tick.
    pub fn setup(&mut self)
        ensures
            final(self)@ == old(self)@.set_up(),
    {
        self.events.append(&mut self.queue);
    }

    /// The per-tick rotation.
    pub fn update(&mut self)
        ensures
            final(self)@ == old(self)@.rotated(),
    {
        if self.mode == EventQueueMode::StoreOnce {
            self.events.clear();
        }
        self.events.append(&mut self.queue);
    }

    /// Drains the current events; `None` when there are none.
    pub fn read(&mut self) -> (r: Option<Vec<Event>>)
        ensures
            final(self)@ == old(self)@.drained(),
            r matches Some(v) ==> old(self)@.readable() == Some(v@),
            r is None ==> old(self)@.readable() is None,
    {
        if self.events.len() == 0 {
            assert(self.events@ =~= Seq::<Event>::empty());
            None
        } else {
            let mut out: Vec<Event> = Vec::new();
            std::mem::swap(&mut out, &mut self.events);
            Some(out)
        }
    }

    /// Whether a current event carries the identity of `target`. Every such
    /// event is consumed by the check.
    pub fn contains(&mut self, target: &Event) -> (r: bool)
        ensures
            r == old(self)@.holds(target@),
            final(self)@ == old(self)@.consumed(target@),
    {
        let mut scanned: Vec<Event> = Vec::new();
        std::mem::swap(&mut scanned, &mut self.events);
        let ghost all = scanned@;
        let mut kept: Vec<Event> = Vec::new();
        let mut found = false;
        let mut i: usize = 0;
        while i < scanned.len()
            invariant
                scanned@ == all,
                0 <= i <= all.len(),
                kept@ == all.take(i as int).filter(keeps(target@)),
                found == exists|j: int| 0 <= j < i && (#[trigger] all[j])@ == target@,
                self.queue@ == old(self)@.pending,
                self.mode == old(self)@.mode,
            decreases all.len() - i,
        {
            proof {
                reveal(Seq::filter);
                assert(all.take(i + 1).drop_last() == all.take(i as int));
                assert(all.take(i + 1).last() == all[i as int]);
            }
            if scanned[i].same_identity(target) {
                found = true;
            } else {
                kept.push(scanned[i].clone());
            }
            i = i + 1;
        }
        proof {
            assert(all.take(all.len() as int) == all);
        }
        self.events = kept;
        found
    }
}

/// Draining is idempotent: once `read` has handed out the current events,
/// a second `read` with no rotation in between finds none.
pub proof fn lemma_read_twice_finds_nothing(q: EventQueueView)
    ensures
        q.drained().readable() is None,
        q.drained().drained() == q.drained(),
{
}

/// In `StoreOnce` mode an event is readable for one rotation only: after a
/// rotation the current events are exactly those added since the previous
/// one, so when nothing was added, `read` finds none.
pub proof fn lemma_store_once_clears(q: EventQueueView)
    requires
        q.mode == EventQueueMode::StoreOnce,
    ensures
        q.rotated().current == q.pending,
        q.pending.len() == 0 ==> q.rotated().readable() is None,
{
}

/// In `StoreUntilConsume` mode events survive rotations until read: an
/// event `a` added in one tick and an event `b` added in the next are both
/// readable after the second rotation, after everything that came before
/// them.
pub proof fn lemma_store_until_consume_accumulates(q: EventQueueView, a: Event, b: Event)
    requires
        q.mode == EventQueueMode::StoreUntilConsume,
    ensures
        q.added(a).rotated().added(b).rotated().readable() == Some(q.current + q.pending + seq![a, b]),
{
    let r = q.added(a).rotated().added(b).rotated();
    assert(r.current =~= q.current + q.pending + seq![a, b]);
}

} // verus!
