use vstd::prelude::*;
use crate::commands::{CommandHandle, CommandQueueView};
use crate::events::{EventHandle, EventQueueView};

verus! {

/// A game callback: it gets the command queue, the resources and the event
/// queue, and never the world itself, so that every change to the world
/// goes through a command. A callback may queue commands; it leaves the
/// commands of the next apply pass as they are.
pub trait GameFn<C, R>: Sized {
    /// Whether one run of the callback, which turns it from `self` into
    /// `after`, can take the command queue, the resources and the event
    /// queue from the first to the second state of each pair.
    spec fn ran(
        &self,
        after: Self,
        commands: (CommandQueueView<C>, CommandQueueView<C>),
        resources: (R, R),
        events: (EventQueueView, EventQueueView),
    ) -> bool;

    fn exec(&mut self, commands: &mut CommandHandle<C>, resources: &mut R, events: &mut EventHandle)
        ensures
            old(self).ran(
                *final(self),
                (old(commands)@, final(commands)@),
                (*old(resources), *final(resources)),
                (old(events)@, final(events)@),
            ),
            final(commands)@.active == old(commands)@.active,
            old(commands)@.pending.is_prefix_of(final(commands)@.pending),
    ;
}

/// The callbacks `fs` ran once each, in order, turning into `after`: callback
/// `i` took the handles from state `i` to state `i + 1` of the traces `cs`,
/// `rs` and `es`. None of them changed the commands of the next apply pass,
/// and each only added to the queued ones.
pub open spec fn ran_in_order<C, R, F: GameFn<C, R>>(
    fs: Seq<F>,
    after: Seq<F>,
    cs: Seq<CommandQueueView<C>>,
    rs: Seq<R>,
    es: Seq<EventQueueView>,
) -> bool {
    &&& after.len() == fs.len()
    &&& cs.len() == fs.len() + 1
    &&& rs.len() == fs.len() + 1
    &&& es.len() == fs.len() + 1
    &&& forall|i: int|
        0 <= i < fs.len() ==> #[trigger] fs[i].ran(
            after[i],
            (cs[i], cs[i + 1]),
            (rs[i], rs[i + 1]),
            (es[i], es[i + 1]),
        )
    &&& cs.last().active == cs[0].active
    &&& cs[0].pending.is_prefix_of(cs.last().pending)
}

proof fn lemma_prefix_trans<A>(a: Seq<A>, b: Seq<A>, c: Seq<A>)
    requires
        a.is_prefix_of(b),
        b.is_prefix_of(c),
    ensures
        a.is_prefix_of(c),
{
    assert(a =~= c.subrange(0, a.len() as int));
}

/// Runs each of `fs` once, in order, on the given handles.
fn run_each<C, R, F: GameFn<C, R>>(
    fs: &mut Vec<F>,
    commands: &mut CommandHandle<C>,
    resources: &mut R,
    events: &mut EventHandle,
)
    ensures
        exists|cs: Seq<CommandQueueView<C>>, rs: Seq<R>, es: Seq<EventQueueView>|
            #![trigger ran_in_order(old(fs)@, final(fs)@, cs, rs, es)]
            {
                &&& ran_in_order(old(fs)@, final(fs)@, cs, rs, es)
                &&& cs[0] == old(commands)@ && cs.last() == final(commands)@
                &&& rs[0] == *old(resources) && rs.last() == *final(resources)
                &&& es[0] == old(events)@ && es.last() == final(events)@
            },
{
    let ghost mut cs = seq![commands@];
    let ghost mut rs = seq![*resources];
    let ghost mut es = seq![events@];
    let ghost fs0 = fs@;
    let mut i: usize = 0;
    while i < fs.len()
        invariant
            fs@.len() == fs0.len(),
            fs0 == old(fs)@,
            0 <= i <= fs0.len(),
            forall|j: int| i <= j < fs0.len() ==> fs@[j] == fs0[j],
            cs.len() == i + 1,
            rs.len() == i + 1,
            es.len() == i + 1,
            cs[0] == old(commands)@,
            rs[0] == *old(resources),
            es[0] == old(events)@,
            cs.last() == commands@,
            rs.last() == *resources,
            es.last() == events@,
            commands@.active == old(commands)@.active,
            old(commands)@.pending.is_prefix_of(commands@.pending),
            forall|j: int|
                0 <= j < i ==> #[trigger] fs0[j].ran(
                    fs@[j],
                    (cs[j], cs[j + 1]),
                    (rs[j], rs[j + 1]),
                    (es[j], es[j + 1]),
                ),
        decreases fs0.len() - i,
    {
        let ghost before = commands@;
        fs[i].exec(commands, resources, events);
        proof {
            lemma_prefix_trans(old(commands)@.pending, before.pending, commands@.pending);
            cs = cs.push(commands@);
            rs = rs.push(*resources);
            es = es.push(events@);
        }
        i = i + 1;
    }
    assert(ran_in_order(old(fs)@, fs@, cs, rs, es));
}

/// The callbacks to run once at setup and those to run every tick, each in
/// the order they were registered.
#[derive(Debug)]
pub struct Scheduler<F> {
    once: Vec<F>,
    update: Vec<F>,
}

impl<F> Scheduler<F> {
    /// The callbacks that run at setup, in registration order.
    pub closed spec fn once_fns(&self) -> Seq<F> {
        self.once@
    }

    /// The callbacks that run every tick, in registration order.
    pub closed spec fn update_fns(&self) -> Seq<F> {
        self.update@
    }

    pub fn new_from(once: Vec<F>, update: Vec<F>) -> (s: Scheduler<F>)
        ensures
            s.once_fns() == once@,
            s.update_fns() == update@,
    {
        Scheduler { once, update }
    }

    pub fn new_empty() -> (s: Scheduler<F>)
        ensures
            s.once_fns() == Seq::<F>::empty(),
            s.update_fns() == Seq::<F>::empty(),
    {
        Scheduler { once: Vec::new(), update: Vec::new() }
    }

    /// Registers a callback to run once, after those registered before it.
    pub fn add_once(&mut self, once: F)
        ensures
            final(self).once_fns() == old(self).once_fns().push(once),
            final(self).update_fns() == old(self).update_fns(),
    {
        self.once.push(once);
    }

    /// Registers a callback to run every tick, after those registered before
    /// it.
    pub fn add_update(&mut self, update: F)
        ensures
            final(self).once_fns() == old(self).once_fns(),
            final(self).update_fns() == old(self).update_fns().push(update),
    {
        self.update.push(update);
    }

    /// Runs every setup callback once, in registration order, on the given
    /// handles; the per-tick callbacks do not run.
    pub fn setup<C, R>(&mut self, commands: &mut CommandHandle<C>, resources: &mut R, events: &mut EventHandle)
        where
            F: GameFn<C, R>,
        ensures
            final(self).update_fns() == old(self).update_fns(),
            exists|cs: Seq<CommandQueueView<C>>, rs: Seq<R>, es: Seq<EventQueueView>|
                #![trigger ran_in_order(old(self).once_fns(), final(self).once_fns(), cs, rs, es)]
                {
                    &&& ran_in_order(old(self).once_fns(), final(self).once_fns(), cs, rs, es)
                    &&& cs[0] == old(commands)@ && cs.last() == final(commands)@
                    &&& rs[0] == *old(resources) && rs.last() == *final(resources)
                    &&& es[0] == old(events)@ && es.last() == final(events)@
                },
    {
        run_each(&mut self.once, commands, resources, events);
        proof {
            let (cs, rs, es) = choose|cs: Seq<CommandQueueView<C>>, rs: Seq<R>, es: Seq<EventQueueView>|
                #![trigger ran_in_order(old(self).once@, self.once@, cs, rs, es)]
                {
                    &&& ran_in_order(old(self).once@, self.once@, cs, rs, es)
                    &&& cs[0] == old(commands)@ && cs.last() == commands@
                    &&& rs[0] == *old(resources) && rs.last() == *resources
                    &&& es[0] == old(events)@ && es.last() == events@
                };
            assert(ran_in_order(old(self).once_fns(), self.once_fns(), cs, rs, es));
        }
    }

    /// Runs every per-tick callback once, in registration order, on the
    /// given handles; the setup callbacks do not run.
    pub fn update<C, R>(&mut self, commands: &mut CommandHandle<C>, resources: &mut R, events: &mut EventHandle)
        where
            F: GameFn<C, R>,
        ensures
            final(self).once_fns() == old(self).once_fns(),
            exists|cs: Seq<CommandQueueView<C>>, rs: Seq<R>, es: Seq<EventQueueView>|
                #![trigger ran_in_order(old(self).update_fns(), final(self).update_fns(), cs, rs, es)]
                {
                    &&& ran_in_order(old(self).update_fns(), final(self).update_fns(), cs, rs, es)
                    &&& cs[0] == old(commands)@ && cs.last() == final(commands)@
                    &&& rs[0] == *old(resources) && rs.last() == *final(resources)
                    &&& es[0] == old(events)@ && es.last() == final(events)@
                },
    {
        run_each(&mut self.update, commands, resources, events);
        proof {
            let (cs, rs, es) = choose|cs: Seq<CommandQueueView<C>>, rs: Seq<R>, es: Seq<EventQueueView>|
                #![trigger ran_in_order(old(self).update@, self.update@, cs, rs, es)]
                {
                    &&& ran_in_order(old(self).update@, self.update@, cs, rs, es)
                    &&& cs[0] == old(commands)@ && cs.last() == commands@
                    &&& rs[0] == *old(resources) && rs.last() == *resources
                    &&& es[0] == old(events)@ && es.last() == events@
                };
            assert(ran_in_order(old(self).update_fns(), self.update_fns(), cs, rs, es));
        }
    }
}

} // verus!
