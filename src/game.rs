use vstd::prelude::*;
use crate::commands::{Command, CommandHandle, CommandQueueView};
use crate::events::{exit_event, Event, EventHandle, EventQueueMode, EventQueueView, EXIT_EVENT_ID};
use crate::scheduler::{ran_in_order, GameFn, Scheduler};
use crate::world::{ModelSet, World, WorldView};

verus! {

/// A file that the rendering side loads before the first frame.
#[derive(Debug, PartialEq, Eq)]
pub enum Asset {
    Model(String),
    Image(String),
}

impl Clone for Asset {
    fn clone(&self) -> (r: Self)
        ensures
            r == *self,
    {
        match self {
            Asset::Model(p) => Asset::Model(p.clone()),
            Asset::Image(p) => Asset::Image(p.clone()),
        }
    }
}

/// Abstract state of a [`Game`].
pub struct GameView<C, R> {
    pub events: EventQueueView,
    pub commands: CommandQueueView<C>,
    pub world: WorldView,
    pub models: Set<Seq<char>>,
    pub resources: R,
    pub assets: Seq<(String, Asset)>,
    /// Whether the setup step has run.
    pub set_up: bool,
}

/// One step of the frame loop from `before` to `after`: the callbacks `fs`
/// run once each, in order, turning into `fs_after`, with the world out of
/// their reach; then the events rotate (the initial rotation when `initial`)
/// and one apply pass runs. The pass runs exactly the commands that were
/// active before the step, on the world as it was; everything queued before
/// or during the step waits for the next pass.
pub open spec fn stepped<C: Command, R, F: GameFn<C, R>>(
    before: GameView<C, R>,
    fs: Seq<F>,
    after: GameView<C, R>,
    fs_after: Seq<F>,
    initial: bool,
) -> bool {
    &&& exists|cs: Seq<CommandQueueView<C>>, rs: Seq<R>, es: Seq<EventQueueView>|
        #![trigger ran_in_order(fs, fs_after, cs, rs, es)]
        {
            &&& ran_in_order(fs, fs_after, cs, rs, es)
            &&& cs[0] == before.commands
            &&& rs[0] == before.resources
            &&& es[0] == before.events
            &&& after.events == if initial {
                es.last().set_up()
            } else {
                es.last().rotated()
            }
            &&& after.commands == cs.last().applied(before.world, before.models)
            &&& after.resources == rs.last()
        }
    &&& after.world == before.commands.applied_world(before.world, before.models)
    &&& after.models == before.models
    &&& after.assets == before.assets
    &&& after.set_up == (initial || before.set_up)
}

/// The state that the frame loop drives: resources, callbacks, events,
/// deferred commands, the world and the names of the loaded models.
#[derive(Debug)]
pub struct Game<C, F, R> {
    resources: R,
    scheduler: Scheduler<F>,
    events: EventHandle,
    commands: CommandHandle<C>,
    world: World,
    models: ModelSet,
    assets: Vec<(String, Asset)>,
    set_up: bool,
}

impl<C, F, R> View for Game<C, F, R> {
    type V = GameView<C, R>;

    closed spec fn view(&self) -> GameView<C, R> {
        GameView {
            events: self.events@,
            commands: self.commands@,
            world: self.world@,
            models: self.models@,
            resources: self.resources,
            assets: self.assets@,
            set_up: self.set_up,
        }
    }
}

impl<C: Command, F, R> Game<C, F, R> {
    /// The callbacks that run at setup, in registration order.
    pub closed spec fn once_fns(&self) -> Seq<F> {
        self.scheduler.once_fns()
    }

    /// The callbacks that run every tick, in registration order.
    pub closed spec fn update_fns(&self) -> Seq<F> {
        self.scheduler.update_fns()
    }

    /// A game with no callbacks, an empty world and a `StoreOnce` event
    /// queue, not set up yet.
    pub fn new(resources: R) -> (g: Game<C, F, R>)
        ensures
            g@.events == EventQueueView::empty(EventQueueMode::StoreOnce),
            g@.commands.active == Seq::<C>::empty(),
            g@.commands.pending == Seq::<C>::empty(),
            g@.world == WorldView::empty(),
            g@.models == Set::<Seq<char>>::empty(),
            g@.resources == resources,
            g@.assets == Seq::<(String, Asset)>::empty(),
            !g@.set_up,
            g.once_fns() == Seq::<F>::empty(),
            g.update_fns() == Seq::<F>::empty(),
    {
        Game {
            resources,
            scheduler: Scheduler::new_empty(),
            events: EventHandle::new(EventQueueMode::StoreOnce),
            commands: CommandHandle::new(),
            world: World::new(),
            models: ModelSet::new(),
            assets: Vec::new(),
            set_up: false,
        }
    }

    /// Whether the setup step has run.
    pub fn is_set_up(&self) -> (r: bool)
        ensures
            r == self@.set_up,
    {
        self.set_up
    }

    /// Registers a callback to run once at setup, after those registered
    /// before it.
    pub fn add_once(self, once: F) -> (g: Game<C, F, R>)
        ensures
            g@ == self@,
            g.once_fns() == self.once_fns().push(once),
            g.update_fns() == self.update_fns(),
    {
        let mut g = self;
        g.scheduler.add_once(once);
        g
    }

    /// Registers a callback to run every tick, after those registered before
    /// it.
    pub fn add_update(self, update: F) -> (g: Game<C, F, R>)
        ensures
            g@ == self@,
            g.once_fns() == self.once_fns(),
            g.update_fns() == self.update_fns().push(update),
    {
        let mut g = self;
        g.scheduler.add_update(update);
        g
    }

    /// Declares a model to load from `path` under `name`; commands may then
    /// switch entities to it.
    pub fn with_model(self, name: &str, path: &str) -> (g: Game<C, F, R>)
        ensures
            g@.models == self@.models.insert(name@),
            g@.events == self@.events,
            g@.commands == self@.commands,
            g@.world == self@.world,
            g@.resources == self@.resources,
            g@.set_up == self@.set_up,
            g@.assets.len() == self@.assets.len() + 1,
            g@.assets.drop_last() == self@.assets,
            g@.assets.last().0@ == name@,
            g@.assets.last().1 matches Asset::Model(p) && p@ == path@,
            g.once_fns() == self.once_fns(),
            g.update_fns() == self.update_fns(),
    {
        let mut g = self;
        g.models.register(name);
        g.assets.push((name.to_owned(), Asset::Model(path.to_owned())));
        g
    }

    /// The declared assets, by name, in declaration order.
    pub fn assets(&self) -> (r: &Vec<(String, Asset)>)
        ensures
            r@ == self@.assets,
    {
        &self.assets
    }

    pub fn resources(&self) -> (r: &R)
        ensures
            *r == self@.resources,
    {
        &self.resources
    }

    pub fn world(&self) -> (w: &World)
        ensures
            w@ == self@.world,
    {
        &self.world
    }

    pub fn events(&self) -> (e: &EventHandle)
        ensures
            e@ == self@.events,
    {
        &self.events
    }

    pub fn commands(&self) -> (c: &CommandHandle<C>)
        ensures
            c@ == self@.commands,
    {
        &self.commands
    }

    /// Hands an event from the host to the callbacks of the next tick.
    pub fn propagate_event(&mut self, event: Event)
        ensures
            final(self)@ == (GameView { events: old(self)@.events.added(event), ..old(self)@ }),
            final(self).once_fns() == old(self).once_fns(),
            final(self).update_fns() == old(self).update_fns(),
    {
        self.events.add(event);
    }

    /// Queues a command from the host for the next apply pass.
    pub fn add_command(&mut self, command: C)
        ensures
            final(self)@ == (GameView { commands: old(self)@.commands.added(command), ..old(self)@ }),
            final(self).once_fns() == old(self).once_fns(),
            final(self).update_fns() == old(self).update_fns(),
    {
        self.commands.add(command);
    }

    /// What follows the setup callbacks: the initial event rotation, then
    /// one apply pass.
    pub fn finish_setup(&mut self)
        ensures
            final(self)@ == (GameView {
                events: old(self)@.events.set_up(),
                world: old(self)@.commands.applied_world(old(self)@.world, old(self)@.models),
                commands: old(self)@.commands.applied(old(self)@.world, old(self)@.models),
                ..old(self)@
            }),
            final(self).once_fns() == old(self).once_fns(),
            final(self).update_fns() == old(self).update_fns(),
    {
        self.events.setup();
        self.commands.update(&mut self.world, &self.models);
    }

    /// What follows the per-tick callbacks: the event rotation, then the
    /// apply pass, so that what the callbacks queued shows in the next tick.
    pub fn finish_tick(&mut self)
        ensures
            final(self)@ == (GameView {
                events: old(self)@.events.rotated(),
                world: old(self)@.commands.applied_world(old(self)@.world, old(self)@.models),
                commands: old(self)@.commands.applied(old(self)@.world, old(self)@.models),
                ..old(self)@
            }),
            final(self).once_fns() == old(self).once_fns(),
            final(self).update_fns() == old(self).update_fns(),
    {
        self.events.update();
        self.commands.update(&mut self.world, &self.models);
    }

    /// Whether the exit signal is current; the check consumes it.
    pub fn exit_requested(&mut self) -> (r: bool)
        ensures
            r == old(self)@.events.holds(EXIT_EVENT_ID@),
            final(self)@ == (GameView { events: old(self)@.events.consumed(EXIT_EVENT_ID@), ..old(self)@ }),
            final(self).once_fns() == old(self).once_fns(),
            final(self).update_fns() == old(self).update_fns(),
    {
        let exit = exit_event();
        self.events.contains(&exit)
    }

    /// The models to draw this frame, as `World::visible_models` gives them.
    pub fn draw_list(&self) -> (r: Vec<String>)
        ensures
            r@ == self@.world.visible_models(),
    {
        self.world.visible_models()
    }

    /// Process start: the setup callbacks, the initial event rotation, and
    /// one apply pass. It runs once over the life of the game: once set up,
    /// a game is left as it is.
    pub fn setup(&mut self)
        where
            F: GameFn<C, R>,
        ensures
            old(self)@.set_up ==> final(self)@ == old(self)@ && final(self).once_fns() == old(self).once_fns(),
            !old(self)@.set_up ==> stepped(old(self)@, old(self).once_fns(), final(self)@, final(self).once_fns(), true),
            final(self)@.set_up,
            final(self).update_fns() == old(self).update_fns(),
    {
        if self.set_up {
            return;
        }
        self.scheduler.setup(&mut self.commands, &mut self.resources, &mut self.events);
        let ghost mid = self@;
        let ghost fs_after = self.once_fns();
        self.finish_setup();
        self.set_up = true;
        proof {
            let (cs, rs, es) = choose|cs: Seq<CommandQueueView<C>>, rs: Seq<R>, es: Seq<EventQueueView>|
                #![trigger ran_in_order(old(self).once_fns(), fs_after, cs, rs, es)]
                {
                    &&& ran_in_order(old(self).once_fns(), fs_after, cs, rs, es)
                    &&& cs[0] == old(self)@.commands && cs.last() == mid.commands
                    &&& rs[0] == old(self)@.resources && rs.last() == mid.resources
                    &&& es[0] == old(self)@.events && es.last() == mid.events
                };
            assert(ran_in_order(old(self).once_fns(), fs_after, cs, rs, es));
        }
    }

    /// One tick: the per-tick callbacks, the event rotation, and the apply
    /// pass.
    pub fn tick(&mut self)
        where
            F: GameFn<C, R>,
        ensures
            stepped(old(self)@, old(self).update_fns(), final(self)@, final(self).update_fns(), false),
            final(self).once_fns() == old(self).once_fns(),
    {
        self.scheduler.update(&mut self.commands, &mut self.resources, &mut self.events);
        let ghost mid = self@;
        let ghost fs_after = self.update_fns();
        self.finish_tick();
        proof {
            let (cs, rs, es) = choose|cs: Seq<CommandQueueView<C>>, rs: Seq<R>, es: Seq<EventQueueView>|
                #![trigger ran_in_order(old(self).update_fns(), fs_after, cs, rs, es)]
                {
                    &&& ran_in_order(old(self).update_fns(), fs_after, cs, rs, es)
                    &&& cs[0] == old(self)@.commands && cs.last() == mid.commands
                    &&& rs[0] == old(self)@.resources && rs.last() == mid.resources
                    &&& es[0] == old(self)@.events && es.last() == mid.events
                };
            assert(ran_in_order(old(self).update_fns(), fs_after, cs, rs, es));
        }
    }

    /// The host's reaction to a clock pulse: when the exit signal is current
    /// it is consumed and `true` tells the host to stop; otherwise one tick
    /// runs.
    pub fn on_pulse(&mut self) -> (stop: bool)
        where
            F: GameFn<C, R>,
        ensures
            stop == old(self)@.events.holds(EXIT_EVENT_ID@),
            stop ==> final(self)@ == (GameView { events: old(self)@.events.consumed(EXIT_EVENT_ID@), ..old(self)@ })
                && final(self).update_fns() == old(self).update_fns(),
            !stop ==> stepped(
                GameView { events: old(self)@.events.consumed(EXIT_EVENT_ID@), ..old(self)@ },
                old(self).update_fns(),
                final(self)@,
                final(self).update_fns(),
                false,
            ),
            final(self).once_fns() == old(self).once_fns(),
    {
        if self.exit_requested() {
            return true;
        }
        self.tick();
        false
    }
}

} // verus!
