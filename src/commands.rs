use vstd::prelude::*;
use crate::world::{Entity, ModelSet, Rotation, Vec3, World, WorldView};

verus! {

/// A deferred operation on the world. Executing it changes the world as
/// `world_after` says and may queue follow-up commands, which run in the
/// next apply pass.
pub trait Command: Sized {
    spec fn world_after(&self, world: WorldView, models: Set<Seq<char>>) -> WorldView;

    spec fn spawned(&self, world: WorldView, models: Set<Seq<char>>) -> Seq<Self>;

    fn execute(&self, world: &mut World, models: &ModelSet, pending: &mut Vec<Self>)
        ensures
            final(world)@ == self.world_after(old(world)@, models@),
            final(pending)@ == old(pending)@ + self.spawned(old(world)@, models@),
    ;
}

/// The world after executing `cmds` in order, starting from `w`.
pub open spec fn run_world<C: Command>(cmds: Seq<C>, w: WorldView, models: Set<Seq<char>>) -> WorldView
    decreases cmds.len(),
{
    if cmds.len() == 0 {
        w
    } else {
        cmds.last().world_after(run_world(cmds.drop_last(), w, models), models)
    }
}

/// The commands queued while executing `cmds` in order, starting from `w`.
pub open spec fn run_spawned<C: Command>(cmds: Seq<C>, w: WorldView, models: Set<Seq<char>>) -> Seq<C>
    decreases cmds.len(),
{
    if cmds.len() == 0 {
        Seq::empty()
    } else {
        run_spawned(cmds.drop_last(), w, models) + cmds.last().spawned(
            run_world(cmds.drop_last(), w, models),
            models,
        )
    }
}

/// Abstract state of a [`CommandHandle`]: the commands of the next apply
/// pass, and those queued since the last one.
pub struct CommandQueueView<C> {
    pub active: Seq<C>,
    pub pending: Seq<C>,
}

impl<C: Command> CommandQueueView<C> {
    /// `c` queued.
    pub open spec fn added(self, c: C) -> CommandQueueView<C> {
        CommandQueueView { active: self.active, pending: self.pending.push(c) }
    }

    /// `cs` queued, in order.
    pub open spec fn added_all(self, cs: Seq<C>) -> CommandQueueView<C> {
        CommandQueueView { active: self.active, pending: self.pending + cs }
    }

    /// The world after an apply pass: only the active commands run.
    pub open spec fn applied_world(self, w: WorldView, models: Set<Seq<char>>) -> WorldView {
        run_world(self.active, w, models)
    }

    /// The queue after an apply pass: everything queued before it or during
    /// it waits for the next pass.
    pub open spec fn applied(self, w: WorldView, models: Set<Seq<char>>) -> CommandQueueView<C> {
        CommandQueueView {
            active: self.pending + run_spawned(self.active, w, models),
            pending: Seq::empty(),
        }
    }
}

/// Deferred mutation of the world: commands queued during a tick are
/// applied in the apply pass of the next tick.
#[derive(Debug)]
pub struct CommandHandle<C> {
    commands: Vec<C>,
    queue: Vec<C>,
}

impl<C> View for CommandHandle<C> {
    type V = CommandQueueView<C>;

    closed spec fn view(&self) -> CommandQueueView<C> {
        CommandQueueView { active: self.commands@, pending: self.queue@ }
    }
}

impl<C: Command> CommandHandle<C> {
    pub fn new() -> (h: CommandHandle<C>)
        ensures
            h@.active == Seq::<C>::empty(),
            h@.pending == Seq::<C>::empty(),
    {
        CommandHandle { commands: Vec::new(), queue: Vec::new() }
    }

    pub fn add(&mut self, command: C)
        ensures
            final(self)@ == old(self)@.added(command),
    {
        self.queue.push(command);
    }

    pub fn add_vec(&mut self, commands: Vec<C>)
        ensures
            final(self)@ == old(self)@.added_all(commands@),
    {
        let mut commands = commands;
        self.queue.append(&mut commands);
    }

    /// Executes the active commands in order against `world`, then makes
    /// every queued command, those queued by the commands just executed
    /// included, active for the next pass.
    pub fn update(&mut self, world: &mut World, models: &ModelSet)
        ensures
            final(world)@ == old(self)@.applied_world(old(world)@, models@),
            final(self)@ == old(self)@.applied(old(world)@, models@),
    {
        let mut active: Vec<C> = Vec::new();
        std::mem::swap(&mut active, &mut self.commands);
        let ghost cmds = active@;
        let ghost w0 = world@;
        let mut i: usize = 0;
        while i < active.len()
            invariant
                active@ == cmds,
                cmds == old(self)@.active,
                w0 == old(world)@,
                0 <= i <= cmds.len(),
                world@ == run_world(cmds.take(i as int), w0, models@),
                self.queue@ == old(self)@.pending + run_spawned(cmds.take(i as int), w0, models@),
            decreases cmds.len() - i,
        {
            proof {
                assert(cmds.take(i + 1).drop_last() == cmds.take(i as int));
                assert(cmds.take(i + 1).last() == cmds[i as int]);
            }
            active[i].execute(world, models, &mut self.queue);
            proof {
                let a = old(self)@.pending;
                let b = run_spawned(cmds.take(i as int), w0, models@);
                let c = cmds[i as int].spawned(run_world(cmds.take(i as int), w0, models@), models@);
                assert((a + b) + c =~= a + (b + c));
            }
            i = i + 1;
        }
        proof {
            assert(cmds.take(cmds.len() as int) == cmds);
        }
        std::mem::swap(&mut self.commands, &mut self.queue);
        self.queue = Vec::new();
    }
}

/// A change to one entity.
#[derive(Debug, Clone, Copy, PartialEq, Eq, Structural)]
pub enum EntityChange {
    MoveTo(Vec3),
    MoveBy(Vec3),
    SetRotation(Rotation),
    SetVisibility(bool),
}

impl EntityChange {
    pub open spec fn applied_to(self, e: Entity) -> Entity {
        match self {
            EntityChange::MoveTo(p) => e.with_pos(p),
            EntityChange::MoveBy(d) => e.with_pos(e.pos.spec_offset(d)),
            EntityChange::SetRotation(r) => Entity { rotation: r, ..e },
            EntityChange::SetVisibility(v) => e.with_model_state(e.model.with_visibility(v)),
        }
    }

    pub fn apply_to(&self, e: &mut Entity)
        ensures
            *final(e) == self.applied_to(*old(e)),
    {
        match self {
            EntityChange::MoveTo(p) => e.set_pos(*p),
            EntityChange::MoveBy(d) => e.set_pos_relative(*d),
            EntityChange::SetRotation(r) => e.rotation = *r,
            EntityChange::SetVisibility(v) => e.model.set_visibility(*v),
        }
    }
}

/// Stores the entity under the id unless that id is taken.
#[derive(Debug)]
pub struct CreateEntity(pub u32, pub Entity);

impl Clone for CreateEntity {
    fn clone(&self) -> (r: Self)
        ensures
            r == *self,
    {
        CreateEntity(self.0, self.1.clone())
    }
}

impl CreateEntity {
    pub open spec fn spec_world_after(&self, w: WorldView) -> WorldView {
        if w.entities.contains_key(self.0) {
            w
        } else {
            w.inserted(self.0, self.1)
        }
    }

    pub fn execute(&self, world: &mut World)
        ensures
            final(world)@ == self.spec_world_after(old(world)@),
    {
        if !world.contains_entity(self.0) {
            world.insert_entity(self.0, self.1.clone());
        }
    }
}

/// Stores the entity under the id, replacing any entity there.
#[derive(Debug)]
pub struct UpdateEntity(pub u32, pub Entity);

impl Clone for UpdateEntity {
    fn clone(&self) -> (r: Self)
        ensures
            r == *self,
    {
        UpdateEntity(self.0, self.1.clone())
    }
}

impl UpdateEntity {
    pub open spec fn spec_world_after(&self, w: WorldView) -> WorldView {
        w.inserted(self.0, self.1)
    }

    pub fn execute(&self, world: &mut World)
        ensures
            final(world)@ == self.spec_world_after(old(world)@),
    {
        world.insert_entity(self.0, self.1.clone());
    }
}

/// Removes the entity with the id, if any.
#[derive(Debug, Clone, Copy, PartialEq, Eq, Structural)]
pub struct DeleteEntity(pub u32);

impl DeleteEntity {
    pub open spec fn spec_world_after(&self, w: WorldView) -> WorldView {
        w.deleted(self.0)
    }

    pub fn execute(&self, world: &mut World)
        ensures
            final(world)@ == self.spec_world_after(old(world)@),
    {
        world.delete_entity(self.0);
    }
}

/// Applies a change to the entity with the id, if it exists.
#[derive(Debug, Clone, Copy, PartialEq, Eq, Structural)]
pub struct ModifyEntity(pub u32, pub EntityChange);

impl ModifyEntity {
    pub open spec fn spec_world_after(&self, w: WorldView) -> WorldView {
        w.modified(self.0, |e: Entity| self.1.applied_to(e))
    }

    pub fn execute(&self, world: &mut World)
        ensures
            final(world)@ == self.spec_world_after(old(world)@),
    {
        match world.get_entity(self.0) {
            Some(mut e) => {
                self.1.apply_to(&mut e);
                world.insert_entity(self.0, e);
            },
            None => {},
        }
    }
}

/// Stores the entity under the id, replacing any entity there.
#[derive(Debug)]
pub struct SetEntity(pub u32, pub Entity);

impl Clone for SetEntity {
    fn clone(&self) -> (r: Self)
        ensures
            r == *self,
    {
        SetEntity(self.0, self.1.clone())
    }
}

impl SetEntity {
    pub open spec fn spec_world_after(&self, w: WorldView) -> WorldView {
        w.inserted(self.0, self.1)
    }

    pub fn execute(&self, world: &mut World)
        ensures
            final(world)@ == self.spec_world_after(old(world)@),
    {
        world.insert_entity(self.0, self.1.clone());
    }
}

/// Switches the entity with the id to the named model, when both exist.
#[derive(Debug)]
pub struct SetEntityModel(pub u32, pub String);

impl Clone for SetEntityModel {
    fn clone(&self) -> (r: Self)
        ensures
            r == *self,
    {
        SetEntityModel(self.0, self.1.clone())
    }
}

impl SetEntityModel {
    pub open spec fn spec_world_after(&self, w: WorldView, models: Set<Seq<char>>) -> WorldView {
        w.model_set(self.0, models, self.1)
    }

    pub fn execute(&self, world: &mut World, models: &ModelSet)
        ensures
            final(world)@ == self.spec_world_after(old(world)@, models@),
    {
        world.set_model(self.0, models, &self.1);
    }
}

/// The commands that the engine offers on the world.
#[derive(Debug)]
pub enum WorldCommand {
    Create(CreateEntity),
    Update(UpdateEntity),
    Replace(SetEntity),
    Delete(DeleteEntity),
    Modify(ModifyEntity),
    SetModel(SetEntityModel),
    /// Queues the inner command for the next apply pass.
    Defer(Box<WorldCommand>),
}

impl Clone for WorldCommand {
    fn clone(&self) -> (r: Self)
        ensures
            r == *self,
        decreases self,
    {
        match self {
            WorldCommand::Create(c) => WorldCommand::Create(c.clone()),
            WorldCommand::Update(c) => WorldCommand::Update(c.clone()),
            WorldCommand::Replace(c) => WorldCommand::Replace(c.clone()),
            WorldCommand::Delete(c) => WorldCommand::Delete(*c),
            WorldCommand::Modify(c) => WorldCommand::Modify(*c),
            WorldCommand::SetModel(c) => WorldCommand::SetModel(c.clone()),
            WorldCommand::Defer(c) => WorldCommand::Defer(Box::new((**c).clone())),
        }
    }
}

impl Command for WorldCommand {
    open spec fn world_after(&self, world: WorldView, models: Set<Seq<char>>) -> WorldView {
        match *self {
            WorldCommand::Create(c) => c.spec_world_after(world),
            WorldCommand::Update(c) => c.spec_world_after(world),
            WorldCommand::Replace(c) => c.spec_world_after(world),
            WorldCommand::Delete(c) => c.spec_world_after(world),
            WorldCommand::Modify(c) => c.spec_world_after(world),
            WorldCommand::SetModel(c) => c.spec_world_after(world, models),
            WorldCommand::Defer(_) => world,
        }
    }

    open spec fn spawned(&self, world: WorldView, models: Set<Seq<char>>) -> Seq<WorldCommand> {
        match *self {
            WorldCommand::Defer(c) => seq![*c],
            _ => Seq::empty(),
        }
    }

    fn execute(&self, world: &mut World, models: &ModelSet, pending: &mut Vec<WorldCommand>) {
        match self {
            WorldCommand::Create(c) => c.execute(world),
            WorldCommand::Update(c) => c.execute(world),
            WorldCommand::Replace(c) => c.execute(world),
            WorldCommand::Delete(c) => c.execute(world),
            WorldCommand::Modify(c) => c.execute(world),
            WorldCommand::SetModel(c) => c.execute(world, models),
            WorldCommand::Defer(c) => pending.push((**c).clone()),
        }
        assert(pending@ =~= old(pending)@ + self.spawned(old(world)@, models@));
    }
}

/// An apply pass runs only the commands that were active when it began:
/// the world it leaves does not depend on what is queued, and every command
/// queued during the pass, by the host or by a command that just ran, waits
/// for the next pass.
pub proof fn lemma_queued_commands_wait_a_pass<C: Command>(
    h: CommandQueueView<C>,
    other: CommandQueueView<C>,
    w: WorldView,
    models: Set<Seq<char>>,
)
    requires
        other.active == h.active,
    ensures
        h.applied_world(w, models) == other.applied_world(w, models),
        h.applied(w, models).active == h.pending + run_spawned(h.active, w, models),
        h.applied(w, models).pending.len() == 0,
{
}

/// A command deferred by another one is not executed in the pass that
/// queues it; it is the first command of the next pass.
pub proof fn lemma_deferred_command_runs_next_pass(x: WorldCommand, w: WorldView, models: Set<Seq<char>>)
    ensures
        ({
            let h = CommandQueueView { active: seq![WorldCommand::Defer(Box::new(x))], pending: Seq::empty() };
            &&& h.applied_world(w, models) == w
            &&& h.applied(w, models).active == seq![x]
        }),
{
    let cmds = seq![WorldCommand::Defer(Box::new(x))];
    assert(cmds.drop_last() =~= Seq::<WorldCommand>::empty());
    assert(run_world(Seq::<WorldCommand>::empty(), w, models) == w);
    assert(run_spawned(Seq::<WorldCommand>::empty(), w, models) == Seq::<WorldCommand>::empty());
    assert(cmds.last() == WorldCommand::Defer(Box::new(x)));
    assert(run_world(cmds, w, models) == w);
    assert(run_spawned(cmds, w, models) == Seq::<WorldCommand>::empty() + seq![x]);
    assert(Seq::<WorldCommand>::empty() + (Seq::<WorldCommand>::empty() + seq![x]) =~= seq![x]);
}

/// Creating an entity under a taken id changes nothing: after
/// `CreateEntity(id, e1)` and `CreateEntity(id, e2)` in two successive apply
/// passes the entity is `e1`.
pub proof fn lemma_create_does_not_overwrite(w: WorldView, id: u32, e1: Entity, e2: Entity, models: Set<Seq<char>>)
    requires
        !w.entities.contains_key(id),
    ensures
        ({
            let w1 = run_world(seq![WorldCommand::Create(CreateEntity(id, e1))], w, models);
            let w2 = run_world(seq![WorldCommand::Create(CreateEntity(id, e2))], w1, models);
            w2.entities[id] == e1
        }),
{
    let c1 = WorldCommand::Create(CreateEntity(id, e1));
    let c2 = WorldCommand::Create(CreateEntity(id, e2));
    assert(seq![c1].drop_last() =~= Seq::<WorldCommand>::empty());
    assert(seq![c2].drop_last() =~= Seq::<WorldCommand>::empty());
    let w1 = run_world(seq![c1], w, models);
    assert(run_world(Seq::<WorldCommand>::empty(), w, models) == w);
    assert(seq![c1].last() == c1);
    assert(w1 == c1.world_after(w, models));
    assert(run_world(Seq::<WorldCommand>::empty(), w1, models) == w1);
    assert(seq![c2].last() == c2);
    assert(run_world(seq![c2], w1, models) == c2.world_after(w1, models));
}

/// Update and set overwrite: after `SetEntity(id, e1)` and
/// `SetEntity(id, e2)` in two successive apply passes the entity is `e2`;
/// the same holds of `UpdateEntity`.
pub proof fn lemma_set_overwrites(w: WorldView, id: u32, e1: Entity, e2: Entity, models: Set<Seq<char>>)
    ensures
        ({
            let w1 = run_world(seq![WorldCommand::Replace(SetEntity(id, e1))], w, models);
            let w2 = run_world(seq![WorldCommand::Replace(SetEntity(id, e2))], w1, models);
            w2.entities[id] == e2
        }),
        ({
            let w1 = run_world(seq![WorldCommand::Update(UpdateEntity(id, e1))], w, models);
            let w2 = run_world(seq![WorldCommand::Update(UpdateEntity(id, e2))], w1, models);
            w2.entities[id] == e2
        }),
{
    assert(seq![WorldCommand::Replace(SetEntity(id, e1))].drop_last() =~= Seq::<WorldCommand>::empty());
    assert(seq![WorldCommand::Replace(SetEntity(id, e2))].drop_last() =~= Seq::<WorldCommand>::empty());
    assert(seq![WorldCommand::Update(UpdateEntity(id, e1))].drop_last() =~= Seq::<WorldCommand>::empty());
    assert(seq![WorldCommand::Update(UpdateEntity(id, e2))].drop_last() =~= Seq::<WorldCommand>::empty());
}

/// `SetEntityModel` naming a model that is not loaded leaves the world as
/// it was.
pub proof fn lemma_set_missing_model_is_silent(w: WorldView, id: u32, model: String, models: Set<Seq<char>>)
    requires
        !models.contains(model@),
    ensures
        WorldCommand::SetModel(SetEntityModel(id, model)).world_after(w, models) == w,
{
    crate::world::lemma_missing_model_keeps_state(w, id, models, model);
}

} // verus!
