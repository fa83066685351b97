use age_engine::commands::{CreateEntity, SetEntityModel, WorldCommand};
use age_engine::events::{exit_event, Event, EventHandle};
use age_engine::game::{Asset, Game};
use age_engine::scheduler::{GameFn, Scheduler};
use age_engine::commands::{CommandHandle, CommandQueueView};
use age_engine::events::EventQueueView;
use age_engine::world::Entity;

/// Counts its runs in the resources and creates one entity per run.
struct Spawner {
    next: u32,
}

impl GameFn<WorldCommand, Vec<String>> for Spawner {
    fn ran(
        &self,
        after: Self,
        _commands: (CommandQueueView<WorldCommand>, CommandQueueView<WorldCommand>),
        resources: (Vec<String>, Vec<String>),
        _events: (EventQueueView, EventQueueView),
    ) -> bool {
        after.next == self.next + 1 && resources.1.len() == resources.0.len() + 1
    }

    fn exec(&mut self, commands: &mut CommandHandle<WorldCommand>, resources: &mut Vec<String>, events: &mut EventHandle) {
        resources.push(format!("spawn {}", self.next));
        commands.add(WorldCommand::Create(CreateEntity(self.next, Entity::default(self.next))));
        commands.add(WorldCommand::SetModel(SetEntityModel(self.next, "cube".to_string())));
        if self.next == 2 {
            events.add(exit_event());
        }
        self.next += 1;
    }
}

#[test]
fn scheduler_runs_callbacks_in_registration_order() {
    let mut s: Scheduler<Spawner> = Scheduler::new_empty();
    s.add_update(Spawner { next: 10 });
    s.add_update(Spawner { next: 20 });
    s.add_once(Spawner { next: 0 });
    let mut commands = CommandHandle::new();
    let mut resources: Vec<String> = Vec::new();
    let mut events = EventHandle::new(Default::default());
    s.setup(&mut commands, &mut resources, &mut events);
    s.update(&mut commands, &mut resources, &mut events);
    s.update(&mut commands, &mut resources, &mut events);
    assert_eq!(resources, vec!["spawn 0", "spawn 10", "spawn 20", "spawn 11", "spawn 21"]);
    let t = Scheduler::new_from(vec![Spawner { next: 1 }], Vec::new());
    let mut r2: Vec<String> = Vec::new();
    let mut t = t;
    t.update(&mut commands, &mut r2, &mut events);
    assert!(r2.is_empty());
    t.setup(&mut commands, &mut r2, &mut events);
    assert_eq!(r2, vec!["spawn 1"]);
}

#[test]
fn game_runs_setup_then_ticks() {
    let mut game: Game<WorldCommand, Spawner, Vec<String>> = Game::new(Vec::new())
        .with_model("cube", "models/cube.obj")
        .add_once(Spawner { next: 0 })
        .add_update(Spawner { next: 1 });
    assert_eq!(game.assets().len(), 1);
    assert_eq!(game.assets()[0].0, "cube");
    assert_eq!(game.assets()[0].1, Asset::Model("models/cube.obj".to_string()));

    game.setup();
    // setup callbacks queue commands; the first apply pass only activates them
    assert!(!game.world().contains_entity(0));
    assert!(game.draw_list().is_empty());

    game.tick();
    assert!(game.world().contains_entity(0));
    assert!(!game.world().contains_entity(1));
    assert_eq!(game.draw_list(), vec!["cube".to_string()]);
    assert!(!game.exit_requested());

    game.tick();
    assert!(game.world().contains_entity(1));
    assert_eq!(game.draw_list(), vec!["cube".to_string(), "cube".to_string()]);
    // the exit signal queued in this tick is readable after its rotation
    assert!(game.exit_requested());
    assert!(!game.exit_requested());
    assert_eq!(game.resources(), &vec!["spawn 0".to_string(), "spawn 1".to_string(), "spawn 2".to_string()]);
}

#[test]
fn host_events_and_commands_reach_the_next_tick() {
    let mut game: Game<WorldCommand, Spawner, Vec<String>> = Game::new(Vec::new());
    game.propagate_event(Event::new("resized"));
    game.add_command(WorldCommand::Create(CreateEntity(3, Entity::default(3))));
    game.finish_tick();
    assert!(game.events().mode() == Default::default());
    assert!(!game.world().contains_entity(3));
    game.finish_tick();
    assert!(game.world().contains_entity(3));
    assert!(game.draw_list().is_empty());
}

#[test]
fn exit_signal_from_host_is_consumed_once() {
    let mut game: Game<WorldCommand, Spawner, Vec<String>> = Game::new(Vec::new());
    game.propagate_event(exit_event());
    game.finish_setup();
    assert!(game.exit_requested());
    assert!(!game.exit_requested());
}

#[test]
fn setup_runs_only_once() {
    let mut game: Game<WorldCommand, Spawner, Vec<String>> =
        Game::new(Vec::new()).add_once(Spawner { next: 0 });
    assert!(!game.is_set_up());
    game.setup();
    assert!(game.is_set_up());
    game.setup();
    assert_eq!(game.resources(), &vec!["spawn 0".to_string()]);
}

#[test]
fn pulse_ticks_until_exit_is_signalled() {
    let mut game: Game<WorldCommand, Spawner, Vec<String>> = Game::new(Vec::new())
        .with_model("cube", "cube.obj")
        .add_update(Spawner { next: 1 });
    game.setup();
    assert!(!game.on_pulse());
    assert!(!game.on_pulse());
    // the second pulse's callback queued the exit signal; it is current now
    assert!(game.on_pulse());
    assert_eq!(game.resources().len(), 2);
    assert!(game.world().contains_entity(1));
    assert!(!game.world().contains_entity(2));
}
