use age_engine::commands::{
    Command, CommandHandle, CreateEntity, DeleteEntity, EntityChange, ModifyEntity, SetEntity,
    SetEntityModel, UpdateEntity, WorldCommand,
};
use age_engine::world::{Entity, ModelSet, ModelState, Vec3, World};

fn entity(id: u32, x: i32) -> Entity {
    let mut e = Entity::default(id);
    e.pos = Vec3::new(x, 0, 0);
    e
}

fn apply(h: &mut CommandHandle<WorldCommand>, w: &mut World, m: &ModelSet) {
    h.update(w, m);
}

#[test]
fn create_entity_is_not_overwrite() {
    let m = ModelSet::new();
    let mut w = World::new();
    let mut h = CommandHandle::new();
    h.add(WorldCommand::Create(CreateEntity(5, entity(5, 1))));
    apply(&mut h, &mut w, &m);
    apply(&mut h, &mut w, &m);
    h.add(WorldCommand::Create(CreateEntity(5, entity(5, 2))));
    apply(&mut h, &mut w, &m);
    apply(&mut h, &mut w, &m);
    assert_eq!(w.get_entity(5).unwrap().pos.x, 1);
}

#[test]
fn set_entity_overwrites() {
    let m = ModelSet::new();
    let mut w = World::new();
    let mut h = CommandHandle::new();
    h.add(WorldCommand::Replace(SetEntity(5, entity(5, 1))));
    apply(&mut h, &mut w, &m);
    apply(&mut h, &mut w, &m);
    h.add(WorldCommand::Replace(SetEntity(5, entity(5, 2))));
    apply(&mut h, &mut w, &m);
    apply(&mut h, &mut w, &m);
    assert_eq!(w.get_entity(5).unwrap().pos.x, 2);
}

#[test]
fn update_entity_overwrites() {
    let m = ModelSet::new();
    let mut w = World::new();
    let mut h = CommandHandle::new();
    h.add(WorldCommand::Update(UpdateEntity(5, entity(5, 1))));
    apply(&mut h, &mut w, &m);
    apply(&mut h, &mut w, &m);
    assert_eq!(w.get_entity(5).unwrap().pos.x, 1);
    h.add(WorldCommand::Update(UpdateEntity(5, entity(5, 2))));
    apply(&mut h, &mut w, &m);
    apply(&mut h, &mut w, &m);
    assert_eq!(w.get_entity(5).unwrap().pos.x, 2);
}

#[test]
fn added_command_runs_in_the_second_apply() {
    let m = ModelSet::new();
    let mut w = World::new();
    let mut h = CommandHandle::new();
    h.add(WorldCommand::Create(CreateEntity(1, entity(1, 0))));
    apply(&mut h, &mut w, &m);
    assert!(!w.contains_entity(1));
    apply(&mut h, &mut w, &m);
    assert!(w.contains_entity(1));
}

#[test]
fn command_queued_by_command_waits_for_next_apply() {
    let m = ModelSet::new();
    let mut w = World::new();
    let mut h = CommandHandle::new();
    let x = WorldCommand::Create(CreateEntity(2, entity(2, 0)));
    h.add(WorldCommand::Defer(Box::new(x)));
    apply(&mut h, &mut w, &m);
    apply(&mut h, &mut w, &m);
    assert!(!w.contains_entity(2));
    apply(&mut h, &mut w, &m);
    assert!(w.contains_entity(2));
}

#[test]
fn add_vec_keeps_order() {
    let m = ModelSet::new();
    let mut w = World::new();
    let mut h = CommandHandle::new();
    h.add_vec(vec![
        WorldCommand::Replace(SetEntity(1, entity(1, 1))),
        WorldCommand::Replace(SetEntity(1, entity(1, 2))),
        WorldCommand::Delete(DeleteEntity(3)),
    ]);
    apply(&mut h, &mut w, &m);
    apply(&mut h, &mut w, &m);
    assert_eq!(w.get_entity(1).unwrap().pos.x, 2);
}

#[test]
fn set_entity_model_with_missing_model_is_silent() {
    let mut m = ModelSet::new();
    m.register("cube");
    let mut w = World::new();
    let mut e = Entity::default(1);
    e.model = ModelState::Visible("cube".to_string());
    w.insert_entity(1, e);
    let mut h = CommandHandle::new();
    h.add(WorldCommand::SetModel(SetEntityModel(1, "missing".to_string())));
    h.add(WorldCommand::Replace(SetEntity(2, Entity::default(2))));
    apply(&mut h, &mut w, &m);
    apply(&mut h, &mut w, &m);
    assert_eq!(w.model_id(1), Some("cube"));
    assert!(w.contains_entity(2));
}

#[test]
fn set_entity_model_switches_loaded_model() {
    let mut m = ModelSet::new();
    m.register("cube");
    let mut w = World::new();
    w.insert_entity(1, Entity::default(1));
    SetEntityModel(1, "cube".to_string()).execute(&mut w, &m);
    assert_eq!(w.model_id(1), Some("cube"));
    assert_eq!(w.get_entity(1).unwrap().model.short_dbg(), "Visible");
}

#[test]
fn delete_entity_removes_fully() {
    let m = ModelSet::new();
    let mut w = World::new();
    let mut h = CommandHandle::new();
    h.add(WorldCommand::Create(CreateEntity(7, entity(7, 0))));
    h.add(WorldCommand::Create(CreateEntity(8, entity(8, 0))));
    apply(&mut h, &mut w, &m);
    apply(&mut h, &mut w, &m);
    h.add(WorldCommand::Delete(DeleteEntity(7)));
    apply(&mut h, &mut w, &m);
    apply(&mut h, &mut w, &m);
    assert!(!w.contains_entity(7));
    assert!(!w.to_be_rendered().contains(&7));
    assert_eq!(w.to_be_rendered(), &vec![8]);
}

#[test]
fn modify_entity_changes_existing_entity_only() {
    let m = ModelSet::new();
    let mut w = World::new();
    let mut e = Entity::default(1);
    e.model = ModelState::Visible("cube".to_string());
    w.insert_entity(1, e);
    ModifyEntity(1, EntityChange::MoveBy(Vec3::new(3, 4, 5))).execute(&mut w);
    ModifyEntity(1, EntityChange::SetVisibility(false)).execute(&mut w);
    ModifyEntity(2, EntityChange::MoveTo(Vec3::new(1, 1, 1))).execute(&mut w);
    let got = w.get_entity(1).unwrap();
    assert_eq!(got.pos, Vec3::new(3, 4, 5));
    assert_eq!(got.model.short_dbg(), "Invisible");
    assert!(!w.contains_entity(2));
    assert!(w.visible_models().is_empty());
}

#[test]
fn command_trait_execute_queues_deferred_command() {
    let m = ModelSet::new();
    let mut w = World::new();
    let mut pending: Vec<WorldCommand> = Vec::new();
    let inner = WorldCommand::Delete(DeleteEntity(4));
    WorldCommand::Defer(Box::new(inner)).execute(&mut w, &m, &mut pending);
    assert_eq!(pending.len(), 1);
    assert!(matches!(pending[0], WorldCommand::Delete(DeleteEntity(4))));
    WorldCommand::Create(CreateEntity(4, entity(4, 0))).execute(&mut w, &m, &mut pending);
    assert_eq!(pending.len(), 1);
    assert!(w.contains_entity(4));
}

#[test]
fn command_queued_during_update_is_not_run_by_it() {
    let m = ModelSet::new();
    let mut w = World::new();
    let mut h = CommandHandle::new();
    h.add(WorldCommand::Replace(SetEntity(1, entity(1, 0))));
    h.update(&mut w, &m);
    // Y (deferring X) becomes active while the first Set runs
    h.add(WorldCommand::Defer(Box::new(WorldCommand::Delete(DeleteEntity(1)))));
    h.update(&mut w, &m);
    assert!(w.contains_entity(1));
    // this pass runs Y, which queues X; X must wait
    h.update(&mut w, &m);
    assert!(w.contains_entity(1));
    h.update(&mut w, &m);
    assert!(!w.contains_entity(1));
}
