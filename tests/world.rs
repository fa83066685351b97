use age_engine::world::{create_entity_py, Entity, ModelSet, ModelState, Rotation, Vec3, World};

fn models(names: &[&str]) -> ModelSet {
    let mut m = ModelSet::new();
    for n in names {
        m.register(n);
    }
    m
}

fn visible(name: &str) -> ModelState {
    ModelState::Visible(name.to_string())
}

fn invisible(name: &str) -> ModelState {
    ModelState::Invisible(name.to_string())
}

#[test]
fn visibility_round_trip_keeps_model() {
    let mut s = visible("x");
    s.set_visibility(false);
    assert_eq!(s.short_dbg(), "Invisible");
    assert_eq!(s.get_model_id(), Some("x"));
    s.set_visibility(true);
    assert_eq!(s.short_dbg(), "Visible");
    assert_eq!(s.get_model_id(), Some("x"));
}

#[test]
fn visibility_to_same_value_changes_nothing() {
    let mut s = visible("x");
    s.set_visibility(true);
    assert_eq!(s.short_dbg(), "Visible");
    let mut h = invisible("y");
    h.set_visibility(false);
    assert_eq!(h.short_dbg(), "Invisible");
    assert_eq!(h.get_model_id(), Some("y"));
    let mut n = ModelState::no_model();
    n.set_visibility(true);
    assert_eq!(n.short_dbg(), "NoModel");
    assert_eq!(n.get_model_id(), None);
}

#[test]
fn set_model_to_missing_model_fails_and_keeps_state() {
    let m = models(&["cube"]);
    let mut s = ModelState::NoModel;
    assert_eq!(s.set_model(&m, &"missing".to_string()), Err(()));
    assert_eq!(s.short_dbg(), "NoModel");
    let mut v = visible("cube");
    assert_eq!(v.set_model(&m, &"missing".to_string()), Err(()));
    assert_eq!(v.get_model_id(), Some("cube"));
}

#[test]
fn set_model_follows_visibility() {
    let m = models(&["cube", "ball"]);
    let mut s = ModelState::default();
    assert_eq!(s.set_model(&m, &"cube".to_string()), Ok(()));
    assert_eq!(s.short_dbg(), "Visible");
    assert_eq!(s.get_model_id(), Some("cube"));
    assert_eq!(s.set_model(&m, &"ball".to_string()), Ok(()));
    assert_eq!(s.short_dbg(), "Visible");
    assert_eq!(s.get_model_id(), Some("ball"));
    let mut h = invisible("cube");
    assert_eq!(h.set_model(&m, &"ball".to_string()), Ok(()));
    assert_eq!(h.short_dbg(), "Invisible");
    assert_eq!(h.get_model_id(), Some("ball"));
}

#[test]
fn model_set_registers_names_once() {
    let mut m = ModelSet::new();
    assert!(!m.contains("cube"));
    m.register("cube");
    m.register("cube");
    assert!(m.contains("cube"));
    assert!(!m.contains("cub"));
}

#[test]
fn default_entity_is_at_origin_without_model() {
    let e = Entity::default(9);
    assert_eq!(e.id, 9);
    assert_eq!(e.pos, Vec3::new(0, 0, 0));
    assert_eq!(e.rotation, Rotation { s: 0, x: 0, y: 0, z: 0 });
    assert_eq!(e.get_model_id(), None);
    let f = create_entity_py(4);
    assert_eq!(f.id, 4);
}

#[test]
fn relative_move_saturates() {
    let mut e = Entity::default(1);
    e.set_pos(Vec3::new(i32::MAX - 1, 5, i32::MIN + 1));
    e.set_pos_relative(Vec3::new(10, -7, -10));
    assert_eq!(e.pos, Vec3::new(i32::MAX, -2, i32::MIN));
    assert_eq!(Vec3::new(1, 2, 3).offset(Vec3::new(4, 5, 6)), Vec3::new(5, 7, 9));
}

#[test]
fn insert_entity_overwrites_and_returns_displaced() {
    let mut w = World::new();
    assert!(w.insert_entity(3, Entity::default(30)).is_none());
    let old = w.insert_entity(3, Entity::default(31)).unwrap();
    assert_eq!(old.id, 30);
    assert_eq!(w.get_entity(3).unwrap().id, 31);
    assert_eq!(w.to_be_rendered(), &vec![3]);
}

#[test]
fn delete_entity_removes_from_table_and_index() {
    let mut w = World::new();
    w.insert_entity(7, Entity::default(7));
    w.insert_entity(8, Entity::default(8));
    w.delete_entity(7);
    assert!(!w.contains_entity(7));
    assert!(w.get_entity(7).is_none());
    assert_eq!(w.to_be_rendered(), &vec![8]);
    w.delete_entity(7);
    assert_eq!(w.to_be_rendered(), &vec![8]);
}

#[test]
fn moves_on_missing_entity_do_nothing() {
    let mut w = World::new();
    w.move_entity(1, Vec3::new(1, 1, 1));
    w.move_entity_rel(1, Vec3::new(1, 1, 1));
    assert!(!w.contains_entity(1));
    assert!(w.to_be_rendered().is_empty());
}

#[test]
fn moves_change_position() {
    let mut w = World::new();
    w.insert_entity(1, Entity::default(1));
    w.move_entity(1, Vec3::new(10, 20, 30));
    w.move_entity_rel(1, Vec3::new(1, -2, 3));
    assert_eq!(w.get_entity(1).unwrap().pos, Vec3::new(11, 18, 33));
}

#[test]
fn world_set_model_is_guarded() {
    let m = models(&["cube"]);
    let mut w = World::new();
    w.insert_entity(1, Entity::default(1));
    w.set_model(1, &m, &"missing".to_string());
    assert_eq!(w.model_id(1), None);
    w.set_model(1, &m, &"cube".to_string());
    assert_eq!(w.model_id(1), Some("cube"));
    w.set_model(2, &m, &"cube".to_string());
    assert!(!w.contains_entity(2));
}

#[test]
fn visible_models_follow_creation_order_and_visibility() {
    let mut w = World::new();
    let mut a = Entity::default(1);
    a.model = visible("a");
    let mut b = Entity::default(2);
    b.model = invisible("b");
    let c = Entity::default(3);
    let mut d = Entity::default(4);
    d.model = visible("d");
    w.insert_entity(4, d);
    w.insert_entity(1, a);
    w.insert_entity(2, b);
    w.insert_entity(3, c);
    assert_eq!(w.visible_models(), vec!["d".to_string(), "a".to_string()]);
    assert_eq!(w.to_be_rendered(), &vec![4, 1, 2, 3]);
}
