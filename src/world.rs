use vstd::prelude::*;
use std::collections::HashMap;

verus! {

/// `v` clamped to the range of `i32`.
pub open spec fn clamp_i32(v: int) -> i32 {
    if v > i32::MAX {
        i32::MAX
    } else if v < i32::MIN {
        i32::MIN
    } else {
        v as i32
    }
}

fn saturating_add_i32(a: i32, b: i32) -> (r: i32)
    ensures
        r == clamp_i32(a + b),
{
    let s: i64 = a as i64 + b as i64;
    if s > i32::MAX as i64 {
        i32::MAX
    } else if s < i32::MIN as i64 {
        i32::MIN
    } else {
        s as i32
    }
}

/// A point or offset in world space, in fixed point with 16 fractional bits.
#[derive(Debug, Clone, Copy, PartialEq, Eq, Structural)]
pub struct Vec3 {
    pub x: i32,
    pub y: i32,
    pub z: i32,
}

impl Vec3 {
    pub fn new(x: i32, y: i32, z: i32) -> (v: Vec3)
        ensures
            v == (Vec3 { x, y, z }),
    {
        Vec3 { x, y, z }
    }

    /// Componentwise sum, saturating at the bounds of `i32`.
    pub open spec fn spec_offset(self, d: Vec3) -> Vec3 {
        Vec3 {
            x: clamp_i32(self.x + d.x),
            y: clamp_i32(self.y + d.y),
            z: clamp_i32(self.z + d.z),
        }
    }

    pub fn offset(self, d: Vec3) -> (r: Vec3)
        ensures
            r == self.spec_offset(d),
    {
        Vec3 {
            x: saturating_add_i32(self.x, d.x),
            y: saturating_add_i32(self.y, d.y),
            z: saturating_add_i32(self.z, d.z),
        }
    }
}

/// An orientation as a quaternion `s + xi + yj + zk`, each component in
/// fixed point with 16 fractional bits.
#[derive(Debug, Clone, Copy, PartialEq, Eq, Structural)]
pub struct Rotation {
    pub s: i32,
    pub x: i32,
    pub y: i32,
    pub z: i32,
}

/// The names of the models that the rendering side has loaded.
#[derive(Debug)]
pub struct ModelSet {
    names: Vec<String>,
}

impl View for ModelSet {
    type V = Set<Seq<char>>;

    closed spec fn view(&self) -> Set<Seq<char>> {
        Set::new(|n: Seq<char>| exists|i: int| 0 <= i < self.names@.len() && (#[trigger] self.names@[i])@ == n)
    }
}

impl ModelSet {
    pub fn new() -> (m: ModelSet)
        ensures
            m@ == Set::<Seq<char>>::empty(),
    {
        let m = ModelSet { names: Vec::new() };
        assert(m@ =~= Set::<Seq<char>>::empty());
        m
    }

    pub fn contains(&self, name: &str) -> (r: bool)
        ensures
            r == self@.contains(name@),
    {
        let wanted = name.to_owned();
        let mut i: usize = 0;
        while i < self.names.len()
            invariant
                0 <= i <= self.names@.len(),
                wanted@ == name@,
                forall|j: int| 0 <= j < i ==> (#[trigger] self.names@[j])@ != name@,
            decreases self.names@.len() - i,
        {
            if self.names[i] == wanted {
                assert(self.names@[i as int]@ == name@);
                return true;
            }
            i = i + 1;
        }
        false
    }

    /// Records that the model `name` is loaded.
    pub fn register(&mut self, name: &str)
        ensures
            final(self)@ == old(self)@.insert(name@),
    {
        if !self.contains(name) {
            self.names.push(name.to_owned());
            assert forall|n: Seq<char>| #[trigger] final(self)@.contains(n) <==> old(self)@.insert(name@).contains(n) by {
                if old(self)@.contains(n) {
                    let j = choose|j: int| 0 <= j < old(self).names@.len() && (#[trigger] old(self).names@[j])@ == n;
                    assert(self.names@[j] == old(self).names@[j]);
                }
                if self@.contains(n) {
                    let j = choose|j: int| 0 <= j < self.names@.len() && (#[trigger] self.names@[j])@ == n;
                    if j < old(self).names@.len() {
                        assert(old(self).names@[j] == self.names@[j]);
                    }
                }
                if n == name@ {
                    assert(self.names@[self.names@.len() - 1]@ == n);
                }
            }
        }
        assert(final(self)@ =~= old(self)@.insert(name@));
    }
}

/// Which model an entity shows, and whether it is drawn.
#[derive(Debug)]
pub enum ModelState {
    NoModel,
    Visible(String),
    Invisible(String),
}

impl Clone for ModelState {
    fn clone(&self) -> (r: Self)
        ensures
            r == *self,
    {
        match self {
            ModelState::NoModel => ModelState::NoModel,
            ModelState::Visible(m) => ModelState::Visible(m.clone()),
            ModelState::Invisible(m) => ModelState::Invisible(m.clone()),
        }
    }
}

impl Default for ModelState {
    fn default() -> (m: Self)
        ensures
            m == ModelState::NoModel,
    {
        ModelState::NoModel
    }
}

impl ModelState {
    /// The model reference, if any.
    pub open spec fn spec_model_id(self) -> Option<Seq<char>> {
        match self {
            ModelState::NoModel => None,
            ModelState::Visible(m) => Some(m@),
            ModelState::Invisible(m) => Some(m@),
        }
    }

    /// Showing or hiding keeps the model; an entity without a model, or one
    /// already in the asked state, is left as it is.
    pub open spec fn with_visibility(self, visible: bool) -> ModelState {
        match self {
            ModelState::Invisible(m) => if visible {
                ModelState::Visible(m)
            } else {
                self
            },
            ModelState::Visible(m) => if !visible {
                ModelState::Invisible(m)
            } else {
                self
            },
            ModelState::NoModel => self,
        }
    }

    /// Whether `id` names a loaded model, which is what a model change asks.
    pub open spec fn model_change_allowed(models: Set<Seq<char>>, id: String) -> bool {
        models.contains(id@)
    }

    /// The state after asking for model `id`: unchanged when `id` is not a
    /// loaded model; else the model is replaced, an entity without one becomes
    /// visible and a hidden one stays hidden.
    pub open spec fn with_model(self, models: Set<Seq<char>>, id: String) -> ModelState {
        if !Self::model_change_allowed(models, id) {
            self
        } else {
            match self {
                ModelState::Invisible(_) => ModelState::Invisible(id),
                _ => ModelState::Visible(id),
            }
        }
    }

    pub fn short_dbg(&self) -> (r: &'static str)
        ensures
            r@ == (match *self {
                ModelState::NoModel => "NoModel"@,
                ModelState::Visible(_) => "Visible"@,
                ModelState::Invisible(_) => "Invisible"@,
            }),
    {
        match self {
            ModelState::NoModel => "NoModel",
            ModelState::Visible(..) => "Visible",
            ModelState::Invisible(..) => "Invisible",
        }
    }

    pub fn get_model_id(&self) -> (r: Option<&str>)
        ensures
            r matches Some(s) ==> self.spec_model_id() == Some(s@),
            r is None ==> self.spec_model_id() is None,
    {
        match self {
            ModelState::NoModel => None,
            ModelState::Visible(m) => Some(m.as_str()),
            ModelState::Invisible(m) => Some(m.as_str()),
        }
    }

    pub fn set_visibility(&mut self, visible: bool)
        ensures
            *final(self) == old(self).with_visibility(visible),
    {
        let mut cur = ModelState::NoModel;
        std::mem::swap(&mut cur, self);
        *self = match cur {
            ModelState::Invisible(m) => if visible {
                ModelState::Visible(m)
            } else {
                ModelState::Invisible(m)
            },
            ModelState::Visible(m) => if !visible {
                ModelState::Invisible(m)
            } else {
                ModelState::Visible(m)
            },
            ModelState::NoModel => ModelState::NoModel,
        };
    }

    /// Switches to model `id` when it is loaded; reports an error and
    /// changes nothing when it is not.
    pub fn set_model(&mut self, models: &ModelSet, id: &String) -> (r: Result<(), ()>)
        ensures
            r is Ok <==> ModelState::model_change_allowed(models@, *id),
            *final(self) == old(self).with_model(models@, *id),
    {
        if !models.contains(id.as_str()) {
            return Err(());
        }
        let owned = id.clone();
        let hidden = match self {
            ModelState::Invisible(_) => true,
            _ => false,
        };
        *self = if hidden {
            ModelState::Invisible(owned)
        } else {
            ModelState::Visible(owned)
        };
        Ok(())
    }

    pub fn no_model() -> (m: ModelState)
        ensures
            m == ModelState::NoModel,
    {
        ModelState::NoModel
    }
}

/// A world object. Its id is chosen by the caller.
#[derive(Debug)]
pub struct Entity {
    pub id: u32,
    pub model: ModelState,
    pub pos: Vec3,
    pub rotation: Rotation,
}

impl Clone for Entity {
    fn clone(&self) -> (r: Self)
        ensures
            r == *self,
    {
        Entity { id: self.id, model: self.model.clone(), pos: self.pos, rotation: self.rotation }
    }
}

impl Entity {
    /// An entity at the origin, without a model, with the zero quaternion.
    pub open spec fn spec_default(id: u32) -> Entity {
        Entity {
            id,
            model: ModelState::NoModel,
            pos: Vec3 { x: 0, y: 0, z: 0 },
            rotation: Rotation { s: 0, x: 0, y: 0, z: 0 },
        }
    }

    pub fn default(id: u32) -> (e: Entity)
        ensures
            e == Entity::spec_default(id),
    {
        Entity {
            id,
            model: ModelState::NoModel,
            pos: Vec3 { x: 0, y: 0, z: 0 },
            rotation: Rotation { s: 0, x: 0, y: 0, z: 0 },
        }
    }

    pub open spec fn with_pos(self, pos: Vec3) -> Entity {
        Entity { pos, ..self }
    }

    pub open spec fn with_model_state(self, model: ModelState) -> Entity {
        Entity { model, ..self }
    }

    pub fn set_pos(&mut self, pos: Vec3)
        ensures
            *final(self) == old(self).with_pos(pos),
    {
        self.pos = pos;
    }

    pub fn set_pos_relative(&mut self, offset: Vec3)
        ensures
            *final(self) == old(self).with_pos(old(self).pos.spec_offset(offset)),
    {
        self.pos = self.pos.offset(offset);
    }

    pub fn get_model_id(&self) -> (r: Option<&str>)
        ensures
            r matches Some(s) ==> self.model.spec_model_id() == Some(s@),
            r is None ==> self.model.spec_model_id() is None,
    {
        self.model.get_model_id()
    }
}

/// A new entity with the given id, as `Entity::default` makes it.
pub fn create_entity_py(id: u32) -> (e: Entity)
    ensures
        e == Entity::spec_default(id),
{
    Entity::default(id)
}

/// Abstract state of a [`World`]: the entities by id, and the ids to
/// re-check for drawing, in the order they were first created.
pub struct WorldView {
    pub entities: Map<u32, Entity>,
    pub to_be_rendered: Seq<u32>,
}

/// The model of an entity to draw, when it is visible.
pub open spec fn drawn_model(entities: Map<u32, Entity>) -> spec_fn(u32) -> Option<String> {
    |id: u32|
        match entities[id].model {
            ModelState::Visible(m) => Some(m),
            _ => None,
        }
}

/// Whether an id differs from `id`.
pub open spec fn other_than(id: u32) -> spec_fn(u32) -> bool {
    |x: u32| x != id
}

impl WorldView {
    pub open spec fn empty() -> WorldView {
        WorldView { entities: Map::empty(), to_be_rendered: Seq::empty() }
    }

    /// Every draw candidate is an entity and every entity is a candidate,
    /// each listed once.
    pub open spec fn wf(self) -> bool {
        &&& self.to_be_rendered.no_duplicates()
        &&& forall|id: u32| #[trigger] self.to_be_rendered.contains(id) <==> self.entities.contains_key(id)
    }

    /// `e` stored under `id`, replacing what was there; a new id becomes a
    /// draw candidate.
    pub open spec fn inserted(self, id: u32, e: Entity) -> WorldView {
        WorldView {
            entities: self.entities.insert(id, e),
            to_be_rendered: if self.entities.contains_key(id) {
                self.to_be_rendered
            } else {
                self.to_be_rendered.push(id)
            },
        }
    }

    /// The entity `id` gone, from the table and from the draw candidates.
    pub open spec fn deleted(self, id: u32) -> WorldView {
        WorldView {
            entities: self.entities.remove(id),
            to_be_rendered: self.to_be_rendered.filter(other_than(id)),
        }
    }

    /// Entity `id` replaced by `f` of it; nothing when there is no such
    /// entity.
    pub open spec fn modified(self, id: u32, f: spec_fn(Entity) -> Entity) -> WorldView {
        if self.entities.contains_key(id) {
            WorldView {
                entities: self.entities.insert(id, f(self.entities[id])),
                to_be_rendered: self.to_be_rendered,
            }
        } else {
            self
        }
    }

    pub open spec fn moved_to(self, id: u32, pos: Vec3) -> WorldView {
        self.modified(id, |e: Entity| e.with_pos(pos))
    }

    pub open spec fn moved_by(self, id: u32, offset: Vec3) -> WorldView {
        self.modified(id, |e: Entity| e.with_pos(e.pos.spec_offset(offset)))
    }

    pub open spec fn model_set(self, id: u32, models: Set<Seq<char>>, model: String) -> WorldView {
        self.modified(id, |e: Entity| e.with_model_state(e.model.with_model(models, model)))
    }

    /// The models to draw: for each draw candidate in order, the model of
    /// the entity when it is visible.
    pub open spec fn visible_models(self) -> Seq<String> {
        self.to_be_rendered.filter_map(drawn_model(self.entities))
    }
}

/// The entity table and the index of ids to re-check for drawing. An id
/// joins the index when its entity is first stored and leaves it when the
/// entity is deleted; whether it is drawn is decided from its model state
/// at drawing time.
#[derive(Debug)]
pub struct World {
    entities: HashMap<u32, Entity>,
    to_be_rendered: Vec<u32>,
}

impl View for World {
    type V = WorldView;

    closed spec fn view(&self) -> WorldView {
        WorldView { entities: self.entities@, to_be_rendered: self.to_be_rendered@ }
    }
}

impl World {
    /// Every world is well formed.
    #[verifier::type_invariant]
    pub open spec fn inv(&self) -> bool {
        self@.wf()
    }

    pub fn new() -> (w: World)
        ensures
            w@ == WorldView::empty(),
    {
        let w = World { entities: HashMap::new(), to_be_rendered: Vec::new() };
        assert(w@.entities =~= Map::<u32, Entity>::empty());
        w
    }

    /// The ids to re-check for drawing, in creation order.
    pub fn to_be_rendered(&self) -> (r: &Vec<u32>)
        ensures
            r@ == self@.to_be_rendered,
    {
        &self.to_be_rendered
    }

    /// Stores `entity` under `id` and returns the entity it displaces.
    pub fn insert_entity(&mut self, id: u32, entity: Entity) -> (r: Option<Entity>)
        ensures
            final(self)@ == old(self)@.inserted(id, entity),
            r == (if old(self)@.entities.contains_key(id) {
                Some(old(self)@.entities[id])
            } else {
                None
            }),
    {
        proof {
            use_type_invariant(&*self);
        }
        let mut w = World::new();
        std::mem::swap(&mut w, self);
        proof {
            use_type_invariant(&w);
        }
        let World { mut entities, mut to_be_rendered } = w;
        if !entities.contains_key(&id) {
            to_be_rendered.push(id);
        }
        let r = entities.insert(id, entity);
        let ghost nw = WorldView { entities: entities@, to_be_rendered: to_be_rendered@ };
        assert(nw == old(self)@.inserted(id, entity));
        proof {
            if !old(self)@.entities.contains_key(id) {
                let t = nw.to_be_rendered;
                let o = old(self)@.to_be_rendered;
                assert forall|i: int, j: int| 0 <= i < t.len() && 0 <= j < t.len() && i != j implies t[i] != t[j] by {
                    if i < o.len() && j < o.len() {
                        assert(t[i] == o[i] && t[j] == o[j]);
                    } else if i < o.len() {
                        assert(o.contains(t[i]));
                    } else {
                        assert(o.contains(t[j]));
                    }
                }
            }
            assert forall|x: u32| #[trigger] nw.to_be_rendered.contains(x) <==> nw.entities.contains_key(x) by {
                if !old(self)@.entities.contains_key(id) && x != id {
                    if nw.to_be_rendered.contains(x) {
                        let k = choose|k: int| 0 <= k < nw.to_be_rendered.len() && nw.to_be_rendered[k] == x;
                        assert(old(self)@.to_be_rendered[k] == x);
                    }
                    if old(self)@.to_be_rendered.contains(x) {
                        let k = choose|k: int| 0 <= k < old(self)@.to_be_rendered.len() && old(self)@.to_be_rendered[k] == x;
                        assert(nw.to_be_rendered[k] == x);
                    }
                }
                if !old(self)@.entities.contains_key(id) && x == id {
                    assert(nw.to_be_rendered[nw.to_be_rendered.len() - 1] == x);
                }
            }
        }
        *self = World { entities, to_be_rendered };
        r
    }

    pub fn contains_entity(&self, id: u32) -> (r: bool)
        ensures
            r == self@.entities.contains_key(id),
    {
        self.entities.contains_key(&id)
    }

    /// A copy of entity `id`, if there is one.
    pub fn get_entity(&self, id: u32) -> (r: Option<Entity>)
        ensures
            r == (if self@.entities.contains_key(id) {
                Some(self@.entities[id])
            } else {
                None
            }),
    {
        match self.entities.get(&id) {
            Some(e) => Some(e.clone()),
            None => None,
        }
    }

    /// Removes entity `id` from the table and from the draw candidates.
    pub fn delete_entity(&mut self, id: u32)
        ensures
            final(self)@ == old(self)@.deleted(id),
    {
        proof {
            use_type_invariant(&*self);
        }
        let mut w = World::new();
        std::mem::swap(&mut w, self);
        let World { mut entities, to_be_rendered } = w;
        let ghost all = to_be_rendered@;
        let ghost others = other_than(id);
        let mut kept: Vec<u32> = Vec::new();
        let mut i: usize = 0;
        while i < to_be_rendered.len()
            invariant
                to_be_rendered@ == all,
                all == old(self)@.to_be_rendered,
                others == other_than(id),
                all.no_duplicates(),
                0 <= i <= all.len(),
                kept@ == all.take(i as int).filter(others),
                kept@.no_duplicates(),
                forall|x: u32| #[trigger] kept@.contains(x) <==> (all.take(i as int).contains(x) && x != id),
            decreases all.len() - i,
        {
            proof {
                reveal(Seq::filter);
                assert(all.take(i + 1).drop_last() == all.take(i as int));
                assert(all.take(i + 1).last() == all[i as int]);
                assert(all.take(i + 1).filter(others) == if others(all[i as int]) {
                    all.take(i as int).filter(others).push(all[i as int])
                } else {
                    all.take(i as int).filter(others)
                });
            }
            let x = to_be_rendered[i];
            let ghost before = kept@;
            if x != id {
                kept.push(x);
                proof {
                    assert(!before.contains(x)) by {
                        if before.contains(x) {
                            let t0 = all.take(i as int);
                            let k = choose|k: int| 0 <= k < t0.len() && #[trigger] t0[k] == x;
                            assert(all[k] == all[i as int]);
                        }
                    }
                }
            }
            proof {
                let t0 = all.take(i as int);
                let t1 = all.take(i + 1);
                assert forall|y: u32| #[trigger] kept@.contains(y) <==> (t1.contains(y) && y != id) by {
                    if t1.contains(y) && y != id && y != x {
                        let k = choose|k: int| 0 <= k < t1.len() && #[trigger] t1[k] == y;
                        assert(t0[k] == y);
                        assert(before.contains(y));
                        assert(kept@[before.index_of(y)] == y);
                    }
                    if kept@.contains(y) && y != x {
                        assert(before.contains(y)) by {
                            let k = choose|k: int| 0 <= k < kept@.len() && #[trigger] kept@[k] == y;
                            assert(before[k] == y);
                        }
                        let k = choose|k: int| 0 <= k < t0.len() && #[trigger] t0[k] == y;
                        assert(t1[k] == y);
                    }
                    if y == x && y != id {
                        assert(t1[i as int] == y);
                        assert(kept@[kept@.len() - 1] == y);
                    }
                }
            }
            i = i + 1;
        }
        entities.remove(&id);
        proof {
            assert(all.take(all.len() as int) == all);
            assert(entities@ =~= old(self)@.entities.remove(id));
        }
        *self = World { entities, to_be_rendered: kept };
    }

    /// The model reference of entity `id`, if it exists and has one.
    pub fn model_id(&self, id: u32) -> (r: Option<&str>)
        ensures
            r matches Some(s) ==> self@.entities.contains_key(id) && self@.entities[id].model.spec_model_id() == Some(s@),
            r is None ==> !self@.entities.contains_key(id) || self@.entities[id].model.spec_model_id() is None,
    {
        match self.entities.get(&id) {
            Some(e) => e.get_model_id(),
            None => None,
        }
    }

    /// Moves entity `id` to `pos`; nothing when there is no such entity.
    pub fn move_entity(&mut self, id: u32, pos: Vec3)
        ensures
            final(self)@ == old(self)@.moved_to(id, pos),
    {
        match self.get_entity(id) {
            Some(mut e) => {
                e.set_pos(pos);
                self.insert_entity(id, e);
            },
            None => {},
        }
    }

    /// Moves entity `id` by `offset`; nothing when there is no such entity.
    pub fn move_entity_rel(&mut self, id: u32, offset: Vec3)
        ensures
            final(self)@ == old(self)@.moved_by(id, offset),
    {
        match self.get_entity(id) {
            Some(mut e) => {
                e.set_pos_relative(offset);
                self.insert_entity(id, e);
            },
            None => {},
        }
    }

    /// Asks entity `id` to switch to model `model_id`; nothing when there is
    /// no such entity, or when the model is not loaded.
    pub fn set_model(&mut self, id: u32, models: &ModelSet, model_id: &String)
        ensures
            final(self)@ == old(self)@.model_set(id, models@, *model_id),
    {
        match self.get_entity(id) {
            Some(mut e) => {
                let _ = e.model.set_model(models, model_id);
                self.insert_entity(id, e);
            },
            None => {},
        }
    }

    /// The models to draw this frame: for each draw candidate in creation
    /// order, the model of its entity when that entity is visible.
    pub fn visible_models(&self) -> (r: Vec<String>)
        ensures
            r@ == self@.visible_models(),
    {
        proof {
            use_type_invariant(self);
        }
        let ghost f = drawn_model(self@.entities);
        let mut out: Vec<String> = Vec::new();
        let mut i: usize = 0;
        while i < self.to_be_rendered.len()
            invariant
                0 <= i <= self@.to_be_rendered.len(),
                self@.wf(),
                f == drawn_model(self@.entities),
                out@ == self@.to_be_rendered.take(i as int).filter_map(f),
            decreases self@.to_be_rendered.len() - i,
        {
            proof {
                self@.to_be_rendered.lemma_filter_map_take_succ(f, i as int);
            }
            let id = self.to_be_rendered[i];
            assert(self@.to_be_rendered.contains(id));
            match self.entities.get(&id) {
                Some(e) => match &e.model {
                    ModelState::Visible(m) => {
                        out.push(m.clone());
                    },
                    _ => {},
                },
                None => {},
            }
            i = i + 1;
        }
        proof {
            assert(self@.to_be_rendered.take(self@.to_be_rendered.len() as int) == self@.to_be_rendered);
        }
        out
    }
}

/// A model change to a model that is not loaded changes nothing: the
/// entity keeps its model state, and so does every other entity.
pub proof fn lemma_missing_model_keeps_state(w: WorldView, id: u32, models: Set<Seq<char>>, model: String)
    requires
        !models.contains(model@),
    ensures
        w.model_set(id, models, model) == w,
{
    if w.entities.contains_key(id) {
        let e = w.entities[id];
        assert(e.with_model_state(e.model.with_model(models, model)) == e);
        assert(w.entities.insert(id, e) =~= w.entities);
    }
}

/// Hiding then showing a visible entity gives back its first state, with
/// the same model.
pub proof fn lemma_visibility_round_trip(m: String)
    ensures
        ModelState::Visible(m).with_visibility(false) == ModelState::Invisible(m),
        ModelState::Invisible(m).with_visibility(true) == ModelState::Visible(m),
        ModelState::Visible(m).with_visibility(false).with_visibility(true) == ModelState::Visible(m),
{
}

/// After a deletion the id is neither an entity nor a draw candidate.
pub proof fn lemma_delete_removes_fully(w: WorldView, id: u32)
    ensures
        !w.deleted(id).entities.contains_key(id),
        !w.deleted(id).to_be_rendered.contains(id),
{
    let t = w.to_be_rendered.filter(other_than(id));
    if t.contains(id) {
        let k = choose|k: int| 0 <= k < t.len() && t[k] == id;
        w.to_be_rendered.lemma_filter_pred(other_than(id), k);
    }
}

} // verus!
