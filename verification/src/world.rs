//! The world: the entity registry, one storage for each kind of component, and the
//! resources shared between systems.
//!
//! An entity is created at once. It is deleted in two steps: `delete` queues it, and
//! `maintain` removes every queued entity from the registry and from all storages.

use vstd::prelude::*;
use crate::components::{
    BallType, BoundingCircle, HitBad, HitGood, HitNeutral, MaxVelocity, ObamaComponent,
    OrbitComponent, RespawnComponent, ScreenShake, Transform, Velocity,
};
use crate::player::PlayerComponent;
use crate::sprite::Sprite;
use crate::storage::{Entity, Storage};

verus! {

/// The error of an operation on an entity that is not alive.
#[derive(Clone, Copy, Debug, PartialEq, Eq, Structural)]
pub struct NotAlive;

/// The registry of entities: which are alive, and which of them are queued for deletion.
pub struct Entities {
    states: Storage<bool>,
}

impl Entities {
    /// The entities that exist.
    pub closed spec fn alive(&self) -> Set<Entity> {
        self.states@.dom()
    }

    /// The entities that exist and are queued for deletion.
    pub closed spec fn doomed(&self) -> Set<Entity> {
        Set::new(|e: Entity| self.states@.contains_key(e) && self.states@[e])
    }

    /// A number above the id of every entity that exists.
    pub closed spec fn bound(&self) -> nat {
        self.states.bound()
    }

    /// Only an entity that exists can be queued for deletion, and every entity that exists
    /// has an id below `bound`.
    pub proof fn lemma_registry(&self)
        ensures
            self.doomed().subset_of(self.alive()),
            self.alive().finite(),
            forall|e: Entity| #[trigger] self.alive().contains(e) ==> e.id < self.bound(),
    {
        self.states.lemma_bounded();
        self.states.lemma_finite();
    }

    /// A registry without entities: nothing exists, nothing is queued, and no id is in use.
    pub fn new() -> (r: Entities)
        ensures
            r.alive() == Set::<Entity>::empty(),
            r.doomed() == Set::<Entity>::empty(),
            r.bound() == 0,
    {
        let r = Entities { states: Storage::new() };
        assert(r.doomed() =~= Set::<Entity>::empty());
        assert(r.alive() =~= Set::<Entity>::empty());
        r
    }

    /// A number above the id of every entity that exists.
    pub fn limit(&self) -> (n: usize)
        ensures
            n == self.bound(),
            forall|e: Entity| #[trigger] self.alive().contains(e) ==> e.id < n,
    {
        self.states.limit()
    }

    /// Whether `entity` exists; one queued for deletion still does.
    pub fn is_alive(&self, entity: Entity) -> (b: bool)
        ensures
            b == self.alive().contains(entity),
    {
        self.states.contains(entity)
    }

    /// Whether `entity` is queued for deletion.
    pub fn is_doomed(&self, entity: Entity) -> (b: bool)
        ensures
            b == self.doomed().contains(entity),
    {
        match self.states.get(entity) {
            Some(queued) => *queued,
            None => false,
        }
    }

    /// Queues `entity` for deletion. It stays alive until the registry is next maintained.
    pub fn delete(&mut self, entity: Entity) -> (r: Result<(), NotAlive>)
        ensures
            r is Ok <==> old(self).alive().contains(entity),
            final(self).alive() == old(self).alive(),
            r is Ok ==> final(self).doomed() == old(self).doomed().insert(entity),
            r is Err ==> final(self).doomed() == old(self).doomed(),
    {
        if self.states.contains(entity) {
            self.states.insert(entity, true);
            assert(self.alive() =~= old(self).alive());
            assert(self.doomed() =~= old(self).doomed().insert(entity));
            Ok(())
        } else {
            Err(NotAlive)
        }
    }

    /// Makes `entity` exist.
    fn register(&mut self, entity: Entity)
        requires
            !old(self).alive().contains(entity),
        ensures
            final(self).alive() == old(self).alive().insert(entity),
            final(self).doomed() == old(self).doomed(),
    {
        self.states.insert(entity, false);
        assert(self.alive() =~= old(self).alive().insert(entity));
        assert(self.doomed() =~= old(self).doomed());
    }

    /// Removes every entity that is queued for deletion.
    fn retire(&mut self)
        ensures
            final(self).alive() == old(self).alive().difference(old(self).doomed()),
            final(self).doomed() == Set::<Entity>::empty(),
    {
        let n = self.states.limit();
        let mut i: usize = 0;
        while i < n
            invariant
                i <= n,
                n == self.states.bound(),
                n == old(self).states.bound(),
                forall|e: Entity|
                    #[trigger] self.states@.contains_key(e) <==> old(self).states@.contains_key(e)
                        && !(e.id < i && old(self).states@[e]),
                forall|e: Entity|
                    #[trigger] self.states@.contains_key(e) ==> self.states@[e] == old(
                        self,
                    ).states@[e],
            decreases n - i,
        {
            let entity = Entity { id: i };
            let ghost before = self.states@;
            if self.is_doomed(entity) {
                self.states.remove(entity);
            }
            assert forall|e: Entity|
                #[trigger] self.states@.contains_key(e) <==> old(self).states@.contains_key(e)
                    && !(e.id < i + 1 && old(self).states@[e]) by {
                if e.id == i {
                    assert(e == entity);
                }
                assert(before.contains_key(e) <==> old(self).states@.contains_key(e) && !(e.id < i
                    && old(self).states@[e]));
            }
            i = i + 1;
        }
        proof {
            old(self).states.lemma_bounded();
            assert(self.alive() =~= old(self).alive().difference(old(self).doomed()));
            assert(self.doomed() =~= Set::<Entity>::empty());
        }
    }
}

/// Removes from `storage` the component of every entity that is queued for deletion.
fn purge<T>(storage: &mut Storage<T>, entities: &Entities)
    ensures
        final(storage)@ == old(storage)@.remove_keys(entities.doomed()),
{
    let n = storage.limit();
    let mut i: usize = 0;
    while i < n
        invariant
            i <= n,
            n == storage.bound(),
            n == old(storage).bound(),
            forall|e: Entity|
                #[trigger] storage@.contains_key(e) <==> old(storage)@.contains_key(e) && !(e.id
                    < i && entities.doomed().contains(e)),
            forall|e: Entity|
                #[trigger] storage@.contains_key(e) ==> storage@[e] == old(storage)@[e],
        decreases n - i,
    {
        let entity = Entity { id: i };
        let ghost before = storage@;
        if entities.is_doomed(entity) {
            storage.remove(entity);
        }
        assert forall|e: Entity|
            #[trigger] storage@.contains_key(e) <==> old(storage)@.contains_key(e) && !(e.id < i
                + 1 && entities.doomed().contains(e)) by {
            if e.id == i {
                assert(e == entity);
            }
            assert(before.contains_key(e) <==> old(storage)@.contains_key(e) && !(e.id < i
                && entities.doomed().contains(e)));
        }
        i = i + 1;
    }
    proof {
        old(storage).lemma_bounded();
        assert(storage@ =~= old(storage)@.remove_keys(entities.doomed()));
    }
}

/// What a world holds: its entities as sets, its storages as maps, and its resources.
pub struct WorldView {
    pub alive: Set<Entity>,
    pub doomed: Set<Entity>,
    pub transforms: Map<Entity, Transform>,
    pub velocities: Map<Entity, Velocity>,
    pub max_velocities: Map<Entity, MaxVelocity>,
    pub sprites: Map<Entity, Sprite>,
    pub bounding_circles: Map<Entity, BoundingCircle>,
    pub players: Map<Entity, PlayerComponent>,
    pub obamas: Map<Entity, ObamaComponent>,
    pub respawns: Map<Entity, RespawnComponent>,
    pub ball_types: Map<Entity, BallType>,
    pub orbits: Map<Entity, OrbitComponent>,
    pub hit_bad: HitBad,
    pub hit_neutral: HitNeutral,
    pub hit_good: HitGood,
    pub screen_shake: ScreenShake,
}

impl WorldView {
    /// Whether `e` has a component of any kind.
    pub open spec fn holds(self, e: Entity) -> bool {
        ||| self.transforms.contains_key(e)
        ||| self.velocities.contains_key(e)
        ||| self.max_velocities.contains_key(e)
        ||| self.sprites.contains_key(e)
        ||| self.bounding_circles.contains_key(e)
        ||| self.players.contains_key(e)
        ||| self.obamas.contains_key(e)
        ||| self.respawns.contains_key(e)
        ||| self.ball_types.contains_key(e)
        ||| self.orbits.contains_key(e)
    }

    /// Whether `e` may be handed out as a new entity: it does not exist and no storage holds
    /// anything under it.
    pub open spec fn fresh(self, e: Entity) -> bool {
        !self.alive.contains(e) && !self.holds(e)
    }

    /// The world once `e` has been created.
    pub open spec fn create(self, e: Entity) -> WorldView {
        WorldView { alive: self.alive.insert(e), ..self }
    }

    /// The world once `e` has been queued for deletion: nothing changes but the queue, and
    /// that only where `e` exists.
    pub open spec fn delete(self, e: Entity) -> WorldView {
        if self.alive.contains(e) {
            WorldView { doomed: self.doomed.insert(e), ..self }
        } else {
            self
        }
    }

    /// The world once the queued deletions have been carried out: every queued entity is
    /// gone from the registry and from every storage, and the queue is empty.
    pub open spec fn maintain(self) -> WorldView {
        WorldView {
            alive: self.alive.difference(self.doomed),
            doomed: Set::empty(),
            transforms: self.transforms.remove_keys(self.doomed),
            velocities: self.velocities.remove_keys(self.doomed),
            max_velocities: self.max_velocities.remove_keys(self.doomed),
            sprites: self.sprites.remove_keys(self.doomed),
            bounding_circles: self.bounding_circles.remove_keys(self.doomed),
            players: self.players.remove_keys(self.doomed),
            obamas: self.obamas.remove_keys(self.doomed),
            respawns: self.respawns.remove_keys(self.doomed),
            ball_types: self.ball_types.remove_keys(self.doomed),
            orbits: self.orbits.remove_keys(self.doomed),
            ..self
        }
    }
}

/// The entities that have a component in both `a` and `b`: what a pass over the two
/// storages visits.
pub open spec fn joined<A, B>(a: Map<Entity, A>, b: Map<Entity, B>) -> Set<Entity> {
    a.dom().intersect(b.dom())
}

/// The entities that have a component in each of `a`, `b` and `c`.
pub open spec fn joined3<A, B, C>(
    a: Map<Entity, A>,
    b: Map<Entity, B>,
    c: Map<Entity, C>,
) -> Set<Entity> {
    a.dom().intersect(b.dom()).intersect(c.dom())
}

/// The entities that have a component in both `a` and `b`, each once, by rising id.
pub fn join<A, B>(a: &Storage<A>, b: &Storage<B>) -> (r: Vec<Entity>)
    ensures
        forall|k: int| 0 <= k < r@.len() ==> joined(a@, b@).contains(#[trigger] r@[k]),
        forall|e: Entity| joined(a@, b@).contains(e) ==> #[trigger] r@.contains(e),
        forall|i: int, j: int| 0 <= i < j < r@.len() ==> (#[trigger] r@[i]).id < (#[trigger] r@[j]).id,
{
    let mut r: Vec<Entity> = Vec::new();
    let n = a.limit();
    let mut i: usize = 0;
    while i < n
        invariant
            i <= n,
            n == a.bound(),
            forall|k: int|
                0 <= k < r@.len() ==> joined(a@, b@).contains(#[trigger] r@[k]) && r@[k].id < i,
            forall|e: Entity| joined(a@, b@).contains(e) && e.id < i ==> #[trigger] r@.contains(e),
            forall|i: int, j: int|
                0 <= i < j < r@.len() ==> (#[trigger] r@[i]).id < (#[trigger] r@[j]).id,
        decreases n - i,
    {
        let entity = Entity { id: i };
        let ghost before = r@;
        if a.contains(entity) && b.contains(entity) {
            r.push(entity);
        }
        assert forall|e: Entity| joined(a@, b@).contains(e) && e.id < i + 1 implies #[trigger] r@.contains(
            e,
        ) by {
            if e.id == i {
                assert(e == entity);
                assert(r@[r@.len() - 1] == e);
            } else {
                assert(before.contains(e));
                let k = choose|k: int| 0 <= k < before.len() && before[k] == e;
                assert(r@[k] == e);
            }
        }
        i = i + 1;
    }
    proof {
        a.lemma_bounded();
    }
    r
}

/// The entities that have a component in each of `a`, `b` and `c`, each once, by rising
/// id.
pub fn join3<A, B, C>(a: &Storage<A>, b: &Storage<B>, c: &Storage<C>) -> (r: Vec<Entity>)
    ensures
        forall|k: int| 0 <= k < r@.len() ==> joined3(a@, b@, c@).contains(#[trigger] r@[k]),
        forall|e: Entity| joined3(a@, b@, c@).contains(e) ==> #[trigger] r@.contains(e),
        forall|i: int, j: int| 0 <= i < j < r@.len() ==> (#[trigger] r@[i]).id < (#[trigger] r@[j]).id,
{
    let mut r: Vec<Entity> = Vec::new();
    let n = a.limit();
    let mut i: usize = 0;
    while i < n
        invariant
            i <= n,
            n == a.bound(),
            forall|k: int|
                0 <= k < r@.len() ==> joined3(a@, b@, c@).contains(#[trigger] r@[k]) && r@[k].id
                    < i,
            forall|e: Entity|
                joined3(a@, b@, c@).contains(e) && e.id < i ==> #[trigger] r@.contains(e),
            forall|i: int, j: int|
                0 <= i < j < r@.len() ==> (#[trigger] r@[i]).id < (#[trigger] r@[j]).id,
        decreases n - i,
    {
        let entity = Entity { id: i };
        let ghost before = r@;
        if a.contains(entity) && b.contains(entity) && c.contains(entity) {
            r.push(entity);
        }
        assert forall|e: Entity|
            joined3(a@, b@, c@).contains(e) && e.id < i + 1 implies #[trigger] r@.contains(e) by {
            if e.id == i {
                assert(e == entity);
                assert(r@[r@.len() - 1] == e);
            } else {
                assert(before.contains(e));
                let k = choose|k: int| 0 <= k < before.len() && before[k] == e;
                assert(r@[k] == e);
            }
        }
        i = i + 1;
    }
    proof {
        a.lemma_bounded();
    }
    r
}

/// An entity queued for deletion stays as it is until the world is maintained: it still
/// exists and every storage still holds what it held, so every pass still visits it.
/// Once the world has been maintained the entity is gone: it does not exist, no storage
/// holds anything under it, and no pass over any storages visits it.
pub proof fn lemma_deletion_is_deferred(w: WorldView, e: Entity)
    requires
        w.alive.contains(e),
    ensures
        w.delete(e) == (WorldView { doomed: w.doomed.insert(e), ..w }),
        w.delete(e).alive.contains(e),
        forall|x: Entity| w.delete(e).holds(x) == w.holds(x),
        !w.delete(e).maintain().alive.contains(e),
        !w.delete(e).maintain().holds(e),
        !joined(w.delete(e).maintain().transforms, w.delete(e).maintain().velocities).contains(e),
{
}

/// Maintaining the world leaves every entity that is not queued for deletion as it was.
pub proof fn lemma_maintain_keeps_the_rest(w: WorldView, e: Entity)
    requires
        !w.doomed.contains(e),
    ensures
        w.maintain().alive.contains(e) == w.alive.contains(e),
        w.maintain().transforms.contains_key(e) == w.transforms.contains_key(e),
        w.maintain().velocities.contains_key(e) == w.velocities.contains_key(e),
        w.maintain().max_velocities.contains_key(e) == w.max_velocities.contains_key(e),
        w.maintain().sprites.contains_key(e) == w.sprites.contains_key(e),
        w.maintain().bounding_circles.contains_key(e) == w.bounding_circles.contains_key(e),
        w.maintain().players.contains_key(e) == w.players.contains_key(e),
        w.maintain().obamas.contains_key(e) == w.obamas.contains_key(e),
        w.maintain().respawns.contains_key(e) == w.respawns.contains_key(e),
        w.maintain().ball_types.contains_key(e) == w.ball_types.contains_key(e),
        w.maintain().orbits.contains_key(e) == w.orbits.contains_key(e),
        w.transforms.contains_key(e) ==> w.maintain().transforms[e] == w.transforms[e],
        w.velocities.contains_key(e) ==> w.maintain().velocities[e] == w.velocities[e],
{
}

/// The registry, the storages and the shared resources.
pub struct World {
    pub entities: Entities,
    pub transforms: Storage<Transform>,
    pub velocities: Storage<Velocity>,
    pub max_velocities: Storage<MaxVelocity>,
    pub sprites: Storage<Sprite>,
    pub bounding_circles: Storage<BoundingCircle>,
    pub players: Storage<PlayerComponent>,
    pub obamas: Storage<ObamaComponent>,
    pub respawns: Storage<RespawnComponent>,
    pub ball_types: Storage<BallType>,
    pub orbits: Storage<OrbitComponent>,
    pub hit_bad: HitBad,
    pub hit_neutral: HitNeutral,
    pub hit_good: HitGood,
    pub screen_shake: ScreenShake,
}

impl View for World {
    type V = WorldView;

    open spec fn view(&self) -> WorldView {
        WorldView {
            alive: self.entities.alive(),
            doomed: self.entities.doomed(),
            transforms: self.transforms@,
            velocities: self.velocities@,
            max_velocities: self.max_velocities@,
            sprites: self.sprites@,
            bounding_circles: self.bounding_circles@,
            players: self.players@,
            obamas: self.obamas@,
            respawns: self.respawns@,
            ball_types: self.ball_types@,
            orbits: self.orbits@,
            hit_bad: self.hit_bad,
            hit_neutral: self.hit_neutral,
            hit_good: self.hit_good,
            screen_shake: self.screen_shake,
        }
    }
}

impl World {
    /// A world without entities, with no hit recorded and no shake requested.
    pub fn new() -> (w: World)
        ensures
            w@.alive == Set::<Entity>::empty(),
            w@.doomed == Set::<Entity>::empty(),
            forall|e: Entity| !w@.holds(e),
            w.hit_bad == HitBad(false),
            w.hit_neutral == HitNeutral(false),
            w.hit_good == HitGood(false),
            w.screen_shake == ScreenShake(None),
    {
        World {
            entities: Entities::new(),
            transforms: Storage::new(),
            velocities: Storage::new(),
            max_velocities: Storage::new(),
            sprites: Storage::new(),
            bounding_circles: Storage::new(),
            players: Storage::new(),
            obamas: Storage::new(),
            respawns: Storage::new(),
            ball_types: Storage::new(),
            orbits: Storage::new(),
            hit_bad: HitBad(false),
            hit_neutral: HitNeutral(false),
            hit_good: HitGood(false),
            screen_shake: ScreenShake(None),
        }
    }

    /// Whether `entity` may be handed out as a new entity.
    pub fn is_fresh(&self, entity: Entity) -> (b: bool)
        ensures
            b == self@.fresh(entity),
    {
        !self.entities.is_alive(entity) && !self.transforms.contains(entity)
            && !self.velocities.contains(entity) && !self.max_velocities.contains(entity)
            && !self.sprites.contains(entity) && !self.bounding_circles.contains(entity)
            && !self.players.contains(entity) && !self.obamas.contains(entity)
            && !self.respawns.contains(entity) && !self.ball_types.contains(entity)
            && !self.orbits.contains(entity)
    }

    /// A number above the id of every entity that exists or has a component.
    fn limit(&self) -> (n: usize)
        ensures
            forall|e: Entity| e.id >= n ==> #[trigger] self@.fresh(e),
    {
        let mut n = self.entities.limit();
        n = larger(n, self.transforms.limit());
        n = larger(n, self.velocities.limit());
        n = larger(n, self.max_velocities.limit());
        n = larger(n, self.sprites.limit());
        n = larger(n, self.bounding_circles.limit());
        n = larger(n, self.players.limit());
        n = larger(n, self.obamas.limit());
        n = larger(n, self.respawns.limit());
        n = larger(n, self.ball_types.limit());
        n = larger(n, self.orbits.limit());
        n
    }

    /// Creates an entity. It exists at once and has no component yet; its id is the lowest
    /// one that is not in use.
    pub fn create_entity(&mut self) -> (entity: Entity)
        ensures
            old(self)@.fresh(entity),
            forall|e: Entity| e.id < entity.id ==> !old(self)@.fresh(e),
            final(self)@ == old(self)@.create(entity),
    {
        let n = self.limit();
        let mut i: usize = 0;
        let mut found = false;
        while i < n && !found
            invariant
                i <= n,
                *self == *old(self),
                forall|e: Entity| e.id < i ==> !self@.fresh(e),
                found ==> i < n && self@.fresh(Entity { id: i }),
            decreases n - i + if found { 0int } else { 1int },
        {
            let candidate = Entity { id: i };
            if self.is_fresh(candidate) {
                found = true;
            } else {
                i = i + 1;
            }
        }
        let entity = Entity { id: i };
        assert(self@.fresh(entity));
        self.entities.register(entity);
        entity
    }

    /// Queues `entity` for deletion. Until `maintain` it still exists and keeps its
    /// components. An entity that does not exist gives `NotAlive`, and nothing changes.
    pub fn delete_entity(&mut self, entity: Entity) -> (r: Result<(), NotAlive>)
        ensures
            r is Ok <==> old(self)@.alive.contains(entity),
            final(self)@ == old(self)@.delete(entity),
    {
        self.entities.delete(entity)
    }

    /// Carries out the queued deletions.
    pub fn maintain(&mut self)
        ensures
            final(self)@ == old(self)@.maintain(),
    {
        purge(&mut self.transforms, &self.entities);
        purge(&mut self.velocities, &self.entities);
        purge(&mut self.max_velocities, &self.entities);
        purge(&mut self.sprites, &self.entities);
        purge(&mut self.bounding_circles, &self.entities);
        purge(&mut self.players, &self.entities);
        purge(&mut self.obamas, &self.entities);
        purge(&mut self.respawns, &self.entities);
        purge(&mut self.ball_types, &self.entities);
        purge(&mut self.orbits, &self.entities);
        self.entities.retire();
    }
}

fn larger(a: usize, b: usize) -> (m: usize)
    ensures
        m >= a,
        m >= b,
        m == a || m == b,
{
    if a >= b {
        a
    } else {
        b
    }
}

} // verus!
