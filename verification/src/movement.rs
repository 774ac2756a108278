//! The force ledger of an actor, the velocity integrator and the step that
//! moves an actor along its velocity.

use vstd::prelude::*;
use crate::vector::{narrow, over_time, rate_over_time, saturate, Vector2};

verus! {

/// The constants of the simulated world. Rates are per second.
#[derive(Clone, Copy, Debug, PartialEq, Eq, Structural)]
pub struct PhysicalUniverse {
    /// Share of the velocity that friction removes per second.
    pub friction: i32,
    /// Downward acceleration that gravity adds per second.
    pub gravity: i32,
    /// Largest speed along either axis.
    pub speed_of_light: i32,
    /// Squared speed below which an actor comes to rest.
    pub velocity_epsilon: i32,
}

impl PhysicalUniverse {
    pub fn new() -> (universe: PhysicalUniverse)
        ensures
            universe == (PhysicalUniverse {
                friction: 10,
                gravity: 1000,
                speed_of_light: 200,
                velocity_epsilon: 10,
            }),
    {
        PhysicalUniverse { friction: 10, gravity: 1000, speed_of_light: 200, velocity_epsilon: 10 }
    }
}

/// The linear velocity of an actor.
#[derive(Clone, Copy, Debug, PartialEq, Eq, Structural)]
pub struct Velocity {
    pub value: Vector2,
}

impl Velocity {
    pub fn new() -> (velocity: Velocity)
        ensures
            velocity.value == Vector2::zero(),
    {
        Velocity { value: Vector2 { x: 0, y: 0 } }
    }
}

/// The contents of a force ledger: names with their forces, in the order in
/// which the names were first used.
pub type Forces = Seq<(Seq<char>, Vector2)>;

/// `i` is the first position in `forces` that carries `name`.
pub open spec fn is_first(forces: Forces, name: Seq<char>, i: int) -> bool {
    &&& 0 <= i < forces.len()
    &&& forces[i].0 == name
    &&& forall|j: int| 0 <= j < i ==> forces[j].0 != name
}

/// The position of the entry that stands for `name`, if there is one.
pub open spec fn slot(forces: Forces, name: Seq<char>) -> Option<int> {
    if exists|i: int| is_first(forces, name, i) {
        Some(choose|i: int| is_first(forces, name, i))
    } else {
        None
    }
}

/// No name occurs twice.
pub open spec fn distinct_names(forces: Forces) -> bool {
    forall|i: int, j: int| 0 <= i < j < forces.len() ==> forces[i].0 != forces[j].0
}

/// The force recorded under `name`, or zero if there is none.
pub open spec fn force_of(forces: Forces, name: Seq<char>) -> Vector2 {
    match slot(forces, name) {
        Some(i) => forces[i].1,
        None => Vector2::zero(),
    }
}

/// `forces` with an entry for `name`: unchanged if it has one, else with a zero
/// force appended under that name.
pub open spec fn with_slot(forces: Forces, name: Seq<char>) -> Forces {
    match slot(forces, name) {
        Some(_) => forces,
        None => forces.push((name, Vector2::zero())),
    }
}

/// `forces` with `value` recorded under `name`: in place if `name` has an
/// entry, else appended.
pub open spec fn with_force(forces: Forces, name: Seq<char>, value: Vector2) -> Forces {
    match slot(forces, name) {
        Some(i) => forces.update(i, (name, value)),
        None => forces.push((name, value)),
    }
}

/// The sum of the x components of all forces.
pub open spec fn sum_x(forces: Forces) -> int
    decreases forces.len(),
{
    if forces.len() == 0 {
        0
    } else {
        sum_x(forces.drop_last()) + forces.last().1.x
    }
}

/// The sum of the y components of all forces.
pub open spec fn sum_y(forces: Forces) -> int
    decreases forces.len(),
{
    if forces.len() == 0 {
        0
    } else {
        sum_y(forces.drop_last()) + forces.last().1.y
    }
}

/// The acceleration that `forces` add up to, each component kept within the
/// coordinate range.
pub open spec fn total(forces: Forces) -> Vector2 {
    Vector2 { x: saturate(sum_x(forces)) as i32, y: saturate(sum_y(forces)) as i32 }
}

/// `forces` with the x component of every force set to zero.
pub open spec fn without_x(forces: Forces) -> Forces {
    Seq::new(forces.len(), |i: int| (forces[i].0, Vector2 { x: 0, y: forces[i].1.y }))
}

/// `forces` with the y component of every force set to zero.
pub open spec fn without_y(forces: Forces) -> Forces {
    Seq::new(forces.len(), |i: int| (forces[i].0, Vector2 { x: forces[i].1.x, y: 0 }))
}

/// The named forces that act on one actor. Their sum is the actor's
/// acceleration.
#[derive(Debug)]
pub struct Accelleration {
    pub forces: Vec<(String, Vector2)>,
}

impl View for Accelleration {
    type V = Forces;

    open spec fn view(&self) -> Forces {
        Seq::new(self.forces@.len(), |i: int| (self.forces@[i].0@, self.forces@[i].1))
    }
}

impl Accelleration {
    /// No name occurs twice in the ledger.
    pub open spec fn wf(&self) -> bool {
        distinct_names(self@)
    }

    pub fn new() -> (accel: Accelleration)
        ensures
            accel@ == Seq::<(Seq<char>, Vector2)>::empty(),
            accel.wf(),
    {
        Accelleration { forces: Vec::new() }
    }

    /// The sum of all forces.
    pub fn value(&self) -> (v: Vector2)
        ensures
            v == total(self@),
    {
        let mut x: i128 = 0;
        let mut y: i128 = 0;
        let mut i: usize = 0;
        while i < self.forces.len()
            invariant
                i <= self.forces@.len(),
                x == sum_x(self@.take(i as int)),
                y == sum_y(self@.take(i as int)),
                -0x8000_0000 * i <= x <= 0x8000_0000 * i,
                -0x8000_0000 * i <= y <= 0x8000_0000 * i,
            decreases self.forces@.len() - i,
        {
            let force = self.forces[i].1;
            proof {
                let next = self@.take(i as int + 1);
                assert(next.drop_last() == self@.take(i as int));
                assert(next.last() == self@[i as int]);
            }
            x = x + force.x as i128;
            y = y + force.y as i128;
            i += 1;
        }
        proof {
            assert(self@.take(i as int) == self@);
        }
        Vector2 { x: narrow(x), y: narrow(y) }
    }

    /// Finds the entry that stands for `name`.
    fn position(&self, name: &String) -> (found: Option<usize>)
        ensures
            found == match slot(self@, name@) {
                Some(i) => Some(i as usize),
                None => None,
            },
            found matches Some(i) ==> is_first(self@, name@, i as int),
    {
        let mut i: usize = 0;
        while i < self.forces.len()
            invariant
                i <= self.forces@.len(),
                forall|j: int| 0 <= j < i ==> self@[j].0 != name@,
            decreases self.forces@.len() - i,
        {
            if self.forces[i].0 == *name {
                proof {
                    lemma_first_is_slot(self@, name@, i as int);
                }
                return Some(i);
            }
            i += 1;
        }
        proof {
            assert forall|k: int| !is_first(self@, name@, k) by {}
        }
        None
    }

    /// Records `value` under `name`, replacing the force that `name` had.
    pub fn set_force(&mut self, name: &str, value: Vector2)
        ensures
            final(self)@ == with_force(old(self)@, name@, value),
            old(self).wf() ==> final(self).wf(),
    {
        let key = name.to_owned();
        let found = self.position(&key);
        match found {
            Some(i) => {
                self.forces.set(i, (key, value));
                assert(self@ =~= old(self)@.update(i as int, (name@, value)));
            },
            None => {
                self.forces.push((key, value));
                assert(self@ =~= old(self)@.push((name@, value)));
            },
        }
        proof {
            if old(self).wf() {
                lemma_with_force_keeps_names_distinct(old(self)@, name@, value);
            }
        }
    }

    /// The force recorded under `name`. A name that is new to the ledger gets
    /// an entry with a zero force.
    pub fn get_force(&mut self, name: &str) -> (force: Vector2)
        ensures
            force == force_of(old(self)@, name@),
            final(self)@ == with_slot(old(self)@, name@),
            old(self).wf() ==> final(self).wf(),
    {
        let key = name.to_owned();
        let found = self.position(&key);
        match found {
            Some(i) => self.forces[i].1,
            None => {
                let v = Vector2 { x: 0, y: 0 };
                self.forces.push((key, v));
                assert(self@ =~= old(self)@.push((name@, v)));
                proof {
                    if old(self).wf() {
                        lemma_with_force_keeps_names_distinct(old(self)@, name@, v);
                    }
                }
                v
            },
        }
    }

    /// Sets the x component of every force to zero.
    pub fn clear_x(&mut self)
        ensures
            final(self)@ == without_x(old(self)@),
            old(self).wf() ==> final(self).wf(),
    {
        let mut forces: Vec<(String, Vector2)> = Vec::new();
        let mut i: usize = 0;
        while i < self.forces.len()
            invariant
                i <= self.forces@.len(),
                forces@.len() == i,
                forall|j: int|
                    0 <= j < i ==> forces@[j].0@ == self@[j].0 && forces@[j].1 == (Vector2 {
                        x: 0,
                        y: self@[j].1.y,
                    }),
            decreases self.forces@.len() - i,
        {
            let name = self.forces[i].0.clone();
            let force = self.forces[i].1;
            forces.push((name, Vector2 { x: 0, y: force.y }));
            i += 1;
        }
        self.forces = forces;
        assert(self@ =~= without_x(old(self)@));
    }

    /// Sets the y component of every force to zero.
    pub fn clear_y(&mut self)
        ensures
            final(self)@ == without_y(old(self)@),
            old(self).wf() ==> final(self).wf(),
    {
        let mut forces: Vec<(String, Vector2)> = Vec::new();
        let mut i: usize = 0;
        while i < self.forces.len()
            invariant
                i <= self.forces@.len(),
                forces@.len() == i,
                forall|j: int|
                    0 <= j < i ==> forces@[j].0@ == self@[j].0 && forces@[j].1 == (Vector2 {
                        x: self@[j].1.x,
                        y: 0,
                    }),
            decreases self.forces@.len() - i,
        {
            let name = self.forces[i].0.clone();
            let force = self.forces[i].1;
            forces.push((name, Vector2 { x: force.x, y: 0 }));
            i += 1;
        }
        self.forces = forces;
        assert(self@ =~= without_y(old(self)@));
    }
}

/// The first position that carries a name is the one that `slot` gives.
pub proof fn lemma_first_is_slot(forces: Forces, name: Seq<char>, i: int)
    requires
        is_first(forces, name, i),
    ensures
        slot(forces, name) == Some(i),
{
    let k = choose|k: int| is_first(forces, name, k);
    assert(is_first(forces, name, k));
    if k < i {
        assert(forces[k].0 != name);
    }
    if i < k {
        assert(forces[i].0 != name);
    }
}

/// A name has a slot exactly when some entry carries it.
pub proof fn lemma_slot_exists_iff_named(forces: Forces, name: Seq<char>)
    ensures
        slot(forces, name) is Some <==> exists|i: int| 0 <= i < forces.len() && forces[i].0 == name,
        slot(forces, name) matches Some(i) ==> is_first(forces, name, i),
    decreases forces.len(),
{
    if exists|i: int| 0 <= i < forces.len() && forces[i].0 == name {
        let i = choose|i: int| 0 <= i < forces.len() && forces[i].0 == name;
        let front = forces.take(i);
        lemma_slot_exists_iff_named(front, name);
        if slot(front, name) is Some {
            let k = slot(front, name)->0;
            assert(is_first(front, name, k));
            assert(forall|j: int| 0 <= j < k ==> front[j] == forces[j]);
            assert(is_first(forces, name, k));
        } else {
            assert forall|j: int| 0 <= j < i implies forces[j].0 != name by {
                assert(front[j] == forces[j]);
            }
            assert(is_first(forces, name, i));
        }
    }
}

/// Recording a force keeps the names of a ledger distinct.
pub proof fn lemma_with_force_keeps_names_distinct(forces: Forces, name: Seq<char>, value: Vector2)
    requires
        distinct_names(forces),
    ensures
        distinct_names(with_force(forces, name, value)),
{
    lemma_slot_exists_iff_named(forces, name);
    let after = with_force(forces, name, value);
    assert forall|i: int, j: int| 0 <= i < j < after.len() implies after[i].0 != after[j].0 by {
        match slot(forces, name) {
            Some(k) => {
                assert(after[i].0 == forces[i].0);
                assert(after[j].0 == forces[j].0);
            },
            None => {
                if j < forces.len() {
                    assert(after[i] == forces[i]);
                    assert(after[j] == forces[j]);
                } else {
                    assert(after[i] == forces[i]);
                    assert(forces[i].0 != name);
                }
            },
        }
    }
}

/// Asking for a force leaves the sum of the ledger as it was, and asking a
/// second time changes nothing and gives the same force.
pub proof fn lemma_get_force_is_idempotent(forces: Forces, name: Seq<char>)
    ensures
        force_of(with_slot(forces, name), name) == force_of(forces, name),
        with_slot(with_slot(forces, name), name) == with_slot(forces, name),
        sum_x(with_slot(forces, name)) == sum_x(forces),
        sum_y(with_slot(forces, name)) == sum_y(forces),
        total(with_slot(forces, name)) == total(forces),
{
    lemma_slot_exists_iff_named(forces, name);
    if slot(forces, name) is None {
        let after = forces.push((name, Vector2::zero()));
        assert(after.drop_last() == forces);
        assert forall|j: int| 0 <= j < forces.len() implies after[j].0 != name by {
            assert(after[j] == forces[j]);
        }
        lemma_first_is_slot(after, name, forces.len() as int);
    }
}

/// A force that was recorded under a name is the force that the name then
/// has.
pub proof fn lemma_set_force_then_get_force(forces: Forces, name: Seq<char>, value: Vector2)
    ensures
        force_of(with_force(forces, name, value), name) == value,
        with_slot(with_force(forces, name, value), name) == with_force(forces, name, value),
{
    lemma_slot_exists_iff_named(forces, name);
    let after = with_force(forces, name, value);
    match slot(forces, name) {
        Some(i) => {
            assert forall|j: int| 0 <= j < i implies after[j].0 != name by {
                assert(after[j] == forces[j]);
            }
            lemma_first_is_slot(after, name, i);
        },
        None => {
            assert forall|j: int| 0 <= j < forces.len() implies after[j].0 != name by {
                assert(after[j] == forces[j]);
            }
            lemma_first_is_slot(after, name, forces.len() as int);
        },
    }
}

/// Recording a force under a name that was just asked for gives the same
/// ledger as recording it at once.
pub proof fn lemma_set_force_after_get_force(forces: Forces, name: Seq<char>, value: Vector2)
    ensures
        with_force(with_slot(forces, name), name, value) == with_force(forces, name, value),
{
    lemma_slot_exists_iff_named(forces, name);
    if slot(forces, name) is None {
        let asked = forces.push((name, Vector2::zero()));
        assert forall|j: int| 0 <= j < forces.len() implies asked[j].0 != name by {
            assert(asked[j] == forces[j]);
        }
        lemma_first_is_slot(asked, name, forces.len() as int);
        assert(asked.update(forces.len() as int, (name, value)) =~= forces.push((name, value)));
    }
}

/// Clearing the x axis sets the x component of every force to zero and keeps
/// every name and every y component, so the forces then add up to nothing
/// along x and to what they did along y.
pub proof fn lemma_clear_x_keeps_y(forces: Forces)
    ensures
        without_x(forces).len() == forces.len(),
        forall|i: int|
            0 <= i < forces.len() ==> {
                &&& (#[trigger] without_x(forces)[i]).0 == forces[i].0
                &&& without_x(forces)[i].1.x == 0
                &&& without_x(forces)[i].1.y == forces[i].1.y
            },
        sum_x(without_x(forces)) == 0,
        sum_y(without_x(forces)) == sum_y(forces),
    decreases forces.len(),
{
    if forces.len() > 0 {
        lemma_clear_x_keeps_y(forces.drop_last());
        assert(without_x(forces).drop_last() =~= without_x(forces.drop_last()));
    }
}

/// Clearing the y axis sets the y component of every force to zero and keeps
/// every name and every x component, so the forces then add up to nothing
/// along y and to what they did along x.
pub proof fn lemma_clear_y_keeps_x(forces: Forces)
    ensures
        without_y(forces).len() == forces.len(),
        forall|i: int|
            0 <= i < forces.len() ==> {
                &&& (#[trigger] without_y(forces)[i]).0 == forces[i].0
                &&& without_y(forces)[i].1.y == 0
                &&& without_y(forces)[i].1.x == forces[i].1.x
            },
        sum_y(without_y(forces)) == 0,
        sum_x(without_y(forces)) == sum_x(forces),
    decreases forces.len(),
{
    if forces.len() > 0 {
        lemma_clear_y_keeps_x(forces.drop_last());
        assert(without_y(forces).drop_last() =~= without_y(forces.drop_last()));
    }
}

/// The name of the force through which gravity acts.
pub open spec fn gravity_name() -> Seq<char> {
    "GRAVITY"@
}

/// `s` limited to the range from `-m` to `m`. A negative `m` bounds no range:
/// the result is then `m` for an `s` above it and `-m` for any other.
pub open spec fn constrain_to(s: int, m: int) -> int {
    if s > m {
        m
    } else if s < -m {
        -m
    } else {
        s
    }
}

/// The gravity force after one more step of pull: its y component falls by
/// what the gravity constant amounts to over the step.
pub open spec fn pulled(force: Vector2, gravity: int, dt_micros: int) -> Vector2 {
    Vector2 { x: force.x, y: saturate(force.y - over_time(gravity, dt_micros)) as i32 }
}

/// One component of a velocity after the acceleration `a` has acted on it for
/// the step, and friction has then taken its share.
pub open spec fn drifted(v: int, a: int, friction: int, dt_micros: int) -> int {
    let faster = v + over_time(a, dt_micros);
    faster - over_time(faster * friction, dt_micros)
}

/// The velocity after one step, for an actor with velocity `v` under the
/// acceleration `a`: accelerate, apply friction, come to rest if slower than
/// the dead zone, then limit each component to the speed limit.
pub open spec fn next_velocity(v: Vector2, a: Vector2, universe: PhysicalUniverse, dt_micros: int) -> Vector2 {
    let x = drifted(v.x as int, a.x as int, universe.friction as int, dt_micros);
    let y = drifted(v.y as int, a.y as int, universe.friction as int, dt_micros);
    if x * x + y * y < universe.velocity_epsilon {
        Vector2::zero()
    } else {
        Vector2 {
            x: saturate(constrain_to(x, universe.speed_of_light as int)) as i32,
            y: saturate(constrain_to(y, universe.speed_of_light as int)) as i32,
        }
    }
}

/// Whatever the forces, the velocity after a step is within the speed limit
/// on both axes.
pub proof fn lemma_next_velocity_is_within_limit(
    v: Vector2,
    a: Vector2,
    universe: PhysicalUniverse,
    dt_micros: int,
)
    requires
        universe.speed_of_light >= 0,
    ensures
        -universe.speed_of_light <= next_velocity(v, a, universe, dt_micros).x
            <= universe.speed_of_light,
        -universe.speed_of_light <= next_velocity(v, a, universe, dt_micros).y
            <= universe.speed_of_light,
{
}

/// The position after one step at velocity `v`, each coordinate kept within
/// the coordinate range.
pub open spec fn moved(position: Vector2, v: Vector2, dt_micros: int) -> Vector2 {
    Vector2 {
        x: saturate(position.x + over_time(v.x as int, dt_micros)) as i32,
        y: saturate(position.y + over_time(v.y as int, dt_micros)) as i32,
    }
}

/// An actor does not move along an axis on which its velocity is zero.
pub proof fn lemma_no_velocity_no_motion(position: Vector2, v: Vector2, dt_micros: int)
    ensures
        v.x == 0 ==> moved(position, v, dt_micros).x == position.x,
        v.y == 0 ==> moved(position, v, dt_micros).y == position.y,
{
    assert(0int * dt_micros == 0);
}

/// Limits `s` to the range from `-m` to `m`, and keeps the result within the
/// coordinate range.
pub fn constrain(s: i128, m: i32) -> (r: i32)
    ensures
        r == saturate(constrain_to(s as int, m as int)),
        m >= 0 ==> r == constrain_to(s as int, m as int),
{
    if s > m as i128 {
        return m;
    }
    if s < -(m as i128) {
        return narrow(-(m as i128));
    }
    narrow(s)
}

/// Computes `drifted`.
fn drift(v: i32, a: i32, friction: i32, dt_micros: u32) -> (r: i128)
    ensures
        r == drifted(v as int, a as int, friction as int, dt_micros as int),
{
    let gained: i128 = rate_over_time(a as i128, dt_micros);
    let faster: i128 = v as i128 + gained;
    let f: i128 = friction as i128;
    assert(-0x2000_0000_0000 * 0x8000_0000 <= faster * f <= 0x2000_0000_0000 * 0x8000_0000)
        by (nonlinear_arith)
        requires
            -0x2000_0000_0000 <= faster <= 0x2000_0000_0000,
            -0x8000_0000 <= f <= 0x8000_0000,
    ;
    let lost: i128 = rate_over_time(faster * f, dt_micros);
    faster - lost
}

/// Advances the velocity of one actor by one step of `dt_micros`
/// microseconds.
///
/// The gravity force of the actor first grows by what the gravity constant
/// amounts to over the step; it is never reset here, so it keeps growing from
/// step to step. The sum of all forces then accelerates the actor, friction
/// takes its share, an actor slower than the dead zone comes to rest, and each
/// component is limited to the speed limit.
pub fn physics_velocity(
    velocity: &mut Velocity,
    accell: &mut Accelleration,
    universe: &PhysicalUniverse,
    dt_micros: u32,
)
    ensures
        final(accell)@ == with_force(
            old(accell)@,
            gravity_name(),
            pulled(force_of(old(accell)@, gravity_name()), universe.gravity as int, dt_micros as int),
        ),
        final(velocity).value == next_velocity(
            old(velocity).value,
            total(final(accell)@),
            *universe,
            dt_micros as int,
        ),
        universe.speed_of_light >= 0 ==> {
            &&& -universe.speed_of_light <= final(velocity).value.x <= universe.speed_of_light
            &&& -universe.speed_of_light <= final(velocity).value.y <= universe.speed_of_light
        },
        old(accell).wf() ==> final(accell).wf(),
{
    let mut gravity = accell.get_force("GRAVITY");
    let pull: i128 = rate_over_time(universe.gravity as i128, dt_micros);
    gravity.y = narrow(gravity.y as i128 - pull);
    accell.set_force("GRAVITY", gravity);
    proof {
        lemma_set_force_after_get_force(old(accell)@, gravity_name(), gravity);
    }

    let a = accell.value();
    let x: i128 = drift(velocity.value.x, a.x, universe.friction, dt_micros);
    let y: i128 = drift(velocity.value.y, a.y, universe.friction, dt_micros);

    let slow: i128 = 0x1_0000;
    let resting = if -slow < x && x < slow && -slow < y && y < slow {
        assert(0 <= x * x <= 0x1_0000 * 0x1_0000 && 0 <= y * y <= 0x1_0000 * 0x1_0000)
            by (nonlinear_arith)
            requires
                -0x1_0000 < x < 0x1_0000,
                -0x1_0000 < y < 0x1_0000,
        ;
        x * x + y * y < universe.velocity_epsilon as i128
    } else {
        assert(x * x + y * y >= 0x1_0000 * 0x1_0000) by (nonlinear_arith)
            requires
                x <= -0x1_0000 || x >= 0x1_0000 || y <= -0x1_0000 || y >= 0x1_0000,
        ;
        false
    };
    if resting {
        velocity.value.x = 0;
        velocity.value.y = 0;
    } else {
        velocity.value.x = constrain(x, universe.speed_of_light);
        velocity.value.y = constrain(y, universe.speed_of_light);
    }
}

/// Moves an actor at `position` along its velocity for one step of
/// `dt_micros` microseconds, and gives the new position.
pub fn movement(position: Vector2, velocity: &Velocity, dt_micros: u32) -> (r: Vector2)
    ensures
        r == moved(position, velocity.value, dt_micros as int),
{
    let dx: i128 = rate_over_time(velocity.value.x as i128, dt_micros);
    let dy: i128 = rate_over_time(velocity.value.y as i128, dt_micros);
    Vector2 { x: narrow(position.x as i128 + dx), y: narrow(position.y as i128 + dy) }
}

} // verus!
