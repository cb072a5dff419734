//! The ground table of a running level: which shapes are solids, which
//! probe belongs to which movable entity, what touches each probe, and the
//! "on ground" flag derived from it.

use crate::contact::ContactChange;
use crate::contact::ContactEvent;
use crate::contact::ShapeRole;
use crate::sensor::GroundDetection;
use crate::sensor::GroundSensor;
use std::collections::HashSet;
use vstd::prelude::*;

verus! {

broadcast use vstd::std_specs::hash::group_hash_axioms;

/// The mathematical picture of one probe and of the entity that owns it.
pub struct ProbeView {
    /// The probe shape's own identifier.
    pub id: u64,
    /// The movable entity the probe reports to.
    pub owner: u64,
    /// The solids that overlap the probe.
    pub contacts: Set<u64>,
    /// The owner's flag.
    pub on_ground: bool,
    /// Whether the contact set changed since the flag was last derived.
    pub changed: bool,
}

/// What the shapes of a world are: which are solids and which are probes.
pub struct Shapes {
    pub solids: Set<u64>,
    pub probes: Set<u64>,
}

impl Shapes {
    /// The role of the shape `id`; a probe is never taken for a solid.
    pub open spec fn role(self, id: u64) -> ShapeRole {
        ShapeRole::of(self.probes.contains(id), self.solids.contains(id))
    }
}

/// The change that an event asks for among the given shapes.
pub open spec fn change_for(shapes: Shapes, e: ContactEvent) -> Option<ContactChange> {
    e.routed(shapes.role(e.first()), shapes.role(e.second()))
}

/// The event asks the probe `probe` to begin or end touching `solid`.
pub open spec fn concerns(shapes: Shapes, e: ContactEvent, probe: u64, solid: u64) -> bool {
    change_for(shapes, e) matches Some(c) && c.probe == probe && c.solid == solid
}

impl ProbeView {
    /// The probe after one contact event: an event for this probe inserts
    /// or removes its solid, any other event leaves the probe as it is.
    pub open spec fn after_event(self, shapes: Shapes, e: ContactEvent) -> ProbeView {
        match change_for(shapes, e) {
            Some(c) => if c.probe == self.id {
                ProbeView {
                    id: self.id,
                    owner: self.owner,
                    contacts: c.applied(self.contacts),
                    on_ground: self.on_ground,
                    changed: self.changed || c.alters(self.contacts),
                }
            } else {
                self
            },
            None => self,
        }
    }

    /// The probe after a queue of contact events, applied in order.
    pub open spec fn after_events(self, shapes: Shapes, events: Seq<ContactEvent>) -> ProbeView
        decreases events.len(),
    {
        if events.len() == 0 {
            self
        } else {
            self.after_events(shapes, events.drop_last()).after_event(shapes, events.last())
        }
    }

    /// The probe after the resolver ran: a changed probe has its flag derived
    /// anew from the contact set, an unchanged one is not touched.
    pub open spec fn resolved(self) -> ProbeView {
        if self.changed {
            ProbeView {
                id: self.id,
                owner: self.owner,
                contacts: self.contacts,
                on_ground: !self.contacts.is_empty(),
                changed: false,
            }
        } else {
            self
        }
    }

    /// The probe after the solid `solid` left the world.
    pub open spec fn without(self, solid: u64) -> ProbeView {
        ProbeView {
            id: self.id,
            owner: self.owner,
            contacts: self.contacts.remove(solid),
            on_ground: self.on_ground,
            changed: self.changed || self.contacts.contains(solid),
        }
    }

    /// The flag agrees with the contact set.
    pub open spec fn settled(self) -> bool {
        self.on_ground == !self.contacts.is_empty()
    }
}

/// The mathematical picture of the ground table.
pub struct WorldView {
    pub solids: Set<u64>,
    pub probes: Seq<ProbeView>,
}

impl WorldView {
    /// Some probe has the identifier `id`.
    pub open spec fn has_probe(self, id: u64) -> bool {
        exists|i: int| 0 <= i < self.probes.len() && (#[trigger] self.probes[i]).id == id
    }

    /// Some probe belongs to the entity `owner`.
    pub open spec fn has_owner(self, owner: u64) -> bool {
        exists|i: int| 0 <= i < self.probes.len() && (#[trigger] self.probes[i]).owner == owner
    }

    /// No two probes share an identifier, no entity has two probes, no probe
    /// is a solid, the flag of every probe that is not marked as changed
    /// agrees with its contact set, and whatever touches a probe is a solid
    /// of the world.
    pub open spec fn wf(self) -> bool {
        &&& forall|i: int, j: int|
            0 <= i < j < self.probes.len() ==> (#[trigger] self.probes[i]).id
                != (#[trigger] self.probes[j]).id
        &&& forall|i: int, j: int|
            0 <= i < j < self.probes.len() ==> (#[trigger] self.probes[i]).owner
                != (#[trigger] self.probes[j]).owner
        &&& forall|i: int|
            0 <= i < self.probes.len() ==> !self.solids.contains((#[trigger] self.probes[i]).id)
        &&& forall|i: int|
            0 <= i < self.probes.len() && !(#[trigger] self.probes[i]).changed
                ==> self.probes[i].settled()
        &&& forall|i: int, s: u64|
            0 <= i < self.probes.len() && (#[trigger] self.probes[i].contacts.contains(s))
                ==> self.solids.contains(s)
    }

    /// The identifiers of the probes.
    pub open spec fn probe_ids(self) -> Set<u64> {
        Set::new(|id: u64| self.has_probe(id))
    }

    /// The shapes of the world.
    pub open spec fn shapes(self) -> Shapes {
        Shapes { solids: self.solids, probes: self.probe_ids() }
    }

    /// Every flag agrees with its contact set and no probe awaits the resolver.
    pub open spec fn all_settled(self) -> bool {
        forall|i: int|
            0 <= i < self.probes.len() ==> (#[trigger] self.probes[i]).settled()
                && !self.probes[i].changed
    }
}

/// A queue of events changes neither whose probe it is nor the owner's
/// flag: only the resolver writes the flag.
pub proof fn lemma_events_keep_identity(p: ProbeView, shapes: Shapes, events: Seq<ContactEvent>)
    ensures
        p.after_events(shapes, events).id == p.id,
        p.after_events(shapes, events).owner == p.owner,
        p.after_events(shapes, events).on_ground == p.on_ground,
    decreases events.len(),
{
    if events.len() > 0 {
        lemma_events_keep_identity(p, shapes, events.drop_last());
    }
}

/// A solid about which the queue holds no event for this probe touches the
/// probe afterwards if and only if it did before: events of other pairs,
/// however they are interleaved, do not reach it.
pub proof fn lemma_untouched_contact_kept(
    p: ProbeView,
    shapes: Shapes,
    events: Seq<ContactEvent>,
    solid: u64,
)
    requires
        forall|j: int| 0 <= j < events.len() ==> !concerns(shapes, #[trigger] events[j], p.id, solid),
    ensures
        p.after_events(shapes, events).contacts.contains(solid) == p.contacts.contains(solid),
    decreases events.len(),
{
    if events.len() > 0 {
        let head = events.drop_last();
        assert forall|j: int| 0 <= j < head.len() implies !concerns(
            shapes,
            #[trigger] head[j],
            p.id,
            solid,
        ) by {
            assert(head[j] == events[j]);
        }
        lemma_untouched_contact_kept(p, shapes, head, solid);
        lemma_events_keep_identity(p, shapes, head);
        assert(!concerns(shapes, events[events.len() - 1], p.id, solid));
    }
}

/// Of the events of a tick about one probe and one solid, the last one
/// decides: after a begin the solid touches the probe, after an end it does
/// not, whatever came before and whatever other pairs did in between.
pub proof fn lemma_last_event_decides(
    p: ProbeView,
    shapes: Shapes,
    events: Seq<ContactEvent>,
    k: int,
    solid: u64,
)
    requires
        0 <= k < events.len(),
        concerns(shapes, events[k], p.id, solid),
        forall|j: int| k < j < events.len() ==> !concerns(shapes, #[trigger] events[j], p.id, solid),
    ensures
        p.after_events(shapes, events).contacts.contains(solid) == (events[k] is Started),
    decreases events.len(),
{
    let head = events.drop_last();
    lemma_events_keep_identity(p, shapes, head);
    if k < events.len() - 1 {
        assert(head[k] == events[k]);
        assert forall|j: int| k < j < head.len() implies !concerns(
            shapes,
            #[trigger] head[j],
            p.id,
            solid,
        ) by {
            assert(head[j] == events[j]);
        }
        lemma_last_event_decides(p, shapes, head, k, solid);
        assert(!concerns(shapes, events[events.len() - 1], p.id, solid));
    }
}

/// An end of contact between a probe and a shape that is no probe takes the
/// shape out of the probe's contact set, whether or not the shape still is a
/// solid when the event is read: no contact outlives its end.
pub proof fn lemma_end_leaves_no_contact(p: ProbeView, shapes: Shapes, shape: u64)
    requires
        shapes.probes.contains(p.id),
        !shapes.probes.contains(shape),
    ensures
        !p.after_event(shapes, ContactEvent::Stopped(shape, p.id)).contacts.contains(shape),
        !p.after_event(shapes, ContactEvent::Stopped(p.id, shape)).contacts.contains(shape),
{
}

/// Once the resolver ran, the flag says exactly whether a solid touches the
/// probe: it is a function of the contact set and of nothing else.
pub proof fn lemma_resolved_flag_is_derived(p: ProbeView)
    requires
        p.changed || p.settled(),
    ensures
        p.resolved().on_ground == !p.contacts.is_empty(),
        p.resolved().contacts == p.contacts,
        !p.resolved().changed,
{
}

/// Running the resolver again changes nothing.
pub proof fn lemma_resolver_idempotent(p: ProbeView)
    ensures
        p.resolved().resolved() == p.resolved(),
{
}

/// Worlds with the same solids and the same probe identifiers, place by
/// place, have the same shapes.
proof fn lemma_same_ids_same_shapes(a: WorldView, b: WorldView)
    requires
        a.solids == b.solids,
        a.probes.len() == b.probes.len(),
        forall|i: int| 0 <= i < a.probes.len() ==> (#[trigger] a.probes[i]).id == b.probes[i].id,
    ensures
        a.shapes() == b.shapes(),
{
    assert forall|id: u64| a.has_probe(id) == b.has_probe(id) by {
        if a.has_probe(id) {
            let i = choose|i: int| 0 <= i < a.probes.len() && (#[trigger] a.probes[i]).id == id;
            assert(b.probes[i].id == id);
        }
        if b.has_probe(id) {
            let i = choose|i: int| 0 <= i < b.probes.len() && (#[trigger] b.probes[i]).id == id;
            assert(a.probes[i].id == id);
        }
    }
    assert(a.probe_ids() =~= b.probe_ids());
}

struct Probe {
    id: u64,
    sensor: GroundSensor,
    detection: GroundDetection,
    changed: bool,
}

impl View for Probe {
    type V = ProbeView;

    closed spec fn view(&self) -> ProbeView {
        ProbeView {
            id: self.id,
            owner: self.sensor@.owner,
            contacts: self.sensor@.contacts,
            on_ground: self.detection.on_ground,
            changed: self.changed,
        }
    }
}

/// The ground table: the solids of the world and one entry per probe.
pub struct GroundWorld {
    solids: HashSet<u64>,
    probes: Vec<Probe>,
}

impl View for GroundWorld {
    type V = WorldView;

    closed spec fn view(&self) -> WorldView {
        WorldView {
            solids: self.solids@,
            probes: Seq::new(self.probes@.len(), |i: int| self.probes@[i]@),
        }
    }
}

impl GroundWorld {
    /// A world without solids and without probes.
    pub fn new() -> (w: GroundWorld)
        ensures
            w@.wf(),
            w@.solids == Set::<u64>::empty(),
            w@.probes.len() == 0,
    {
        GroundWorld { solids: HashSet::new(), probes: Vec::new() }
    }

    fn find_probe(&self, id: u64) -> (at: Option<usize>)
        ensures
            match at {
                Some(i) => i < self@.probes.len() && self@.probes[i as int].id == id,
                None => !self@.has_probe(id),
            },
    {
        let mut i: usize = 0;
        while i < self.probes.len()
            invariant
                i <= self.probes.len(),
                forall|k: int| 0 <= k < i ==> (#[trigger] self@.probes[k]).id != id,
            decreases self.probes.len() - i,
        {
            if self.probes[i].id == id {
                return Some(i);
            }
            i += 1;
        }
        None
    }

    fn find_owner(&self, owner: u64) -> (at: Option<usize>)
        ensures
            match at {
                Some(i) => i < self@.probes.len() && self@.probes[i as int].owner == owner,
                None => !self@.has_owner(owner),
            },
    {
        let mut i: usize = 0;
        while i < self.probes.len()
            invariant
                i <= self.probes.len(),
                forall|k: int| 0 <= k < i ==> (#[trigger] self@.probes[k]).owner != owner,
            decreases self.probes.len() - i,
        {
            if self.probes[i].sensor.ground_detection_entity == owner {
                return Some(i);
            }
            i += 1;
        }
        None
    }

    /// Number of probes in the table.
    pub fn probe_count(&self) -> (n: usize)
        ensures
            n == self@.probes.len(),
    {
        self.probes.len()
    }

    /// Whether `id` is registered as a solid.
    pub fn is_solid(&self, id: u64) -> (b: bool)
        ensures
            b == self@.solids.contains(id),
    {
        self.solids.contains(&id)
    }

    /// Registers the shape `id` as a solid. A shape that is a probe is not a
    /// solid and is refused. Returns whether the shape was newly registered.
    pub fn add_solid(&mut self, id: u64) -> (added: bool)
        requires
            old(self)@.wf(),
        ensures
            final(self)@.wf(),
            final(self)@.probes == old(self)@.probes,
            final(self)@.solids == (if old(self)@.has_probe(id) {
                old(self)@.solids
            } else {
                old(self)@.solids.insert(id)
            }),
            added == (!old(self)@.has_probe(id) && !old(self)@.solids.contains(id)),
    {
        match self.find_probe(id) {
            Some(_) => false,
            None => {
                let added = self.solids.insert(id);
                assert(self@.probes =~= old(self)@.probes);
                added
            },
        }
    }

    /// Attaches the probe `probe` to the movable entity `entity`.
    ///
    /// An entity gets one probe only, and a probe is never shared: nothing
    /// happens when the entity has a probe already, when the identifier is
    /// taken by another probe, or when it is a solid. A new probe touches
    /// nothing, its owner is in the air, and it awaits the resolver.
    /// Returns whether the probe was attached.
    pub fn spawn_ground_sensor(&mut self, entity: u64, probe: u64) -> (spawned: bool)
        requires
            old(self)@.wf(),
        ensures
            final(self)@.wf(),
            final(self)@.solids == old(self)@.solids,
            spawned == (!old(self)@.has_owner(entity) && !old(self)@.has_probe(probe) && !old(
                self,
            )@.solids.contains(probe)),
            spawned ==> final(self)@.probes == old(self)@.probes.push(
                ProbeView {
                    id: probe,
                    owner: entity,
                    contacts: Set::<u64>::empty(),
                    on_ground: false,
                    changed: true,
                },
            ),
            !spawned ==> final(self)@.probes == old(self)@.probes,
    {
        if self.find_owner(entity).is_some() || self.find_probe(probe).is_some()
            || self.solids.contains(&probe) {
            return false;
        }
        self.probes.push(
            Probe {
                id: probe,
                sensor: GroundSensor::new(entity),
                detection: GroundDetection { on_ground: false },
                changed: true,
            },
        );
        proof {
            let added = ProbeView {
                id: probe,
                owner: entity,
                contacts: Set::<u64>::empty(),
                on_ground: false,
                changed: true,
            };
            assert(self@.probes =~= old(self)@.probes.push(added));
        }
        true
    }

    /// Removes the probe of the entity `entity`, if it has one; the other
    /// probes keep their order. Returns whether a probe was removed.
    pub fn despawn_ground_sensor(&mut self, entity: u64) -> (removed: bool)
        requires
            old(self)@.wf(),
        ensures
            final(self)@.wf(),
            final(self)@.solids == old(self)@.solids,
            removed == old(self)@.has_owner(entity),
            !final(self)@.has_owner(entity),
            removed ==> exists|i: int|
                0 <= i < old(self)@.probes.len() && (#[trigger] old(self)@.probes[i]).owner
                    == entity && final(self)@.probes == old(self)@.probes.remove(i),
            !removed ==> final(self)@.probes == old(self)@.probes,
    {
        match self.find_owner(entity) {
            None => false,
            Some(i) => {
                self.probes.remove(i);
                proof {
                    let before = old(self)@.probes;
                    assert(self@.probes =~= before.remove(i as int));
                    assert forall|k: int| 0 <= k < self@.probes.len() implies (
                    #[trigger] self@.probes[k]).owner != entity by {
                        if k < i {
                            assert(self@.probes[k] == before[k]);
                        } else {
                            assert(self@.probes[k] == before[k + 1]);
                        }
                    }
                }
                true
            },
        }
    }

    /// Applies one change to the probe at position `i`.
    fn apply_change(&mut self, i: usize, change: ContactChange)
        requires
            i < old(self)@.probes.len(),
        ensures
            final(self)@.solids == old(self)@.solids,
            final(self)@.probes == old(self)@.probes.update(
                i as int,
                ProbeView {
                    id: old(self)@.probes[i as int].id,
                    owner: old(self)@.probes[i as int].owner,
                    contacts: change.applied(old(self)@.probes[i as int].contacts),
                    on_ground: old(self)@.probes[i as int].on_ground,
                    changed: old(self)@.probes[i as int].changed || change.alters(
                        old(self)@.probes[i as int].contacts,
                    ),
                },
            ),
    {
        let altered = change.apply(&mut self.probes[i].sensor);
        if altered {
            self.probes[i].changed = true;
        }
        proof {
            let p = old(self)@.probes[i as int];
            let q = ProbeView {
                id: p.id,
                owner: p.owner,
                contacts: change.applied(p.contacts),
                on_ground: p.on_ground,
                changed: p.changed || change.alters(p.contacts),
            };
            assert(self@.probes =~= old(self)@.probes.update(i as int, q));
        }
    }

    /// Runs the resolver on the probe at position `i`.
    fn resolve_at(&mut self, i: usize)
        requires
            i < old(self)@.probes.len(),
        ensures
            final(self)@.solids == old(self)@.solids,
            final(self)@.probes == old(self)@.probes.update(
                i as int,
                old(self)@.probes[i as int].resolved(),
            ),
    {
        if self.probes[i].changed {
            let probe = &mut self.probes[i];
            probe.detection.update_on_ground(&probe.sensor);
            probe.changed = false;
        }
        proof {
            let p = old(self)@.probes[i as int];
            assert(self@.probes =~= old(self)@.probes.update(i as int, p.resolved()));
        }
    }

    /// Takes the solid `id` out of the contact set of the probe at position `i`.
    fn purge_at(&mut self, i: usize, id: u64)
        requires
            i < old(self)@.probes.len(),
        ensures
            final(self)@.solids == old(self)@.solids,
            final(self)@.probes == old(self)@.probes.update(
                i as int,
                old(self)@.probes[i as int].without(id),
            ),
    {
        let altered = self.probes[i].sensor.end_contact(id);
        if altered {
            self.probes[i].changed = true;
        }
        proof {
            let p = old(self)@.probes[i as int];
            assert(self@.probes =~= old(self)@.probes.update(i as int, p.without(id)));
        }
    }

    /// What the shape `id` is in this world.
    pub fn role_of(&self, id: u64) -> (role: ShapeRole)
        ensures
            role == self@.shapes().role(id),
    {
        let is_probe = self.find_probe(id).is_some();
        let is_solid = self.solids.contains(&id);
        ShapeRole::new(is_probe, is_solid)
    }

    /// Takes one contact event. A begin between a solid and a probe puts the
    /// solid into the probe's contact set; an end between a probe and any
    /// other shape takes that shape out of it; every other event is ignored.
    pub fn handle_event(&mut self, event: ContactEvent)
        requires
            old(self)@.wf(),
        ensures
            final(self)@.wf(),
            final(self)@.shapes() == old(self)@.shapes(),
            final(self)@.solids == old(self)@.solids,
            final(self)@.probes.len() == old(self)@.probes.len(),
            forall|i: int|
                0 <= i < old(self)@.probes.len() ==> #[trigger] final(self)@.probes[i] == old(
                    self,
                )@.probes[i].after_event(old(self)@.shapes(), event),
    {
        let (a, b) = event.shapes();
        let change = event.route(self.role_of(a), self.role_of(b));
        if let Some(c) = change {
            if let Some(i) = self.find_probe(c.probe) {
                self.apply_change(i, c);
                proof {
                    let p = old(self)@.probes[i as int];
                    if !c.alters(p.contacts) {
                        assert(c.applied(p.contacts) =~= p.contacts);
                    }
                    assert forall|k: int, s: u64|
                        0 <= k < self@.probes.len() && (#[trigger] self@.probes[k].contacts.contains(
                            s,
                        )) implies self@.solids.contains(s) by {
                        if k != i {
                            assert(self@.probes[k] == old(self)@.probes[k]);
                        } else if s != c.solid {
                            assert(p.contacts.contains(s));
                        }
                    }
                }
            }
        }
        proof {
            lemma_same_ids_same_shapes(old(self)@, self@);
        }
    }

    /// Drains the contact events of one tick, in the order of emission.
    pub fn ground_detection(&mut self, events: &Vec<ContactEvent>)
        requires
            old(self)@.wf(),
        ensures
            final(self)@.wf(),
            final(self)@.solids == old(self)@.solids,
            final(self)@.probes.len() == old(self)@.probes.len(),
            forall|i: int|
                0 <= i < old(self)@.probes.len() ==> #[trigger] final(self)@.probes[i] == old(
                    self,
                )@.probes[i].after_events(old(self)@.shapes(), events@),
    {
        let ghost start = self@;
        let mut k: usize = 0;
        while k < events.len()
            invariant
                k <= events.len(),
                self@.wf(),
                self@.shapes() == start.shapes(),
                self@.solids == start.solids,
                self@.probes.len() == start.probes.len(),
                forall|i: int|
                    0 <= i < start.probes.len() ==> #[trigger] self@.probes[i]
                        == start.probes[i].after_events(start.shapes(), events@.take(k as int)),
            decreases events.len() - k,
        {
            let ghost before = self@;
            self.handle_event(events[k]);
            proof {
                let done = events@.take(k as int);
                let next = events@.take(k + 1);
                assert(next.drop_last() =~= done);
                assert(next.last() == events[k as int]);
                assert forall|i: int| 0 <= i < start.probes.len() implies #[trigger] self@.probes[i]
                    == start.probes[i].after_events(start.shapes(), next) by {
                    assert(before.probes[i] == start.probes[i].after_events(start.shapes(), done));
                }
            }
            k += 1;
        }
        assert(events@.take(k as int) =~= events@);
    }

    /// Derives anew the flag of every entity whose probe changed since the
    /// last run, from the probe's contact set alone; the other entities are
    /// not touched.
    pub fn update_on_ground(&mut self)
        requires
            old(self)@.wf(),
        ensures
            final(self)@.wf(),
            final(self)@.all_settled(),
            final(self)@.solids == old(self)@.solids,
            final(self)@.probes.len() == old(self)@.probes.len(),
            forall|i: int|
                0 <= i < old(self)@.probes.len() ==> #[trigger] final(self)@.probes[i] == old(
                    self,
                )@.probes[i].resolved(),
    {
        let ghost start = self@;
        let n = self.probes.len();
        let mut i: usize = 0;
        while i < n
            invariant
                i <= n,
                n == start.probes.len(),
                start.wf(),
                self@.solids == start.solids,
                self@.probes.len() == start.probes.len(),
                forall|k: int| 0 <= k < i ==> #[trigger] self@.probes[k] == start.probes[k].resolved(),
                forall|k: int|
                    i <= k < start.probes.len() ==> #[trigger] self@.probes[k] == start.probes[k],
            decreases n - i,
        {
            self.resolve_at(i);
            i += 1;
        }
    }

    /// One tick: drains the contact events, then resolves the flags. The
    /// flags are derived only once every event of the tick has been applied.
    pub fn step(&mut self, events: &Vec<ContactEvent>)
        requires
            old(self)@.wf(),
        ensures
            final(self)@.wf(),
            final(self)@.all_settled(),
            final(self)@.solids == old(self)@.solids,
            final(self)@.probes.len() == old(self)@.probes.len(),
            forall|i: int|
                0 <= i < old(self)@.probes.len() ==> #[trigger] final(self)@.probes[i] == old(
                    self,
                )@.probes[i].after_events(old(self)@.shapes(), events@).resolved(),
    {
        self.ground_detection(events);
        self.update_on_ground();
    }

    /// Removes the solid `id` from the world and from every contact set, so
    /// that no probe keeps a contact with a shape that is gone. Returns
    /// whether the shape was a solid.
    pub fn remove_solid(&mut self, id: u64) -> (removed: bool)
        requires
            old(self)@.wf(),
        ensures
            final(self)@.wf(),
            final(self)@.solids == old(self)@.solids.remove(id),
            removed == old(self)@.solids.contains(id),
            final(self)@.probes.len() == old(self)@.probes.len(),
            forall|i: int|
                0 <= i < old(self)@.probes.len() ==> #[trigger] final(self)@.probes[i] == old(
                    self,
                )@.probes[i].without(id),
    {
        let ghost start = self@;
        let removed = self.solids.remove(&id);
        let n = self.probes.len();
        let mut i: usize = 0;
        while i < n
            invariant
                i <= n,
                n == start.probes.len(),
                start.wf(),
                self@.solids == start.solids.remove(id),
                self@.probes.len() == start.probes.len(),
                forall|k: int| 0 <= k < i ==> #[trigger] self@.probes[k] == start.probes[k].without(id),
                forall|k: int|
                    i <= k < start.probes.len() ==> #[trigger] self@.probes[k] == start.probes[k],
            decreases n - i,
        {
            self.purge_at(i, id);
            i += 1;
        }
        proof {
            assert forall|k: int|
                0 <= k < self@.probes.len() && !(#[trigger] self@.probes[k]).changed implies self@.probes[k].settled() by {
                let p = start.probes[k];
                assert(p.contacts.remove(id) =~= p.contacts);
            }
        }
        removed
    }

    /// The flag of the entity `entity`, or nothing when it has no probe.
    pub fn on_ground(&self, entity: u64) -> (flag: Option<bool>)
        ensures
            flag.is_some() == self@.has_owner(entity),
            flag matches Some(b) ==> exists|i: int|
                0 <= i < self@.probes.len() && (#[trigger] self@.probes[i]).owner == entity
                    && self@.probes[i].on_ground == b,
    {
        match self.find_owner(entity) {
            None => None,
            Some(i) => Some(self.probes[i].detection.on_ground),
        }
    }

    /// Whether the solid `solid` touches the probe of the entity `entity`.
    pub fn is_touching(&self, entity: u64, solid: u64) -> (b: bool)
        requires
            self@.wf(),
        ensures
            b == exists|i: int|
                0 <= i < self@.probes.len() && (#[trigger] self@.probes[i]).owner == entity
                    && self@.probes[i].contacts.contains(solid),
    {
        match self.find_owner(entity) {
            None => false,
            Some(i) => {
                let b = self.probes[i].sensor.touches(solid);
                proof {
                    assert(self@.probes[i as int].owner == entity);
                    assert forall|j: int|
                        0 <= j < self@.probes.len() && (#[trigger] self@.probes[j]).owner
                            == entity implies j == i by {}
                }
                b
            },
        }
    }
}

} // verus!
