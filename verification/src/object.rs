//! Grabbable objects, their metadata, and the collector that scores or
//! advances the level when a matching object is delivered to it.

use vstd::prelude::*;

use crate::Pos;
use crate::hand::Grabbing;
use crate::hand::Hand;
use crate::level::CurrentLevel;
use crate::level::LoadLevel;
use crate::submit::Deliveries;
use crate::world::Joint;
use crate::world::World;

verus! {

/// How a grab press resolves on an object the hand's sensor touches.
#[derive(Clone, Copy, PartialEq, Eq, Structural, Debug)]
pub enum GrabInteractions {
    /// Pick the touched object up in place.
    Grab,
    /// Leave the touched object as an infinite dispenser template and pick
    /// up a freshly spawned copy instead.
    Spawn,
}

/// Grab metadata of an object: its behaviour variant and the identity of
/// its source texture (an opaque id the asset collaborator resolves).
#[derive(Clone, Copy, PartialEq, Eq, Structural, Debug)]
pub struct ObjectInfo {
    pub grab: GrabInteractions,
    pub texture: u64,
}

/// The collision shape descriptor an object was declared with.
#[derive(Clone, Copy, PartialEq, Eq, Structural, Debug)]
pub enum ShapeKind {
    Rectangle,
    Circle,
    Segment,
}

/// An explicit collider extent, per axis, in world units.
#[derive(Clone, Copy, PartialEq, Eq, Structural, Debug)]
pub struct Extent {
    pub x: i64,
    pub y: i64,
}

/// Shape and, where the level gives one, explicit extent of a collider.
#[derive(Clone, Copy, PartialEq, Eq, Structural, Debug)]
pub struct ColliderInfo {
    pub kind: ShapeKind,
    pub size: Option<Extent>,
}

/// What a collector does with a delivered object.
#[derive(Clone, Copy, PartialEq, Eq, Structural, Debug)]
pub enum CollectorInteraction {
    FinishLevel,
    Count,
}

/// A scoring collaborator: consumes objects whose texture matches
/// `collecting` and either counts them or finishes the level.
#[derive(Clone, Copy, PartialEq, Eq, Structural, Debug)]
pub struct Collector {
    pub collecting: u64,
    pub interaction: CollectorInteraction,
}

/// The Held half of the object/hand relation: index of the holding hand.
#[derive(Clone, Copy, PartialEq, Eq, Structural, Debug)]
pub struct Grabbed(pub usize);

/// The resolved collision extent of a textured body, sized from its
/// texture's pixel dimensions once the asset collaborator has measured
/// them. For a circle both extents hold the radius.
#[derive(Clone, Copy, PartialEq, Eq, Structural, Debug)]
pub struct Hitbox {
    pub kind: ShapeKind,
    pub x: i64,
    pub y: i64,
}

/// One simulated body in the entity table. `alive` is false once despawned;
/// slots are never reused, so indices stay stable.
#[derive(Clone, Copy, Debug)]
pub struct Object {
    pub alive: bool,
    pub pos: Pos,
    /// Present on textured, pickable bodies; absent on plain scenery.
    pub info: Option<ObjectInfo>,
    /// The Free state: the object can be picked up.
    pub grabbable: bool,
    /// The Held state: which hand holds the object. Exclusive of `grabbable`.
    pub grabbed: Option<Grabbed>,
    pub collider: ColliderInfo,
    /// Resolved once per textured body, when its texture has loaded.
    pub hitbox: Option<Hitbox>,
    pub collector: Option<Collector>,
    pub body_static: bool,
    pub sensor: bool,
    pub anchored: bool,
}

impl World {
    /// The collider a declared shape resolves to under the given texture
    /// dimensions: a rectangle of the full image, or a circle of half its
    /// width; a shape the sizing rule does not know falls back to the
    /// rectangle.
    pub open spec fn hitbox_of(kind: ShapeKind, width: i64, height: i64) -> Hitbox {
        match kind {
            ShapeKind::Circle => Hitbox {
                kind: ShapeKind::Circle,
                x: (width / 2) as i64,
                y: (width / 2) as i64,
            },
            _ => Hitbox { kind: ShapeKind::Rectangle, x: width, y: height },
        }
    }

    /// Size a textured object's collider from its texture's measured pixel
    /// dimensions, once: an object whose hitbox is already resolved, or
    /// which has no texture, is left alone. The asset collaborator calls
    /// this as soon as the image is loaded.
    pub fn add_image_size(&mut self, o: usize, width: i64, height: i64)
        requires
            old(self).wf(),
            width >= 0,
        ensures
            final(self).wf(),
            ({
                let applies = old(self).object_valid(o as int) && old(self).objects@[o as int].info
                    is Some && old(self).objects@[o as int].hitbox is None;
                &&& applies ==> final(self).objects@ == old(self).objects@.update(
                        o as int,
                        (Object {
                            hitbox: Some(
                                World::hitbox_of(
                                    old(self).objects@[o as int].collider.kind,
                                    width,
                                    height,
                                ),
                            ),
                            ..old(self).objects@[o as int]
                        }),
                    )
                &&& !applies ==> *final(self) == *old(self)
            }),
            final(self).hands@ == old(self).hands@,
            final(self).joints@ == old(self).joints@,
    {
        if o < self.objects.len() && self.objects[o].alive && self.objects[o].info.is_some()
            && self.objects[o].hitbox.is_none() {
            let mut obj = self.objects[o];
            obj.hitbox = Some(
                match obj.collider.kind {
                    ShapeKind::Circle => Hitbox {
                        kind: ShapeKind::Circle,
                        x: width / 2,
                        y: width / 2,
                    },
                    _ => Hitbox { kind: ShapeKind::Rectangle, x: width, y: height },
                },
            );
            self.objects.set(o, obj);
            proof {
                World::lemma_wf_object_update(*old(self), *self, o as int);
            }
        }
    }
    /// Whether entity `e` is something collector `coll` consumes: a live,
    /// textured object whose texture matches what the collector collects.
    pub open spec fn collect_matches(self, coll: Collector, e: usize) -> bool {
        &&& self.object_valid(e as int)
        &&& self.objects@[e as int].info is Some
        &&& (self.objects@[e as int].info->0).texture == coll.collecting
    }

    /// Whether object `o` is consumed by one of the first `upto` entries of
    /// the collision report `s`.
    pub open spec fn collected_upto(self, coll: Collector, s: Seq<usize>, upto: int, o: int) -> bool {
        exists|k: int|
            0 <= k < upto && k < s.len() && s[k] == o && #[trigger] self.collect_matches(
                coll,
                s[k],
            )
    }

    /// Whether object `o` is consumed when collector `coll` sees the
    /// collision report `s`.
    pub open spec fn collected(self, coll: Collector, s: Seq<usize>, o: int) -> bool {
        self.collected_upto(coll, s, s.len() as int, o)
    }

    /// How many distinct objects the first `upto` entries of the report
    /// deliver: duplicate ids count once, because the object is gone when
    /// its id comes round again.
    pub open spec fn collected_count(self, coll: Collector, s: Seq<usize>, upto: int) -> int
        decreases upto,
    {
        if upto <= 0 {
            0
        } else {
            World::collected_count(self, coll, s, upto - 1) + if self.collect_matches(
                coll,
                s[upto - 1],
            ) && (forall|m: int| 0 <= m < upto - 1 ==> #[trigger] s[m] != s[upto - 1]) {
                1int
            } else {
                0int
            }
        }
    }

    /// The count never exceeds the number of entries counted.
    pub proof fn lemma_collected_count_bound(self, coll: Collector, s: Seq<usize>, upto: int)
        ensures
            World::collected_count(self, coll, s, upto) <= (if upto >= 0 {
                upto
            } else {
                0int
            }),
            World::collected_count(self, coll, s, upto) >= 0,
        decreases upto,
    {
        if upto > 0 {
            self.lemma_collected_count_bound(coll, s, upto - 1);
        }
    }

    /// The state of object `o` once the first `upto` report entries have
    /// been handled: consumed objects are despawned and detached, the rest
    /// are untouched.
    pub open spec fn collect_object_state(pre: World, coll: Collector, s: Seq<usize>, upto: int, o: int) -> Object {
        if pre.collected_upto(coll, s, upto, o) {
            Object {
                alive: false,
                grabbable: pre.objects@[o].grabbable || pre.objects@[o].grabbed is Some,
                grabbed: None,
                ..pre.objects@[o]
            }
        } else {
            pre.objects@[o]
        }
    }

    /// The state of joint `j` once the first `upto` report entries have
    /// been handled: a joint whose object is consumed is destroyed.
    pub open spec fn collect_joint_state(pre: World, coll: Collector, s: Seq<usize>, upto: int, j: int) -> Joint {
        if pre.joints@[j].alive && pre.collected_upto(coll, s, upto, pre.joints@[j].object as int) {
            Joint { alive: false, ..pre.joints@[j] }
        } else {
            pre.joints@[j]
        }
    }

    /// The state of hand `h` once the first `upto` report entries have been
    /// handled: a hand whose held object is consumed loses its Grabbing.
    pub open spec fn collect_hand_state(pre: World, coll: Collector, s: Seq<usize>, upto: int, h: int) -> Hand {
        if pre.hands@[h].alive && pre.hands@[h].grabbing is Some && pre.collected_upto(
            coll,
            s,
            upto,
            pre.joints@[(pre.hands@[h].grabbing->0).0 as int].object as int,
        ) {
            Hand { grabbing: None, ..pre.hands@[h] }
        } else {
            pre.hands@[h]
        }
    }

    /// A collector's response to this step's collision report: every live
    /// matching object is consumed — severed from a holding hand first,
    /// then despawned. A counting collector banks one delivery per consumed
    /// object; a level-finishing collector fires the next level's load
    /// event when it consumed anything. Stale ids and strangers in the
    /// report are skipped silently; a stale collector does nothing.
    pub fn collector_collide(
        &mut self,
        collector: usize,
        colliding: &Vec<usize>,
        deliveries: &mut Deliveries,
        current_level: &CurrentLevel,
    ) -> (r: Option<LoadLevel>)
        requires
            old(self).wf(),
            old(deliveries).0 + colliding@.len() <= i16::MAX,
            current_level.0 < i16::MAX,
        ensures
            final(self).wf(),
            !(old(self).object_valid(collector as int) && old(self).objects@[collector as int]
                .collector is Some) ==> *final(self) == *old(self) && *final(deliveries) == *old(
                deliveries,
            ) && r is None,
            (old(self).object_valid(collector as int) && old(self).objects@[collector as int]
                .collector is Some) ==> ({
                let pre = *old(self);
                let coll = pre.objects@[collector as int].collector->0;
                let s = colliding@;
                let n = s.len() as int;
                &&& final(self).objects@.len() == pre.objects@.len()
                &&& (forall|o: int|
                        0 <= o < pre.objects@.len() ==> #[trigger] final(self).objects@[o]
                            == World::collect_object_state(pre, coll, s, n, o))
                &&& final(self).joints@.len() == pre.joints@.len()
                &&& (forall|j: int|
                        0 <= j < pre.joints@.len() ==> #[trigger] final(self).joints@[j]
                            == World::collect_joint_state(pre, coll, s, n, j))
                &&& final(self).hands@.len() == pre.hands@.len()
                &&& (forall|h: int|
                        0 <= h < pre.hands@.len() ==> #[trigger] final(self).hands@[h]
                            == World::collect_hand_state(pre, coll, s, n, h))
                &&& (coll.interaction == CollectorInteraction::Count ==> final(deliveries).0
                        == old(deliveries).0 + World::collected_count(pre, coll, s, n))
                &&& (coll.interaction != CollectorInteraction::Count ==> *final(deliveries)
                        == *old(deliveries))
                &&& (coll.interaction == CollectorInteraction::FinishLevel ==> r == (if (exists|
                        k: int,
                    |
                        0 <= k < n && #[trigger] pre.collect_matches(coll, s[k])) {
                        Some(LoadLevel((current_level.0 + 1) as i16))
                    } else {
                        None::<LoadLevel>
                    }))
                &&& (coll.interaction != CollectorInteraction::FinishLevel ==> r is None)
            }),
    {
        if !(collector < self.objects.len() && self.objects[collector].alive) {
            return None;
        }
        let coll = match self.objects[collector].collector {
            Some(c) => c,
            None => { return None; },
        };

        let ghost pre = *old(self);
        let ghost s = colliding@;
        let mut evt: Option<LoadLevel> = None;
        let mut k: usize = 0;
        while k < colliding.len()
            invariant
                self.wf(),
                pre.wf(),
                s == colliding@,
                coll == pre.objects@[collector as int].collector->0,
                old(deliveries).0 + s.len() <= i16::MAX,
                current_level.0 < i16::MAX,
                k <= s.len(),
                self.objects@.len() == pre.objects@.len(),
                forall|o: int|
                    0 <= o < pre.objects@.len() ==> #[trigger] self.objects@[o]
                        == World::collect_object_state(pre, coll, s, k as int, o),
                self.joints@.len() == pre.joints@.len(),
                forall|j: int|
                    0 <= j < pre.joints@.len() ==> #[trigger] self.joints@[j]
                        == World::collect_joint_state(pre, coll, s, k as int, j),
                self.hands@.len() == pre.hands@.len(),
                forall|h: int|
                    0 <= h < pre.hands@.len() ==> #[trigger] self.hands@[h]
                        == World::collect_hand_state(pre, coll, s, k as int, h),
                coll.interaction == CollectorInteraction::Count ==> deliveries.0
                    == old(deliveries).0 + World::collected_count(pre, coll, s, k as int),
                coll.interaction != CollectorInteraction::Count ==> *deliveries == *old(
                    deliveries,
                ),
                coll.interaction == CollectorInteraction::FinishLevel ==> evt == (if (exists|
                    m: int,
                |
                    0 <= m < k && #[trigger] pre.collect_matches(coll, s[m])) {
                    Some(LoadLevel((current_level.0 + 1) as i16))
                } else {
                    None::<LoadLevel>
                }),
                coll.interaction != CollectorInteraction::FinishLevel ==> evt is None,
            decreases s.len() - k,
        {
            let e = colliding[k];
            let ghost selfk = *self;
            let mut handled = false;
            if e < self.objects.len() && self.objects[e].alive {
                let is_match = match self.objects[e].info {
                    Some(info) => info.texture == coll.collecting,
                    None => false,
                };
                if is_match {
                    proof {
                        assert(World::collect_object_state(pre, coll, s, k as int, e as int)
                            == selfk.objects@[e as int]);
                        assert(!pre.collected_upto(coll, s, k as int, e as int));
                        assert(pre.collect_matches(coll, e));
                    }
                    if let Some(Grabbed(hh)) = self.objects[e].grabbed {
                        proof {
                            assert(self.object_ok(e as int));
                        }
                        let g = self.hands[hh].grabbing;
                        if let Some(Grabbing(jj)) = g {
                            proof {
                                assert(self.hand_ok(hh as int));
                                assert(self.joint_ok(jj as int));
                            }
                            self.sever_joint(jj);
                        }
                    }
                    match coll.interaction {
                        CollectorInteraction::FinishLevel => {
                            evt = Some(LoadLevel(current_level.0 + 1));
                        },
                        CollectorInteraction::Count => {
                            proof {
                                pre.lemma_collected_count_bound(coll, s, k as int);
                            }
                            deliveries.0 = deliveries.0 + 1;
                        },
                    }
                    self.despawn_object(e);
                    handled = true;
                }
            }
            proof {
                let ku = k as int;
                if handled {
                    assert forall|o: int| 0 <= o < pre.objects@.len() implies #[trigger] self
                        .objects@[o] == World::collect_object_state(pre, coll, s, ku + 1, o) by {
                        if o == e as int {
                            assert(pre.collected_upto(coll, s, ku + 1, o));
                        } else {
                            assert(pre.collected_upto(coll, s, ku + 1, o) == pre.collected_upto(
                                coll,
                                s,
                                ku,
                                o,
                            ));
                        }
                    }
                    assert forall|j: int| 0 <= j < pre.joints@.len() implies #[trigger] self
                        .joints@[j] == World::collect_joint_state(pre, coll, s, ku + 1, j) by {
                        if pre.joints@[j].alive && pre.joints@[j].object == e {
                            assert(pre.joint_ok(j));
                        } else {
                            if pre.joints@[j].alive {
                                assert(pre.collected_upto(
                                    coll,
                                    s,
                                    ku + 1,
                                    pre.joints@[j].object as int,
                                ) == pre.collected_upto(coll, s, ku, pre.joints@[j].object as int));
                            }
                        }
                    }
                    assert forall|h: int| 0 <= h < pre.hands@.len() implies #[trigger] self
                        .hands@[h] == World::collect_hand_state(pre, coll, s, ku + 1, h) by {
                        if pre.hands@[h].alive && pre.hands@[h].grabbing is Some {
                            let jh = (pre.hands@[h].grabbing->0).0 as int;
                            assert(pre.hand_ok(h));
                            assert(pre.joint_ok(jh));
                            if pre.joints@[jh].object == e {
                                assert(pre.collected_upto(coll, s, ku + 1, e as int));
                            } else {
                                assert(pre.collected_upto(coll, s, ku + 1, pre.joints@[jh].object as int)
                                    == pre.collected_upto(coll, s, ku, pre.joints@[jh].object as int));
                            }
                        }
                    }
                } else {
                    assert(*self == selfk);
                    assert(!(pre.collect_matches(coll, e) && !pre.collected_upto(
                        coll,
                        s,
                        ku,
                        e as int,
                    ))) by {
                        if pre.collect_matches(coll, e) && !pre.collected_upto(coll, s, ku, e as int) {
                            assert(selfk.objects@[e as int] == World::collect_object_state(
                                pre,
                                coll,
                                s,
                                ku,
                                e as int,
                            ));
                        }
                    }
                    assert forall|o: int| 0 <= o < pre.objects@.len() implies #[trigger] self
                        .objects@[o] == World::collect_object_state(pre, coll, s, ku + 1, o) by {
                        assert(pre.collected_upto(coll, s, ku + 1, o) == pre.collected_upto(
                            coll,
                            s,
                            ku,
                            o,
                        ));
                    }
                    assert forall|j: int| 0 <= j < pre.joints@.len() implies #[trigger] self
                        .joints@[j] == World::collect_joint_state(pre, coll, s, ku + 1, j) by {
                        if pre.joints@[j].alive {
                            assert(pre.collected_upto(coll, s, ku + 1, pre.joints@[j].object as int)
                                == pre.collected_upto(coll, s, ku, pre.joints@[j].object as int));
                        }
                    }
                    assert forall|h: int| 0 <= h < pre.hands@.len() implies #[trigger] self
                        .hands@[h] == World::collect_hand_state(pre, coll, s, ku + 1, h) by {
                        if pre.hands@[h].alive && pre.hands@[h].grabbing is Some {
                            let jh = (pre.hands@[h].grabbing->0).0 as int;
                            assert(pre.collected_upto(coll, s, ku + 1, pre.joints@[jh].object as int)
                                == pre.collected_upto(coll, s, ku, pre.joints@[jh].object as int));
                        }
                    }
                }
            }
            k = k + 1;
        }
        evt
    }
}

} // verus!
