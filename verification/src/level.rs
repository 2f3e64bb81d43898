//! Level bookkeeping: the load event, the current-level marker, the spawn
//! descriptors the level loader hands this core, and the full response to a
//! load — despawn every object and every ghost hand, then build the fresh
//! scene.

use vstd::prelude::*;

use crate::Pos;
use crate::hand::Grabbing;
use crate::hand::Hand;
use crate::hand::HandActions;
use crate::object::Collector;
use crate::object::Grabbed;
use crate::object::ColliderInfo;
use crate::object::GrabInteractions;
use crate::object::Object;
use crate::object::ObjectInfo;
use crate::object::ShapeKind;
use crate::world::Joint;
use crate::world::World;

verus! {

/// The "load level N" event a collaborator fires.
#[derive(Clone, Copy, PartialEq, Eq, Structural, Debug)]
pub struct LoadLevel(pub i16);

/// Which level is currently loaded.
#[derive(Clone, Copy, PartialEq, Eq, Structural, Debug)]
pub struct CurrentLevel(pub i16);

/// One object-spawn descriptor from the level description. Absent parts
/// fall back to the loader's defaults: in-place grab behaviour and a
/// rectangle collider sized from the texture.
#[derive(Clone, Copy, Debug)]
pub struct LoadObject {
    /// Texture identity; scenery without a texture has none and never
    /// carries grab metadata.
    pub texture_name: Option<u64>,
    pub position: Pos,
    pub collector: Option<Collector>,
    pub body_static: bool,
    pub grabbable: bool,
    pub collider_info: Option<ColliderInfo>,
    pub grab: Option<GrabInteractions>,
    pub sensor: bool,
    pub anchored: bool,
}

/// The backdrop panel behind every level, a plain piece of scenery that is
/// despawned and rebuilt with the rest.
pub open spec fn background_object() -> Object {
    Object {
        alive: true,
        pos: Pos { x: 0, y: 0 },
        info: None,
        grabbable: false,
        grabbed: None,
        collider: ColliderInfo { kind: ShapeKind::Rectangle, size: None },
        hitbox: None,
        collector: None,
        body_static: false,
        sensor: false,
        anchored: false,
    }
}

/// The object a spawn descriptor turns into.
pub open spec fn object_from_descriptor(d: LoadObject) -> Object {
    Object {
        alive: true,
        pos: d.position,
        info: if d.texture_name is Some {
            Some(
                ObjectInfo {
                    grab: if d.grab is Some {
                        d.grab->0
                    } else {
                        GrabInteractions::Grab
                    },
                    texture: d.texture_name->0,
                },
            )
        } else {
            None
        },
        grabbable: d.grabbable,
        grabbed: None,
        collider: if d.collider_info is Some {
            d.collider_info->0
        } else {
            ColliderInfo { kind: ShapeKind::Rectangle, size: None }
        },
        hitbox: None,
        collector: d.collector,
        body_static: d.body_static,
        sensor: d.sensor,
        anchored: d.anchored,
    }
}

/// On a Reload-press edge of the current hand, re-fire the load event for
/// the level already loaded.
pub fn reload_level(w: &World, h: usize, current_level: &CurrentLevel) -> (r: Option<LoadLevel>)
    ensures
        r == (if w.hand_valid(h as int) && w.hands@[h as int].current && w.hands@[h as int]
            .signals.reload {
            Some(LoadLevel(current_level.0))
        } else {
            None::<LoadLevel>
        }),
{
    if h < w.hands.len() && w.hands[h].alive && w.hands[h].current && w.hands[h]
        .signals
        .just_pressed(HandActions::Reload) {
        Some(LoadLevel(current_level.0))
    } else {
        None
    }
}

/// Acknowledge a load event: the named level becomes the current one. The
/// asset collaborator fetches the level description itself.
pub fn load_event(current_level: &mut CurrentLevel, ev: &LoadLevel)
    ensures
        final(current_level).0 == ev.0,
{
    current_level.0 = ev.0;
}

impl World {
    /// Well-formedness survives pushing a fresh, unheld object.
    proof fn lemma_wf_object_push(pre: World, post: World)
        requires
            pre.wf(),
            post.hands@ == pre.hands@,
            post.joints@ == pre.joints@,
            post.objects@.len() == pre.objects@.len() + 1,
            forall|i: int| 0 <= i < pre.objects@.len() ==> post.objects@[i] == pre.objects@[i],
            post.objects@.last().grabbed is None,
        ensures
            post.wf(),
    {
        assert forall|i: int| post.hand_valid(i) implies #[trigger] post.hand_ok(i) by {
            assert(pre.hand_ok(i));
        }
        assert forall|j: int| post.joint_valid(j) implies #[trigger] post.joint_ok(j) by {
            assert(pre.joint_ok(j));
            let oi = pre.joints@[j].object as int;
            assert(pre.object_ok(oi));
        }
        assert forall|o: int| post.object_valid(o) implies #[trigger] post.object_ok(o) by {
            if o < pre.objects@.len() {
                assert(pre.object_ok(o));
            }
        }
    }

    /// The full response to a level load: every object is despawned —
    /// severed from a holding hand first — every ghost hand is despawned,
    /// the backdrop is rebuilt, and the descriptors are spawned in order.
    /// Live hands keep everything but their (now severed) Grabbing.
    pub fn load_level(&mut self, descriptors: &Vec<LoadObject>)
        requires
            old(self).wf(),
        ensures
            final(self).wf(),
            final(self).objects@.len() == old(self).objects@.len() + 1 + descriptors@.len(),
            forall|o: int|
                0 <= o < old(self).objects@.len() ==> !(#[trigger] final(self).objects@[o]).alive,
            final(self).objects@[old(self).objects@.len() as int] == background_object(),
            forall|d: int|
                0 <= d < descriptors@.len() ==> #[trigger] final(self).objects@[old(
                    self,
                ).objects@.len() + 1 + d] == object_from_descriptor(descriptors@[d]),
            final(self).joints@.len() == old(self).joints@.len(),
            forall|j: int| 0 <= j < old(self).joints@.len() ==> !(#[trigger] final(self).joints@[j]).alive,
            final(self).hands@.len() == old(self).hands@.len(),
            forall|h: int|
                0 <= h < old(self).hands@.len() ==> #[trigger] final(self).hands@[h] == (if old(
                    self,
                ).hands@[h].alive && old(self).hands@[h].playback is Some {
                    (Hand { alive: false, grabbing: None, ..old(self).hands@[h] })
                } else if old(self).hands@[h].alive && old(self).hands@[h].grabbing is Some {
                    (Hand { grabbing: None, ..old(self).hands@[h] })
                } else {
                    old(self).hands@[h]
                }),
    {
        let ghost pre = *old(self);

        // Despawn every object, tearing down any joint that still holds it.
        let mut o: usize = 0;
        while o < self.objects.len()
            invariant
                self.wf(),
                pre.wf(),
                o <= pre.objects@.len(),
                self.objects@.len() == pre.objects@.len(),
                forall|i: int| 0 <= i < o ==> !(#[trigger] self.objects@[i]).alive,
                forall|i: int|
                    o <= i < pre.objects@.len() ==> #[trigger] self.objects@[i]
                        == pre.objects@[i],
                self.joints@.len() == pre.joints@.len(),
                forall|j: int|
                    0 <= j < pre.joints@.len() ==> #[trigger] self.joints@[j] == pre.joints@[j]
                        || self.joints@[j] == (Joint { alive: false, ..pre.joints@[j] }),
                self.hands@.len() == pre.hands@.len(),
                forall|h: int|
                    0 <= h < pre.hands@.len() ==> #[trigger] self.hands@[h] == pre.hands@[h] || (
                    pre.hands@[h].alive && pre.hands@[h].grabbing is Some && self.hands@[h] == (
                    Hand { grabbing: None, ..pre.hands@[h] })),
            decreases pre.objects@.len() - o,
        {
            if self.objects[o].alive {
                if let Some(Grabbed(hh)) = self.objects[o].grabbed {
                    proof {
                        assert(self.object_ok(o as int));
                    }
                    let g = self.hands[hh].grabbing;
                    if let Some(Grabbing(jj)) = g {
                        proof {
                            assert(self.hand_ok(hh as int));
                            assert(self.joint_ok(jj as int));
                        }
                        self.sever_joint(jj);
                    }
                }
                self.despawn_object(o);
            }
            o = o + 1;
        }

        // Every joint's object is now gone, so no joint — and no Grabbing —
        // can still be alive.
        proof {
            assert forall|j: int| 0 <= j < self.joints@.len() implies !(#[trigger] self
                .joints@[j]).alive by {
                if self.joints@[j].alive {
                    assert(self.joint_ok(j));
                }
            }
            assert forall|h: int|
                0 <= h < self.hands@.len() && self.hands@[h].alive implies (#[trigger] self
                .hands@[h]).grabbing is None by {
                if self.hands@[h].grabbing is Some {
                    assert(self.hand_ok(h));
                }
            }
        }
        let ghost mid = *self;

        // Despawn every ghost hand.
        let mut h: usize = 0;
        while h < self.hands.len()
            invariant
                self.wf(),
                h <= mid.hands@.len(),
                self.objects@ == mid.objects@,
                self.joints@ == mid.joints@,
                self.hands@.len() == mid.hands@.len(),
                forall|i: int|
                    0 <= i < mid.hands@.len() && i >= h ==> #[trigger] self.hands@[i]
                        == mid.hands@[i],
                forall|i: int|
                    0 <= i < h ==> #[trigger] self.hands@[i] == (if mid.hands@[i].alive
                        && mid.hands@[i].playback is Some {
                        (Hand { alive: false, ..mid.hands@[i] })
                    } else {
                        mid.hands@[i]
                    }),
                forall|i: int|
                    0 <= i < mid.hands@.len() && mid.hands@[i].alive ==> (#[trigger] mid
                        .hands@[i]).grabbing is None,
            decreases mid.hands@.len() - h,
        {
            if self.hands[h].alive && self.hands[h].playback.is_some() {
                self.despawn_hand(h);
            }
            h = h + 1;
        }

        // Rebuild the scene: the backdrop, then one object per descriptor.
        let ghost mid2 = *self;
        self.objects.push(
            Object {
                alive: true,
                pos: Pos { x: 0, y: 0 },
                info: None,
                grabbable: false,
                grabbed: None,
                collider: ColliderInfo { kind: ShapeKind::Rectangle, size: None },
                hitbox: None,
                collector: None,
                body_static: false,
                sensor: false,
                anchored: false,
            },
        );
        proof {
            World::lemma_wf_object_push(mid2, *self, );
        }

        let mut d: usize = 0;
        while d < descriptors.len()
            invariant
                self.wf(),
                d <= descriptors@.len(),
                self.hands@ == mid2.hands@,
                self.joints@ == mid2.joints@,
                self.objects@.len() == mid2.objects@.len() + 1 + d,
                forall|i: int|
                    0 <= i < mid2.objects@.len() ==> #[trigger] self.objects@[i]
                        == mid2.objects@[i],
                self.objects@[mid2.objects@.len() as int] == background_object(),
                forall|i: int|
                    0 <= i < d ==> #[trigger] self.objects@[mid2.objects@.len() + 1 + i]
                        == object_from_descriptor(descriptors@[i]),
            decreases descriptors@.len() - d,
        {
            let ghost before = *self;
            let desc = descriptors[d];
            let info = match desc.texture_name {
                Some(texture) => Some(
                    ObjectInfo {
                        grab: match desc.grab {
                            Some(g) => g,
                            None => GrabInteractions::Grab,
                        },
                        texture,
                    },
                ),
                None => None,
            };
            let collider = match desc.collider_info {
                Some(c) => c,
                None => ColliderInfo { kind: ShapeKind::Rectangle, size: None },
            };
            self.objects.push(
                Object {
                    alive: true,
                    pos: desc.position,
                    info,
                    grabbable: desc.grabbable,
                    grabbed: None,
                    collider,
                    hitbox: None,
                    collector: desc.collector,
                    body_static: desc.body_static,
                    sensor: desc.sensor,
                    anchored: desc.anchored,
                },
            );
            proof {
                World::lemma_wf_object_push(before, *self);
            }
            d = d + 1;
        }
    }
}

} // verus!
