//! The entity table of the simulation: hands, objects and attachment
//! joints, with index-based weak references between them, a global
//! well-formedness invariant, and the invariant-checked teardown routine
//! that always removes both sides of a joint together.

use vstd::prelude::*;

use crate::hand::Hand;
use crate::object::Grabbed;
use crate::object::Object;

verus! {

/// A rigid point-to-point constraint between a held object and the hand
/// holding it. Exists only while the object is Held.
#[derive(Clone, Copy, PartialEq, Eq, Structural, Debug)]
pub struct Joint {
    pub alive: bool,
    /// Index of the held object.
    pub object: usize,
    /// Index of the holding hand.
    pub hand: usize,
    /// Where the object is pinned, relative to the hand's origin: the
    /// pickup offset.
    pub anchor: crate::Pos,
}

/// The entity table. Despawning clears `alive`; slots are never reused, so
/// indices are stable weak references.
#[derive(Clone, Debug)]
pub struct World {
    pub hands: Vec<Hand>,
    pub objects: Vec<Object>,
    pub joints: Vec<Joint>,
}

impl World {
    pub open spec fn hand_valid(self, h: int) -> bool {
        0 <= h < self.hands@.len() && self.hands@[h].alive
    }

    pub open spec fn object_valid(self, o: int) -> bool {
        0 <= o < self.objects@.len() && self.objects@[o].alive
    }

    pub open spec fn joint_valid(self, j: int) -> bool {
        0 <= j < self.joints@.len() && self.joints@[j].alive
    }

    /// An alive hand's outgoing references are sound: its Grabbing names a
    /// live joint that points back at it, its roles are exclusive, and its
    /// recording or playback state is internally well formed.
    pub open spec fn hand_ok(self, h: int) -> bool {
        let hand = self.hands@[h];
        &&& (hand.grabbing is Some ==> {
                let j = (hand.grabbing->0).0 as int;
                &&& self.joint_valid(j)
                &&& self.joints@[j].hand == h
            })
        &&& (hand.playback is Some ==> !hand.current && hand.recording is None)
        &&& (hand.recording is Some ==> hand.recording->0.wf())
        &&& (hand.playback is Some ==> hand.playback->0.wf())
    }

    /// A live joint's two endpoints exist and both refer back to it: the
    /// hand through Grabbing, the object through Grabbed.
    pub open spec fn joint_ok(self, j: int) -> bool {
        let joint = self.joints@[j];
        &&& self.hand_valid(joint.hand as int)
        &&& self.hands@[joint.hand as int].grabbing is Some
        &&& (self.hands@[joint.hand as int].grabbing->0).0 == j
        &&& self.object_valid(joint.object as int)
        &&& self.objects@[joint.object as int].grabbed == Some(Grabbed(joint.hand))
        &&& !self.objects@[joint.object as int].grabbable
    }

    /// An alive Held object's reference is sound: the named hand is alive
    /// and holds, through its joint, exactly this object.
    pub open spec fn object_ok(self, o: int) -> bool {
        let object = self.objects@[o];
        &&& (object.grabbed is Some ==> {
                let h = (object.grabbed->0).0 as int;
                &&& self.hand_valid(h)
                &&& self.hands@[h].grabbing is Some
                &&& self.joints@[(self.hands@[h].grabbing->0).0 as int].object == o
                &&& !object.grabbable
            })
    }

    /// Global well-formedness: every cross-entity reference of every alive
    /// entity is live and mutually consistent, and at most one live hand is
    /// the current (input-driven) one.
    pub open spec fn wf(self) -> bool {
        &&& forall|h: int| self.hand_valid(h) ==> #[trigger] self.hand_ok(h)
        &&& forall|j: int| self.joint_valid(j) ==> #[trigger] self.joint_ok(j)
        &&& forall|o: int| self.object_valid(o) ==> #[trigger] self.object_ok(o)
        &&& forall|a: int, b: int|
                self.hand_valid(a) && self.hand_valid(b)
                    && (#[trigger] self.hands@[a].current) && (#[trigger] self.hands@[b].current)
                    ==> a == b
    }

    /// A hand can hold at most one object at any time: any two live joints
    /// attached to the same hand are the same joint.
    pub proof fn lemma_hand_holds_at_most_one(self, j1: int, j2: int)
        requires
            self.wf(),
            self.joint_valid(j1),
            self.joint_valid(j2),
            self.joints@[j1].hand == self.joints@[j2].hand,
        ensures
            j1 == j2,
    {
        assert(self.joint_ok(j1));
        assert(self.joint_ok(j2));
    }
}

/// The empty world every session starts from.
pub fn setup() -> (w: World)
    ensures
        w.wf(),
        w.hands@.len() == 0,
        w.objects@.len() == 0,
        w.joints@.len() == 0,
{
    World { hands: Vec::new(), objects: Vec::new(), joints: Vec::new() }
}

impl World {
    pub open spec fn has_current_hand_spec(self) -> bool {
        exists|h: int| self.hand_valid(h) && (#[trigger] self.hands@[h].current)
    }

    /// Whether some live hand is the input-driven one.
    pub fn has_current_hand(&self) -> (r: bool)
        ensures
            r == self.has_current_hand_spec(),
    {
        let mut i: usize = 0;
        while i < self.hands.len()
            invariant
                i <= self.hands@.len(),
                forall|h: int|
                    0 <= h < i ==> !(self.hand_valid(h) && (#[trigger] self.hands@[h].current)),
            decreases self.hands@.len() - i,
        {
            let hand = &self.hands[i];
            if hand.alive && hand.current {
                return true;
            }
            i = i + 1;
        }
        false
    }

    /// Spawn the player's hand: the one live hand that receives input.
    pub fn spawn_hand(&mut self) -> (h: usize)
        requires
            old(self).wf(),
            !old(self).has_current_hand_spec(),
        ensures
            final(self).wf(),
            h == old(self).hands@.len(),
            final(self).hands@ == old(self).hands@.push(
                (Hand { current: true, ..Hand::fresh_spec() }),
            ),
            final(self).objects@ == old(self).objects@,
            final(self).joints@ == old(self).joints@,
    {
        let h = self.hands.len();
        let mut hand = Hand::fresh();
        hand.current = true;
        self.hands.push(hand);
        proof {
            assert forall|i: int| self.hand_valid(i) implies #[trigger] self.hand_ok(i) by {
                if i < h {
                    assert(old(self).hand_ok(i));
                }
            }
            assert forall|j: int| self.joint_valid(j) implies #[trigger] self.joint_ok(j) by {
                assert(old(self).joint_ok(j));
            }
            assert forall|o: int| self.object_valid(o) implies #[trigger] self.object_ok(o) by {
                assert(old(self).object_ok(o));
            }
        }
        h
    }

    /// Tear an attachment joint down, both sides together: the joint dies,
    /// the hand's Grabbing is cleared, and the formerly held object goes
    /// back to Free (Grabbable present, Grabbed cleared).
    pub fn sever_joint(&mut self, j: usize)
        requires
            old(self).wf(),
            old(self).joint_valid(j as int),
        ensures
            final(self).wf(),
            final(self).joints@ == old(self).joints@.update(
                j as int,
                (Joint { alive: false, ..old(self).joints@[j as int] }),
            ),
            final(self).hands@ == old(self).hands@.update(
                old(self).joints@[j as int].hand as int,
                (Hand { grabbing: None, ..old(self).hands@[old(self).joints@[j as int].hand as int] }),
            ),
            final(self).objects@ == old(self).objects@.update(
                old(self).joints@[j as int].object as int,
                (Object {
                    grabbable: true,
                    grabbed: None,
                    ..old(self).objects@[old(self).joints@[j as int].object as int]
                }),
            ),
    {
        proof {
            assert(old(self).joint_ok(j as int));
        }
        let joint = self.joints[j];
        let h = joint.hand;
        let o = joint.object;

        let mut dead = joint;
        dead.alive = false;
        self.joints.set(j, dead);

        self.hands[h].grabbing = None;

        let mut obj = self.objects[o];
        obj.grabbable = true;
        obj.grabbed = None;
        self.objects.set(o, obj);

        proof {
            let pre = *old(self);
            assert forall|i: int| self.hand_valid(i) implies #[trigger] self.hand_ok(i) by {
                assert(pre.hand_ok(i));
                if i != h as int && self.hands@[i].grabbing is Some {
                    let ji = (self.hands@[i].grabbing->0).0 as int;
                    assert(pre.joint_ok(ji));
                }
            }
            assert forall|ji: int| self.joint_valid(ji) implies #[trigger] self.joint_ok(ji) by {
                assert(pre.joint_ok(ji));
                let hi = pre.joints@[ji].hand as int;
                assert(pre.hand_ok(hi));
                let oi = pre.joints@[ji].object as int;
                assert(pre.object_ok(oi));
                assert(pre.joint_ok(j as int));
            }
            assert forall|oi: int| self.object_valid(oi) implies #[trigger] self.object_ok(oi) by {
                assert(pre.object_ok(oi));
                if oi != o as int && self.objects@[oi].grabbed is Some {
                    let hi = (self.objects@[oi].grabbed->0).0 as int;
                    assert(pre.hand_ok(hi));
                    let jji = (pre.hands@[hi].grabbing->0).0 as int;
                    assert(pre.joint_ok(jji));
                }
            }
        }
    }

    /// Well-formedness survives an update of one hand that leaves its
    /// liveness, role and Grabbing link untouched and keeps any attached
    /// recording or playback internally well formed.
    pub proof fn lemma_wf_hand_update(pre: World, post: World, h: int)
        requires
            pre.wf(),
            0 <= h < pre.hands@.len(),
            post.hands@.len() == pre.hands@.len(),
            post.objects@ == pre.objects@,
            post.joints@ == pre.joints@,
            forall|i: int|
                0 <= i < pre.hands@.len() && i != h ==> post.hands@[i] == pre.hands@[i],
            post.hands@[h].alive == pre.hands@[h].alive,
            post.hands@[h].current == pre.hands@[h].current,
            post.hands@[h].grabbing == pre.hands@[h].grabbing,
            (post.hands@[h].recording == pre.hands@[h].recording
                && post.hands@[h].playback == pre.hands@[h].playback)
            || {
                &&& (post.hands@[h].playback is Some ==> !post.hands@[h].current
                        && post.hands@[h].recording is None)
                &&& (post.hands@[h].recording is Some ==> post.hands@[h].recording->0.wf())
                &&& (post.hands@[h].playback is Some ==> post.hands@[h].playback->0.wf())
            },
        ensures
            post.wf(),
    {
        if pre.hands@[h].alive {
            assert(pre.hand_ok(h));
        }
        assert forall|i: int| post.hand_valid(i) implies #[trigger] post.hand_ok(i) by {
            assert(pre.hand_ok(i));
        }
        assert forall|j: int| post.joint_valid(j) implies #[trigger] post.joint_ok(j) by {
            assert(pre.joint_ok(j));
        }
        assert forall|o: int| post.object_valid(o) implies #[trigger] post.object_ok(o) by {
            assert(pre.object_ok(o));
        }
    }

    /// Well-formedness survives an update of one object that leaves its
    /// liveness and its Free/Held state untouched.
    pub proof fn lemma_wf_object_update(pre: World, post: World, o: int)
        requires
            pre.wf(),
            0 <= o < pre.objects@.len(),
            post.objects@.len() == pre.objects@.len(),
            post.hands@ == pre.hands@,
            post.joints@ == pre.joints@,
            forall|i: int|
                0 <= i < pre.objects@.len() && i != o ==> post.objects@[i] == pre.objects@[i],
            post.objects@[o].alive == pre.objects@[o].alive,
            post.objects@[o].grabbable == pre.objects@[o].grabbable,
            post.objects@[o].grabbed == pre.objects@[o].grabbed,
        ensures
            post.wf(),
    {
        assert forall|i: int| post.hand_valid(i) implies #[trigger] post.hand_ok(i) by {
            assert(pre.hand_ok(i));
        }
        assert forall|j: int| post.joint_valid(j) implies #[trigger] post.joint_ok(j) by {
            assert(pre.joint_ok(j));
        }
        assert forall|i: int| post.object_valid(i) implies #[trigger] post.object_ok(i) by {
            assert(pre.object_ok(i));
        }
    }

    /// Despawn a Free object. A Held object must be severed from its hand
    /// first, so that no dangling Grabbing or joint survives.
    pub fn despawn_object(&mut self, o: usize)
        requires
            old(self).wf(),
            o < old(self).objects@.len(),
            old(self).objects@[o as int].grabbed is None,
        ensures
            final(self).wf(),
            final(self).objects@ == old(self).objects@.update(
                o as int,
                (Object { alive: false, ..old(self).objects@[o as int] }),
            ),
            final(self).hands@ == old(self).hands@,
            final(self).joints@ == old(self).joints@,
    {
        let mut obj = self.objects[o];
        obj.alive = false;
        self.objects.set(o, obj);
        proof {
            let pre = *old(self);
            assert forall|i: int| self.hand_valid(i) implies #[trigger] self.hand_ok(i) by {
                assert(pre.hand_ok(i));
            }
            assert forall|j: int| self.joint_valid(j) implies #[trigger] self.joint_ok(j) by {
                assert(pre.joint_ok(j));
            }
            assert forall|i: int| self.object_valid(i) implies #[trigger] self.object_ok(i) by {
                assert(pre.object_ok(i));
            }
        }
    }

    /// Despawn an empty-handed hand (used on ghost hands at level loads).
    /// A Holding hand must be severed from its joint first.
    pub fn despawn_hand(&mut self, h: usize)
        requires
            old(self).wf(),
            h < old(self).hands@.len(),
            old(self).hands@[h as int].grabbing is None,
        ensures
            final(self).wf(),
            final(self).hands@ == old(self).hands@.update(
                h as int,
                (Hand { alive: false, ..old(self).hands@[h as int] }),
            ),
            final(self).objects@ == old(self).objects@,
            final(self).joints@ == old(self).joints@,
    {
        self.hands[h].alive = false;
        proof {
            let pre = *old(self);
            assert forall|i: int| self.hand_valid(i) implies #[trigger] self.hand_ok(i) by {
                assert(pre.hand_ok(i));
            }
            assert forall|j: int| self.joint_valid(j) implies #[trigger] self.joint_ok(j) by {
                assert(pre.joint_ok(j));
                if pre.joints@[j].hand == h {
                    assert(pre.hands@[h as int].grabbing is Some);
                }
            }
            assert forall|i: int| self.object_valid(i) implies #[trigger] self.object_ok(i) by {
                assert(pre.object_ok(i));
                if self.objects@[i].grabbed is Some {
                    let hi = (self.objects@[i].grabbed->0).0 as int;
                    if hi == h {
                        assert(pre.hands@[h as int].grabbing is Some);
                    }
                }
            }
        }
    }
}

} // verus!
