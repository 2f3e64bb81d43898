//! The hand: its per-step input signals, its goal, and the grab/drop state
//! machine that picks objects up and puts them down.

use vstd::prelude::*;

use crate::GAIN;
use crate::Pos;
use crate::Vel;
use crate::object::GrabInteractions;
use crate::object::Grabbed;
use crate::object::Object;
use crate::recording::Playback;
use crate::recording::Recording;
use crate::world::Joint;
use crate::world::World;

verus! {

/// Vertical offset between the cursor and the hand's goal, and between the
/// hand's origin and its pickup anchor, in world units.
pub const HAND_OFFSET: i32 = -200;

/// The discrete signals a hand reacts to.
#[derive(Clone, Copy, PartialEq, Eq, Structural, Debug)]
pub enum HandActions {
    Grab,
    Record,
    Reload,
}

/// Edge state of the three signals for the current step: true means the
/// signal was pressed this step. Reset at the top of every step, so a press
/// is a one-step pulse, never a held level.
#[derive(Clone, Copy, PartialEq, Eq, Structural, Debug)]
pub struct Signals {
    pub grab: bool,
    pub record: bool,
    pub reload: bool,
}

impl Signals {
    pub open spec fn released_spec() -> Signals {
        Signals { grab: false, record: false, reload: false }
    }

    /// All three signals idle.
    pub fn released() -> (s: Signals)
        ensures
            s == Signals::released_spec(),
    {
        Signals { grab: false, record: false, reload: false }
    }

    pub open spec fn just_pressed_spec(self, action: HandActions) -> bool {
        match action {
            HandActions::Grab => self.grab,
            HandActions::Record => self.record,
            HandActions::Reload => self.reload,
        }
    }

    /// Whether `action` saw a rising edge this step.
    pub fn just_pressed(&self, action: HandActions) -> (r: bool)
        ensures
            r == self.just_pressed_spec(action),
    {
        match action {
            HandActions::Grab => self.grab,
            HandActions::Record => self.record,
            HandActions::Reload => self.reload,
        }
    }
}

/// The Holding half of the hand/object relation: index of the live
/// attachment joint.
#[derive(Clone, Copy, PartialEq, Eq, Structural, Debug)]
pub struct Grabbing(pub usize);

/// The point the motion controller steers the hand toward.
#[derive(Clone, Copy, PartialEq, Eq, Structural, Debug)]
pub struct Goal(pub Pos);

/// One hand in the entity table: the player's hand or an autonomous ghost.
/// `alive` is false once despawned; slots are never reused.
#[derive(Clone, Debug)]
pub struct Hand {
    pub alive: bool,
    /// Exactly one live hand receives live input.
    pub current: bool,
    pub pos: Pos,
    pub vel: Vel,
    pub goal: Goal,
    pub signals: Signals,
    /// Holding state: at most one attachment joint per hand.
    pub grabbing: Option<Grabbing>,
    /// Present while this hand is capturing a recording.
    pub recording: Option<Recording>,
    /// Present on ghost hands, which replay a tape instead of live input.
    pub playback: Option<Playback>,
}

impl Hand {
    /// A fresh hand at the origin: idle, empty-handed, steering to (0, 0).
    pub open spec fn fresh_spec() -> Hand {
        Hand {
            alive: true,
            current: false,
            pos: Pos { x: 0, y: 0 },
            vel: Vel { x: 0, y: 0 },
            goal: Goal(Pos { x: 0, y: 0 }),
            signals: Signals::released_spec(),
            grabbing: None,
            recording: None,
            playback: None,
        }
    }

    pub fn fresh() -> (h: Hand)
        ensures
            h == Hand::fresh_spec(),
    {
        Hand {
            alive: true,
            current: false,
            pos: Pos { x: 0, y: 0 },
            vel: Vel { x: 0, y: 0 },
            goal: Goal(Pos { x: 0, y: 0 }),
            signals: Signals::released(),
            grabbing: None,
            recording: None,
            playback: None,
        }
    }
}

impl Default for Hand {
    /// The bundle every spawned hand starts from.
    fn default() -> (h: Hand)
        ensures
            h == Hand::fresh_spec(),
    {
        Hand::fresh()
    }
}

impl World {
    /// Deliver this step's input edges to a hand. The input collaborator
    /// calls this at the top of every step for the current hand; the
    /// playback engine synthesizes the same signals for ghost hands.
    pub fn set_signals(&mut self, h: usize, signals: Signals)
        requires
            old(self).wf(),
        ensures
            final(self).wf(),
            old(self).hand_valid(h as int) ==> final(self).hands@ == old(self).hands@.update(
                h as int,
                (Hand { signals, ..old(self).hands@[h as int] }),
            ),
            !old(self).hand_valid(h as int) ==> *final(self) == *old(self),
            final(self).objects@ == old(self).objects@,
            final(self).joints@ == old(self).joints@,
    {
        if h < self.hands.len() && self.hands[h].alive {
            self.hands[h].signals = signals;
            proof {
                World::lemma_wf_hand_update(*old(self), *self, h as int);
            }
        }
    }

    /// Mirror the physics integrator's transform for a hand back into the
    /// table.
    pub fn set_hand_pos(&mut self, h: usize, pos: Pos)
        requires
            old(self).wf(),
        ensures
            final(self).wf(),
            old(self).hand_valid(h as int) ==> final(self).hands@ == old(self).hands@.update(
                h as int,
                (Hand { pos, ..old(self).hands@[h as int] }),
            ),
            !old(self).hand_valid(h as int) ==> *final(self) == *old(self),
            final(self).objects@ == old(self).objects@,
            final(self).joints@ == old(self).joints@,
    {
        if h < self.hands.len() && self.hands[h].alive {
            self.hands[h].pos = pos;
            proof {
                World::lemma_wf_hand_update(*old(self), *self, h as int);
            }
        }
    }

    /// Mirror the physics integrator's transform for an object back into
    /// the table.
    pub fn set_object_pos(&mut self, o: usize, pos: Pos)
        requires
            old(self).wf(),
        ensures
            final(self).wf(),
            old(self).object_valid(o as int) ==> final(self).objects@ == old(self).objects@.update(
                o as int,
                (Object { pos, ..old(self).objects@[o as int] }),
            ),
            !old(self).object_valid(o as int) ==> *final(self) == *old(self),
            final(self).hands@ == old(self).hands@,
            final(self).joints@ == old(self).joints@,
    {
        if o < self.objects.len() && self.objects[o].alive {
            self.objects[o].pos = pos;
            proof {
                World::lemma_wf_object_update(*old(self), *self, o as int);
            }
        }
    }

    /// The velocity the motion controller commands for a hand: the error
    /// toward the goal times the proportional gain, per axis.
    pub open spec fn controller_vel(hand: Hand) -> Vel {
        Vel {
            x: ((hand.goal.0.x - hand.pos.x) * GAIN) as i64,
            y: ((hand.goal.0.y - hand.pos.y) * GAIN) as i64,
        }
    }

    /// Proportional motion controller: steer a hand toward its goal by
    /// commanding velocity = error * GAIN. Mutates velocity only; position
    /// belongs to the physics integrator.
    pub fn move_hand(&mut self, h: usize)
        requires
            old(self).wf(),
        ensures
            final(self).wf(),
            old(self).hand_valid(h as int) ==> final(self).hands@ == old(self).hands@.update(
                h as int,
                (Hand {
                    vel: World::controller_vel(old(self).hands@[h as int]),
                    ..old(self).hands@[h as int]
                }),
            ),
            !old(self).hand_valid(h as int) ==> *final(self) == *old(self),
            final(self).objects@ == old(self).objects@,
            final(self).joints@ == old(self).joints@,
    {
        if h < self.hands.len() && self.hands[h].alive {
            let pos = self.hands[h].pos;
            let goal = self.hands[h].goal.0;
            let vx = (goal.x as i64 - pos.x as i64) * GAIN;
            let vy = (goal.y as i64 - pos.y as i64) * GAIN;
            self.hands[h].vel = Vel { x: vx, y: vy };
            proof {
                World::lemma_wf_hand_update(*old(self), *self, h as int);
            }
        }
    }

    /// How a hand's recording reacts to a grab-press edge: if the hand is
    /// the current one and is capturing, the edge's elapsed time is appended
    /// to the grab sequence; every other field of the hand is untouched.
    pub open spec fn logged_recording(pre: Hand, post: Hand) -> bool {
        if pre.current && pre.recording is Some {
            let rec = pre.recording->0;
            &&& post.recording is Some
            &&& (post.recording->0).timer == rec.timer
            &&& (post.recording->0).record@ == rec.record@
            &&& (post.recording->0).grabs@ == rec.grabs@.push(rec.timer.elapsed)
        } else {
            post.recording == pre.recording
        }
    }

    /// All hand fields but the recording and the Grabbing relation agree.
    pub open spec fn hand_same_core(pre: Hand, post: Hand) -> bool {
        &&& post.alive == pre.alive
        &&& post.current == pre.current
        &&& post.pos == pre.pos
        &&& post.vel == pre.vel
        &&& post.goal == pre.goal
        &&& post.signals == pre.signals
        &&& post.playback == pre.playback
    }

    /// Append the grab edge to the hand's recording, if the hand is the
    /// current one and is capturing. Both halves of the state machine call
    /// this on every grab-press edge, so pickups and drops are captured
    /// indistinguishably as generic toggle events.
    fn log_grab(&mut self, h: usize)
        requires
            old(self).wf(),
            old(self).hand_valid(h as int),
        ensures
            final(self).wf(),
            final(self).hands@.len() == old(self).hands@.len(),
            forall|i: int|
                0 <= i < old(self).hands@.len() && i != h ==> final(self).hands@[i]
                    == old(self).hands@[i],
            World::hand_same_core(old(self).hands@[h as int], final(self).hands@[h as int]),
            final(self).hands@[h as int].grabbing == old(self).hands@[h as int].grabbing,
            World::logged_recording(old(self).hands@[h as int], final(self).hands@[h as int]),
            final(self).objects@ == old(self).objects@,
            final(self).joints@ == old(self).joints@,
    {
        if self.hands[h].current {
            let taken = self.hands[h].recording.take();
            if let Some(mut rec) = taken {
                let e = rec.timer.elapsed;
                rec.grabs.push(e);
                self.hands[h].recording = Some(rec);
            }
        }
        proof {
            let pre = *old(self);
            let post_rec = self.hands@[h as int].recording;
            if post_rec is Some && !(pre.hands@[h as int].recording == post_rec) {
                assert(pre.hand_ok(h as int));
                let old_rec = pre.hands@[h as int].recording->0;
                let new_rec = post_rec->0;
                assert forall|i: int, j: int|
                    0 <= i <= j < new_rec.grabs@.len() implies #[trigger] new_rec.grabs@[i]
                        <= #[trigger] new_rec.grabs@[j] by {
                    if j < old_rec.grabs@.len() {
                        assert(old_rec.grabs@[i] <= old_rec.grabs@[j]);
                    }
                }
                assert(new_rec.wf());
            }
            World::lemma_wf_hand_update(pre, *self, h as int);
        }
    }

    /// Whether an entity id from the sensor report is something a hand can
    /// pick up right now: a live, Free, pickable object.
    pub open spec fn obj_matches(objects: Seq<Object>, o: usize) -> bool {
        &&& o < objects.len()
        &&& objects[o as int].alive
        &&& objects[o as int].grabbable
        &&& objects[o as int].info is Some
    }

    /// The object a grab press resolves to: the first entry of the sensor
    /// report that is a live, Free, pickable object. The report's order is
    /// the tie-break; it carries no meaning.
    pub open spec fn grab_candidate(objects: Seq<Object>, overlapping: Seq<usize>) -> Option<
        usize,
    >
        decreases overlapping.len(),
    {
        if overlapping.len() == 0 {
            None
        } else if World::obj_matches(objects, overlapping[0]) {
            Some(overlapping[0])
        } else {
            World::grab_candidate(objects, overlapping.skip(1))
        }
    }

    /// The Held copy a Spawn-behaviour template dispenses: same transform
    /// and the same texture, collider and grab-behaviour metadata as the
    /// template, already in the Held state of hand `h`.
    pub open spec fn spawned_from(template: Object, h: usize) -> Object {
        Object {
            alive: true,
            pos: template.pos,
            info: template.info,
            grabbable: false,
            grabbed: Some(Grabbed(h)),
            collider: template.collider,
            hitbox: None,
            collector: None,
            body_static: false,
            sensor: false,
            anchored: false,
        }
    }

    /// Where a held object is pinned, relative to the hand's origin: one
    /// hand offset above it, at the pickup sensor.
    pub open spec fn pickup_anchor() -> Pos {
        Pos { x: 0, y: (-HAND_OFFSET) as i32 }
    }

    /// Exact effect of a grab press resolved on an empty-handed hand `h`:
    /// the edge is logged into a running recording, and the first pickable
    /// overlap, if any, ends up Held by `h` through a fresh joint — in
    /// place for Grab behaviour, as a newly dispensed copy for Spawn
    /// behaviour, with the template left untouched.
    pub open spec fn grab_transition(
        pre: World,
        post: World,
        h: usize,
        overlapping: Seq<usize>,
    ) -> bool {
        let pre_hand = pre.hands@[h as int];
        let post_hand = post.hands@[h as int];
        let cand = World::grab_candidate(pre.objects@, overlapping);
        &&& post.hands@.len() == pre.hands@.len()
        &&& (forall|i: int|
                0 <= i < pre.hands@.len() && i != h ==> post.hands@[i] == pre.hands@[i])
        &&& World::hand_same_core(pre_hand, post_hand)
        &&& World::logged_recording(pre_hand, post_hand)
        &&& (cand is None ==> {
                &&& post_hand.grabbing is None
                &&& post.objects@ == pre.objects@
                &&& post.joints@ == pre.joints@
            })
        &&& (cand is Some ==> {
                let c = cand->0;
                &&& post_hand.grabbing is Some
                &&& (post_hand.grabbing->0).0 == pre.joints@.len()
                &&& ((pre.objects@[c as int].info->0).grab == GrabInteractions::Grab ==> {
                    &&& post.objects@ == pre.objects@.update(
                            c as int,
                            (Object {
                                grabbable: false,
                                grabbed: Some(Grabbed(h)),
                                ..pre.objects@[c as int]
                            }),
                        )
                    &&& post.joints@ == pre.joints@.push(
                            (Joint {
                                alive: true,
                                object: c,
                                hand: h,
                                anchor: World::pickup_anchor(),
                            }),
                        )
                })
                &&& ((pre.objects@[c as int].info->0).grab == GrabInteractions::Spawn ==> {
                    &&& post.objects@ == pre.objects@.push(
                            World::spawned_from(pre.objects@[c as int], h),
                        )
                    &&& post.joints@.len() == pre.joints@.len() + 1
                    &&& (forall|i: int|
                            0 <= i < pre.joints@.len() ==> post.joints@[i] == pre.joints@[i])
                    &&& post.joints@.last().alive
                    &&& post.joints@.last().object == pre.objects@.len()
                    &&& post.joints@.last().hand == h
                    &&& post.joints@.last().anchor == World::pickup_anchor()
                })
            })
    }

    /// Idle half of the grab/drop state machine. On a grab-press edge of an
    /// empty-handed hand: log the edge into a running recording, then
    /// resolve the first pickable object of the sensor report — in place
    /// for Grab behaviour, through a freshly dispensed copy for Spawn
    /// behaviour — and attach it to the hand with a new joint. With no
    /// pickable overlap the hand simply stays Idle. Stale or despawned ids
    /// in the report are skipped silently.
    pub fn grab(&mut self, h: usize, overlapping: &Vec<usize>)
        requires
            old(self).wf(),
        ensures
            final(self).wf(),
            !(old(self).hand_valid(h as int) && old(self).hands@[h as int].signals.grab
                && old(self).hands@[h as int].grabbing is None) ==> *final(self) == *old(self),
            (old(self).hand_valid(h as int) && old(self).hands@[h as int].signals.grab
                && old(self).hands@[h as int].grabbing is None) ==> World::grab_transition(
                *old(self),
                *final(self),
                h,
                overlapping@,
            ),
    {
        if !(h < self.hands.len() && self.hands[h].alive) {
            return ;
        }
        if !self.hands[h].signals.just_pressed(HandActions::Grab) {
            return ;
        }
        if self.hands[h].grabbing.is_some() {
            return ;
        }

        self.log_grab(h);
        let ghost mid = *self;

        let mut cand: Option<usize> = None;
        let mut k: usize = 0;
        proof {
            assert(overlapping@.skip(0) =~= overlapping@);
        }
        while k < overlapping.len() && cand.is_none()
            invariant
                k <= overlapping@.len(),
                *self == mid,
                cand is None ==> World::grab_candidate(self.objects@, overlapping@)
                    == World::grab_candidate(self.objects@, overlapping@.skip(k as int)),
                cand is Some ==> World::grab_candidate(self.objects@, overlapping@) == cand,
                cand is Some ==> World::obj_matches(self.objects@, cand->0),
            decreases overlapping@.len() - k,
        {
            let o = overlapping[k];
            if o < self.objects.len() && self.objects[o].alive && self.objects[o].grabbable
                && self.objects[o].info.is_some() {
                cand = Some(o);
                proof {
                    assert(overlapping@.skip(k as int)[0] == o);
                }
            } else {
                proof {
                    assert(!World::obj_matches(self.objects@, overlapping@.skip(k as int)[0]));
                    assert(overlapping@.skip(k as int).skip(1) =~= overlapping@.skip(
                        k as int + 1,
                    ));
                }
            }
            k = k + 1;
        }
        proof {
            if cand is None {
                assert(overlapping@.skip(overlapping@.len() as int).len() == 0);
            }
            assert(cand == World::grab_candidate(self.objects@, overlapping@));
        }

        let c = match cand {
            None => { return ; },
            Some(c) => c,
        };
        let info = match self.objects[c].info {
            Some(info) => info,
            None => { return ; },
        };

        match info.grab {
            GrabInteractions::Grab => {
                let j = self.joints.len();
                let mut obj = self.objects[c];
                obj.grabbable = false;
                obj.grabbed = Some(Grabbed(h));
                self.objects.set(c, obj);
                self.joints.push(
                    Joint { alive: true, object: c, hand: h, anchor: Pos { x: 0, y: -HAND_OFFSET } },
                );
                self.hands[h].grabbing = Some(Grabbing(j));
                proof {
                    Self::lemma_wf_after_attach(mid, *self, h as int, c as int, j as int);
                }
            },
            GrabInteractions::Spawn => {
                let newo = self.objects.len();
                let template = self.objects[c];
                self.objects.push(
                    Object {
                        alive: true,
                        pos: template.pos,
                        info: Some(info),
                        grabbable: false,
                        grabbed: Some(Grabbed(h)),
                        collider: template.collider,
                        hitbox: None,
                        collector: None,
                        body_static: false,
                        sensor: false,
                        anchored: false,
                    },
                );
                let j = self.joints.len();
                self.joints.push(
                    Joint { alive: true, object: newo, hand: h, anchor: Pos { x: 0, y: -HAND_OFFSET } },
                );
                self.hands[h].grabbing = Some(Grabbing(j));
                proof {
                    assert(self.objects@ =~= mid.objects@.push(
                        World::spawned_from(mid.objects@[c as int], h),
                    ));
                    Self::lemma_wf_after_attach(mid, *self, h as int, newo as int, j as int);
                }
            },
        }
    }

    /// Well-formedness after attaching object `c` to hand `h` through the
    /// fresh joint `j`: the pre state is well formed, the hand was
    /// empty-handed, and the post state differs exactly by the new Held
    /// links on both sides plus the pushed joint.
    proof fn lemma_wf_after_attach(pre: World, post: World, h: int, c: int, j: int)
        requires
            pre.wf(),
            pre.hand_valid(h),
            pre.hands@[h].grabbing is None,
            j == pre.joints@.len(),
            post.joints@.len() == pre.joints@.len() + 1,
            forall|i: int| 0 <= i < pre.joints@.len() ==> post.joints@[i] == pre.joints@[i],
            post.joints@[j].alive,
            post.joints@[j].object == c,
            post.joints@[j].hand == h,
            post.hands@.len() == pre.hands@.len(),
            forall|i: int| 0 <= i < pre.hands@.len() && i != h ==> post.hands@[i] == pre.hands@[i],
            World::hand_same_core(pre.hands@[h], post.hands@[h]),
            post.hands@[h].recording == pre.hands@[h].recording,
            post.hands@[h].grabbing is Some,
            (post.hands@[h].grabbing->0).0 == j,
            0 <= c < post.objects@.len(),
            c < pre.objects@.len() ==> {
                &&& post.objects@.len() == pre.objects@.len()
                &&& (forall|i: int|
                        0 <= i < pre.objects@.len() && i != c ==> post.objects@[i]
                            == pre.objects@[i])
                &&& pre.objects@[c].alive
                &&& pre.objects@[c].grabbable
                &&& post.objects@[c] == (Object {
                        grabbable: false,
                        grabbed: Some(Grabbed(h as usize)),
                        ..pre.objects@[c]
                    })
            },
            c >= pre.objects@.len() ==> {
                &&& post.objects@.len() == pre.objects@.len() + 1
                &&& c == pre.objects@.len()
                &&& (forall|i: int|
                        0 <= i < pre.objects@.len() ==> post.objects@[i] == pre.objects@[i])
                &&& post.objects@[c].alive
                &&& !post.objects@[c].grabbable
                &&& post.objects@[c].grabbed == Some(Grabbed(h as usize))
            },
            h as usize as int == h,
        ensures
            post.wf(),
    {
        assert(pre.hand_ok(h));
        assert forall|i: int| post.hand_valid(i) implies #[trigger] post.hand_ok(i) by {
            assert(pre.hand_ok(i));
            if i != h && post.hands@[i].grabbing is Some {
                let ji = (post.hands@[i].grabbing->0).0 as int;
                assert(pre.joint_ok(ji));
            }
        }
        assert forall|ji: int| post.joint_valid(ji) implies #[trigger] post.joint_ok(ji) by {
            if ji < pre.joints@.len() {
                assert(pre.joint_ok(ji));
                let hi = pre.joints@[ji].hand as int;
                assert(pre.hand_ok(hi));
                let oi = pre.joints@[ji].object as int;
                assert(pre.object_ok(oi));
            }
        }
        assert forall|oi: int| post.object_valid(oi) implies #[trigger] post.object_ok(oi) by {
            if oi < pre.objects@.len() && oi != c {
                assert(pre.object_ok(oi));
                if pre.objects@[oi].grabbed is Some {
                    let hi = (pre.objects@[oi].grabbed->0).0 as int;
                    assert(pre.hand_ok(hi));
                    let jji = (pre.hands@[hi].grabbing->0).0 as int;
                    assert(pre.joint_ok(jji));
                }
            }
        }
    }

    /// Exact effect of a grab press resolved on a Holding hand `h`: the
    /// edge is logged into a running recording, the joint dies, the hand
    /// goes back to Idle, and the held object goes back to Free.
    pub open spec fn drop_transition(pre: World, post: World, h: usize) -> bool {
        let pre_hand = pre.hands@[h as int];
        let post_hand = post.hands@[h as int];
        let j = (pre_hand.grabbing->0).0 as int;
        let o = pre.joints@[j].object as int;
        &&& post.hands@.len() == pre.hands@.len()
        &&& (forall|i: int|
                0 <= i < pre.hands@.len() && i != h ==> post.hands@[i] == pre.hands@[i])
        &&& World::hand_same_core(pre_hand, post_hand)
        &&& World::logged_recording(pre_hand, post_hand)
        &&& post_hand.grabbing is None
        &&& post.joints@ == pre.joints@.update(j, (Joint { alive: false, ..pre.joints@[j] }))
        &&& post.objects@ == pre.objects@.update(
                o,
                (Object { grabbable: true, grabbed: None, ..pre.objects@[o] }),
            )
    }

    /// Holding half of the grab/drop state machine. On a grab-press edge of
    /// a Holding hand: log the edge into a running recording, then tear the
    /// attachment joint down — the hand re-enters Idle and the object goes
    /// back to Free.
    pub fn drop_held(&mut self, h: usize)
        requires
            old(self).wf(),
        ensures
            final(self).wf(),
            !(old(self).hand_valid(h as int) && old(self).hands@[h as int].signals.grab
                && old(self).hands@[h as int].grabbing is Some) ==> *final(self) == *old(self),
            (old(self).hand_valid(h as int) && old(self).hands@[h as int].signals.grab
                && old(self).hands@[h as int].grabbing is Some) ==> World::drop_transition(
                *old(self),
                *final(self),
                h,
            ),
    {
        if !(h < self.hands.len() && self.hands[h].alive) {
            return ;
        }
        if !self.hands[h].signals.just_pressed(HandActions::Grab) {
            return ;
        }
        let g = self.hands[h].grabbing;
        let j = match g {
            Some(Grabbing(j)) => j,
            None => { return ; },
        };
        proof {
            assert(old(self).hand_ok(h as int));
        }
        self.log_grab(h);
        self.sever_joint(j);
        proof {
            assert(final(self).hands@ =~= old(self).hands@.update(
                h as int,
                final(self).hands@[h as int],
            ));
        }
    }

    /// One step of the grab/drop state machine for one hand: a grab-press
    /// edge toggles between Idle and Holding, resolving a pickup from the
    /// sensor report when Idle and a release when Holding; without an edge
    /// nothing happens. A press never skips a state: Holding always drops,
    /// Idle picks up exactly when the report holds something pickable.
    pub fn hand_grab_step(&mut self, h: usize, overlapping: &Vec<usize>)
        requires
            old(self).wf(),
        ensures
            final(self).wf(),
            !(old(self).hand_valid(h as int) && old(self).hands@[h as int].signals.grab)
                ==> *final(self) == *old(self),
            (old(self).hand_valid(h as int) && old(self).hands@[h as int].signals.grab) ==> ({
                let pre_hand = old(self).hands@[h as int];
                &&& (pre_hand.grabbing is Some ==> {
                        &&& World::drop_transition(*old(self), *final(self), h)
                        &&& final(self).hands@[h as int].grabbing is None
                    })
                &&& (pre_hand.grabbing is None ==> {
                        &&& World::grab_transition(*old(self), *final(self), h, overlapping@)
                        &&& (final(self).hands@[h as int].grabbing is Some
                            <==> World::grab_candidate(old(self).objects@, overlapping@) is Some)
                    })
            }),
    {
        if h < self.hands.len() && self.hands[h].alive && self.hands[h].grabbing.is_some() {
            self.drop_held(h);
        } else {
            self.grab(h, overlapping);
        }
    }

    /// Steer the current hand's goal to the cursor, shifted down by the
    /// hand offset. Skipped when there is no cursor, when the hand is not
    /// the live one, or when the shift would leave the coordinate range.
    pub fn update_goal(&mut self, h: usize, cursor: Option<Pos>)
        requires
            old(self).wf(),
        ensures
            final(self).wf(),
            ({
                let applies = old(self).hand_valid(h as int)
                    && old(self).hands@[h as int].current
                    && cursor is Some
                    && (cursor->0).y + HAND_OFFSET >= i32::MIN;
                &&& applies ==> final(self).hands@ == old(self).hands@.update(
                        h as int,
                        (Hand {
                            goal: Goal(
                                Pos {
                                    x: (cursor->0).x,
                                    y: ((cursor->0).y + HAND_OFFSET) as i32,
                                },
                            ),
                            ..old(self).hands@[h as int]
                        }),
                    )
                &&& !applies ==> *final(self) == *old(self)
            }),
            final(self).objects@ == old(self).objects@,
            final(self).joints@ == old(self).joints@,
    {
        if h < self.hands.len() && self.hands[h].alive && self.hands[h].current {
            if let Some(c) = cursor {
                if c.y >= i32::MIN - HAND_OFFSET {
                    self.hands[h].goal = Goal(Pos { x: c.x, y: c.y + HAND_OFFSET });
                    proof {
                        World::lemma_wf_hand_update(*old(self), *self, h as int);
                    }
                }
            }
        }
    }
}

} // verus!
