//! Capture of a hand's trajectory and grab edges over a fixed window, and
//! the tape that replays such a capture forever on a ghost hand.

use vstd::prelude::*;

use crate::Pos;
use crate::RECORDING_WINDOW_MS;
use crate::hand::Goal;
use crate::hand::Hand;
use crate::hand::Signals;
use crate::timer::Timer;
use crate::world::World;

verus! {

/// A capture in progress on a hand: a one-shot timer over the recording
/// window, the goal samples taken so far, and the grab-edge timestamps.
#[derive(Clone, Debug)]
pub struct Recording {
    pub timer: Timer,
    /// `(elapsed, goal)` pairs, one per fixed step, in capture order.
    pub record: Vec<(u64, Pos)>,
    /// Elapsed times of the grab-press edges seen while recording.
    pub grabs: Vec<u64>,
}

impl Recording {
    /// Timestamps never run past the window and never decrease, and the
    /// clock never runs past what has been sampled.
    pub open spec fn wf(self) -> bool {
        &&& self.timer.wf()
        &&& !self.timer.repeating
        &&& forall|i: int| 0 <= i < self.record@.len() ==> (#[trigger] self.record@[i]).0 <= self.timer.elapsed
        &&& forall|i: int, j: int|
                0 <= i <= j < self.record@.len() ==> (#[trigger] self.record@[i]).0 <= (#[trigger] self.record@[j]).0
        &&& forall|i: int| 0 <= i < self.grabs@.len() ==> #[trigger] self.grabs@[i] <= self.timer.elapsed
        &&& forall|i: int, j: int|
                0 <= i <= j < self.grabs@.len() ==> #[trigger] self.grabs@[i] <= #[trigger] self.grabs@[j]
    }
}

/// The replay tape of a ghost hand: the captured sequences, a repeating
/// timer over the same window, and cursors marking how much of the current
/// loop iteration has already been consumed. The suffixes from the cursors
/// on are the working queues; resetting a cursor to the start refills its
/// queue from the template.
#[derive(Clone, Debug)]
pub struct Playback {
    pub timer: Timer,
    /// Template of `(timestamp, goal)` samples, in chronological order.
    pub record: Vec<(u64, Pos)>,
    /// Template of grab-edge timestamps, in chronological order.
    pub grabs: Vec<u64>,
    /// First sample of the current loop not yet replayed.
    pub next_sample: usize,
    /// First grab edge of the current loop not yet synthesized.
    pub next_grab: usize,
}

impl Playback {
    pub open spec fn wf(self) -> bool {
        &&& self.timer.wf()
        &&& self.timer.repeating
        &&& self.next_sample <= self.record@.len()
        &&& self.next_grab <= self.grabs@.len()
        &&& forall|i: int| 0 <= i < self.record@.len() ==> (#[trigger] self.record@[i]).0 <= self.timer.duration
        &&& forall|i: int, j: int|
                0 <= i <= j < self.record@.len() ==> (#[trigger] self.record@[i]).0 <= (#[trigger] self.record@[j]).0
        &&& forall|i: int| 0 <= i < self.grabs@.len() ==> #[trigger] self.grabs@[i] <= self.timer.duration
        &&& forall|i: int, j: int|
                0 <= i <= j < self.grabs@.len() ==> #[trigger] self.grabs@[i] <= #[trigger] self.grabs@[j]
    }

    /// The samples still due in the current loop iteration.
    pub open spec fn working_record(self) -> Seq<(u64, Pos)> {
        self.record@.skip(self.next_sample as int)
    }

    /// The grab timestamps still due in the current loop iteration.
    pub open spec fn working_grabs(self) -> Seq<u64> {
        self.grabs@.skip(self.next_grab as int)
    }
}

impl World {
    /// On a Record-press edge of the current hand, attach a fresh Recording
    /// with empty sequences and a zeroed clock over the fixed window. A
    /// press while already capturing restarts the capture.
    pub fn record(&mut self, h: usize)
        requires
            old(self).wf(),
        ensures
            final(self).wf(),
            !(old(self).hand_valid(h as int) && old(self).hands@[h as int].current && old(
                self,
            ).hands@[h as int].signals.record) ==> *final(self) == *old(self),
            (old(self).hand_valid(h as int) && old(self).hands@[h as int].current && old(
                self,
            ).hands@[h as int].signals.record) ==> ({
                let pre_hand = old(self).hands@[h as int];
                let post_hand = final(self).hands@[h as int];
                &&& final(self).hands@.len() == old(self).hands@.len()
                &&& (forall|i: int|
                        0 <= i < old(self).hands@.len() && i != h ==> final(self).hands@[i]
                            == old(self).hands@[i])
                &&& World::hand_same_core(pre_hand, post_hand)
                &&& post_hand.grabbing == pre_hand.grabbing
                &&& post_hand.recording is Some
                &&& (post_hand.recording->0).timer == (Timer {
                        duration: RECORDING_WINDOW_MS,
                        elapsed: 0,
                        repeating: false,
                    })
                &&& (post_hand.recording->0).record@ == Seq::<(u64, Pos)>::empty()
                &&& (post_hand.recording->0).grabs@ == Seq::<u64>::empty()
                &&& final(self).objects@ == old(self).objects@
                &&& final(self).joints@ == old(self).joints@
            }),
    {
        if !(h < self.hands.len() && self.hands[h].alive) {
            return ;
        }
        if !(self.hands[h].current && self.hands[h].signals.record) {
            return ;
        }
        let fresh = Recording {
            timer: Timer::new(RECORDING_WINDOW_MS, false),
            record: Vec::new(),
            grabs: Vec::new(),
        };
        self.hands[h].recording = Some(fresh);
        proof {
            assert(old(self).hand_ok(h as int));
            World::lemma_wf_hand_update(*old(self), *self, h as int);
        }
    }

    /// One fixed step of an active capture: advance the window clock by
    /// `delta` (clamping at the window), append the hand's current goal
    /// under the new elapsed time — also on the terminal step — and, once
    /// the window has elapsed, finalize: the Recording leaves the hand and
    /// a ghost hand is spawned whose Playback starts the frozen tape from
    /// the top.
    pub fn recording(&mut self, h: usize, delta: u64)
        requires
            old(self).wf(),
        ensures
            final(self).wf(),
            !(old(self).hand_valid(h as int) && old(self).hands@[h as int].recording is Some)
                ==> *final(self) == *old(self),
            (old(self).hand_valid(h as int) && old(self).hands@[h as int].recording is Some)
                ==> ({
                let pre_hand = old(self).hands@[h as int];
                let post_hand = final(self).hands@[h as int];
                let rec = pre_hand.recording->0;
                let completed = rec.timer.elapsed + delta >= rec.timer.duration;
                let e = vstd::math::min(
                    (rec.timer.elapsed + delta) as int,
                    rec.timer.duration as int,
                );
                let sample = (e as u64, pre_hand.goal.0);
                &&& final(self).objects@ == old(self).objects@
                &&& final(self).joints@ == old(self).joints@
                &&& (forall|i: int|
                        0 <= i < old(self).hands@.len() && i != h ==> final(self).hands@[i]
                            == old(self).hands@[i])
                &&& World::hand_same_core(pre_hand, post_hand)
                &&& post_hand.grabbing == pre_hand.grabbing
                &&& (!completed ==> {
                        &&& final(self).hands@.len() == old(self).hands@.len()
                        &&& post_hand.recording is Some
                        &&& (post_hand.recording->0).timer == (Timer {
                                elapsed: e as u64,
                                ..rec.timer
                            })
                        &&& (post_hand.recording->0).record@ == rec.record@.push(sample)
                        &&& (post_hand.recording->0).grabs@ == rec.grabs@
                    })
                &&& (completed ==> {
                        &&& final(self).hands@.len() == old(self).hands@.len() + 1
                        &&& post_hand.recording is None
                        &&& final(self).hands@.last().playback is Some
                        &&& (final(self).hands@.last().playback->0).timer == (Timer {
                                duration: rec.timer.duration,
                                elapsed: 0,
                                repeating: true,
                            })
                        &&& (final(self).hands@.last().playback->0).record@ == rec.record@.push(
                                sample,
                            )
                        &&& (final(self).hands@.last().playback->0).grabs@ == rec.grabs@
                        &&& (final(self).hands@.last().playback->0).next_sample == 0
                        &&& (final(self).hands@.last().playback->0).next_grab == 0
                        &&& final(self).hands@.last() == (Hand {
                                playback: final(self).hands@.last().playback,
                                ..Hand::fresh_spec()
                            })
                    })
            }),
    {
        if !(h < self.hands.len() && self.hands[h].alive) {
            return ;
        }
        if self.hands[h].recording.is_none() {
            return ;
        }
        let taken = self.hands[h].recording.take();
        let mut rec = match taken {
            Some(rec) => rec,
            None => { return ; },
        };
        proof {
            assert(old(self).hand_ok(h as int));
        }
        let completed = rec.timer.tick(delta);
        let e = rec.timer.elapsed;
        let g = self.hands[h].goal.0;
        rec.record.push((e, g));
        proof {
            let newrec = rec;
            assert forall|i: int, j: int|
                0 <= i <= j < newrec.record@.len() implies (#[trigger] newrec.record@[i]).0
                    <= (#[trigger] newrec.record@[j]).0 by {
                let oldrec = old(self).hands@[h as int].recording->0;
                if j < oldrec.record@.len() {
                    assert(oldrec.record@[i].0 <= oldrec.record@[j].0);
                } else if i < oldrec.record@.len() {
                    assert(oldrec.record@[i].0 <= oldrec.timer.elapsed);
                }
            }
        }
        if !completed {
            self.hands[h].recording = Some(rec);
            proof {
                World::lemma_wf_hand_update(*old(self), *self, h as int);
            }
        } else {
            let pb = Playback {
                timer: Timer::new(rec.timer.duration, true),
                record: rec.record,
                grabs: rec.grabs,
                next_sample: 0,
                next_grab: 0,
            };
            let mut ghost_hand = Hand::fresh();
            ghost_hand.playback = Some(pb);
            self.hands.push(ghost_hand);
            proof {
                let pre = *old(self);
                assert forall|i: int| self.hand_valid(i) implies #[trigger] self.hand_ok(i) by {
                    if i < pre.hands@.len() {
                        assert(pre.hand_ok(i));
                    }
                }
                assert forall|j: int| self.joint_valid(j) implies #[trigger] self.joint_ok(j) by {
                    assert(pre.joint_ok(j));
                    let hi = pre.joints@[j].hand as int;
                    assert(pre.hand_ok(hi));
                }
                assert forall|o: int| self.object_valid(o) implies #[trigger] self.object_ok(o) by {
                    assert(pre.object_ok(o));
                    if self.objects@[o].grabbed is Some {
                        let hi = (self.objects@[o].grabbed->0).0 as int;
                        assert(pre.hand_ok(hi));
                    }
                }
            }
        }
    }

    /// The first index at or after `from` whose timestamp is past `due`, or
    /// the sequence's length when every remaining timestamp is due.
    pub open spec fn first_not_due(samples: Seq<(u64, Pos)>, from: int, due: int) -> int
        decreases samples.len() - from,
    {
        if from < 0 || from >= samples.len() {
            samples.len() as int
        } else if samples[from].0 <= due {
            World::first_not_due(samples, from + 1, due)
        } else {
            from
        }
    }

    /// One step of a ghost hand's replay, by `delta` milliseconds. The
    /// repeating loop timer advances; every working sample that has come
    /// due is consumed, leaving the goal at the most recently due one; the
    /// synthetic Grab signal is cleared and then pulsed exactly when the
    /// next working grab timestamp has come due, which the state machine
    /// sees as a live press edge. When the step completes a full loop, both
    /// working queues are refilled from the templates after the last due
    /// entries of the old loop have been consumed, so the tape repeats
    /// identically forever.
    pub fn playback(&mut self, h: usize, delta: u64)
        requires
            old(self).wf(),
        ensures
            final(self).wf(),
            !(old(self).hand_valid(h as int) && old(self).hands@[h as int].playback is Some)
                ==> *final(self) == *old(self),
            (old(self).hand_valid(h as int) && old(self).hands@[h as int].playback is Some)
                ==> ({
                let pre_hand = old(self).hands@[h as int];
                let post_hand = final(self).hands@[h as int];
                let pb = pre_hand.playback->0;
                let completed = pb.timer.elapsed + delta >= pb.timer.duration;
                let due = if completed {
                    pb.timer.duration as int
                } else {
                    pb.timer.elapsed + delta
                };
                let k = World::first_not_due(pb.record@, pb.next_sample as int, due);
                let pressed = pb.next_grab < pb.grabs@.len() && pb.grabs@[pb.next_grab as int]
                    <= due;
                &&& final(self).objects@ == old(self).objects@
                &&& final(self).joints@ == old(self).joints@
                &&& final(self).hands@.len() == old(self).hands@.len()
                &&& (forall|i: int|
                        0 <= i < old(self).hands@.len() && i != h ==> final(self).hands@[i]
                            == old(self).hands@[i])
                &&& post_hand.alive == pre_hand.alive
                &&& post_hand.current == pre_hand.current
                &&& post_hand.pos == pre_hand.pos
                &&& post_hand.vel == pre_hand.vel
                &&& post_hand.grabbing == pre_hand.grabbing
                &&& post_hand.recording == pre_hand.recording
                &&& post_hand.goal == (if k > pb.next_sample {
                        Goal(pb.record@[k - 1].1)
                    } else {
                        pre_hand.goal
                    })
                &&& post_hand.signals == (Signals { grab: pressed, ..pre_hand.signals })
                &&& post_hand.playback is Some
                &&& (post_hand.playback->0).record@ == pb.record@
                &&& (post_hand.playback->0).grabs@ == pb.grabs@
                &&& (post_hand.playback->0).timer == (Timer {
                        elapsed: (((pb.timer.elapsed + delta) as int % pb.timer.duration as int)) as u64,
                        ..pb.timer
                    })
                &&& (post_hand.playback->0).next_sample == (if completed {
                        0int
                    } else {
                        k
                    })
                &&& (post_hand.playback->0).next_grab == (if completed {
                        0int
                    } else {
                        pb.next_grab + (if pressed {
                            1int
                        } else {
                            0int
                        })
                    })
            }),
    {
        if !(h < self.hands.len() && self.hands[h].alive) {
            return ;
        }
        if self.hands[h].playback.is_none() {
            return ;
        }
        let taken = self.hands[h].playback.take();
        let mut pb = match taken {
            Some(pb) => pb,
            None => { return ; },
        };
        proof {
            assert(old(self).hand_ok(h as int));
        }
        let completed = pb.timer.tick(delta);
        proof {
            let pre_timer = old(self).hands@[h as int].playback->0.timer;
            if !completed {
                vstd::arithmetic::div_mod::lemma_small_mod(
                    (pre_timer.elapsed + delta) as nat,
                    pre_timer.duration as nat,
                );
            }
        }
        let due = if completed {
            pb.timer.duration
        } else {
            pb.timer.elapsed
        };

        let ghost pb0 = old(self).hands@[h as int].playback->0;
        let ghost from0 = pb0.next_sample as int;
        let ghost k = World::first_not_due(pb0.record@, from0, due as int);
        let ghost ticked = pb;

        let mut goal_update: Option<Pos> = None;
        while pb.next_sample < pb.record.len() && pb.record[pb.next_sample].0 <= due
            invariant
                pb.record@ == pb0.record@,
                pb.timer == ticked.timer,
                pb.grabs@ == ticked.grabs@,
                pb.next_grab == ticked.next_grab,
                from0 <= pb.next_sample <= pb.record@.len(),
                k == World::first_not_due(pb0.record@, pb.next_sample as int, due as int),
                pb.next_sample as int > from0 ==> goal_update == Some(
                    pb.record@[pb.next_sample as int - 1].1,
                ),
                pb.next_sample as int == from0 ==> goal_update is None,
            decreases pb.record@.len() - pb.next_sample,
        {
            goal_update = Some(pb.record[pb.next_sample].1);
            pb.next_sample = pb.next_sample + 1;
        }
        proof {
            assert(pb.next_sample as int == k);
        }

        let pressed = pb.next_grab < pb.grabs.len() && pb.grabs[pb.next_grab] <= due;
        if pressed {
            pb.next_grab = pb.next_grab + 1;
        }

        if completed {
            pb.next_sample = 0;
            pb.next_grab = 0;
        }

        if let Some(g) = goal_update {
            self.hands[h].goal = Goal(g);
        }
        self.hands[h].signals.grab = pressed;
        self.hands[h].playback = Some(pb);
        proof {
            World::lemma_wf_hand_update(*old(self), *self, h as int);
        }
    }
}

/// The shape a capture has after any number of fixed steps of length
/// `step`: the i-th sample was taken at the i-th step's clock reading,
/// clamped at the window, and the clock stands at the last reading.
pub open spec fn driven_by(rec: Recording, step: u64) -> bool {
    let dur = rec.timer.duration as int;
    &&& forall|i: int|
            0 <= i < rec.record@.len() ==> (#[trigger] rec.record@[i]).0 == vstd::math::min(
                (i + 1) * step,
                dur,
            )
    &&& rec.timer.elapsed == vstd::math::min(rec.record@.len() * step, dur)
}

/// One fixed step of the recorder keeps a capture in step shape: this is
/// the induction step behind `lemma_recording_sample_count`, matching
/// exactly what `World::recording` guarantees for a live capture.
pub proof fn lemma_driven_step(pre: Recording, post: Recording, step: u64)
    requires
        driven_by(pre, step),
        pre.timer.elapsed < pre.timer.duration,
        post.timer.duration == pre.timer.duration,
        post.timer.elapsed == vstd::math::min(
            (pre.timer.elapsed + step) as int,
            pre.timer.duration as int,
        ),
        post.record@.len() == pre.record@.len() + 1,
        forall|i: int| 0 <= i < pre.record@.len() ==> post.record@[i] == pre.record@[i],
        (post.record@.last()).0 == post.timer.elapsed,
    ensures
        driven_by(post, step),
{
    let n = pre.record@.len() as int;
    let dur = pre.timer.duration as int;
    assert(pre.timer.elapsed == vstd::math::min(n * step, dur));
    assert(n * step < dur || n == 0 && dur == 0) by {
        if n * step >= dur {
            assert(pre.timer.elapsed == dur);
        }
    }
    assert((n + 1) * step == n * step + step) by (nonlinear_arith);
    assert forall|i: int| 0 <= i < post.record@.len() implies (#[trigger] post.record@[i]).0
        == vstd::math::min((i + 1) * step, dur) by {
        if i < n {
            assert(pre.record@[i].0 == vstd::math::min((i + 1) * step, dur));
        }
    }
}

/// The recorder's sample-count law: a capture over window `duration`,
/// advanced by a fixed step until the window has just elapsed, holds
/// exactly ceil(window / step) samples, and their timestamps never
/// decrease.
pub proof fn lemma_recording_sample_count(rec: Recording, step: u64)
    requires
        step >= 1,
        rec.timer.duration >= 1,
        driven_by(rec, step),
        rec.timer.elapsed >= rec.timer.duration,
        (rec.record@.len() - 1) * step < rec.timer.duration,
    ensures
        rec.record@.len() == (rec.timer.duration + step - 1) / (step as int),
        forall|i: int, j: int|
            0 <= i <= j < rec.record@.len() ==> (#[trigger] rec.record@[i]).0
                <= (#[trigger] rec.record@[j]).0,
{
    let n = rec.record@.len() as int;
    let dur = rec.timer.duration as int;
    let s = step as int;
    assert(rec.timer.elapsed == vstd::math::min(n * s, dur));
    assert(n * s >= dur);
    assert(n >= 1) by {
        if n == 0 {
            assert(n * s == 0) by (nonlinear_arith)
                requires n == 0;
        }
    }
    let r = dur + s - 1 - n * s;
    assert(0 <= r < s) by {
        assert((n - 1) * s == n * s - s) by (nonlinear_arith);
    }
    vstd::arithmetic::div_mod::lemma_fundamental_div_mod_converse(dur + s - 1, s, n, r);
    assert forall|i: int, j: int|
        0 <= i <= j < rec.record@.len() implies (#[trigger] rec.record@[i]).0
            <= (#[trigger] rec.record@[j]).0 by {
        assert(rec.record@[i].0 == vstd::math::min((i + 1) * s, dur));
        assert(rec.record@[j].0 == vstd::math::min((j + 1) * s, dur));
        assert((i + 1) * s <= (j + 1) * s) by (nonlinear_arith)
            requires i <= j && s >= 1;
    }
}

/// A replay stepped exactly like its capture reproduces it: when the tape
/// was taken once per fixed step and the replay stands at the top of its
/// (k+1)-th step of a loop — k samples consumed, the loop clock at k
/// steps — then this step consumes exactly the (k+1)-th sample, and it
/// completes the loop precisely on the tape's last sample. Together with
/// `World::playback`'s contract (the goal lands on the last consumed
/// sample, the cursor and clock advance by one step or wrap), the ghost
/// hand's goals replay the captured goals step for step, loop after loop.
pub proof fn lemma_replay_reproduces_capture(pb: Playback, step: u64, k: int)
    requires
        pb.wf(),
        step >= 1,
        pb.record@.len() >= 1,
        forall|i: int|
            0 <= i < pb.record@.len() ==> (#[trigger] pb.record@[i]).0 == vstd::math::min(
                (i + 1) * step,
                pb.timer.duration as int,
            ),
        pb.record@.len() * step >= pb.timer.duration,
        (pb.record@.len() - 1) * step < pb.timer.duration,
        0 <= k < pb.record@.len(),
        pb.next_sample == k,
        pb.timer.elapsed == k * step,
    ensures
        pb.timer.elapsed + step >= pb.timer.duration <==> k == pb.record@.len() - 1,
        k < pb.record@.len() - 1 ==> World::first_not_due(
            pb.record@,
            k,
            pb.timer.elapsed + step,
        ) == k + 1,
        k == pb.record@.len() - 1 ==> World::first_not_due(
            pb.record@,
            k,
            pb.timer.duration as int,
        ) == pb.record@.len(),
{
    let n = pb.record@.len() as int;
    let dur = pb.timer.duration as int;
    let s = step as int;
    assert((k + 1) * s == k * s + s) by (nonlinear_arith);
    if k < n - 1 {
        assert((k + 1) * s <= (n - 1) * s) by (nonlinear_arith)
            requires k + 1 <= n - 1 && s >= 1;
        let due = k * s + s;
        assert(pb.record@[k].0 == vstd::math::min((k + 1) * s, dur));
        assert(pb.record@[k].0 <= due);
        assert((k + 2) * s == (k + 1) * s + s) by (nonlinear_arith);
        assert(pb.record@[k + 1].0 == vstd::math::min((k + 2) * s, dur));
        assert(pb.record@[k + 1].0 > due);
        assert(World::first_not_due(pb.record@, k + 1, due) == k + 1);
    } else {
        assert((n - 1) * s + s == n * s) by (nonlinear_arith);
        lemma_first_not_due_drains(pb.record@, k, dur);
    }
}

/// Every remaining timestamp at or after `from` is due by `due`, so the
/// replay's draining loop runs to the end of the template.
proof fn lemma_first_not_due_drains(samples: Seq<(u64, Pos)>, from: int, due: int)
    requires
        0 <= from <= samples.len(),
        forall|i: int| 0 <= i < samples.len() ==> (#[trigger] samples[i]).0 <= due,
    ensures
        World::first_not_due(samples, from, due) == samples.len(),
    decreases samples.len() - from,
{
    if from < samples.len() {
        lemma_first_not_due_drains(samples, from + 1, due);
    }
}

/// Grab synthesis keeps pace with the tape: when the recorded grab edges
/// are at least one step apart — which a capture at the same fixed step
/// guarantees, one edge per step — and every already-due edge has been
/// consumed, then a step that does not complete the loop finds at most the
/// one next edge due, and a step that completes it finds at most one edge
/// still pending. The latter is exactly what
/// `lemma_playback_queues_empty_at_wrap` needs.
pub proof fn lemma_grab_queue_keeps_pace(pb: Playback, delta: u64)
    requires
        pb.wf(),
        delta >= 1,
        forall|i: int|
            0 <= i && i + 1 < pb.grabs@.len() ==> #[trigger] pb.grabs@[i] + delta <= pb.grabs@[i
                + 1],
        pb.next_grab < pb.grabs@.len() ==> pb.grabs@[pb.next_grab as int] > pb.timer.elapsed,
    ensures
        pb.timer.elapsed + delta >= pb.timer.duration ==> pb.working_grabs().len() <= 1,
        pb.timer.elapsed + delta < pb.timer.duration && pb.next_grab + 1 < pb.grabs@.len()
            ==> pb.grabs@[pb.next_grab as int + 1] > pb.timer.elapsed + delta,
{
    if pb.next_grab + 1 < pb.grabs@.len() {
        assert(pb.grabs@[pb.next_grab as int] + delta <= pb.grabs@[pb.next_grab as int + 1]);
        assert(pb.grabs@[pb.next_grab as int + 1] <= pb.timer.duration);
    }
}

/// The replay's loop invariant: on a step that completes a full loop, every
/// working sample is due (the position queue drains to empty), and when at
/// most one grab remains — the case whenever the replay is stepped at least
/// as finely as the capture, see `lemma_grab_queue_keeps_pace` — the grab
/// queue drains too. `World::playback`'s contract then resets both cursors
/// in that same step, re-populating both working queues to full template
/// length.
pub proof fn lemma_playback_queues_empty_at_wrap(pb: Playback, delta: u64)
    requires
        pb.wf(),
        pb.timer.elapsed + delta >= pb.timer.duration,
        pb.working_grabs().len() <= 1,
    ensures
        World::first_not_due(pb.record@, pb.next_sample as int, pb.timer.duration as int)
            == pb.record@.len(),
        pb.next_grab as int + (if pb.next_grab < pb.grabs@.len() {
            1int
        } else {
            0int
        }) == pb.grabs@.len(),
        pb.next_grab < pb.grabs@.len() ==> pb.grabs@[pb.next_grab as int]
            <= pb.timer.duration,
{
    lemma_first_not_due_drains(pb.record@, pb.next_sample as int, pb.timer.duration as int);
}

} // verus!
