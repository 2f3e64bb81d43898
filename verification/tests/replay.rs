//! Recording and playback through the public surface: the sample-count
//! law on concrete numbers, and the full record-then-loop scenario.

use ghost_hand::Pos;
use ghost_hand::RECORDING_WINDOW_MS;
use ghost_hand::Signals;
use ghost_hand::register;

fn press(grab: bool, record: bool) -> Signals {
    Signals { grab, record, reload: false }
}

/// Point the current hand's goal at `(x, y)` by simulating the cursor; the
/// goal sits one hand offset below the cursor.
fn aim(g: &mut ghost_hand::Game, h: usize, x: i32, y: i32) {
    g.world.update_goal(h, Some(Pos { x, y: y + 200 }));
    assert_eq!(g.world.hands[h].goal.0, Pos { x, y });
}

#[test]
fn recording_samples_once_per_step_and_finalizes() {
    let mut g = register();
    let h = g.world.spawn_hand();

    g.world.set_signals(h, press(false, true));
    g.world.record(h);
    assert!(g.world.hands[h].recording.is_some());

    // window 3000 ms, step 1000 ms: exactly ceil(3000 / 1000) = 3 samples.
    let step = 1000;
    g.world.recording(h, step);
    g.world.recording(h, step);
    assert!(g.world.hands[h].recording.is_some());
    let rec = g.world.hands[h].recording.as_ref().unwrap();
    assert_eq!(rec.record.len(), 2);
    assert_eq!(rec.record[0].0, 1000);
    assert_eq!(rec.record[1].0, 2000);

    let hands_before = g.world.hands.len();
    g.world.recording(h, step);
    // Finalized: the Recording is gone and a ghost hand appeared.
    assert!(g.world.hands[h].recording.is_none());
    assert_eq!(g.world.hands.len(), hands_before + 1);
    let playback = g.world.hands[hands_before].playback.as_ref().unwrap();
    assert_eq!(playback.record.len(), 3);
    let stamps: Vec<u64> = playback.record.iter().map(|s| s.0).collect();
    assert_eq!(stamps, vec![1000, 2000, 3000]);
    assert!(stamps.windows(2).all(|w| w[0] <= w[1]));
}

#[test]
fn uneven_step_rounds_up_and_clamps_to_window() {
    let mut g = register();
    let h = g.world.spawn_hand();
    g.world.set_signals(h, press(false, true));
    g.world.record(h);

    // window 3000 ms, step 800 ms: ceil(3000 / 800) = 4 samples, the last
    // clamped at the window.
    for _ in 0..3 {
        g.world.recording(h, 800);
        assert!(g.world.hands[h].recording.is_some());
    }
    g.world.recording(h, 800);
    assert!(g.world.hands[h].recording.is_none());
    let playback = g.world.hands[1].playback.as_ref().unwrap();
    let stamps: Vec<u64> = playback.record.iter().map(|s| s.0).collect();
    assert_eq!(stamps, vec![800, 1600, 2400, RECORDING_WINDOW_MS]);
}

#[test]
fn record_press_restarts_a_running_capture() {
    let mut g = register();
    let h = g.world.spawn_hand();
    g.world.set_signals(h, press(false, true));
    g.world.record(h);
    g.world.recording(h, 1000);
    assert_eq!(g.world.hands[h].recording.as_ref().unwrap().record.len(), 1);

    g.world.record(h);
    let rec = g.world.hands[h].recording.as_ref().unwrap();
    assert_eq!(rec.record.len(), 0);
    assert_eq!(rec.timer.elapsed, 0);
}

#[test]
fn record_needs_the_current_hand_and_the_edge() {
    let mut g = register();
    let h = g.world.spawn_hand();

    // No Record edge: no capture starts.
    g.world.set_signals(h, press(true, false));
    g.world.record(h);
    assert!(g.world.hands[h].recording.is_none());

    // A ghost hand never records: spawn one via a full capture, then try.
    g.world.set_signals(h, press(false, true));
    g.world.record(h);
    for _ in 0..3 {
        g.world.recording(h, 1000);
    }
    let ghost = 1;
    g.world.set_signals(ghost, press(false, true));
    g.world.record(ghost);
    assert!(g.world.hands[ghost].recording.is_none());
}

#[test]
fn three_second_tape_replays_identically_forever() {
    let mut g = register();
    let h = g.world.spawn_hand();

    // Record: goals (5,5) at t=1, (10,10) at t=2, (15,15) at t=3, and one
    // grab edge at t=2.
    g.world.set_signals(h, press(false, true));
    g.world.record(h);

    aim(&mut g, h, 5, 5);
    g.world.recording(h, 1000);

    aim(&mut g, h, 10, 10);
    g.world.recording(h, 1000);
    // The grab edge lands while the capture clock reads 2000 ms; the empty
    // report makes it a pure toggle log.
    g.world.set_signals(h, press(true, false));
    g.world.hand_grab_step(h, &vec![]);
    assert_eq!(g.world.hands[h].recording.as_ref().unwrap().grabs, vec![2000]);

    aim(&mut g, h, 15, 15);
    g.world.recording(h, 1000);
    assert!(g.world.hands[h].recording.is_none());

    let ghost = 1;
    let playback = g.world.hands[ghost].playback.as_ref().unwrap();
    assert_eq!(playback.grabs, vec![2000]);
    assert_eq!(playback.record.len(), 3);

    // Two full loops replay the same goals and the same one-step grab
    // pulse at the same times.
    for loop_round in 0..2 {
        g.world.playback(ghost, 1000);
        assert_eq!(g.world.hands[ghost].goal.0, Pos { x: 5, y: 5 }, "round {loop_round}");
        assert!(!g.world.hands[ghost].signals.grab);

        g.world.playback(ghost, 1000);
        assert_eq!(g.world.hands[ghost].goal.0, Pos { x: 10, y: 10 });
        assert!(g.world.hands[ghost].signals.grab);

        g.world.playback(ghost, 1000);
        assert_eq!(g.world.hands[ghost].goal.0, Pos { x: 15, y: 15 });
        // The pulse lasted one step only.
        assert!(!g.world.hands[ghost].signals.grab);

        // The loop wrapped: both working queues stand refilled at the top
        // of the templates and the loop clock is back at zero.
        let playback = g.world.hands[ghost].playback.as_ref().unwrap();
        assert_eq!(playback.next_sample, 0);
        assert_eq!(playback.next_grab, 0);
        assert_eq!(playback.timer.elapsed, 0);
    }
}

#[test]
fn pickup_and_drop_edges_are_captured_alike() {
    let mut g = register();
    let h = g.world.spawn_hand();
    let ball = ghost_hand::LoadObject {
        texture_name: Some(7),
        position: Pos { x: 0, y: 0 },
        collector: None,
        body_static: false,
        grabbable: true,
        collider_info: None,
        grab: None,
        sensor: false,
        anchored: false,
    };
    g.world.load_level(&vec![ball]);

    g.world.set_signals(h, press(false, true));
    g.world.record(h);
    g.world.recording(h, 1000);

    // A pickup edge at t=1 and a drop edge at t=2: both land in the grab
    // sequence as indistinguishable toggle events.
    g.world.set_signals(h, press(true, false));
    g.world.hand_grab_step(h, &vec![1]);
    assert!(g.world.hands[h].grabbing.is_some());

    g.world.recording(h, 1000);
    g.world.set_signals(h, press(true, false));
    g.world.hand_grab_step(h, &vec![1]);
    assert!(g.world.hands[h].grabbing.is_none());

    let rec = g.world.hands[h].recording.as_ref().unwrap();
    assert_eq!(rec.grabs, vec![1000, 2000]);
}

#[test]
fn playback_on_a_hand_without_a_tape_is_a_no_op() {
    let mut g = register();
    let h = g.world.spawn_hand();
    aim(&mut g, h, 42, 43);
    g.world.playback(h, 1000);
    assert_eq!(g.world.hands[h].goal.0, Pos { x: 42, y: 43 });
}

#[test]
fn coarse_playback_steps_pop_every_due_sample() {
    let mut g = register();
    let h = g.world.spawn_hand();
    g.world.set_signals(h, press(false, true));
    g.world.record(h);
    aim(&mut g, h, 5, 5);
    g.world.recording(h, 1000);
    aim(&mut g, h, 10, 10);
    g.world.recording(h, 1000);
    aim(&mut g, h, 15, 15);
    g.world.recording(h, 1000);

    // One coarse 2500 ms step: both the t=1000 and t=2000 samples are due;
    // the goal lands on the most recent one.
    let ghost = 1;
    g.world.playback(ghost, 2500);
    assert_eq!(g.world.hands[ghost].goal.0, Pos { x: 10, y: 10 });
    let playback = g.world.hands[ghost].playback.as_ref().unwrap();
    assert_eq!(playback.next_sample, 2);
}
