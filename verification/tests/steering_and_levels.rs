//! Motion controller, cursor steering, level loading and the submit
//! gesture, plus the reset countdown.

use ghost_hand::CurrentLevel;
use ghost_hand::Deliveries;
use ghost_hand::LoadLevel;
use ghost_hand::LoadObject;
use ghost_hand::Pos;
use ghost_hand::ShapeKind;
use ghost_hand::Signals;
use ghost_hand::Vel;
use ghost_hand::load_event;
use ghost_hand::register;
use ghost_hand::reload_level;
use ghost_hand::setup_text;
use ghost_hand::submitting;
use ghost_hand::update_reset;

fn descriptor(texture: Option<u64>, x: i32, y: i32) -> LoadObject {
    LoadObject {
        texture_name: texture,
        position: Pos { x, y },
        collector: None,
        body_static: false,
        grabbable: false,
        collider_info: None,
        grab: None,
        sensor: false,
        anchored: false,
    }
}

#[test]
fn spawn_hand_makes_the_one_current_hand() {
    let mut w = ghost_hand::setup();
    assert!(!w.has_current_hand());
    let h = w.spawn_hand();
    assert!(w.has_current_hand());
    assert!(w.hands[h].alive);
    assert!(w.hands[h].current);
    assert!(w.hands[h].grabbing.is_none());
    assert_eq!(w.hands[h].goal.0, Pos { x: 0, y: 0 });

    let fresh = ghost_hand::Hand::default();
    assert!(fresh.alive);
    assert!(!fresh.current);
    assert_eq!(fresh.goal.0, Pos { x: 0, y: 0 });
    assert!(!fresh.signals.grab);
}

#[test]
fn controller_velocity_is_error_times_gain() {
    let mut g = register();
    let h = g.world.spawn_hand();
    g.world.set_hand_pos(h, Pos { x: 2, y: -3 });
    g.world.update_goal(h, Some(Pos { x: 10, y: 220 }));
    // Goal = cursor shifted down by the 200-unit hand offset.
    assert_eq!(g.world.hands[h].goal.0, Pos { x: 10, y: 20 });

    g.world.move_hand(h);
    // velocity = (goal - position) * 5, per axis.
    assert_eq!(g.world.hands[h].vel, Vel { x: (10 - 2) * 5, y: (20 - -3) * 5 });

    // At the goal the controller commands zero velocity: a stable rest.
    g.world.set_hand_pos(h, Pos { x: 10, y: 20 });
    g.world.move_hand(h);
    assert_eq!(g.world.hands[h].vel, Vel { x: 0, y: 0 });
}

#[test]
fn cursor_gone_leaves_the_goal_alone() {
    let mut g = register();
    let h = g.world.spawn_hand();
    g.world.update_goal(h, Some(Pos { x: 4, y: 204 }));
    assert_eq!(g.world.hands[h].goal.0, Pos { x: 4, y: 4 });
    g.world.update_goal(h, None);
    assert_eq!(g.world.hands[h].goal.0, Pos { x: 4, y: 4 });
}

#[test]
fn load_level_rebuilds_the_scene_and_clears_ghosts() {
    let mut g = register();
    let h = g.world.spawn_hand();
    let mut ball = descriptor(Some(7), 3, 4);
    ball.grabbable = true;
    g.world.load_level(&vec![ball]);

    // Hold the ball, and breed one ghost hand from a capture.
    g.world.set_signals(h, Signals { grab: true, record: false, reload: false });
    g.world.hand_grab_step(h, &vec![1]);
    assert!(g.world.hands[h].grabbing.is_some());
    g.world.set_signals(h, Signals { grab: false, record: true, reload: false });
    g.world.record(h);
    for _ in 0..3 {
        g.world.recording(h, 1000);
    }
    let ghost = 1;
    assert!(g.world.hands[ghost].playback.is_some());

    let objects_before = g.world.objects.len();
    let mut fresh = descriptor(Some(8), 1, 2);
    fresh.sensor = true;
    g.world.load_level(&vec![fresh]);

    // Every old object is gone, the holding hand was severed, the ghost
    // hand is despawned, and the fresh scene stands after the backdrop.
    for o in 0..objects_before {
        assert!(!g.world.objects[o].alive);
    }
    assert!(g.world.hands[h].alive);
    assert!(g.world.hands[h].grabbing.is_none());
    assert!(!g.world.hands[ghost].alive);
    assert!(g.world.joints.iter().all(|j| !j.alive));

    let backdrop = &g.world.objects[objects_before];
    assert!(backdrop.alive);
    assert!(backdrop.info.is_none());
    let spawned = &g.world.objects[objects_before + 1];
    assert!(spawned.alive);
    assert_eq!(spawned.info.unwrap().texture, 8);
    assert_eq!(spawned.pos, Pos { x: 1, y: 2 });
    assert!(spawned.sensor);
    assert!(matches!(spawned.collider.kind, ShapeKind::Rectangle));
}

#[test]
fn reload_edge_refires_the_current_level() {
    let mut g = register();
    let h = g.world.spawn_hand();
    let mut level = CurrentLevel(0);
    load_event(&mut level, &LoadLevel(6));
    assert_eq!(level.0, 6);

    g.world.set_signals(h, Signals { grab: false, record: false, reload: true });
    assert_eq!(reload_level(&g.world, h, &level), Some(LoadLevel(6)));

    g.world.set_signals(h, Signals { grab: false, record: false, reload: false });
    assert_eq!(reload_level(&g.world, h, &level), None);
}

#[test]
fn submit_gesture_needs_three_deliveries_and_no_cursor() {
    let level = CurrentLevel(2);

    let mut deliveries = Deliveries(3);
    assert_eq!(submitting(false, &mut deliveries, &level), Some(LoadLevel(3)));
    assert_eq!(deliveries.0, 0);

    let mut deliveries = Deliveries(2);
    assert_eq!(submitting(false, &mut deliveries, &level), None);
    assert_eq!(deliveries.0, 2);

    // While the cursor is present the tally is held at zero.
    let mut deliveries = Deliveries(2);
    assert_eq!(submitting(true, &mut deliveries, &level), None);
    assert_eq!(deliveries.0, 0);
}

#[test]
fn image_size_resolves_the_collider_once() {
    let mut g = register();
    g.world.spawn_hand();
    let ball = descriptor(Some(7), 0, 0);
    let mut round = descriptor(Some(8), 1, 1);
    round.collider_info = Some(ghost_hand::ColliderInfo {
        kind: ShapeKind::Circle,
        size: None,
    });
    g.world.load_level(&vec![ball, round]);

    // The backdrop has no texture: sizing skips it.
    g.world.add_image_size(0, 64, 32);
    assert!(g.world.objects[0].hitbox.is_none());

    // A textured body gets a rectangle of the full image.
    g.world.add_image_size(1, 64, 32);
    let hb = g.world.objects[1].hitbox.unwrap();
    assert!(matches!(hb.kind, ShapeKind::Rectangle));
    assert_eq!((hb.x, hb.y), (64, 32));

    // A circle is sized from half the image width, and only once.
    g.world.add_image_size(2, 64, 32);
    g.world.add_image_size(2, 1000, 1000);
    let hb = g.world.objects[2].hitbox.unwrap();
    assert!(matches!(hb.kind, ShapeKind::Circle));
    assert_eq!((hb.x, hb.y), (32, 32));
}

#[test]
fn reset_countdown_displays_whole_seconds_left() {
    let mut g = register();
    let mut text = setup_text();
    assert_eq!(text.seconds, 10);

    update_reset(&mut g.reset, &mut text, 1000);
    assert_eq!(text.seconds, 4);
    update_reset(&mut g.reset, &mut text, 1500);
    assert_eq!(text.seconds, 2);
    // The five-second cycle wraps around.
    update_reset(&mut g.reset, &mut text, 2500);
    assert_eq!(text.seconds, 5);
}
