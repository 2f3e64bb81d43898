//! The grab/drop state machine through the public surface: pickups, drops,
//! the spawn-dispenser behaviour, and the one-object-per-hand guarantee.

use ghost_hand::Collector;
use ghost_hand::CollectorInteraction;
use ghost_hand::CurrentLevel;
use ghost_hand::Deliveries;
use ghost_hand::GrabInteractions;
use ghost_hand::LoadLevel;
use ghost_hand::LoadObject;
use ghost_hand::Pos;
use ghost_hand::Signals;
use ghost_hand::register;

fn descriptor(texture: Option<u64>, x: i32, y: i32) -> LoadObject {
    LoadObject {
        texture_name: texture,
        position: Pos { x, y },
        collector: None,
        body_static: false,
        grabbable: false,
        collider_info: None,
        grab: None,
        sensor: false,
        anchored: false,
    }
}

fn grab_press() -> Signals {
    Signals { grab: true, record: false, reload: false }
}

fn no_press() -> Signals {
    Signals { grab: false, record: false, reload: false }
}

#[test]
fn grab_then_grab_toggles_idle_holding_idle() {
    let mut g = register();
    let h = g.world.spawn_hand();
    let mut ball = descriptor(Some(7), 40, 40);
    ball.grabbable = true;
    g.world.load_level(&vec![ball]);
    // Objects: [backdrop, ball].
    let ball_id = 1;
    assert!(g.world.objects[ball_id].grabbable);

    // First press over the ball: Idle -> Holding.
    g.world.set_signals(h, grab_press());
    g.world.hand_grab_step(h, &vec![ball_id]);
    assert!(g.world.hands[h].grabbing.is_some());
    assert!(!g.world.objects[ball_id].grabbable);
    assert_eq!(g.world.objects[ball_id].grabbed.map(|gr| gr.0), Some(h));
    let joint = g.world.hands[h].grabbing.unwrap().0;
    assert!(g.world.joints[joint].alive);
    assert_eq!(g.world.joints[joint].object, ball_id);
    assert_eq!(g.world.joints[joint].hand, h);

    // Second press, no release needed in between: Holding -> Idle.
    g.world.set_signals(h, grab_press());
    g.world.hand_grab_step(h, &vec![ball_id]);
    assert!(g.world.hands[h].grabbing.is_none());
    assert!(g.world.objects[ball_id].grabbable);
    assert!(g.world.objects[ball_id].grabbed.is_none());
    assert!(!g.world.joints[joint].alive);
}

#[test]
fn at_most_one_joint_per_hand() {
    let mut g = register();
    let h = g.world.spawn_hand();
    let mut a = descriptor(Some(1), 0, 0);
    a.grabbable = true;
    let mut b = descriptor(Some(2), 5, 5);
    b.grabbable = true;
    g.world.load_level(&vec![a, b]);

    // Grab with both objects overlapping: only the first is taken.
    g.world.set_signals(h, grab_press());
    g.world.hand_grab_step(h, &vec![1, 2]);
    let live_joints_on_hand = g
        .world
        .joints
        .iter()
        .filter(|j| j.alive && j.hand == h)
        .count();
    assert_eq!(live_joints_on_hand, 1);
    assert!(g.world.objects[2].grabbable);

    // Another press while Holding drops; it never stacks a second joint.
    g.world.set_signals(h, grab_press());
    g.world.hand_grab_step(h, &vec![1, 2]);
    let live_joints_on_hand = g
        .world
        .joints
        .iter()
        .filter(|j| j.alive && j.hand == h)
        .count();
    assert_eq!(live_joints_on_hand, 0);
}

#[test]
fn grab_without_edge_or_overlap_is_a_no_op() {
    let mut g = register();
    let h = g.world.spawn_hand();
    let mut ball = descriptor(Some(7), 0, 0);
    ball.grabbable = true;
    g.world.load_level(&vec![ball]);

    // No edge: nothing happens even with an overlap.
    g.world.set_signals(h, no_press());
    g.world.hand_grab_step(h, &vec![1]);
    assert!(g.world.hands[h].grabbing.is_none());

    // Edge with an empty report: the hand stays Idle.
    g.world.set_signals(h, grab_press());
    g.world.hand_grab_step(h, &vec![]);
    assert!(g.world.hands[h].grabbing.is_none());

    // Edge with stale and unpickable ids: skipped silently.
    g.world.set_signals(h, grab_press());
    g.world.hand_grab_step(h, &vec![999, 0]);
    assert!(g.world.hands[h].grabbing.is_none());
}

#[test]
fn spawn_template_dispenses_once_and_stays_free() {
    let mut g = register();
    let h = g.world.spawn_hand();
    let mut template = descriptor(Some(9), 30, 60);
    template.grabbable = true;
    template.grab = Some(GrabInteractions::Spawn);
    g.world.load_level(&vec![template]);
    let template_id = 1;
    let objects_before = g.world.objects.len();

    // First touch: a copy is dispensed and held; the template stays Free.
    g.world.set_signals(h, grab_press());
    g.world.hand_grab_step(h, &vec![template_id]);
    assert_eq!(g.world.objects.len(), objects_before + 1);
    assert!(g.world.objects[template_id].grabbable);
    assert!(g.world.objects[template_id].grabbed.is_none());
    let copy_id = objects_before;
    assert!(g.world.objects[copy_id].grabbed.is_some());
    assert_eq!(g.world.objects[copy_id].pos, Pos { x: 30, y: 60 });
    // The copy carries the template's metadata unchanged: texture,
    // collider and grab-behaviour variant alike.
    let copy_info = g.world.objects[copy_id].info.unwrap();
    assert_eq!(copy_info.texture, 9);
    assert!(matches!(copy_info.grab, GrabInteractions::Spawn));

    // Second touch without dropping: no second copy is dispensed, the
    // template remains Free both times.
    g.world.set_signals(h, grab_press());
    g.world.hand_grab_step(h, &vec![template_id]);
    assert_eq!(g.world.objects.len(), objects_before + 1);
    assert!(g.world.objects[template_id].grabbable);
    assert!(g.world.objects[template_id].grabbed.is_none());
}

#[test]
fn collector_severs_mid_grab_and_next_press_grabs_fresh() {
    let mut g = register();
    let h = g.world.spawn_hand();
    let mut ball = descriptor(Some(7), 0, 0);
    ball.grabbable = true;
    let mut spare = descriptor(Some(7), 9, 9);
    spare.grabbable = true;
    let mut bin = descriptor(None, 50, 50);
    bin.collector = Some(Collector { collecting: 7, interaction: CollectorInteraction::Count });
    g.world.load_level(&vec![ball, spare, bin]);
    let (ball_id, spare_id, bin_id) = (1, 2, 3);

    // Pick the ball up.
    g.world.set_signals(h, grab_press());
    g.world.hand_grab_step(h, &vec![ball_id]);
    assert!(g.world.hands[h].grabbing.is_some());

    // The collector consumes it mid-grab, severing the joint.
    let mut deliveries = Deliveries(0);
    let level = CurrentLevel(0);
    let fired = g.world.collector_collide(bin_id, &vec![ball_id], &mut deliveries, &level);
    assert!(fired.is_none());
    assert_eq!(deliveries.0, 1);
    assert!(g.world.hands[h].grabbing.is_none());
    assert!(!g.world.objects[ball_id].alive);

    // The next press is a fresh Idle -> Holding transition, not a drop.
    g.world.set_signals(h, grab_press());
    g.world.hand_grab_step(h, &vec![spare_id]);
    assert!(g.world.hands[h].grabbing.is_some());
    assert_eq!(g.world.objects[spare_id].grabbed.map(|gr| gr.0), Some(h));
}

#[test]
fn collector_counts_distinct_matches_and_skips_strangers() {
    let mut g = register();
    g.world.spawn_hand();
    let mut a = descriptor(Some(7), 0, 0);
    a.grabbable = true;
    let mut b = descriptor(Some(7), 1, 1);
    b.grabbable = true;
    let other = descriptor(Some(8), 2, 2);
    let mut bin = descriptor(None, 50, 50);
    bin.collector = Some(Collector { collecting: 7, interaction: CollectorInteraction::Count });
    g.world.load_level(&vec![a, b, other, bin]);

    let mut deliveries = Deliveries(0);
    let level = CurrentLevel(0);
    // A duplicate id counts once: the object is gone the second time round.
    let fired = g.world.collector_collide(4, &vec![1, 1, 2, 3, 999], &mut deliveries, &level);
    assert!(fired.is_none());
    assert_eq!(deliveries.0, 2);
    assert!(!g.world.objects[1].alive);
    assert!(!g.world.objects[2].alive);
    assert!(g.world.objects[3].alive);
}

#[test]
fn finishing_collector_fires_next_level() {
    let mut g = register();
    g.world.spawn_hand();
    let mut a = descriptor(Some(7), 0, 0);
    a.grabbable = true;
    let mut exit = descriptor(None, 50, 50);
    exit.collector = Some(
        Collector { collecting: 7, interaction: CollectorInteraction::FinishLevel },
    );
    g.world.load_level(&vec![a, exit]);

    let mut deliveries = Deliveries(0);
    let level = CurrentLevel(4);
    let fired = g.world.collector_collide(2, &vec![1], &mut deliveries, &level);
    assert_eq!(fired, Some(LoadLevel(5)));
    assert_eq!(deliveries.0, 0);

    // Nothing matching: no event.
    let fired = g.world.collector_collide(2, &vec![999], &mut deliveries, &level);
    assert!(fired.is_none());
}
