use theremotion::controls::{BoolControl, Control, Controls, NoteControl, Node, ParamState};
use theremotion::mapping::{floor_sqrt, latest_settings, Conductor, Preset, Settings, VOICES};
use theremotion::range_math::UNIT;
use theremotion::scale::ScaleWindow;
use theremotion::set_high_priority;
use theremotion::tracking::{
    pitch_hand_type, volume_hand_type, messages_for_poll, ConductorMessage, Hand, HandMessage,
    HandType, Handedness, PollOutcome, Vector3,
};

fn node(path: &str, min: i64, max: i64, init: i64) -> Node {
    Node { path: path.to_string(), min, max, init }
}

fn engine_nodes() -> Vec<Node> {
    vec![
        node("note", 0, 127 * UNIT, 60 * UNIT),
        node("raw_note", 0, 127 * UNIT, 60 * UNIT),
        node("autotune_strength", 0, 5 * UNIT, 0),
        node("volume", -96 * UNIT, 0, -25 * UNIT),
        node("cutoff_note", -20 * UNIT, 20 * UNIT, 0),
        node("res", UNIT, 30 * UNIT, UNIT),
        node("supersaw", 0, UNIT, 0),
        node("detune", 0, UNIT, 0),
        node("sub_volume", 0, UNIT, 0),
        node("pluck", 0, UNIT, 0),
        node("pluck_position", 0, UNIT, 500),
    ]
}

fn c_major() -> Vec<u8> {
    vec![48, 50, 52, 53, 55, 57, 59, 60, 62, 64, 65, 67, 69, 71, 72]
}

fn preset() -> Preset {
    Preset {
        scale: c_major(),
        note_low: 48 * UNIT,
        note_high: 72 * UNIT,
        restricted_radius: 12,
        full_radius: 24,
        chord: vec![0, 2, 4, 7],
    }
}

fn settings(handedness: Handedness) -> Settings {
    Settings { handedness, preset: preset() }
}

fn conductor(state: &ParamState) -> Conductor {
    Conductor::new(Controls::from(state))
}

fn still(x: i64, y: i64, z: i64, pinch: i64) -> HandMessage {
    HandMessage {
        x_factor: 1,
        position: Vector3 { x, y, z },
        velocity: Vector3 { x: 0, y: 0, z: 0 },
        rotation: None,
        pinch,
        grab: 0,
    }
}

#[test]
fn param_state_starts_at_initial_values() {
    let state = ParamState::new(engine_nodes());
    assert_eq!(state.get_by_path(&"volume".to_string()), Some(-25 * UNIT));
    assert_eq!(state.get_by_path(&"missing".to_string()), None);
    assert_eq!(state.node_by_path(&"res".to_string()), Some(5));
}

#[test]
fn writes_are_seen_only_after_send() {
    let mut state = ParamState::new(engine_nodes());
    assert!(state.set_by_path(&"volume".to_string(), -10 * UNIT));
    assert!(!state.set_by_path(&"nothing".to_string(), 1));
    assert_eq!(state.get_by_path(&"volume".to_string()), Some(-25 * UNIT));
    state.send();
    assert_eq!(state.get_by_path(&"volume".to_string()), Some(-10 * UNIT));
}

#[test]
fn note_control_write_is_atomic() {
    let mut state = ParamState::new(engine_nodes());
    let nodes = engine_nodes();
    let mut note = NoteControl::from_nodes(&nodes[0], &nodes[1], &nodes[2]);
    note.value = 62 * UNIT;
    note.raw_value = 61_700;
    note.autotune.value = 3 * UNIT;
    note.send(&mut state);
    // Mid-write: nothing of the composite is visible yet.
    assert_eq!(state.get_by_path(&"note".to_string()), Some(60 * UNIT));
    assert_eq!(state.get_by_path(&"raw_note".to_string()), Some(60 * UNIT));
    assert_eq!(state.get_by_path(&"autotune_strength".to_string()), Some(0));
    state.send();
    let mut back = NoteControl::from_nodes(&nodes[0], &nodes[1], &nodes[2]);
    back.receive(&state);
    assert_eq!(back.value, 62 * UNIT);
    assert_eq!(back.raw_value, 61_700);
    assert_eq!(back.autotune.value, 3 * UNIT);
}

#[test]
fn control_set_scaled_stays_in_range() {
    let nodes = engine_nodes();
    let mut volume = Control::from_node(&nodes[3]);
    volume.set_scaled(350 * UNIT, 300 * UNIT, 400 * UNIT);
    assert_eq!(volume.value, -48 * UNIT);
    volume.set_scaled(1000 * UNIT, 300 * UNIT, 400 * UNIT);
    assert_eq!(volume.value, 0);
    volume.set_scaled(-1000 * UNIT, 300 * UNIT, 400 * UNIT);
    assert_eq!(volume.value, -96 * UNIT);
}

#[test]
fn bool_control_reads_with_half_threshold() {
    let mut state = ParamState::new(engine_nodes());
    let nodes = engine_nodes();
    let mut pluck = BoolControl::from_node(&nodes[9]);
    assert!(!pluck.value);
    state.set_by_path(&"pluck".to_string(), 600);
    state.send();
    pluck.receive(&state);
    assert!(pluck.value);
    pluck.value = false;
    pluck.send(&mut state);
    state.send();
    assert_eq!(state.get_by_path(&"pluck".to_string()), Some(0));
    state.set_by_path(&"pluck".to_string(), 500);
    state.send();
    pluck.receive(&state);
    assert!(!pluck.value);
}

#[test]
fn controls_need_every_parameter() {
    let state = ParamState::new(engine_nodes());
    assert!(Controls::declared_in(&state));
    let mut nodes = engine_nodes();
    nodes.remove(5);
    let short = ParamState::new(nodes);
    assert!(!Controls::declared_in(&short));
}

#[test]
fn controls_send_then_receive_round_trips() {
    let mut state = ParamState::new(engine_nodes());
    let mut controls = Controls::from(&state);
    controls.volume.value = -12 * UNIT;
    controls.pluck.value = true;
    controls.note.value = 64 * UNIT;
    controls.send(&mut state);
    let mut other = Controls::from(&ParamState::new(engine_nodes()));
    other.receive(&state);
    assert_eq!(other.volume.value, -12 * UNIT);
    assert!(other.pluck.value);
    assert_eq!(other.note.value, 64 * UNIT);
}

#[test]
fn hand_roles_follow_handedness() {
    assert_eq!(pitch_hand_type(&Handedness::RightHanded), HandType::Right);
    assert_eq!(volume_hand_type(&Handedness::RightHanded), HandType::Left);
    assert_eq!(pitch_hand_type(&Handedness::LeftHanded), HandType::Left);
    assert_eq!(volume_hand_type(&Handedness::LeftHanded), HandType::Right);
}

fn hand(hand_type: HandType, x: i64, roll: i64) -> Hand {
    Hand {
        hand_type,
        position: Vector3 { x, y: 200_000, z: 10_000 },
        velocity: Vector3 { x: 5_000, y: 0, z: -1_000 },
        roll,
        pinch: 300,
        grab: 700,
    }
}

#[test]
fn body_frame_mirrors_left_hand() {
    let left = hand(HandType::Left, -150_000, 500);
    assert_eq!(left.x_factor(), -1);
    assert_eq!(left.position_from_body(), Vector3 { x: 150_000, y: 200_000, z: 10_000 });
    assert_eq!(left.velocity_from_body(), Vector3 { x: -5_000, y: 0, z: -1_000 });
    assert_eq!(left.rotation_from_body(), Some(500));
    let right = hand(HandType::Right, 150_000, 500);
    assert_eq!(right.x_factor(), 1);
    assert_eq!(right.position_from_body().x, 150_000);
    assert_eq!(right.rotation_from_body(), Some(-500));
}

#[test]
fn rotation_outside_window_is_dropped() {
    assert_eq!(hand(HandType::Right, 0, -3_200).rotation_from_body(), None);
    assert_eq!(hand(HandType::Right, 0, 1_600).rotation_from_body(), None);
    assert_eq!(hand(HandType::Right, 0, -3_000).rotation_from_body(), Some(3_000));
}

#[test]
fn poll_messages_for_tracking_frame() {
    let hands = vec![hand(HandType::Left, -100_000, 0), hand(HandType::Right, 100_000, 0)];
    let m = messages_for_poll(PollOutcome::Tracking(hands.clone()), &Handedness::RightHanded);
    assert_eq!(m.len(), 4);
    assert!(matches!(m[0], ConductorMessage::VisibleHands { left: true, right: true }));
    match &m[1] {
        ConductorMessage::PitchHand(h) => assert_eq!(*h, hands[1].message()),
        _ => panic!("pitch hand expected"),
    }
    match &m[2] {
        ConductorMessage::VolumeHand(h) => assert_eq!(*h, hands[0].message()),
        _ => panic!("volume hand expected"),
    }
    assert!(matches!(m[3], ConductorMessage::LeapError(None)));
}

#[test]
fn poll_messages_for_error_and_other_events() {
    let m = messages_for_poll(PollOutcome::Failed("device lost".to_string()), &Handedness::LeftHanded);
    assert_eq!(m.len(), 1);
    match &m[0] {
        ConductorMessage::LeapError(Some(e)) => assert_eq!(e, "device lost"),
        _ => panic!("error expected"),
    }
    let m = messages_for_poll(PollOutcome::Other, &Handedness::LeftHanded);
    assert_eq!(m.len(), 1);
    assert!(matches!(m[0], ConductorMessage::LeapError(None)));
}

#[test]
fn floor_sqrt_rounds_down() {
    assert_eq!(floor_sqrt(0), 0);
    assert_eq!(floor_sqrt(15), 3);
    assert_eq!(floor_sqrt(16), 4);
    assert_eq!(floor_sqrt(247_917 * 247_917), 247_917);
    assert_eq!(floor_sqrt(20_000_000_000_000_000), 141_421_356);
}

#[test]
fn zero_autotune_keeps_raw_pitch() {
    let state = ParamState::new(engine_nodes());
    let mut c = conductor(&state);
    let p = preset();
    c.handle(ConductorMessage::PitchHand(still(-400_000 + 247_917, 400_000, -200_000, 0)), &Handedness::RightHanded, &p);
    assert_eq!(c.controls.note.autotune.value, 0);
    assert_eq!(c.controls.note.raw_value, 60_099);
    assert_eq!(c.controls.note.value, c.controls.note.raw_value);
}

#[test]
fn full_autotune_snaps_to_scale_degree() {
    let state = ParamState::new(engine_nodes());
    let mut c = conductor(&state);
    let p = preset();
    c.handle(ConductorMessage::PitchHand(still(-400_000 + 247_917, 400_000, -200_000, UNIT)), &Handedness::RightHanded, &p);
    assert_eq!(c.controls.note.autotune.value, 5 * UNIT);
    assert_eq!(c.controls.note.raw_value, 60_099);
    assert!((c.controls.note.value - 60_000).abs() <= 1);
    assert_eq!(c.chord, vec![Some(c.controls.note.value), Some(64_000), Some(67_000), Some(72_000)]);
}

#[test]
fn pitch_hand_arms_voices_by_height() {
    let state = ParamState::new(engine_nodes());
    let mut c = conductor(&state);
    let p = preset();
    c.handle(ConductorMessage::PitchHand(still(0, 380_000, 0, 0)), &Handedness::RightHanded, &p);
    assert_eq!(c.armed, vec![true, true, false, false]);
    assert_eq!(c.armed.len(), VOICES);
    c.handle(ConductorMessage::PitchHand(still(0, 100_000, 0, 0)), &Handedness::RightHanded, &p);
    assert_eq!(c.armed, vec![true, false, false, false]);
}

#[test]
fn volume_hand_plucks_armed_voices_on_hard_pinch() {
    let state = ParamState::new(engine_nodes());
    let mut c = conductor(&state);
    let p = preset();
    c.handle(ConductorMessage::PitchHand(still(0, 440_000, 0, 0)), &Handedness::RightHanded, &p);
    assert_eq!(c.armed, vec![true, true, true, false]);
    let mut v = still(125_000, 350_000, 0, 950);
    v.rotation = Some(300);
    c.handle(ConductorMessage::VolumeHand(v), &Handedness::RightHanded, &p);
    assert_eq!(c.strums, vec![true, true, false, false]);
    assert!(c.controls.pluck.value);
    assert_eq!(c.controls.cutoff_note.value, 0);
    assert_eq!(c.controls.volume.value, -48 * UNIT);
    assert_eq!(c.controls.resonance.value, 15_500);
    let mut soft = still(125_000, 350_000, 0, 900);
    soft.rotation = None;
    c.handle(ConductorMessage::VolumeHand(soft), &Handedness::RightHanded, &p);
    assert_eq!(c.strums, vec![true, true, false, false]);
}

#[test]
fn hidden_hands_keep_pitch_and_chord() {
    let state = ParamState::new(engine_nodes());
    let mut c = conductor(&state);
    let p = preset();
    c.handle(ConductorMessage::VisibleHands { left: true, right: true }, &Handedness::RightHanded, &p);
    c.handle(ConductorMessage::PitchHand(still(-400_000 + 247_917, 400_000, -200_000, UNIT)), &Handedness::RightHanded, &p);
    let note = c.controls.note.value;
    let raw = c.controls.note.raw_value;
    let chord = c.chord.clone();
    for _ in 0..5 {
        for m in messages_for_poll(PollOutcome::Tracking(vec![]), &Handedness::RightHanded) {
            c.handle(m, &Handedness::RightHanded, &p);
        }
    }
    assert_eq!(c.controls.note.value, note);
    assert_eq!(c.controls.note.raw_value, raw);
    assert_eq!(c.chord, chord);
    assert!(!c.left_visible);
    assert!(!c.right_visible);
    assert!(c.error.is_none());
}

#[test]
fn settings_update_waits_for_next_poll() {
    let current = settings(Handedness::RightHanded);
    // Start of the first poll: nothing pending.
    let first = latest_settings(current, vec![]);
    let hands = vec![hand(HandType::Left, -100_000, 0)];
    // A left-handed update arrives while the poll is in flight.
    let pending = vec![settings(Handedness::LeftHanded)];
    let m = messages_for_poll(PollOutcome::Tracking(hands.clone()), &first.handedness);
    assert!(matches!(m[1], ConductorMessage::VolumeHand(_)));
    // Start of the next poll: the update is taken.
    let second = latest_settings(first, pending);
    assert_eq!(second.handedness, Handedness::LeftHanded);
    let m = messages_for_poll(PollOutcome::Tracking(hands), &second.handedness);
    assert!(matches!(m[1], ConductorMessage::PitchHand(_)));
}

#[test]
fn latest_settings_keeps_only_the_last() {
    let updates = vec![
        settings(Handedness::LeftHanded),
        settings(Handedness::RightHanded),
        settings(Handedness::LeftHanded),
    ];
    assert_eq!(latest_settings(settings(Handedness::RightHanded), updates).handedness, Handedness::LeftHanded);
}

#[test]
fn error_message_is_kept_until_cleared() {
    let state = ParamState::new(engine_nodes());
    let mut c = conductor(&state);
    let p = preset();
    c.handle(ConductorMessage::LeapError(Some("timeout".to_string())), &Handedness::RightHanded, &p);
    assert_eq!(c.error, Some("timeout".to_string()));
    c.handle(ConductorMessage::LeapError(None), &Handedness::RightHanded, &p);
    assert_eq!(c.error, None);
}

#[test]
fn conductor_send_reaches_engine() {
    let mut state = ParamState::new(engine_nodes());
    let mut c = conductor(&state);
    let p = preset();
    c.handle(ConductorMessage::PitchHand(still(-400_000 + 247_917, 400_000, -200_000, 0)), &Handedness::RightHanded, &p);
    c.send(&mut state);
    assert_eq!(state.get_by_path(&"raw_note".to_string()), Some(60_099));
    assert_eq!(state.get_by_path(&"note".to_string()), Some(60_099));
}

#[test]
fn high_priority_is_not_supported() {
    assert!(!set_high_priority());
}

#[test]
fn window_for_partial_autotune() {
    let w = ScaleWindow { notes: vec![60, 62] };
    assert_eq!(w.autotune(60_500, 1), 60_312);
}

#[test]
fn no_pluck_while_pitch_hand_is_hidden() {
    let state = ParamState::new(engine_nodes());
    let mut c = conductor(&state);
    let p = preset();
    let right = Handedness::RightHanded;
    c.handle(ConductorMessage::PitchHand(still(0, 440_000, 0, 0)), &right, &p);
    assert_eq!(c.armed, vec![true, true, true, false]);
    // Only the volume (left) hand is in view now.
    c.handle(ConductorMessage::VisibleHands { left: true, right: false }, &right, &p);
    assert_eq!(c.armed, vec![false, false, false, false]);
    let mut v = still(125_000, 350_000, 0, 950);
    v.rotation = Some(300);
    c.handle(ConductorMessage::VolumeHand(v), &right, &p);
    assert_eq!(c.strums, vec![false, false, false, false]);
    assert!(!c.controls.pluck.value);
    // With the pitch hand in view the arming stays.
    c.handle(ConductorMessage::PitchHand(still(0, 440_000, 0, 0)), &right, &p);
    c.handle(ConductorMessage::VisibleHands { left: true, right: true }, &right, &p);
    assert_eq!(c.armed, vec![true, true, true, false]);
}

#[test]
fn controls_send_writes_every_control() {
    let mut state = ParamState::new(engine_nodes());
    let mut controls = Controls::from(&state);
    controls.note.raw_value = 61_000;
    controls.note.autotune.value = 2 * UNIT;
    controls.cutoff_note.value = 3 * UNIT;
    controls.resonance.value = 7 * UNIT;
    controls.supersaw.value = 400;
    controls.detune.value = 300;
    controls.sub_volume.value = 200;
    controls.pluck_position.value = 100;
    controls.send(&mut state);
    let read = |p: &str| state.get_by_path(&p.to_string()).unwrap();
    assert_eq!(read("raw_note"), 61_000);
    assert_eq!(read("autotune_strength"), 2 * UNIT);
    assert_eq!(read("cutoff_note"), 3 * UNIT);
    assert_eq!(read("res"), 7 * UNIT);
    assert_eq!(read("supersaw"), 400);
    assert_eq!(read("detune"), 300);
    assert_eq!(read("sub_volume"), 200);
    assert_eq!(read("pluck_position"), 100);
    assert_eq!(read("pluck"), 0);
}

#[test]
fn controls_from_takes_initial_values() {
    let state = ParamState::new(engine_nodes());
    let c = Controls::from(&state);
    assert_eq!(c.note.value, 60 * UNIT);
    assert_eq!(c.note.raw_value, 60 * UNIT);
    assert!(!c.pluck.value);
    assert_eq!(c.volume.value, -25 * UNIT);
    assert_eq!(c.resonance.path, "res");
    assert_eq!(c.pluck_position.value, 500);
}

#[test]
fn left_pitch_hand_at_antenna_plays_highest() {
    let state = ParamState::new(engine_nodes());
    let mut c = conductor(&state);
    let p = preset();
    // A left palm at the antenna, (-400, -200) mm in the sensor's frame,
    // reads +400 mm in the body frame.
    let left = Hand {
        hand_type: HandType::Left,
        position: Vector3 { x: -400_000, y: 400_000, z: -200_000 },
        velocity: Vector3 { x: 0, y: 0, z: 0 },
        roll: 0,
        pinch: 0,
        grab: 0,
    };
    let m = left.message();
    assert_eq!(m.position.x, 400_000);
    c.handle(ConductorMessage::PitchHand(m), &Handedness::LeftHanded, &p);
    assert_eq!(c.controls.note.raw_value, 72 * UNIT);
    // 500 mm away from the antenna, the lowest pitch.
    let far = Hand { position: Vector3 { x: 100_000, y: 400_000, z: -200_000 }, ..left };
    c.handle(ConductorMessage::PitchHand(far.message()), &Handedness::LeftHanded, &p);
    assert_eq!(c.controls.note.raw_value, 48 * UNIT);
}
