use theremotion::range_math::{convert_range, smoothstairs, smoothstep, UNIT};
use theremotion::scale::ScaleWindow;

#[test]
fn remap_scales_linearly() {
    assert_eq!(convert_range(5, 0, 10, 0, 100), 50);
    assert_eq!(convert_range(250, 0, 500, -1000, 1000), 0);
}

#[test]
fn remap_clamps_outside_input() {
    assert_eq!(convert_range(-50, 0, 10, 0, 100), 0);
    assert_eq!(convert_range(50, 0, 10, 0, 100), 100);
    assert_eq!(convert_range(1_000_000_000, -5, 5, -3, 7), 7);
}

#[test]
fn remap_follows_a_downward_input_range() {
    // 500 mm away is the lowest pitch, at the antenna the highest.
    assert_eq!(convert_range(500, 500, 0, 48, 72), 48);
    assert_eq!(convert_range(0, 500, 0, 48, 72), 72);
    assert_eq!(convert_range(250, 500, 0, 48, 72), 60);
    assert_eq!(convert_range(900, 500, 0, 48, 72), 48);
}

#[test]
fn remap_identity_on_same_range() {
    for x in -7..=13 {
        assert_eq!(convert_range(x, -7, 13, -7, 13), x);
    }
}

#[test]
fn smoothstep_eases_toward_edges() {
    assert_eq!(smoothstep(0, 1000, 0), 0);
    assert_eq!(smoothstep(0, 1000, 1000), 1000);
    assert_eq!(smoothstep(0, 1000, 500), 500);
    // 0.25 -> 0.15625, 0.75 -> 0.84375
    assert_eq!(smoothstep(0, 1000, 250), 156);
    assert_eq!(smoothstep(0, 1000, 750), 844);
    assert_eq!(smoothstep(2000, 3000, 2250), 2156);
}

#[test]
fn smoothstairs_zero_steps_is_identity() {
    let scale = vec![60u8, 62, 64];
    for v in [59_000i64, 60_000, 60_500, 61_234, 63_999, 70_000] {
        assert_eq!(smoothstairs(v, 0, scale.clone()), v);
    }
}

#[test]
fn smoothstairs_passes_out_of_scale_values() {
    let scale = vec![60u8, 62, 64];
    assert_eq!(smoothstairs(59_000, 5, scale.clone()), 59_000);
    assert_eq!(smoothstairs(64_001, 5, scale.clone()), 64_001);
    assert_eq!(smoothstairs(61_000, 5, vec![]), 61_000);
}

#[test]
fn smoothstairs_converges_to_nearest_note() {
    let scale = vec![60u8, 62, 64];
    let width = 2 * UNIT as usize;
    assert_eq!(smoothstairs(60_700, width, scale.clone()), 60_000);
    assert_eq!(smoothstairs(61_300, width, scale.clone()), 62_000);
    assert_eq!(smoothstairs(63_900, width, scale.clone()), 64_000);
    // The very middle is a fixed point.
    assert_eq!(smoothstairs(61_000, width, scale.clone()), 61_000);
}

#[test]
fn smoothstairs_one_step() {
    // offset 500 of 2000: 0.25 -> 0.15625
    assert_eq!(smoothstairs(60_500, 1, vec![60u8, 62]), 60_312);
}

#[test]
fn floating_window_keeps_notes_near_center() {
    let scale = vec![48u8, 50, 52, 53, 55, 57, 59, 60, 62, 64, 65, 67, 69, 71, 72];
    let w = ScaleWindow::floating(&scale, 60, 5);
    assert_eq!(w.notes, vec![55u8, 57, 59, 60, 62, 64, 65]);
    let edge = ScaleWindow::floating(&scale, 2, 5);
    assert_eq!(edge.notes, Vec::<u8>::new());
    let top = ScaleWindow::floating(&vec![250u8, 255], 254, 5);
    assert_eq!(top.notes, vec![250u8, 255]);
}

#[test]
fn autotune_with_zero_strength_is_raw() {
    let w = ScaleWindow { notes: vec![60, 62, 64] };
    assert_eq!(w.autotune(60_700, 0), 60_700);
    assert_eq!(w.autotune(60_700, 2000), 60_000);
}

#[test]
fn autochord_builds_from_scale_steps() {
    let w = ScaleWindow { notes: vec![60, 62, 64, 65, 67, 69, 71, 72] };
    let chord = w.autochord(60_000, &vec![0, 2, 4, 7]);
    assert_eq!(chord, vec![Some(60_000), Some(64_000), Some(67_000), Some(72_000)]);
}

#[test]
fn autochord_keeps_root_detune() {
    let w = ScaleWindow { notes: vec![60, 62, 64, 65, 67] };
    let chord = w.autochord(60_250, &vec![0, 2]);
    assert_eq!(chord, vec![Some(60_250), Some(64_250)]);
}

#[test]
fn autochord_silences_voices_past_window() {
    let w = ScaleWindow { notes: vec![60, 62, 64, 65, 67] };
    let offsets = vec![0, 2, 4, 7];
    let chord = w.autochord(64_000, &offsets);
    assert_eq!(chord.len(), offsets.len());
    assert_eq!(chord, vec![Some(64_000), Some(67_000), None, None]);
    let empty = ScaleWindow { notes: vec![] };
    assert_eq!(empty.autochord(64_000, &offsets), vec![None, None, None, None]);
}

#[test]
fn autochord_root_below_window_uses_first_note() {
    let w = ScaleWindow { notes: vec![60, 62, 64] };
    assert_eq!(w.root_index(10_000), 0);
    assert_eq!(w.root_index(63_000), 1);
    assert_eq!(w.autochord(59_000, &vec![1]), vec![Some(61_000)]);
}
