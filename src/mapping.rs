use vstd::prelude::*;

use crate::controls::{path_index, Controls, ParamState};
use crate::range_math::{bounded, convert_range, quantized, remap, UNIT};
use crate::scale::{chord_voice, window_notes, ScaleWindow};
use crate::tracking::{
    pitch_hand_type, spec_pitch_hand_type, ConductorMessage, HandMessage, HandType, Handedness, Vector3,
};

verus! {

/// Number of chord voices.
pub const VOICES: usize = 4;

/// Where the pitch antenna stands in the sensor's x-z plane.
pub const ANTENNA_X: i64 = -400_000;

pub const ANTENNA_Z: i64 = -200_000;

/// Distance to the antenna at which the pitch is lowest; at the antenna it is
/// highest.
pub const PITCH_REACH: i64 = 500_000;

/// Largest square of a distance that `floor_sqrt` is asked for.
pub const MAX_SQUARE: u64 = 72_000_000_000_000_000;

/// One musical preset.
pub struct Preset {
    /// Every note of the scale, as MIDI note numbers, lowest first.
    pub scale: Vec<u8>,
    /// Playable pitch range, in fixed point.
    pub note_low: i64,
    pub note_high: i64,
    /// Half-width, in semitones, of the window that autotune looks in.
    pub restricted_radius: u8,
    /// Half-width, in semitones, of the window that chords are built in.
    pub full_radius: u8,
    /// Chord voices, as offsets in scale steps from the root.
    pub chord: Vec<usize>,
}

/// What the user chose: which hand plays pitch, and the preset.
pub struct Settings {
    pub handedness: Handedness,
    pub preset: Preset,
}

impl Preset {
    pub open spec fn wf(&self) -> bool {
        &&& bounded(self.note_low as int)
        &&& bounded(self.note_high as int)
        &&& self.note_low <= self.note_high
    }
}

/// The settings in force after `updates` arrived in that order: the last of
/// them, or `current` where none did.
pub fn latest_settings(current: Settings, updates: Vec<Settings>) -> (s: Settings)
    ensures
        updates@.len() == 0 ==> s == current,
        updates@.len() > 0 ==> s == updates@.last(),
{
    let mut updates = updates;
    match updates.pop() {
        Some(s) => s,
        None => current,
    }
}

/// `r` is the square root of `n`, rounded down.
pub open spec fn is_floor_sqrt(r: int, n: int) -> bool {
    0 <= r && r * r <= n && n < (r + 1) * (r + 1)
}

pub open spec fn spec_floor_sqrt(n: int) -> int {
    choose|r: int| is_floor_sqrt(r, n)
}

proof fn lemma_floor_sqrt_unique(a: int, b: int, n: int)
    requires
        is_floor_sqrt(a, n),
        is_floor_sqrt(b, n),
    ensures
        a == b,
{
    if a < b {
        assert((a + 1) * (a + 1) <= b * b) by (nonlinear_arith)
            requires
                0 <= a,
                a + 1 <= b,
        ;
    } else if b < a {
        assert((b + 1) * (b + 1) <= a * a) by (nonlinear_arith)
            requires
                0 <= b,
                b + 1 <= a,
        ;
    }
}

/// Square root of `n`, rounded down.
pub fn floor_sqrt(n: u64) -> (r: u64)
    requires
        n < MAX_SQUARE,
    ensures
        is_floor_sqrt(r as int, n as int),
        r == spec_floor_sqrt(n as int),
{
    let mut lo: u64 = 0;
    let mut hi: u64 = 268_435_456;
    while hi - lo > 1
        invariant
            lo < hi <= 268_435_456,
            lo * lo <= n,
            n < hi * hi,
        decreases hi - lo,
    {
        let mid: u64 = lo + (hi - lo) / 2;
        assert(mid * mid <= 268_435_456u64 * 268_435_456u64) by (nonlinear_arith)
            requires
                mid <= 268_435_456u64,
        ;
        if mid * mid <= n {
            lo = mid;
        } else {
            hi = mid;
        }
    }
    proof {
        assert(is_floor_sqrt(lo as int, n as int));
        lemma_floor_sqrt_unique(lo as int, spec_floor_sqrt(n as int), n as int);
    }
    lo
}

/// Squared distance, in the sensor's x-z plane, from the antenna to the palm
/// of `hand`. The antenna stands in the sensor's frame, so the body-frame x is
/// turned back by `x_factor`.
pub open spec fn antenna_square(hand: HandMessage) -> int {
    let x = hand.x_factor * hand.position.x;
    let z = hand.position.z;
    (x - ANTENNA_X) * (x - ANTENNA_X) + (z - ANTENNA_Z) * (z - ANTENNA_Z)
}

/// Voice `i` is armed when the hand is high enough: the first always, each
/// further one fifty millimetres higher, from 375 mm up.
pub open spec fn voice_armed(i: int, height: i64) -> bool {
    i == 0 || height >= (325 + 50 * i) * UNIT
}

/// A plucked voice is armed and the hand is twisted past a fifth of a radian
/// more for each further voice.
pub open spec fn voice_plucked(i: int, armed: bool, rotation: Option<i64>) -> bool {
    armed && (rotation matches Some(a) && a > 200 * i)
}

/// The pitch hand `hand` took `old` to `new` under `preset`: the raw pitch
/// comes from its distance to the antenna, the autotune strength from its
/// pinch, the played pitch by autotune in the restricted window around the last
/// played pitch, the chord on it in the full window, which voices are armed by
/// its height, and the pitch bend by its outward and forward speed; nothing
/// else changes.
pub open spec fn pitch_update(old: Conductor, new: Conductor, hand: HandMessage, preset: Preset) -> bool {
    &&& ({
            let c = old.center();
            let restricted = window_notes(
                preset.scale@,
                c - preset.restricted_radius,
                c + preset.restricted_radius,
            );
            let full = window_notes(
                preset.scale@,
                c - preset.full_radius,
                c + preset.full_radius,
            );
            let note = new.controls.note;
            &&& note.raw_value == remap(
                spec_floor_sqrt(antenna_square(hand)),
                PITCH_REACH as int,
                0,
                preset.note_low as int,
                preset.note_high as int,
            )
            &&& note.autotune.value == remap(
                hand.pinch as int,
                0,
                UNIT as int,
                old.controls.note.autotune.min as int,
                old.controls.note.autotune.max as int,
            )
            &&& note.value == quantized(
                note.raw_value as int,
                crate::controls::steps_of(note.autotune.value),
                restricted,
            )
            &&& new.chord@.len() == preset.chord@.len()
            &&& forall|j: int|
                0 <= j < preset.chord@.len() ==> new.chord@[j] == chord_voice(
                    full,
                    note.value as int,
                    preset.chord@[j] as int,
                )
        })
    &&& forall|i: int|
            0 <= i < VOICES ==> new.armed@[i] == voice_armed(i, hand.position.y)
    &&& new.pitch_bend == remap(
        hand.velocity.x + hand.velocity.z,
        -300 * UNIT,
        300 * UNIT,
        -UNIT as int,
        UNIT as int,
    )
    &&& new.strums == old.strums
    &&& new.left_visible == old.left_visible
    &&& new.right_visible == old.right_visible
    &&& new.error == old.error
    &&& new.controls.note.path == old.controls.note.path
    &&& new.controls.note.raw_path == old.controls.note.raw_path
    &&& new.controls.note.autotune.path == old.controls.note.autotune.path
    &&& new.controls.note.autotune.min == old.controls.note.autotune.min
    &&& new.controls.note.autotune.max == old.controls.note.autotune.max
    &&& new.controls.volume == old.controls.volume
    &&& new.controls.cutoff_note == old.controls.cutoff_note
    &&& new.controls.resonance == old.controls.resonance
    &&& new.controls.supersaw == old.controls.supersaw
    &&& new.controls.detune == old.controls.detune
    &&& new.controls.sub_volume == old.controls.sub_volume
    &&& new.controls.pluck == old.controls.pluck
    &&& new.controls.pluck_position == old.controls.pluck_position
}

/// The mapping engine's state: the instrument's controls and what it derived
/// from the hands.
pub struct Conductor {
    pub controls: Controls,
    pub left_visible: bool,
    pub right_visible: bool,
    pub chord: Vec<Option<i64>>,
    pub armed: Vec<bool>,
    pub strums: Vec<bool>,
    /// Pitch bend, from minus to plus one whole unit.
    pub pitch_bend: i64,
    pub error: Option<String>,
}

impl Conductor {
    pub open spec fn wf(&self) -> bool {
        &&& self.controls.wf()
        &&& self.armed@.len() == VOICES
        &&& self.strums@.len() == VOICES
    }

    /// A conductor at rest over `controls`: no hand seen, no voice armed.
    pub fn new(controls: Controls) -> (c: Conductor)
        requires
            controls.wf(),
        ensures
            c.wf(),
            c.controls == controls,
            !c.left_visible && !c.right_visible,
            c.chord@.len() == 0,
            forall|i: int| 0 <= i < VOICES ==> !c.armed@[i] && !c.strums@[i],
            c.pitch_bend == 0,
            c.error is None,
    {
        let mut armed: Vec<bool> = Vec::new();
        let mut strums: Vec<bool> = Vec::new();
        let mut i: usize = 0;
        while i < VOICES
            invariant
                i <= VOICES,
                armed@.len() == i,
                strums@.len() == i,
                forall|k: int| 0 <= k < i ==> !armed@[k] && !strums@[k],
            decreases VOICES - i,
        {
            armed.push(false);
            strums.push(false);
            i = i + 1;
        }
        Conductor {
            controls,
            left_visible: false,
            right_visible: false,
            chord: Vec::new(),
            armed,
            strums,
            pitch_bend: 0,
            error: None,
        }
    }

    /// The played pitch as a MIDI note number, the centre of the floating
    /// windows.
    pub open spec fn center(&self) -> u8 {
        let n = self.controls.note.value / UNIT;
        if n < 0 {
            0
        } else if n > 127 {
            127
        } else {
            n as u8
        }
    }

    fn center_note(&self) -> (c: u8)
        ensures
            c == self.center(),
    {
        let n: i64 = self.controls.note.value / UNIT;
        if n < 0 {
            0
        } else if n > 127 {
            127
        } else {
            n as u8
        }
    }

    /// The pitch hand moved: sets the raw pitch from its distance to the
    /// antenna, the autotune strength from its pinch, the played pitch by
    /// autotune in the restricted window around the last played pitch, the
    /// chord on it in the full window, which voices are armed by its height,
    /// and the pitch bend by its outward and forward speed.
    pub fn pitch_hand(&mut self, hand: &HandMessage, preset: &Preset)
        requires
            old(self).wf(),
            hand.wf(),
            preset.wf(),
        ensures
            final(self).wf(),
            pitch_update(*old(self), *final(self), *hand, *preset),
    {
        let center: u8 = self.center_note();
        let restricted: ScaleWindow = ScaleWindow::floating(
            &preset.scale,
            center,
            preset.restricted_radius,
        );
        let full: ScaleWindow = ScaleWindow::floating(&preset.scale, center, preset.full_radius);
        let raw_x: i64 = hand.x_factor * hand.position.x;
        let dx: i64 = raw_x - ANTENNA_X;
        let dz: i64 = hand.position.z - ANTENNA_Z;
        proof {
            assert(dx * dx <= 10_200_000_000_000_000i64) by (nonlinear_arith)
                requires
                    -100_500_000 <= dx <= 100_500_000,
            ;
            assert(dz * dz <= 10_200_000_000_000_000i64) by (nonlinear_arith)
                requires
                    -100_500_000 <= dz <= 100_500_000,
            ;
            assert(dx * dx >= 0) by (nonlinear_arith);
            assert(dz * dz >= 0) by (nonlinear_arith);
        }
        let square: u64 = (dx * dx + dz * dz) as u64;
        let distance: u64 = floor_sqrt(square);
        proof {
            assert(distance <= 200_000_000) by (nonlinear_arith)
                requires
                    distance * distance <= square,
                    square <= 20_400_000_000_000_000u64,
            ;
        }
        self.controls.note.set_scaled(
            distance as i64,
            PITCH_REACH,
            0,
            hand.pinch,
            0,
            UNIT,
            preset.note_low,
            preset.note_high,
            &restricted,
        );
        proof {
            crate::range_math::lemma_remap_within_output(
                distance as int,
                PITCH_REACH as int,
                0,
                preset.note_low as int,
                preset.note_high as int,
            );
            crate::range_math::lemma_quantized_bounded(
                self.controls.note.raw_value as int,
                crate::controls::steps_of(self.controls.note.autotune.value),
                restricted.notes@,
            );
        }
        self.chord = full.autochord(self.controls.note.value, &preset.chord);
        let mut armed: Vec<bool> = Vec::new();
        let mut i: usize = 0;
        while i < VOICES
            invariant
                i <= VOICES,
                hand.wf(),
                armed@.len() == i,
                forall|k: int| 0 <= k < i ==> armed@[k] == voice_armed(k, hand.position.y),
            decreases VOICES - i,
        {
            armed.push(i == 0 || hand.position.y >= (325 + 50 * i as i64) * UNIT);
            i = i + 1;
        }
        self.armed = armed;
        self.pitch_bend = convert_range(
            hand.velocity.x + hand.velocity.z,
            -300 * UNIT,
            300 * UNIT,
            -UNIT,
            UNIT,
        );
    }
}

/// Pinch strength above which the volume hand plucks.
pub const PLUCK_PINCH: i64 = 900;

/// The volume hand `hand` took `old` to `new`: cutoff, volume and resonance
/// follow its position, the pluck position its grab; when it pinches harder
/// than `PLUCK_PINCH` each voice is plucked as `voice_plucked` says, and the
/// pluck switch is on when one is; nothing else changes.
pub open spec fn volume_update(old: Conductor, new: Conductor, hand: HandMessage) -> bool {
    let c = old.controls;
    let n = new.controls;
    &&& n.cutoff_note.value == remap(
        hand.position.x as int,
        50 * UNIT,
        200 * UNIT,
        c.cutoff_note.min as int,
        c.cutoff_note.max as int,
    )
    &&& n.volume.value == remap(
        hand.position.y as int,
        300 * UNIT,
        400 * UNIT,
        c.volume.min as int,
        c.volume.max as int,
    )
    &&& n.resonance.value == remap(
        hand.position.z as int,
        100 * UNIT,
        -100 * UNIT,
        c.resonance.min as int,
        c.resonance.max as int,
    )
    &&& n.pluck_position.value == remap(
        hand.grab as int,
        0,
        UNIT as int,
        c.pluck_position.min as int,
        c.pluck_position.max as int,
    )
    &&& n.cutoff_note.path == c.cutoff_note.path && n.cutoff_note.min == c.cutoff_note.min
        && n.cutoff_note.max == c.cutoff_note.max
    &&& n.volume.path == c.volume.path && n.volume.min == c.volume.min && n.volume.max
        == c.volume.max
    &&& n.resonance.path == c.resonance.path && n.resonance.min == c.resonance.min
        && n.resonance.max == c.resonance.max
    &&& n.pluck_position.path == c.pluck_position.path && n.pluck_position.min
        == c.pluck_position.min && n.pluck_position.max == c.pluck_position.max
    &&& n.pluck.path == c.pluck.path
    &&& if hand.pinch > PLUCK_PINCH {
        &&& new.strums@.len() == VOICES
        &&& forall|i: int|
            0 <= i < VOICES ==> new.strums@[i] == voice_plucked(
                i,
                old.armed@[i],
                hand.rotation,
            )
        &&& n.pluck.value == exists|i: int| 0 <= i < VOICES && #[trigger] new.strums@[i]
    } else {
        &&& new.strums == old.strums
        &&& n.pluck.value == c.pluck.value
    }
    &&& n.note == c.note
    &&& n.supersaw == c.supersaw
    &&& n.detune == c.detune
    &&& n.sub_volume == c.sub_volume
    &&& new.armed == old.armed
    &&& new.chord == old.chord
    &&& new.pitch_bend == old.pitch_bend
    &&& new.left_visible == old.left_visible
    &&& new.right_visible == old.right_visible
    &&& new.error == old.error
}

/// What one message does to the conductor. When the pitch hand is out of
/// view every voice is disarmed, so that no pluck latches until it is back.
pub open spec fn message_update(
    old: Conductor,
    new: Conductor,
    msg: ConductorMessage,
    handedness: Handedness,
    preset: Preset,
) -> bool {
    match msg {
        ConductorMessage::VisibleHands { left, right } => {
            let pitch_visible = match spec_pitch_hand_type(handedness) {
                HandType::Left => left,
                HandType::Right => right,
            };
            &&& new.left_visible == left
            &&& new.right_visible == right
            &&& new.armed@.len() == VOICES
            &&& forall|i: int|
                0 <= i < VOICES ==> new.armed@[i] == (pitch_visible && old.armed@[i])
            &&& new == (Conductor { left_visible: left, right_visible: right, armed: new.armed, ..old })
        },
        ConductorMessage::PitchHand(hand) => pitch_update(old, new, hand, preset),
        ConductorMessage::VolumeHand(hand) => volume_update(old, new, hand),
        ConductorMessage::LeapError(e) => new == (Conductor { error: e, ..old }),
    }
}

/// What a poll with no hand in view hands on.
pub open spec fn hidden_hands_message(m: ConductorMessage) -> bool {
    m == ConductorMessage::VisibleHands { left: false, right: false } || m
        == ConductorMessage::LeapError(None)
}

/// However many messages from polls with no hand in view the conductor takes,
/// the pitch, the chord, the pitch bend and every control keep their last
/// values, and after each one both hands read as hidden unless it only cleared
/// the error.
pub proof fn lemma_hidden_hands_hold(
    states: Seq<Conductor>,
    msgs: Seq<ConductorMessage>,
    handedness: Handedness,
    preset: Preset,
)
    requires
        states.len() == msgs.len() + 1,
        forall|k: int| 0 <= k < msgs.len() ==> hidden_hands_message(#[trigger] msgs[k]),
        forall|k: int|
            0 <= k < msgs.len() ==> message_update(
                states[k],
                states[k + 1],
                #[trigger] msgs[k],
                handedness,
                preset,
            ),
    ensures
        forall|k: int|
            0 <= k < states.len() ==> {
                &&& (#[trigger] states[k]).controls == states[0].controls
                &&& states[k].chord == states[0].chord
                &&& states[k].pitch_bend == states[0].pitch_bend
            },
        forall|k: int|
            1 <= k < states.len() && msgs[k - 1] is VisibleHands ==> !(#[trigger] states[k]).left_visible
                && !states[k].right_visible,
    decreases msgs.len(),
{
    if msgs.len() > 0 {
        let n = msgs.len() - 1;
        lemma_hidden_hands_hold(states.drop_last(), msgs.drop_last(), handedness, preset);
        assert(message_update(states[n], states[n + 1], msgs[n], handedness, preset));
        assert forall|k: int| 0 <= k < states.len() implies {
            &&& (#[trigger] states[k]).controls == states[0].controls
            &&& states[k].chord == states[0].chord
            &&& states[k].pitch_bend == states[0].pitch_bend
        } by {
            if k < states.len() - 1 {
                assert(states.drop_last()[k] == states[k]);
            } else {
                assert(states.drop_last()[n] == states[n]);
                assert(states.drop_last()[0] == states[0]);
            }
        }
        assert forall|k: int|
            1 <= k < states.len() && msgs[k - 1] is VisibleHands implies !(
            #[trigger] states[k]).left_visible && !states[k].right_visible by {
            if k < states.len() - 1 {
                assert(states.drop_last()[k] == states[k]);
                assert(msgs.drop_last()[k - 1] == msgs[k - 1]);
            }
        }
    }
}

impl Conductor {
    /// The volume hand moved.
    #[verifier::rlimit(40)]
    pub fn volume_hand(&mut self, hand: &HandMessage)
        requires
            old(self).wf(),
            hand.wf(),
        ensures
            final(self).wf(),
            volume_update(*old(self), *final(self), *hand),
    {
        self.controls.cutoff_note.set_scaled(hand.position.x, 50 * UNIT, 200 * UNIT);
        self.controls.volume.set_scaled(hand.position.y, 300 * UNIT, 400 * UNIT);
        self.controls.resonance.set_scaled(hand.position.z, 100 * UNIT, -100 * UNIT);
        self.controls.pluck_position.set_scaled(hand.grab, 0, UNIT);
        if hand.pinch > PLUCK_PINCH {
            let mut strums: Vec<bool> = Vec::new();
            let mut any: bool = false;
            let mut i: usize = 0;
            while i < VOICES
                invariant
                    i <= VOICES,
                    self.armed@.len() == VOICES,
                    strums@.len() == i,
                    forall|k: int|
                        0 <= k < i ==> strums@[k] == voice_plucked(
                            k,
                            self.armed@[k],
                            hand.rotation,
                        ),
                    any == exists|k: int| 0 <= k < i && #[trigger] strums@[k],
                decreases VOICES - i,
            {
                let plucked: bool = self.armed[i] && match hand.rotation {
                    Some(a) => a > 200 * i as i64,
                    None => false,
                };
                let ghost before = strums@;
                strums.push(plucked);
                proof {
                    assert(forall|k: int| 0 <= k < i ==> strums@[k] == before[k]);
                    if plucked {
                        assert(strums@[i as int]);
                    }
                    if any {
                        let k = choose|k: int| 0 <= k < i && #[trigger] before[k];
                        assert(strums@[k]);
                    }
                    if !any && !plucked {
                        assert forall|k: int| 0 <= k < i + 1 implies !strums@[k] by {
                            if k < i {
                                assert(!before[k]);
                            }
                        }
                    }
                }
                any = any || plucked;
                i = i + 1;
            }
            self.strums = strums;
            self.controls.pluck.value = any;
        }
        proof {
            let o = *old(self);
            let n = *self;
            assert(n.controls.note == o.controls.note);
            assert(n.controls.supersaw == o.controls.supersaw);
            assert(n.controls.pluck.path == o.controls.pluck.path);
            assert(n.armed == o.armed);
            assert(n.chord == o.chord);
            assert(n.error == o.error);
            assert(n.controls.cutoff_note.path == o.controls.cutoff_note.path);
            assert(n.controls.pluck_position.value == remap(
                hand.grab as int,
                0,
                UNIT as int,
                o.controls.pluck_position.min as int,
                o.controls.pluck_position.max as int,
            ));
        }
    }

    /// Applies one message from the tracking reader.
    pub fn handle(&mut self, msg: ConductorMessage, handedness: &Handedness, preset: &Preset)
        requires
            old(self).wf(),
            preset.wf(),
            msg matches ConductorMessage::PitchHand(h) ==> h.wf(),
            msg matches ConductorMessage::VolumeHand(h) ==> h.wf(),
        ensures
            final(self).wf(),
            message_update(*old(self), *final(self), msg, *handedness, *preset),
    {
        match msg {
            ConductorMessage::VisibleHands { left, right } => {
                self.left_visible = left;
                self.right_visible = right;
                let pitch_visible: bool = match pitch_hand_type(handedness) {
                    HandType::Left => left,
                    HandType::Right => right,
                };
                if !pitch_visible {
                    let mut armed: Vec<bool> = Vec::new();
                    let mut i: usize = 0;
                    while i < VOICES
                        invariant
                            i <= VOICES,
                            armed@.len() == i,
                            forall|k: int| 0 <= k < i ==> !armed@[k],
                        decreases VOICES - i,
                    {
                        armed.push(false);
                        i = i + 1;
                    }
                    self.armed = armed;
                }
            },
            ConductorMessage::PitchHand(hand) => self.pitch_hand(&hand, preset),
            ConductorMessage::VolumeHand(hand) => self.volume_hand(&hand),
            ConductorMessage::LeapError(e) => {
                self.error = e;
            },
        }
    }

    /// Writes every control to the engine and applies them at once.
    pub fn send(&self, state: &mut ParamState)
        requires
            old(state).wf(),
            self.wf(),
            self.controls.bound_to(old(state)),
        ensures
            final(state).wf(),
            final(state).nodes@ == old(state).nodes@,
            final(state).live@ == final(state).pending@,
            forall|k: int|
                0 <= k < self.controls.paths().len() ==> final(state).live_at(
                    #[trigger] self.controls.paths()[k],
                ) == self.controls.values()[k],
            forall|i: int|
                0 <= i < old(state).pending@.len() && (forall|k: int|
                    0 <= k < self.controls.paths().len() ==> i != path_index(
                        old(state).nodes@,
                        #[trigger] self.controls.paths()[k],
                    )) ==> final(state).live@[i] == old(state).pending@[i],
    {
        self.controls.send(state);
    }
}

} // verus!
