use vstd::prelude::*;

verus! {

/// A half turn in thousandths of a radian, rounded.
pub const PI: i64 = 3142;

/// A quarter turn in thousandths of a radian, rounded.
pub const HALF_PI: i64 = 1571;

/// Largest magnitude of a coordinate, a velocity component or an angle that
/// the sensor reports, in thousandths.
pub const SENSOR_LIMIT: i64 = 100_000_000;

#[derive(Clone, Copy, Debug, PartialEq, Eq, Structural)]
pub enum HandType {
    Left,
    Right,
}

#[derive(Clone, Copy, Debug, PartialEq, Eq, Structural)]
pub enum Handedness {
    RightHanded,
    LeftHanded,
}

/// Three components, in thousandths of a millimetre (or of a millimetre per
/// second).
#[derive(Clone, Copy, Debug, PartialEq, Eq, Structural)]
pub struct Vector3 {
    pub x: i64,
    pub y: i64,
    pub z: i64,
}

/// One hand as the sensor reports it, in fixed point: palm position and
/// velocity, the arm's roll angle (thousandths of a radian), and pinch and grab
/// strengths (`0` to one whole unit).
#[derive(Clone, Copy, Debug, PartialEq, Eq, Structural)]
pub struct Hand {
    pub hand_type: HandType,
    pub position: Vector3,
    pub velocity: Vector3,
    pub roll: i64,
    pub pinch: i64,
    pub grab: i64,
}

/// One hand in the body frame, as the conductor receives it.
#[derive(Clone, Copy, Debug, PartialEq, Eq, Structural)]
pub struct HandMessage {
    pub x_factor: i64,
    pub position: Vector3,
    pub velocity: Vector3,
    pub rotation: Option<i64>,
    pub pinch: i64,
    pub grab: i64,
}

/// What the tracking reader hands on after each poll.
#[derive(Debug)]
pub enum ConductorMessage {
    VisibleHands { left: bool, right: bool },
    PitchHand(HandMessage),
    VolumeHand(HandMessage),
    LeapError(Option<String>),
}

/// What one poll of the sensor gave.
pub enum PollOutcome {
    /// A tracking frame with the hands it saw.
    Tracking(Vec<Hand>),
    /// Another kind of event.
    Other,
    /// The poll failed, with the error's description.
    Failed(String),
}

pub open spec fn within_sensor(v: i64) -> bool {
    -SENSOR_LIMIT <= v <= SENSOR_LIMIT
}

impl Vector3 {
    pub open spec fn wf(&self) -> bool {
        &&& within_sensor(self.x)
        &&& within_sensor(self.y)
        &&& within_sensor(self.z)
    }
}

impl Hand {
    pub open spec fn wf(&self) -> bool {
        &&& self.position.wf()
        &&& self.velocity.wf()
        &&& within_sensor(self.roll)
        &&& within_sensor(self.pinch)
        &&& within_sensor(self.grab)
    }
}

impl HandMessage {
    pub open spec fn wf(&self) -> bool {
        &&& (self.x_factor == 1 || self.x_factor == -1)
        &&& self.position.wf()
        &&& self.velocity.wf()
        &&& (self.rotation matches Some(a) ==> within_sensor(a))
        &&& within_sensor(self.pinch)
        &&& within_sensor(self.grab)
    }
}

pub open spec fn spec_x_factor(t: HandType) -> int {
    match t {
        HandType::Left => -1,
        HandType::Right => 1,
    }
}

/// `v` with its x axis pointing away from the body for a hand of type `t`.
pub open spec fn from_body(t: HandType, v: Vector3) -> Vector3 {
    Vector3 { x: (spec_x_factor(t) * v.x) as i64, y: v.y, z: v.z }
}

/// The twist angle in the body frame, kept only inside `(-HALF_PI, PI)`.
pub open spec fn spec_rotation(t: HandType, roll: i64) -> Option<i64> {
    let angle = -roll * spec_x_factor(t);
    if angle < PI && angle > -HALF_PI {
        Some(angle as i64)
    } else {
        None
    }
}

pub open spec fn body_message(h: Hand) -> HandMessage {
    HandMessage {
        x_factor: spec_x_factor(h.hand_type) as i64,
        position: from_body(h.hand_type, h.position),
        velocity: from_body(h.hand_type, h.velocity),
        rotation: spec_rotation(h.hand_type, h.roll),
        pinch: h.pinch,
        grab: h.grab,
    }
}

pub open spec fn spec_pitch_hand_type(h: Handedness) -> HandType {
    match h {
        Handedness::RightHanded => HandType::Right,
        Handedness::LeftHanded => HandType::Left,
    }
}

pub open spec fn spec_volume_hand_type(h: Handedness) -> HandType {
    match h {
        Handedness::RightHanded => HandType::Left,
        Handedness::LeftHanded => HandType::Right,
    }
}

/// The hand that plays pitch.
pub fn pitch_hand_type(handedness: &Handedness) -> (t: HandType)
    ensures
        t == spec_pitch_hand_type(*handedness),
{
    match handedness {
        Handedness::RightHanded => HandType::Right,
        Handedness::LeftHanded => HandType::Left,
    }
}

/// The hand that plays volume and texture.
pub fn volume_hand_type(handedness: &Handedness) -> (t: HandType)
    ensures
        t == spec_volume_hand_type(*handedness),
        t != spec_pitch_hand_type(*handedness),
{
    match handedness {
        Handedness::RightHanded => HandType::Left,
        Handedness::LeftHanded => HandType::Right,
    }
}

impl Hand {
    /// `-1` for a left hand, whose outward direction is negative x; `1` for a
    /// right hand.
    pub fn x_factor(&self) -> (f: i64)
        ensures
            f == spec_x_factor(self.hand_type),
    {
        match self.hand_type {
            HandType::Left => -1,
            HandType::Right => 1,
        }
    }

    /// Palm position with x positive away from the body.
    pub fn position_from_body(&self) -> (p: Vector3)
        requires
            self.wf(),
        ensures
            p == from_body(self.hand_type, self.position),
    {
        Vector3 { x: self.x_factor() * self.position.x, y: self.position.y, z: self.position.z }
    }

    /// Palm velocity with x positive away from the body.
    pub fn velocity_from_body(&self) -> (v: Vector3)
        requires
            self.wf(),
        ensures
            v == from_body(self.hand_type, self.velocity),
    {
        Vector3 { x: self.x_factor() * self.velocity.x, y: self.velocity.y, z: self.velocity.z }
    }

    /// Twist angle in the body frame; `None` outside the range where the
    /// sensor's estimate holds.
    pub fn rotation_from_body(&self) -> (r: Option<i64>)
        requires
            self.wf(),
        ensures
            r == spec_rotation(self.hand_type, self.roll),
    {
        let angle: i64 = -self.roll * self.x_factor();
        if angle < PI && angle > -HALF_PI {
            Some(angle)
        } else {
            None
        }
    }

    pub fn message(&self) -> (m: HandMessage)
        requires
            self.wf(),
        ensures
            m == body_message(*self),
            m.wf(),
    {
        HandMessage {
            x_factor: self.x_factor(),
            position: self.position_from_body(),
            velocity: self.velocity_from_body(),
            rotation: self.rotation_from_body(),
            pinch: self.pinch,
            grab: self.grab,
        }
    }
}

/// Index of the first hand of type `t`, from `i` on; `-1` where none is.
pub open spec fn first_hand_from(hands: Seq<Hand>, t: HandType, i: int) -> int
    decreases hands.len() - i,
{
    if i < 0 || i >= hands.len() {
        -1
    } else if hands[i].hand_type == t {
        i
    } else {
        first_hand_from(hands, t, i + 1)
    }
}

pub open spec fn first_hand(hands: Seq<Hand>, t: HandType) -> int {
    first_hand_from(hands, t, 0)
}

proof fn lemma_first_hand_from(hands: Seq<Hand>, t: HandType, i: int)
    requires
        0 <= i,
    ensures
        first_hand_from(hands, t, i) == -1 || (i <= first_hand_from(hands, t, i) < hands.len()
            && hands[first_hand_from(hands, t, i)].hand_type == t),
        first_hand_from(hands, t, i) == -1 <==> forall|k: int|
            i <= k < hands.len() ==> hands[k].hand_type != t,
    decreases hands.len() - i,
{
    if i < hands.len() {
        lemma_first_hand_from(hands, t, i + 1);
    }
}

/// The message for the first hand of type `t`, if one is visible.
pub open spec fn hand_messages(hands: Seq<Hand>, t: HandType, pitch: bool) -> Seq<ConductorMessage> {
    let i = first_hand(hands, t);
    if i < 0 {
        seq![]
    } else if pitch {
        seq![ConductorMessage::PitchHand(body_message(hands[i]))]
    } else {
        seq![ConductorMessage::VolumeHand(body_message(hands[i]))]
    }
}

/// The messages that one poll hands on, in order: for a tracking frame, which
/// hands are visible, then the pitch hand and the volume hand that are
/// visible, then that there is no error; for another event, only that there is
/// no error; for a failed poll, the error.
pub open spec fn poll_messages(outcome: PollOutcome, handedness: Handedness) -> Seq<
    ConductorMessage,
> {
    match outcome {
        PollOutcome::Tracking(hands) => seq![
            ConductorMessage::VisibleHands {
                left: first_hand(hands@, HandType::Left) >= 0,
                right: first_hand(hands@, HandType::Right) >= 0,
            },
        ] + hand_messages(hands@, spec_pitch_hand_type(handedness), true) + hand_messages(
            hands@,
            spec_volume_hand_type(handedness),
            false,
        ) + seq![ConductorMessage::LeapError(None)],
        PollOutcome::Other => seq![ConductorMessage::LeapError(None)],
        PollOutcome::Failed(e) => seq![ConductorMessage::LeapError(Some(e))],
    }
}

fn find_hand(hands: &Vec<Hand>, t: HandType) -> (r: Option<usize>)
    ensures
        r is Some <==> first_hand(hands@, t) >= 0,
        r is Some ==> r->0 == first_hand(hands@, t) && r->0 < hands@.len(),
{
    proof {
        lemma_first_hand_from(hands@, t, 0);
    }
    let mut i: usize = 0;
    while i < hands.len()
        invariant
            i <= hands@.len(),
            first_hand_from(hands@, t, i as int) == first_hand(hands@, t),
        decreases hands@.len() - i,
    {
        if hands[i].hand_type == t {
            return Some(i);
        }
        i = i + 1;
    }
    None
}

/// Turns the outcome of one poll into the messages for the conductor.
pub fn messages_for_poll(outcome: PollOutcome, handedness: &Handedness) -> (m: Vec<ConductorMessage>)
    requires
        outcome matches PollOutcome::Tracking(hands) ==> forall|k: int|
            0 <= k < hands@.len() ==> #[trigger] hands@[k].wf(),
    ensures
        m@ == poll_messages(outcome, *handedness),
{
    match outcome {
        PollOutcome::Tracking(hands) => {
            let mut m: Vec<ConductorMessage> = Vec::new();
            let left: Option<usize> = find_hand(&hands, HandType::Left);
            let right: Option<usize> = find_hand(&hands, HandType::Right);
            m.push(ConductorMessage::VisibleHands { left: left.is_some(), right: right.is_some() });
            let ghost first = m@;
            let pitch: Option<usize> = find_hand(&hands, pitch_hand_type(handedness));
            if let Some(i) = pitch {
                m.push(ConductorMessage::PitchHand(hands[i].message()));
            }
            let ghost second = m@;
            assert(second == first + hand_messages(
                hands@,
                spec_pitch_hand_type(*handedness),
                true,
            ));
            let volume: Option<usize> = find_hand(&hands, volume_hand_type(handedness));
            if let Some(i) = volume {
                m.push(ConductorMessage::VolumeHand(hands[i].message()));
            }
            let ghost third = m@;
            assert(third == second + hand_messages(
                hands@,
                spec_volume_hand_type(*handedness),
                false,
            ));
            m.push(ConductorMessage::LeapError(None));
            m
        },
        PollOutcome::Other => {
            let mut m: Vec<ConductorMessage> = Vec::new();
            m.push(ConductorMessage::LeapError(None));
            m
        },
        PollOutcome::Failed(e) => {
            let mut m: Vec<ConductorMessage> = Vec::new();
            m.push(ConductorMessage::LeapError(Some(e)));
            m
        },
    }
}

/// With no hand in view, a poll reports both hands hidden and no error, and
/// nothing else.
pub proof fn lemma_no_hands_messages(hands: Vec<Hand>, handedness: Handedness)
    requires
        hands@.len() == 0,
    ensures
        poll_messages(PollOutcome::Tracking(hands), handedness) == seq![
            ConductorMessage::VisibleHands { left: false, right: false },
            ConductorMessage::LeapError(None),
        ],
{
    assert(poll_messages(PollOutcome::Tracking(hands), handedness) =~= seq![
        ConductorMessage::VisibleHands { left: false, right: false },
        ConductorMessage::LeapError(None),
    ]);
}

} // verus!
