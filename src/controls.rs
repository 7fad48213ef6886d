use vstd::prelude::*;

use crate::range_math::{bounded, convert_range, quantized, remap, UNIT};
use crate::scale::ScaleWindow;

verus! {

/// A parameter that the audio engine declares: its path, range and initial
/// value.
pub struct Node {
    pub path: String,
    pub min: i64,
    pub max: i64,
    pub init: i64,
}

impl Node {
    /// The range is one that controls can remap onto.
    pub open spec fn declares_range(&self) -> bool {
        &&& bounded(self.min as int)
        &&& bounded(self.max as int)
        &&& self.min <= self.max
    }
}

/// The audio engine's parameter table. Writes are staged in `pending` and
/// become visible in `live`, which the engine computes with, only on `send`.
pub struct ParamState {
    pub nodes: Vec<Node>,
    pub live: Vec<i64>,
    pub pending: Vec<i64>,
}

/// Index of the first node, from `i` on, whose path is `p`; `-1` where none is.
pub open spec fn path_index_from(nodes: Seq<Node>, p: Seq<char>, i: int) -> int
    decreases nodes.len() - i,
{
    if i < 0 || i >= nodes.len() {
        -1
    } else if nodes[i].path@ == p {
        i
    } else {
        path_index_from(nodes, p, i + 1)
    }
}

pub open spec fn path_index(nodes: Seq<Node>, p: Seq<char>) -> int {
    path_index_from(nodes, p, 0)
}

proof fn lemma_path_index_from(nodes: Seq<Node>, p: Seq<char>, i: int)
    requires
        0 <= i,
    ensures
        path_index_from(nodes, p, i) == -1 || (i <= path_index_from(nodes, p, i) < nodes.len()
            && nodes[path_index_from(nodes, p, i)].path@ == p),
    decreases nodes.len() - i,
{
    if i < nodes.len() && nodes[i].path@ != p {
        lemma_path_index_from(nodes, p, i + 1);
    }
}

impl ParamState {
    pub open spec fn wf(&self) -> bool {
        &&& self.live@.len() == self.nodes@.len()
        &&& self.pending@.len() == self.nodes@.len()
        &&& forall|i: int| 0 <= i < self.nodes@.len() ==> #[trigger] self.nodes@[i].declares_range()
    }

    pub open spec fn has_path(&self, p: Seq<char>) -> bool {
        path_index(self.nodes@, p) >= 0
    }

    /// What the engine reads at path `p`.
    pub open spec fn live_at(&self, p: Seq<char>) -> i64 {
        self.live@[path_index(self.nodes@, p)]
    }

    /// What the next `send` makes visible at path `p`.
    pub open spec fn pending_at(&self, p: Seq<char>) -> i64 {
        self.pending@[path_index(self.nodes@, p)]
    }

    /// A table whose parameters all hold their initial values.
    pub fn new(nodes: Vec<Node>) -> (s: ParamState)
        requires
            forall|i: int| 0 <= i < nodes@.len() ==> #[trigger] nodes@[i].declares_range(),
        ensures
            s.wf(),
            s.nodes@ == nodes@,
            forall|i: int| 0 <= i < nodes@.len() ==> s.live@[i] == nodes@[i].init,
            s.pending@ == s.live@,
    {
        let mut live: Vec<i64> = Vec::new();
        let mut i: usize = 0;
        while i < nodes.len()
            invariant
                i <= nodes@.len(),
                live@.len() == i,
                forall|k: int| 0 <= k < i ==> live@[k] == nodes@[k].init,
            decreases nodes@.len() - i,
        {
            live.push(nodes[i].init);
            i = i + 1;
        }
        let pending: Vec<i64> = live.clone();
        ParamState { nodes, live, pending }
    }

    /// Index of the node with path `path`.
    pub fn node_by_path(&self, path: &String) -> (r: Option<usize>)
        ensures
            r is Some <==> path_index(self.nodes@, path@) >= 0,
            r is Some ==> r->0 == path_index(self.nodes@, path@),
            r is Some ==> r->0 < self.nodes@.len() && self.nodes@[r->0 as int].path@ == path@,
            r is None ==> path_index(self.nodes@, path@) == -1,
    {
        proof {
            lemma_path_index_from(self.nodes@, path@, 0);
        }
        let mut i: usize = 0;
        while i < self.nodes.len()
            invariant
                i <= self.nodes@.len(),
                path_index_from(self.nodes@, path@, i as int) == path_index(self.nodes@, path@),
            decreases self.nodes@.len() - i,
        {
            if self.nodes[i].path == *path {
                return Some(i);
            }
            i = i + 1;
        }
        None
    }

    /// The value the engine currently computes with at `path`.
    pub fn get_by_path(&self, path: &String) -> (r: Option<i64>)
        requires
            self.wf(),
        ensures
            r is Some <==> self.has_path(path@),
            r is Some ==> r->0 == self.live_at(path@),
    {
        match self.node_by_path(path) {
            Some(i) => Some(self.live[i]),
            None => None,
        }
    }

    /// Stages `value` at `path`; returns whether the path exists. Nothing the
    /// engine reads changes before `send`.
    pub fn set_by_path(&mut self, path: &String, value: i64) -> (found: bool)
        requires
            old(self).wf(),
        ensures
            final(self).wf(),
            found == old(self).has_path(path@),
            final(self).nodes@ == old(self).nodes@,
            final(self).live@ == old(self).live@,
            found ==> final(self).pending@ == old(self).pending@.update(
                path_index(old(self).nodes@, path@),
                value,
            ),
            !found ==> final(self).pending@ == old(self).pending@,
    {
        match self.node_by_path(path) {
            Some(i) => {
                self.pending.set(i, value);
                true
            },
            None => false,
        }
    }

    /// Applies every staged write at once.
    pub fn send(&mut self)
        requires
            old(self).wf(),
        ensures
            final(self).wf(),
            final(self).nodes@ == old(self).nodes@,
            final(self).live@ == old(self).pending@,
            final(self).pending@ == old(self).pending@,
    {
        self.live = self.pending.clone();
        proof {
            assert(self.live@ =~= self.pending@);
        }
    }
}

/// A continuous parameter with the range it declared to the engine.
pub struct Control {
    pub value: i64,
    pub min: i64,
    pub max: i64,
    pub path: String,
}

impl Control {
    pub open spec fn wf(&self) -> bool {
        &&& bounded(self.min as int)
        &&& bounded(self.max as int)
        &&& self.min <= self.max
    }

    /// The control as the engine declares it, at its initial value.
    pub fn from_node(node: &Node) -> (c: Control)
        ensures
            c.value == node.init,
            c.min == node.min,
            c.max == node.max,
            c.path@ == node.path@,
    {
        Control { value: node.init, min: node.min, max: node.max, path: node.path.clone() }
    }

    pub fn receive(&mut self, state: &ParamState)
        requires
            state.wf(),
            state.has_path(old(self).path@),
        ensures
            final(self).value == state.live_at(old(self).path@),
            final(self).path == old(self).path,
            final(self).min == old(self).min,
            final(self).max == old(self).max,
    {
        let v: Option<i64> = state.get_by_path(&self.path);
        if let Some(v) = v {
            self.value = v;
        }
    }

    pub fn send(&self, state: &mut ParamState)
        requires
            old(state).wf(),
            old(state).has_path(self.path@),
        ensures
            final(state).wf(),
            final(state).nodes@ == old(state).nodes@,
            final(state).live@ == old(state).live@,
            final(state).pending@ == old(state).pending@.update(
                path_index(old(state).nodes@, self.path@),
                self.value,
            ),
    {
        state.set_by_path(&self.path, self.value);
    }

    /// Sets the value from `value` in `[in_start, in_end]`, remapped onto the
    /// control's own range.
    pub fn set_scaled(&mut self, value: i64, in_start: i64, in_end: i64)
        requires
            old(self).wf(),
            bounded(value as int),
            bounded(in_start as int),
            bounded(in_end as int),
            in_start != in_end,
        ensures
            final(self).value == remap(
                value as int,
                in_start as int,
                in_end as int,
                old(self).min as int,
                old(self).max as int,
            ),
            old(self).min <= final(self).value <= old(self).max,
            final(self).min == old(self).min,
            final(self).max == old(self).max,
            final(self).path == old(self).path,
    {
        self.value = convert_range(value, in_start, in_end, self.min, self.max);
    }
}

/// The engine stores a switch as `0` or one whole unit; above half a unit reads
/// as on.
pub open spec fn reads_on(v: i64) -> bool {
    v > UNIT / 2
}

/// An on-off parameter.
pub struct BoolControl {
    pub value: bool,
    pub path: String,
}

impl BoolControl {
    pub fn from_node(node: &Node) -> (c: BoolControl)
        ensures
            c.value == reads_on(node.init),
            c.path@ == node.path@,
    {
        BoolControl { value: node.init > UNIT / 2, path: node.path.clone() }
    }

    pub fn receive(&mut self, state: &ParamState)
        requires
            state.wf(),
            state.has_path(old(self).path@),
        ensures
            final(self).value == reads_on(state.live_at(old(self).path@)),
            final(self).path == old(self).path,
    {
        let v: Option<i64> = state.get_by_path(&self.path);
        if let Some(v) = v {
            self.value = v > UNIT / 2;
        }
    }

    pub fn send(&self, state: &mut ParamState)
        requires
            old(state).wf(),
            old(state).has_path(self.path@),
        ensures
            final(state).wf(),
            final(state).nodes@ == old(state).nodes@,
            final(state).live@ == old(state).live@,
            final(state).pending@ == old(state).pending@.update(
                path_index(old(state).nodes@, self.path@),
                if self.value {
                    UNIT
                } else {
                    0
                },
            ),
    {
        state.set_by_path(
            &self.path,
            if self.value {
                UNIT
            } else {
                0
            },
        );
    }
}

/// Number of smooth steps that an autotune strength stands for: its whole
/// units, none where it is not positive.
pub open spec fn steps_of(strength: i64) -> nat {
    if strength <= 0 {
        0
    } else {
        (strength / UNIT) as nat
    }
}

/// A full pinch, one whole unit out of `[0, UNIT]`, sets the autotune strength
/// to the top of its range, which gives at least five smooth steps when that
/// top is five units or more.
pub proof fn lemma_full_pinch_steps(min: i64, max: i64)
    requires
        0 <= min <= max,
        max >= 5 * UNIT,
    ensures
        remap(UNIT as int, 0, UNIT as int, min as int, max as int) == max,
        steps_of(max) >= 5,
{
    vstd::arithmetic::div_mod::lemma_div_multiples_vanish(max - min, UNIT as int);
    assert(UNIT * (max - min) == (max - min) * UNIT) by (nonlinear_arith);
    assert(max / UNIT >= 5) by {
        vstd::arithmetic::div_mod::lemma_div_is_ordered(5 * UNIT as int, max as int, UNIT as int);
        vstd::arithmetic::div_mod::lemma_div_multiples_vanish(5, UNIT as int);
        assert(5 * UNIT == UNIT * 5);
    }
}

/// The played pitch, the raw pitch it was quantized from, and the autotune
/// strength that quantized it.
pub struct NoteControl {
    pub value: i64,
    pub path: String,
    pub raw_value: i64,
    pub raw_path: String,
    pub autotune: Control,
}

impl NoteControl {
    pub open spec fn wf(&self) -> bool {
        &&& self.autotune.wf()
        &&& self.path@ != self.raw_path@
        &&& self.path@ != self.autotune.path@
        &&& self.raw_path@ != self.autotune.path@
    }

    pub open spec fn sent_to(&self, state: &ParamState) -> bool {
        &&& state.has_path(self.path@)
        &&& state.has_path(self.raw_path@)
        &&& state.has_path(self.autotune.path@)
    }

    pub fn from_nodes(note: &Node, raw: &Node, autotune: &Node) -> (c: NoteControl)
        ensures
            c.value == note.init,
            c.path@ == note.path@,
            c.raw_value == raw.init,
            c.raw_path@ == raw.path@,
            c.autotune.value == autotune.init,
            c.autotune.min == autotune.min,
            c.autotune.max == autotune.max,
            c.autotune.path@ == autotune.path@,
    {
        NoteControl {
            value: note.init,
            path: note.path.clone(),
            raw_value: raw.init,
            raw_path: raw.path.clone(),
            autotune: Control::from_node(autotune),
        }
    }

    pub fn receive(&mut self, state: &ParamState)
        requires
            state.wf(),
            old(self).sent_to(state),
        ensures
            final(self).value == state.live_at(old(self).path@),
            final(self).raw_value == state.live_at(old(self).raw_path@),
            final(self).autotune.value == state.live_at(old(self).autotune.path@),
            final(self).path == old(self).path,
            final(self).raw_path == old(self).raw_path,
            final(self).autotune.path == old(self).autotune.path,
            final(self).autotune.min == old(self).autotune.min,
            final(self).autotune.max == old(self).autotune.max,
    {
        let v: Option<i64> = state.get_by_path(&self.path);
        if let Some(v) = v {
            self.value = v;
        }
        let r: Option<i64> = state.get_by_path(&self.raw_path);
        if let Some(r) = r {
            self.raw_value = r;
        }
        self.autotune.receive(state);
    }

    /// Stages all three fields. The engine sees none of them before the
    /// table's `send`, and then all of them together.
    pub fn send(&self, state: &mut ParamState)
        requires
            old(state).wf(),
            self.wf(),
            self.sent_to(old(state)),
        ensures
            final(state).wf(),
            final(state).nodes@ == old(state).nodes@,
            final(state).live@ == old(state).live@,
            final(state).pending_at(self.path@) == self.value,
            final(state).pending_at(self.raw_path@) == self.raw_value,
            final(state).pending_at(self.autotune.path@) == self.autotune.value,
            forall|i: int|
                0 <= i < old(state).pending@.len() && i != path_index(old(state).nodes@, self.path@)
                    && i != path_index(old(state).nodes@, self.raw_path@) && i != path_index(
                    old(state).nodes@,
                    self.autotune.path@,
                ) ==> final(state).pending@[i] == old(state).pending@[i],
    {
        proof {
            lemma_path_index_from(state.nodes@, self.path@, 0);
            lemma_path_index_from(state.nodes@, self.raw_path@, 0);
            lemma_path_index_from(state.nodes@, self.autotune.path@, 0);
        }
        state.set_by_path(&self.path, self.value);
        state.set_by_path(&self.raw_path, self.raw_value);
        self.autotune.send(state);
    }

    /// Sets the raw pitch from `value` in `[in_start, in_end]` remapped onto
    /// `[note_low, note_high]`, the autotune strength from `autotune_value` in
    /// `[at_start, at_end]`, and the played pitch as the raw pitch quantized
    /// toward the window's notes with that strength.
    pub fn set_scaled(
        &mut self,
        value: i64,
        in_start: i64,
        in_end: i64,
        autotune_value: i64,
        at_start: i64,
        at_end: i64,
        note_low: i64,
        note_high: i64,
        window: &ScaleWindow,
    )
        requires
            old(self).wf(),
            bounded(value as int),
            bounded(in_start as int),
            bounded(in_end as int),
            in_start != in_end,
            bounded(autotune_value as int),
            bounded(at_start as int),
            bounded(at_end as int),
            at_start != at_end,
            bounded(note_low as int),
            bounded(note_high as int),
            note_low <= note_high,
        ensures
            final(self).wf(),
            final(self).raw_value == remap(
                value as int,
                in_start as int,
                in_end as int,
                note_low as int,
                note_high as int,
            ),
            final(self).autotune.value == remap(
                autotune_value as int,
                at_start as int,
                at_end as int,
                old(self).autotune.min as int,
                old(self).autotune.max as int,
            ),
            final(self).value == quantized(
                final(self).raw_value as int,
                steps_of(final(self).autotune.value),
                window.notes@,
            ),
            final(self).path == old(self).path,
            final(self).raw_path == old(self).raw_path,
            final(self).autotune.path == old(self).autotune.path,
            final(self).autotune.min == old(self).autotune.min,
            final(self).autotune.max == old(self).autotune.max,
    {
        self.raw_value = convert_range(value, in_start, in_end, note_low, note_high);
        self.autotune.set_scaled(autotune_value, at_start, at_end);
        let steps: usize = if self.autotune.value <= 0 {
            0
        } else {
            (self.autotune.value / UNIT) as usize
        };
        self.value = window.autotune(self.raw_value, steps);
    }
}

/// The controls of the instrument, each bound to its engine parameter.
pub struct Controls {
    pub note: NoteControl,
    pub volume: Control,
    pub cutoff_note: Control,
    pub resonance: Control,
    pub supersaw: Control,
    pub detune: Control,
    pub sub_volume: Control,
    pub pluck: BoolControl,
    pub pluck_position: Control,
}

/// `c` is the control that `state` declares at path `p`, at its initial value.
pub open spec fn declared(state: &ParamState, p: Seq<char>, c: Control) -> bool {
    let n = state.nodes@[path_index(state.nodes@, p)];
    &&& state.has_path(p)
    &&& c.path@ == p
    &&& c.value == n.init
    &&& c.min == n.min
    &&& c.max == n.max
}

/// The initial value that `state` declares at path `p`.
pub open spec fn init_at(state: &ParamState, p: Seq<char>) -> i64 {
    state.nodes@[path_index(state.nodes@, p)].init
}

/// The paths of the parameters that the instrument needs, in the order of
/// `Controls::paths`.
pub open spec fn required_paths() -> Seq<Seq<char>> {
    seq![
        "note"@,
        "raw_note"@,
        "autotune_strength"@,
        "volume"@,
        "cutoff_note"@,
        "res"@,
        "supersaw"@,
        "detune"@,
        "sub_volume"@,
        "pluck"@,
        "pluck_position"@,
    ]
}

pub open spec fn all_distinct(s: Seq<Seq<char>>) -> bool {
    forall|i: int, j: int| 0 <= i < s.len() && 0 <= j < s.len() && i != j ==> s[i] != s[j]
}

proof fn lemma_required_paths_distinct()
    ensures
        all_distinct(required_paths()),
        required_paths().len() == 11,
{
    reveal_strlit("note");
    reveal_strlit("raw_note");
    reveal_strlit("autotune_strength");
    reveal_strlit("volume");
    reveal_strlit("cutoff_note");
    reveal_strlit("res");
    reveal_strlit("supersaw");
    reveal_strlit("detune");
    reveal_strlit("sub_volume");
    reveal_strlit("pluck");
    reveal_strlit("pluck_position");
    let s = required_paths();
    assert(s[1][0] != s[6][0]);
    assert(s[3][0] != s[7][0]);
    assert forall|i: int, j: int| 0 <= i < s.len() && 0 <= j < s.len() && i != j implies s[i]
        != s[j] by {
        if s[i].len() == s[j].len() {
            assert(s[i][0] != s[j][0]);
        }
    }
}

/// Distinct paths that `nodes` all declares sit at distinct indices.
proof fn lemma_distinct_indices(nodes: Seq<Node>, paths: Seq<Seq<char>>)
    requires
        all_distinct(paths),
        forall|k: int| 0 <= k < paths.len() ==> path_index(nodes, #[trigger] paths[k]) >= 0,
    ensures
        forall|i: int, j: int|
            0 <= i < paths.len() && 0 <= j < paths.len() && i != j ==> path_index(
                nodes,
                paths[i],
            ) != path_index(nodes, paths[j]),
        forall|k: int|
            0 <= k < paths.len() ==> path_index(nodes, #[trigger] paths[k]) < nodes.len(),
{
    assert forall|k: int| 0 <= k < paths.len() implies path_index(nodes, #[trigger] paths[k])
        < nodes.len() by {
        lemma_path_index_from(nodes, paths[k], 0);
    }
    assert forall|i: int, j: int|
        0 <= i < paths.len() && 0 <= j < paths.len() && i != j implies path_index(
        nodes,
        paths[i],
    ) != path_index(nodes, paths[j]) by {
        lemma_path_index_from(nodes, paths[i], 0);
        lemma_path_index_from(nodes, paths[j], 0);
    }
}

fn control_at(state: &ParamState, name: &str) -> (c: Control)
    requires
        state.wf(),
        state.has_path(name@),
    ensures
        declared(state, name@, c),
        c.wf(),
{
    let path: String = name.to_owned();
    let i: usize = state.node_by_path(&path).unwrap();
    assert(state.nodes@[i as int].declares_range());
    Control::from_node(&state.nodes[i])
}

fn node_at(state: &ParamState, name: &str) -> (i: usize)
    requires
        state.has_path(name@),
    ensures
        i == path_index(state.nodes@, name@),
        i < state.nodes@.len(),
        state.nodes@[i as int].path@ == name@,
{
    let path: String = name.to_owned();
    state.node_by_path(&path).unwrap()
}

impl Controls {
    pub open spec fn wf(&self) -> bool {
        &&& self.note.wf()
        &&& self.volume.wf()
        &&& self.cutoff_note.wf()
        &&& self.resonance.wf()
        &&& self.supersaw.wf()
        &&& self.detune.wf()
        &&& self.sub_volume.wf()
        &&& self.pluck_position.wf()
        &&& all_distinct(self.paths())
    }

    /// The path of every control, the note's three first.
    pub open spec fn paths(&self) -> Seq<Seq<char>> {
        seq![
            self.note.path@,
            self.note.raw_path@,
            self.note.autotune.path@,
            self.volume.path@,
            self.cutoff_note.path@,
            self.resonance.path@,
            self.supersaw.path@,
            self.detune.path@,
            self.sub_volume.path@,
            self.pluck.path@,
            self.pluck_position.path@,
        ]
    }

    /// What each control writes at its path, in the order of `paths`.
    pub open spec fn values(&self) -> Seq<i64> {
        seq![
            self.note.value,
            self.note.raw_value,
            self.note.autotune.value,
            self.volume.value,
            self.cutoff_note.value,
            self.resonance.value,
            self.supersaw.value,
            self.detune.value,
            self.sub_volume.value,
            if self.pluck.value {
                UNIT
            } else {
                0
            },
            self.pluck_position.value,
        ]
    }

    /// Every control has its parameter in `state`.
    pub open spec fn bound_to(&self, state: &ParamState) -> bool {
        forall|k: int| 0 <= k < self.paths().len() ==> state.has_path(#[trigger] self.paths()[k])
    }

    /// Same paths and ranges.
    pub open spec fn same_shape(&self, other: &Controls) -> bool {
        &&& self.paths() == other.paths()
        &&& self.note.autotune.min == other.note.autotune.min
        &&& self.note.autotune.max == other.note.autotune.max
        &&& self.volume.min == other.volume.min && self.volume.max == other.volume.max
        &&& self.cutoff_note.min == other.cutoff_note.min && self.cutoff_note.max
            == other.cutoff_note.max
        &&& self.resonance.min == other.resonance.min && self.resonance.max
            == other.resonance.max
        &&& self.supersaw.min == other.supersaw.min && self.supersaw.max == other.supersaw.max
        &&& self.detune.min == other.detune.min && self.detune.max == other.detune.max
        &&& self.sub_volume.min == other.sub_volume.min && self.sub_volume.max
            == other.sub_volume.max
        &&& self.pluck_position.min == other.pluck_position.min && self.pluck_position.max
            == other.pluck_position.max
    }

    /// `state` declares every parameter that the instrument needs.
    pub open spec fn all_declared(state: &ParamState) -> bool {
        forall|k: int|
            0 <= k < required_paths().len() ==> state.has_path(#[trigger] required_paths()[k])
    }

    /// Whether `state` declares every parameter that the instrument needs.
    pub fn declared_in(state: &ParamState) -> (r: bool)
        ensures
            r == Self::all_declared(state),
    {
        let names: [&str; 11] = [
            "note",
            "raw_note",
            "autotune_strength",
            "volume",
            "cutoff_note",
            "res",
            "supersaw",
            "detune",
            "sub_volume",
            "pluck",
            "pluck_position",
        ];
        proof {
            assert(names@.map_values(|n: &str| n@) =~= required_paths());
        }
        let mut k: usize = 0;
        while k < 11
            invariant
                k <= 11,
                names@.map_values(|n: &str| n@) == required_paths(),
                forall|j: int| 0 <= j < k ==> state.has_path(#[trigger] required_paths()[j]),
            decreases 11 - k,
        {
            let path: String = names[k].to_owned();
            proof {
                assert(required_paths()[k as int] == names@[k as int]@);
            }
            if state.node_by_path(&path).is_none() {
                return false;
            }
            k = k + 1;
        }
        true
    }

    /// Builds every control from the parameter the engine declares for it, at
    /// its initial value. A missing parameter means the controls and the
    /// engine disagree, so every one is required.
    pub fn from(state: &ParamState) -> (c: Controls)
        requires
            state.wf(),
            Self::all_declared(state),
        ensures
            c.wf(),
            c.bound_to(state),
            c.paths() == required_paths(),
            declared(state, "volume"@, c.volume),
            declared(state, "cutoff_note"@, c.cutoff_note),
            declared(state, "res"@, c.resonance),
            declared(state, "supersaw"@, c.supersaw),
            declared(state, "detune"@, c.detune),
            declared(state, "sub_volume"@, c.sub_volume),
            declared(state, "pluck_position"@, c.pluck_position),
            declared(state, "autotune_strength"@, c.note.autotune),
            c.note.value == init_at(state, "note"@),
            c.note.raw_value == init_at(state, "raw_note"@),
            c.pluck.value == reads_on(init_at(state, "pluck"@)),
    {
        proof {
            lemma_required_paths_distinct();
            let r = required_paths();
            assert(state.has_path(r[0]) && state.has_path(r[1]) && state.has_path(r[2]));
            assert(state.has_path(r[3]) && state.has_path(r[4]) && state.has_path(r[5]));
            assert(state.has_path(r[6]) && state.has_path(r[7]) && state.has_path(r[8]));
            assert(state.has_path(r[9]) && state.has_path(r[10]));
        }
        let ni: usize = node_at(state, "note");
        let ri: usize = node_at(state, "raw_note");
        let pi: usize = node_at(state, "pluck");
        let note = NoteControl {
            value: state.nodes[ni].init,
            path: state.nodes[ni].path.clone(),
            raw_value: state.nodes[ri].init,
            raw_path: state.nodes[ri].path.clone(),
            autotune: control_at(state, "autotune_strength"),
        };
        let pluck = BoolControl {
            value: state.nodes[pi].init > UNIT / 2,
            path: state.nodes[pi].path.clone(),
        };
        let c = Controls {
            note,
            volume: control_at(state, "volume"),
            cutoff_note: control_at(state, "cutoff_note"),
            resonance: control_at(state, "res"),
            supersaw: control_at(state, "supersaw"),
            detune: control_at(state, "detune"),
            sub_volume: control_at(state, "sub_volume"),
            pluck,
            pluck_position: control_at(state, "pluck_position"),
        };
        proof {
            assert(c.paths() =~= required_paths());
            assert(c.note.path@ != c.note.raw_path@);
            assert(c.note.path@ != c.note.autotune.path@);
            assert(c.note.raw_path@ != c.note.autotune.path@);
        }
        c
    }

    /// Reads every control's current value from the engine.
    pub fn receive(&mut self, state: &ParamState)
        requires
            state.wf(),
            old(self).bound_to(state),
        ensures
            final(self).same_shape(&*old(self)),
            final(self).note.value == state.live_at(old(self).note.path@),
            final(self).note.raw_value == state.live_at(old(self).note.raw_path@),
            final(self).note.autotune.value == state.live_at(old(self).note.autotune.path@),
            final(self).volume.value == state.live_at(old(self).volume.path@),
            final(self).cutoff_note.value == state.live_at(old(self).cutoff_note.path@),
            final(self).resonance.value == state.live_at(old(self).resonance.path@),
            final(self).supersaw.value == state.live_at(old(self).supersaw.path@),
            final(self).detune.value == state.live_at(old(self).detune.path@),
            final(self).sub_volume.value == state.live_at(old(self).sub_volume.path@),
            final(self).pluck.value == reads_on(state.live_at(old(self).pluck.path@)),
            final(self).pluck_position.value == state.live_at(old(self).pluck_position.path@),
    {
        proof {
            let p = self.paths();
            assert(state.has_path(p[0]) && state.has_path(p[1]) && state.has_path(p[2]));
            assert(state.has_path(p[3]) && state.has_path(p[4]) && state.has_path(p[5]));
            assert(state.has_path(p[6]) && state.has_path(p[7]) && state.has_path(p[8]));
            assert(state.has_path(p[9]) && state.has_path(p[10]));
        }
        self.note.receive(state);
        self.volume.receive(state);
        self.cutoff_note.receive(state);
        self.resonance.receive(state);
        self.supersaw.receive(state);
        self.detune.receive(state);
        self.sub_volume.receive(state);
        self.pluck.receive(state);
        self.pluck_position.receive(state);
        proof {
            assert(self.paths() =~= old(self).paths());
        }
    }

    /// Stages every control and then applies them all at once: afterwards the
    /// engine reads each control's value at its path, and every other
    /// parameter as it was staged before.
    pub fn send(&self, state: &mut ParamState)
        requires
            old(state).wf(),
            self.wf(),
            self.bound_to(old(state)),
        ensures
            final(state).wf(),
            final(state).nodes@ == old(state).nodes@,
            final(state).live@ == final(state).pending@,
            forall|k: int|
                0 <= k < self.paths().len() ==> final(state).live_at(#[trigger] self.paths()[k])
                    == self.values()[k],
            forall|i: int|
                0 <= i < old(state).pending@.len() && (forall|k: int|
                    0 <= k < self.paths().len() ==> i != path_index(
                        old(state).nodes@,
                        #[trigger] self.paths()[k],
                    )) ==> final(state).live@[i] == old(state).pending@[i],
    {
        let ghost nodes = state.nodes@;
        let ghost p = self.paths();
        let ghost v = self.values();
        let ghost start = state.pending@;
        proof {
            lemma_distinct_indices(nodes, p);
            assert(state.has_path(p[0]) && state.has_path(p[1]) && state.has_path(p[2]));
            assert(state.has_path(p[3]) && state.has_path(p[4]) && state.has_path(p[5]));
            assert(state.has_path(p[6]) && state.has_path(p[7]) && state.has_path(p[8]));
            assert(state.has_path(p[9]) && state.has_path(p[10]));
        }
        self.note.send(state);
        self.volume.send(state);
        self.cutoff_note.send(state);
        self.resonance.send(state);
        self.supersaw.send(state);
        self.detune.send(state);
        self.sub_volume.send(state);
        self.pluck.send(state);
        self.pluck_position.send(state);
        let ghost staged = state.pending@;
        proof {
            assert forall|k: int| 0 <= k < p.len() implies staged[path_index(nodes, #[trigger] p[k])]
                == v[k] by {
                assert(path_index(nodes, p[k]) != path_index(nodes, p[10]) || k == 10);
            }
        }
        state.send();
    }
}

} // verus!
