use vstd::prelude::*;

use crate::range_math::{bounded, quantized, smoothstairs, UNIT};

verus! {

/// The scale notes (MIDI note numbers, lowest first) visible in the current
/// floating window.
pub struct ScaleWindow {
    pub notes: Vec<u8>,
}

pub open spec fn in_window(n: u8, low: int, high: int) -> bool {
    low <= n <= high
}

/// The notes of `scale` within `[low, high]`, in their order.
pub open spec fn window_notes(scale: Seq<u8>, low: int, high: int) -> Seq<u8> {
    scale.filter(|n: u8| in_window(n, low, high))
}

/// Index of the last note at or below `root` among the first `i` notes; `0`
/// where there is none.
pub open spec fn root_index_below(s: Seq<u8>, root: int, i: int) -> int
    decreases i,
{
    if i <= 0 {
        0
    } else if s[i - 1] * UNIT <= root {
        i - 1
    } else {
        root_index_below(s, root, i - 1)
    }
}

/// Index of the note that a chord on `root` is built from.
pub open spec fn root_index(s: Seq<u8>, root: int) -> int {
    root_index_below(s, root, s.len() as int)
}

/// The chord voice `offset` scale steps above the root, keeping the root's
/// distance from its own note; `None` past the end of the window.
pub open spec fn chord_voice(s: Seq<u8>, root: int, offset: int) -> Option<i64> {
    let i = root_index(s, root);
    if i + offset < s.len() {
        Some((root + (s[i + offset] - s[i]) * UNIT) as i64)
    } else {
        None
    }
}

proof fn lemma_root_index_range(s: Seq<u8>, root: int, i: int)
    requires
        0 <= i <= s.len(),
    ensures
        0 <= root_index_below(s, root, i),
        i > 0 ==> root_index_below(s, root, i) < i,
    decreases i,
{
    if i > 0 {
        lemma_root_index_range(s, root, i - 1);
    }
}

impl ScaleWindow {
    /// The notes of `scale` that lie at most `radius` semitones from `center`.
    pub fn floating(scale: &Vec<u8>, center: u8, radius: u8) -> (w: ScaleWindow)
        ensures
            w.notes@ == window_notes(scale@, center - radius, center + radius),
    {
        let low: u8 = if center > radius {
            center - radius
        } else {
            0
        };
        let high: u8 = if center as u16 + radius as u16 > 255 {
            255
        } else {
            center + radius
        };
        let ghost lo = center - radius;
        let ghost hi = center + radius;
        let mut notes: Vec<u8> = Vec::new();
        let mut i: usize = 0;
        while i < scale.len()
            invariant
                i <= scale@.len(),
                forall|n: u8| (low <= n <= high) == in_window(n, lo, hi),
                notes@ == window_notes(scale@.take(i as int), lo, hi),
            decreases scale@.len() - i,
        {
            let n: u8 = scale[i];
            proof {
                reveal(Seq::filter);
                assert(scale@.take(i + 1).drop_last() == scale@.take(i as int));
                assert(scale@.take(i + 1).last() == n);
            }
            if low <= n && n <= high {
                notes.push(n);
            }
            i = i + 1;
        }
        proof {
            assert(scale@.take(scale@.len() as int) == scale@);
        }
        ScaleWindow { notes }
    }

    /// Autotune: `raw` pulled `strength` smooth steps toward the notes of the
    /// window.
    pub fn autotune(&self, raw: i64, strength: usize) -> (r: i64)
        ensures
            r == quantized(raw as int, strength as nat, self.notes@),
            strength == 0 ==> r == raw,
    {
        smoothstairs(raw, strength, self.notes.clone())
    }

    /// Index of the note that a chord on `root` is built from: the last note at
    /// or below `root`, or the first note where none is.
    pub fn root_index(&self, root: i64) -> (i: usize)
        ensures
            i == root_index(self.notes@, root as int),
    {
        let mut i: usize = self.notes.len();
        while i > 0
            invariant
                i <= self.notes@.len(),
                root_index_below(self.notes@, root as int, i as int) == root_index(
                    self.notes@,
                    root as int,
                ),
            decreases i,
        {
            if self.notes[i - 1] as i64 * UNIT <= root {
                return i - 1;
            }
            i = i - 1;
        }
        0
    }

    /// Autochord: for each offset (in scale steps), the voice that many notes
    /// above the root, or `None` where it walks past the end of the window.
    pub fn autochord(&self, root: i64, offsets: &Vec<usize>) -> (chord: Vec<Option<i64>>)
        requires
            bounded(root as int),
        ensures
            chord@.len() == offsets@.len(),
            forall|j: int|
                0 <= j < offsets@.len() ==> chord@[j] == chord_voice(
                    self.notes@,
                    root as int,
                    offsets@[j] as int,
                ),
            forall|j: int|
                0 <= j < offsets@.len() ==> (chord@[j] is None <==> root_index(
                    self.notes@,
                    root as int,
                ) + offsets@[j] >= self.notes@.len()),
    {
        let base: usize = self.root_index(root);
        proof {
            lemma_root_index_range(self.notes@, root as int, self.notes@.len() as int);
        }
        let n: usize = self.notes.len();
        let mut chord: Vec<Option<i64>> = Vec::new();
        let mut j: usize = 0;
        while j < offsets.len()
            invariant
                j <= offsets@.len(),
                n == self.notes@.len(),
                base == root_index(self.notes@, root as int),
                n == 0 || base < n,
                bounded(root as int),
                chord@.len() == j,
                forall|k: int|
                    0 <= k < j ==> chord@[k] == chord_voice(
                        self.notes@,
                        root as int,
                        offsets@[k] as int,
                    ),
            decreases offsets@.len() - j,
        {
            let offset: usize = offsets[j];
            if offset < n && base < n - offset {
                let step: i64 = self.notes[base + offset] as i64 - self.notes[base] as i64;
                chord.push(Some(root + step * UNIT));
            } else {
                chord.push(None);
            }
            j = j + 1;
        }
        chord
    }
}

} // verus!
