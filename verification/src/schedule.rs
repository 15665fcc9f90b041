//! Which cell to cut next.
//!
//! The fracture repeatedly picks the largest remaining cell by volume, cuts it through its
//! centroid, and stops at the target count, when every cell is marked unsplittable, or when the
//! cut budget runs out. The geometry of a cut happens elsewhere; this module holds the decisions:
//! the order on volumes, the choice of cell, the seed of each plane, and the bookkeeping of which
//! cells may no longer be cut.

use crate::hashing::{cut_seed, cut_seed_spec};
use vstd::prelude::*;

verus! {

/// The IEEE `totalOrder` key of a single-precision bit pattern: non-negative values in bit
/// order, negative values in reversed magnitude below them. Comparing keys is comparing the
/// floats with `f32::total_cmp`.
pub open spec fn total_key_spec(bits: u32) -> int {
    if bits < 0x8000_0000 {
        bits as int
    } else {
        0x7FFF_FFFF - bits as int
    }
}

/// The `totalOrder` key of the float whose bits are `bits`; see [`total_key_spec`].
pub fn total_order_key(bits: u32) -> (k: i32)
    ensures
        k == total_key_spec(bits),
        forall|other: u32|
            #![trigger total_key_spec(other)]
            (k < total_key_spec(other) <==> total_less(bits, other)) && (k == total_key_spec(other)
                <==> bits == other),
{
    if bits < 0x8000_0000 {
        bits as i32
    } else {
        (0x7FFF_FFFF - (bits as i64)) as i32
    }
}

/// The sign bit of a single-precision pattern is set.
pub open spec fn sign_set(bits: u32) -> bool {
    bits >= 0x8000_0000
}

/// IEEE 754 `totalOrder`, strict, on single-precision bit patterns: every pattern with the sign
/// set comes before every pattern without it; among patterns without it, larger magnitude is
/// later; among patterns with it, larger magnitude is earlier. This is `f32::total_cmp`'s
/// `Less`.
pub open spec fn total_less(a: u32, b: u32) -> bool {
    ||| (sign_set(a) && !sign_set(b))
    ||| (!sign_set(a) && !sign_set(b) && a < b)
    ||| (sign_set(a) && sign_set(b) && a > b)
}

/// The key order is IEEE `totalOrder`: one key is below another exactly when its float comes
/// first in `totalOrder`.
pub proof fn lemma_total_key_is_total_order(a: u32, b: u32)
    ensures
        total_key_spec(a) < total_key_spec(b) <==> total_less(a, b),
        total_key_spec(a) == total_key_spec(b) <==> a == b,
{
}

/// Distinct bit patterns have distinct keys, so the key order is a total order on bit patterns
/// and the choice of cell is a function of the volumes alone.
pub proof fn lemma_total_key_injective(a: u32, b: u32)
    ensures
        total_key_spec(a) == total_key_spec(b) ==> a == b,
{
}

/// `i` beats `j`: a larger volume key, or an equal key at a smaller index.
pub open spec fn beats(keys: Seq<int>, i: int, j: int) -> bool {
    keys[i] > keys[j] || (keys[i] == keys[j] && i <= j)
}

/// The key of every cell's volume.
pub open spec fn keys_of(bits: Seq<u32>) -> Seq<int> {
    bits.map_values(|b: u32| total_key_spec(b))
}

/// `i` is the cell to cut: splittable, and beating every other splittable cell.
pub open spec fn is_pick(unsplittable: Seq<bool>, bits: Seq<u32>, i: int) -> bool {
    &&& 0 <= i < unsplittable.len()
    &&& !unsplittable[i]
    &&& forall|j: int|
        0 <= j < unsplittable.len() && !unsplittable[j] ==> #[trigger] beats(keys_of(bits), i, j)
}

/// At most one cell is the pick.
pub proof fn lemma_pick_unique(unsplittable: Seq<bool>, bits: Seq<u32>, i: int, j: int)
    requires
        bits.len() == unsplittable.len(),
        is_pick(unsplittable, bits, i),
        is_pick(unsplittable, bits, j),
    ensures
        i == j,
{
    assert(beats(keys_of(bits), i, j));
    assert(beats(keys_of(bits), j, i));
}

/// The cell a render triangle rides with: the first cell containing its centroid, given one
/// containment flag per cell. First rather than nearest, so overlapping shells break the tie the
/// same way every time. `None` when no cell contains it.
pub fn first_containing(inside: &Vec<bool>) -> (r: Option<usize>)
    ensures
        match r {
            Some(i) => i < inside@.len() && inside@[i as int] && forall|j: int|
                0 <= j < i ==> !inside@[j],
            None => forall|j: int| 0 <= j < inside@.len() ==> !inside@[j],
        },
{
    let mut i: usize = 0;
    while i < inside.len()
        invariant
            0 <= i <= inside@.len(),
            forall|j: int| 0 <= j < i ==> !inside@[j],
        decreases inside@.len() - i,
    {
        if inside[i] {
            return Some(i);
        }
        i = i + 1;
    }
    None
}

/// What the scheduler says to do next.
#[derive(Clone, Copy, Debug, PartialEq, Eq, Structural)]
pub enum CutStep {
    /// No more cuts.
    Stop,
    /// Try to cut cell `piece` with a plane drawn from `seed`; bias the plane toward the impact
    /// direction, if there is one, when `toward_impact`.
    Cut { piece: usize, seed: u32, toward_impact: bool },
}

/// The state of one fracture's cut loop.
pub struct CutScheduler {
    /// Stop once this many cells exist (at least one).
    pub target: usize,
    /// Cut attempts allowed in all: `16 · target + 32`.
    pub hard_cap: usize,
    /// Attempts made so far; every attempt, successful or not, uses one.
    pub cut_index: usize,
    /// The caller's seed.
    pub seed: u32,
    /// One flag per cell: `true` once the cell is below the size floor or a cut missed it.
    pub unsplittable: Vec<bool>,
}

impl CutScheduler {
    /// The budget is `16 · target + 32`, and the attempt count never passes it.
    pub open spec fn wf(&self) -> bool {
        &&& self.hard_cap == 16 * self.target + 32
        &&& self.cut_index <= self.hard_cap
    }

    /// `max(target, 1)`: a fracture always keeps at least one piece.
    pub open spec fn goal(&self) -> int {
        if self.target >= 1 {
            self.target as int
        } else {
            1
        }
    }

    /// Another cut may be attempted: budget left and fewer pieces than the goal.
    pub open spec fn may_cut(&self) -> bool {
        self.cut_index < self.hard_cap && self.unsplittable@.len() < self.goal()
    }

    /// `step` is what the scheduler decides in this state for these volume bit patterns: stop
    /// exactly when no cut may be attempted or every cell is unsplittable; otherwise cut the pick,
    /// with the seed of this attempt, leaning toward the impact on the first two attempts.
    pub open spec fn step_spec(&self, volume_bits: Seq<u32>, step: CutStep) -> bool {
        match step {
            CutStep::Stop => !self.may_cut() || forall|i: int|
                0 <= i < self.unsplittable@.len() ==> self.unsplittable@[i],
            CutStep::Cut { piece, seed, toward_impact } => {
                &&& self.may_cut()
                &&& is_pick(self.unsplittable@, volume_bits, piece as int)
                &&& seed == cut_seed_spec(
                    self.seed,
                    self.cut_index as int,
                    self.unsplittable@.len() as int,
                )
                &&& toward_impact == (self.cut_index < 2)
            },
        }
    }

    /// Start a fracture of `pieces` cells, none of them yet unsplittable.
    pub fn new(target: usize, seed: u32, pieces: usize) -> (s: Self)
        requires
            16 * target + 32 <= usize::MAX,
        ensures
            s.wf(),
            s.target == target,
            s.seed == seed,
            s.cut_index == 0,
            s.unsplittable@ == Seq::new(pieces as nat, |i: int| false),
    {
        let mut unsplittable: Vec<bool> = Vec::new();
        let mut i: usize = 0;
        while i < pieces
            invariant
                0 <= i <= pieces,
                unsplittable@ == Seq::new(i as nat, |k: int| false),
            decreases pieces - i,
        {
            unsplittable.push(false);
            proof {
                assert(unsplittable@ =~= Seq::new((i + 1) as nat, |k: int| false));
            }
            i = i + 1;
        }
        CutScheduler { target, hard_cap: 16 * target + 32, cut_index: 0, seed, unsplittable }
    }

    /// Decide the next step, given the bit pattern of every cell's current volume.
    ///
    /// Stops when the budget is spent, when the goal count is reached, or when every cell is
    /// unsplittable. Otherwise names the splittable cell of largest volume (the lowest index among
    /// equals), the plane seed for this attempt, and whether the attempt is one of the first two,
    /// which lean toward an impact.
    pub fn next(&self, volume_bits: &Vec<u32>) -> (step: CutStep)
        requires
            self.wf(),
            volume_bits@.len() == self.unsplittable@.len(),
        ensures
            self.step_spec(volume_bits@, step),
    {
        let n = self.unsplittable.len();
        let goal = if self.target >= 1 {
            self.target
        } else {
            1
        };
        if self.cut_index >= self.hard_cap || n >= goal {
            return CutStep::Stop;
        }
        let ghost keys = keys_of(volume_bits@);
        let mut best: Option<usize> = None;
        let mut best_key: i32 = 0;
        let mut i: usize = 0;
        while i < n
            invariant
                n == self.unsplittable@.len(),
                n == volume_bits@.len(),
                keys == keys_of(volume_bits@),
                0 <= i <= n,
                best is None ==> forall|j: int| 0 <= j < i ==> self.unsplittable@[j],
                best matches Some(b) ==> {
                    &&& b < i
                    &&& !self.unsplittable@[b as int]
                    &&& best_key == keys[b as int]
                    &&& forall|j: int|
                        0 <= j < i && !self.unsplittable@[j] ==> #[trigger] beats(keys, b as int, j)
                },
            decreases n - i,
        {
            if !self.unsplittable[i] {
                let k = total_order_key(volume_bits[i]);
                assert(keys[i as int] == k as int);
                match best {
                    None => {
                        best = Some(i);
                        best_key = k;
                    },
                    Some(b) => {
                        if k > best_key {
                            proof {
                                assert forall|j: int|
                                    0 <= j < i + 1 && !self.unsplittable@[j] implies #[trigger] beats(
                                    keys,
                                    i as int,
                                    j,
                                ) by {
                                    if j < i {
                                        assert(beats(keys, b as int, j));
                                    }
                                }
                            }
                            best = Some(i);
                            best_key = k;
                        } else {
                            proof {
                                assert forall|j: int|
                                    0 <= j < i + 1 && !self.unsplittable@[j] implies #[trigger] beats(
                                    keys,
                                    b as int,
                                    j,
                                ) by {
                                    if j < i {
                                        assert(beats(keys, b as int, j));
                                    }
                                }
                            }
                        }
                    },
                }
            } else {
                assert(self.unsplittable@[i as int]);
            }
            i = i + 1;
        }
        match best {
            None => CutStep::Stop,
            Some(b) => {
                let s = cut_seed(self.seed, self.cut_index, n);
                CutStep::Cut { piece: b, seed: s, toward_impact: self.cut_index < 2 }
            },
        }
    }

    /// The attempt on `piece` did not cut it (too small, or the plane missed): mark it and use up
    /// the attempt.
    pub fn reject(&mut self, piece: usize)
        requires
            old(self).wf(),
            old(self).cut_index < old(self).hard_cap,
            piece < old(self).unsplittable@.len(),
        ensures
            final(self).wf(),
            final(self).unsplittable@ == old(self).unsplittable@.update(piece as int, true),
            final(self).cut_index == old(self).cut_index + 1,
            final(self).target == old(self).target,
            final(self).hard_cap == old(self).hard_cap,
            final(self).seed == old(self).seed,
    {
        self.unsplittable.set(piece, true);
        self.cut_index = self.cut_index + 1;
    }

    /// The attempt split a cell in two: the first half stays in its slot, the second is appended
    /// as a new splittable cell, and the attempt is used up.
    pub fn split(&mut self)
        requires
            old(self).wf(),
            old(self).cut_index < old(self).hard_cap,
        ensures
            final(self).wf(),
            final(self).unsplittable@ == old(self).unsplittable@.push(false),
            final(self).cut_index == old(self).cut_index + 1,
            final(self).target == old(self).target,
            final(self).hard_cap == old(self).hard_cap,
            final(self).seed == old(self).seed,
    {
        self.unsplittable.push(false);
        self.cut_index = self.cut_index + 1;
    }
}

/// A scheduled cut never takes the piece count past the goal: a cut is only offered while fewer
/// than `max(target, 1)` pieces exist, and a split adds exactly one.
pub proof fn lemma_split_stays_within_goal(s: CutScheduler, after: CutScheduler)
    requires
        s.may_cut(),
        after.unsplittable@ == s.unsplittable@.push(false),
        after.target == s.target,
    ensures
        after.unsplittable@.len() <= after.goal(),
{
}

/// Every attempt uses up one unit of the budget, so a fracture makes at most `16 · target + 32`
/// attempts however the cuts turn out.
pub proof fn lemma_attempts_bounded(s: CutScheduler, after: CutScheduler)
    requires
        s.wf(),
        after.wf(),
        after.hard_cap == s.hard_cap,
        after.cut_index == s.cut_index + 1,
    ensures
        after.hard_cap - after.cut_index < s.hard_cap - s.cut_index,
        after.cut_index <= 16 * after.target + 32,
{
}

/// A cell marked unsplittable is never picked again, whatever the volumes.
pub proof fn lemma_rejected_never_picked(unsplittable: Seq<bool>, bits: Seq<u32>, piece: int, i: int)
    requires
        0 <= piece < unsplittable.len(),
        is_pick(unsplittable.update(piece, true), bits, i),
    ensures
        i != piece,
{
}

/// The decision is a function of the state and the volumes: two steps that both satisfy the
/// scheduler's contract for the same state and volume bits are the same step. With the pinned
/// seed arithmetic this is what makes a fracture reproducible.
pub proof fn lemma_step_is_determined(s: CutScheduler, bits: Seq<u32>, a: CutStep, b: CutStep)
    requires
        bits.len() == s.unsplittable@.len(),
        s.step_spec(bits, a),
        s.step_spec(bits, b),
    ensures
        a == b,
{
    match (a, b) {
        (CutStep::Cut { piece: p, .. }, CutStep::Cut { piece: q, .. }) => {
            lemma_pick_unique(s.unsplittable@, bits, p as int, q as int);
        },
        (CutStep::Cut { piece: p, .. }, CutStep::Stop) => {
            assert(!s.unsplittable@[p as int]);
        },
        (CutStep::Stop, CutStep::Cut { piece: q, .. }) => {
            assert(!s.unsplittable@[q as int]);
        },
        _ => {},
    }
}

/// The cell picked for a cut has the largest volume in IEEE `totalOrder` among the splittable
/// cells: no splittable cell's volume comes after it, and every splittable cell before it in the
/// list has a volume strictly before it (the earliest of equals wins).
pub proof fn lemma_pick_is_largest_volume(unsplittable: Seq<bool>, bits: Seq<u32>, i: int, j: int)
    requires
        bits.len() == unsplittable.len(),
        is_pick(unsplittable, bits, i),
        0 <= j < unsplittable.len(),
        !unsplittable[j],
    ensures
        !total_less(bits[i], bits[j]),
        j < i ==> total_less(bits[j], bits[i]),
{
    assert(beats(keys_of(bits), i, j));
    lemma_total_key_is_total_order(bits[i], bits[j]);
    lemma_total_key_is_total_order(bits[j], bits[i]);
}

} // verus!
