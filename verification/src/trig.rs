//! Directions by table.
//!
//! The simulation never evaluates a sine itself. The host samples one full
//! turn at equal steps and hands the cosines and sines over as fixed-point
//! numbers; an angle is then looked up in the slot it falls into.
use vstd::prelude::*;
use crate::fixed::{wide_product, wrap_angle, ONE, TAU};
use crate::vec2::Vec2;

verus! {

/// The largest number of slots a table may have.
pub const MAX_SLOTS: usize = 1_048_576;

/// Whether two sample vectors can serve as a table: equally long, between 1
/// and `MAX_SLOTS` entries, every entry within `[-ONE, ONE]`, and the first
/// slot, where the turn begins, pointing straight along `x`.
pub open spec fn valid_tables(cos: Seq<i64>, sin: Seq<i64>) -> bool {
    &&& 0 < cos.len() <= MAX_SLOTS
    &&& sin.len() == cos.len()
    &&& cos[0] == ONE
    &&& sin[0] == 0
    &&& forall|i: int| 0 <= i < cos.len() ==> -ONE <= #[trigger] cos[i] <= ONE
    &&& forall|i: int| 0 <= i < sin.len() ==> -ONE <= #[trigger] sin[i] <= ONE
}

/// The slot of a table of `slots` entries that `angle` falls into.
#[verifier::opaque]
pub open spec fn slot_of(angle: int, slots: int) -> int {
    ((angle % (TAU as int)) * slots) / (TAU as int)
}

/// The least angle that falls into slot `i` of a table of `slots` entries.
pub open spec fn slot_angle(i: int, slots: int) -> int {
    (i * TAU + slots - 1) / slots
}

/// The dot product of two vectors, exact.
pub open spec fn dot(a: Vec2, b: Vec2) -> int {
    a.x * b.x + a.y * b.y
}

/// A table of directions over one full turn.
pub struct Trig {
    cos: Vec<i64>,
    sin: Vec<i64>,
}

/// Every angle falls into a slot of the table.
pub proof fn lemma_slot_in_range(angle: int, slots: int)
    requires
        0 < slots,
    ensures
        0 <= slot_of(angle, slots) < slots,
{
    reveal(slot_of);
    let w = angle % (TAU as int);
    assert(0 <= w < TAU);
    assert(0 <= w * slots <= (TAU - 1) * slots) by (nonlinear_arith)
        requires
            0 <= w <= TAU - 1,
            0 < slots,
    ;
    assert((w * slots) / (TAU as int) < slots) by (nonlinear_arith)
        requires
            0 <= w * slots <= (TAU - 1) * slots,
            0 < slots,
            TAU == 6_283_185,
    ;
}

/// The angle of a slot lies in `[0, TAU)` and falls into that slot.
pub proof fn lemma_slot_angle(i: int, slots: int)
    requires
        0 <= i < slots <= MAX_SLOTS,
    ensures
        0 <= slot_angle(i, slots) < TAU,
        slot_of(slot_angle(i, slots), slots) == i,
{
    reveal(slot_of);
    let a = slot_angle(i, slots);
    let n = i * TAU + slots - 1;
    assert(0 <= i * TAU <= (slots - 1) * TAU) by (nonlinear_arith)
        requires
            0 <= i <= slots - 1,
            TAU == 6_283_185,
    ;
    // a = n / slots, so a * slots <= n < (a + 1) * slots
    assert(a * slots <= n < (a + 1) * slots && 0 <= a) by (nonlinear_arith)
        requires
            a == n / slots,
            0 <= n,
            0 < slots,
    ;
    assert(a < TAU) by (nonlinear_arith)
        requires
            a * slots <= n,
            n <= (slots - 1) * TAU + slots - 1,
            0 < slots <= 1_048_576,
            TAU == 6_283_185,
            0 <= a,
    ;
    assert(a % (TAU as int) == a);
    // i * TAU <= a * slots < (i + 1) * TAU
    assert(i * TAU <= a * slots) by (nonlinear_arith)
        requires
            n < (a + 1) * slots,
            n == i * TAU + slots - 1,
    ;
    assert(a * slots < (i + 1) * TAU) by (nonlinear_arith)
        requires
            a * slots <= n,
            n == i * TAU + slots - 1,
            slots <= 1_048_576,
            TAU == 6_283_185,
    ;
    assert((a * slots) / (TAU as int) == i) by (nonlinear_arith)
        requires
            i * TAU <= a * slots < (i + 1) * TAU,
            TAU == 6_283_185,
    ;
}

/// The angle zero, and every whole number of turns, points straight along `x`.
pub proof fn the_turn_begins_along_x(trig: Trig, angle: int)
    requires
        trig.wf(),
        angle % (TAU as int) == 0,
    ensures
        trig.dir(angle) == (Vec2 { x: ONE, y: 0 }),
        slot_of(angle, trig.slots()) == 0,
{
    reveal(slot_of);
    assert(0 * trig.slots() == 0);
}

/// No two slots are both the first of the best.
pub proof fn lemma_best_slot_unique(trig: Trig, v: Vec2, i: int, j: int)
    requires
        trig.is_best_slot(v, i),
        trig.is_best_slot(v, j),
    ensures
        i == j,
{
    if i < j {
        assert(dot(v, trig.entry(i)) < dot(v, trig.entry(j)));
        assert(dot(v, trig.entry(j)) <= dot(v, trig.entry(i)));
    }
    if j < i {
        assert(dot(v, trig.entry(j)) < dot(v, trig.entry(i)));
        assert(dot(v, trig.entry(i)) <= dot(v, trig.entry(j)));
    }
}

impl Trig {
    #[verifier::type_invariant]
    spec fn inv(self) -> bool {
        valid_tables(self.cos@, self.sin@)
    }

    /// The cosines of the table, slot by slot.
    pub closed spec fn cosines(self) -> Seq<i64> {
        self.cos@
    }

    /// The sines of the table, slot by slot.
    pub closed spec fn sines(self) -> Seq<i64> {
        self.sin@
    }

    /// What every table satisfies.
    pub open spec fn wf(self) -> bool {
        valid_tables(self.cosines(), self.sines())
    }

    /// The number of slots.
    pub open spec fn slots(self) -> int {
        self.cosines().len() as int
    }

    /// The direction stored in slot `i`.
    pub open spec fn entry(self, i: int) -> Vec2 {
        Vec2 { x: self.cosines()[i], y: self.sines()[i] }
    }

    /// The direction the table gives for `angle`: cosine in `x`, sine in `y`.
    pub open spec fn dir(self, angle: int) -> Vec2 {
        self.entry(slot_of(angle, self.slots()))
    }

    /// Whether slot `i` is the first among those whose direction agrees best with `v`.
    pub open spec fn is_best_slot(self, v: Vec2, i: int) -> bool {
        &&& 0 <= i < self.slots()
        &&& forall|j: int| 0 <= j < self.slots() ==> dot(v, #[trigger] self.entry(j)) <= dot(v, self.entry(i))
        &&& forall|j: int| 0 <= j < i ==> dot(v, #[trigger] self.entry(j)) < dot(v, self.entry(i))
    }

    /// The first slot among those whose direction agrees best with `v`.
    pub open spec fn best_slot(self, v: Vec2) -> int {
        choose|i: int| self.is_best_slot(v, i)
    }

    /// The heading of `v`: the angle of the table direction that agrees best with it.
    pub open spec fn heading_of(self, v: Vec2) -> int {
        slot_angle(self.best_slot(v), self.slots())
    }

    /// Builds a table from the host's samples; refuses samples that cannot be a table.
    pub fn new(cos: Vec<i64>, sin: Vec<i64>) -> (t: Option<Trig>)
        ensures
            t is Some <==> valid_tables(cos@, sin@),
            t matches Some(table) ==> table.cosines() == cos@ && table.sines() == sin@ && table.wf(),
    {
        let n: usize = cos.len();
        if n == 0 || n > MAX_SLOTS || sin.len() != n {
            return None;
        }
        if cos[0] != ONE || sin[0] != 0 {
            return None;
        }
        let mut i: usize = 0;
        while i < n
            invariant
                0 <= i <= n,
                n == cos.len(),
                n == sin.len(),
                forall|j: int| 0 <= j < i ==> -ONE <= #[trigger] cos@[j] <= ONE,
                forall|j: int| 0 <= j < i ==> -ONE <= #[trigger] sin@[j] <= ONE,
            decreases n - i,
        {
            if cos[i] < -ONE || cos[i] > ONE || sin[i] < -ONE || sin[i] > ONE {
                return None;
            }
            i += 1;
        }
        Some(Trig { cos, sin })
    }

    /// The number of slots.
    pub fn len(&self) -> (n: usize)
        ensures
            n == self.slots(),
            0 < n <= MAX_SLOTS,
            self.wf(),
    {
        proof {
            use_type_invariant(self);
        }
        self.cos.len()
    }

    /// The slot that `angle` falls into.
    pub fn slot(&self, angle: i64) -> (i: usize)
        ensures
            i == slot_of(angle as int, self.slots()),
            i < self.slots(),
    {
        proof {
            use_type_invariant(self);
            lemma_slot_in_range(angle as int, self.slots());
            reveal(slot_of);
        }
        let w: i64 = wrap_angle(angle);
        let n: usize = self.cos.len();
        assert(0 <= w * n <= TAU * 1_048_576) by (nonlinear_arith)
            requires
                0 <= w < TAU,
                0 < n <= 1_048_576,
        ;
        let p: u128 = (w as u128) * (n as u128);
        (p / (TAU as u128)) as usize
    }

    /// The direction for `angle`: cosine in `x`, sine in `y`.
    pub fn direction(&self, angle: i64) -> (d: Vec2)
        ensures
            d == self.dir(angle as int),
            -ONE <= d.x <= ONE,
            -ONE <= d.y <= ONE,
    {
        proof {
            use_type_invariant(self);
        }
        let i: usize = self.slot(angle);
        Vec2 { x: self.cos[i], y: self.sin[i] }
    }

    /// The angle of the table direction that agrees best with `v`, the first
    /// such slot where several agree equally.
    pub fn heading(&self, v: Vec2) -> (a: i64)
        ensures
            0 <= a < TAU,
            a == self.heading_of(v),
            self.is_best_slot(v, self.best_slot(v)),
            slot_of(a as int, self.slots()) == self.best_slot(v),
    {
        proof {
            use_type_invariant(self);
        }
        let n: usize = self.cos.len();
        let mut best: usize = 0;
        let mut best_dot: i128 = self.dot_at(v, 0);
        let mut i: usize = 1;
        while i < n
            invariant
                1 <= i <= n,
                n == self.slots(),
                self.wf(),
                0 <= best < i,
                best_dot == dot(v, self.entry(best as int)),
                forall|j: int| 0 <= j < i ==> dot(v, #[trigger] self.entry(j)) <= best_dot,
                forall|j: int| 0 <= j < best ==> dot(v, #[trigger] self.entry(j)) < best_dot,
            decreases n - i,
        {
            let d: i128 = self.dot_at(v, i);
            if d > best_dot {
                best = i;
                best_dot = d;
            }
            i += 1;
        }
        proof {
            lemma_slot_angle(best as int, n as int);
            assert(self.is_best_slot(v, best as int));
            lemma_best_slot_unique(*self, v, best as int, self.best_slot(v));
            assert(0 <= best * TAU <= 1_048_576 * TAU) by (nonlinear_arith)
                requires
                    0 <= best < 1_048_576,
                    TAU == 6_283_185,
            ;
        }
        let num: u128 = (best as u128) * (TAU as u128) + (n as u128 - 1);
        (num / (n as u128)) as i64
    }

    /// The dot product of `v` with the direction in slot `i`.
    fn dot_at(&self, v: Vec2, i: usize) -> (d: i128)
        requires
            i < self.slots(),
        ensures
            d == dot(v, self.entry(i as int)),
    {
        proof {
            use_type_invariant(self);
            let c = self.cos@[i as int] as int;
            let s = self.sin@[i as int] as int;
            let x = v.x as int;
            let y = v.y as int;
            assert(-0x8000_0000_0000_0000 * 1_000_000 <= x * c <= 0x8000_0000_0000_0000 * 1_000_000)
                by (nonlinear_arith)
                requires
                    -0x8000_0000_0000_0000 <= x <= 0x7fff_ffff_ffff_ffff,
                    -1_000_000 <= c <= 1_000_000,
            ;
            assert(-0x8000_0000_0000_0000 * 1_000_000 <= y * s <= 0x8000_0000_0000_0000 * 1_000_000)
                by (nonlinear_arith)
                requires
                    -0x8000_0000_0000_0000 <= y <= 0x7fff_ffff_ffff_ffff,
                    -1_000_000 <= s <= 1_000_000,
            ;
        }
        wide_product(v.x, self.cos[i]) + wide_product(v.y, self.sin[i])
    }
}

} // verus!
