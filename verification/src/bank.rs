//! The three banks of wheels: psi, mu (the motor wheels) and chi.

use crate::rotation::turn;
use crate::wheel::LorenzWheel;
use rand::rngs::StdRng;
use vstd::prelude::*;

verus! {

/// The value of one pin as a bit.
pub open spec fn bit(pin: bool) -> u8 {
    if pin {
        1
    } else {
        0
    }
}

/// Five pins as a 5-bit value, the first pin in the highest place.
pub open spec fn pack_heads(h4: bool, h3: bool, h2: bool, h1: bool, h0: bool) -> u8 {
    (16 * bit(h4) + 8 * bit(h3) + 4 * bit(h2) + 2 * bit(h1) + bit(h0)) as u8
}

/// Each pin has a place of its own: equal packed values come from equal pins.
pub proof fn lemma_pack_heads_injective(
    h4: bool,
    h3: bool,
    h2: bool,
    h1: bool,
    h0: bool,
    k4: bool,
    k3: bool,
    k2: bool,
    k1: bool,
    k0: bool,
)
    requires
        pack_heads(h4, h3, h2, h1, h0) == pack_heads(k4, k3, k2, k1, k0),
    ensures
        h4 == k4,
        h3 == k3,
        h2 == k2,
        h1 == k1,
        h0 == k0,
{
}

/// Packs five pins with shifts.
fn pack(h4: bool, h3: bool, h2: bool, h1: bool, h0: bool) -> (key: u8)
    ensures
        key == pack_heads(h4, h3, h2, h1, h0),
        key < 32,
{
    let bit4 = h4 as u8;
    let bit3 = h3 as u8;
    let bit2 = h2 as u8;
    let bit1 = h1 as u8;
    let bit0 = h0 as u8;
    let key = (bit4 << 4) | (bit3 << 3) | (bit2 << 2) | (bit1 << 1) | bit0;
    assert(key == 16 * bit4 + 8 * bit3 + 4 * bit2 + 2 * bit1 + bit0) by (bit_vector)
        requires
            bit4 <= 1,
            bit3 <= 1,
            bit2 <= 1,
            bit1 <= 1,
            bit0 <= 1,
            key == (bit4 << 4) | (bit3 << 3) | (bit2 << 2) | (bit1 << 1) | bit0,
    ;
    key
}

/// What the psi bank holds: each wheel from its head onwards.
pub struct PsiView {
    pub a: Seq<bool>,
    pub b: Seq<bool>,
    pub c: Seq<bool>,
    pub d: Seq<bool>,
    pub e: Seq<bool>,
}

impl PsiView {
    /// Each wheel has the length that the bank gives it.
    pub open spec fn wf(self) -> bool {
        &&& self.a.len() == 43
        &&& self.b.len() == 47
        &&& self.c.len() == 51
        &&& self.d.len() == 53
        &&& self.e.len() == 59
    }

    /// The bank with no pin set.
    pub open spec fn zeroed() -> PsiView {
        PsiView {
            a: Seq::new(43, |i: int| false),
            b: Seq::new(47, |i: int| false),
            c: Seq::new(51, |i: int| false),
            d: Seq::new(53, |i: int| false),
            e: Seq::new(59, |i: int| false),
        }
    }

    /// The bank after every wheel has turned one place.
    pub open spec fn step_all(self) -> PsiView {
        PsiView {
            a: turn(self.a),
            b: turn(self.b),
            c: turn(self.c),
            d: turn(self.d),
            e: turn(self.e),
        }
    }

    /// The five heads as one value, wheel `a` in the highest place.
    pub open spec fn read_all(self) -> u8 {
        pack_heads(self.a[0], self.b[0], self.c[0], self.d[0], self.e[0])
    }
}

/// The psi bank: five wheels that turn on every tick.
pub struct LorenzPsiWheels {
    pub a: LorenzWheel<43>,
    pub b: LorenzWheel<47>,
    pub c: LorenzWheel<51>,
    pub d: LorenzWheel<53>,
    pub e: LorenzWheel<59>,
}

impl LorenzPsiWheels {
    /// How many wheels the bank has.
    pub const N_WHEELS: usize = 5;

    /// Every wheel of the bank is well formed.
    pub open spec fn wf(&self) -> bool {
        &&& self.a.wf()
        &&& self.b.wf()
        &&& self.c.wf()
        &&& self.d.wf()
        &&& self.e.wf()
    }

    /// What the five wheels hold.
    pub open spec fn view(&self) -> PsiView {
        PsiView { a: self.a@, b: self.b@, c: self.c@, d: self.d@, e: self.e@ }
    }

    /// The bank with no pin set.
    pub fn new_zeroed() -> (bank: Self)
        ensures
            bank.wf(),
            bank@ == PsiView::zeroed(),
    {
        Self {
            a: LorenzWheel::new_zeroed(),
            b: LorenzWheel::new_zeroed(),
            c: LorenzWheel::new_zeroed(),
            d: LorenzWheel::new_zeroed(),
            e: LorenzWheel::new_zeroed(),
        }
    }

    /// The bank with every pin drawn from `rng`, wheel `a` first.
    pub fn new_random(rng: &mut StdRng) -> (bank: Self)
        ensures
            bank.wf(),
    {
        Self {
            a: LorenzWheel::new_random(rng),
            b: LorenzWheel::new_random(rng),
            c: LorenzWheel::new_random(rng),
            d: LorenzWheel::new_random(rng),
            e: LorenzWheel::new_random(rng),
        }
    }

    /// Turns every wheel of the bank one place.
    pub fn step_all(&mut self)
        requires
            old(self).wf(),
        ensures
            final(self).wf(),
            final(self)@ == old(self)@.step_all(),
    {
        self.a.step_clockwise();
        self.b.step_clockwise();
        self.c.step_clockwise();
        self.d.step_clockwise();
        self.e.step_clockwise();
    }

    /// The five heads as one value below 32, wheel `a` in the highest place.
    pub fn read_all(&self) -> (key: u8)
        requires
            self.wf(),
        ensures
            key == self@.read_all(),
            key < 32,
    {
        pack(
            self.a.read_head(),
            self.b.read_head(),
            self.c.read_head(),
            self.d.read_head(),
            self.e.read_head(),
        )
    }
}

/// What the mu bank holds: each motor wheel from its head onwards.
pub struct MuView {
    pub f: Seq<bool>,
    pub g: Seq<bool>,
}

impl MuView {
    /// Each wheel has the length that the bank gives it.
    pub open spec fn wf(self) -> bool {
        &&& self.f.len() == 37
        &&& self.g.len() == 61
    }

    /// The bank with no pin set.
    pub open spec fn zeroed() -> MuView {
        MuView { f: Seq::new(37, |i: int| false), g: Seq::new(61, |i: int| false) }
    }
}

/// The mu bank: the two motor wheels, whose heads decide which other wheels
/// turn. They are read and turned one by one.
pub struct LorenzMuWheels {
    pub f: LorenzWheel<37>,
    pub g: LorenzWheel<61>,
}

impl LorenzMuWheels {
    /// How many wheels the bank has.
    pub const N_WHEELS: usize = 2;

    /// Both wheels of the bank are well formed.
    pub open spec fn wf(&self) -> bool {
        &&& self.f.wf()
        &&& self.g.wf()
    }

    /// What the two wheels hold.
    pub open spec fn view(&self) -> MuView {
        MuView { f: self.f@, g: self.g@ }
    }

    /// The bank with no pin set.
    pub fn new_zeroed() -> (bank: LorenzMuWheels)
        ensures
            bank.wf(),
            bank@ == MuView::zeroed(),
    {
        LorenzMuWheels { f: LorenzWheel::new_zeroed(), g: LorenzWheel::new_zeroed() }
    }

    /// The bank with every pin drawn from `rng`, wheel `f` first.
    pub fn new_random(rng: &mut StdRng) -> (bank: LorenzMuWheels)
        ensures
            bank.wf(),
    {
        LorenzMuWheels { f: LorenzWheel::new_random(rng), g: LorenzWheel::new_random(rng) }
    }
}

/// What the chi bank holds: each wheel from its head onwards.
pub struct ChiView {
    pub h: Seq<bool>,
    pub j: Seq<bool>,
    pub k: Seq<bool>,
    pub l: Seq<bool>,
    pub m: Seq<bool>,
}

impl ChiView {
    /// Each wheel has the length that the bank gives it.
    pub open spec fn wf(self) -> bool {
        &&& self.h.len() == 41
        &&& self.j.len() == 31
        &&& self.k.len() == 29
        &&& self.l.len() == 26
        &&& self.m.len() == 23
    }

    /// The bank with no pin set.
    pub open spec fn zeroed() -> ChiView {
        ChiView {
            h: Seq::new(41, |i: int| false),
            j: Seq::new(31, |i: int| false),
            k: Seq::new(29, |i: int| false),
            l: Seq::new(26, |i: int| false),
            m: Seq::new(23, |i: int| false),
        }
    }

    /// The bank after every wheel has turned one place.
    pub open spec fn step_all(self) -> ChiView {
        ChiView {
            h: turn(self.h),
            j: turn(self.j),
            k: turn(self.k),
            l: turn(self.l),
            m: turn(self.m),
        }
    }

    /// The five heads as one value, wheel `h` in the highest place.
    pub open spec fn read_all(self) -> u8 {
        pack_heads(self.h[0], self.j[0], self.k[0], self.l[0], self.m[0])
    }
}

/// The chi bank: five wheels that turn only when the motor wheels allow it.
pub struct LorenzChiWheels {
    pub h: LorenzWheel<41>,
    pub j: LorenzWheel<31>,
    pub k: LorenzWheel<29>,
    pub l: LorenzWheel<26>,
    pub m: LorenzWheel<23>,
}

impl LorenzChiWheels {
    /// How many wheels the bank has.
    pub const N_WHEELS: usize = 5;

    /// Every wheel of the bank is well formed.
    pub open spec fn wf(&self) -> bool {
        &&& self.h.wf()
        &&& self.j.wf()
        &&& self.k.wf()
        &&& self.l.wf()
        &&& self.m.wf()
    }

    /// What the five wheels hold.
    pub open spec fn view(&self) -> ChiView {
        ChiView { h: self.h@, j: self.j@, k: self.k@, l: self.l@, m: self.m@ }
    }

    /// The bank with no pin set.
    pub fn new_zeroed() -> (bank: Self)
        ensures
            bank.wf(),
            bank@ == ChiView::zeroed(),
    {
        Self {
            h: LorenzWheel::new_zeroed(),
            j: LorenzWheel::new_zeroed(),
            k: LorenzWheel::new_zeroed(),
            l: LorenzWheel::new_zeroed(),
            m: LorenzWheel::new_zeroed(),
        }
    }

    /// The bank with every pin drawn from `rng`, wheel `h` first.
    pub fn new_random(rng: &mut StdRng) -> (bank: Self)
        ensures
            bank.wf(),
    {
        Self {
            h: LorenzWheel::new_random(rng),
            j: LorenzWheel::new_random(rng),
            k: LorenzWheel::new_random(rng),
            l: LorenzWheel::new_random(rng),
            m: LorenzWheel::new_random(rng),
        }
    }

    /// Turns every wheel of the bank one place.
    pub fn step_all(&mut self)
        requires
            old(self).wf(),
        ensures
            final(self).wf(),
            final(self)@ == old(self)@.step_all(),
    {
        self.h.step_clockwise();
        self.j.step_clockwise();
        self.k.step_clockwise();
        self.l.step_clockwise();
        self.m.step_clockwise();
    }

    /// The five heads as one value below 32, wheel `h` in the highest place.
    pub fn read_all(&self) -> (key: u8)
        requires
            self.wf(),
        ensures
            key == self@.read_all(),
            key < 32,
    {
        pack(
            self.h.read_head(),
            self.j.read_head(),
            self.k.read_head(),
            self.l.read_head(),
            self.m.read_head(),
        )
    }
}

} // verus!
