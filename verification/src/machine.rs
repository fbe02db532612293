//! The cipher machine: twelve wheels in three banks, the rule by which they
//! turn, the key that their heads give, and the picture of their pins.

use crate::bank::{ChiView, LorenzChiWheels, LorenzMuWheels, LorenzPsiWheels, MuView, PsiView};
use crate::rotation::{turn, turn_by};
use crate::wheel::LorenzWheel;
use rand::rngs::StdRng;
use vstd::prelude::*;

verus! {

/// The pins of a wheel that the picture shows: the head and the eight after it.
pub open spec fn window(wheel: Seq<bool>) -> Seq<bool> {
    wheel.take(LorenzMachine::WHEEL_WINDOW as int)
}

/// The same pins in the opposite order, the head last.
pub open spec fn mirrored_window(wheel: Seq<bool>) -> Seq<bool> {
    window(wheel).reverse()
}

/// What the machine holds: its three banks.
pub struct MachineView {
    pub psi: PsiView,
    pub mu: MuView,
    pub chi: ChiView,
}

impl MachineView {
    /// Each bank has its wheels at their lengths.
    pub open spec fn wf(self) -> bool {
        &&& self.psi.wf()
        &&& self.mu.wf()
        &&& self.chi.wf()
    }

    /// The machine with no pin set.
    pub open spec fn zeroed() -> MachineView {
        MachineView { psi: PsiView::zeroed(), mu: MuView::zeroed(), chi: ChiView::zeroed() }
    }

    /// The machine one tick later. Psi always turns. Chi turns if both motor
    /// heads are set. Motor wheel `g` turns if the head of `f` is set, and `f`
    /// always turns. Every condition is read before any motor wheel moves.
    pub open spec fn step_machine(self) -> MachineView {
        MachineView {
            psi: self.psi.step_all(),
            mu: MuView {
                f: turn(self.mu.f),
                g: if self.mu.f[0] {
                    turn(self.mu.g)
                } else {
                    self.mu.g
                },
            },
            chi: if self.mu.f[0] && self.mu.g[0] {
                self.chi.step_all()
            } else {
                self.chi
            },
        }
    }

    /// The machine `ticks` ticks later.
    pub open spec fn after(self, ticks: nat) -> MachineView
        decreases ticks,
    {
        if ticks == 0 {
            self
        } else {
            self.after((ticks - 1) as nat).step_machine()
        }
    }

    /// The key of the present tick: the chi heads combined with the psi heads.
    pub open spec fn keystream(self) -> u8 {
        self.chi.read_all() ^ self.psi.read_all()
    }

    /// One unit combined with the chi heads and then with the psi heads.
    pub open spec fn encode_at_step(self, v: u8) -> u8 {
        v ^ self.chi.read_all() ^ self.psi.read_all()
    }

    /// A message enciphered unit by unit, the machine ticking once after each.
    pub open spec fn encipher(self, message: Seq<u8>) -> Seq<u8>
        decreases message.len(),
    {
        if message.len() == 0 {
            message
        } else {
            seq![self.encode_at_step(message.first())] + self.step_machine().encipher(
                message.drop_first(),
            )
        }
    }

    /// The wheel that window `slot` of the picture shows.
    pub open spec fn shown_wheel(self, slot: int) -> Seq<bool> {
        if slot == 0 {
            self.psi.a
        } else if slot == 1 {
            self.psi.b
        } else if slot == 2 {
            self.psi.c
        } else if slot == 3 {
            self.psi.d
        } else if slot == 4 {
            self.psi.e
        } else if slot == 5 {
            self.mu.f
        } else if slot == 6 {
            self.mu.g
        } else if slot == 7 {
            self.chi.h
        } else if slot == 8 {
            self.chi.j
        } else if slot == 9 {
            self.chi.k
        } else if slot == 10 {
            self.chi.l
        } else {
            self.psi.b
        }
    }

    /// The picture of the pins: twelve windows side by side, every other one
    /// mirrored, beginning with the first. The five psi wheels come first, then
    /// the two motor wheels, then chi wheels `h` to `l`; the last window shows
    /// psi wheel `b` once more.
    pub open spec fn draw(self) -> Seq<bool> {
        mirrored_window(self.psi.a) + window(self.psi.b) + mirrored_window(self.psi.c) + window(
            self.psi.d,
        ) + mirrored_window(self.psi.e) + window(self.mu.f) + mirrored_window(self.mu.g) + window(
            self.chi.h,
        ) + mirrored_window(self.chi.j) + window(self.chi.k) + mirrored_window(self.chi.l)
            + window(self.psi.b)
    }
}

/// The cipher machine.
pub struct LorenzMachine {
    pub psi: LorenzPsiWheels,
    pub mu: LorenzMuWheels,
    pub chi: LorenzChiWheels,
}

impl LorenzMachine {
    /// How many pins of a wheel the picture shows.
    pub const WHEEL_WINDOW: usize = 9;

    /// How many pins the picture shows in all: one window for each wheel.
    pub const OUTPUT_BUFFER_SIZE: usize = LorenzMachine::WHEEL_WINDOW * LorenzPsiWheels::N_WHEELS
        + LorenzMachine::WHEEL_WINDOW * LorenzMuWheels::N_WHEELS + LorenzMachine::WHEEL_WINDOW
        * LorenzChiWheels::N_WHEELS;

    /// Every bank is well formed.
    pub open spec fn wf(&self) -> bool {
        &&& self.psi.wf()
        &&& self.mu.wf()
        &&& self.chi.wf()
    }

    /// What the three banks hold.
    pub open spec fn view(&self) -> MachineView {
        MachineView { psi: self.psi@, mu: self.mu@, chi: self.chi@ }
    }

    /// The machine with no pin set.
    pub fn new_zeroed() -> (machine: Self)
        ensures
            machine.wf(),
            machine@ == MachineView::zeroed(),
    {
        LorenzMachine {
            psi: LorenzPsiWheels::new_zeroed(),
            mu: LorenzMuWheels::new_zeroed(),
            chi: LorenzChiWheels::new_zeroed(),
        }
    }

    /// The machine with every pin drawn from `rng`: psi first, then mu, then
    /// chi.
    pub fn new_random(rng: &mut StdRng) -> (machine: Self)
        ensures
            machine.wf(),
    {
        LorenzMachine {
            psi: LorenzPsiWheels::new_random(rng),
            mu: LorenzMuWheels::new_random(rng),
            chi: LorenzChiWheels::new_random(rng),
        }
    }

    /// Writes the window of `wheel` into window `slot` of `buffer`, mirrored if
    /// asked, and leaves the rest of `buffer` as it is.
    fn show_window<const N: usize>(
        buffer: &mut [bool; LorenzMachine::OUTPUT_BUFFER_SIZE],
        slot: usize,
        wheel: &LorenzWheel<N>,
        mirrored: bool,
    )
        requires
            wheel.wf(),
            N >= Self::WHEEL_WINDOW,
            slot < 12,
        ensures
            final(buffer)@ == old(buffer)@.take(Self::WHEEL_WINDOW * slot) + (if mirrored {
                mirrored_window(wheel@)
            } else {
                window(wheel@)
            }) + old(buffer)@.skip(Self::WHEEL_WINDOW * (slot + 1)),
    {
        let pins = wheel.as_array();
        let base: usize = Self::WHEEL_WINDOW * slot;
        let ghost shown = if mirrored {
            mirrored_window(wheel@)
        } else {
            window(wheel@)
        };
        let mut i: usize = 0;
        while i < Self::WHEEL_WINDOW
            invariant
                i <= Self::WHEEL_WINDOW <= N,
                base == Self::WHEEL_WINDOW * slot,
                slot < 12,
                pins@ == wheel@,
                wheel@.len() == N,
                shown == (if mirrored {
                    mirrored_window(wheel@)
                } else {
                    window(wheel@)
                }),
                forall|j: int| 0 <= j < base ==> buffer@[j] == old(buffer)@[j],
                forall|j: int|
                    base + Self::WHEEL_WINDOW <= j < Self::OUTPUT_BUFFER_SIZE ==> buffer@[j] == old(
                        buffer,
                    )@[j],
                forall|j: int| 0 <= j < i ==> buffer@[base + j] == shown[j],
            decreases Self::WHEEL_WINDOW - i,
        {
            let from: usize = if mirrored { Self::WHEEL_WINDOW - 1 - i } else { i };
            buffer[base + i] = pins[from];
            i += 1;
        }
        assert(buffer@ =~= old(buffer)@.take(Self::WHEEL_WINDOW * slot) + shown + old(
            buffer,
        )@.skip(Self::WHEEL_WINDOW * (slot + 1)));
    }

    /// Advances the machine by one tick.
    pub fn step_machine(&mut self)
        requires
            old(self).wf(),
        ensures
            final(self).wf(),
            final(self)@ == old(self)@.step_machine(),
    {
        self.psi.step_all();
        if self.mu.f.read_head() && self.mu.g.read_head() {
            self.chi.step_all()
        }
        if self.mu.f.read_head() {
            self.mu.g.step_clockwise()
        }
        self.mu.f.step_clockwise();
    }

    /// Combines `v` with the key of the present tick. The machine does not
    /// move.
    pub fn encode_at_step(&self, v: u8) -> (out: u8)
        requires
            self.wf(),
        ensures
            out == self@.encode_at_step(v),
    {
        v ^ self.chi.read_all() ^ self.psi.read_all()
    }

    /// The picture of the pins as they stand.
    pub fn draw(&self) -> (picture: [bool; LorenzMachine::OUTPUT_BUFFER_SIZE])
        requires
            self.wf(),
        ensures
            picture@ == self@.draw(),
    {
        let mut output_buffer = [false;LorenzMachine::OUTPUT_BUFFER_SIZE];
        Self::show_window(&mut output_buffer, 0, &self.psi.a, true);
        Self::show_window(&mut output_buffer, 1, &self.psi.b, false);
        Self::show_window(&mut output_buffer, 2, &self.psi.c, true);
        Self::show_window(&mut output_buffer, 3, &self.psi.d, false);
        Self::show_window(&mut output_buffer, 4, &self.psi.e, true);
        Self::show_window(&mut output_buffer, 5, &self.mu.f, false);
        Self::show_window(&mut output_buffer, 6, &self.mu.g, true);
        Self::show_window(&mut output_buffer, 7, &self.chi.h, false);
        Self::show_window(&mut output_buffer, 8, &self.chi.j, true);
        Self::show_window(&mut output_buffer, 9, &self.chi.k, false);
        Self::show_window(&mut output_buffer, 10, &self.chi.l, true);
        Self::show_window(&mut output_buffer, 11, &self.psi.b, false);
        assert(output_buffer@ =~= self@.draw());
        output_buffer
    }
}

/// A tick keeps every wheel at its length.
pub proof fn lemma_step_machine_wf(machine: MachineView)
    requires
        machine.wf(),
    ensures
        machine.step_machine().wf(),
{
}

/// The motor wheels gate the chi bank: it turns when both motor heads are
/// set, and stands still when either is not. The psi bank turns regardless.
pub proof fn lemma_chi_gating(machine: MachineView)
    ensures
        machine.mu.f[0] && machine.mu.g[0] ==> machine.step_machine().chi
            == machine.chi.step_all(),
        !(machine.mu.f[0] && machine.mu.g[0]) ==> machine.step_machine().chi == machine.chi,
        machine.step_machine().psi == machine.psi.step_all(),
{
}

/// The wheels that no motor wheel holds back turn with every tick: after any
/// number of ticks each psi wheel, and motor wheel `f`, has turned that many
/// places.
pub proof fn lemma_steady_wheels(machine: MachineView, ticks: nat)
    ensures
        machine.after(ticks).psi == (PsiView {
            a: turn_by(machine.psi.a, ticks),
            b: turn_by(machine.psi.b, ticks),
            c: turn_by(machine.psi.c, ticks),
            d: turn_by(machine.psi.d, ticks),
            e: turn_by(machine.psi.e, ticks),
        }),
        machine.after(ticks).mu.f == turn_by(machine.mu.f, ticks),
    decreases ticks,
{
    if ticks > 0 {
        lemma_steady_wheels(machine, (ticks - 1) as nat);
    }
}

/// The key is the chi heads combined with the psi heads, a value of five bits;
/// a unit of five bits stays one when it is combined with the key.
pub proof fn lemma_encode_at_step_five_bits(machine: MachineView, v: u8)
    ensures
        machine.keystream() < 32,
        machine.encode_at_step(v) == v ^ machine.keystream(),
        v < 32 ==> machine.encode_at_step(v) < 32,
{
    let chi = machine.chi.read_all();
    let psi = machine.psi.read_all();
    assert(chi < 32 && psi < 32);
    assert(chi ^ psi < 32 && v ^ chi ^ psi == v ^ (chi ^ psi) && (v < 32 ==> v ^ chi ^ psi < 32))
        by (bit_vector)
        requires
            chi < 32,
            psi < 32,
    ;
}

/// Combining twice with the key of the same tick gives the unit back.
pub proof fn lemma_encode_at_step_self_inverse(machine: MachineView, v: u8)
    ensures
        machine.encode_at_step(machine.encode_at_step(v)) == v,
{
    let chi = machine.chi.read_all();
    let psi = machine.psi.read_all();
    assert((v ^ chi ^ psi) ^ chi ^ psi == v) by (bit_vector);
}

/// Enciphering keeps the length of a message.
pub proof fn lemma_encipher_len(machine: MachineView, message: Seq<u8>)
    ensures
        machine.encipher(message).len() == message.len(),
    decreases message.len(),
{
    if message.len() > 0 {
        lemma_encipher_len(machine.step_machine(), message.drop_first());
    }
}

/// Two machines that start alike and tick in step undo each other: what one
/// enciphers, the other gives back as it was.
pub proof fn lemma_encipher_round_trip(sender: MachineView, receiver: MachineView, message: Seq<u8>)
    requires
        sender == receiver,
    ensures
        receiver.encipher(sender.encipher(message)) == message,
    decreases message.len(),
{
    if message.len() > 0 {
        let sent = sender.encipher(message);
        let rest = sender.step_machine().encipher(message.drop_first());
        assert(sent.first() == sender.encode_at_step(message.first()));
        assert(sent.drop_first() =~= rest);
        lemma_encode_at_step_self_inverse(sender, message.first());
        lemma_encipher_round_trip(
            sender.step_machine(),
            receiver.step_machine(),
            message.drop_first(),
        );
        assert(receiver.encipher(sent) =~= message);
    }
}

/// The picture has twelve windows of nine pins. Window `slot` shows the head
/// of its wheel and the eight pins after it: from the far end backwards where
/// `slot` is even, from the near end forwards where it is odd.
pub proof fn lemma_draw_window(machine: MachineView, slot: int, offset: int)
    requires
        machine.wf(),
        0 <= slot < 12,
        0 <= offset < 9,
    ensures
        machine.draw().len() == 108,
        machine.draw()[9 * slot + offset] == (if slot % 2 == 0 {
            machine.shown_wheel(slot)[8 - offset]
        } else {
            machine.shown_wheel(slot)[offset]
        }),
{
}

/// With no pin set the picture is blank.
pub proof fn lemma_draw_zeroed()
    ensures
        MachineView::zeroed().draw() == Seq::new(108, |i: int| false),
{
    assert(MachineView::zeroed().draw() =~= Seq::new(108, |i: int| false));
}

} // verus!
