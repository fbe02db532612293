use lorenz::bank::{LorenzChiWheels, LorenzMuWheels, LorenzPsiWheels};
use lorenz::machine::LorenzMachine;
use lorenz::wheel::LorenzWheel;
use rand::rngs::StdRng;
use rand::SeedableRng;

fn pins<const N: usize>(set: &[usize]) -> LorenzWheel<N> {
    let mut bits = [false; N];
    for i in set {
        bits[*i] = true;
    }
    LorenzWheel::from_bits(bits)
}

/// A machine whose chi heads read 0b11111 now and 0 after one turn, with the
/// motor heads as given.
fn machine_with_motor_heads(f: bool, g: bool) -> LorenzMachine {
    LorenzMachine {
        psi: LorenzPsiWheels::new_zeroed(),
        mu: LorenzMuWheels {
            f: pins(if f { &[0] } else { &[] }),
            g: pins(if g { &[0] } else { &[] }),
        },
        chi: LorenzChiWheels {
            h: pins(&[0]),
            j: pins(&[0]),
            k: pins(&[0]),
            l: pins(&[0]),
            m: pins(&[0]),
        },
    }
}

fn chi_pins(machine: &LorenzMachine) -> Vec<bool> {
    let mut all = Vec::new();
    all.extend_from_slice(&machine.chi.h.as_array());
    all.extend_from_slice(&machine.chi.j.as_array());
    all.extend_from_slice(&machine.chi.k.as_array());
    all.extend_from_slice(&machine.chi.l.as_array());
    all.extend_from_slice(&machine.chi.m.as_array());
    all
}

#[test]
fn output_buffer_holds_twelve_windows() {
    assert_eq!(LorenzMachine::WHEEL_WINDOW, 9);
    assert_eq!(LorenzMachine::OUTPUT_BUFFER_SIZE, 108);
}

#[test]
fn zeroed_machine_draws_blank() {
    let machine = LorenzMachine::new_zeroed();
    let picture = machine.draw();
    assert_eq!(picture.len(), 108);
    assert!(picture.iter().all(|pin| !*pin));
}

#[test]
fn zeroed_machine_leaves_units_as_they_are() {
    let mut machine = LorenzMachine::new_zeroed();
    for v in 0..32u8 {
        assert_eq!(machine.encode_at_step(v), v);
        machine.step_machine();
    }
    assert!(machine.draw().iter().all(|pin| !*pin));
}

#[test]
fn chi_steps_when_both_motor_heads_are_set() {
    let mut machine = machine_with_motor_heads(true, true);
    let before = machine.chi.read_all();
    assert_eq!(before, 0b11111);
    machine.step_machine();
    assert_ne!(machine.chi.read_all(), before);
    assert_eq!(machine.chi.read_all(), 0);
}

#[test]
fn chi_stands_when_motor_f_is_clear() {
    let mut machine = machine_with_motor_heads(false, true);
    let before = chi_pins(&machine);
    machine.step_machine();
    assert_eq!(chi_pins(&machine), before);
    assert_eq!(machine.chi.read_all(), 0b11111);
}

#[test]
fn chi_stands_when_motor_g_is_clear() {
    let mut machine = machine_with_motor_heads(true, false);
    let before = chi_pins(&machine);
    machine.step_machine();
    assert_eq!(chi_pins(&machine), before);
    assert_eq!(machine.chi.read_all(), 0b11111);
}

#[test]
fn chi_stands_when_both_motor_heads_are_clear() {
    let mut machine = machine_with_motor_heads(false, false);
    let before = chi_pins(&machine);
    machine.step_machine();
    assert_eq!(chi_pins(&machine), before);
}

#[test]
fn psi_steps_on_every_tick() {
    let mut machine = LorenzMachine {
        psi: LorenzPsiWheels {
            a: pins(&[1]),
            b: pins(&[2]),
            c: pins(&[3]),
            d: pins(&[4]),
            e: pins(&[5]),
        },
        mu: LorenzMuWheels::new_zeroed(),
        chi: LorenzChiWheels::new_zeroed(),
    };
    let mut keys = Vec::new();
    for _ in 0..7 {
        keys.push(machine.psi.read_all());
        machine.step_machine();
    }
    assert_eq!(keys, vec![0, 0b10000, 0b01000, 0b00100, 0b00010, 0b00001, 0]);
}

#[test]
fn motor_f_steps_on_every_tick_and_g_only_when_f_is_set() {
    let mut machine = LorenzMachine {
        psi: LorenzPsiWheels::new_zeroed(),
        mu: LorenzMuWheels { f: pins(&[1, 2]), g: pins(&[2]) },
        chi: LorenzChiWheels::new_zeroed(),
    };
    // f head clear: g stands.
    machine.step_machine();
    assert!(machine.mu.f.read_head());
    assert!(!machine.mu.g.read_head());
    assert!(machine.mu.g.as_array()[2]);
    // f head set: g turns one place.
    machine.step_machine();
    assert!(machine.mu.f.read_head());
    assert!(machine.mu.g.as_array()[1]);
    // f head set again: g turns once more and its set pin is at the head.
    machine.step_machine();
    assert!(!machine.mu.f.read_head());
    assert!(machine.mu.g.read_head());
    // f head clear: g stands.
    machine.step_machine();
    assert!(machine.mu.g.read_head());
}

#[test]
fn chi_gating_reads_the_motor_wheels_before_they_move() {
    // Both motor heads are set now and clear after the tick: chi must turn.
    let mut machine = machine_with_motor_heads(true, true);
    machine.step_machine();
    assert!(!machine.mu.f.read_head());
    assert!(!machine.mu.g.read_head());
    assert_eq!(machine.chi.read_all(), 0);
    // Both are clear now and f is set after 36 more ticks: chi stands meanwhile.
    for _ in 0..36 {
        machine.step_machine();
        assert_eq!(machine.chi.read_all(), 0);
    }
    assert!(machine.mu.f.read_head());
}

#[test]
fn encode_at_step_combines_unit_with_both_banks() {
    let machine = LorenzMachine {
        psi: LorenzPsiWheels {
            a: pins(&[]),
            b: pins(&[]),
            c: pins(&[0]),
            d: pins(&[0]),
            e: pins(&[]),
        },
        mu: LorenzMuWheels::new_zeroed(),
        chi: LorenzChiWheels {
            h: pins(&[0]),
            j: pins(&[]),
            k: pins(&[0]),
            l: pins(&[]),
            m: pins(&[0]),
        },
    };
    assert_eq!(machine.psi.read_all(), 0b00110);
    assert_eq!(machine.chi.read_all(), 0b10101);
    assert_eq!(machine.encode_at_step(0), 0b10011);
    assert_eq!(machine.encode_at_step(0b01010), 0b11001);
    assert_eq!(machine.encode_at_step(0xFF), 0xEC);
}

#[test]
fn encode_at_step_does_not_move_the_machine() {
    let mut rng = StdRng::seed_from_u64(11);
    let machine = LorenzMachine::new_random(&mut rng);
    let before = machine.draw();
    let first = machine.encode_at_step(0x15);
    let second = machine.encode_at_step(0x15);
    assert_eq!(first, second);
    assert_eq!(machine.draw(), before);
}

#[test]
fn keystream_is_self_inverse() {
    let mut rng = StdRng::seed_from_u64(57);
    let mut machine = LorenzMachine::new_random(&mut rng);
    for _ in 0..50 {
        for b in 0..=255u8 {
            assert_eq!(machine.encode_at_step(machine.encode_at_step(b)), b);
        }
        machine.step_machine();
    }
}

#[test]
fn machines_in_lock_step_undo_each_other() {
    let mut sender = LorenzMachine::new_random(&mut StdRng::seed_from_u64(57));
    let mut receiver = LorenzMachine::new_random(&mut StdRng::seed_from_u64(57));
    let plaintext: Vec<u8> = (0..600u32).map(|i| ((i * 7 + 3) % 32) as u8).collect();
    let mut ciphertext = Vec::new();
    for unit in &plaintext {
        ciphertext.push(sender.encode_at_step(*unit));
        sender.step_machine();
    }
    assert_ne!(ciphertext, plaintext);
    let mut recovered = Vec::new();
    for unit in &ciphertext {
        recovered.push(receiver.encode_at_step(*unit));
        receiver.step_machine();
    }
    assert_eq!(recovered, plaintext);
}

#[test]
fn machines_out_of_step_do_not_undo_each_other() {
    let mut sender = LorenzMachine::new_random(&mut StdRng::seed_from_u64(57));
    let mut receiver = LorenzMachine::new_random(&mut StdRng::seed_from_u64(57));
    receiver.step_machine();
    let plaintext: Vec<u8> = (0..200u32).map(|i| (i % 32) as u8).collect();
    let mut recovered = Vec::new();
    for unit in &plaintext {
        let sent = sender.encode_at_step(*unit);
        sender.step_machine();
        recovered.push(receiver.encode_at_step(sent));
        receiver.step_machine();
    }
    assert_ne!(recovered, plaintext);
}

#[test]
fn random_machines_from_one_seed_agree() {
    let first = LorenzMachine::new_random(&mut StdRng::seed_from_u64(57));
    let second = LorenzMachine::new_random(&mut StdRng::seed_from_u64(57));
    assert_eq!(first.draw(), second.draw());
    assert_eq!(chi_pins(&first), chi_pins(&second));
    let other = LorenzMachine::new_random(&mut StdRng::seed_from_u64(58));
    assert_ne!(chi_pins(&first), chi_pins(&other));
}

#[test]
fn random_machine_draws_psi_first_then_mu_then_chi() {
    let machine = LorenzMachine::new_random(&mut StdRng::seed_from_u64(57));
    let mut reference = StdRng::seed_from_u64(57);
    let a: LorenzWheel<43> = LorenzWheel::new_random(&mut reference);
    assert_eq!(machine.psi.a.as_array(), a.as_array());
    let b: LorenzWheel<47> = LorenzWheel::new_random(&mut reference);
    assert_eq!(machine.psi.b.as_array(), b.as_array());
    let _c: LorenzWheel<51> = LorenzWheel::new_random(&mut reference);
    let _d: LorenzWheel<53> = LorenzWheel::new_random(&mut reference);
    let _e: LorenzWheel<59> = LorenzWheel::new_random(&mut reference);
    let f: LorenzWheel<37> = LorenzWheel::new_random(&mut reference);
    assert_eq!(machine.mu.f.as_array(), f.as_array());
    let _g: LorenzWheel<61> = LorenzWheel::new_random(&mut reference);
    let h: LorenzWheel<41> = LorenzWheel::new_random(&mut reference);
    assert_eq!(machine.chi.h.as_array(), h.as_array());
}

#[test]
fn draw_mirrors_every_other_window() {
    // Each wheel carries a pattern of its own in its first nine pins.
    let machine = LorenzMachine {
        psi: LorenzPsiWheels {
            a: pins(&[0]),
            b: pins(&[0, 1]),
            c: pins(&[0, 2]),
            d: pins(&[0, 3]),
            e: pins(&[0, 4]),
        },
        mu: LorenzMuWheels { f: pins(&[0, 5]), g: pins(&[0, 6]) },
        chi: LorenzChiWheels {
            h: pins(&[0, 7]),
            j: pins(&[1, 8]),
            k: pins(&[1]),
            l: pins(&[2]),
            m: pins(&[0, 1, 2, 3, 4, 5, 6, 7, 8]),
        },
    };
    let picture = machine.draw();
    let prefixes: [Vec<bool>; 12] = [
        machine.psi.a.as_array()[..9].to_vec(),
        machine.psi.b.as_array()[..9].to_vec(),
        machine.psi.c.as_array()[..9].to_vec(),
        machine.psi.d.as_array()[..9].to_vec(),
        machine.psi.e.as_array()[..9].to_vec(),
        machine.mu.f.as_array()[..9].to_vec(),
        machine.mu.g.as_array()[..9].to_vec(),
        machine.chi.h.as_array()[..9].to_vec(),
        machine.chi.j.as_array()[..9].to_vec(),
        machine.chi.k.as_array()[..9].to_vec(),
        machine.chi.l.as_array()[..9].to_vec(),
        machine.psi.b.as_array()[..9].to_vec(),
    ];
    for slot in 0..12 {
        let shown = picture[9 * slot..9 * slot + 9].to_vec();
        let mut mirrored = prefixes[slot].clone();
        mirrored.reverse();
        if slot % 2 == 0 {
            assert_eq!(shown, mirrored);
            assert_ne!(shown, prefixes[slot]);
        } else {
            assert_eq!(shown, prefixes[slot]);
            assert_ne!(shown, mirrored);
        }
    }
}

#[test]
fn draw_gives_exact_picture() {
    let machine = LorenzMachine {
        psi: LorenzPsiWheels {
            a: pins(&[0]),
            b: pins(&[0]),
            c: pins(&[]),
            d: pins(&[]),
            e: pins(&[]),
        },
        mu: LorenzMuWheels::new_zeroed(),
        chi: LorenzChiWheels {
            h: pins(&[]),
            j: pins(&[]),
            k: pins(&[]),
            l: pins(&[3]),
            m: pins(&[0, 1, 2, 3, 4, 5, 6, 7, 8]),
        },
    };
    let picture = machine.draw();
    let set: Vec<usize> = (0..108).filter(|i| picture[*i]).collect();
    // psi a mirrored: head in the last place of window 0; psi b plain: head in
    // the first place of windows 1 and 11; chi l mirrored: pin 3 in place 5 of
    // window 10; chi m is not shown.
    assert_eq!(set, vec![8, 9, 95, 99]);
}

#[test]
fn draw_follows_the_wheels_as_they_turn() {
    let mut machine = LorenzMachine {
        psi: LorenzPsiWheels {
            a: pins(&[0]),
            b: pins(&[0]),
            c: pins(&[]),
            d: pins(&[]),
            e: pins(&[]),
        },
        mu: LorenzMuWheels::new_zeroed(),
        chi: LorenzChiWheels::new_zeroed(),
    };
    machine.step_machine();
    // The set pins are now the last of their wheels, outside the windows.
    assert!(machine.draw().iter().all(|pin| !*pin));
    for _ in 0..34 {
        machine.step_machine();
    }
    // After 35 ticks pin 0 of psi a (43 pins) stands 8 places from the head.
    let set: Vec<usize> = (0..108).filter(|i| machine.draw()[*i]).collect();
    assert_eq!(set, vec![0]);
}

#[test]
fn draw_does_not_move_the_machine() {
    let machine = LorenzMachine::new_random(&mut StdRng::seed_from_u64(5));
    let first = machine.draw();
    let second = machine.draw();
    assert_eq!(first, second);
}
