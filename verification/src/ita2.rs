//! The five-unit telegraph code: thirty-two code units, read in one of two
//! shift states, letters or figures.

use vstd::prelude::*;

verus! {

/// The code unit that puts a receiver into figures shift.
pub const FS: u8 = 0x1B;

/// The code unit that puts a receiver into letters shift.
pub const LS: u8 = 0x1F;

/// The character that code unit `v` prints in letters shift, if it prints one.
pub open spec fn letter_for(v: u8) -> Option<char> {
    match v {
        0x00 => Some('\0'),
        0x01 => Some('E'),
        0x02 => Some('\n'),
        0x03 => Some('A'),
        0x04 => Some(' '),
        0x05 => Some('S'),
        0x06 => Some('I'),
        0x07 => Some('U'),
        0x08 => Some('\r'),
        0x09 => Some('D'),
        0x0A => Some('R'),
        0x0B => Some('J'),
        0x0C => Some('N'),
        0x0D => Some('F'),
        0x0E => Some('C'),
        0x0F => Some('K'),
        0x10 => Some('T'),
        0x11 => Some('Z'),
        0x12 => Some('L'),
        0x13 => Some('W'),
        0x14 => Some('H'),
        0x15 => Some('Y'),
        0x16 => Some('P'),
        0x17 => Some('Q'),
        0x18 => Some('O'),
        0x19 => Some('B'),
        0x1A => Some('G'),
        0x1C => Some('M'),
        0x1D => Some('X'),
        0x1E => Some('V'),
        _ => None,
    }
}

/// The character that code unit `v` prints in figures shift, if it prints one.
pub open spec fn figure_for(v: u8) -> Option<char> {
    match v {
        0x00 => Some('\0'),
        0x01 => Some('3'),
        0x02 => Some('\n'),
        0x03 => Some('-'),
        0x04 => Some(' '),
        0x05 => Some('\''),
        0x06 => Some('8'),
        0x07 => Some('7'),
        0x08 => Some('\r'),
        0x09 => Some('\u{5}'),
        0x0A => Some('4'),
        0x0B => Some('\u{7}'),
        0x0C => Some(','),
        0x0D => Some('!'),
        0x0E => Some(':'),
        0x0F => Some('('),
        0x10 => Some('5'),
        0x11 => Some('+'),
        0x12 => Some(')'),
        0x13 => Some('2'),
        0x14 => Some('\u{a3}'),
        0x15 => Some('6'),
        0x16 => Some('0'),
        0x17 => Some('1'),
        0x18 => Some('9'),
        0x19 => Some('?'),
        0x1A => Some('&'),
        0x1C => Some('.'),
        0x1D => Some('/'),
        0x1E => Some('='),
        _ => None,
    }
}

/// The character that code unit `v` prints in the given shift state.
pub open spec fn printed(figure_shift: bool, v: u8) -> Option<char> {
    if figure_shift {
        figure_for(v)
    } else {
        letter_for(v)
    }
}

/// What one code unit does to a receiver: the shift state it leaves, and the
/// character it prints. The two shift units set the state and print nothing; a
/// unit without a character in the present state prints nothing either.
pub open spec fn decode_unit(figure_shift: bool, v: u8) -> (bool, Option<char>) {
    if v == FS {
        (true, None)
    } else if v == LS {
        (false, None)
    } else {
        (figure_shift, printed(figure_shift, v))
    }
}

/// The shift states in which a character can be sent.
#[derive(Clone, Copy, Debug, PartialEq, Eq, Structural)]
pub enum Table {
    /// In either: the same code unit prints it in both.
    Both,
    /// In letters shift only.
    Letters,
    /// In figures shift only.
    Figures,
}

/// The code unit that sends `c` and the shift states in which it does, if the
/// code has a unit for `c` at all.
pub open spec fn code_for(c: char) -> Option<(Table, u8)> {
    match c {
        '\0' => Some((Table::Both, 0x00u8)),
        '\n' => Some((Table::Both, 0x02u8)),
        ' ' => Some((Table::Both, 0x04u8)),
        '\r' => Some((Table::Both, 0x08u8)),
        'E' => Some((Table::Letters, 0x01u8)),
        'A' => Some((Table::Letters, 0x03u8)),
        'S' => Some((Table::Letters, 0x05u8)),
        'I' => Some((Table::Letters, 0x06u8)),
        'U' => Some((Table::Letters, 0x07u8)),
        'D' => Some((Table::Letters, 0x09u8)),
        'R' => Some((Table::Letters, 0x0Au8)),
        'J' => Some((Table::Letters, 0x0Bu8)),
        'N' => Some((Table::Letters, 0x0Cu8)),
        'F' => Some((Table::Letters, 0x0Du8)),
        'C' => Some((Table::Letters, 0x0Eu8)),
        'K' => Some((Table::Letters, 0x0Fu8)),
        'T' => Some((Table::Letters, 0x10u8)),
        'Z' => Some((Table::Letters, 0x11u8)),
        'L' => Some((Table::Letters, 0x12u8)),
        'W' => Some((Table::Letters, 0x13u8)),
        'H' => Some((Table::Letters, 0x14u8)),
        'Y' => Some((Table::Letters, 0x15u8)),
        'P' => Some((Table::Letters, 0x16u8)),
        'Q' => Some((Table::Letters, 0x17u8)),
        'O' => Some((Table::Letters, 0x18u8)),
        'B' => Some((Table::Letters, 0x19u8)),
        'G' => Some((Table::Letters, 0x1Au8)),
        'M' => Some((Table::Letters, 0x1Cu8)),
        'X' => Some((Table::Letters, 0x1Du8)),
        'V' => Some((Table::Letters, 0x1Eu8)),
        '3' => Some((Table::Figures, 0x01u8)),
        '-' => Some((Table::Figures, 0x03u8)),
        '\'' => Some((Table::Figures, 0x05u8)),
        '8' => Some((Table::Figures, 0x06u8)),
        '7' => Some((Table::Figures, 0x07u8)),
        '\u{5}' => Some((Table::Figures, 0x09u8)),
        '4' => Some((Table::Figures, 0x0Au8)),
        '\u{7}' => Some((Table::Figures, 0x0Bu8)),
        ',' => Some((Table::Figures, 0x0Cu8)),
        '!' => Some((Table::Figures, 0x0Du8)),
        ':' => Some((Table::Figures, 0x0Eu8)),
        '(' => Some((Table::Figures, 0x0Fu8)),
        '5' => Some((Table::Figures, 0x10u8)),
        '+' => Some((Table::Figures, 0x11u8)),
        ')' => Some((Table::Figures, 0x12u8)),
        '2' => Some((Table::Figures, 0x13u8)),
        '\u{a3}' => Some((Table::Figures, 0x14u8)),
        '6' => Some((Table::Figures, 0x15u8)),
        '0' => Some((Table::Figures, 0x16u8)),
        '1' => Some((Table::Figures, 0x17u8)),
        '9' => Some((Table::Figures, 0x18u8)),
        '?' => Some((Table::Figures, 0x19u8)),
        '&' => Some((Table::Figures, 0x1Au8)),
        '.' => Some((Table::Figures, 0x1Cu8)),
        '/' => Some((Table::Figures, 0x1Du8)),
        '=' => Some((Table::Figures, 0x1Eu8)),
        _ => None,
    }
}

/// What a sender puts on the line for one character: its code unit, with a
/// shift unit before it where the receiver has to change state first.
#[derive(Clone, Copy, Debug, PartialEq, Eq, Structural)]
pub enum EncoderOut {
    Single(u8),
    ShiftAndChar(u8, u8),
}

impl EncoderOut {
    /// The code units in the order in which they go on the line.
    pub open spec fn units(self) -> Seq<u8> {
        match self {
            EncoderOut::Single(v) => seq![v],
            EncoderOut::ShiftAndChar(shift, v) => seq![shift, v],
        }
    }
}

impl From<u8> for EncoderOut {
    fn from(value: u8) -> (out: Self) {
        EncoderOut::Single(value)
    }
}

impl vstd::std_specs::convert::FromSpecImpl<u8> for EncoderOut {
    open spec fn obeys_from_spec() -> bool {
        true
    }

    /// One code unit stands for itself.
    open spec fn from_spec(value: u8) -> Self {
        EncoderOut::Single(value)
    }
}

impl From<[u8; 2]> for EncoderOut {
    fn from(value: [u8; 2]) -> (out: Self) {
        EncoderOut::ShiftAndChar(value[0], value[1])
    }
}

impl vstd::std_specs::convert::FromSpecImpl<[u8; 2]> for EncoderOut {
    open spec fn obeys_from_spec() -> bool {
        true
    }

    /// Two code units are a shift unit and the unit that follows it.
    open spec fn from_spec(value: [u8; 2]) -> Self {
        EncoderOut::ShiftAndChar(value[0], value[1])
    }
}

/// What one character does to a sender: the shift state it leaves, and what
/// goes on the line. A character that both shift states print goes out alone
/// and leaves the state as it is. Any other with a code unit goes out alone if
/// the state is already its own, and behind the shift unit that makes it so if
/// not. A character without a code unit is passed over.
pub open spec fn encode_unit(figure_shift: bool, c: char) -> (bool, Option<EncoderOut>) {
    match code_for(c) {
        None => (figure_shift, None),
        Some((Table::Both, v)) => (figure_shift, Some(EncoderOut::Single(v))),
        Some((Table::Letters, v)) => if figure_shift {
            (false, Some(EncoderOut::ShiftAndChar(LS, v)))
        } else {
            (false, Some(EncoderOut::Single(v)))
        },
        Some((Table::Figures, v)) => if figure_shift {
            (true, Some(EncoderOut::Single(v)))
        } else {
            (true, Some(EncoderOut::ShiftAndChar(FS, v)))
        },
    }
}

/// The code sends a character with the unit that prints it: a character for
/// both shift states is printed by its unit in both, any other by its unit in
/// its own state and by no unit in the other, and a character without a unit
/// is printed by none.
pub proof fn lemma_code_for_is_printed(c: char)
    ensures
        match code_for(c) {
            Some((Table::Both, v)) => letter_for(v) == Some(c) && figure_for(v) == Some(c),
            Some((Table::Letters, v)) => letter_for(v) == Some(c) && forall|w: u8|
                figure_for(w) != Some(c),
            Some((Table::Figures, v)) => figure_for(v) == Some(c) && forall|w: u8|
                letter_for(w) != Some(c),
            None => forall|w: u8| letter_for(w) != Some(c) && figure_for(w) != Some(c),
        },
        code_for(c) matches Some((_, v)) ==> v < 32 && v != FS && v != LS,
{
}

/// Whatever a code unit prints is sent with that very unit.
pub proof fn lemma_printed_has_code(figure_shift: bool, v: u8)
    ensures
        printed(figure_shift, v) matches Some(c) ==> (code_for(c) matches Some((table, w)) && w == v
            && table != (if figure_shift {
            Table::Letters
        } else {
            Table::Figures
        })),
{
}

/// Looks `v` up in the letters table.
fn letter(v: u8) -> (c: Option<char>)
    ensures
        c == letter_for(v),
{
    match v {
        0x00 => Some('\0'),
        0x01 => Some('E'),
        0x02 => Some('\n'),
        0x03 => Some('A'),
        0x04 => Some(' '),
        0x05 => Some('S'),
        0x06 => Some('I'),
        0x07 => Some('U'),
        0x08 => Some('\r'),
        0x09 => Some('D'),
        0x0A => Some('R'),
        0x0B => Some('J'),
        0x0C => Some('N'),
        0x0D => Some('F'),
        0x0E => Some('C'),
        0x0F => Some('K'),
        0x10 => Some('T'),
        0x11 => Some('Z'),
        0x12 => Some('L'),
        0x13 => Some('W'),
        0x14 => Some('H'),
        0x15 => Some('Y'),
        0x16 => Some('P'),
        0x17 => Some('Q'),
        0x18 => Some('O'),
        0x19 => Some('B'),
        0x1A => Some('G'),
        0x1C => Some('M'),
        0x1D => Some('X'),
        0x1E => Some('V'),
        _ => None,
    }
}

/// Looks `v` up in the figures table.
fn figure(v: u8) -> (c: Option<char>)
    ensures
        c == figure_for(v),
{
    match v {
        0x00 => Some('\0'),
        0x01 => Some('3'),
        0x02 => Some('\n'),
        0x03 => Some('-'),
        0x04 => Some(' '),
        0x05 => Some('\''),
        0x06 => Some('8'),
        0x07 => Some('7'),
        0x08 => Some('\r'),
        0x09 => Some('\u{5}'),
        0x0A => Some('4'),
        0x0B => Some('\u{7}'),
        0x0C => Some(','),
        0x0D => Some('!'),
        0x0E => Some(':'),
        0x0F => Some('('),
        0x10 => Some('5'),
        0x11 => Some('+'),
        0x12 => Some(')'),
        0x13 => Some('2'),
        0x14 => Some('\u{a3}'),
        0x15 => Some('6'),
        0x16 => Some('0'),
        0x17 => Some('1'),
        0x18 => Some('9'),
        0x19 => Some('?'),
        0x1A => Some('&'),
        0x1C => Some('.'),
        0x1D => Some('/'),
        0x1E => Some('='),
        _ => None,
    }
}

/// Looks up the code unit of `c`.
fn lookup(c: char) -> (code: Option<(Table, u8)>)
    ensures
        code == code_for(c),
{
    match c {
        '\0' => Some((Table::Both, 0x00u8)),
        '\n' => Some((Table::Both, 0x02u8)),
        ' ' => Some((Table::Both, 0x04u8)),
        '\r' => Some((Table::Both, 0x08u8)),
        'E' => Some((Table::Letters, 0x01u8)),
        'A' => Some((Table::Letters, 0x03u8)),
        'S' => Some((Table::Letters, 0x05u8)),
        'I' => Some((Table::Letters, 0x06u8)),
        'U' => Some((Table::Letters, 0x07u8)),
        'D' => Some((Table::Letters, 0x09u8)),
        'R' => Some((Table::Letters, 0x0Au8)),
        'J' => Some((Table::Letters, 0x0Bu8)),
        'N' => Some((Table::Letters, 0x0Cu8)),
        'F' => Some((Table::Letters, 0x0Du8)),
        'C' => Some((Table::Letters, 0x0Eu8)),
        'K' => Some((Table::Letters, 0x0Fu8)),
        'T' => Some((Table::Letters, 0x10u8)),
        'Z' => Some((Table::Letters, 0x11u8)),
        'L' => Some((Table::Letters, 0x12u8)),
        'W' => Some((Table::Letters, 0x13u8)),
        'H' => Some((Table::Letters, 0x14u8)),
        'Y' => Some((Table::Letters, 0x15u8)),
        'P' => Some((Table::Letters, 0x16u8)),
        'Q' => Some((Table::Letters, 0x17u8)),
        'O' => Some((Table::Letters, 0x18u8)),
        'B' => Some((Table::Letters, 0x19u8)),
        'G' => Some((Table::Letters, 0x1Au8)),
        'M' => Some((Table::Letters, 0x1Cu8)),
        'X' => Some((Table::Letters, 0x1Du8)),
        'V' => Some((Table::Letters, 0x1Eu8)),
        '3' => Some((Table::Figures, 0x01u8)),
        '-' => Some((Table::Figures, 0x03u8)),
        '\'' => Some((Table::Figures, 0x05u8)),
        '8' => Some((Table::Figures, 0x06u8)),
        '7' => Some((Table::Figures, 0x07u8)),
        '\u{5}' => Some((Table::Figures, 0x09u8)),
        '4' => Some((Table::Figures, 0x0Au8)),
        '\u{7}' => Some((Table::Figures, 0x0Bu8)),
        ',' => Some((Table::Figures, 0x0Cu8)),
        '!' => Some((Table::Figures, 0x0Du8)),
        ':' => Some((Table::Figures, 0x0Eu8)),
        '(' => Some((Table::Figures, 0x0Fu8)),
        '5' => Some((Table::Figures, 0x10u8)),
        '+' => Some((Table::Figures, 0x11u8)),
        ')' => Some((Table::Figures, 0x12u8)),
        '2' => Some((Table::Figures, 0x13u8)),
        '\u{a3}' => Some((Table::Figures, 0x14u8)),
        '6' => Some((Table::Figures, 0x15u8)),
        '0' => Some((Table::Figures, 0x16u8)),
        '1' => Some((Table::Figures, 0x17u8)),
        '9' => Some((Table::Figures, 0x18u8)),
        '?' => Some((Table::Figures, 0x19u8)),
        '&' => Some((Table::Figures, 0x1Au8)),
        '.' => Some((Table::Figures, 0x1Cu8)),
        '/' => Some((Table::Figures, 0x1Du8)),
        '=' => Some((Table::Figures, 0x1Eu8)),
        _ => None,
    }
}

/// Takes one code unit in: gives the shift state after it and the character
/// that it prints, if any.
pub fn decode_step(figure_shift: bool, v: u8) -> (next: (bool, Option<char>))
    ensures
        next == decode_unit(figure_shift, v),
{
    if v == FS {
        (true, None)
    } else if v == LS {
        (false, None)
    } else if figure_shift {
        (figure_shift, figure(v))
    } else {
        (figure_shift, letter(v))
    }
}

/// Takes one character in: gives the shift state after it and what goes on the
/// line for it, if anything.
pub fn encode_step(figure_shift: bool, c: char) -> (next: (bool, Option<EncoderOut>))
    ensures
        next == encode_unit(figure_shift, c),
{
    match lookup(c) {
        None => (figure_shift, None),
        Some((Table::Both, v)) => (figure_shift, Some(EncoderOut::Single(v))),
        Some((Table::Letters, v)) => {
            if figure_shift {
                (false, Some(EncoderOut::ShiftAndChar(LS, v)))
            } else {
                (false, Some(EncoderOut::Single(v)))
            }
        },
        Some((Table::Figures, v)) => {
            if figure_shift {
                (true, Some(EncoderOut::Single(v)))
            } else {
                (true, Some(EncoderOut::ShiftAndChar(FS, v)))
            }
        },
    }
}

/// One pull on a receiver that still has `codes` to read: the shift state it
/// leaves, the code units it leaves unread, and the character it hands out.
/// Units that print nothing are read past; `None` comes only when no unit is
/// left.
pub open spec fn decode_next(figure_shift: bool, codes: Seq<u8>) -> (bool, Seq<u8>, Option<char>)
    decreases codes.len(),
{
    if codes.len() == 0 {
        (figure_shift, codes, None)
    } else {
        let (shift, c) = decode_unit(figure_shift, codes.first());
        if c is Some {
            (shift, codes.drop_first(), c)
        } else {
            decode_next(shift, codes.drop_first())
        }
    }
}

/// One pull on a sender that still has `text` to send: the shift state it
/// leaves, the characters it leaves unsent, and what it puts on the line.
/// Characters without a code unit are passed over; `None` comes only when no
/// character is left.
pub open spec fn encode_next(figure_shift: bool, text: Seq<char>) -> (
    bool,
    Seq<char>,
    Option<EncoderOut>,
)
    decreases text.len(),
{
    if text.len() == 0 {
        (figure_shift, text, None)
    } else {
        let (shift, out) = encode_unit(figure_shift, text.first());
        if out is Some {
            (shift, text.drop_first(), out)
        } else {
            encode_next(shift, text.drop_first())
        }
    }
}

/// Everything that a receiver starting in the given shift state prints for
/// `codes`.
pub open spec fn decode_codes(figure_shift: bool, codes: Seq<u8>) -> Seq<char>
    decreases codes.len(),
{
    if codes.len() == 0 {
        Seq::empty()
    } else {
        let (shift, c) = decode_unit(figure_shift, codes.first());
        let rest = decode_codes(shift, codes.drop_first());
        match c {
            Some(c) => seq![c] + rest,
            None => rest,
        }
    }
}

/// The code units of what goes on the line for one character.
pub open spec fn units_of(out: Option<EncoderOut>) -> Seq<u8> {
    match out {
        Some(out) => out.units(),
        None => Seq::empty(),
    }
}

/// Everything that a sender starting in the given shift state puts on the
/// line for `text`, as one run of code units.
pub open spec fn encode_text(figure_shift: bool, text: Seq<char>) -> Seq<u8>
    decreases text.len(),
{
    if text.len() == 0 {
        Seq::empty()
    } else {
        let (shift, out) = encode_unit(figure_shift, text.first());
        units_of(out) + encode_text(shift, text.drop_first())
    }
}

/// The characters of `text` that the code has a unit for, in their order.
pub open spec fn printable(text: Seq<char>) -> Seq<char>
    decreases text.len(),
{
    if text.len() == 0 {
        text
    } else if code_for(text.first()) is Some {
        seq![text.first()] + printable(text.drop_first())
    } else {
        printable(text.drop_first())
    }
}

/// A receiver of code units: it keeps the shift state and hands out the
/// characters one by one.
pub struct Decoder {
    figure_shift: bool,
    source: Vec<u8>,
    position: usize,
}

impl Decoder {
    /// The reading position lies within the source.
    pub closed spec fn wf(&self) -> bool {
        self.position <= self.source.len()
    }

    /// Whether the receiver is in figures shift.
    pub closed spec fn shift(&self) -> bool {
        self.figure_shift
    }

    /// The code units not read yet.
    pub closed spec fn pending(&self) -> Seq<u8> {
        self.source@.skip(self.position as int)
    }

    /// A receiver in letters shift that will read `source` from its start.
    pub fn new(source: Vec<u8>) -> (decoder: Self)
        ensures
            decoder.wf(),
            !decoder.shift(),
            decoder.pending() == source@,
    {
        Decoder { figure_shift: false, source, position: 0 }
    }

    /// Reads on to the next code unit that prints and hands out its character;
    /// hands out `None` once the source is read to its end.
    pub fn next(&mut self) -> (c: Option<char>)
        requires
            old(self).wf(),
        ensures
            final(self).wf(),
            (final(self).shift(), final(self).pending(), c) == decode_next(
                old(self).shift(),
                old(self).pending(),
            ),
    {
        let ghost goal = decode_next(self.shift(), self.pending());
        while self.position < self.source.len()
            invariant
                self.wf(),
                goal == decode_next(old(self).shift(), old(self).pending()),
                decode_next(self.shift(), self.pending()) == goal,
            decreases self.source.len() - self.position,
        {
            let ghost before = self.pending();
            let (shift, c) = decode_step(self.figure_shift, self.source[self.position]);
            assert(before.first() == self.source[self.position as int]);
            self.figure_shift = shift;
            self.position += 1;
            assert(self.pending() =~= before.drop_first());
            if c.is_some() {
                return c;
            }
        }
        None
    }
}

/// A sender of characters: it keeps the shift state and hands out, one by
/// one, what goes on the line.
pub struct Encoder {
    figure_shift: bool,
    source: Vec<char>,
    position: usize,
}

impl Encoder {
    /// The reading position lies within the source.
    pub closed spec fn wf(&self) -> bool {
        self.position <= self.source.len()
    }

    /// Whether the sender is in figures shift.
    pub closed spec fn shift(&self) -> bool {
        self.figure_shift
    }

    /// The characters not sent yet.
    pub closed spec fn pending(&self) -> Seq<char> {
        self.source@.skip(self.position as int)
    }

    /// A sender in letters shift that will send `source` from its start.
    pub fn new(source: Vec<char>) -> (encoder: Self)
        ensures
            encoder.wf(),
            !encoder.shift(),
            encoder.pending() == source@,
    {
        Self { figure_shift: false, source, position: 0 }
    }

    /// Reads on to the next character that has a code unit and hands out what
    /// goes on the line for it; hands out `None` once the source is read to its
    /// end.
    pub fn next(&mut self) -> (out: Option<EncoderOut>)
        requires
            old(self).wf(),
        ensures
            final(self).wf(),
            (final(self).shift(), final(self).pending(), out) == encode_next(
                old(self).shift(),
                old(self).pending(),
            ),
    {
        let ghost goal = encode_next(self.shift(), self.pending());
        while self.position < self.source.len()
            invariant
                self.wf(),
                goal == encode_next(old(self).shift(), old(self).pending()),
                encode_next(self.shift(), self.pending()) == goal,
            decreases self.source.len() - self.position,
        {
            let ghost before = self.pending();
            let (shift, out) = encode_step(self.figure_shift, self.source[self.position]);
            assert(before.first() == self.source[self.position as int]);
            self.figure_shift = shift;
            self.position += 1;
            assert(self.pending() =~= before.drop_first());
            if out.is_some() {
                return out;
            }
        }
        None
    }
}

/// Pull by pull a receiver hands out what it prints for the whole source: the
/// character of one pull, then all that the pulls after it give.
pub proof fn lemma_decode_next_heads_codes(figure_shift: bool, codes: Seq<u8>)
    ensures
        ({
            let (shift, rest, c) = decode_next(figure_shift, codes);
            decode_codes(figure_shift, codes) == match c {
                Some(c) => seq![c] + decode_codes(shift, rest),
                None => Seq::empty(),
            }
        }),
    decreases codes.len(),
{
    if codes.len() > 0 {
        let (shift, c) = decode_unit(figure_shift, codes.first());
        if c is None {
            lemma_decode_next_heads_codes(shift, codes.drop_first());
        }
    }
}

/// Pull by pull a sender hands out what it puts on the line for the whole
/// source: the units of one pull, then all that the pulls after it give.
pub proof fn lemma_encode_next_heads_text(figure_shift: bool, text: Seq<char>)
    ensures
        ({
            let (shift, rest, out) = encode_next(figure_shift, text);
            encode_text(figure_shift, text) == match out {
                Some(out) => out.units() + encode_text(shift, rest),
                None => Seq::empty(),
            }
        }),
    decreases text.len(),
{
    if text.len() > 0 {
        let (shift, out) = encode_unit(figure_shift, text.first());
        if out is None {
            lemma_encode_next_heads_text(shift, text.drop_first());
            assert(units_of(out) + encode_text(shift, text.drop_first()) =~= encode_text(
                shift,
                text.drop_first(),
            ));
        }
    }
}

/// Whatever a sender puts on the line is a unit of five bits.
pub proof fn lemma_encode_text_five_bits(figure_shift: bool, text: Seq<char>)
    ensures
        forall|i: int|
            0 <= i < encode_text(figure_shift, text).len() ==> #[trigger] encode_text(
                figure_shift,
                text,
            )[i] < 32,
    decreases text.len(),
{
    if text.len() > 0 {
        let (shift, out) = encode_unit(figure_shift, text.first());
        let head = units_of(out);
        let tail = encode_text(shift, text.drop_first());
        lemma_code_for_is_printed(text.first());
        lemma_encode_text_five_bits(shift, text.drop_first());
        assert forall|i: int| 0 <= i < (head + tail).len() implies #[trigger] (head + tail)[i]
            < 32 by {
            if i < head.len() {
                assert((head + tail)[i] == head[i]);
            } else {
                assert((head + tail)[i] == tail[i - head.len()]);
            }
        }
    }
}

/// What a sender puts on the line for one character makes a receiver in the
/// same shift state print that character and nothing else, and leaves it in
/// the sender's new state.
pub proof fn lemma_unit_round_trip(figure_shift: bool, c: char, tail: Seq<u8>)
    ensures
        ({
            let (shift, out) = encode_unit(figure_shift, c);
            decode_codes(figure_shift, units_of(out) + tail) == match out {
                Some(_) => seq![c] + decode_codes(shift, tail),
                None => decode_codes(shift, tail),
            }
        }),
{
    let (shift, out) = encode_unit(figure_shift, c);
    let codes = units_of(out) + tail;
    lemma_code_for_is_printed(c);
    match code_for(c) {
        None => {
            assert(codes =~= tail);
        },
        Some((table, v)) => {
            if out == Some(EncoderOut::Single(v)) {
                assert(codes.first() == v);
                assert(codes.drop_first() =~= tail);
            } else {
                let after = codes.drop_first();
                assert(codes.first() == FS || codes.first() == LS);
                assert(after.first() == v);
                assert(after.drop_first() =~= tail);
                assert(decode_codes(shift, after) == seq![c] + decode_codes(shift, tail));
            }
        },
    }
}

/// A receiver that starts in the sender's shift state prints the text that was
/// sent, less the characters that the code has no unit for. The shift units
/// print nothing: a text made only of characters with a code unit comes back
/// whole, as long as it was and no longer.
pub proof fn lemma_round_trip(figure_shift: bool, text: Seq<char>)
    ensures
        decode_codes(figure_shift, encode_text(figure_shift, text)) == printable(text),
        (forall|i: int| 0 <= i < text.len() ==> code_for(#[trigger] text[i]) is Some)
            ==> decode_codes(figure_shift, encode_text(figure_shift, text)) == text,
    decreases text.len(),
{
    if text.len() > 0 {
        let (shift, out) = encode_unit(figure_shift, text.first());
        let rest = text.drop_first();
        lemma_unit_round_trip(figure_shift, text.first(), encode_text(shift, rest));
        lemma_round_trip(shift, rest);
        if forall|i: int| 0 <= i < text.len() ==> code_for(#[trigger] text[i]) is Some {
            assert forall|i: int| 0 <= i < rest.len() implies code_for(#[trigger] rest[i])
                is Some by {
                assert(rest[i] == text[i + 1]);
            }
            assert(code_for(text[0]) is Some);
            assert(seq![text.first()] + rest =~= text);
        }
    }
}

} // verus!
