//! Translation of PS/2 set-1 scancodes to ASCII with shift and caps lock.
use vstd::prelude::*;

verus! {

/// The US layout without shift, by scancode (0 where no character).
pub open spec fn normal_map() -> Seq<u8> {
    seq![
        0, 0x1B, 49, 50, 51, 52, 53, 54, 55, 56, 57, 48, 45, 61, 0x08, 9,
        113, 119, 101, 114, 116, 121, 117, 105, 111, 112, 91, 93, 13, 0,
        97, 115, 100, 102, 103, 104, 106, 107, 108, 59, 39, 96, 0, 92,
        122, 120, 99, 118, 98, 110, 109, 44, 46, 47, 0, 42, 0, 32,
    ]
}

/// The US layout with shift, by scancode (0 where no character).
pub open spec fn shifted_map() -> Seq<u8> {
    seq![
        0, 0x1B, 33, 64, 35, 36, 37, 94, 38, 42, 40, 41, 95, 43, 0x08, 9,
        81, 87, 69, 82, 84, 89, 85, 73, 79, 80, 123, 125, 13, 0,
        65, 83, 68, 70, 71, 72, 74, 75, 76, 58, 34, 126, 0, 124,
        90, 88, 67, 86, 66, 78, 77, 60, 62, 63, 0, 42, 0, 32,
    ]
}

fn keymap(shift: bool) -> (r: Vec<u8>)
    ensures
        r@ == if shift { shifted_map() } else { normal_map() },
{
    if shift {
        let v: Vec<u8> = vec![
            0, 0x1B, 33, 64, 35, 36, 37, 94, 38, 42, 40, 41, 95, 43, 0x08, 9,
            81, 87, 69, 82, 84, 89, 85, 73, 79, 80, 123, 125, 13, 0,
            65, 83, 68, 70, 71, 72, 74, 75, 76, 58, 34, 126, 0, 124,
            90, 88, 67, 86, 66, 78, 77, 60, 62, 63, 0, 42, 0, 32,
        ];
        assert(v@ =~= shifted_map());
        v
    } else {
        let v: Vec<u8> = vec![
            0, 0x1B, 49, 50, 51, 52, 53, 54, 55, 56, 57, 48, 45, 61, 0x08, 9,
            113, 119, 101, 114, 116, 121, 117, 105, 111, 112, 91, 93, 13, 0,
            97, 115, 100, 102, 103, 104, 106, 107, 108, 59, 39, 96, 0, 92,
            122, 120, 99, 118, 98, 110, 109, 44, 46, 47, 0, 42, 0, 32,
        ];
        assert(v@ =~= normal_map());
        v
    }
}

pub open spec fn is_alpha(c: u8) -> bool {
    (65 <= c <= 90) || (97 <= c <= 122)
}

/// Caps lock flips the case of letters: to upper without shift, to lower
/// with it.
pub open spec fn apply_caps(c: u8, shift: bool, caps: bool) -> u8 {
    if caps && is_alpha(c) {
        if shift {
            if 65 <= c <= 90 { (c + 32) as u8 } else { c }
        } else {
            if 97 <= c <= 122 { (c - 32) as u8 } else { c }
        }
    } else {
        c
    }
}

/// The modifier state of the keyboard.
pub struct Keyboard {
    shift_down: bool,
    caps_lock: bool,
}

impl Keyboard {
    pub closed spec fn shift(&self) -> bool {
        self.shift_down
    }

    pub closed spec fn caps(&self) -> bool {
        self.caps_lock
    }

    pub fn new() -> (r: Self)
        ensures
            !r.shift() && !r.caps(),
    {
        Keyboard { shift_down: false, caps_lock: false }
    }

    /// Handles one byte read from the controller when its status byte has the
    /// output-buffer bit set (otherwise nothing happens): shift keys set the
    /// shift state, a caps-lock press toggles caps lock, releases are
    /// dropped, and a press yields the mapped character unless it maps to 0.
    pub fn keyboard_irq_handler(&mut self, status: u8, scancode: u8) -> (r: Option<u8>)
        ensures
            status & 1 == 0 ==> r is None && *final(self) == *old(self),
            status & 1 != 0 ==> key_outcome(old(self).shift(), old(self).caps(), scancode) == (
                final(self).shift(),
                final(self).caps(),
                r,
            ),
    {
        if status & 0x01 == 0 {
            return None;
        }
        let released = (scancode & 0x80) != 0;
        let code = scancode & 0x7F;
        assert(scancode & 0x80 != 0 <==> scancode >= 128) by (bit_vector);
        assert(scancode & 0x7F == scancode % 128) by (bit_vector);
        if code == 0x2A || code == 0x36 {
            self.shift_down = !released;
            return None;
        }
        if code == 0x3A {
            if !released {
                self.caps_lock = !self.caps_lock;
            }
            return None;
        }
        if released {
            return None;
        }
        if code as usize >= 58 {
            return None;
        }
        let map = keymap(self.shift_down);
        let ch = map[code as usize];
        if ch == 0 {
            return None;
        }
        let out = if self.caps_lock && ((65 <= ch && ch <= 90) || (97 <= ch && ch <= 122)) {
            if self.shift_down {
                if 65 <= ch && ch <= 90 { ch + 32 } else { ch }
            } else {
                if 97 <= ch && ch <= 122 { ch - 32 } else { ch }
            }
        } else {
            ch
        };
        Some(out)
    }
}

/// The new shift and caps state and the produced character for a scancode.
pub open spec fn key_outcome(shift: bool, caps: bool, scancode: u8) -> (bool, bool, Option<u8>) {
    let released = scancode >= 128;
    let code = scancode % 128;
    if code == 0x2A || code == 0x36 {
        (!released, caps, None)
    } else if code == 0x3A {
        (shift, if released { caps } else { !caps }, None)
    } else if released || code >= 58 {
        (shift, caps, None)
    } else {
        let ch = if shift { shifted_map()[code as int] } else { normal_map()[code as int] };
        if ch == 0 {
            (shift, caps, None)
        } else {
            (shift, caps, Some(apply_caps(ch, shift, caps)))
        }
    }
}

/// The letter rows of the US layout, left to right, and the scancode of
/// the first key of each (`Q`, `A` and `Z`).
pub open spec fn us_letter_rows() -> Seq<(int, Seq<char>)> {
    seq![
        (0x10, seq!['q', 'w', 'e', 'r', 't', 'y', 'u', 'i', 'o', 'p']),
        (0x1E, seq!['a', 's', 'd', 'f', 'g', 'h', 'j', 'k', 'l']),
        (0x2C, seq!['z', 'x', 'c', 'v', 'b', 'n', 'm']),
    ]
}

/// The keys of the three letter rows type, left to right, the letters of
/// the US layout: with shift and caps lock off the lower-case letter, with
/// shift or with caps lock alone the upper-case one, and with both the
/// lower-case one again.
pub proof fn law_letter_keys_us_layout(row: int, i: int)
    requires
        0 <= row < 3,
        0 <= i < us_letter_rows()[row].1.len(),
    ensures
        ({
            let sc = (us_letter_rows()[row].0 + i) as u8;
            let c = us_letter_rows()[row].1[i] as u8;
            &&& key_outcome(false, false, sc) == (false, false, Some(c))
            &&& key_outcome(true, false, sc) == (true, false, Some((c - 32) as u8))
            &&& key_outcome(false, true, sc) == (false, true, Some((c - 32) as u8))
            &&& key_outcome(true, true, sc) == (true, true, Some(c))
        }),
{
    if row == 0 && i == 0 {
        assert(normal_map()[16] == 113u8 && shifted_map()[16] == 81u8);
    } else if row == 0 && i == 1 {
        assert(normal_map()[17] == 119u8 && shifted_map()[17] == 87u8);
    } else if row == 0 && i == 2 {
        assert(normal_map()[18] == 101u8 && shifted_map()[18] == 69u8);
    } else if row == 0 && i == 3 {
        assert(normal_map()[19] == 114u8 && shifted_map()[19] == 82u8);
    } else if row == 0 && i == 4 {
        assert(normal_map()[20] == 116u8 && shifted_map()[20] == 84u8);
    } else if row == 0 && i == 5 {
        assert(normal_map()[21] == 121u8 && shifted_map()[21] == 89u8);
    } else if row == 0 && i == 6 {
        assert(normal_map()[22] == 117u8 && shifted_map()[22] == 85u8);
    } else if row == 0 && i == 7 {
        assert(normal_map()[23] == 105u8 && shifted_map()[23] == 73u8);
    } else if row == 0 && i == 8 {
        assert(normal_map()[24] == 111u8 && shifted_map()[24] == 79u8);
    } else if row == 0 && i == 9 {
        assert(normal_map()[25] == 112u8 && shifted_map()[25] == 80u8);
    } else if row == 1 && i == 0 {
        assert(normal_map()[30] == 97u8 && shifted_map()[30] == 65u8);
    } else if row == 1 && i == 1 {
        assert(normal_map()[31] == 115u8 && shifted_map()[31] == 83u8);
    } else if row == 1 && i == 2 {
        assert(normal_map()[32] == 100u8 && shifted_map()[32] == 68u8);
    } else if row == 1 && i == 3 {
        assert(normal_map()[33] == 102u8 && shifted_map()[33] == 70u8);
    } else if row == 1 && i == 4 {
        assert(normal_map()[34] == 103u8 && shifted_map()[34] == 71u8);
    } else if row == 1 && i == 5 {
        assert(normal_map()[35] == 104u8 && shifted_map()[35] == 72u8);
    } else if row == 1 && i == 6 {
        assert(normal_map()[36] == 106u8 && shifted_map()[36] == 74u8);
    } else if row == 1 && i == 7 {
        assert(normal_map()[37] == 107u8 && shifted_map()[37] == 75u8);
    } else if row == 1 && i == 8 {
        assert(normal_map()[38] == 108u8 && shifted_map()[38] == 76u8);
    } else if row == 2 && i == 0 {
        assert(normal_map()[44] == 122u8 && shifted_map()[44] == 90u8);
    } else if row == 2 && i == 1 {
        assert(normal_map()[45] == 120u8 && shifted_map()[45] == 88u8);
    } else if row == 2 && i == 2 {
        assert(normal_map()[46] == 99u8 && shifted_map()[46] == 67u8);
    } else if row == 2 && i == 3 {
        assert(normal_map()[47] == 118u8 && shifted_map()[47] == 86u8);
    } else if row == 2 && i == 4 {
        assert(normal_map()[48] == 98u8 && shifted_map()[48] == 66u8);
    } else if row == 2 && i == 5 {
        assert(normal_map()[49] == 110u8 && shifted_map()[49] == 78u8);
    } else if row == 2 && i == 6 {
        assert(normal_map()[50] == 109u8 && shifted_map()[50] == 77u8);
    }
}

/// Every key that types a lower-case letter without shift types the same
/// letter in upper case with shift, and every key types a letter with shift
/// exactly when it types one without.
pub proof fn law_shift_upper_cases_letters(sc: int)
    requires
        0 <= sc < 58,
    ensures
        97 <= normal_map()[sc] <= 122 ==> shifted_map()[sc] == normal_map()[sc] - 32,
        (97 <= normal_map()[sc] <= 122) <==> (65 <= shifted_map()[sc] <= 90),
{
    if sc == 0 {
        assert(normal_map()[0] == 0u8 && shifted_map()[0] == 0u8);
    } else if sc == 1 {
        assert(normal_map()[1] == 27u8 && shifted_map()[1] == 27u8);
    } else if sc == 2 {
        assert(normal_map()[2] == 49u8 && shifted_map()[2] == 33u8);
    } else if sc == 3 {
        assert(normal_map()[3] == 50u8 && shifted_map()[3] == 64u8);
    } else if sc == 4 {
        assert(normal_map()[4] == 51u8 && shifted_map()[4] == 35u8);
    } else if sc == 5 {
        assert(normal_map()[5] == 52u8 && shifted_map()[5] == 36u8);
    } else if sc == 6 {
        assert(normal_map()[6] == 53u8 && shifted_map()[6] == 37u8);
    } else if sc == 7 {
        assert(normal_map()[7] == 54u8 && shifted_map()[7] == 94u8);
    } else if sc == 8 {
        assert(normal_map()[8] == 55u8 && shifted_map()[8] == 38u8);
    } else if sc == 9 {
        assert(normal_map()[9] == 56u8 && shifted_map()[9] == 42u8);
    } else if sc == 10 {
        assert(normal_map()[10] == 57u8 && shifted_map()[10] == 40u8);
    } else if sc == 11 {
        assert(normal_map()[11] == 48u8 && shifted_map()[11] == 41u8);
    } else if sc == 12 {
        assert(normal_map()[12] == 45u8 && shifted_map()[12] == 95u8);
    } else if sc == 13 {
        assert(normal_map()[13] == 61u8 && shifted_map()[13] == 43u8);
    } else if sc == 14 {
        assert(normal_map()[14] == 8u8 && shifted_map()[14] == 8u8);
    } else if sc == 15 {
        assert(normal_map()[15] == 9u8 && shifted_map()[15] == 9u8);
    } else if sc == 16 {
        assert(normal_map()[16] == 113u8 && shifted_map()[16] == 81u8);
    } else if sc == 17 {
        assert(normal_map()[17] == 119u8 && shifted_map()[17] == 87u8);
    } else if sc == 18 {
        assert(normal_map()[18] == 101u8 && shifted_map()[18] == 69u8);
    } else if sc == 19 {
        assert(normal_map()[19] == 114u8 && shifted_map()[19] == 82u8);
    } else if sc == 20 {
        assert(normal_map()[20] == 116u8 && shifted_map()[20] == 84u8);
    } else if sc == 21 {
        assert(normal_map()[21] == 121u8 && shifted_map()[21] == 89u8);
    } else if sc == 22 {
        assert(normal_map()[22] == 117u8 && shifted_map()[22] == 85u8);
    } else if sc == 23 {
        assert(normal_map()[23] == 105u8 && shifted_map()[23] == 73u8);
    } else if sc == 24 {
        assert(normal_map()[24] == 111u8 && shifted_map()[24] == 79u8);
    } else if sc == 25 {
        assert(normal_map()[25] == 112u8 && shifted_map()[25] == 80u8);
    } else if sc == 26 {
        assert(normal_map()[26] == 91u8 && shifted_map()[26] == 123u8);
    } else if sc == 27 {
        assert(normal_map()[27] == 93u8 && shifted_map()[27] == 125u8);
    } else if sc == 28 {
        assert(normal_map()[28] == 13u8 && shifted_map()[28] == 13u8);
    } else if sc == 29 {
        assert(normal_map()[29] == 0u8 && shifted_map()[29] == 0u8);
    } else if sc == 30 {
        assert(normal_map()[30] == 97u8 && shifted_map()[30] == 65u8);
    } else if sc == 31 {
        assert(normal_map()[31] == 115u8 && shifted_map()[31] == 83u8);
    } else if sc == 32 {
        assert(normal_map()[32] == 100u8 && shifted_map()[32] == 68u8);
    } else if sc == 33 {
        assert(normal_map()[33] == 102u8 && shifted_map()[33] == 70u8);
    } else if sc == 34 {
        assert(normal_map()[34] == 103u8 && shifted_map()[34] == 71u8);
    } else if sc == 35 {
        assert(normal_map()[35] == 104u8 && shifted_map()[35] == 72u8);
    } else if sc == 36 {
        assert(normal_map()[36] == 106u8 && shifted_map()[36] == 74u8);
    } else if sc == 37 {
        assert(normal_map()[37] == 107u8 && shifted_map()[37] == 75u8);
    } else if sc == 38 {
        assert(normal_map()[38] == 108u8 && shifted_map()[38] == 76u8);
    } else if sc == 39 {
        assert(normal_map()[39] == 59u8 && shifted_map()[39] == 58u8);
    } else if sc == 40 {
        assert(normal_map()[40] == 39u8 && shifted_map()[40] == 34u8);
    } else if sc == 41 {
        assert(normal_map()[41] == 96u8 && shifted_map()[41] == 126u8);
    } else if sc == 42 {
        assert(normal_map()[42] == 0u8 && shifted_map()[42] == 0u8);
    } else if sc == 43 {
        assert(normal_map()[43] == 92u8 && shifted_map()[43] == 124u8);
    } else if sc == 44 {
        assert(normal_map()[44] == 122u8 && shifted_map()[44] == 90u8);
    } else if sc == 45 {
        assert(normal_map()[45] == 120u8 && shifted_map()[45] == 88u8);
    } else if sc == 46 {
        assert(normal_map()[46] == 99u8 && shifted_map()[46] == 67u8);
    } else if sc == 47 {
        assert(normal_map()[47] == 118u8 && shifted_map()[47] == 86u8);
    } else if sc == 48 {
        assert(normal_map()[48] == 98u8 && shifted_map()[48] == 66u8);
    } else if sc == 49 {
        assert(normal_map()[49] == 110u8 && shifted_map()[49] == 78u8);
    } else if sc == 50 {
        assert(normal_map()[50] == 109u8 && shifted_map()[50] == 77u8);
    } else if sc == 51 {
        assert(normal_map()[51] == 44u8 && shifted_map()[51] == 60u8);
    } else if sc == 52 {
        assert(normal_map()[52] == 46u8 && shifted_map()[52] == 62u8);
    } else if sc == 53 {
        assert(normal_map()[53] == 47u8 && shifted_map()[53] == 63u8);
    } else if sc == 54 {
        assert(normal_map()[54] == 0u8 && shifted_map()[54] == 0u8);
    } else if sc == 55 {
        assert(normal_map()[55] == 42u8 && shifted_map()[55] == 42u8);
    } else if sc == 56 {
        assert(normal_map()[56] == 0u8 && shifted_map()[56] == 0u8);
    } else if sc == 57 {
        assert(normal_map()[57] == 32u8 && shifted_map()[57] == 32u8);
    }
}

/// The printing rows of the US layout: the scancode of each row's first
/// key, and the characters its keys type without and with shift.
pub open spec fn us_layout_rows() -> Seq<(int, Seq<char>, Seq<char>)> {
    seq![
        (0x2, seq!['1', '2', '3', '4', '5', '6', '7', '8', '9', '0', '-', '='], seq!['!', '@', '#', '$', '%', '^', '&', '*', '(', ')', '_', '+']),
        (0x10, seq!['q', 'w', 'e', 'r', 't', 'y', 'u', 'i', 'o', 'p', '[', ']'], seq!['Q', 'W', 'E', 'R', 'T', 'Y', 'U', 'I', 'O', 'P', '{', '}']),
        (0x1e, seq!['a', 's', 'd', 'f', 'g', 'h', 'j', 'k', 'l', ';', '\'', '`'], seq!['A', 'S', 'D', 'F', 'G', 'H', 'J', 'K', 'L', ':', '"', '~']),
        (0x2b, seq!['\\', 'z', 'x', 'c', 'v', 'b', 'n', 'm', ',', '.', '/'], seq!['|', 'Z', 'X', 'C', 'V', 'B', 'N', 'M', '<', '>', '?']),
    ]
}

/// Each key of the printing rows types, with shift and caps lock off, the
/// character the US layout puts on it, and with shift alone its shifted
/// character; the space bar types a space either way.
pub proof fn law_keys_follow_us_layout(row: int, i: int)
    requires
        0 <= row < 4,
        0 <= i < us_layout_rows()[row].1.len(),
    ensures
        ({
            let sc = (us_layout_rows()[row].0 + i) as u8;
            &&& key_outcome(false, false, sc) == (false, false, Some(us_layout_rows()[row].1[i] as u8))
            &&& key_outcome(true, false, sc) == (true, false, Some(us_layout_rows()[row].2[i] as u8))
        }),
        key_outcome(false, false, 0x39) == (false, false, Some(32u8)),
        key_outcome(true, false, 0x39) == (true, false, Some(32u8)),
{
    assert(normal_map()[0x39] == 32u8 && shifted_map()[0x39] == 32u8);
    if row == 0 && i == 0 {
        assert(normal_map()[2] == 49u8 && shifted_map()[2] == 33u8);
    } else if row == 0 && i == 1 {
        assert(normal_map()[3] == 50u8 && shifted_map()[3] == 64u8);
    } else if row == 0 && i == 2 {
        assert(normal_map()[4] == 51u8 && shifted_map()[4] == 35u8);
    } else if row == 0 && i == 3 {
        assert(normal_map()[5] == 52u8 && shifted_map()[5] == 36u8);
    } else if row == 0 && i == 4 {
        assert(normal_map()[6] == 53u8 && shifted_map()[6] == 37u8);
    } else if row == 0 && i == 5 {
        assert(normal_map()[7] == 54u8 && shifted_map()[7] == 94u8);
    } else if row == 0 && i == 6 {
        assert(normal_map()[8] == 55u8 && shifted_map()[8] == 38u8);
    } else if row == 0 && i == 7 {
        assert(normal_map()[9] == 56u8 && shifted_map()[9] == 42u8);
    } else if row == 0 && i == 8 {
        assert(normal_map()[10] == 57u8 && shifted_map()[10] == 40u8);
    } else if row == 0 && i == 9 {
        assert(normal_map()[11] == 48u8 && shifted_map()[11] == 41u8);
    } else if row == 0 && i == 10 {
        assert(normal_map()[12] == 45u8 && shifted_map()[12] == 95u8);
    } else if row == 0 && i == 11 {
        assert(normal_map()[13] == 61u8 && shifted_map()[13] == 43u8);
    } else if row == 1 && i == 0 {
        assert(normal_map()[16] == 113u8 && shifted_map()[16] == 81u8);
    } else if row == 1 && i == 1 {
        assert(normal_map()[17] == 119u8 && shifted_map()[17] == 87u8);
    } else if row == 1 && i == 2 {
        assert(normal_map()[18] == 101u8 && shifted_map()[18] == 69u8);
    } else if row == 1 && i == 3 {
        assert(normal_map()[19] == 114u8 && shifted_map()[19] == 82u8);
    } else if row == 1 && i == 4 {
        assert(normal_map()[20] == 116u8 && shifted_map()[20] == 84u8);
    } else if row == 1 && i == 5 {
        assert(normal_map()[21] == 121u8 && shifted_map()[21] == 89u8);
    } else if row == 1 && i == 6 {
        assert(normal_map()[22] == 117u8 && shifted_map()[22] == 85u8);
    } else if row == 1 && i == 7 {
        assert(normal_map()[23] == 105u8 && shifted_map()[23] == 73u8);
    } else if row == 1 && i == 8 {
        assert(normal_map()[24] == 111u8 && shifted_map()[24] == 79u8);
    } else if row == 1 && i == 9 {
        assert(normal_map()[25] == 112u8 && shifted_map()[25] == 80u8);
    } else if row == 1 && i == 10 {
        assert(normal_map()[26] == 91u8 && shifted_map()[26] == 123u8);
    } else if row == 1 && i == 11 {
        assert(normal_map()[27] == 93u8 && shifted_map()[27] == 125u8);
    } else if row == 2 && i == 0 {
        assert(normal_map()[30] == 97u8 && shifted_map()[30] == 65u8);
    } else if row == 2 && i == 1 {
        assert(normal_map()[31] == 115u8 && shifted_map()[31] == 83u8);
    } else if row == 2 && i == 2 {
        assert(normal_map()[32] == 100u8 && shifted_map()[32] == 68u8);
    } else if row == 2 && i == 3 {
        assert(normal_map()[33] == 102u8 && shifted_map()[33] == 70u8);
    } else if row == 2 && i == 4 {
        assert(normal_map()[34] == 103u8 && shifted_map()[34] == 71u8);
    } else if row == 2 && i == 5 {
        assert(normal_map()[35] == 104u8 && shifted_map()[35] == 72u8);
    } else if row == 2 && i == 6 {
        assert(normal_map()[36] == 106u8 && shifted_map()[36] == 74u8);
    } else if row == 2 && i == 7 {
        assert(normal_map()[37] == 107u8 && shifted_map()[37] == 75u8);
    } else if row == 2 && i == 8 {
        assert(normal_map()[38] == 108u8 && shifted_map()[38] == 76u8);
    } else if row == 2 && i == 9 {
        assert(normal_map()[39] == 59u8 && shifted_map()[39] == 58u8);
    } else if row == 2 && i == 10 {
        assert(normal_map()[40] == 39u8 && shifted_map()[40] == 34u8);
    } else if row == 2 && i == 11 {
        assert(normal_map()[41] == 96u8 && shifted_map()[41] == 126u8);
    } else if row == 3 && i == 0 {
        assert(normal_map()[43] == 92u8 && shifted_map()[43] == 124u8);
    } else if row == 3 && i == 1 {
        assert(normal_map()[44] == 122u8 && shifted_map()[44] == 90u8);
    } else if row == 3 && i == 2 {
        assert(normal_map()[45] == 120u8 && shifted_map()[45] == 88u8);
    } else if row == 3 && i == 3 {
        assert(normal_map()[46] == 99u8 && shifted_map()[46] == 67u8);
    } else if row == 3 && i == 4 {
        assert(normal_map()[47] == 118u8 && shifted_map()[47] == 86u8);
    } else if row == 3 && i == 5 {
        assert(normal_map()[48] == 98u8 && shifted_map()[48] == 66u8);
    } else if row == 3 && i == 6 {
        assert(normal_map()[49] == 110u8 && shifted_map()[49] == 78u8);
    } else if row == 3 && i == 7 {
        assert(normal_map()[50] == 109u8 && shifted_map()[50] == 77u8);
    } else if row == 3 && i == 8 {
        assert(normal_map()[51] == 44u8 && shifted_map()[51] == 60u8);
    } else if row == 3 && i == 9 {
        assert(normal_map()[52] == 46u8 && shifted_map()[52] == 62u8);
    } else if row == 3 && i == 10 {
        assert(normal_map()[53] == 47u8 && shifted_map()[53] == 63u8);
    }
}

} // verus!
