//! Physical keys.

use vstd::prelude::*;

verus! {

/// What each key code below 58 types on a US-QWERTY keyboard, zero where it types nothing.
pub open spec fn plain_keys() -> Seq<u8> {
    seq![
        0x00, 0x00, 0x31, 0x32, 0x33, 0x34, 0x35, 0x36, 0x37, 0x38, 0x39, 0x30, 0x2D, 0x3D,
        0x00, 0x00, 0x71, 0x77, 0x65, 0x72, 0x74, 0x79, 0x75, 0x69, 0x6F, 0x70, 0x5B, 0x5D,
        0x00, 0x00, 0x61, 0x73, 0x64, 0x66, 0x67, 0x68, 0x6A, 0x6B, 0x6C, 0x3B, 0x27, 0x60,
        0x00, 0x5C, 0x7A, 0x78, 0x63, 0x76, 0x62, 0x6E, 0x6D, 0x2C, 0x2E, 0x2F, 0x00, 0x00,
        0x00, 0x20,
    ]
}

/// What each key code below 58 types on a US-QWERTY keyboard while Shift is down, zero where it
/// types nothing.
pub open spec fn shifted_keys() -> Seq<u8> {
    seq![
        0x00, 0x00, 0x21, 0x40, 0x23, 0x24, 0x25, 0x5E, 0x26, 0x2A, 0x28, 0x29, 0x5F, 0x2B,
        0x00, 0x00, 0x51, 0x57, 0x45, 0x52, 0x54, 0x59, 0x55, 0x49, 0x4F, 0x50, 0x7B, 0x7D,
        0x00, 0x00, 0x41, 0x53, 0x44, 0x46, 0x47, 0x48, 0x4A, 0x4B, 0x4C, 0x3A, 0x22, 0x7E,
        0x00, 0x7C, 0x5A, 0x58, 0x43, 0x56, 0x42, 0x4E, 0x4D, 0x3C, 0x3E, 0x3F, 0x00, 0x00,
        0x00, 0x20,
    ]
}

/// The ASCII character of a physical key on a US-QWERTY keyboard.
pub open spec fn qwerty(keycode: u32, shift: bool) -> Option<u8> {
    let keys = if shift {
        shifted_keys()
    } else {
        plain_keys()
    };
    if keycode < 58 && keys[keycode as int] != 0 {
        Some(keys[keycode as int])
    } else {
        None
    }
}

/// The ASCII character that the key with the given evdev key code types on a US-QWERTY
/// keyboard, whatever layout is active.
pub fn us_qwerty_ascii(keycode: u32, shift: bool) -> (r: Option<u8>)
    ensures
        r == qwerty(keycode, shift),
{
    let plain: [u8; 58] = [
        0x00, 0x00, 0x31, 0x32, 0x33, 0x34, 0x35, 0x36, 0x37, 0x38, 0x39, 0x30, 0x2D, 0x3D,
        0x00, 0x00, 0x71, 0x77, 0x65, 0x72, 0x74, 0x79, 0x75, 0x69, 0x6F, 0x70, 0x5B, 0x5D,
        0x00, 0x00, 0x61, 0x73, 0x64, 0x66, 0x67, 0x68, 0x6A, 0x6B, 0x6C, 0x3B, 0x27, 0x60,
        0x00, 0x5C, 0x7A, 0x78, 0x63, 0x76, 0x62, 0x6E, 0x6D, 0x2C, 0x2E, 0x2F, 0x00, 0x00,
        0x00, 0x20,
    ];
    let shifted: [u8; 58] = [
        0x00, 0x00, 0x21, 0x40, 0x23, 0x24, 0x25, 0x5E, 0x26, 0x2A, 0x28, 0x29, 0x5F, 0x2B,
        0x00, 0x00, 0x51, 0x57, 0x45, 0x52, 0x54, 0x59, 0x55, 0x49, 0x4F, 0x50, 0x7B, 0x7D,
        0x00, 0x00, 0x41, 0x53, 0x44, 0x46, 0x47, 0x48, 0x4A, 0x4B, 0x4C, 0x3A, 0x22, 0x7E,
        0x00, 0x7C, 0x5A, 0x58, 0x43, 0x56, 0x42, 0x4E, 0x4D, 0x3C, 0x3E, 0x3F, 0x00, 0x00,
        0x00, 0x20,
    ];
    proof {
        assert(plain@ =~= plain_keys());
        assert(shifted@ =~= shifted_keys());
    }
    if keycode >= 58 {
        return None;
    }
    let c: u8 = if shift {
        shifted[keycode as usize]
    } else {
        plain[keycode as usize]
    };
    if c != 0 {
        Some(c)
    } else {
        None
    }
}

/// A key that types anything types a printable ASCII character.
pub proof fn keys_type_printable_characters(keycode: u32, shift: bool)
    requires
        qwerty(keycode, shift) is Some,
    ensures
        0x20 <= qwerty(keycode, shift)->0 <= 0x7E,
{
}

/// Whether the keys from the given code on type the characters of the row one after the other.
pub open spec fn types_row(first: int, shift: bool, row: Seq<char>) -> bool {
    forall|i: int|
        0 <= i < row.len() ==> (qwerty((first + i) as u32, shift) matches Some(c) && c as int
            == #[trigger] row[i] as int)
}

/// The rows of the keyboard type what their keys show, and with Shift what stands above it. The
/// space bar types a blank.
pub proof fn rows_type_what_they_show()
    ensures
        types_row(2, false, "1234567890-="@),
        types_row(2, true, "!@#$%^&*()_+"@),
        types_row(16, false, "qwertyuiop[]"@),
        types_row(16, true, "QWERTYUIOP{}"@),
        types_row(30, false, "asdfghjkl;'`"@),
        types_row(30, true, "ASDFGHJKL:\"~"@),
        types_row(43, false, "\\zxcvbnm,./"@),
        types_row(43, true, "|ZXCVBNM<>?"@),
        forall|shift: bool| #[trigger] qwerty(57, shift) == Some(0x20u8),
{
    reveal_strlit("1234567890-=");
    reveal_strlit("!@#$%^&*()_+");
    reveal_strlit("qwertyuiop[]");
    reveal_strlit("QWERTYUIOP{}");
    reveal_strlit("asdfghjkl;'`");
    reveal_strlit("ASDFGHJKL:\"~");
    reveal_strlit("\\zxcvbnm,./");
    reveal_strlit("|ZXCVBNM<>?");
}

/// Keys outside the rows and the space bar type nothing.
pub proof fn other_keys_type_nothing(keycode: u32, shift: bool)
    ensures
        qwerty(keycode, shift) is Some <==> 2 <= keycode <= 13 || 16 <= keycode <= 27 || 30
            <= keycode <= 41 || 43 <= keycode <= 53 || keycode == 57,
{
}

/// With Shift a key that types a letter types its capital, and every other key but the space bar
/// types another character. Two keys never type the same.
pub proof fn shift_gives_capitals(k1: u32, k2: u32, s1: bool, s2: bool)
    ensures
        qwerty(k1, false) matches Some(c) ==> (0x61 <= c <= 0x7A ==> qwerty(k1, true) == Some(
            (c - 0x20) as u8,
        )),
        qwerty(k1, false) is Some && k1 != 57 ==> qwerty(k1, true) != qwerty(k1, false),
        qwerty(k1, s1) is Some && qwerty(k1, s1) == qwerty(k2, s2) ==> k1 == k2 && (s1 == s2 || k1
            == 57),
{
}

} // verus!
