use vstd::prelude::*;
use vstd::string::StringSliceAdditionalSpecFns;

use super::function_keys::{
    csi_1, cursor_key_final, entries_view, get_key_entries, lemma_cursor_key_entries,
    spec_key_entries, spec_modifier, Entry, EntryV, ModifyKeys,
};
use super::key::{spec_key_char, Action, Key, KeyEvent, Mods};

verus! {

/// Encodes key events as the bytes a terminal application expects.
pub struct Encoder<'a> {
    pub event: KeyEvent<'a>,
    pub modify_other_keys_state_2: bool,
}

/// Whether an entry applies to `mods` in the given modify-other-keys state:
/// an entry without modifiers wants none (unless any will do), else exactly
/// its own.
pub open spec fn entry_applies(e: EntryV, mods: u8, modify_other_keys: bool) -> bool {
    &&& match e.modify_other_keys {
        ModifyKeys::Any => true,
        ModifyKeys::IsSet => !modify_other_keys,
        ModifyKeys::SetOther => modify_other_keys,
    }
    &&& if e.mods == 0 {
        mods == 0 || e.mods_empty_is_any
    } else {
        e.mods == mods
    }
}

/// The sequence of the first entry from `i` on that applies.
pub open spec fn spec_first_applying(
    entries: Seq<EntryV>,
    mods: u8,
    modify_other_keys: bool,
    i: int,
) -> Option<Seq<u8>>
    decreases entries.len() - i,
{
    if i < 0 || i >= entries.len() {
        None
    } else if entry_applies(entries[i], mods, modify_other_keys) {
        Some(entries[i].sequence)
    } else {
        spec_first_applying(entries, mods, modify_other_keys, i + 1)
    }
}

/// The PC-style encoding of a function key with `mods`.
pub open spec fn spec_pc_style_function_key(key: Key, mods: u8, modify_other_keys: bool) -> Option<
    Seq<u8>,
> {
    spec_first_applying(spec_key_entries(key), mods, modify_other_keys, 0)
}

/// What the first applying entry from `j` on sends is the sequence of an
/// entry from `j` on that applies; there is none only when no entry from `j`
/// on applies.
proof fn lemma_first_applying_found(entries: Seq<EntryV>, mods: u8, modify_other_keys: bool, j: int)
    requires
        0 <= j,
    ensures
        match spec_first_applying(entries, mods, modify_other_keys, j) {
            Some(s) => exists|k: int|
                j <= k < entries.len() && entry_applies(entries[k], mods, modify_other_keys)
                    && (#[trigger] entries[k]).sequence == s,
            None => forall|k: int|
                j <= k < entries.len() ==> !entry_applies(
                    #[trigger] entries[k],
                    mods,
                    modify_other_keys,
                ),
        },
    decreases entries.len() - j,
{
    if j < entries.len() && !entry_applies(entries[j], mods, modify_other_keys) {
        lemma_first_applying_found(entries, mods, modify_other_keys, j + 1);
    }
}

/// The cursor keys with modifiers: whatever a cursor key sends starts with
/// `ESC [ 1 ;` and ends with the key's own final byte (`A` up, `B` down,
/// `C` right, `D` left), and each of the fifteen modifier combinations gets
/// a sequence.
pub proof fn lemma_cursor_key_encoding(key: Key, mods: u8, modify_other_keys: bool)
    requires
        cursor_key_final(key) is Some,
    ensures
        match spec_pc_style_function_key(key, mods, modify_other_keys) {
            Some(s) => s.len() >= 6 && s.take(4) == csi_1() && s.last() == cursor_key_final(
                key,
            )->0,
            None => true,
        },
        forall|i: int|
            0 <= i < 15 && #[trigger] spec_modifier(i) == mods ==> spec_pc_style_function_key(
                key,
                mods,
                modify_other_keys,
            ) is Some,
{
    let entries = spec_key_entries(key);
    lemma_cursor_key_entries(key);
    lemma_first_applying_found(entries, mods, modify_other_keys, 0);
    assert forall|i: int| 0 <= i < 15 && #[trigger] spec_modifier(i) == mods implies
        spec_pc_style_function_key(key, mods, modify_other_keys) is Some by {
        assert(entries[i].mods == mods);
        assert(entries[i].modify_other_keys == ModifyKeys::Any);
        assert(entry_applies(entries[i], mods, modify_other_keys));
    }
}

/// No two cursor keys send the same sequence with the same modifiers.
pub proof fn lemma_cursor_keys_distinct(
    key: Key,
    other: Key,
    mods: u8,
    modify_other_keys: bool,
)
    requires
        cursor_key_final(key) is Some,
        cursor_key_final(other) is Some,
        key != other,
    ensures
        spec_pc_style_function_key(key, mods, modify_other_keys) is Some
            ==> spec_pc_style_function_key(key, mods, modify_other_keys)
            != spec_pc_style_function_key(other, mods, modify_other_keys),
{
    lemma_cursor_key_encoding(key, mods, modify_other_keys);
    lemma_cursor_key_encoding(other, mods, modify_other_keys);
}

fn entry_applies_exec(e: &Entry, mods: Mods, modify_other_keys: bool) -> (r: bool)
    ensures
        r == entry_applies(e@, mods@, modify_other_keys),
{
    let mode_ok = match e.modify_other_keys {
        ModifyKeys::Any => true,
        ModifyKeys::IsSet => !modify_other_keys,
        ModifyKeys::SetOther => modify_other_keys,
    };
    if !mode_ok {
        return false;
    }
    if e.mods.is_empty() {
        mods.is_empty() || e.mods_empty_is_any
    } else {
        e.mods.bits() == mods.bits()
    }
}

/// The PC-style encoding of `key` with `mods`, if it has one.
pub fn pc_style_function_key(key: Key, mods: Mods, modify_other_keys: bool) -> (r: Option<Vec<u8>>)
    ensures
        (match r {
            Some(v) => Some(v@),
            None => None,
        }) == spec_pc_style_function_key(key, mods@, modify_other_keys),
{
    let entries = get_key_entries(key);
    let ghost es = entries_view(entries@);
    let mut i: usize = 0;
    while i < entries.len()
        invariant
            i <= entries@.len(),
            es == entries_view(entries@),
            es == spec_key_entries(key),
            spec_first_applying(es, mods@, modify_other_keys, 0) == spec_first_applying(
                es,
                mods@,
                modify_other_keys,
                i as int,
            ),
        decreases entries@.len() - i,
    {
        assert(entries@[i as int]@ == es[i as int]);
        if entry_applies_exec(&entries[i], mods, modify_other_keys) {
            return Some(vstd::slice::slice_to_vec(entries[i].sequence.as_bytes()));
        }
        i = i + 1;
    }
    None
}

/// The byte that Ctrl and `ch` send, for the characters that have one.
pub open spec fn spec_ctrl_escaped(ch: char) -> Option<u8> {
    if ch == ' ' || ch == '2' || ch == '@' {
        Some(0)
    } else if ch == '/' || ch == '7' || ch == '_' {
        Some(31)
    } else if ch == '0' {
        Some(48)
    } else if ch == '1' {
        Some(49)
    } else if ch == '3' {
        Some(27)
    } else if ch == '4' || ch == '\\' {
        Some(28)
    } else if ch == '5' || ch == ']' {
        Some(29)
    } else if ch == '6' || ch == '^' || ch == '~' {
        Some(30)
    } else if ch == '8' || ch == '?' {
        Some(127)
    } else if ch == '9' {
        Some(57)
    } else if ('a' <= ch <= 'h') || ('j' <= ch <= 'l') || ('n' <= ch <= 'z') {
        Some((ch as u32 - 0x60) as u8)
    } else {
        None
    }
}

/// Control with a lower-case letter sends the letter's place in the
/// alphabet (Ctrl+A 1, ..., Ctrl+Z 26), except `i` and `m`, which have no
/// byte here (those are Tab and Enter); Ctrl+Space and Ctrl+@ send NUL.
pub proof fn lemma_ctrl_letters(ch: char)
    ensures
        ('a' <= ch <= 'z' && ch != 'i' && ch != 'm') ==> (spec_ctrl_escaped(ch) matches Some(b)
            && 1 <= b <= 26 && b + 0x60 == ch as u32),
        (ch == 'i' || ch == 'm') ==> spec_ctrl_escaped(ch) is None,
        (ch == ' ' || ch == '@') ==> spec_ctrl_escaped(ch) == Some(0u8),
{
}

fn ctrl_escaped(ch: char) -> (r: Option<u8>)
    ensures
        r == spec_ctrl_escaped(ch),
{
    if ch == ' ' || ch == '2' || ch == '@' {
        Some(0)
    } else if ch == '/' || ch == '7' || ch == '_' {
        Some(31)
    } else if ch == '0' {
        Some(48)
    } else if ch == '1' {
        Some(49)
    } else if ch == '3' {
        Some(27)
    } else if ch == '4' || ch == '\\' {
        Some(28)
    } else if ch == '5' || ch == ']' {
        Some(29)
    } else if ch == '6' || ch == '^' || ch == '~' {
        Some(30)
    } else if ch == '8' || ch == '?' {
        Some(127)
    } else if ch == '9' {
        Some(57)
    } else if ('a' <= ch && ch <= 'h') || ('j' <= ch && ch <= 'l') || ('n' <= ch && ch <= 'z') {
        Some((ch as u32 - 0x60) as u8)
    } else {
        None
    }
}

/// The C0 byte that a key event with Control sends, such as Ctrl+C giving
/// 0x03: the character is the event's one-byte text, else the key's own
/// character when Control is the only modifier besides Alt; Shift is
/// ignored except on capital letters and `@`; with modifiers other than
/// Control, Shift and Alt there is none.
pub open spec fn spec_ctrl_seq(logical_key: Key, utf8: Seq<u8>, unshifted_char: char, mods: u8) -> Option<u8> {
    if mods & 0x02 != 0x02 && mods & 0x20 != 0x20 {
        None
    } else {
        let unset = mods & !0x44u8;
        let ch: Option<char> = if utf8.len() == 1 {
            Some(utf8[0] as char)
        } else {
            match spec_key_char(logical_key) {
                Some(c) => if unset != 0x02 && unset != 0x20 {
                    None
                } else {
                    Some(c)
                },
                None => None,
            }
        };
        match ch {
            None => None,
            Some(ch) => {
                let is_us_letter = 'A' <= ch <= 'Z';
                let unset2 = if (unset & 0x01 == 0x01 || unset & 0x10 == 0x10) && !is_us_letter
                    && ch != '@' {
                    unset & !0x11u8
                } else {
                    unset
                };
                let ch2 = if is_us_letter && unshifted_char != '\0' {
                    unshifted_char
                } else {
                    ch
                };
                if unset2 & !0x22u8 != 0 {
                    None
                } else if ch2 as u32 >= 256 {
                    None
                } else {
                    spec_ctrl_escaped(ch2)
                }
            },
        }
    }
}

/// The C0 byte for a key event with Control, if it should be used.
pub fn ctrl_seq(logical_key: Key, utf8: &str, unshifted_char: char, mods: Mods) -> (r: Option<
    Vec<u8>,
>)
    ensures
        (match r {
            Some(v) => Some(v@),
            None => None,
        }) == (match spec_ctrl_seq(logical_key, utf8.spec_bytes(), unshifted_char, mods@) {
            Some(b) => Some(seq![b]),
            None => None,
        }),
{
    if !mods.contains(Mods::left_ctrl()) && !mods.contains(Mods::right_ctrl()) {
        return None;
    }
    let mut unset_mods = mods.difference(Mods::left_alt().union(Mods::right_alt()));
    proof {
        let u: u8 = unset_mods@;
        let m: u8 = mods@;
        assert(u == m & !0x44u8) by (bit_vector)
            requires
                u == m & !(0x04u8 | 0x40u8),
        ;
    }
    let bytes = utf8.as_bytes();
    let mut ch: char = if bytes.len() == 1 {
        bytes[0] as char
    } else {
        match logical_key.char() {
            Some(c) => {
                if unset_mods.bits() != 0x02 && unset_mods.bits() != 0x20 {
                    return None;
                }
                c
            },
            None => {
                return None;
            },
        }
    };
    let is_us_letter = 'A' <= ch && ch <= 'Z';
    if (unset_mods.contains(Mods::left_shift()) || unset_mods.contains(Mods::right_shift()))
        && !is_us_letter && ch != '@' {
        let ghost before = unset_mods@;
        unset_mods.remove(Mods::left_shift().union(Mods::right_shift()));
        proof {
            let u: u8 = unset_mods@;
            let b: u8 = before;
            assert(u == b & !0x11u8) by (bit_vector)
                requires
                    u == b & !(0x01u8 | 0x10u8),
            ;
        }
    }
    if is_us_letter && unshifted_char != '\0' {
        ch = unshifted_char;
    }
    let rest = unset_mods.difference(Mods::left_ctrl().union(Mods::right_ctrl()));
    proof {
        let r: u8 = rest@;
        let u: u8 = unset_mods@;
        assert(r == u & !0x22u8) by (bit_vector)
            requires
                r == u & !(0x02u8 | 0x20u8),
        ;
    }
    if !rest.is_empty() {
        return None;
    }
    if ch as u32 >= 256 {
        return None;
    }
    match ctrl_escaped(ch) {
        Some(b) => {
            let mut out: Vec<u8> = Vec::new();
            out.push(b);
            assert(out@ =~= seq![b]);
            Some(out)
        },
        None => None,
    }
}

/// What `encode_legacy` sends: nothing for releases and while composing,
/// else the key's PC-style encoding, else its Control byte.
pub open spec fn spec_encode_legacy(
    action: Action,
    composing: bool,
    key: Key,
    utf8: Seq<u8>,
    unshifted_char: char,
    mods: u8,
    modify_other_keys: bool,
) -> Option<Seq<u8>> {
    if action == Action::Release || composing {
        None
    } else {
        match spec_pc_style_function_key(key, mods, modify_other_keys) {
            Some(s) => Some(s),
            None => match spec_ctrl_seq(key, utf8, unshifted_char, mods) {
                Some(b) => Some(seq![b]),
                None => None,
            },
        }
    }
}

impl Encoder<'_> {
    /// The bytes that the key event sends, if any.
    pub fn encode(self) -> (r: Option<Vec<u8>>)
        ensures
            (match r {
                Some(v) => Some(v@),
                None => None,
            }) == spec_encode_legacy(
                self.event.action,
                self.event.composing,
                self.event.key,
                self.event.utf8.spec_bytes(),
                self.event.unshifted_char,
                self.event.mods@,
                self.modify_other_keys_state_2,
            ),
    {
        self.encode_legacy()
    }

    fn encode_legacy(self) -> (r: Option<Vec<u8>>)
        ensures
            (match r {
                Some(v) => Some(v@),
                None => None,
            }) == spec_encode_legacy(
                self.event.action,
                self.event.composing,
                self.event.key,
                self.event.utf8.spec_bytes(),
                self.event.unshifted_char,
                self.event.mods@,
                self.modify_other_keys_state_2,
            ),
    {
        let all_mods = self.event.mods;
        if self.event.action == Action::Release || self.event.composing {
            return None;
        }
        match pc_style_function_key(self.event.key, all_mods, self.modify_other_keys_state_2) {
            Some(seq) => {
                return Some(seq);
            },
            None => {},
        }
        ctrl_seq(self.event.key, self.event.utf8, self.event.unshifted_char, all_mods)
    }
}

} // verus!
