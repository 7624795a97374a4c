use vstd::prelude::*;

use super::key::{Key, Mods};

verus! {

/// The most bytes a sequence holds.
pub const BUFFER_SIZE: usize = 8192;

/// The cursor key mode in which an entry applies.
#[derive(Clone, Copy, Debug, PartialEq, Eq, Structural)]
pub enum CursorMode {
    Any,
    Normal,
    Application,
}

/// The keypad mode in which an entry applies.
#[derive(Clone, Copy, Debug, PartialEq, Eq, Structural)]
pub enum KeypadMode {
    Any,
    Normal,
    Application,
}

/// The `modifyOtherKeys` state in which an entry applies.
#[derive(Clone, Copy, Debug, PartialEq, Eq, Structural)]
pub enum ModifyKeys {
    Any,
    IsSet,
    SetOther,
}

/// The bytes that a key sends.
pub struct Sequence {
    bytes: Vec<u8>,
}

impl View for Sequence {
    type V = Seq<u8>;

    closed spec fn view(&self) -> Seq<u8> {
        self.bytes@
    }
}

impl Sequence {
    pub fn empty() -> (r: Sequence)
        ensures
            r@ == Seq::<u8>::empty(),
    {
        Sequence { bytes: Vec::new() }
    }

    pub fn new(bytes: &[u8]) -> (r: Sequence)
        requires
            bytes@.len() <= BUFFER_SIZE,
        ensures
            r@ == bytes@,
    {
        let mut seq = Sequence::empty();
        seq.concat(bytes);
        assert(seq@ =~= bytes@);
        seq
    }

    /// Appends a byte; the sequence must not be full.
    pub fn push(&mut self, byte: u8)
        requires
            old(self)@.len() < BUFFER_SIZE,
        ensures
            final(self)@ == old(self)@.push(byte),
    {
        self.bytes.push(byte);
    }

    /// Appends bytes; they must fit.
    pub fn concat(&mut self, bytes: &[u8])
        requires
            old(self)@.len() + bytes@.len() <= BUFFER_SIZE,
        ensures
            final(self)@ == old(self)@ + bytes@,
    {
        let ghost start = self@;
        let mut i: usize = 0;
        while i < bytes.len()
            invariant
                i <= bytes@.len(),
                start.len() + bytes@.len() <= BUFFER_SIZE,
                self@ == start + bytes@.take(i as int),
            decreases bytes@.len() - i,
        {
            self.push(bytes[i]);
            i = i + 1;
            assert(self@ =~= start + bytes@.take(i as int));
        }
        assert(bytes@.take(i as int) =~= bytes@);
    }

    pub fn as_bytes(&self) -> (r: &[u8])
        ensures
            r@ == self@,
    {
        self.bytes.as_slice()
    }
}

/// One way a key can be encoded, and when it applies.
pub struct Entry {
    pub mods: Mods,
    pub mods_empty_is_any: bool,
    pub cursor: CursorMode,
    pub keypad: KeypadMode,
    pub modify_other_keys: ModifyKeys,
    pub sequence: Sequence,
}

/// The content of an [`Entry`].
pub struct EntryV {
    pub mods: u8,
    pub mods_empty_is_any: bool,
    pub cursor: CursorMode,
    pub keypad: KeypadMode,
    pub modify_other_keys: ModifyKeys,
    pub sequence: Seq<u8>,
}

impl View for Entry {
    type V = EntryV;

    open spec fn view(&self) -> EntryV {
        EntryV {
            mods: self.mods@,
            mods_empty_is_any: self.mods_empty_is_any,
            cursor: self.cursor,
            keypad: self.keypad,
            modify_other_keys: self.modify_other_keys,
            sequence: self.sequence@,
        }
    }
}

pub open spec fn entries_view(v: Seq<Entry>) -> Seq<EntryV> {
    v.map_values(|e: Entry| e@)
}

/// An entry for any modifiers and any mode, sending `sequence`.
pub open spec fn default_entry(mods: u8, modify_other_keys: ModifyKeys, sequence: Seq<u8>) -> EntryV {
    EntryV {
        mods,
        mods_empty_is_any: true,
        cursor: CursorMode::Any,
        keypad: KeypadMode::Any,
        modify_other_keys,
        sequence,
    }
}

fn entry(mods: Mods, modify_other_keys: ModifyKeys, bytes: &[u8]) -> (r: Entry)
    requires
        bytes@.len() <= BUFFER_SIZE,
    ensures
        r@ == default_entry(mods@, modify_other_keys, bytes@),
{
    Entry {
        mods,
        mods_empty_is_any: true,
        cursor: CursorMode::Any,
        keypad: KeypadMode::Any,
        modify_other_keys,
        sequence: Sequence::new(bytes),
    }
}

/// The modifier combination of modify-other-keys mode `i + 2`: bit 0 of
/// `i + 1` is shift, bit 1 alt, bit 2 control and bit 3 super.
pub open spec fn spec_modifier(i: int) -> u8 {
    let m = i + 1;
    ((if m % 2 == 1 { 0x01int } else { 0 }) + (if (m / 2) % 2 == 1 { 0x04int } else { 0 }) + (if (m
        / 4) % 2 == 1 {
        0x02int
    } else {
        0
    }) + (if (m / 8) % 2 == 1 { 0x08int } else { 0 })) as u8
}

/// The modifier combinations of modify-other-keys modes 2 to 16, in order.
pub fn modifiers() -> (r: Vec<Mods>)
    ensures
        r@.len() == 15,
        forall|i: int| 0 <= i < 15 ==> (#[trigger] r@[i])@ == spec_modifier(i),
{
    let mut out: Vec<Mods> = Vec::new();
    let mut i: u8 = 0;
    while i < 15
        invariant
            i <= 15,
            out@.len() == i,
            forall|j: int| 0 <= j < i ==> (#[trigger] out@[j])@ == spec_modifier(j),
        decreases 15 - i,
    {
        let m: u8 = i + 1;
        let shift: u8 = if m % 2 == 1 {
            0x01
        } else {
            0
        };
        let alt: u8 = if (m / 2) % 2 == 1 {
            0x04
        } else {
            0
        };
        let ctrl: u8 = if (m / 4) % 2 == 1 {
            0x02
        } else {
            0
        };
        let sup: u8 = if (m / 8) % 2 == 1 {
            0x08
        } else {
            0
        };
        out.push(Mods::from_bits_retain(shift + alt + ctrl + sup));
        i = i + 1;
    }
    out
}

/// `n` written in decimal, for `n` from 2 to 16.
pub open spec fn spec_code(n: int) -> Seq<u8> {
    if n < 10 {
        seq![(0x30 + n) as u8]
    } else {
        seq![0x31u8, (0x30 + n - 10) as u8]
    }
}

/// The entries of a key with a PC-style encoding `left`, mode, `right`:
/// one per modifier combination.
pub open spec fn spec_pc_style(left: Seq<u8>, right: Seq<u8>) -> Seq<EntryV> {
    Seq::new(
        15,
        |i: int| default_entry(spec_modifier(i), ModifyKeys::Any, left + spec_code(i + 2) + right),
    )
}

fn code(n: u8) -> (r: Vec<u8>)
    requires
        2 <= n <= 16,
    ensures
        r@ == spec_code(n as int),
{
    let mut out: Vec<u8> = Vec::new();
    if n < 10 {
        out.push(0x30 + n);
    } else {
        out.push(0x31);
        out.push(0x30 + n - 10);
    }
    assert(out@ =~= spec_code(n as int));
    out
}

/// The entries of a key encoded as `left`, the modifier code and `right`.
pub fn pc_style(left: &[u8], right: &[u8]) -> (r: Vec<Entry>)
    requires
        left@.len() + right@.len() + 2 <= BUFFER_SIZE,
    ensures
        entries_view(r@) == spec_pc_style(left@, right@),
{
    let mods = modifiers();
    let mut entries: Vec<Entry> = Vec::new();
    let mut i: usize = 0;
    while i < 15
        invariant
            i <= 15,
            mods@.len() == 15,
            forall|j: int| 0 <= j < 15 ==> (#[trigger] mods@[j])@ == spec_modifier(j),
            left@.len() + right@.len() + 2 <= BUFFER_SIZE,
            entries_view(entries@) =~= spec_pc_style(left@, right@).take(i as int),
        decreases 15 - i,
    {
        let mut sequence = Sequence::empty();
        sequence.concat(left);
        let c = code((i + 2) as u8);
        sequence.concat(c.as_slice());
        sequence.concat(right);
        let e = Entry {
            mods: mods[i],
            mods_empty_is_any: true,
            cursor: CursorMode::Any,
            keypad: KeypadMode::Any,
            modify_other_keys: ModifyKeys::Any,
            sequence,
        };
        let ghost prev = entries_view(entries@);
        assert(e@ == spec_pc_style(left@, right@)[i as int]);
        entries.push(e);
        assert(entries_view(entries@) =~= prev.push(e@));
        i = i + 1;
    }
    assert(spec_pc_style(left@, right@).take(15) =~= spec_pc_style(left@, right@));
    entries
}

/// `ESC [ 1 ;`, which starts the PC-style cursor keys.
pub open spec fn csi_1() -> Seq<u8> {
    seq![0x1Bu8, 0x5B, 0x31, 0x3B]
}

/// The ways a key can be encoded, most specific first.
pub open spec fn spec_key_entries(key: Key) -> Seq<EntryV> {
    match key {
        Key::Up => spec_pc_style(csi_1(), seq![0x41u8]),
        Key::Down => spec_pc_style(csi_1(), seq![0x42u8]),
        Key::Right => spec_pc_style(csi_1(), seq![0x43u8]),
        Key::Left => spec_pc_style(csi_1(), seq![0x44u8]),
        Key::Backspace => seq![
            default_entry(0x02, ModifyKeys::Any, seq![0x08u8]),
            default_entry(0, ModifyKeys::Any, seq![0x7Fu8]),
        ],
        Key::Tab => seq![
            default_entry(0x01, ModifyKeys::IsSet, seq![0x1Bu8, 0x5B, 0x5A]),
            default_entry(
                0x01,
                ModifyKeys::SetOther,
                seq![0x1Bu8, 0x5B, 0x32, 0x37, 0x3B, 0x32, 0x3B, 0x39, 0x7E],
            ),
            default_entry(0, ModifyKeys::Any, seq![0x09u8]),
        ],
        Key::Enter => seq![default_entry(0, ModifyKeys::Any, seq![0x0Du8])],
        Key::Escape => seq![default_entry(0, ModifyKeys::Any, seq![0x1Bu8])],
        _ => seq![],
    }
}

/// The final byte of a cursor key's PC-style sequences: `A` for up, `B` for
/// down, `C` for right and `D` for left.
pub open spec fn cursor_key_final(key: Key) -> Option<u8> {
    match key {
        Key::Up => Some(0x41u8),
        Key::Down => Some(0x42u8),
        Key::Right => Some(0x43u8),
        Key::Left => Some(0x44u8),
        _ => None,
    }
}

/// A cursor key has one entry for each of the fifteen modifier
/// combinations, in order; each sends `ESC [ 1 ;`, the modifier code and the
/// key's own final byte.
pub proof fn lemma_cursor_key_entries(key: Key)
    requires
        cursor_key_final(key) is Some,
    ensures
        spec_key_entries(key).len() == 15,
        forall|i: int|
            0 <= i < 15 ==> {
                let e = #[trigger] spec_key_entries(key)[i];
                &&& e.mods == spec_modifier(i)
                &&& e.sequence == csi_1() + spec_code(i + 2) + seq![cursor_key_final(key)->0]
                &&& e.sequence.len() >= 6
                &&& e.sequence.take(4) == csi_1()
                &&& e.sequence.last() == cursor_key_final(key)->0
            },
{
    let f = cursor_key_final(key)->0;
    assert(spec_key_entries(key) == spec_pc_style(csi_1(), seq![f]));
    assert forall|i: int| 0 <= i < 15 implies {
        let e = #[trigger] spec_key_entries(key)[i];
        &&& e.mods == spec_modifier(i)
        &&& e.sequence == csi_1() + spec_code(i + 2) + seq![f]
        &&& e.sequence.len() >= 6
        &&& e.sequence.take(4) == csi_1()
        &&& e.sequence.last() == f
    } by {
        let s = csi_1() + spec_code(i + 2) + seq![f];
        assert(spec_code(i + 2).len() >= 1);
        assert(s.take(4) =~= csi_1());
    }
}

/// The ways `key` can be encoded.
pub fn get_key_entries_raw(key: Key) -> (r: Vec<Entry>)
    ensures
        entries_view(r@) == spec_key_entries(key),
{
    let csi: Vec<u8> = vec![0x1B, 0x5B, 0x31, 0x3B];
    assert(csi@ == csi_1());
    let mut out: Vec<Entry> = Vec::new();
    match key {
        Key::Up => {
            let right: Vec<u8> = vec![0x41];
            assert(right@ == seq![0x41u8]);
            out = pc_style(csi.as_slice(), right.as_slice());
        },
        Key::Down => {
            let right: Vec<u8> = vec![0x42];
            assert(right@ == seq![0x42u8]);
            out = pc_style(csi.as_slice(), right.as_slice());
        },
        Key::Right => {
            let right: Vec<u8> = vec![0x43];
            assert(right@ == seq![0x43u8]);
            out = pc_style(csi.as_slice(), right.as_slice());
        },
        Key::Left => {
            let right: Vec<u8> = vec![0x44];
            assert(right@ == seq![0x44u8]);
            out = pc_style(csi.as_slice(), right.as_slice());
        },
        Key::Backspace => {
            let bs: Vec<u8> = vec![0x08];
            let del: Vec<u8> = vec![0x7F];
            let e1 = entry(Mods::left_ctrl(), ModifyKeys::Any, bs.as_slice());
            let e2 = entry(Mods::empty(), ModifyKeys::Any, del.as_slice());
            assert(bs@ == seq![0x08u8]);
            assert(del@ == seq![0x7Fu8]);
            out.push(e1);
            out.push(e2);
            assert(entries_view(out@) =~= seq![e1@, e2@]);
        },
        Key::Tab => {
            let back_tab: Vec<u8> = vec![0x1B, 0x5B, 0x5A];
            let other: Vec<u8> = vec![0x1B, 0x5B, 0x32, 0x37, 0x3B, 0x32, 0x3B, 0x39, 0x7E];
            let tab: Vec<u8> = vec![0x09];
            let e1 = entry(Mods::left_shift(), ModifyKeys::IsSet, back_tab.as_slice());
            let e2 = entry(Mods::left_shift(), ModifyKeys::SetOther, other.as_slice());
            let e3 = entry(Mods::empty(), ModifyKeys::Any, tab.as_slice());
            assert(back_tab@ == seq![0x1Bu8, 0x5B, 0x5A]);
            assert(other@ == seq![0x1Bu8, 0x5B, 0x32, 0x37, 0x3B, 0x32, 0x3B, 0x39, 0x7E]);
            assert(tab@ == seq![0x09u8]);
            out.push(e1);
            out.push(e2);
            out.push(e3);
            assert(entries_view(out@) =~= seq![e1@, e2@, e3@]);
        },
        Key::Enter => {
            let cr: Vec<u8> = vec![0x0D];
            let e = entry(Mods::empty(), ModifyKeys::Any, cr.as_slice());
            assert(cr@ == seq![0x0Du8]);
            out.push(e);
            assert(entries_view(out@) =~= seq![e@]);
        },
        Key::Escape => {
            let esc: Vec<u8> = vec![0x1B];
            let e = entry(Mods::empty(), ModifyKeys::Any, esc.as_slice());
            assert(esc@ == seq![0x1Bu8]);
            out.push(e);
            assert(entries_view(out@) =~= seq![e@]);
        },
        _ => {},
    }
    assert(entries_view(out@) =~= spec_key_entries(key));
    out
}

/// The ways `key` can be encoded.
pub fn get_key_entries(key: Key) -> (r: Vec<Entry>)
    ensures
        entries_view(r@) == spec_key_entries(key),
{
    get_key_entries_raw(key)
}

} // verus!
