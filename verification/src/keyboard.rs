//! The PS/2 keyboard: scancodes are decoded by pc-keyboard (US 104-key layout, scancode
//! set 1, Ctrl passed through), and the kernel decides what each decoded key does.

use vstd::prelude::*;

use pc_keyboard::layouts::Us104Key;
use pc_keyboard::{HandleControl, KeyEvent, Keyboard, ScancodeSet1};

verus! {

#[verifier::external_type_specification]
#[verifier::external_body]
pub struct ExKeyEvent(KeyEvent);

/// The number of `pc_keyboard::KeyCode::LShift`, the left shift key.
pub const KEY_CODE_LSHIFT: u8 = 76;

/// The number of `pc_keyboard::KeyCode::RShift`, the right shift key.
pub const KEY_CODE_RSHIFT: u8 = 87;

/// A key as the decoder reports it: a character, or a key code (the number of its
/// `pc_keyboard::KeyCode`) for a key without one.
#[derive(Copy, Clone, Debug, PartialEq, Eq)]
pub enum Ps2Key {
    Unicode(char),
    RawKey(u8),
}

/// A key the decoder reports: one that stands for a character, a shift key, or
/// another key without a character.
#[derive(Copy, Clone, Debug, PartialEq, Eq)]
pub enum DecodedKeyKind {
    Unicode(char),
    ShiftKey,
    OtherRawKey,
}

/// What the kernel does for a key.
#[derive(Copy, Clone, Debug, PartialEq, Eq)]
pub enum KeyAction {
    /// Print the character on the console.
    Print(char),
    /// Record whether shift is held.
    SetShiftPressed(bool),
}

/// The kind of a decoded key: either shift key is a shift key.
pub open spec fn kind_of(key: Ps2Key) -> DecodedKeyKind {
    match key {
        Ps2Key::Unicode(c) => DecodedKeyKind::Unicode(c),
        Ps2Key::RawKey(code) => if code == KEY_CODE_LSHIFT || code == KEY_CODE_RSHIFT {
            DecodedKeyKind::ShiftKey
        } else {
            DecodedKeyKind::OtherRawKey
        },
    }
}

/// The action for a decoded key: a character is printed, and a key without a
/// character records whether it is a shift key.
pub open spec fn action_for(key: Option<DecodedKeyKind>) -> Option<KeyAction> {
    match key {
        Some(DecodedKeyKind::Unicode(c)) => Some(KeyAction::Print(c)),
        Some(DecodedKeyKind::ShiftKey) => Some(KeyAction::SetShiftPressed(true)),
        Some(DecodedKeyKind::OtherRawKey) => Some(KeyAction::SetShiftPressed(false)),
        None => None::<KeyAction>,
    }
}

/// The action for the key the decoder reported for a scancode, if it reported one.
pub open spec fn action_for_key(key: Option<Ps2Key>) -> Option<KeyAction> {
    match key {
        Some(k) => action_for(Some(kind_of(k))),
        None => None::<KeyAction>,
    }
}

/// The kind of a decoded key.
pub fn key_kind(key: Ps2Key) -> (k: DecodedKeyKind)
    ensures
        k == kind_of(key),
{
    match key {
        Ps2Key::Unicode(c) => DecodedKeyKind::Unicode(c),
        Ps2Key::RawKey(code) => if code == KEY_CODE_LSHIFT || code == KEY_CODE_RSHIFT {
            DecodedKeyKind::ShiftKey
        } else {
            DecodedKeyKind::OtherRawKey
        },
    }
}

/// The action for the key the decoder reported for a scancode, if it reported one:
/// a character is printed, and a key without a character records whether it is a
/// shift key.
pub fn handle_scancode(key: Option<DecodedKeyKind>) -> (a: Option<KeyAction>)
    ensures
        a == action_for(key),
{
    match key {
        Some(DecodedKeyKind::Unicode(c)) => Some(KeyAction::Print(c)),
        Some(DecodedKeyKind::ShiftKey) => Some(KeyAction::SetShiftPressed(true)),
        Some(DecodedKeyKind::OtherRawKey) => Some(KeyAction::SetShiftPressed(false)),
        None => None,
    }
}

/// The action for a decoded key, if the decoder reported one.
pub fn key_action(key: Option<Ps2Key>) -> (a: Option<KeyAction>)
    ensures
        a == action_for_key(key),
{
    match key {
        Some(k) => handle_scancode(Some(key_kind(k))),
        None => None,
    }
}

/// `pc_keyboard::Keyboard::new` with scancode set 1, the US 104-key layout and Ctrl
/// keys passed through. Nothing is claimed of the decoder's state.
#[verifier::external_body]
fn new_decoder() -> (d: Ps2Decoder) {
    Ps2Decoder { kb: Keyboard::new(ScancodeSet1::new(), Us104Key, HandleControl::Ignore) }
}

/// `pc_keyboard::Keyboard::add_byte`: hands `byte` to the decoder, which reports a key
/// event once a whole key code has arrived. The byte joins the bytes fed so far. The
/// event, and whether one comes, depend on the bytes fed before and are not claimed;
/// a decoding error is reported as no event.
#[verifier::external_body]
fn decoder_add_byte(kb: &mut Ps2Keyboard, byte: u8) -> (ev: Option<KeyEvent>)
    ensures
        final(kb).fed() == old(kb).fed().push(byte),
{
    kb.fed = Ghost(kb.fed@.push(byte));
    match kb.decoder.kb.add_byte(byte) {
        Ok(ev) => ev,
        Err(_) => None,
    }
}

/// `pc_keyboard::Keyboard::process_keyevent`: turns a key event into a character or a
/// raw key code (its `KeyCode` number), depending on the modifier keys held. No byte
/// is fed; nothing is claimed of the result.
#[verifier::external_body]
fn decoder_process_keyevent(kb: &mut Ps2Keyboard, ev: KeyEvent) -> (key: Option<Ps2Key>)
    ensures
        final(kb).fed() == old(kb).fed(),
{
    match kb.decoder.kb.process_keyevent(ev) {
        Some(pc_keyboard::DecodedKey::Unicode(c)) => Some(Ps2Key::Unicode(c)),
        Some(pc_keyboard::DecodedKey::RawKey(code)) => Some(Ps2Key::RawKey(code as u8)),
        None => None,
    }
}

/// pc-keyboard's scancode decoder. Its state (the scancode bytes of a key seen so far
/// and the modifier keys held) is hidden from proofs.
#[verifier::external_body]
pub struct Ps2Decoder {
    kb: Keyboard<Us104Key, ScancodeSet1>,
}

/// The PS/2 keyboard: pc-keyboard's decoder, and the scancode bytes fed to it so far.
pub struct Ps2Keyboard {
    decoder: Ps2Decoder,
    fed: Ghost<Seq<u8>>,
}

impl Ps2Keyboard {
    /// The scancode bytes handed to the decoder so far, oldest first.
    pub closed spec fn fed(&self) -> Seq<u8> {
        self.fed@
    }

    /// A decoder for scancode set 1 and the US 104-key layout, fed nothing yet.
    pub fn new() -> (k: Self)
        ensures
            k.fed() == Seq::<u8>::empty(),
    {
        Ps2Keyboard { decoder: new_decoder(), fed: Ghost(Seq::empty()) }
    }

    /// Feeds `scancode` to the decoder: the key it completes, if any.
    pub fn decode(&mut self, scancode: u8) -> (key: Option<Ps2Key>)
        ensures
            final(self).fed() == old(self).fed().push(scancode),
    {
        match decoder_add_byte(self, scancode) {
            Some(ev) => decoder_process_keyevent(self, ev),
            None => None,
        }
    }

    /// Feeds `scancode` to the decoder and gives the action for the key it completes:
    /// whatever key the decoder reports, the action is the one `action_for_key` gives it.
    pub fn process_scancode(&mut self, scancode: u8) -> (r: (Option<Ps2Key>, Option<KeyAction>))
        ensures
            final(self).fed() == old(self).fed().push(scancode),
            r.1 == action_for_key(r.0),
    {
        let key = self.decode(scancode);
        (key, key_action(key))
    }
}

} // verus!
