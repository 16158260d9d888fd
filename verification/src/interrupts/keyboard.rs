//! Decoding the bytes the PS/2 keyboard sends, with the `pc_keyboard` crate.
use vstd::prelude::*;
use pc_keyboard::{
    layouts::Us104Key, DecodedKey, HandleControl, KeyCode, KeyEvent, KeyState, Keyboard, ScancodeSet1,
};

verus! {

/// `pc_keyboard::KeyCode`, the name of a physical key: an enum of unit
/// variants, declared with its variants.
#[verifier::external_type_specification]
pub struct ExKeyCode(KeyCode);

/// `pc_keyboard::KeyState`: a key went `Up` or `Down`; declared with its variants.
#[verifier::external_type_specification]
pub struct ExKeyState(KeyState);

/// `pc_keyboard::KeyEvent`: a key code and whether the key went up or down,
/// declared with its two public fields `code` and `state`.
#[verifier::external_type_specification]
pub struct ExKeyEvent(KeyEvent);

/// `pc_keyboard::Error`, why the decoder rejected a byte; opaque.
#[verifier::external_type_specification]
#[verifier::external_body]
pub struct ExKeyboardError(pc_keyboard::Error);

/// The keyboard of the kernel: a `pc_keyboard` decoder for the US 104-key
/// layout and scancode set 1, held opaque. (The generic `Keyboard` type
/// itself cannot be declared: its parameters are bound by traits of
/// `pc_keyboard`.)
#[verifier::external_body]
pub struct KernelKeyboard {
    keyboard: Keyboard<Us104Key, ScancodeSet1>,
}

/// A decoded key: a character, or a key that has none.
pub enum Key {
    Unicode(char),
    RawKey(KeyCode),
}

/// What a decoder keeps between bytes: whether the last byte was the
/// extended prefix 0xE0, the state of each modifier key, and whether Ctrl
/// with a letter is turned into a control character
/// (`HandleControl::MapLettersToUnicode`) or passed through
/// (`HandleControl::Ignore`).
#[derive(Clone, Copy, PartialEq, Eq, Debug)]
pub struct DecoderState {
    pub extended: bool,
    pub ctrl_to_unicode: bool,
    pub lshift: bool,
    pub rshift: bool,
    pub lctrl: bool,
    pub rctrl: bool,
    pub numlock: bool,
    pub capslock: bool,
    pub alt_gr: bool,
}

/// The state a decoder of `pc_keyboard` keeps (its decode state, its
/// modifiers and its Ctrl handling).
pub uninterp spec fn decoder_state(keyboard: KernelKeyboard) -> DecoderState;

/// The decoder after `Keyboard::add_byte(byte)` and the result of that call.
pub uninterp spec fn added(keyboard: KernelKeyboard, byte: u8) -> (KernelKeyboard, Result<
    Option<KeyEvent>,
    pc_keyboard::Error,
>);

/// The decoder after `Keyboard::process_keyevent(event)` and the key it
/// returns, with `DecodedKey` as `Key`.
pub uninterp spec fn processed(keyboard: KernelKeyboard, event: KeyEvent) -> (KernelKeyboard, Option<
    Key,
>);

/// A fresh decoder of the kernel: after no prefix, no shift, ctrl or AltGr key
/// held, caps lock off and num lock on, and Ctrl passed through.
pub open spec fn start_state() -> DecoderState {
    DecoderState {
        extended: false,
        ctrl_to_unicode: false,
        lshift: false,
        rshift: false,
        lctrl: false,
        rctrl: false,
        numlock: true,
        capslock: false,
        alt_gr: false,
    }
}

/// Whether `code` is a key whose events only change the modifiers.
pub open spec fn is_modifier_key(code: KeyCode) -> bool {
    ||| code == KeyCode::ShiftLeft
    ||| code == KeyCode::ShiftRight
    ||| code == KeyCode::ControlLeft
    ||| code == KeyCode::ControlRight
    ||| code == KeyCode::AltRight
    ||| code == KeyCode::CapsLock
    ||| code == KeyCode::NumpadLock
}

/// The modifiers after `event`: a shift, ctrl or AltGr key is held while it
/// is down, caps lock and num lock toggle when their key goes down.
pub open spec fn modifiers_after(s: DecoderState, event: KeyEvent) -> DecoderState {
    let down = event.state == KeyState::Down;
    let code = event.code;
    DecoderState {
        extended: s.extended,
        ctrl_to_unicode: s.ctrl_to_unicode,
        lshift: if code == KeyCode::ShiftLeft { down } else { s.lshift },
        rshift: if code == KeyCode::ShiftRight { down } else { s.rshift },
        lctrl: if code == KeyCode::ControlLeft { down } else { s.lctrl },
        rctrl: if code == KeyCode::ControlRight { down } else { s.rctrl },
        alt_gr: if code == KeyCode::AltRight { down } else { s.alt_gr },
        capslock: if code == KeyCode::CapsLock && down { !s.capslock } else { s.capslock },
        numlock: if code == KeyCode::NumpadLock && down { !s.numlock } else { s.numlock },
    }
}

/// `pc_keyboard::Keyboard::new` for the US 104-key layout and scancode set 1,
/// with the Ctrl key passed through as a key of its own
/// (`HandleControl::Ignore`): a decoder in the start state, with Ctrl passed
/// through.
#[verifier::external_body]
fn new_keyboard() -> (r: KernelKeyboard)
    ensures
        decoder_state(r) == start_state(),
{
    KernelKeyboard { keyboard: Keyboard::new(Us104Key, ScancodeSet1, HandleControl::Ignore) }
}

/// `pc_keyboard::Keyboard::add_byte`: feeds one byte of a scancode to the
/// decoder and returns the key event it completes, if any; result and new
/// decoder are named by `added`. In scancode set 1, 0xE0 in the start state
/// is the extended prefix: it completes no event and the decoder moves to the
/// extended state; any other byte leaves the decoder in the start state and,
/// unless it names no key (an error), completes an event: a key going down
/// for a byte below 0x80, up otherwise. The modifiers and the Ctrl handling
/// do not change. (Scancode set 1 only ever moves between its start and extended states, so the
/// decoder's `unimplemented!` for other states is never reached.)
#[verifier::external_body]
fn keyboard_add_byte(keyboard: &mut KernelKeyboard, byte: u8) -> (r: Result<
    Option<KeyEvent>,
    pc_keyboard::Error,
>)
    ensures
        (*final(keyboard), r) == added(*old(keyboard), byte),
        decoder_state(*final(keyboard)) == (DecoderState {
            extended: !decoder_state(*old(keyboard)).extended && byte == 0xe0,
            ..decoder_state(*old(keyboard))
        }),
        r matches Ok(None) <==> (!decoder_state(*old(keyboard)).extended && byte == 0xe0),
        r matches Ok(Some(event)) ==> (event.state == KeyState::Down) == (byte < 0x80),
{
    keyboard.keyboard.add_byte(byte)
}

/// `pc_keyboard::Keyboard::process_keyevent`: updates the modifiers and
/// returns the key the event stands for, if any; result and new decoder are
/// named by `processed`, with `DecodedKey` as `Key`. An event of a modifier
/// key and a key going up give no key; any other key going down gives the
/// key the layout maps it to under the modifiers.
#[verifier::external_body]
fn keyboard_process_keyevent(keyboard: &mut KernelKeyboard, event: KeyEvent) -> (r: Option<Key>)
    ensures
        (*final(keyboard), r) == processed(*old(keyboard), event),
        decoder_state(*final(keyboard)) == modifiers_after(decoder_state(*old(keyboard)), event),
        r is Some <==> (event.state == KeyState::Down && !is_modifier_key(event.code)),
{
    match keyboard.keyboard.process_keyevent(event) {
        Some(DecodedKey::Unicode(ch)) => Some(Key::Unicode(ch)),
        Some(DecodedKey::RawKey(code)) => Some(Key::RawKey(code)),
        None => None,
    }
}

impl KernelKeyboard {
    /// A decoder in its start state: after no prefix, with no shift, ctrl or
    /// AltGr key held, caps lock off and num lock on, and Ctrl passed through
    /// as a key of its own.
    pub fn new() -> (r: Self)
        ensures
            decoder_state(r) == start_state(),
    {
        new_keyboard()
    }
}

/// What decoding `scancode` gives, from the decoder `keyboard`: the decoder
/// after it and the key, if any. A byte that completes a key event hands the
/// event on to the modifier and layout logic; a byte that completes none, or
/// that the decoder rejects, gives no key.
pub open spec fn decoded(keyboard: KernelKeyboard, scancode: u8) -> (KernelKeyboard, Option<Key>) {
    let (after, result) = added(keyboard, scancode);
    match result {
        Ok(Some(event)) => processed(after, event),
        _ => (after, None),
    }
}

/// What is left of the decoder state once `byte` has been fed to the
/// scancode decoder: after the prefix 0xE0 in the start state the decoder is
/// in its extended state, after any other byte in its start state; the
/// modifiers and the Ctrl handling are unchanged.
pub open spec fn prefix_after(s: DecoderState, byte: u8) -> DecoderState {
    DecoderState { extended: !s.extended && byte == 0xe0, ..s }
}

/// The key, if any, that the byte `scancode` completes (see `decoded`). A
/// byte from 0x80 up (a key going up, or the extended prefix) never gives a
/// key, and a key is only given in the start state. Every key event the byte
/// completes, a key going up as well as one going down, reaches the modifier
/// logic: releasing a shift, ctrl or AltGr key clears its modifier.
pub fn decode_scancode(keyboard: &mut KernelKeyboard, scancode: u8) -> (r: Option<Key>)
    ensures
        (*final(keyboard), r) == decoded(*old(keyboard), scancode),
        scancode >= 0x80 ==> r is None,
        !decoder_state(*final(keyboard)).extended || r is None,
        decoder_state(*final(keyboard)) == match added(*old(keyboard), scancode).1 {
            Ok(Some(event)) => modifiers_after(
                prefix_after(decoder_state(*old(keyboard)), scancode),
                event,
            ),
            _ => prefix_after(decoder_state(*old(keyboard)), scancode),
        },
        match added(*old(keyboard), scancode).1 {
            Ok(Some(event)) => event.state == KeyState::Up ==> {
                &&& (event.code == KeyCode::ShiftLeft ==> !decoder_state(*final(keyboard)).lshift)
                &&& (event.code == KeyCode::ShiftRight ==> !decoder_state(*final(keyboard)).rshift)
                &&& (event.code == KeyCode::ControlLeft ==> !decoder_state(*final(keyboard)).lctrl)
                &&& (event.code == KeyCode::ControlRight ==> !decoder_state(
                    *final(keyboard),
                ).rctrl)
                &&& (event.code == KeyCode::AltRight ==> !decoder_state(*final(keyboard)).alt_gr)
            },
            _ => true,
        },
{
    if let Ok(Some(key_event)) = keyboard_add_byte(keyboard, scancode) {
        keyboard_process_keyevent(keyboard, key_event)
    } else {
        None
    }
}

} // verus!
