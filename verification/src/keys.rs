use vstd::prelude::*;

verus! {

/// Identifier for a physical key on the keyboard. The set is fixed and
/// finite; keys the library has no name for are carried as `Unknown` with
/// the raw code the host reported.
#[derive(Clone, Copy, PartialEq, Eq, Hash, Debug, Structural)]
pub enum Key {
    Alt,
    AltGr,
    Backspace,
    CapsLock,
    ControlLeft,
    ControlRight,
    Delete,
    DownArrow,
    End,
    Escape,
    F1,
    F10,
    F11,
    F12,
    F2,
    F3,
    F4,
    F5,
    F6,
    F7,
    F8,
    F9,
    Home,
    LeftArrow,
    MetaLeft,
    MetaRight,
    PageDown,
    PageUp,
    Return,
    RightArrow,
    ShiftLeft,
    ShiftRight,
    Space,
    Tab,
    UpArrow,
    PrintScreen,
    ScrollLock,
    Pause,
    NumLock,
    BackQuote,
    Num1,
    Num2,
    Num3,
    Num4,
    Num5,
    Num6,
    Num7,
    Num8,
    Num9,
    Num0,
    Minus,
    Equal,
    KeyQ,
    KeyW,
    KeyE,
    KeyR,
    KeyT,
    KeyY,
    KeyU,
    KeyI,
    KeyO,
    KeyP,
    LeftBracket,
    RightBracket,
    KeyA,
    KeyS,
    KeyD,
    KeyF,
    KeyG,
    KeyH,
    KeyJ,
    KeyK,
    KeyL,
    SemiColon,
    Quote,
    BackSlash,
    IntlBackslash,
    KeyZ,
    KeyX,
    KeyC,
    KeyV,
    KeyB,
    KeyN,
    KeyM,
    Comma,
    Dot,
    Slash,
    Insert,
    KpReturn,
    KpMinus,
    KpPlus,
    KpMultiply,
    KpDivide,
    Kp0,
    Kp1,
    Kp2,
    Kp3,
    Kp4,
    Kp5,
    Kp6,
    Kp7,
    Kp8,
    Kp9,
    KpDelete,
    Function,
    Unknown(u32),
}

/// A single hardware key transition: the key went down or came up.
#[derive(Clone, Copy, PartialEq, Eq, Hash, Debug, Structural)]
pub enum KeyEventKind {
    Press(Key),
    Release(Key),
}

/// Wire tag of each named key; `Unknown` keys use `KEY_TAG_UNKNOWN`
/// followed by the raw code.
pub open spec fn spec_key_tag(k: Key) -> u8 {
    match k {
        Key::Alt => 0u8,
        Key::AltGr => 1u8,
        Key::Backspace => 2u8,
        Key::CapsLock => 3u8,
        Key::ControlLeft => 4u8,
        Key::ControlRight => 5u8,
        Key::Delete => 6u8,
        Key::DownArrow => 7u8,
        Key::End => 8u8,
        Key::Escape => 9u8,
        Key::F1 => 10u8,
        Key::F10 => 11u8,
        Key::F11 => 12u8,
        Key::F12 => 13u8,
        Key::F2 => 14u8,
        Key::F3 => 15u8,
        Key::F4 => 16u8,
        Key::F5 => 17u8,
        Key::F6 => 18u8,
        Key::F7 => 19u8,
        Key::F8 => 20u8,
        Key::F9 => 21u8,
        Key::Home => 22u8,
        Key::LeftArrow => 23u8,
        Key::MetaLeft => 24u8,
        Key::MetaRight => 25u8,
        Key::PageDown => 26u8,
        Key::PageUp => 27u8,
        Key::Return => 28u8,
        Key::RightArrow => 29u8,
        Key::ShiftLeft => 30u8,
        Key::ShiftRight => 31u8,
        Key::Space => 32u8,
        Key::Tab => 33u8,
        Key::UpArrow => 34u8,
        Key::PrintScreen => 35u8,
        Key::ScrollLock => 36u8,
        Key::Pause => 37u8,
        Key::NumLock => 38u8,
        Key::BackQuote => 39u8,
        Key::Num1 => 40u8,
        Key::Num2 => 41u8,
        Key::Num3 => 42u8,
        Key::Num4 => 43u8,
        Key::Num5 => 44u8,
        Key::Num6 => 45u8,
        Key::Num7 => 46u8,
        Key::Num8 => 47u8,
        Key::Num9 => 48u8,
        Key::Num0 => 49u8,
        Key::Minus => 50u8,
        Key::Equal => 51u8,
        Key::KeyQ => 52u8,
        Key::KeyW => 53u8,
        Key::KeyE => 54u8,
        Key::KeyR => 55u8,
        Key::KeyT => 56u8,
        Key::KeyY => 57u8,
        Key::KeyU => 58u8,
        Key::KeyI => 59u8,
        Key::KeyO => 60u8,
        Key::KeyP => 61u8,
        Key::LeftBracket => 62u8,
        Key::RightBracket => 63u8,
        Key::KeyA => 64u8,
        Key::KeyS => 65u8,
        Key::KeyD => 66u8,
        Key::KeyF => 67u8,
        Key::KeyG => 68u8,
        Key::KeyH => 69u8,
        Key::KeyJ => 70u8,
        Key::KeyK => 71u8,
        Key::KeyL => 72u8,
        Key::SemiColon => 73u8,
        Key::Quote => 74u8,
        Key::BackSlash => 75u8,
        Key::IntlBackslash => 76u8,
        Key::KeyZ => 77u8,
        Key::KeyX => 78u8,
        Key::KeyC => 79u8,
        Key::KeyV => 80u8,
        Key::KeyB => 81u8,
        Key::KeyN => 82u8,
        Key::KeyM => 83u8,
        Key::Comma => 84u8,
        Key::Dot => 85u8,
        Key::Slash => 86u8,
        Key::Insert => 87u8,
        Key::KpReturn => 88u8,
        Key::KpMinus => 89u8,
        Key::KpPlus => 90u8,
        Key::KpMultiply => 91u8,
        Key::KpDivide => 92u8,
        Key::Kp0 => 93u8,
        Key::Kp1 => 94u8,
        Key::Kp2 => 95u8,
        Key::Kp3 => 96u8,
        Key::Kp4 => 97u8,
        Key::Kp5 => 98u8,
        Key::Kp6 => 99u8,
        Key::Kp7 => 100u8,
        Key::Kp8 => 101u8,
        Key::Kp9 => 102u8,
        Key::KpDelete => 103u8,
        Key::Function => 104u8,
        Key::Unknown(_) => 255u8,
    }
}

pub const KEY_TAG_UNKNOWN: u8 = 255;

#[verifier::when_used_as_spec(spec_key_tag)]
pub fn key_tag(k: Key) -> (r: u8)
    ensures
        r == spec_key_tag(k),
{
    match k {
        Key::Alt => 0u8,
        Key::AltGr => 1u8,
        Key::Backspace => 2u8,
        Key::CapsLock => 3u8,
        Key::ControlLeft => 4u8,
        Key::ControlRight => 5u8,
        Key::Delete => 6u8,
        Key::DownArrow => 7u8,
        Key::End => 8u8,
        Key::Escape => 9u8,
        Key::F1 => 10u8,
        Key::F10 => 11u8,
        Key::F11 => 12u8,
        Key::F12 => 13u8,
        Key::F2 => 14u8,
        Key::F3 => 15u8,
        Key::F4 => 16u8,
        Key::F5 => 17u8,
        Key::F6 => 18u8,
        Key::F7 => 19u8,
        Key::F8 => 20u8,
        Key::F9 => 21u8,
        Key::Home => 22u8,
        Key::LeftArrow => 23u8,
        Key::MetaLeft => 24u8,
        Key::MetaRight => 25u8,
        Key::PageDown => 26u8,
        Key::PageUp => 27u8,
        Key::Return => 28u8,
        Key::RightArrow => 29u8,
        Key::ShiftLeft => 30u8,
        Key::ShiftRight => 31u8,
        Key::Space => 32u8,
        Key::Tab => 33u8,
        Key::UpArrow => 34u8,
        Key::PrintScreen => 35u8,
        Key::ScrollLock => 36u8,
        Key::Pause => 37u8,
        Key::NumLock => 38u8,
        Key::BackQuote => 39u8,
        Key::Num1 => 40u8,
        Key::Num2 => 41u8,
        Key::Num3 => 42u8,
        Key::Num4 => 43u8,
        Key::Num5 => 44u8,
        Key::Num6 => 45u8,
        Key::Num7 => 46u8,
        Key::Num8 => 47u8,
        Key::Num9 => 48u8,
        Key::Num0 => 49u8,
        Key::Minus => 50u8,
        Key::Equal => 51u8,
        Key::KeyQ => 52u8,
        Key::KeyW => 53u8,
        Key::KeyE => 54u8,
        Key::KeyR => 55u8,
        Key::KeyT => 56u8,
        Key::KeyY => 57u8,
        Key::KeyU => 58u8,
        Key::KeyI => 59u8,
        Key::KeyO => 60u8,
        Key::KeyP => 61u8,
        Key::LeftBracket => 62u8,
        Key::RightBracket => 63u8,
        Key::KeyA => 64u8,
        Key::KeyS => 65u8,
        Key::KeyD => 66u8,
        Key::KeyF => 67u8,
        Key::KeyG => 68u8,
        Key::KeyH => 69u8,
        Key::KeyJ => 70u8,
        Key::KeyK => 71u8,
        Key::KeyL => 72u8,
        Key::SemiColon => 73u8,
        Key::Quote => 74u8,
        Key::BackSlash => 75u8,
        Key::IntlBackslash => 76u8,
        Key::KeyZ => 77u8,
        Key::KeyX => 78u8,
        Key::KeyC => 79u8,
        Key::KeyV => 80u8,
        Key::KeyB => 81u8,
        Key::KeyN => 82u8,
        Key::KeyM => 83u8,
        Key::Comma => 84u8,
        Key::Dot => 85u8,
        Key::Slash => 86u8,
        Key::Insert => 87u8,
        Key::KpReturn => 88u8,
        Key::KpMinus => 89u8,
        Key::KpPlus => 90u8,
        Key::KpMultiply => 91u8,
        Key::KpDivide => 92u8,
        Key::Kp0 => 93u8,
        Key::Kp1 => 94u8,
        Key::Kp2 => 95u8,
        Key::Kp3 => 96u8,
        Key::Kp4 => 97u8,
        Key::Kp5 => 98u8,
        Key::Kp6 => 99u8,
        Key::Kp7 => 100u8,
        Key::Kp8 => 101u8,
        Key::Kp9 => 102u8,
        Key::KpDelete => 103u8,
        Key::Function => 104u8,
        Key::Unknown(_) => 255u8,
    }
}

pub open spec fn spec_key_from_tag(t: u8) -> Option<Key> {
    match t {
        0u8 => Some(Key::Alt),
        1u8 => Some(Key::AltGr),
        2u8 => Some(Key::Backspace),
        3u8 => Some(Key::CapsLock),
        4u8 => Some(Key::ControlLeft),
        5u8 => Some(Key::ControlRight),
        6u8 => Some(Key::Delete),
        7u8 => Some(Key::DownArrow),
        8u8 => Some(Key::End),
        9u8 => Some(Key::Escape),
        10u8 => Some(Key::F1),
        11u8 => Some(Key::F10),
        12u8 => Some(Key::F11),
        13u8 => Some(Key::F12),
        14u8 => Some(Key::F2),
        15u8 => Some(Key::F3),
        16u8 => Some(Key::F4),
        17u8 => Some(Key::F5),
        18u8 => Some(Key::F6),
        19u8 => Some(Key::F7),
        20u8 => Some(Key::F8),
        21u8 => Some(Key::F9),
        22u8 => Some(Key::Home),
        23u8 => Some(Key::LeftArrow),
        24u8 => Some(Key::MetaLeft),
        25u8 => Some(Key::MetaRight),
        26u8 => Some(Key::PageDown),
        27u8 => Some(Key::PageUp),
        28u8 => Some(Key::Return),
        29u8 => Some(Key::RightArrow),
        30u8 => Some(Key::ShiftLeft),
        31u8 => Some(Key::ShiftRight),
        32u8 => Some(Key::Space),
        33u8 => Some(Key::Tab),
        34u8 => Some(Key::UpArrow),
        35u8 => Some(Key::PrintScreen),
        36u8 => Some(Key::ScrollLock),
        37u8 => Some(Key::Pause),
        38u8 => Some(Key::NumLock),
        39u8 => Some(Key::BackQuote),
        40u8 => Some(Key::Num1),
        41u8 => Some(Key::Num2),
        42u8 => Some(Key::Num3),
        43u8 => Some(Key::Num4),
        44u8 => Some(Key::Num5),
        45u8 => Some(Key::Num6),
        46u8 => Some(Key::Num7),
        47u8 => Some(Key::Num8),
        48u8 => Some(Key::Num9),
        49u8 => Some(Key::Num0),
        50u8 => Some(Key::Minus),
        51u8 => Some(Key::Equal),
        52u8 => Some(Key::KeyQ),
        53u8 => Some(Key::KeyW),
        54u8 => Some(Key::KeyE),
        55u8 => Some(Key::KeyR),
        56u8 => Some(Key::KeyT),
        57u8 => Some(Key::KeyY),
        58u8 => Some(Key::KeyU),
        59u8 => Some(Key::KeyI),
        60u8 => Some(Key::KeyO),
        61u8 => Some(Key::KeyP),
        62u8 => Some(Key::LeftBracket),
        63u8 => Some(Key::RightBracket),
        64u8 => Some(Key::KeyA),
        65u8 => Some(Key::KeyS),
        66u8 => Some(Key::KeyD),
        67u8 => Some(Key::KeyF),
        68u8 => Some(Key::KeyG),
        69u8 => Some(Key::KeyH),
        70u8 => Some(Key::KeyJ),
        71u8 => Some(Key::KeyK),
        72u8 => Some(Key::KeyL),
        73u8 => Some(Key::SemiColon),
        74u8 => Some(Key::Quote),
        75u8 => Some(Key::BackSlash),
        76u8 => Some(Key::IntlBackslash),
        77u8 => Some(Key::KeyZ),
        78u8 => Some(Key::KeyX),
        79u8 => Some(Key::KeyC),
        80u8 => Some(Key::KeyV),
        81u8 => Some(Key::KeyB),
        82u8 => Some(Key::KeyN),
        83u8 => Some(Key::KeyM),
        84u8 => Some(Key::Comma),
        85u8 => Some(Key::Dot),
        86u8 => Some(Key::Slash),
        87u8 => Some(Key::Insert),
        88u8 => Some(Key::KpReturn),
        89u8 => Some(Key::KpMinus),
        90u8 => Some(Key::KpPlus),
        91u8 => Some(Key::KpMultiply),
        92u8 => Some(Key::KpDivide),
        93u8 => Some(Key::Kp0),
        94u8 => Some(Key::Kp1),
        95u8 => Some(Key::Kp2),
        96u8 => Some(Key::Kp3),
        97u8 => Some(Key::Kp4),
        98u8 => Some(Key::Kp5),
        99u8 => Some(Key::Kp6),
        100u8 => Some(Key::Kp7),
        101u8 => Some(Key::Kp8),
        102u8 => Some(Key::Kp9),
        103u8 => Some(Key::KpDelete),
        104u8 => Some(Key::Function),
        _ => None,
    }
}

#[verifier::when_used_as_spec(spec_key_from_tag)]
pub fn key_from_tag(t: u8) -> (r: Option<Key>)
    ensures
        r == spec_key_from_tag(t),
{
    match t {
        0u8 => Some(Key::Alt),
        1u8 => Some(Key::AltGr),
        2u8 => Some(Key::Backspace),
        3u8 => Some(Key::CapsLock),
        4u8 => Some(Key::ControlLeft),
        5u8 => Some(Key::ControlRight),
        6u8 => Some(Key::Delete),
        7u8 => Some(Key::DownArrow),
        8u8 => Some(Key::End),
        9u8 => Some(Key::Escape),
        10u8 => Some(Key::F1),
        11u8 => Some(Key::F10),
        12u8 => Some(Key::F11),
        13u8 => Some(Key::F12),
        14u8 => Some(Key::F2),
        15u8 => Some(Key::F3),
        16u8 => Some(Key::F4),
        17u8 => Some(Key::F5),
        18u8 => Some(Key::F6),
        19u8 => Some(Key::F7),
        20u8 => Some(Key::F8),
        21u8 => Some(Key::F9),
        22u8 => Some(Key::Home),
        23u8 => Some(Key::LeftArrow),
        24u8 => Some(Key::MetaLeft),
        25u8 => Some(Key::MetaRight),
        26u8 => Some(Key::PageDown),
        27u8 => Some(Key::PageUp),
        28u8 => Some(Key::Return),
        29u8 => Some(Key::RightArrow),
        30u8 => Some(Key::ShiftLeft),
        31u8 => Some(Key::ShiftRight),
        32u8 => Some(Key::Space),
        33u8 => Some(Key::Tab),
        34u8 => Some(Key::UpArrow),
        35u8 => Some(Key::PrintScreen),
        36u8 => Some(Key::ScrollLock),
        37u8 => Some(Key::Pause),
        38u8 => Some(Key::NumLock),
        39u8 => Some(Key::BackQuote),
        40u8 => Some(Key::Num1),
        41u8 => Some(Key::Num2),
        42u8 => Some(Key::Num3),
        43u8 => Some(Key::Num4),
        44u8 => Some(Key::Num5),
        45u8 => Some(Key::Num6),
        46u8 => Some(Key::Num7),
        47u8 => Some(Key::Num8),
        48u8 => Some(Key::Num9),
        49u8 => Some(Key::Num0),
        50u8 => Some(Key::Minus),
        51u8 => Some(Key::Equal),
        52u8 => Some(Key::KeyQ),
        53u8 => Some(Key::KeyW),
        54u8 => Some(Key::KeyE),
        55u8 => Some(Key::KeyR),
        56u8 => Some(Key::KeyT),
        57u8 => Some(Key::KeyY),
        58u8 => Some(Key::KeyU),
        59u8 => Some(Key::KeyI),
        60u8 => Some(Key::KeyO),
        61u8 => Some(Key::KeyP),
        62u8 => Some(Key::LeftBracket),
        63u8 => Some(Key::RightBracket),
        64u8 => Some(Key::KeyA),
        65u8 => Some(Key::KeyS),
        66u8 => Some(Key::KeyD),
        67u8 => Some(Key::KeyF),
        68u8 => Some(Key::KeyG),
        69u8 => Some(Key::KeyH),
        70u8 => Some(Key::KeyJ),
        71u8 => Some(Key::KeyK),
        72u8 => Some(Key::KeyL),
        73u8 => Some(Key::SemiColon),
        74u8 => Some(Key::Quote),
        75u8 => Some(Key::BackSlash),
        76u8 => Some(Key::IntlBackslash),
        77u8 => Some(Key::KeyZ),
        78u8 => Some(Key::KeyX),
        79u8 => Some(Key::KeyC),
        80u8 => Some(Key::KeyV),
        81u8 => Some(Key::KeyB),
        82u8 => Some(Key::KeyN),
        83u8 => Some(Key::KeyM),
        84u8 => Some(Key::Comma),
        85u8 => Some(Key::Dot),
        86u8 => Some(Key::Slash),
        87u8 => Some(Key::Insert),
        88u8 => Some(Key::KpReturn),
        89u8 => Some(Key::KpMinus),
        90u8 => Some(Key::KpPlus),
        91u8 => Some(Key::KpMultiply),
        92u8 => Some(Key::KpDivide),
        93u8 => Some(Key::Kp0),
        94u8 => Some(Key::Kp1),
        95u8 => Some(Key::Kp2),
        96u8 => Some(Key::Kp3),
        97u8 => Some(Key::Kp4),
        98u8 => Some(Key::Kp5),
        99u8 => Some(Key::Kp6),
        100u8 => Some(Key::Kp7),
        101u8 => Some(Key::Kp8),
        102u8 => Some(Key::Kp9),
        103u8 => Some(Key::KpDelete),
        104u8 => Some(Key::Function),
        _ => None,
    }
}

/// Tagging is injective on named keys: the tag maps back to the key, and
/// never collides with the tag reserved for `Unknown`.
pub proof fn lemma_key_tag_inverse(k: Key)
    requires
        !(k is Unknown),
    ensures
        spec_key_tag(k) < KEY_TAG_UNKNOWN,
        spec_key_from_tag(spec_key_tag(k)) == Some(k),
{
    match k {
        Key::Alt => {}
        Key::AltGr => {}
        Key::Backspace => {}
        Key::CapsLock => {}
        Key::ControlLeft => {}
        Key::ControlRight => {}
        Key::Delete => {}
        Key::DownArrow => {}
        Key::End => {}
        Key::Escape => {}
        Key::F1 => {}
        Key::F10 => {}
        Key::F11 => {}
        Key::F12 => {}
        Key::F2 => {}
        Key::F3 => {}
        Key::F4 => {}
        Key::F5 => {}
        Key::F6 => {}
        Key::F7 => {}
        Key::F8 => {}
        Key::F9 => {}
        Key::Home => {}
        Key::LeftArrow => {}
        Key::MetaLeft => {}
        Key::MetaRight => {}
        Key::PageDown => {}
        Key::PageUp => {}
        Key::Return => {}
        Key::RightArrow => {}
        Key::ShiftLeft => {}
        Key::ShiftRight => {}
        Key::Space => {}
        Key::Tab => {}
        Key::UpArrow => {}
        Key::PrintScreen => {}
        Key::ScrollLock => {}
        Key::Pause => {}
        Key::NumLock => {}
        Key::BackQuote => {}
        Key::Num1 => {}
        Key::Num2 => {}
        Key::Num3 => {}
        Key::Num4 => {}
        Key::Num5 => {}
        Key::Num6 => {}
        Key::Num7 => {}
        Key::Num8 => {}
        Key::Num9 => {}
        Key::Num0 => {}
        Key::Minus => {}
        Key::Equal => {}
        Key::KeyQ => {}
        Key::KeyW => {}
        Key::KeyE => {}
        Key::KeyR => {}
        Key::KeyT => {}
        Key::KeyY => {}
        Key::KeyU => {}
        Key::KeyI => {}
        Key::KeyO => {}
        Key::KeyP => {}
        Key::LeftBracket => {}
        Key::RightBracket => {}
        Key::KeyA => {}
        Key::KeyS => {}
        Key::KeyD => {}
        Key::KeyF => {}
        Key::KeyG => {}
        Key::KeyH => {}
        Key::KeyJ => {}
        Key::KeyK => {}
        Key::KeyL => {}
        Key::SemiColon => {}
        Key::Quote => {}
        Key::BackSlash => {}
        Key::IntlBackslash => {}
        Key::KeyZ => {}
        Key::KeyX => {}
        Key::KeyC => {}
        Key::KeyV => {}
        Key::KeyB => {}
        Key::KeyN => {}
        Key::KeyM => {}
        Key::Comma => {}
        Key::Dot => {}
        Key::Slash => {}
        Key::Insert => {}
        Key::KpReturn => {}
        Key::KpMinus => {}
        Key::KpPlus => {}
        Key::KpMultiply => {}
        Key::KpDivide => {}
        Key::Kp0 => {}
        Key::Kp1 => {}
        Key::Kp2 => {}
        Key::Kp3 => {}
        Key::Kp4 => {}
        Key::Kp5 => {}
        Key::Kp6 => {}
        Key::Kp7 => {}
        Key::Kp8 => {}
        Key::Kp9 => {}
        Key::KpDelete => {}
        Key::Function => {}
        Key::Unknown(_) => {}
    }
}

/// The eight home-row keys that carry dynamic bindings in command mode,
/// in their fixed order.
pub open spec fn spec_keyswitches() -> Seq<Key> {
    seq![
        Key::KeyJ,
        Key::KeyF,
        Key::KeyK,
        Key::KeyD,
        Key::KeyL,
        Key::KeyS,
        Key::SemiColon,
        Key::KeyA,
    ]
}

pub fn keyswitches() -> (r: Vec<Key>)
    ensures
        r@ == spec_keyswitches(),
{
    let mut r: Vec<Key> = Vec::new();
    r.push(Key::KeyJ);
    r.push(Key::KeyF);
    r.push(Key::KeyK);
    r.push(Key::KeyD);
    r.push(Key::KeyL);
    r.push(Key::KeyS);
    r.push(Key::SemiColon);
    r.push(Key::KeyA);
    proof {
        assert(r@ =~= spec_keyswitches());
    }
    r
}

} // verus!
