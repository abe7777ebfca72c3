use vstd::prelude::*;

verus! {

/// A named key on the wire: one symbol for each of the 126 published key
/// codes, plus an explicit variant that preserves an unrecognized code
/// unchanged. The integer-to-symbol assignment is a published contract and
/// is append-only: codes are never renumbered.
#[derive(Clone, Copy, Debug, PartialEq, Eq, Structural)]
pub enum KeySymbol {
    Alt,
    AltGr,
    Backspace,
    CapsLock,
    ControlLeft,
    ControlRight,
    Delete,
    DownArrow,
    End,
    Escape,
    F1,
    F10,
    F11,
    F12,
    F13,
    F14,
    F15,
    F16,
    F17,
    F18,
    F19,
    F20,
    F21,
    F22,
    F23,
    F24,
    F2,
    F3,
    F4,
    F5,
    F6,
    F7,
    F8,
    F9,
    Home,
    LeftArrow,
    MetaLeft,
    MetaRight,
    PageDown,
    PageUp,
    Return,
    RightArrow,
    ShiftLeft,
    ShiftRight,
    Space,
    Tab,
    UpArrow,
    PrintScreen,
    ScrollLock,
    Pause,
    NumLock,
    BackQuote,
    Num1,
    Num2,
    Num3,
    Num4,
    Num5,
    Num6,
    Num7,
    Num8,
    Num9,
    Num0,
    Minus,
    Equal,
    KeyQ,
    KeyW,
    KeyE,
    KeyR,
    KeyT,
    KeyY,
    KeyU,
    KeyI,
    KeyO,
    KeyP,
    LeftBracket,
    RightBracket,
    KeyA,
    KeyS,
    KeyD,
    KeyF,
    KeyG,
    KeyH,
    KeyJ,
    KeyK,
    KeyL,
    SemiColon,
    Quote,
    BackSlash,
    IntlBackslash,
    KeyZ,
    KeyX,
    KeyC,
    KeyV,
    KeyB,
    KeyN,
    KeyM,
    Comma,
    Dot,
    Slash,
    Insert,
    KpReturn,
    KpMinus,
    KpPlus,
    KpMultiply,
    KpDivide,
    Kp0,
    Kp1,
    Kp2,
    Kp3,
    Kp4,
    Kp5,
    Kp6,
    Kp7,
    Kp8,
    Kp9,
    KpDelete,
    Function,
    VolumeUp,
    VolumeDown,
    VolumeMute,
    BrightnessUp,
    BrightnessDown,
    PreviousTrack,
    PlayPause,
    PlayCd,
    NextTrack,
    /// A code outside the published table; the raw value is kept.
    Unknown(u32),
}

/// A named mouse button on the wire: three published button codes, plus an
/// explicit variant that preserves an unrecognized code unchanged.
#[derive(Clone, Copy, Debug, PartialEq, Eq, Structural)]
pub enum ButtonSymbol {
    Left,
    Right,
    Middle,
    /// A code outside the published table; the raw value is kept.
    Unknown(u8),
}

/// The number of published key codes; codes `0 .. KEY_TABLE_LEN` name a key.
pub const KEY_TABLE_LEN: u32 = 126;

/// The number of published button codes; codes `0 .. BUTTON_TABLE_LEN` name a
/// button.
pub const BUTTON_TABLE_LEN: u8 = 3;

/// The published key table as a function: which symbol each code denotes.
pub open spec fn key_symbol_of(value: u32) -> KeySymbol {
    match value {
        0u32 => KeySymbol::Alt,
        1u32 => KeySymbol::AltGr,
        2u32 => KeySymbol::Backspace,
        3u32 => KeySymbol::CapsLock,
        4u32 => KeySymbol::ControlLeft,
        5u32 => KeySymbol::ControlRight,
        6u32 => KeySymbol::Delete,
        7u32 => KeySymbol::DownArrow,
        8u32 => KeySymbol::End,
        9u32 => KeySymbol::Escape,
        10u32 => KeySymbol::F1,
        11u32 => KeySymbol::F10,
        12u32 => KeySymbol::F11,
        13u32 => KeySymbol::F12,
        14u32 => KeySymbol::F13,
        15u32 => KeySymbol::F14,
        16u32 => KeySymbol::F15,
        17u32 => KeySymbol::F16,
        18u32 => KeySymbol::F17,
        19u32 => KeySymbol::F18,
        20u32 => KeySymbol::F19,
        21u32 => KeySymbol::F20,
        22u32 => KeySymbol::F21,
        23u32 => KeySymbol::F22,
        24u32 => KeySymbol::F23,
        25u32 => KeySymbol::F24,
        26u32 => KeySymbol::F2,
        27u32 => KeySymbol::F3,
        28u32 => KeySymbol::F4,
        29u32 => KeySymbol::F5,
        30u32 => KeySymbol::F6,
        31u32 => KeySymbol::F7,
        32u32 => KeySymbol::F8,
        33u32 => KeySymbol::F9,
        34u32 => KeySymbol::Home,
        35u32 => KeySymbol::LeftArrow,
        36u32 => KeySymbol::MetaLeft,
        37u32 => KeySymbol::MetaRight,
        38u32 => KeySymbol::PageDown,
        39u32 => KeySymbol::PageUp,
        40u32 => KeySymbol::Return,
        41u32 => KeySymbol::RightArrow,
        42u32 => KeySymbol::ShiftLeft,
        43u32 => KeySymbol::ShiftRight,
        44u32 => KeySymbol::Space,
        45u32 => KeySymbol::Tab,
        46u32 => KeySymbol::UpArrow,
        47u32 => KeySymbol::PrintScreen,
        48u32 => KeySymbol::ScrollLock,
        49u32 => KeySymbol::Pause,
        50u32 => KeySymbol::NumLock,
        51u32 => KeySymbol::BackQuote,
        52u32 => KeySymbol::Num1,
        53u32 => KeySymbol::Num2,
        54u32 => KeySymbol::Num3,
        55u32 => KeySymbol::Num4,
        56u32 => KeySymbol::Num5,
        57u32 => KeySymbol::Num6,
        58u32 => KeySymbol::Num7,
        59u32 => KeySymbol::Num8,
        60u32 => KeySymbol::Num9,
        61u32 => KeySymbol::Num0,
        62u32 => KeySymbol::Minus,
        63u32 => KeySymbol::Equal,
        64u32 => KeySymbol::KeyQ,
        65u32 => KeySymbol::KeyW,
        66u32 => KeySymbol::KeyE,
        67u32 => KeySymbol::KeyR,
        68u32 => KeySymbol::KeyT,
        69u32 => KeySymbol::KeyY,
        70u32 => KeySymbol::KeyU,
        71u32 => KeySymbol::KeyI,
        72u32 => KeySymbol::KeyO,
        73u32 => KeySymbol::KeyP,
        74u32 => KeySymbol::LeftBracket,
        75u32 => KeySymbol::RightBracket,
        76u32 => KeySymbol::KeyA,
        77u32 => KeySymbol::KeyS,
        78u32 => KeySymbol::KeyD,
        79u32 => KeySymbol::KeyF,
        80u32 => KeySymbol::KeyG,
        81u32 => KeySymbol::KeyH,
        82u32 => KeySymbol::KeyJ,
        83u32 => KeySymbol::KeyK,
        84u32 => KeySymbol::KeyL,
        85u32 => KeySymbol::SemiColon,
        86u32 => KeySymbol::Quote,
        87u32 => KeySymbol::BackSlash,
        88u32 => KeySymbol::IntlBackslash,
        89u32 => KeySymbol::KeyZ,
        90u32 => KeySymbol::KeyX,
        91u32 => KeySymbol::KeyC,
        92u32 => KeySymbol::KeyV,
        93u32 => KeySymbol::KeyB,
        94u32 => KeySymbol::KeyN,
        95u32 => KeySymbol::KeyM,
        96u32 => KeySymbol::Comma,
        97u32 => KeySymbol::Dot,
        98u32 => KeySymbol::Slash,
        99u32 => KeySymbol::Insert,
        100u32 => KeySymbol::KpReturn,
        101u32 => KeySymbol::KpMinus,
        102u32 => KeySymbol::KpPlus,
        103u32 => KeySymbol::KpMultiply,
        104u32 => KeySymbol::KpDivide,
        105u32 => KeySymbol::Kp0,
        106u32 => KeySymbol::Kp1,
        107u32 => KeySymbol::Kp2,
        108u32 => KeySymbol::Kp3,
        109u32 => KeySymbol::Kp4,
        110u32 => KeySymbol::Kp5,
        111u32 => KeySymbol::Kp6,
        112u32 => KeySymbol::Kp7,
        113u32 => KeySymbol::Kp8,
        114u32 => KeySymbol::Kp9,
        115u32 => KeySymbol::KpDelete,
        116u32 => KeySymbol::Function,
        117u32 => KeySymbol::VolumeUp,
        118u32 => KeySymbol::VolumeDown,
        119u32 => KeySymbol::VolumeMute,
        120u32 => KeySymbol::BrightnessUp,
        121u32 => KeySymbol::BrightnessDown,
        122u32 => KeySymbol::PreviousTrack,
        123u32 => KeySymbol::PlayPause,
        124u32 => KeySymbol::PlayCd,
        125u32 => KeySymbol::NextTrack,
        _ => KeySymbol::Unknown(value),
    }
}

/// The published button table as a function: which symbol each code denotes.
pub open spec fn button_symbol_of(value: u8) -> ButtonSymbol {
    match value {
        0u8 => ButtonSymbol::Left,
        1u8 => ButtonSymbol::Right,
        2u8 => ButtonSymbol::Middle,
        _ => ButtonSymbol::Unknown(value),
    }
}

/// Resolves a wire code to its key symbol. Total: every code resolves, and a
/// code outside the published table resolves to `Unknown` carrying that very
/// code.
pub fn key_from_u32(value: u32) -> (r: KeySymbol)
    ensures
        r == key_symbol_of(value),
{
    match value {
        0 => KeySymbol::Alt,
        1 => KeySymbol::AltGr,
        2 => KeySymbol::Backspace,
        3 => KeySymbol::CapsLock,
        4 => KeySymbol::ControlLeft,
        5 => KeySymbol::ControlRight,
        6 => KeySymbol::Delete,
        7 => KeySymbol::DownArrow,
        8 => KeySymbol::End,
        9 => KeySymbol::Escape,
        10 => KeySymbol::F1,
        11 => KeySymbol::F10,
        12 => KeySymbol::F11,
        13 => KeySymbol::F12,
        14 => KeySymbol::F13,
        15 => KeySymbol::F14,
        16 => KeySymbol::F15,
        17 => KeySymbol::F16,
        18 => KeySymbol::F17,
        19 => KeySymbol::F18,
        20 => KeySymbol::F19,
        21 => KeySymbol::F20,
        22 => KeySymbol::F21,
        23 => KeySymbol::F22,
        24 => KeySymbol::F23,
        25 => KeySymbol::F24,
        26 => KeySymbol::F2,
        27 => KeySymbol::F3,
        28 => KeySymbol::F4,
        29 => KeySymbol::F5,
        30 => KeySymbol::F6,
        31 => KeySymbol::F7,
        32 => KeySymbol::F8,
        33 => KeySymbol::F9,
        34 => KeySymbol::Home,
        35 => KeySymbol::LeftArrow,
        36 => KeySymbol::MetaLeft,
        37 => KeySymbol::MetaRight,
        38 => KeySymbol::PageDown,
        39 => KeySymbol::PageUp,
        40 => KeySymbol::Return,
        41 => KeySymbol::RightArrow,
        42 => KeySymbol::ShiftLeft,
        43 => KeySymbol::ShiftRight,
        44 => KeySymbol::Space,
        45 => KeySymbol::Tab,
        46 => KeySymbol::UpArrow,
        47 => KeySymbol::PrintScreen,
        48 => KeySymbol::ScrollLock,
        49 => KeySymbol::Pause,
        50 => KeySymbol::NumLock,
        51 => KeySymbol::BackQuote,
        52 => KeySymbol::Num1,
        53 => KeySymbol::Num2,
        54 => KeySymbol::Num3,
        55 => KeySymbol::Num4,
        56 => KeySymbol::Num5,
        57 => KeySymbol::Num6,
        58 => KeySymbol::Num7,
        59 => KeySymbol::Num8,
        60 => KeySymbol::Num9,
        61 => KeySymbol::Num0,
        62 => KeySymbol::Minus,
        63 => KeySymbol::Equal,
        64 => KeySymbol::KeyQ,
        65 => KeySymbol::KeyW,
        66 => KeySymbol::KeyE,
        67 => KeySymbol::KeyR,
        68 => KeySymbol::KeyT,
        69 => KeySymbol::KeyY,
        70 => KeySymbol::KeyU,
        71 => KeySymbol::KeyI,
        72 => KeySymbol::KeyO,
        73 => KeySymbol::KeyP,
        74 => KeySymbol::LeftBracket,
        75 => KeySymbol::RightBracket,
        76 => KeySymbol::KeyA,
        77 => KeySymbol::KeyS,
        78 => KeySymbol::KeyD,
        79 => KeySymbol::KeyF,
        80 => KeySymbol::KeyG,
        81 => KeySymbol::KeyH,
        82 => KeySymbol::KeyJ,
        83 => KeySymbol::KeyK,
        84 => KeySymbol::KeyL,
        85 => KeySymbol::SemiColon,
        86 => KeySymbol::Quote,
        87 => KeySymbol::BackSlash,
        88 => KeySymbol::IntlBackslash,
        89 => KeySymbol::KeyZ,
        90 => KeySymbol::KeyX,
        91 => KeySymbol::KeyC,
        92 => KeySymbol::KeyV,
        93 => KeySymbol::KeyB,
        94 => KeySymbol::KeyN,
        95 => KeySymbol::KeyM,
        96 => KeySymbol::Comma,
        97 => KeySymbol::Dot,
        98 => KeySymbol::Slash,
        99 => KeySymbol::Insert,
        100 => KeySymbol::KpReturn,
        101 => KeySymbol::KpMinus,
        102 => KeySymbol::KpPlus,
        103 => KeySymbol::KpMultiply,
        104 => KeySymbol::KpDivide,
        105 => KeySymbol::Kp0,
        106 => KeySymbol::Kp1,
        107 => KeySymbol::Kp2,
        108 => KeySymbol::Kp3,
        109 => KeySymbol::Kp4,
        110 => KeySymbol::Kp5,
        111 => KeySymbol::Kp6,
        112 => KeySymbol::Kp7,
        113 => KeySymbol::Kp8,
        114 => KeySymbol::Kp9,
        115 => KeySymbol::KpDelete,
        116 => KeySymbol::Function,
        117 => KeySymbol::VolumeUp,
        118 => KeySymbol::VolumeDown,
        119 => KeySymbol::VolumeMute,
        120 => KeySymbol::BrightnessUp,
        121 => KeySymbol::BrightnessDown,
        122 => KeySymbol::PreviousTrack,
        123 => KeySymbol::PlayPause,
        124 => KeySymbol::PlayCd,
        125 => KeySymbol::NextTrack,
        _ => KeySymbol::Unknown(value),
    }
}

/// Resolves a wire code to its button symbol. Total, with the same
/// `Unknown`-preserves-the-code rule as the key table.
pub fn button_from_u8(value: u8) -> (r: ButtonSymbol)
    ensures
        r == button_symbol_of(value),
{
    match value {
        0 => ButtonSymbol::Left,
        1 => ButtonSymbol::Right,
        2 => ButtonSymbol::Middle,
        _ => ButtonSymbol::Unknown(value),
    }
}

/// Every code inside the published key table resolves to a named key, never
/// to the `Unknown` fallback, and the table is a fixed function of the code:
/// two lookups of equal codes agree.
pub proof fn lemma_key_table_total(a: u32, b: u32)
    ensures
        a < KEY_TABLE_LEN ==> !(key_symbol_of(a) matches KeySymbol::Unknown(_)),
        a == b ==> key_symbol_of(a) == key_symbol_of(b),
{
}

/// Every code inside the published button table resolves to a named button,
/// never to the `Unknown` fallback, and two lookups of equal codes agree.
pub proof fn lemma_button_table_total(a: u8, b: u8)
    ensures
        a < BUTTON_TABLE_LEN ==> !(button_symbol_of(a) matches ButtonSymbol::Unknown(_)),
        a == b ==> button_symbol_of(a) == button_symbol_of(b),
{
}

/// A code outside the published key table resolves to the `Unknown` variant
/// holding exactly the input code.
pub proof fn lemma_key_unknown_preserves_code(value: u32)
    requires
        value >= KEY_TABLE_LEN,
    ensures
        key_symbol_of(value) == KeySymbol::Unknown(value),
{
}

/// A code outside the published button table resolves to the `Unknown`
/// variant holding exactly the input code.
pub proof fn lemma_button_unknown_preserves_code(value: u8)
    requires
        value >= BUTTON_TABLE_LEN,
    ensures
        button_symbol_of(value) == ButtonSymbol::Unknown(value),
{
}

} // verus!
