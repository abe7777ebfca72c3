use input_wire::button_from_u8;
use input_wire::key_from_u32;
use input_wire::ButtonSymbol;
use input_wire::KeySymbol;

#[test]
fn every_published_key_code_resolves_to_a_named_key() {
    for code in 0u32..126 {
        let sym = key_from_u32(code);
        assert!(!matches!(sym, KeySymbol::Unknown(_)), "code {} fell back to Unknown", code);
        assert_eq!(sym, key_from_u32(code), "code {} resolved differently across calls", code);
    }
}

#[test]
fn every_published_button_code_resolves_to_a_named_button() {
    for code in 0u8..3 {
        let sym = button_from_u8(code);
        assert!(!matches!(sym, ButtonSymbol::Unknown(_)), "code {} fell back to Unknown", code);
        assert_eq!(sym, button_from_u8(code), "code {} resolved differently across calls", code);
    }
}

#[test]
fn key_table_spot_checks() {
    assert_eq!(key_from_u32(0), KeySymbol::Alt);
    assert_eq!(key_from_u32(9), KeySymbol::Escape);
    assert_eq!(key_from_u32(44), KeySymbol::Space);
    assert_eq!(key_from_u32(64), KeySymbol::KeyQ);
    assert_eq!(key_from_u32(76), KeySymbol::KeyA);
    assert_eq!(key_from_u32(100), KeySymbol::KpReturn);
    assert_eq!(key_from_u32(125), KeySymbol::NextTrack);
}

#[test]
fn button_table_spot_checks() {
    assert_eq!(button_from_u8(0), ButtonSymbol::Left);
    assert_eq!(button_from_u8(1), ButtonSymbol::Right);
    assert_eq!(button_from_u8(2), ButtonSymbol::Middle);
}

#[test]
fn unknown_key_code_preserves_the_exact_value() {
    assert_eq!(key_from_u32(126), KeySymbol::Unknown(126));
    assert_eq!(key_from_u32(999), KeySymbol::Unknown(999));
    assert_eq!(key_from_u32(u32::MAX), KeySymbol::Unknown(u32::MAX));
}

#[test]
fn unknown_button_code_preserves_the_exact_value() {
    assert_eq!(button_from_u8(3), ButtonSymbol::Unknown(3));
    assert_eq!(button_from_u8(255), ButtonSymbol::Unknown(255));
}
