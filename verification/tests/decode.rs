use chip8::Fault;
use chip8::Instructions;

#[test]
fn decodes_every_family() {
    assert_eq!(Instructions::decode(0x00E0), Ok(Instructions::ClearScreen));
    assert_eq!(Instructions::decode(0x00EE), Ok(Instructions::Return));
    assert_eq!(Instructions::decode(0x1ABC), Ok(Instructions::JumpToAddress(0xABC)));
    assert_eq!(Instructions::decode(0x2300), Ok(Instructions::CallSub(0x300)));
    assert_eq!(
        Instructions::decode(0x3A08),
        Ok(Instructions::SkipIfEqual { x: 0xA, value: 0x08 })
    );
    assert_eq!(
        Instructions::decode(0x41FF),
        Ok(Instructions::SkipIfNotEqualValue { x: 1, value: 0xFF })
    );
    assert_eq!(
        Instructions::decode(0x5120),
        Ok(Instructions::SkipIfRegEqual { x: 1, y: 2 })
    );
    assert_eq!(
        Instructions::decode(0x6A05),
        Ok(Instructions::SetValueToReg { x: 0xA, value: 0x05 })
    );
    assert_eq!(
        Instructions::decode(0x7A03),
        Ok(Instructions::AddValueToReg { x: 0xA, value: 0x03 })
    );
    assert_eq!(
        Instructions::decode(0x8120),
        Ok(Instructions::AssignValueToReg { x: 1, y: 2 })
    );
    assert_eq!(
        Instructions::decode(0x8121),
        Ok(Instructions::AssignOrValue { x: 1, y: 2 })
    );
    assert_eq!(
        Instructions::decode(0x8122),
        Ok(Instructions::AssignAndValue { x: 1, y: 2 })
    );
    assert_eq!(
        Instructions::decode(0x8123),
        Ok(Instructions::AssignXorValue { x: 1, y: 2 })
    );
    assert_eq!(
        Instructions::decode(0x8124),
        Ok(Instructions::AssignAddValue { x: 1, y: 2 })
    );
    assert_eq!(
        Instructions::decode(0x8125),
        Ok(Instructions::AssignSubValue { x: 1, y: 2 })
    );
    assert_eq!(Instructions::decode(0x8126), Ok(Instructions::ShiftRight { x: 1 }));
    assert_eq!(
        Instructions::decode(0x8127),
        Ok(Instructions::AssignMinusValue { x: 1, y: 2 })
    );
    assert_eq!(Instructions::decode(0x812E), Ok(Instructions::ShiftLeft { x: 1 }));
    assert_eq!(
        Instructions::decode(0x9120),
        Ok(Instructions::SkipIfRegNotEqual { x: 1, y: 2 })
    );
    assert_eq!(Instructions::decode(0xA123), Ok(Instructions::SetMem { value: 0x123 }));
    assert_eq!(
        Instructions::decode(0xB123),
        Ok(Instructions::JumpToValue { value: 0x123 })
    );
    assert_eq!(
        Instructions::decode(0xC1AB),
        Ok(Instructions::RandomAnd { x: 1, value: 0xAB })
    );
    assert_eq!(
        Instructions::decode(0xD123),
        Ok(Instructions::Display { x: 1, y: 2, value: 3 })
    );
    assert_eq!(Instructions::decode(0xE19E), Ok(Instructions::PressedKey { x: 1 }));
    assert_eq!(Instructions::decode(0xE1A1), Ok(Instructions::NotPressedKey { x: 1 }));
    assert_eq!(
        Instructions::decode(0xF107),
        Ok(Instructions::SetValueToDelayTimer { x: 1 })
    );
    assert_eq!(Instructions::decode(0xF10A), Ok(Instructions::WaitForKey { x: 1 }));
    assert_eq!(
        Instructions::decode(0xF115),
        Ok(Instructions::SetDelayTimerToReg { x: 1 })
    );
    assert_eq!(
        Instructions::decode(0xF118),
        Ok(Instructions::SetSoundTimerTOReg { x: 1 })
    );
    assert_eq!(Instructions::decode(0xF11E), Ok(Instructions::SetIFromReg { x: 1 }));
    assert_eq!(Instructions::decode(0xF129), Ok(Instructions::SetIFromSprite { x: 1 }));
    assert_eq!(Instructions::decode(0xF133), Ok(Instructions::BCD { x: 1 }));
    assert_eq!(Instructions::decode(0xF155), Ok(Instructions::RegDump { x: 1 }));
    assert_eq!(Instructions::decode(0xF165), Ok(Instructions::RegLoad { x: 1 }));
}

#[test]
fn rejects_undocumented_forms() {
    for op in [
        0x0000u16, 0x01E0, 0x00E1, 0x00EF, 0x0100, 0x5121, 0x5AB1, 0x8128, 0x812F, 0x9121,
        0xE100, 0xE19F, 0xF100, 0xF134, 0xF156, 0xFFFF,
    ] {
        assert_eq!(Instructions::decode(op), Err(Fault::Decode { opcode: op }));
    }
}

#[test]
fn decode_is_deterministic() {
    let mut op: u32 = 0;
    while op <= 0xFFFF {
        let a = Instructions::decode(op as u16);
        let b = Instructions::decode(op as u16);
        assert_eq!(a, b);
        op += 1;
    }
}
