use rchip8::color::{hex_to_col, hex_to_u8, HexError};
use rchip8::constants::{DEF_BG, DEF_BG_COL};
use rchip8::debug::debug_instr;
use rchip8::decode::decode;

#[test]
fn describes_instructions() {
    assert_eq!(debug_instr(0x0000, 0, 0, 0, 0xE0, 0x0E0), "CLEAR");
    assert_eq!(debug_instr(0x1000, 2, 3, 4, 0x34, 0x234), "JUMP TO 564");
    assert_eq!(debug_instr(0x6000, 3, 2, 10, 0x2A, 0x32A), "V3 := 810");
    assert_eq!(debug_instr(0x7000, 10, 0, 5, 5, 0xA05), "V10 := V10 + 5");
    assert_eq!(debug_instr(0x0800, 1, 2, 0, 0x20, 0x120), "V1 := V2");
    assert_eq!(debug_instr(0x0800, 1, 2, 1, 0x21, 0x121), "V1 := V1 OR V2");
    assert_eq!(debug_instr(0x0800, 1, 2, 2, 0x22, 0x122), "V1 := V1 AND V2");
    assert_eq!(debug_instr(0x0800, 1, 2, 3, 0x23, 0x123), "V1 := V1 XOR V2");
    assert_eq!(debug_instr(0x0800, 1, 2, 4, 0x24, 0x124), "V1 := V1 + V2");
    assert_eq!(debug_instr(0x0800, 1, 2, 5, 0x25, 0x125), "");
    assert_eq!(debug_instr(0xA000, 15, 15, 15, 0xFF, 0xFFF), "I := 4095");
    assert_eq!(debug_instr(0xD000, 1, 2, 5, 0x25, 0x125), "DRAW [V1,V2] <- 5");
    assert_eq!(debug_instr(0xB000, 0, 0, 0, 0, 0), "");
    assert_eq!(debug_instr(0x8000, 1, 2, 4, 0x24, 0x124), "");
}

#[test]
fn decodes_fields() {
    let d = decode(0xD12A);
    assert_eq!(d.code, 0xD000);
    assert_eq!(d.x, 1);
    assert_eq!(d.y, 2);
    assert_eq!(d.n, 0xA);
    assert_eq!(d.nn, 0x2A);
    assert_eq!(d.nnn, 0x12A);
}

#[test]
fn parses_colors() {
    assert_eq!(hex_to_col("ABAECB"), Ok((171, 174, 203)));
    assert_eq!(hex_to_col(DEF_BG_COL), Ok(DEF_BG));
    assert_eq!(hex_to_col("00ff7f"), Ok((0, 255, 127)));
    assert_eq!(hex_to_col("ABAECBFF"), Ok((171, 174, 203)));
}

#[test]
fn rejects_bad_colors() {
    for code in ["ABAEC", "XXAECB", "ABCD", "AB", "", "ABAEZB"] {
        assert_eq!(
            hex_to_col(code),
            Err(format!("Error converting hex '{}' to decimal, using default", code))
        );
    }
}

#[test]
fn decodes_hex_bytes() {
    assert_eq!(hex_to_u8(b"ff"), Ok(255));
    assert_eq!(hex_to_u8(b"0A"), Ok(10));
    assert_eq!(hex_to_u8(b"1234"), Ok(0x12));
    assert_eq!(hex_to_u8(b""), Err(HexError::Empty));
    assert_eq!(hex_to_u8(b"abc"), Err(HexError::OddLength));
    assert_eq!(hex_to_u8(b"zz"), Err(HexError::InvalidHexCharacter { c: 'z', index: 0 }));
    assert_eq!(hex_to_u8(b"az"), Err(HexError::InvalidHexCharacter { c: 'z', index: 1 }));
}
