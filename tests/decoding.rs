use chip8::{decode, Instruction};

#[test]
fn decode_splits_all_fields() {
    let i = decode(0xD12F);
    assert_eq!(
        i,
        Instruction { op: 0xD, x: 0x1, y: 0x2, n: 0xF, byte: 0x2F, addr: 0x12F }
    );
}

#[test]
fn decode_every_word_matches_bit_ranges() {
    for w in 0..=u16::MAX {
        let i = decode(w);
        assert_eq!(i.op as u16, w >> 12);
        assert_eq!(i.x as u16, (w >> 8) & 0xF);
        assert_eq!(i.y as u16, (w >> 4) & 0xF);
        assert_eq!(i.n as u16, w & 0xF);
        assert_eq!(i.byte as u16, w & 0xFF);
        assert_eq!(i.addr, w & 0xFFF);
    }
}

#[test]
fn decode_extremes() {
    assert_eq!(decode(0x0000), Instruction { op: 0, x: 0, y: 0, n: 0, byte: 0, addr: 0 });
    assert_eq!(
        decode(0xFFFF),
        Instruction { op: 0xF, x: 0xF, y: 0xF, n: 0xF, byte: 0xFF, addr: 0xFFF }
    );
}
