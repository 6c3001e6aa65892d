use interesting_rust_codes::bitfield::{bits, imm_i, imm_s, imm_u, rd, src1, src2};

fn reference_bits(w: u32, start: u32, end: u32) -> u32 {
    let width = end - start + 1;
    ((w as u64 >> start) & ((1u64 << width) - 1)) as u32
}

#[test]
fn bits_boundaries() {
    assert_eq!(bits(0xFFFF_FFFF, 0, 31), 0xFFFF_FFFF);
    assert_eq!(bits(0x1234_5678, 0, 31), 0x1234_5678);
    assert_eq!(bits(0x0000_0001, 0, 0), 1);
    assert_eq!(bits(0xFFFF_FFFE, 0, 0), 0);
    assert_eq!(bits(0x8000_0000, 31, 31), 1);
    assert_eq!(bits(0x1234_5678, 4, 11), 0x67);
    assert_eq!(bits(0x1234_5678, 28, 31), 0x1);
}

#[test]
fn bits_agree_with_arithmetic_on_samples() {
    let words = [0u32, 1, 0xFFFF_FFFF, 0x8000_0000, 0xDEAD_BEEF, 0x0123_4567, 0x5555_5555];
    for &w in words.iter() {
        for start in 0..32u32 {
            for end in start..32u32 {
                assert_eq!(bits(w, start, end), reference_bits(w, start, end));
            }
        }
    }
}

#[test]
fn operand_fields() {
    // add x4, x1, x1
    let w = 0x00108233;
    assert_eq!(rd(w), 4);
    assert_eq!(src1(w), 1);
    assert_eq!(src2(w), 1);
    assert_eq!(imm_s(w), 4);
    // addi x1, x0, 4
    assert_eq!(imm_i(0x00400093), 4);
    assert_eq!(imm_i(0xFFF00093), 0xFFF);
    assert_eq!(imm_u(0x00001297), 1);
    assert_eq!(imm_u(0xFFFFF097), 0xFFFFF);
}
