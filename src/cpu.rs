//! Decode and execution of instruction words through an ordered table of
//! bit patterns, on a machine of 32 registers and a program counter.
//!
//! Register 0 is an ordinary register: instructions may write it. The I-type
//! immediate is zero-extended, not sign-extended. Register arithmetic wraps
//! modulo 2^32.

use crate::bitfield::{bits, field, imm_i, imm_u, lemma_field_mask, rd, src1, src2};
use crate::pattern::{binary_string, lemma_bit_char, match_pattern, strip_spaces, word_matches};
use vstd::prelude::*;
use vstd::string::{StrSliceExecFns, StringExecFns};

verus! {

/// `add rd, rs1, rs2` (R-type).
pub const ADD_PATTERN: &'static str = "0000000 ????? ????? 000 ????? 01100 11";

/// `addi rd, rs1, imm` (I-type).
pub const ADDI_PATTERN: &'static str = "??????? ????? ????? 000 ????? 00100 11";

/// `auipc rd, imm` (U-type).
pub const AUIPC_PATTERN: &'static str = "??????? ????? ????? ??? ????? 00101 11";

/// The semantic action of a table entry.
#[derive(Clone, Copy, Debug, PartialEq, Eq, Structural)]
pub enum Op {
    /// `reg[rd] = pc + (immU << 12)`, with the already advanced program counter.
    Auipc,
    /// `reg[rd] = reg[src1] + reg[src2]`.
    Add,
    /// `reg[rd] = reg[src1] + immI`.
    Addi,
}

/// One entry of a dispatch table: a bit pattern and the action it selects.
#[derive(Clone, Copy, Debug)]
pub struct InstPat {
    pub pattern: &'static str,
    pub op: Op,
}

/// Entry `i` is the first entry of `table` whose pattern matches `w`.
pub open spec fn is_first_match(table: Seq<InstPat>, w: u32, i: int) -> bool {
    &&& 0 <= i < table.len()
    &&& word_matches(w, table[i].pattern@)
    &&& forall|j: int| 0 <= j < i ==> !word_matches(w, #[trigger] table[j].pattern@)
}

/// No entry of `table` matches `w`.
pub open spec fn no_match(table: Seq<InstPat>, w: u32) -> bool {
    forall|j: int| 0 <= j < table.len() ==> !word_matches(w, #[trigger] table[j].pattern@)
}

/// The opcode, bits 0–6.
pub open spec fn opcode(w: u32) -> nat {
    field(w, 0, 6)
}

/// The `funct3` field, bits 12–14.
pub open spec fn funct3(w: u32) -> nat {
    field(w, 12, 14)
}

/// The `funct7` field, bits 25–31.
pub open spec fn funct7(w: u32) -> nat {
    field(w, 25, 31)
}

/// The instruction that `w` encodes, if this machine knows it.
pub open spec fn decode(w: u32) -> Option<Op> {
    if opcode(w) == 0x17 {
        Some(Op::Auipc)
    } else if opcode(w) == 0x33 && funct3(w) == 0 && funct7(w) == 0 {
        Some(Op::Add)
    } else if opcode(w) == 0x13 && funct3(w) == 0 {
        Some(Op::Addi)
    } else {
        None
    }
}

/// `AUIPC_PATTERN` without its spaces.
#[verifier::rlimit(50)]
proof fn lemma_auipc_chars()
    ensures
        strip_spaces(AUIPC_PATTERN@) == seq![
            '?', '?', '?', '?', '?', '?', '?', '?', '?', '?', '?', '?', '?', '?', '?', '?',
            '?', '?', '?', '?', '?', '?', '?', '?', '?', '0', '0', '1', '0', '1', '1', '1',
        ],
{
    reveal_strlit("??????? ????? ????? ??? ????? 00101 11");
    reveal_with_fuel(strip_spaces, 39);
    let p = seq![
        '?', '?', '?', '?', '?', '?', '?', ' ', '?', '?', '?', '?', '?', ' ', '?', '?',
        '?', '?', '?', ' ', '?', '?', '?', ' ', '?', '?', '?', '?', '?', ' ', '0', '0',
        '1', '0', '1', ' ', '1', '1',
    ];
    assert(AUIPC_PATTERN@ =~= p);
    assert(strip_spaces(p) =~= seq![
        '?', '?', '?', '?', '?', '?', '?', '?', '?', '?', '?', '?', '?', '?', '?', '?',
        '?', '?', '?', '?', '?', '?', '?', '?', '?', '0', '0', '1', '0', '1', '1', '1',
    ]);
}

/// The words that `AUIPC_PATTERN` matches.
pub proof fn lemma_matches_auipc(w: u32)
    ensures
        word_matches(w, AUIPC_PATTERN@) <==> opcode(w) == 0x17,
{
    let q = strip_spaces(AUIPC_PATTERN@);
    lemma_auipc_chars();
    lemma_bit_char(w, 6);
    lemma_bit_char(w, 5);
    lemma_bit_char(w, 4);
    lemma_bit_char(w, 3);
    lemma_bit_char(w, 2);
    lemma_bit_char(w, 1);
    lemma_bit_char(w, 0);
    lemma_field_mask(w, 0, 7);
    vstd::bits::lemma_low_bits_mask_values();
    assert(w >> 0u32 == w) by (bit_vector);
    assert(opcode(w) == (w & 0x7fu32) as nat);
    assert(((w & 0x7fu32) == 0x17u32) <==> (
        ((w >> 6u32) & 1u32) == 0u32 &&
        ((w >> 5u32) & 1u32) == 0u32 &&
        ((w >> 4u32) & 1u32) == 1u32 &&
        ((w >> 3u32) & 1u32) == 0u32 &&
        ((w >> 2u32) & 1u32) == 1u32 &&
        ((w >> 1u32) & 1u32) == 1u32 &&
        ((w >> 0u32) & 1u32) == 1u32
    )) by (bit_vector);
    if word_matches(w, AUIPC_PATTERN@) {
        assert(q[25] == '?' || q[25] == binary_string(w)[25]);
        assert(q[26] == '?' || q[26] == binary_string(w)[26]);
        assert(q[27] == '?' || q[27] == binary_string(w)[27]);
        assert(q[28] == '?' || q[28] == binary_string(w)[28]);
        assert(q[29] == '?' || q[29] == binary_string(w)[29]);
        assert(q[30] == '?' || q[30] == binary_string(w)[30]);
        assert(q[31] == '?' || q[31] == binary_string(w)[31]);
    }
    if ((w >> 6u32) & 1u32) == 0u32 &&
        ((w >> 5u32) & 1u32) == 0u32 &&
        ((w >> 4u32) & 1u32) == 1u32 &&
        ((w >> 3u32) & 1u32) == 0u32 &&
        ((w >> 2u32) & 1u32) == 1u32 &&
        ((w >> 1u32) & 1u32) == 1u32 &&
        ((w >> 0u32) & 1u32) == 1u32 {
        assert forall|i: int| 0 <= i < 32 implies (#[trigger] q[i] == '?' || q[i]
            == binary_string(w)[i]) by {
            if q[i] != '?' {
                assert(i == 25 || i == 26 || i == 27 || i == 28 || i == 29 || i == 30 || i == 31);
            }
        }
    }
}

/// `ADD_PATTERN` without its spaces.
#[verifier::rlimit(50)]
proof fn lemma_add_chars()
    ensures
        strip_spaces(ADD_PATTERN@) == seq![
            '0', '0', '0', '0', '0', '0', '0', '?', '?', '?', '?', '?', '?', '?', '?', '?',
            '?', '0', '0', '0', '?', '?', '?', '?', '?', '0', '1', '1', '0', '0', '1', '1',
        ],
{
    reveal_strlit("0000000 ????? ????? 000 ????? 01100 11");
    reveal_with_fuel(strip_spaces, 39);
    let p = seq![
        '0', '0', '0', '0', '0', '0', '0', ' ', '?', '?', '?', '?', '?', ' ', '?', '?',
        '?', '?', '?', ' ', '0', '0', '0', ' ', '?', '?', '?', '?', '?', ' ', '0', '1',
        '1', '0', '0', ' ', '1', '1',
    ];
    assert(ADD_PATTERN@ =~= p);
    assert(strip_spaces(p) =~= seq![
        '0', '0', '0', '0', '0', '0', '0', '?', '?', '?', '?', '?', '?', '?', '?', '?',
        '?', '0', '0', '0', '?', '?', '?', '?', '?', '0', '1', '1', '0', '0', '1', '1',
    ]);
}

/// The words that `ADD_PATTERN` matches.
pub proof fn lemma_matches_add(w: u32)
    ensures
        word_matches(w, ADD_PATTERN@) <==> opcode(w) == 0x33 && funct3(w) == 0 && funct7(w) == 0,
{
    let q = strip_spaces(ADD_PATTERN@);
    lemma_add_chars();
    lemma_bit_char(w, 31);
    lemma_bit_char(w, 30);
    lemma_bit_char(w, 29);
    lemma_bit_char(w, 28);
    lemma_bit_char(w, 27);
    lemma_bit_char(w, 26);
    lemma_bit_char(w, 25);
    lemma_bit_char(w, 14);
    lemma_bit_char(w, 13);
    lemma_bit_char(w, 12);
    lemma_bit_char(w, 6);
    lemma_bit_char(w, 5);
    lemma_bit_char(w, 4);
    lemma_bit_char(w, 3);
    lemma_bit_char(w, 2);
    lemma_bit_char(w, 1);
    lemma_bit_char(w, 0);
    lemma_field_mask(w, 0, 7);
    lemma_field_mask(w, 12, 3);
    lemma_field_mask(w, 25, 7);
    vstd::bits::lemma_low_bits_mask_values();
    assert(w >> 0u32 == w) by (bit_vector);
    assert(opcode(w) == (w & 0x7fu32) as nat);
    assert(((w & 0x7fu32) == 0x33u32 &&
        ((w >> 12u32) & 0x7u32) == 0u32 &&
        ((w >> 25u32) & 0x7fu32) == 0u32) <==> (
        ((w >> 31u32) & 1u32) == 0u32 &&
        ((w >> 30u32) & 1u32) == 0u32 &&
        ((w >> 29u32) & 1u32) == 0u32 &&
        ((w >> 28u32) & 1u32) == 0u32 &&
        ((w >> 27u32) & 1u32) == 0u32 &&
        ((w >> 26u32) & 1u32) == 0u32 &&
        ((w >> 25u32) & 1u32) == 0u32 &&
        ((w >> 14u32) & 1u32) == 0u32 &&
        ((w >> 13u32) & 1u32) == 0u32 &&
        ((w >> 12u32) & 1u32) == 0u32 &&
        ((w >> 6u32) & 1u32) == 0u32 &&
        ((w >> 5u32) & 1u32) == 1u32 &&
        ((w >> 4u32) & 1u32) == 1u32 &&
        ((w >> 3u32) & 1u32) == 0u32 &&
        ((w >> 2u32) & 1u32) == 0u32 &&
        ((w >> 1u32) & 1u32) == 1u32 &&
        ((w >> 0u32) & 1u32) == 1u32
    )) by (bit_vector);
    if word_matches(w, ADD_PATTERN@) {
        assert(q[0] == '?' || q[0] == binary_string(w)[0]);
        assert(q[1] == '?' || q[1] == binary_string(w)[1]);
        assert(q[2] == '?' || q[2] == binary_string(w)[2]);
        assert(q[3] == '?' || q[3] == binary_string(w)[3]);
        assert(q[4] == '?' || q[4] == binary_string(w)[4]);
        assert(q[5] == '?' || q[5] == binary_string(w)[5]);
        assert(q[6] == '?' || q[6] == binary_string(w)[6]);
        assert(q[17] == '?' || q[17] == binary_string(w)[17]);
        assert(q[18] == '?' || q[18] == binary_string(w)[18]);
        assert(q[19] == '?' || q[19] == binary_string(w)[19]);
        assert(q[25] == '?' || q[25] == binary_string(w)[25]);
        assert(q[26] == '?' || q[26] == binary_string(w)[26]);
        assert(q[27] == '?' || q[27] == binary_string(w)[27]);
        assert(q[28] == '?' || q[28] == binary_string(w)[28]);
        assert(q[29] == '?' || q[29] == binary_string(w)[29]);
        assert(q[30] == '?' || q[30] == binary_string(w)[30]);
        assert(q[31] == '?' || q[31] == binary_string(w)[31]);
    }
    if ((w >> 31u32) & 1u32) == 0u32 &&
        ((w >> 30u32) & 1u32) == 0u32 &&
        ((w >> 29u32) & 1u32) == 0u32 &&
        ((w >> 28u32) & 1u32) == 0u32 &&
        ((w >> 27u32) & 1u32) == 0u32 &&
        ((w >> 26u32) & 1u32) == 0u32 &&
        ((w >> 25u32) & 1u32) == 0u32 &&
        ((w >> 14u32) & 1u32) == 0u32 &&
        ((w >> 13u32) & 1u32) == 0u32 &&
        ((w >> 12u32) & 1u32) == 0u32 &&
        ((w >> 6u32) & 1u32) == 0u32 &&
        ((w >> 5u32) & 1u32) == 1u32 &&
        ((w >> 4u32) & 1u32) == 1u32 &&
        ((w >> 3u32) & 1u32) == 0u32 &&
        ((w >> 2u32) & 1u32) == 0u32 &&
        ((w >> 1u32) & 1u32) == 1u32 &&
        ((w >> 0u32) & 1u32) == 1u32 {
        assert forall|i: int| 0 <= i < 32 implies (#[trigger] q[i] == '?' || q[i]
            == binary_string(w)[i]) by {
            if q[i] != '?' {
                assert(i == 0 || i == 1 || i == 2 || i == 3 || i == 4 || i == 5 || i == 6 || i == 17 ||
                    i == 18 || i == 19 || i == 25 || i == 26 || i == 27 || i == 28 || i == 29 || i == 30 ||
                    i == 31);
            }
        }
    }
}

/// `ADDI_PATTERN` without its spaces.
#[verifier::rlimit(50)]
proof fn lemma_addi_chars()
    ensures
        strip_spaces(ADDI_PATTERN@) == seq![
            '?', '?', '?', '?', '?', '?', '?', '?', '?', '?', '?', '?', '?', '?', '?', '?',
            '?', '0', '0', '0', '?', '?', '?', '?', '?', '0', '0', '1', '0', '0', '1', '1',
        ],
{
    reveal_strlit("??????? ????? ????? 000 ????? 00100 11");
    reveal_with_fuel(strip_spaces, 39);
    let p = seq![
        '?', '?', '?', '?', '?', '?', '?', ' ', '?', '?', '?', '?', '?', ' ', '?', '?',
        '?', '?', '?', ' ', '0', '0', '0', ' ', '?', '?', '?', '?', '?', ' ', '0', '0',
        '1', '0', '0', ' ', '1', '1',
    ];
    assert(ADDI_PATTERN@ =~= p);
    assert(strip_spaces(p) =~= seq![
        '?', '?', '?', '?', '?', '?', '?', '?', '?', '?', '?', '?', '?', '?', '?', '?',
        '?', '0', '0', '0', '?', '?', '?', '?', '?', '0', '0', '1', '0', '0', '1', '1',
    ]);
}

/// The words that `ADDI_PATTERN` matches.
pub proof fn lemma_matches_addi(w: u32)
    ensures
        word_matches(w, ADDI_PATTERN@) <==> opcode(w) == 0x13 && funct3(w) == 0,
{
    let q = strip_spaces(ADDI_PATTERN@);
    lemma_addi_chars();
    lemma_bit_char(w, 14);
    lemma_bit_char(w, 13);
    lemma_bit_char(w, 12);
    lemma_bit_char(w, 6);
    lemma_bit_char(w, 5);
    lemma_bit_char(w, 4);
    lemma_bit_char(w, 3);
    lemma_bit_char(w, 2);
    lemma_bit_char(w, 1);
    lemma_bit_char(w, 0);
    lemma_field_mask(w, 0, 7);
    lemma_field_mask(w, 12, 3);
    vstd::bits::lemma_low_bits_mask_values();
    assert(w >> 0u32 == w) by (bit_vector);
    assert(opcode(w) == (w & 0x7fu32) as nat);
    assert(((w & 0x7fu32) == 0x13u32 &&
        ((w >> 12u32) & 0x7u32) == 0u32) <==> (
        ((w >> 14u32) & 1u32) == 0u32 &&
        ((w >> 13u32) & 1u32) == 0u32 &&
        ((w >> 12u32) & 1u32) == 0u32 &&
        ((w >> 6u32) & 1u32) == 0u32 &&
        ((w >> 5u32) & 1u32) == 0u32 &&
        ((w >> 4u32) & 1u32) == 1u32 &&
        ((w >> 3u32) & 1u32) == 0u32 &&
        ((w >> 2u32) & 1u32) == 0u32 &&
        ((w >> 1u32) & 1u32) == 1u32 &&
        ((w >> 0u32) & 1u32) == 1u32
    )) by (bit_vector);
    if word_matches(w, ADDI_PATTERN@) {
        assert(q[17] == '?' || q[17] == binary_string(w)[17]);
        assert(q[18] == '?' || q[18] == binary_string(w)[18]);
        assert(q[19] == '?' || q[19] == binary_string(w)[19]);
        assert(q[25] == '?' || q[25] == binary_string(w)[25]);
        assert(q[26] == '?' || q[26] == binary_string(w)[26]);
        assert(q[27] == '?' || q[27] == binary_string(w)[27]);
        assert(q[28] == '?' || q[28] == binary_string(w)[28]);
        assert(q[29] == '?' || q[29] == binary_string(w)[29]);
        assert(q[30] == '?' || q[30] == binary_string(w)[30]);
        assert(q[31] == '?' || q[31] == binary_string(w)[31]);
    }
    if ((w >> 14u32) & 1u32) == 0u32 &&
        ((w >> 13u32) & 1u32) == 0u32 &&
        ((w >> 12u32) & 1u32) == 0u32 &&
        ((w >> 6u32) & 1u32) == 0u32 &&
        ((w >> 5u32) & 1u32) == 0u32 &&
        ((w >> 4u32) & 1u32) == 1u32 &&
        ((w >> 3u32) & 1u32) == 0u32 &&
        ((w >> 2u32) & 1u32) == 0u32 &&
        ((w >> 1u32) & 1u32) == 1u32 &&
        ((w >> 0u32) & 1u32) == 1u32 {
        assert forall|i: int| 0 <= i < 32 implies (#[trigger] q[i] == '?' || q[i]
            == binary_string(w)[i]) by {
            if q[i] != '?' {
                assert(i == 17 || i == 18 || i == 19 || i == 25 || i == 26 || i == 27 || i == 28 || i == 29 ||
                    i == 30 || i == 31);
            }
        }
    }
}

/// The instructions this machine knows, in the order they are tried.
pub open spec fn builtin_table() -> Seq<InstPat> {
    seq![
        InstPat { pattern: AUIPC_PATTERN, op: Op::Auipc },
        InstPat { pattern: ADD_PATTERN, op: Op::Add },
        InstPat { pattern: ADDI_PATTERN, op: Op::Addi },
    ]
}

/// The built-in table dispatches each word to the instruction that `decode`
/// names, and matches no word that `decode` rejects.
pub proof fn lemma_builtin_table_decodes(w: u32)
    ensures
        decode(w) == Some(Op::Auipc) ==> is_first_match(builtin_table(), w, 0),
        decode(w) == Some(Op::Add) ==> is_first_match(builtin_table(), w, 1),
        decode(w) == Some(Op::Addi) ==> is_first_match(builtin_table(), w, 2),
        decode(w) is None ==> no_match(builtin_table(), w),
{
    let t = builtin_table();
    lemma_matches_auipc(w);
    lemma_matches_add(w);
    lemma_matches_addi(w);
    assert(t[0].pattern == AUIPC_PATTERN && t[1].pattern == ADD_PATTERN && t[2].pattern
        == ADDI_PATTERN);
    if decode(w) is None {
        assert forall|j: int| 0 <= j < t.len() implies !word_matches(w, #[trigger] t[j].pattern@) by {
            assert(j == 0 || j == 1 || j == 2);
        }
    }
}

/// Builds the table of the instructions this machine knows.
pub fn instruction_table() -> (r: Vec<InstPat>)
    ensures
        r@ == builtin_table(),
{
    let r = vec![
        InstPat { pattern: AUIPC_PATTERN, op: Op::Auipc },
        InstPat { pattern: ADD_PATTERN, op: Op::Add },
        InstPat { pattern: ADDI_PATTERN, op: Op::Addi },
    ];
    assert(r@ =~= builtin_table());
    r
}

/// The index of the first entry of `table` whose pattern matches `inst`.
pub fn find_entry(table: &Vec<InstPat>, inst: u32) -> (r: Option<usize>)
    ensures
        match r {
            Some(i) => is_first_match(table@, inst, i as int),
            None => no_match(table@, inst),
        },
{
    let mut i: usize = 0;
    while i < table.len()
        invariant
            i <= table.len(),
            forall|j: int| 0 <= j < i ==> !word_matches(inst, #[trigger] table@[j].pattern@),
        decreases table.len() - i,
    {
        if match_pattern(inst, table[i].pattern) {
            return Some(i);
        }
        i += 1;
    }
    None
}

/// Of two entries that both match a word, the later one is never the first match.
pub proof fn lemma_first_match_unique(table: Seq<InstPat>, w: u32, i: int, k: int)
    requires
        is_first_match(table, w, i),
        is_first_match(table, w, k),
    ensures
        i == k,
{
    if i < k {
        assert(!word_matches(w, table[i].pattern@));
    } else if k < i {
        assert(!word_matches(w, table[k].pattern@));
    }
}

/// When two entries of a table both match a word, the later one is never the
/// one dispatched: the first match lies at or before the earlier entry.
pub proof fn lemma_earlier_entry_wins(table: Seq<InstPat>, w: u32, j: int, k: int)
    requires
        0 <= j < k < table.len(),
        word_matches(w, table[j].pattern@),
        word_matches(w, table[k].pattern@),
    ensures
        !is_first_match(table, w, k),
        !no_match(table, w),
        forall|i: int| #[trigger] is_first_match(table, w, i) ==> i <= j,
{
    assert(!is_first_match(table, w, k));
    assert forall|i: int| #[trigger] is_first_match(table, w, i) implies i <= j by {
        if i > j {
            assert(!word_matches(w, table[j].pattern@));
        }
    }
}

/// `x` reduced modulo 2^32.
pub open spec fn wrap(x: int) -> u32 {
    (x % 0x1_0000_0000) as u32
}

/// Wrapping addition of 32-bit words is addition modulo 2^32.
pub proof fn lemma_wrapping_add(a: u32, b: u32)
    ensures
        a.wrapping_add(b) == wrap(a + b),
{
    if a + b > u32::MAX {
        vstd::arithmetic::div_mod::lemma_mod_add_multiples_vanish(a + b - 0x1_0000_0000, 0x1_0000_0000);
        vstd::arithmetic::div_mod::lemma_small_mod((a + b - 0x1_0000_0000) as nat, 0x1_0000_0000);
    } else {
        vstd::arithmetic::div_mod::lemma_small_mod((a + b) as nat, 0x1_0000_0000);
    }
}

/// The registers after `op` runs on `regs` for the word `w`, where `pc` is the
/// program counter already advanced past `w`.
pub open spec fn op_effect(op: Op, pc: u32, regs: Seq<u32>, w: u32) -> Seq<u32> {
    let d = field(w, 7, 11) as int;
    let a = regs[field(w, 15, 19) as int] as int;
    match op {
        Op::Auipc => regs.update(d, wrap(pc + field(w, 12, 31) * 0x1000)),
        Op::Add => regs.update(d, wrap(a + regs[field(w, 20, 24) as int])),
        Op::Addi => regs.update(d, wrap(a + field(w, 20, 31))),
    }
}

/// The lower-case hexadecimal digits.
pub open spec fn hex_digits() -> Seq<char> {
    seq!['0', '1', '2', '3', '4', '5', '6', '7', '8', '9', 'a', 'b', 'c', 'd', 'e', 'f']
}

/// `w` as 8 lower-case hexadecimal digits, most significant first.
pub open spec fn hex_string(w: u32) -> Seq<char> {
    Seq::new(8, |i: int| hex_digits()[field(w, (4 * (7 - i)) as nat, (4 * (7 - i) + 3) as nat) as int])
}

/// The diagnostic for a word that no entry matches.
pub open spec fn unknown_message(w: u32) -> Seq<char> {
    "Unknown instruction "@ + hex_string(w)
}

/// The diagnostic for a word that no entry matches:
/// `"Unknown instruction "` and the word as 8 hexadecimal digits.
pub fn unknown_instruction(inst: u32) -> (r: String)
    ensures
        r@ == unknown_message(inst),
{
    let digits = "0123456789abcdef";
    proof {
        reveal_strlit("0123456789abcdef");
        assert(digits@ =~= hex_digits());
    }
    let mut r = String::from_str("Unknown instruction ");
    let mut i: u32 = 0;
    while i < 8
        invariant
            i <= 8,
            digits@ == hex_digits(),
            r@ =~= "Unknown instruction "@ + hex_string(inst).subrange(0, i as int),
        decreases 8 - i,
    {
        let low = 4 * (7 - i);
        let d = bits(inst, low, low + 3);
        proof {
            crate::bitfield::lemma_field_bound(inst, low as nat, (low + 3) as nat);
            vstd::arithmetic::power2::lemma2_to64();
        }
        r.append(digits.substring_char(d as usize, d as usize + 1));
        i += 1;
    }
    r
}

/// What the registers and program counter of a [`CPU`] hold.
pub struct CpuView {
    pub pc: u32,
    pub regs: Seq<u32>,
}

/// The register file and program counter of the machine.
#[derive(Debug)]
pub struct CPU {
    pc: u32,
    reg: [u32; 32],
}

/// A flat byte store that instructions may load from and store to.
#[derive(Debug)]
pub struct Memory {
    mem: Vec<u8>,
}

impl View for Memory {
    type V = Seq<u8>;

    closed spec fn view(&self) -> Seq<u8> {
        self.mem@
    }
}

impl Default for Memory {
    /// An empty store.
    fn default() -> (r: Memory)
        ensures
            r@ == Seq::<u8>::empty(),
    {
        Memory { mem: Vec::new() }
    }
}

impl View for CPU {
    type V = CpuView;

    closed spec fn view(&self) -> CpuView {
        CpuView { pc: self.pc, regs: self.reg@ }
    }
}

impl Default for CPU {
    /// A machine with every register and the program counter at zero.
    fn default() -> (r: CPU)
        ensures
            r@.pc == 0,
            r@.regs == Seq::new(32, |i: int| 0u32),
    {
        let r = CPU { pc: 0, reg: [0u32; 32] };
        assert(r@.regs =~= Seq::new(32, |i: int| 0u32));
        r
    }
}

impl CPU {
    /// Advances the program counter by 4, then runs the action of the first
    /// entry of `table` whose pattern matches `inst`. When no entry matches,
    /// the registers are left as they were and the diagnostic of
    /// [`unknown_instruction`] is returned.
    pub fn run_with(&mut self, table: &Vec<InstPat>, inst: u32, _memory: &mut Memory) -> (r:
        Result<(), String>)
        ensures
            final(self)@.pc == wrap(old(self)@.pc + 4),
            final(self)@.regs.len() == 32,
            *final(_memory) == *old(_memory),
            forall|i: int| #[trigger]
                is_first_match(table@, inst, i) ==> r is Ok && final(self)@.regs == op_effect(
                    table@[i].op,
                    final(self)@.pc,
                    old(self)@.regs,
                    inst,
                ),
            no_match(table@, inst) ==> r is Err && r->Err_0@ == unknown_message(inst)
                && final(self)@.regs == old(self)@.regs,
    {
        proof {
            lemma_wrapping_add(self.pc, 4);
        }
        self.pc = self.pc.wrapping_add(4);
        match find_entry(table, inst) {
            Some(i) => {
                proof {
                    assert forall|k: int| #[trigger] is_first_match(table@, inst, k) implies k
                        == i by {
                        lemma_first_match_unique(table@, inst, i as int, k);
                    }
                }
                let d = rd(inst);
                match table[i].op {
                    Op::Auipc => {
                        let u = imm_u(inst);
                        proof {
                            crate::bitfield::lemma_field_bound(inst, 12, 31);
                            vstd::arithmetic::power2::lemma2_to64();
                            vstd::bits::lemma_u32_shl_is_mul(u, 12);
                            lemma_wrapping_add(self.pc, u << 12);
                        }
                        let v = self.pc.wrapping_add(u << 12);
                        self.reg[d] = v;
                    },
                    Op::Add => {
                        let a = self.reg[src1(inst)];
                        let b = self.reg[src2(inst)];
                        proof {
                            lemma_wrapping_add(a, b);
                        }
                        let v = a.wrapping_add(b);
                        self.reg[d] = v;
                    },
                    Op::Addi => {
                        let a = self.reg[src1(inst)];
                        let b = imm_i(inst);
                        proof {
                            lemma_wrapping_add(a, b);
                        }
                        let v = a.wrapping_add(b);
                        self.reg[d] = v;
                    },
                }
                Ok(())
            },
            None => Err(unknown_instruction(inst)),
        }
    }

    /// Advances the program counter by 4, then runs the instruction that
    /// `inst` encodes: `auipc`, `add` or `addi`, as [`decode`] tells them
    /// apart. Any other word leaves the registers as they were and returns the
    /// diagnostic of [`unknown_instruction`].
    pub fn decode_run(&mut self, inst: u32, memory: &mut Memory) -> (r: Result<(), String>)
        ensures
            final(self)@.pc == wrap(old(self)@.pc + 4),
            final(self)@.regs.len() == 32,
            *final(memory) == *old(memory),
            match decode(inst) {
                Some(op) => r is Ok && final(self)@.regs == op_effect(
                    op,
                    final(self)@.pc,
                    old(self)@.regs,
                    inst,
                ),
                None => r is Err && r->Err_0@ == unknown_message(inst) && final(self)@.regs == old(
                    self,
                )@.regs,
            },
    {
        proof {
            lemma_builtin_table_decodes(inst);
        }
        let table = instruction_table();
        self.run_with(&table, inst, memory)
    }

    /// The program counter.
    pub fn pc(&self) -> (r: u32)
        ensures
            r == self@.pc,
    {
        self.pc
    }

    /// Register `idx`.
    pub fn reg(&self, idx: usize) -> (r: u32)
        requires
            idx < 32,
        ensures
            r == self@.regs[idx as int],
    {
        self.reg[idx]
    }
}

} // verus!
