//! Types, constants and the instruction encoding of the LC-3 ISA.
use vstd::prelude::*;

verus! {

/// A machine word.
pub type Word = u16;
/// A memory address.
pub type Addr = u16;
/// A word read as a two's complement number.
pub type SignedWord = i16;

/// Number of words in the LC-3 address space.
pub const ADDR_SPACE_SIZE_IN_WORDS: usize = 65536;

pub const TRAP_VECTOR_TABLE_START_ADDR: Addr = 0x0000;
pub const INTERRUPT_VECTOR_TABLE_START_ADDR: Addr = 0x0100;
pub const INTERRUPT_SERVICE_ROUTINES_START_ADDR: Addr = 0x0180;
pub const OS_START_ADDR: Addr = 0x0200;
pub const USER_PROGRAM_START_ADDR: Addr = 0x3000;
pub const MEM_MAPPED_START_ADDR: Addr = 0xFE00;

/// Backup stack pointer (holds the stack pointer of the mode not in use).
pub const BSP_ADDR: Addr = 0xFFFA;
/// Processor status register.
pub const PSR_ADDR: Addr = 0xFFFC;
/// Machine control register.
pub const MCR_ADDR: Addr = 0xFFFE;

pub const PRIVILEGE_MODE_VIOLATION_EXCEPTION_VECTOR: u8 = 0x00;
pub const ILLEGAL_OPCODE_EXCEPTION_VECTOR: u8 = 0x01;
pub const ACCESS_CONTROL_VIOLATION_EXCEPTION_VECTOR: u8 = 0x02;

pub const WORD_MAX_VAL: Word = 0xFFFF;

/// The eight general purpose registers.
#[derive(Debug, Clone, Copy, PartialEq, Eq, Structural)]
pub enum Reg {
    R0,
    R1,
    R2,
    R3,
    R4,
    R5,
    R6,
    R7,
}

impl Reg {
    pub const NUM_REGS: usize = 8;

    /// Position of the register in the register file.
    pub open spec fn index(self) -> int {
        match self {
            Reg::R0 => 0,
            Reg::R1 => 1,
            Reg::R2 => 2,
            Reg::R3 => 3,
            Reg::R4 => 4,
            Reg::R5 => 5,
            Reg::R6 => 6,
            Reg::R7 => 7,
        }
    }

    /// The register with the given position.
    pub open spec fn spec_from_index(i: int) -> Reg {
        if i == 0 {
            Reg::R0
        } else if i == 1 {
            Reg::R1
        } else if i == 2 {
            Reg::R2
        } else if i == 3 {
            Reg::R3
        } else if i == 4 {
            Reg::R4
        } else if i == 5 {
            Reg::R5
        } else if i == 6 {
            Reg::R6
        } else {
            Reg::R7
        }
    }

    pub fn to_index(self) -> (r: usize)
        ensures
            r == self.index(),
            r < 8,
    {
        match self {
            Reg::R0 => 0,
            Reg::R1 => 1,
            Reg::R2 => 2,
            Reg::R3 => 3,
            Reg::R4 => 4,
            Reg::R5 => 5,
            Reg::R6 => 6,
            Reg::R7 => 7,
        }
    }

    /// The register numbered by the three bits `bits`; `None` when `bits` is 8 or more.
    pub fn from_index(bits: u16) -> (r: Option<Reg>)
        ensures
            bits < 8 ==> r == Some(Reg::spec_from_index(bits as int)),
            bits < 8 ==> r.unwrap().index() == bits,
            bits >= 8 ==> r.is_none(),
    {
        if bits == 0 {
            Some(Reg::R0)
        } else if bits == 1 {
            Some(Reg::R1)
        } else if bits == 2 {
            Some(Reg::R2)
        } else if bits == 3 {
            Some(Reg::R3)
        } else if bits == 4 {
            Some(Reg::R4)
        } else if bits == 5 {
            Some(Reg::R5)
        } else if bits == 6 {
            Some(Reg::R6)
        } else if bits == 7 {
            Some(Reg::R7)
        } else {
            None
        }
    }
}

/// A decoded LC-3 instruction.
#[derive(Debug, Clone, Copy, PartialEq, Eq, Structural)]
pub enum Instruction {
    AddReg { dr: Reg, sr1: Reg, sr2: Reg },
    AddImm { dr: Reg, sr1: Reg, imm5: SignedWord },
    AndReg { dr: Reg, sr1: Reg, sr2: Reg },
    AndImm { dr: Reg, sr1: Reg, imm5: SignedWord },
    Br { n: bool, z: bool, p: bool, offset9: SignedWord },
    Jmp { base: Reg },
    Jsr { offset11: SignedWord },
    Jsrr { base: Reg },
    Ld { dr: Reg, offset9: SignedWord },
    Ldi { dr: Reg, offset9: SignedWord },
    Ldr { dr: Reg, base: Reg, offset6: SignedWord },
    Lea { dr: Reg, offset9: SignedWord },
    Not { dr: Reg, sr: Reg },
    Ret,
    Rti,
    St { sr: Reg, offset9: SignedWord },
    Sti { sr: Reg, offset9: SignedWord },
    Str { sr: Reg, base: Reg, offset6: SignedWord },
    Trap { trapvec: u8 },
}

/// The value of the low `n` bits of `v`, read as an `n`-bit two's complement number.
pub open spec fn sign_extend(v: int, n: nat) -> int {
    if v >= vstd::arithmetic::power2::pow2((n - 1) as nat) {
        v - vstd::arithmetic::power2::pow2(n)
    } else {
        v
    }
}

/// The register named by the three bits of `w` that start at bit `lo`.
pub open spec fn reg_at(w: Word, lo: Word) -> Reg {
    Reg::spec_from_index(((w >> lo) & 7) as int)
}

/// Decoding of a word into an instruction; `Err(w)` for the reserved opcode `0b1101`.
pub open spec fn decode_spec(w: Word) -> Result<Instruction, Word> {
    let op = w >> 12u16;
    let dr = reg_at(w, 9);
    let sr1 = reg_at(w, 6);
    let imm5 = sign_extend((w & 0x1F) as int, 5) as i16;
    let off6 = sign_extend((w & 0x3F) as int, 6) as i16;
    let off9 = sign_extend((w & 0x1FF) as int, 9) as i16;
    let off11 = sign_extend((w & 0x7FF) as int, 11) as i16;
    if op == 0b0001 {
        if (w >> 5u16) & 1 == 1 {
            Ok(Instruction::AddImm { dr, sr1, imm5 })
        } else {
            Ok(Instruction::AddReg { dr, sr1, sr2: reg_at(w, 0) })
        }
    } else if op == 0b0101 {
        if (w >> 5u16) & 1 == 1 {
            Ok(Instruction::AndImm { dr, sr1, imm5 })
        } else {
            Ok(Instruction::AndReg { dr, sr1, sr2: reg_at(w, 0) })
        }
    } else if op == 0b0000 {
        Ok(
            Instruction::Br {
                n: (w >> 11u16) & 1 == 1,
                z: (w >> 10u16) & 1 == 1,
                p: (w >> 9u16) & 1 == 1,
                offset9: off9,
            },
        )
    } else if op == 0b1100 {
        if sr1 == Reg::R7 {
            Ok(Instruction::Ret)
        } else {
            Ok(Instruction::Jmp { base: sr1 })
        }
    } else if op == 0b0100 {
        if (w >> 11u16) & 1 == 1 {
            Ok(Instruction::Jsr { offset11: off11 })
        } else {
            Ok(Instruction::Jsrr { base: sr1 })
        }
    } else if op == 0b0010 {
        Ok(Instruction::Ld { dr, offset9: off9 })
    } else if op == 0b1010 {
        Ok(Instruction::Ldi { dr, offset9: off9 })
    } else if op == 0b0110 {
        Ok(Instruction::Ldr { dr, base: sr1, offset6: off6 })
    } else if op == 0b1110 {
        Ok(Instruction::Lea { dr, offset9: off9 })
    } else if op == 0b1001 {
        Ok(Instruction::Not { dr, sr: sr1 })
    } else if op == 0b1000 {
        Ok(Instruction::Rti)
    } else if op == 0b0011 {
        Ok(Instruction::St { sr: dr, offset9: off9 })
    } else if op == 0b1011 {
        Ok(Instruction::Sti { sr: dr, offset9: off9 })
    } else if op == 0b0111 {
        Ok(Instruction::Str { sr: dr, base: sr1, offset6: off6 })
    } else if op == 0b1111 {
        Ok(Instruction::Trap { trapvec: (w & 0xFF) as u8 })
    } else {
        Err(w)
    }
}

proof fn lemma_word_fields(w: u16)
    by (bit_vector)
    ensures
        w >> 12u16 < 16,
        (w >> 9u16) & 7 < 8,
        (w >> 6u16) & 7 < 8,
        (w >> 0u16) & 7 < 8,
        w & 0x1F < 32,
        w & 0x3F < 64,
        w & 0x1FF < 512,
        w & 0x7FF < 2048,
        w & 0xFF < 256,
        (w >> 0u16) == w,
{
}

/// Sign extends the `n` low bits held in `v` (`v < 2^n`).
fn sext(v: u16, n: u16) -> (r: i16)
    requires
        n == 5 || n == 6 || n == 9 || n == 11,
        v < vstd::arithmetic::power2::pow2(n as nat),
    ensures
        r == sign_extend(v as int, n as nat),
{
    proof {
        vstd::arithmetic::power2::lemma2_to64();
    }
    let half: u16 = 1u16 << (n - 1);
    let full: i32 = 1i32 << n;
    proof {
        vstd::bits::lemma_u16_shl_is_mul(1, (n - 1) as u16);
        vstd::bits::lemma_u32_shl_is_mul(1, n as u32);
        assert(full == vstd::arithmetic::power2::pow2(n as nat)) by {
            assert((1i32 << n) == (1u32 << (n as u32)) as i32) by (bit_vector)
                requires
                    n <= 11,
            ;
        }
    }
    if v >= half {
        (v as i32 - full) as i16
    } else {
        v as i16
    }
}

fn reg_field(w: Word, lo: u16) -> (r: Reg)
    requires
        lo == 0 || lo == 6 || lo == 9,
    ensures
        r == reg_at(w, lo),
{
    proof {
        lemma_word_fields(w);
    }
    Reg::from_index((w >> lo) & 7).unwrap()
}

impl Instruction {
    /// Decodes a word; the reserved opcode `0b1101` is refused with the word itself.
    pub fn try_from_word(w: Word) -> (r: Result<Instruction, Word>)
        ensures
            r == decode_spec(w),
    {
        proof {
            lemma_word_fields(w);
            vstd::arithmetic::power2::lemma2_to64();
        }
        let op = w >> 12u16;
        let dr = reg_field(w, 9);
        let sr1 = reg_field(w, 6);
        if op == 0b0001 || op == 0b0101 {
            let add = op == 0b0001;
            if (w >> 5u16) & 1 == 1 {
                let imm5 = sext(w & 0x1F, 5);
                if add {
                    Ok(Instruction::AddImm { dr, sr1, imm5 })
                } else {
                    Ok(Instruction::AndImm { dr, sr1, imm5 })
                }
            } else {
                let sr2 = reg_field(w, 0);
                if add {
                    Ok(Instruction::AddReg { dr, sr1, sr2 })
                } else {
                    Ok(Instruction::AndReg { dr, sr1, sr2 })
                }
            }
        } else if op == 0b0000 {
            Ok(
                Instruction::Br {
                    n: (w >> 11u16) & 1 == 1,
                    z: (w >> 10u16) & 1 == 1,
                    p: (w >> 9u16) & 1 == 1,
                    offset9: sext(w & 0x1FF, 9),
                },
            )
        } else if op == 0b1100 {
            if sr1 == Reg::R7 {
                Ok(Instruction::Ret)
            } else {
                Ok(Instruction::Jmp { base: sr1 })
            }
        } else if op == 0b0100 {
            if (w >> 11u16) & 1 == 1 {
                Ok(Instruction::Jsr { offset11: sext(w & 0x7FF, 11) })
            } else {
                Ok(Instruction::Jsrr { base: sr1 })
            }
        } else if op == 0b0010 {
            Ok(Instruction::Ld { dr, offset9: sext(w & 0x1FF, 9) })
        } else if op == 0b1010 {
            Ok(Instruction::Ldi { dr, offset9: sext(w & 0x1FF, 9) })
        } else if op == 0b0110 {
            Ok(Instruction::Ldr { dr, base: sr1, offset6: sext(w & 0x3F, 6) })
        } else if op == 0b1110 {
            Ok(Instruction::Lea { dr, offset9: sext(w & 0x1FF, 9) })
        } else if op == 0b1001 {
            Ok(Instruction::Not { dr, sr: sr1 })
        } else if op == 0b1000 {
            Ok(Instruction::Rti)
        } else if op == 0b0011 {
            Ok(Instruction::St { sr: dr, offset9: sext(w & 0x1FF, 9) })
        } else if op == 0b1011 {
            Ok(Instruction::Sti { sr: dr, offset9: sext(w & 0x1FF, 9) })
        } else if op == 0b0111 {
            Ok(Instruction::Str { sr: dr, base: sr1, offset6: sext(w & 0x3F, 6) })
        } else if op == 0b1111 {
            Ok(Instruction::Trap { trapvec: (w & 0xFF) as u8 })
        } else {
            Err(w)
        }
    }

    /// Whether executing the instruction updates the condition codes.
    pub open spec fn spec_sets_condition_codes(&self) -> bool {
        match self {
            Instruction::AddReg { .. } | Instruction::AddImm { .. } | Instruction::AndReg { .. }
            | Instruction::AndImm { .. } | Instruction::Ld { .. } | Instruction::Ldi { .. }
            | Instruction::Ldr { .. } | Instruction::Lea { .. } | Instruction::Not { .. } => true,
            _ => false,
        }
    }

    #[verifier::when_used_as_spec(spec_sets_condition_codes)]
    pub fn sets_condition_codes(&self) -> (r: bool)
        ensures
            r == self.spec_sets_condition_codes(),
    {
        match self {
            Instruction::AddReg { .. } | Instruction::AddImm { .. } | Instruction::AndReg { .. }
            | Instruction::AndImm { .. } | Instruction::Ld { .. } | Instruction::Ldi { .. }
            | Instruction::Ldr { .. } | Instruction::Lea { .. } | Instruction::Not { .. } => true,
            _ => false,
        }
    }
}

/// The bit fields of a word, in arithmetic terms.
proof fn lemma_fields_arith(w: u16)
    by (bit_vector)
    ensures
        w >> 12u16 == w / 4096,
        (w >> 9u16) & 7 == (w / 512) % 8,
        (w >> 6u16) & 7 == (w / 64) % 8,
        (w >> 0u16) & 7 == w % 8,
        ((w >> 5u16) & 1 == 1) == ((w / 32) % 2 == 1),
        ((w >> 11u16) & 1 == 1) == ((w / 2048) % 2 == 1),
        ((w >> 10u16) & 1 == 1) == ((w / 1024) % 2 == 1),
        ((w >> 9u16) & 1 == 1) == ((w / 512) % 2 == 1),
        w & 0x1F == w % 32,
        w & 0x3F == w % 64,
        w & 0x1FF == w % 512,
        w & 0x7FF == w % 2048,
        w & 0xFF == w % 256,
{
}

/// The low `2h` values of a field read as two's complement: the field `v`
/// (`0 <= v < 2h`) less `2h` when it is `h` or more.
pub open spec fn twos(v: int, h: int) -> int {
    if v >= h {
        v - 2 * h
    } else {
        v
    }
}

/// The destination (or store source) register field, bits 9 to 11.
pub open spec fn field_dr(w: Word) -> Reg {
    Reg::spec_from_index((w as int / 512) % 8)
}

/// The first source (or base) register field, bits 6 to 8.
pub open spec fn field_sr1(w: Word) -> Reg {
    Reg::spec_from_index((w as int / 64) % 8)
}

/// How the ADD, AND and NOT words decode: opcode 1 is ADD and 5 is AND, with
/// bit 5 choosing a second register (bits 0 to 2) or a five bit signed
/// immediate; opcode 9 is NOT.
pub proof fn law_decode_operate(w: Word)
    ensures
        w / 4096 == 1 && (w / 32) % 2 == 0 ==> decode_spec(w) == Ok::<Instruction, Word>(
            Instruction::AddReg { dr: field_dr(w), sr1: field_sr1(w), sr2: Reg::spec_from_index((w % 8) as int) },
        ),
        w / 4096 == 1 && (w / 32) % 2 == 1 ==> decode_spec(w) == Ok::<Instruction, Word>(
            Instruction::AddImm { dr: field_dr(w), sr1: field_sr1(w), imm5: twos((w % 32) as int, 16) as i16 },
        ),
        w / 4096 == 5 && (w / 32) % 2 == 0 ==> decode_spec(w) == Ok::<Instruction, Word>(
            Instruction::AndReg { dr: field_dr(w), sr1: field_sr1(w), sr2: Reg::spec_from_index((w % 8) as int) },
        ),
        w / 4096 == 5 && (w / 32) % 2 == 1 ==> decode_spec(w) == Ok::<Instruction, Word>(
            Instruction::AndImm { dr: field_dr(w), sr1: field_sr1(w), imm5: twos((w % 32) as int, 16) as i16 },
        ),
        w / 4096 == 9 ==> decode_spec(w) == Ok::<Instruction, Word>(
            Instruction::Not { dr: field_dr(w), sr: field_sr1(w) },
        ),
{
    lemma_fields_arith(w);
    vstd::arithmetic::power2::lemma2_to64();
}

/// How the memory and control words decode: opcode 2 is LD, 10 LDI, 3 ST,
/// 11 STI and 14 LEA, each with a nine bit signed offset; 6 is LDR and 7 STR
/// with a base register and a six bit signed offset; 0 is BR with its n, z, p
/// bits 11, 10, 9; 4 is JSR (bit 11 set, eleven bit offset) or JSRR; 12 is JMP,
/// or RET through R7; 15 is TRAP with the low byte as its vector; 8 is RTI;
/// 13 is reserved.
pub proof fn law_decode_others(w: Word)
    ensures
        w / 4096 == 2 ==> decode_spec(w) == Ok::<Instruction, Word>(
            Instruction::Ld { dr: field_dr(w), offset9: twos((w % 512) as int, 256) as i16 },
        ),
        w / 4096 == 10 ==> decode_spec(w) == Ok::<Instruction, Word>(
            Instruction::Ldi { dr: field_dr(w), offset9: twos((w % 512) as int, 256) as i16 },
        ),
        w / 4096 == 3 ==> decode_spec(w) == Ok::<Instruction, Word>(
            Instruction::St { sr: field_dr(w), offset9: twos((w % 512) as int, 256) as i16 },
        ),
        w / 4096 == 11 ==> decode_spec(w) == Ok::<Instruction, Word>(
            Instruction::Sti { sr: field_dr(w), offset9: twos((w % 512) as int, 256) as i16 },
        ),
        w / 4096 == 14 ==> decode_spec(w) == Ok::<Instruction, Word>(
            Instruction::Lea { dr: field_dr(w), offset9: twos((w % 512) as int, 256) as i16 },
        ),
        w / 4096 == 6 ==> decode_spec(w) == Ok::<Instruction, Word>(
            Instruction::Ldr { dr: field_dr(w), base: field_sr1(w), offset6: twos((w % 64) as int, 32) as i16 },
        ),
        w / 4096 == 7 ==> decode_spec(w) == Ok::<Instruction, Word>(
            Instruction::Str { sr: field_dr(w), base: field_sr1(w), offset6: twos((w % 64) as int, 32) as i16 },
        ),
        w / 4096 == 0 ==> decode_spec(w) == Ok::<Instruction, Word>(
            Instruction::Br {
                n: (w / 2048) % 2 == 1,
                z: (w / 1024) % 2 == 1,
                p: (w / 512) % 2 == 1,
                offset9: twos((w % 512) as int, 256) as i16,
            },
        ),
        w / 4096 == 4 && (w / 2048) % 2 == 1 ==> decode_spec(w) == Ok::<Instruction, Word>(
            Instruction::Jsr { offset11: twos((w % 2048) as int, 1024) as i16 },
        ),
        w / 4096 == 4 && (w / 2048) % 2 == 0 ==> decode_spec(w) == Ok::<Instruction, Word>(
            Instruction::Jsrr { base: field_sr1(w) },
        ),
        w / 4096 == 12 && field_sr1(w) != Reg::R7 ==> decode_spec(w) == Ok::<Instruction, Word>(
            Instruction::Jmp { base: field_sr1(w) },
        ),
        w / 4096 == 12 && field_sr1(w) == Reg::R7 ==> decode_spec(w) == Ok::<Instruction, Word>(Instruction::Ret),
        w / 4096 == 15 ==> decode_spec(w) == Ok::<Instruction, Word>(
            Instruction::Trap { trapvec: (w % 256) as u8 },
        ),
        w / 4096 == 8 ==> decode_spec(w) == Ok::<Instruction, Word>(Instruction::Rti),
        w / 4096 == 13 ==> decode_spec(w) == Err::<Instruction, Word>(w),
{
    lemma_fields_arith(w);
    vstd::arithmetic::power2::lemma2_to64();
}

} // verus!
