//! Bit helpers shared by all decoders, the register and operand identities,
//! and the decoders and emitters that several encoding families share.
pub mod effective;
pub mod instruction_flags;
pub mod mode;
pub mod register;
pub mod segment_register;

use vstd::prelude::*;
use crate::instructions::instruction::Instruction;
use crate::instructions::opcode::Opcode;
use crate::text::{ascii, signed_decimal};
use crate::writer::{
    immediate_text,
    memory_operand_text,
    signed_data,
    size_text,
    Writer,
    WriterView,
};

verus! {

/// A register named by an instruction: one of the eight general registers
/// (index 0 to 7) or one of the four segment registers (index 0 to 3).
#[derive(Debug, Copy, Clone, PartialEq, Eq, Structural)]
pub enum InstRegister {
    Reg(u8),
    SegReg(u8),
}

/// The operand selected by the `r/m` field: a register in register mode,
/// otherwise one of the eight effective-address forms.
#[derive(Debug, Copy, Clone, PartialEq, Eq, Structural)]
pub enum RM {
    Reg(InstRegister),
    Eff(u8),
}

/// The `mod` and `r/m` fields of a ModR/M byte.
#[derive(Debug, Copy, Clone, PartialEq, Eq, Structural)]
pub struct InstructionDataFields {
    pub mode: u8,
    pub rm: RM,
}

/// Facts about the bit fields of a byte, relating the shifts and masks of the
/// decoders to the arithmetic of their contracts.
pub proof fn lemma_byte_fields(b: u8)
    by (bit_vector)
    ensures
        b >> 6 == b / 64,
        b >> 3 == b / 8,
        b >> 5 == b / 32,
        b >> 1 == b / 2,
        b & 0b111 == b % 8,
        b & 0b11 == b % 4,
        b & 0b1 == b % 2,
        (b >> 3) & 0b111 == (b / 8) % 8,
        (b >> 3) & 0b11 == (b / 8) % 4,
        (b >> 3) & 0b1 == (b / 8) % 2,
        (b >> 1) & 0b1 == (b / 2) % 2,
        (b >> 5) & 0b1 == (b / 32) % 2,
        ((b >> 3) >> 1) & 0b1 == (b / 16) % 2,
{
}

impl InstRegister {
    /// The index is within the table of its kind.
    pub open spec fn wf(self) -> bool {
        match self {
            InstRegister::Reg(reg) => reg < 8,
            InstRegister::SegReg(reg) => reg < 4,
        }
    }

    /// The index of the register within the table of its kind.
    pub open spec fn index(self) -> u8 {
        match self {
            InstRegister::Reg(reg) => reg,
            InstRegister::SegReg(reg) => reg,
        }
    }

    /// The name of the register in word form: general registers by the word
    /// table, segment registers by the segment table.
    pub open spec fn name(self) -> Seq<char> {
        match self {
            InstRegister::Reg(reg) => word_register_name(reg),
            InstRegister::SegReg(reg) => segment_register_name(reg),
        }
    }

    /// The name of the register as an operand of an instruction of the given
    /// width: a general register by the word or byte table, a segment
    /// register always by the segment table.
    pub open spec fn name_for(self, word: bool) -> Seq<char> {
        match self {
            InstRegister::Reg(reg) => if word {
                word_register_name(reg)
            } else {
                byte_register_name(reg)
            },
            InstRegister::SegReg(reg) => segment_register_name(reg),
        }
    }

    /// The name of the register in word form.
    pub fn to_str(self) -> (name: &'static str)
        requires
            self.wf(),
        ensures
            name@ == self.name(),
            name.is_ascii(),
    {
        match self {
            InstRegister::Reg(reg) => word_register_str(reg),
            InstRegister::SegReg(reg) => segment_register_str(reg),
        }
    }

}

impl From<InstRegister> for u8 {
    /// The index of the register, whatever its kind.
    fn from(val: InstRegister) -> (index: u8) {
        match val {
            InstRegister::Reg(reg) => reg,
            InstRegister::SegReg(reg) => reg,
        }
    }
}

impl vstd::std_specs::convert::FromSpecImpl<InstRegister> for u8 {
    open spec fn obeys_from_spec() -> bool {
        true
    }

    open spec fn from_spec(val: InstRegister) -> u8 {
        val.index()
    }
}

impl RM {
    /// The indices are within their tables.
    pub open spec fn wf(self) -> bool {
        match self {
            RM::Reg(reg) => reg.wf(),
            RM::Eff(eff) => eff < 8,
        }
    }
}

/// Names of the general registers in word form, by index.
pub open spec fn word_register_name(reg: u8) -> Seq<char> {
    if reg == 0 {
        "ax"@
    } else if reg == 1 {
        "cx"@
    } else if reg == 2 {
        "dx"@
    } else if reg == 3 {
        "bx"@
    } else if reg == 4 {
        "sp"@
    } else if reg == 5 {
        "bp"@
    } else if reg == 6 {
        "si"@
    } else {
        "di"@
    }
}

/// Names of the general registers in byte form, by index.
pub open spec fn byte_register_name(reg: u8) -> Seq<char> {
    if reg == 0 {
        "al"@
    } else if reg == 1 {
        "cl"@
    } else if reg == 2 {
        "dl"@
    } else if reg == 3 {
        "bl"@
    } else if reg == 4 {
        "ah"@
    } else if reg == 5 {
        "ch"@
    } else if reg == 6 {
        "dh"@
    } else {
        "bh"@
    }
}

/// Names of the segment registers, by index.
pub open spec fn segment_register_name(reg: u8) -> Seq<char> {
    if reg == 0 {
        "es"@
    } else if reg == 1 {
        "cs"@
    } else if reg == 2 {
        "ss"@
    } else {
        "ds"@
    }
}

/// The opening of each effective-address form, by index; the displacement
/// and the closing bracket follow it.
pub open spec fn effective_address_name(eff: u8) -> Seq<char> {
    if eff == 0 {
        "[bx+si"@
    } else if eff == 1 {
        "[bx+di"@
    } else if eff == 2 {
        "[bp+si"@
    } else if eff == 3 {
        "[bp+di"@
    } else if eff == 4 {
        "[si"@
    } else if eff == 5 {
        "[di"@
    } else if eff == 6 {
        "[bp"@
    } else {
        "[bx"@
    }
}

/// The name of the general register `reg` in word form.
pub fn word_register_str(reg: u8) -> (name: &'static str)
    requires
        reg < 8,
    ensures
        name@ == word_register_name(reg),
        name.is_ascii(),
{
    proof {
        reveal_strlit("ax");
        reveal_strlit("cx");
        reveal_strlit("dx");
        reveal_strlit("bx");
        reveal_strlit("sp");
        reveal_strlit("bp");
        reveal_strlit("si");
        reveal_strlit("di");
    }
    match reg {
        0 => "ax",
        1 => "cx",
        2 => "dx",
        3 => "bx",
        4 => "sp",
        5 => "bp",
        6 => "si",
        _ => "di",
    }
}

/// The name of the general register `reg` in byte form.
pub fn byte_register_str(reg: u8) -> (name: &'static str)
    requires
        reg < 8,
    ensures
        name@ == byte_register_name(reg),
        name.is_ascii(),
{
    proof {
        reveal_strlit("al");
        reveal_strlit("cl");
        reveal_strlit("dl");
        reveal_strlit("bl");
        reveal_strlit("ah");
        reveal_strlit("ch");
        reveal_strlit("dh");
        reveal_strlit("bh");
    }
    match reg {
        0 => "al",
        1 => "cl",
        2 => "dl",
        3 => "bl",
        4 => "ah",
        5 => "ch",
        6 => "dh",
        _ => "bh",
    }
}

/// The name of the segment register `reg`.
pub fn segment_register_str(reg: u8) -> (name: &'static str)
    requires
        reg < 4,
    ensures
        name@ == segment_register_name(reg),
        name.is_ascii(),
{
    proof {
        reveal_strlit("es");
        reveal_strlit("cs");
        reveal_strlit("ss");
        reveal_strlit("ds");
    }
    match reg {
        0 => "es",
        1 => "cs",
        2 => "ss",
        _ => "ds",
    }
}

/// The opening of the effective-address form `eff`.
pub fn effective_address_str(eff: u8) -> (name: &'static str)
    requires
        eff < 8,
    ensures
        name@ == effective_address_name(eff),
        name.is_ascii(),
{
    proof {
        reveal_strlit("[bx+si");
        reveal_strlit("[bx+di");
        reveal_strlit("[bp+si");
        reveal_strlit("[bp+di");
        reveal_strlit("[si");
        reveal_strlit("[di");
        reveal_strlit("[bp");
        reveal_strlit("[bx");
    }
    match eff {
        0 => "[bx+si",
        1 => "[bx+di",
        2 => "[bp+si",
        3 => "[bp+di",
        4 => "[si",
        5 => "[di",
        6 => "[bp",
        _ => "[bx",
    }
}

/// The name of `register` as an operand of a word or byte instruction.
pub fn register_name(register: InstRegister, word: bool) -> (name: &'static str)
    requires
        register.wf(),
    ensures
        name@ == register.name_for(word),
        name.is_ascii(),
{
    match register {
        InstRegister::Reg(reg) => {
            if word {
                word_register_str(reg)
            } else {
                byte_register_str(reg)
            }
        },
        InstRegister::SegReg(reg) => segment_register_str(reg),
    }
}

/// The addressing mode: the two highest bits of a ModR/M byte.
pub open spec fn spec_get_mode(byte: u8) -> u8 {
    byte / 64
}

/// The addressing mode: the two highest bits of a ModR/M byte.
#[verifier::when_used_as_spec(spec_get_mode)]
pub fn get_mode(byte: u8) -> (mode: u8)
    ensures
        mode == spec_get_mode(byte),
        mode < 4,
{
    proof {
        lemma_byte_fields(byte);
    }
    byte >> 6
}

/// The number of displacement bytes that follow a ModR/M byte: none in
/// register mode, one or two with a byte or word displacement, and in memory
/// mode two for the direct address (`r/m` 110) and none otherwise.
pub open spec fn spec_get_displacement_amount(byte: u8) -> u8 {
    let mode = byte / 64;
    if mode == 0 {
        if byte % 8 == 6 {
            2
        } else {
            0
        }
    } else if mode == 1 {
        1
    } else if mode == 2 {
        2
    } else {
        0
    }
}

/// The number of displacement bytes that follow the ModR/M byte `byte`.
#[verifier::when_used_as_spec(spec_get_displacement_amount)]
pub fn get_displacement_amount(byte: u8) -> (amount: u8)
    ensures
        amount == spec_get_displacement_amount(byte),
        amount <= 2,
{
    let mode = get_mode(byte);
    if mode == mode::MEMORY_MODE {
        if get_rm_effective_address(byte) == RM::Eff(effective::BP_OR_DIRECT_ADDRESS) {
            2
        } else {
            0
        }
    } else if mode == mode::BYTE_DISPLACEMENT {
        1
    } else if mode == mode::WORD_DISPLACEMENT {
        2
    } else {
        0
    }
}

/// The value of a byte read as a two's-complement number.
pub open spec fn sign_extend_byte(byte: u8) -> int {
    if byte < 128 {
        byte as int
    } else {
        byte - 256
    }
}

/// The little-endian word made of the two bytes at `offset`.
pub open spec fn word_at(bytes: Seq<u8>, offset: int) -> int {
    bytes[offset] + 256 * bytes[offset + 1]
}

/// The value of a 16-bit word read as a two's-complement number.
pub open spec fn sign_extend_word(word: int) -> int {
    if word < 32768 {
        word
    } else {
        word - 65536
    }
}

/// The displacement of `displacement` bytes at `offset`: a sign-extended byte,
/// a little-endian signed word, or zero for any other width.
pub open spec fn spec_get_disp_value(bytes: Seq<u8>, displacement: u8, offset: int) -> int {
    if displacement == 1 {
        sign_extend_byte(bytes[offset])
    } else if displacement == 2 {
        sign_extend_word(word_at(bytes, offset))
    } else {
        0
    }
}

/// The immediate at `offset`: a little-endian word, or a single byte.
pub open spec fn spec_get_data_value(bytes: Seq<u8>, word: bool, offset: int) -> int {
    if word {
        word_at(bytes, offset)
    } else {
        bytes[offset] as int
    }
}

proof fn lemma_word_bits(lo: u8, hi: u8)
    by (bit_vector)
    ensures
        ((hi as u16) << 8) | (lo as u16) == lo as u16 + 256 * (hi as u16),
        lo as u16 + 256 * (hi as u16) <= 0xffff,
        (lo as i8) as i16 == (if lo < 128 {
            lo as i16
        } else {
            (lo as i16 - 256) as i16
        }),
{
}

proof fn lemma_word_sign(w: u16)
    by (bit_vector)
    ensures
        w as i16 == (if w < 32768 {
            w as i16
        } else {
            (w as i32 - 65536) as i16
        }),
{
}

/// Reads the displacement of `displacement` bytes at `offset`.
pub fn get_disp_value(bytes: &[u8], displacement: u8, offset: usize) -> (disp: i16)
    requires
        displacement == 1 ==> offset < bytes.len(),
        displacement == 2 ==> offset + 1 < bytes.len(),
    ensures
        disp == spec_get_disp_value(bytes@, displacement, offset as int),
{
    if displacement == 1 {
        let byte: u8 = bytes[offset];
        proof {
            lemma_word_bits(byte, 0);
        }
        byte as i8 as i16
    } else if displacement == 2 {
        let lo: u8 = bytes[offset];
        let hi: u8 = bytes[offset + 1];
        let word: u16 = ((hi as u16) << 8) | (lo as u16);
        proof {
            lemma_word_bits(lo, hi);
            lemma_word_sign(word);
        }
        word as i16
    } else {
        0
    }
}

/// Reads the immediate at `offset`, a word or a byte.
pub fn get_data_value(bytes: &[u8], word: bool, offset: usize) -> (data: u16)
    requires
        offset < bytes.len(),
        word ==> offset + 1 < bytes.len(),
    ensures
        data == spec_get_data_value(bytes@, word, offset as int),
{
    if word {
        let lo: u8 = bytes[offset];
        let hi: u8 = bytes[offset + 1];
        proof {
            lemma_word_bits(lo, hi);
        }
        ((hi as u16) << 8) | (lo as u16)
    } else {
        bytes[offset] as u16
    }
}

/// The general register named by the three lowest bits of `value`.
pub open spec fn spec_get_register(value: u8) -> InstRegister {
    InstRegister::Reg(value % 8)
}

/// The general register named by the three lowest bits of `value`.
#[verifier::when_used_as_spec(spec_get_register)]
pub fn get_register(value: u8) -> (register: InstRegister)
    ensures
        register == spec_get_register(value),
        register.wf(),
{
    proof {
        lemma_byte_fields(value);
    }
    InstRegister::Reg(value & 0b111)
}

/// The segment register named by the two lowest bits of `value`.
pub open spec fn spec_get_segment_register(value: u8) -> InstRegister {
    InstRegister::SegReg(value % 4)
}

/// The segment register named by the two lowest bits of `value`.
#[verifier::when_used_as_spec(spec_get_segment_register)]
pub fn get_segment_register(value: u8) -> (register: InstRegister)
    ensures
        register == spec_get_segment_register(value),
        register.wf(),
{
    proof {
        lemma_byte_fields(value);
    }
    InstRegister::SegReg(value & 0b11)
}

/// The operand selected by the three lowest bits of `byte` under `mode`.
pub open spec fn spec_get_rm(byte: u8, mode: u8) -> RM {
    if mode == 3 {
        RM::Reg(InstRegister::Reg(byte % 8))
    } else {
        RM::Eff(byte % 8)
    }
}

/// The operand selected by the three lowest bits of `byte` under `mode`.
#[verifier::when_used_as_spec(spec_get_rm)]
pub fn get_rm(byte: u8, mode: u8) -> (rm: RM)
    ensures
        rm == spec_get_rm(byte, mode),
        rm.wf(),
{
    if mode == mode::REGISTER_MODE {
        RM::Reg(get_register(byte))
    } else {
        get_rm_effective_address(byte)
    }
}

/// The effective-address form named by the three lowest bits of `byte`.
pub fn get_rm_effective_address(byte: u8) -> (rm: RM)
    ensures
        rm == RM::Eff(byte % 8),
        rm.wf(),
{
    proof {
        lemma_byte_fields(byte);
    }
    RM::Eff(byte & 0b111)
}

/// The flags read from the two lowest bits of an opcode byte: bit 0 gives
/// `WORD` and `ZERO`, bit 1 gives `SIGN`, `DIRECTION` and `SHIFT_ROTATE`.
pub open spec fn spec_parse_instruction_flags(byte: u8) -> u8 {
    ((if byte % 2 == 1 {
        17int
    } else {
        0int
    }) + (if (byte / 2) % 2 == 1 {
        14int
    } else {
        0int
    })) as u8
}

/// The flags that the two lowest bits of an opcode byte stand for.
#[verifier::when_used_as_spec(spec_parse_instruction_flags)]
pub fn parse_instruction_flags(byte: u8) -> (flags: u8)
    ensures
        flags == spec_parse_instruction_flags(byte),
        flags <= instruction_flags::SET,
{
    let mut flags: u8 = 0;
    proof {
        lemma_byte_fields(byte);
    }
    let first_flag = byte & 0b1 == 0b1;
    let second_flag = (byte >> 1) & 0b1 == 0b1;
    if first_flag {
        flags = flags + instruction_flags::WORD + instruction_flags::ZERO;
    }
    if second_flag {
        flags = flags + instruction_flags::SIGN + instruction_flags::DIRECTION
            + instruction_flags::SHIFT_ROTATE;
    }
    flags
}

impl InstructionDataFields {
    /// Register mode with `ax`: the fields of a record that has no ModR/M byte.
    pub open spec fn spec_empty() -> InstructionDataFields {
        InstructionDataFields { mode: 3, rm: RM::Reg(InstRegister::Reg(0)) }
    }

    /// Memory mode with the direct-address form.
    pub open spec fn spec_direct_address() -> InstructionDataFields {
        InstructionDataFields { mode: 0, rm: RM::Eff(6) }
    }

    /// The `mod` and `r/m` fields of the ModR/M byte `byte`.
    pub open spec fn spec_parse(byte: u8) -> InstructionDataFields {
        InstructionDataFields { mode: byte / 64, rm: spec_get_rm(byte, byte / 64) }
    }

    /// The indices are within their tables.
    pub open spec fn wf(self) -> bool {
        self.mode < 4 && self.rm.wf()
    }

    /// The fields of a record that has no ModR/M byte: register mode with `ax`.
    #[verifier::when_used_as_spec(spec_empty)]
    pub fn empty() -> (fields: InstructionDataFields)
        ensures
            fields == Self::spec_empty(),
    {
        InstructionDataFields {
            mode: mode::REGISTER_MODE,
            rm: RM::Reg(InstRegister::Reg(register::AX)),
        }
    }

    /// The fields of a direct address: memory mode with `r/m` 110.
    #[verifier::when_used_as_spec(spec_direct_address)]
    pub fn direct_address() -> (fields: InstructionDataFields)
        ensures
            fields == Self::spec_direct_address(),
    {
        InstructionDataFields {
            mode: mode::MEMORY_MODE,
            rm: RM::Eff(effective::BP_OR_DIRECT_ADDRESS),
        }
    }

    /// The `mod` and `r/m` fields of a ModR/M byte.
    #[verifier::when_used_as_spec(spec_parse)]
    pub fn parse(byte: u8) -> (fields: InstructionDataFields)
        ensures
            fields == Self::spec_parse(byte),
            fields.wf(),
    {
        let mode = get_mode(byte);
        let rm = get_rm(byte, mode);
        InstructionDataFields { mode, rm }
    }
}

/// `inst` marked as no instruction: its opcode is `UNKNOWN` and its length
/// zero.
pub open spec fn spec_unknown_instruction(inst: Instruction) -> Instruction {
    Instruction { opcode: Opcode::UNKNOWN, length: 0, ..inst }
}

/// Marks the record as no instruction.
pub fn parse_unknown_instruction(inst: &mut Instruction)
    ensures
        *final(inst) == spec_unknown_instruction(*old(inst)),
{
    inst.opcode = Opcode::UNKNOWN;
    inst.length = 0;
}

/// The record of an encoding made of an opcode byte and a ModR/M byte with
/// its displacement: the flags come from the opcode byte, the register from
/// the `reg` field. Bytes that end before the displacement does are no
/// instruction.
pub open spec fn spec_parse_typical_instruction(
    inst: Instruction,
    opcode: Opcode,
    bytes: Seq<u8>,
) -> Instruction {
    if bytes.len() < 2 || bytes.len() < 2 + spec_get_displacement_amount(bytes[1]) {
        spec_unknown_instruction(inst)
    } else {
        let displacement = spec_get_displacement_amount(bytes[1]);
        Instruction {
            opcode,
            length: (2 + displacement) as u8,
            flags: spec_parse_instruction_flags(bytes[0]),
            register: InstRegister::Reg((bytes[1] / 8) % 8),
            data_fields: InstructionDataFields::spec_parse(bytes[1]),
            disp: spec_get_disp_value(bytes, displacement, 2) as i16,
            ..inst
        }
    }
}

/// Decodes `bytes` into `inst`, as [`spec_parse_typical_instruction`] says.
pub fn parse_typical_instruction(inst: &mut Instruction, opcode: Opcode, bytes: &[u8])
    ensures
        *final(inst) == spec_parse_typical_instruction(*old(inst), opcode, bytes@),
{
    if bytes.len() < 2 {
        parse_unknown_instruction(inst);
        return ;
    }
    let displacement = get_displacement_amount(bytes[1]);
    if bytes.len() < 2 + displacement as usize {
        parse_unknown_instruction(inst);
        return ;
    }
    proof {
        lemma_byte_fields(bytes[1]);
    }
    inst.opcode = opcode;
    inst.length = 2 + displacement;
    inst.flags = parse_instruction_flags(bytes[0]);
    inst.register = get_register(bytes[1] >> 3);
    inst.data_fields = InstructionDataFields::parse(bytes[1]);
    inst.disp = get_disp_value(bytes, displacement, 2);
}

/// The record of a single byte that names a register: all flags are set.
pub open spec fn spec_create_single_byte_instruction(
    inst: Instruction,
    opcode: Opcode,
    register: InstRegister,
) -> Instruction {
    Instruction { opcode, length: 1, flags: instruction_flags::SET, register, ..inst }
}

/// Makes `inst` the record of a single byte that names `register`.
pub fn create_single_byte_instruction(
    inst: &mut Instruction,
    opcode: Opcode,
    register: InstRegister,
)
    ensures
        *final(inst) == spec_create_single_byte_instruction(*old(inst), opcode, register),
{
    inst.opcode = opcode;
    inst.length = 1;
    inst.flags = instruction_flags::SET;
    inst.register = register;
}

/// The record of a single byte that only names the instruction.
pub open spec fn spec_parse_bare_instruction(inst: Instruction, opcode: Opcode) -> Instruction {
    Instruction { opcode, length: 1, ..inst }
}

/// Makes `inst` the record of a single byte that names `opcode`.
pub fn parse_bare_instruction(inst: &mut Instruction, opcode: Opcode)
    ensures
        *final(inst) == spec_parse_bare_instruction(*old(inst), opcode),
{
    inst.opcode = opcode;
    inst.length = 1;
}

/// The operand `rm` of `inst` behind its size qualifier, which stands only
/// before a memory operand.
pub open spec fn spec_write_sized_operand(
    view: WriterView,
    inst: Instruction,
    rm: RM,
) -> WriterView {
    match rm {
        RM::Eff(_) => view.append(size_text(inst)).write_operand(inst, rm),
        RM::Reg(_) => view.write_operand(inst, rm),
    }
}

/// Destination, comma, source.
pub open spec fn spec_write_typical_instruction(view: WriterView, inst: Instruction) -> WriterView {
    view.start_instruction(inst).write_operand(inst, inst.spec_get_destination()).append(
        ascii(", "@),
    ).write_operand(inst, inst.spec_get_source()).end_line()
}

/// Writes the line of the record, as [`spec_write_typical_instruction`] says.
pub fn write_typical_instruction(writer: &mut Writer, instruction: &Instruction)
    requires
        old(writer)@.accepts(*instruction),
    ensures
        final(writer)@ == spec_write_typical_instruction(old(writer)@, *instruction),
        final(writer)@.wf(),
{
    writer.start_instruction(instruction).write_destination(instruction).write_comma_separator()
        .write_source(instruction).end_line();
}

/// Destination, comma, immediate: in hexadecimal for `MOV`, as a signed
/// decimal number for every other instruction.
pub open spec fn spec_write_immediate_instruction(
    view: WriterView,
    inst: Instruction,
) -> WriterView {
    let operands = view.start_instruction(inst).write_operand(
        inst,
        inst.spec_get_destination(),
    ).append(ascii(", "@));
    if inst.opcode == Opcode::MOV {
        operands.append(immediate_text(inst.data, inst)).end_line()
    } else {
        operands.append(signed_decimal(signed_data(inst))).end_line()
    }
}

/// Writes the line of the record, as [`spec_write_immediate_instruction`] says.
pub fn write_immediate_instruction(writer: &mut Writer, instruction: &Instruction)
    requires
        old(writer)@.accepts(*instruction),
    ensures
        final(writer)@ == spec_write_immediate_instruction(old(writer)@, *instruction),
        final(writer)@.wf(),
{
    writer.start_instruction(instruction).write_destination(instruction).write_comma_separator();
    if instruction.opcode == Opcode::MOV {
        writer.write_with_w_flag(instruction.data, instruction);
    } else {
        writer.write_signed_data(instruction);
    }
    writer.end_line();
}

/// The mnemonic alone.
pub open spec fn spec_write_bare_instruction(view: WriterView, inst: Instruction) -> WriterView {
    view.start_instruction(inst).end_line()
}

/// Writes the line of the record, as [`spec_write_bare_instruction`] says.
pub fn write_bare_instruction(writer: &mut Writer, instruction: &Instruction)
    requires
        old(writer)@.accepts(*instruction),
    ensures
        final(writer)@ == spec_write_bare_instruction(old(writer)@, *instruction),
        final(writer)@.wf(),
{
    writer.start_instruction(instruction).end_line();
}

/// The register or memory operand, qualified by its size if it is in memory.
pub open spec fn spec_write_memory_or_register_instruction(
    view: WriterView,
    inst: Instruction,
) -> WriterView {
    spec_write_sized_operand(view.start_instruction(inst), inst, inst.data_fields.rm).end_line()
}

/// Writes the line of the record, as [`spec_write_memory_or_register_instruction`] says.
pub fn write_memory_or_register_instruction(writer: &mut Writer, inst: &Instruction)
    requires
        old(writer)@.accepts(*inst),
    ensures
        final(writer)@ == spec_write_memory_or_register_instruction(old(writer)@, *inst),
        final(writer)@.wf(),
{
    writer.start_instruction(inst);
    if let RM::Eff(_) = inst.data_fields.rm {
        writer.write_size(inst);
    }
    writer.write_rm(inst).end_line();
}

/// Memory mode with `r/m` 110 is a direct address and not `[bp]`: two
/// displacement bytes follow the ModR/M byte, they are read as the address,
/// and the operand is rendered as that address in brackets.
pub proof fn lemma_direct_address(inst: Instruction, opcode: Opcode, bytes: Seq<u8>)
    requires
        bytes.len() >= 4,
        bytes[1] / 64 == 0,
        bytes[1] % 8 == 6,
    ensures
        spec_get_displacement_amount(bytes[1]) == 2,
        ({
            let parsed = spec_parse_typical_instruction(inst, opcode, bytes);
            &&& parsed.length == 4
            &&& parsed.data_fields == InstructionDataFields::spec_direct_address()
            &&& parsed.disp == sign_extend_word(word_at(bytes, 2))
            &&& memory_operand_text(parsed, 6) == ascii("["@) + signed_decimal(parsed.disp as int)
                + ascii("]"@)
        }),
{
}

} // verus!
