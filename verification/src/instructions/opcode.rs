//! The closed set of instruction identities and their mnemonics.
use vstd::prelude::*;

verus! {

/// The identity of a decoded instruction. `LOCK`, `REP` and `SEGMENT` are the
/// prefixes, which are decoded as records of their own; `UNKNOWN` stands for
/// a byte sequence that is no instruction.
#[allow(non_camel_case_types)]
#[derive(Debug, Copy, Clone, PartialEq, Eq, Structural)]
pub enum Opcode {
    // data transfer
    MOV,
    PUSH,
    POP,
    XCHG,
    IN,
    OUT,
    XLAT,
    LEA,
    LDS,
    LES,
    LAHF,
    SAHF,
    PUSHF,
    POPF,
    // arithmetic
    ADD,
    ADC,
    INC,
    AAA,
    DAA,
    SUB,
    SBB,
    DEC,
    NEG,
    CMP,
    AAS,
    DAS,
    MUL,
    IMUL,
    AAM,
    DIV,
    IDIV,
    AAD,
    CBW,
    CWD,
    // logic
    NOT,
    SAL,
    SHR,
    SAR,
    ROL,
    ROR,
    RCL,
    RCR,
    AND,
    TEST,
    OR,
    XOR,
    // string manipulation
    MOVSB,
    MOVSW,
    CMPSB,
    CMPSW,
    SCASB,
    SCASW,
    LODSB,
    LODSW,
    STOSB,
    STOSW,
    // control transfer
    CALL,
    JMP,
    RET,
    RETF,
    JE,
    JL,
    JLE,
    JB,
    JBE,
    JP,
    JO,
    JS,
    JNE,
    JGE,
    JG,
    JAE,
    JA,
    JNP,
    JNO,
    JNS,
    LOOP,
    LOOPZ,
    LOOPNZ,
    JCXZ,
    INT,
    INT3,
    INTO,
    IRET,
    // processor control
    CLC,
    CMC,
    STC,
    CLD,
    STD,
    CLI,
    STI,
    HLT,
    WAIT,
    NOP,
    // prefixes, decoded as records of their own
    LOCK,
    REP,
    SEGMENT,
    // no instruction
    UNKNOWN,
}

/// Whether a character may stand in a mnemonic: a lowercase letter or a digit.
pub open spec fn is_mnemonic_char(c: char) -> bool {
    ('a' <= c && c <= 'z') || ('0' <= c && c <= '9')
}

impl Opcode {
    /// The mnemonic of the opcode as NASM writes it.
    pub open spec fn mnemonic(self) -> Seq<char> {
        match self {
            Opcode::MOV => "mov"@,
            Opcode::PUSH => "push"@,
            Opcode::POP => "pop"@,
            Opcode::XCHG => "xchg"@,
            Opcode::IN => "in"@,
            Opcode::OUT => "out"@,
            Opcode::XLAT => "xlat"@,
            Opcode::LEA => "lea"@,
            Opcode::LDS => "lds"@,
            Opcode::LES => "les"@,
            Opcode::LAHF => "lahf"@,
            Opcode::SAHF => "sahf"@,
            Opcode::PUSHF => "pushf"@,
            Opcode::POPF => "popf"@,
            Opcode::ADD => "add"@,
            Opcode::ADC => "adc"@,
            Opcode::INC => "inc"@,
            Opcode::AAA => "aaa"@,
            Opcode::DAA => "daa"@,
            Opcode::SUB => "sub"@,
            Opcode::SBB => "sbb"@,
            Opcode::DEC => "dec"@,
            Opcode::NEG => "neg"@,
            Opcode::CMP => "cmp"@,
            Opcode::AAS => "aas"@,
            Opcode::DAS => "das"@,
            Opcode::MUL => "mul"@,
            Opcode::IMUL => "imul"@,
            Opcode::AAM => "aam"@,
            Opcode::DIV => "div"@,
            Opcode::IDIV => "idiv"@,
            Opcode::AAD => "aad"@,
            Opcode::CBW => "cbw"@,
            Opcode::CWD => "cwd"@,
            Opcode::NOT => "not"@,
            Opcode::SAL => "sal"@,
            Opcode::SHR => "shr"@,
            Opcode::SAR => "sar"@,
            Opcode::ROL => "rol"@,
            Opcode::ROR => "ror"@,
            Opcode::RCL => "rcl"@,
            Opcode::RCR => "rcr"@,
            Opcode::AND => "and"@,
            Opcode::TEST => "test"@,
            Opcode::OR => "or"@,
            Opcode::XOR => "xor"@,
            Opcode::MOVSB => "movsb"@,
            Opcode::MOVSW => "movsw"@,
            Opcode::CMPSB => "cmpsb"@,
            Opcode::CMPSW => "cmpsw"@,
            Opcode::SCASB => "scasb"@,
            Opcode::SCASW => "scasw"@,
            Opcode::LODSB => "lodsb"@,
            Opcode::LODSW => "lodsw"@,
            Opcode::STOSB => "stosb"@,
            Opcode::STOSW => "stosw"@,
            Opcode::CALL => "call"@,
            Opcode::JMP => "jmp"@,
            Opcode::RET => "ret"@,
            Opcode::RETF => "retf"@,
            Opcode::JE => "je"@,
            Opcode::JL => "jl"@,
            Opcode::JLE => "jle"@,
            Opcode::JB => "jb"@,
            Opcode::JBE => "jbe"@,
            Opcode::JP => "jp"@,
            Opcode::JO => "jo"@,
            Opcode::JS => "js"@,
            Opcode::JNE => "jne"@,
            Opcode::JGE => "jge"@,
            Opcode::JG => "jg"@,
            Opcode::JAE => "jae"@,
            Opcode::JA => "ja"@,
            Opcode::JNP => "jnp"@,
            Opcode::JNO => "jno"@,
            Opcode::JNS => "jns"@,
            Opcode::LOOP => "loop"@,
            Opcode::LOOPZ => "loopz"@,
            Opcode::LOOPNZ => "loopnz"@,
            Opcode::JCXZ => "jcxz"@,
            Opcode::INT => "int"@,
            Opcode::INT3 => "int3"@,
            Opcode::INTO => "into"@,
            Opcode::IRET => "iret"@,
            Opcode::CLC => "clc"@,
            Opcode::CMC => "cmc"@,
            Opcode::STC => "stc"@,
            Opcode::CLD => "cld"@,
            Opcode::STD => "std"@,
            Opcode::CLI => "cli"@,
            Opcode::STI => "sti"@,
            Opcode::HLT => "hlt"@,
            Opcode::WAIT => "wait"@,
            Opcode::NOP => "nop"@,
            Opcode::LOCK => "lock"@,
            Opcode::REP => "rep"@,
            Opcode::SEGMENT => "segment"@,
            Opcode::UNKNOWN => "unknown"@,
        }
    }

    /// Whether the opcode is one of the prefixes, which attach to the
    /// instruction that follows them.
    pub open spec fn spec_is_prefix(self) -> bool {
        self == Opcode::LOCK || self == Opcode::REP || self == Opcode::SEGMENT
    }

    /// Whether the opcode is a prefix.
    #[verifier::when_used_as_spec(spec_is_prefix)]
    pub fn is_prefix(self) -> (prefix: bool)
        ensures
            prefix == self.spec_is_prefix(),
    {
        match self {
            Opcode::LOCK | Opcode::REP | Opcode::SEGMENT => true,
            _ => false,
        }
    }

    /// The mnemonic of the opcode.
    pub fn get_mnemonic(self) -> (name: &'static str)
        ensures
            name@ == self.mnemonic(),
            name.is_ascii(),
    {
        proof {
            self.lemma_mnemonic_lowercase();
        }
        match self {
            Opcode::MOV => "mov",
            Opcode::PUSH => "push",
            Opcode::POP => "pop",
            Opcode::XCHG => "xchg",
            Opcode::IN => "in",
            Opcode::OUT => "out",
            Opcode::XLAT => "xlat",
            Opcode::LEA => "lea",
            Opcode::LDS => "lds",
            Opcode::LES => "les",
            Opcode::LAHF => "lahf",
            Opcode::SAHF => "sahf",
            Opcode::PUSHF => "pushf",
            Opcode::POPF => "popf",
            Opcode::ADD => "add",
            Opcode::ADC => "adc",
            Opcode::INC => "inc",
            Opcode::AAA => "aaa",
            Opcode::DAA => "daa",
            Opcode::SUB => "sub",
            Opcode::SBB => "sbb",
            Opcode::DEC => "dec",
            Opcode::NEG => "neg",
            Opcode::CMP => "cmp",
            Opcode::AAS => "aas",
            Opcode::DAS => "das",
            Opcode::MUL => "mul",
            Opcode::IMUL => "imul",
            Opcode::AAM => "aam",
            Opcode::DIV => "div",
            Opcode::IDIV => "idiv",
            Opcode::AAD => "aad",
            Opcode::CBW => "cbw",
            Opcode::CWD => "cwd",
            Opcode::NOT => "not",
            Opcode::SAL => "sal",
            Opcode::SHR => "shr",
            Opcode::SAR => "sar",
            Opcode::ROL => "rol",
            Opcode::ROR => "ror",
            Opcode::RCL => "rcl",
            Opcode::RCR => "rcr",
            Opcode::AND => "and",
            Opcode::TEST => "test",
            Opcode::OR => "or",
            Opcode::XOR => "xor",
            Opcode::MOVSB => "movsb",
            Opcode::MOVSW => "movsw",
            Opcode::CMPSB => "cmpsb",
            Opcode::CMPSW => "cmpsw",
            Opcode::SCASB => "scasb",
            Opcode::SCASW => "scasw",
            Opcode::LODSB => "lodsb",
            Opcode::LODSW => "lodsw",
            Opcode::STOSB => "stosb",
            Opcode::STOSW => "stosw",
            Opcode::CALL => "call",
            Opcode::JMP => "jmp",
            Opcode::RET => "ret",
            Opcode::RETF => "retf",
            Opcode::JE => "je",
            Opcode::JL => "jl",
            Opcode::JLE => "jle",
            Opcode::JB => "jb",
            Opcode::JBE => "jbe",
            Opcode::JP => "jp",
            Opcode::JO => "jo",
            Opcode::JS => "js",
            Opcode::JNE => "jne",
            Opcode::JGE => "jge",
            Opcode::JG => "jg",
            Opcode::JAE => "jae",
            Opcode::JA => "ja",
            Opcode::JNP => "jnp",
            Opcode::JNO => "jno",
            Opcode::JNS => "jns",
            Opcode::LOOP => "loop",
            Opcode::LOOPZ => "loopz",
            Opcode::LOOPNZ => "loopnz",
            Opcode::JCXZ => "jcxz",
            Opcode::INT => "int",
            Opcode::INT3 => "int3",
            Opcode::INTO => "into",
            Opcode::IRET => "iret",
            Opcode::CLC => "clc",
            Opcode::CMC => "cmc",
            Opcode::STC => "stc",
            Opcode::CLD => "cld",
            Opcode::STD => "std",
            Opcode::CLI => "cli",
            Opcode::STI => "sti",
            Opcode::HLT => "hlt",
            Opcode::WAIT => "wait",
            Opcode::NOP => "nop",
            Opcode::LOCK => "lock",
            Opcode::REP => "rep",
            Opcode::SEGMENT => "segment",
            Opcode::UNKNOWN => "unknown",
        }
    }

    /// Every mnemonic is non-empty and is made of lowercase letters and
    /// digits only.
    pub proof fn lemma_mnemonic_lowercase(self)
        ensures
            self.mnemonic().len() > 0,
            forall|i: int|
                0 <= i < self.mnemonic().len() ==> is_mnemonic_char(#[trigger] self.mnemonic()[i]),
    {
        reveal_strlit("mov");
        reveal_strlit("push");
        reveal_strlit("pop");
        reveal_strlit("xchg");
        reveal_strlit("in");
        reveal_strlit("out");
        reveal_strlit("xlat");
        reveal_strlit("lea");
        reveal_strlit("lds");
        reveal_strlit("les");
        reveal_strlit("lahf");
        reveal_strlit("sahf");
        reveal_strlit("pushf");
        reveal_strlit("popf");
        reveal_strlit("add");
        reveal_strlit("adc");
        reveal_strlit("inc");
        reveal_strlit("aaa");
        reveal_strlit("daa");
        reveal_strlit("sub");
        reveal_strlit("sbb");
        reveal_strlit("dec");
        reveal_strlit("neg");
        reveal_strlit("cmp");
        reveal_strlit("aas");
        reveal_strlit("das");
        reveal_strlit("mul");
        reveal_strlit("imul");
        reveal_strlit("aam");
        reveal_strlit("div");
        reveal_strlit("idiv");
        reveal_strlit("aad");
        reveal_strlit("cbw");
        reveal_strlit("cwd");
        reveal_strlit("not");
        reveal_strlit("sal");
        reveal_strlit("shr");
        reveal_strlit("sar");
        reveal_strlit("rol");
        reveal_strlit("ror");
        reveal_strlit("rcl");
        reveal_strlit("rcr");
        reveal_strlit("and");
        reveal_strlit("test");
        reveal_strlit("or");
        reveal_strlit("xor");
        reveal_strlit("movsb");
        reveal_strlit("movsw");
        reveal_strlit("cmpsb");
        reveal_strlit("cmpsw");
        reveal_strlit("scasb");
        reveal_strlit("scasw");
        reveal_strlit("lodsb");
        reveal_strlit("lodsw");
        reveal_strlit("stosb");
        reveal_strlit("stosw");
        reveal_strlit("call");
        reveal_strlit("jmp");
        reveal_strlit("ret");
        reveal_strlit("retf");
        reveal_strlit("je");
        reveal_strlit("jl");
        reveal_strlit("jle");
        reveal_strlit("jb");
        reveal_strlit("jbe");
        reveal_strlit("jp");
        reveal_strlit("jo");
        reveal_strlit("js");
        reveal_strlit("jne");
        reveal_strlit("jge");
        reveal_strlit("jg");
        reveal_strlit("jae");
        reveal_strlit("ja");
        reveal_strlit("jnp");
        reveal_strlit("jno");
        reveal_strlit("jns");
        reveal_strlit("loop");
        reveal_strlit("loopz");
        reveal_strlit("loopnz");
        reveal_strlit("jcxz");
        reveal_strlit("int");
        reveal_strlit("int3");
        reveal_strlit("into");
        reveal_strlit("iret");
        reveal_strlit("clc");
        reveal_strlit("cmc");
        reveal_strlit("stc");
        reveal_strlit("cld");
        reveal_strlit("std");
        reveal_strlit("cli");
        reveal_strlit("sti");
        reveal_strlit("hlt");
        reveal_strlit("wait");
        reveal_strlit("nop");
        reveal_strlit("lock");
        reveal_strlit("rep");
        reveal_strlit("segment");
        reveal_strlit("unknown");
    }
}

} // verus!
