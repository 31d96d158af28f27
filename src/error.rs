use crate::catalog::SectionKind;
use vstd::prelude::*;
use vstd::string::StringExecFns;

verus! {

/// Every failure the parser, the validator and the stepper can report.
#[derive(Debug, Clone, Copy, PartialEq, Eq, Structural)]
pub enum EOFError {
    InvalidMagic,
    InvalidVersion(u8),
    MissingTerminator,
    UnexpectedEndOfInput,
    InvalidSectionKind(u8),
    SectionSizeMismatch,
    TooManySections,
    DuplicateSection(SectionKind),
    MalformedSectionHeader,
    UnsupportedSectionKind(u8),
    InvalidOpcode(u8),
    TruncatedPushData,
    JumpDestForbidden(u8),
    StackUnderflow,
    StackOverflow,
}

/// The digit of value `d` in base 16 (and so in base 10 below ten).
pub open spec fn digit_char(d: int) -> char {
    seq!['0', '1', '2', '3', '4', '5', '6', '7', '8', '9', 'a', 'b', 'c', 'd', 'e', 'f'][d]
}

/// `v` in decimal, without leading zeros.
pub open spec fn decimal(v: u8) -> Seq<char> {
    let n = v as int;
    if n >= 100 {
        seq![digit_char(n / 100), digit_char((n / 10) % 10), digit_char(n % 10)]
    } else if n >= 10 {
        seq![digit_char(n / 10), digit_char(n % 10)]
    } else {
        seq![digit_char(n)]
    }
}

/// `v` as two lower-case hexadecimal digits.
pub open spec fn hex2(v: u8) -> Seq<char> {
    seq![digit_char(v as int / 16), digit_char(v as int % 16)]
}

pub open spec fn kind_name(k: SectionKind) -> Seq<char> {
    match k {
        SectionKind::Type => "Type"@,
        SectionKind::Code => "Code"@,
        SectionKind::Container => "Container"@,
        SectionKind::Data => "Data"@,
    }
}

/// The human-readable text of an error.
pub open spec fn message_of(e: EOFError) -> Seq<char> {
    match e {
        EOFError::InvalidMagic => "Invalid EOF magic number"@,
        EOFError::InvalidVersion(v) => "Invalid EOF version: "@ + decimal(v),
        EOFError::MissingTerminator => "Missing EOF section terminator (0x00)"@,
        EOFError::UnexpectedEndOfInput => "Unexpected end of input during parsing"@,
        EOFError::InvalidSectionKind(k) => "Invalid section kind: "@ + decimal(k),
        EOFError::SectionSizeMismatch => "Declared section size does not match actual content size"@,
        EOFError::TooManySections => "Too many sections of a certain kind"@,
        EOFError::DuplicateSection(k) => "Duplicate section kind: "@ + kind_name(k),
        EOFError::MalformedSectionHeader => "Malformed section header"@,
        EOFError::UnsupportedSectionKind(k) => "Unsupported section kind: "@ + decimal(k),
        EOFError::InvalidOpcode(op) => "Code section contains invalid opcode: 0x"@ + hex2(op),
        EOFError::TruncatedPushData => "Code section contains truncated PUSH data"@,
        EOFError::JumpDestForbidden(op) => "Forbidden JUMPDEST related opcode in EOF: 0x"@ + hex2(
            op,
        ),
        EOFError::StackUnderflow => "Simulated stack underflow"@,
        EOFError::StackOverflow => "Simulated stack overflow"@,
    }
}

fn digit_str(d: u8) -> (r: &'static str)
    requires
        d < 16,
    ensures
        r@ == seq![digit_char(d as int)],
{
    match d {
        0 => {
            proof {
                reveal_strlit("0");
            }
            "0"
        },
        1 => {
            proof {
                reveal_strlit("1");
            }
            "1"
        },
        2 => {
            proof {
                reveal_strlit("2");
            }
            "2"
        },
        3 => {
            proof {
                reveal_strlit("3");
            }
            "3"
        },
        4 => {
            proof {
                reveal_strlit("4");
            }
            "4"
        },
        5 => {
            proof {
                reveal_strlit("5");
            }
            "5"
        },
        6 => {
            proof {
                reveal_strlit("6");
            }
            "6"
        },
        7 => {
            proof {
                reveal_strlit("7");
            }
            "7"
        },
        8 => {
            proof {
                reveal_strlit("8");
            }
            "8"
        },
        9 => {
            proof {
                reveal_strlit("9");
            }
            "9"
        },
        10 => {
            proof {
                reveal_strlit("a");
            }
            "a"
        },
        11 => {
            proof {
                reveal_strlit("b");
            }
            "b"
        },
        12 => {
            proof {
                reveal_strlit("c");
            }
            "c"
        },
        13 => {
            proof {
                reveal_strlit("d");
            }
            "d"
        },
        14 => {
            proof {
                reveal_strlit("e");
            }
            "e"
        },
        _ => {
            proof {
                reveal_strlit("f");
            }
            "f"
        },
    }
}

fn append_decimal(s: &mut String, v: u8)
    ensures
        final(s)@ == old(s)@ + decimal(v),
{
    if v >= 100 {
        s.append(digit_str(v / 100));
    }
    if v >= 10 {
        s.append(digit_str((v / 10) % 10));
    }
    s.append(digit_str(v % 10));
}

fn append_hex2(s: &mut String, v: u8)
    ensures
        final(s)@ == old(s)@ + hex2(v),
{
    s.append(digit_str(v / 16));
    s.append(digit_str(v % 16));
}

fn with_decimal(prefix: &str, v: u8) -> (r: String)
    ensures
        r@ == prefix@ + decimal(v),
{
    let mut s = String::from_str(prefix);
    append_decimal(&mut s, v);
    s
}

fn with_hex2(prefix: &str, v: u8) -> (r: String)
    ensures
        r@ == prefix@ + hex2(v),
{
    let mut s = String::from_str(prefix);
    append_hex2(&mut s, v);
    s
}

impl EOFError {
    /// Describes the error in words, with the byte or kind it concerns.
    pub fn message(&self) -> (r: String)
        ensures
            r@ == message_of(*self),
    {
        match self {
            EOFError::InvalidMagic => String::from_str("Invalid EOF magic number"),
            EOFError::InvalidVersion(v) => with_decimal("Invalid EOF version: ", *v),
            EOFError::MissingTerminator => String::from_str("Missing EOF section terminator (0x00)"),
            EOFError::UnexpectedEndOfInput => String::from_str(
                "Unexpected end of input during parsing",
            ),
            EOFError::InvalidSectionKind(k) => with_decimal("Invalid section kind: ", *k),
            EOFError::SectionSizeMismatch => String::from_str(
                "Declared section size does not match actual content size",
            ),
            EOFError::TooManySections => String::from_str("Too many sections of a certain kind"),
            EOFError::DuplicateSection(k) => {
                let mut s = String::from_str("Duplicate section kind: ");
                let name = match k {
                    SectionKind::Type => "Type",
                    SectionKind::Code => "Code",
                    SectionKind::Container => "Container",
                    SectionKind::Data => "Data",
                };
                s.append(name);
                s
            },
            EOFError::MalformedSectionHeader => String::from_str("Malformed section header"),
            EOFError::UnsupportedSectionKind(k) => with_decimal("Unsupported section kind: ", *k),
            EOFError::InvalidOpcode(op) => with_hex2("Code section contains invalid opcode: 0x", *op),
            EOFError::TruncatedPushData => String::from_str(
                "Code section contains truncated PUSH data",
            ),
            EOFError::JumpDestForbidden(op) => with_hex2(
                "Forbidden JUMPDEST related opcode in EOF: 0x",
                *op,
            ),
            EOFError::StackUnderflow => String::from_str("Simulated stack underflow"),
            EOFError::StackOverflow => String::from_str("Simulated stack overflow"),
        }
    }
}

} // verus!
