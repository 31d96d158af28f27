//! Parsing and validation of EOF-style bytecode containers, and a single-step
//! control-flow simulator for their code sections.
pub mod catalog;
pub mod error;
pub mod laws;
pub mod opcodes;
pub mod parser;
pub mod stepper;
pub mod validator;

pub use catalog::SectionKind;
pub use error::EOFError;
pub use parser::{parse_eof_container, EOFContainer, EOFHeader, SectionHeader, EOF_MAGIC, EOF_VERSION};
pub use validator::validate_eof_container;
pub use stepper::{simulate_eof_step, SimulatedStack};
pub use opcodes::{
    ADD, INVALID, JUMP, JUMPI, PC, PUSH1, PUSH2, PUSH32, RJUMP, RJUMPI, SELFDESTRUCT,
};
