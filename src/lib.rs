//! The central processor of an 18-bit, ones'-complement minicomputer: an
//! instruction decoder and a fetch-decode-execute engine over a 4096-word core
//! memory, with every effect stated as a contract and proved.

pub mod execute;
pub mod instruction;
pub mod laws;
pub mod machine;
pub mod word;

pub use execute::{execute_instruction, execute_instruction_limited, run, step, XCT_DEPTH_LIMIT};
pub use instruction::{decode_instruction, Instruction};
pub use machine::State;
pub use word::{ones_complement_sub, ADDR_MASK, DATA_MASK, MEMORY_WORDS};
