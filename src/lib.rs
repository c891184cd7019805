//! A small stack machine for the picoc assembly language: a two-pass
//! assembler from source text to instructions, and an execution engine
//! that runs them one step at a time.

pub mod decode;
pub mod error;
pub mod label;
pub mod opcode;
pub mod text;
pub mod vm;

pub use decode::{load_inst, load_label, split_code};
pub use error::Error;
pub use error::Fault;
pub use label::LabelTable;
pub use opcode::Opcode;
pub use opcode::Instr;
pub use text::include_only_whitespace;
pub use vm::{lemma_call_ret, lemma_enter_leave, lemma_load_discards_earlier, lemma_run_past_end, Machine, PicocVm, Registers, RUN_STEP_LIMIT, VM_INST_MEMORY_SIZE, VM_STACK_SIZE};
