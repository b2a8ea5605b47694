//! A thermal receipt printer emulator: a resumable decoder for an
//! ESC/POS-style byte stream, the printer state machine it drives, and the
//! emulator state that keeps a bounded history of applied commands.

pub mod commands;
pub mod emulator;
pub mod parser;
pub mod printer;

pub use commands::{CommandModel, EscPosCommand, Font, Justification};
pub use emulator::{CommandEntry, EmulatorState, StatusSummary};
pub use parser::EscPosParser;
pub use printer::{PaperWidth, PrinterState};
