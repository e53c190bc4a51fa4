//! The panels of the emulator's window.
use vstd::prelude::*;

verus! {

/// A panel of the emulator's window.
#[derive(PartialEq, Eq, Structural, Debug, Clone, Copy)]
pub enum Chip8Tab {
    CentralDisplay,
    Controls,
    Registers,
    MemoryViewer,
    InstructionHistory,
}

/// The title shown on a panel's tab.
pub open spec fn title_spec(tab: Chip8Tab) -> Seq<char> {
    match tab {
        Chip8Tab::CentralDisplay => "Chip 8"@,
        Chip8Tab::Controls => "Controls"@,
        Chip8Tab::Registers => "Registers"@,
        Chip8Tab::MemoryViewer => "Memory"@,
        Chip8Tab::InstructionHistory => "Instruction History"@,
    }
}

impl Chip8Tab {
    /// The title shown on this panel's tab.
    pub fn title(&self) -> (title: &'static str)
        ensures
            title@ == title_spec(*self),
    {
        match self {
            Chip8Tab::CentralDisplay => "Chip 8",
            Chip8Tab::Controls => "Controls",
            Chip8Tab::Registers => "Registers",
            Chip8Tab::MemoryViewer => "Memory",
            Chip8Tab::InstructionHistory => "Instruction History",
        }
    }
}

} // verus!
