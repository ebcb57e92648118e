//! The identity of an execution unit.

use vstd::prelude::*;

verus! {

/// What an execution unit knows of itself. Each unit is handed its own
/// when it is brought up, and hands it to the code that it runs.
#[derive(Copy, Clone, Debug, PartialEq, Eq, Structural)]
pub struct Cpu {
    /// The number of the unit: 0 for the unit that boots the machine.
    pub id: usize,
}

impl Cpu {
    /// The execution unit with the number `id`.
    pub fn new(id: usize) -> (cpu: Cpu)
        ensures
            cpu.id == id,
    {
        Cpu { id }
    }
}

/// The number of the execution unit `cpu`.
pub fn cpu_id(cpu: &Cpu) -> (id: usize)
    ensures
        id == cpu.id,
{
    cpu.id
}

} // verus!
