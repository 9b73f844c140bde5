//! The BPF interpreter that the node runs its programs with.

use vstd::prelude::*;
use vstd::string::*;

use crate::node::map_storage::MapDef;
use crate::text::{decimal_text, push_decimal};

verus! {

/// The helpers that BPF programs can call.
#[derive(Clone, Copy, Debug, PartialEq, Eq, Structural)]
pub enum Helper {
    I2cRead,
    I2cWrite,
    I2cWriteRead,
    SpiTransfer,
    GpioRead,
    GpioWrite,
    AdcRead,
    Send,
    SendRecv,
    MapLookupElem,
    MapUpdateElem,
    GetTime,
    GetBatteryMv,
    DelayUs,
    SetNextWake,
    BpfTracePrintk,
    SendAsync,
}

/// Errors of a BPF program.
#[derive(Clone, Copy, Debug, PartialEq, Eq)]
pub enum BpfError {
    /// The instruction budget is used up.
    InstructionBudgetExceeded,
    /// Too many nested calls.
    CallDepthExceeded,
    /// The bytecode is malformed.
    InvalidBytecode(&'static str),
    /// A helper was called that is not registered.
    HelperNotRegistered(u32),
    /// The program could not be loaded.
    LoadError(&'static str),
    /// The program failed while it ran.
    RuntimeError(&'static str),
}

/// The text of an error.
pub open spec fn bpf_error_text(error: BpfError) -> Seq<char> {
    match error {
        BpfError::InstructionBudgetExceeded => "instruction budget exceeded"@,
        BpfError::CallDepthExceeded => "call depth exceeded"@,
        BpfError::InvalidBytecode(msg) => "invalid bytecode: "@ + msg@,
        BpfError::HelperNotRegistered(id) => "helper "@ + decimal_text(id as nat)
            + " not registered"@,
        BpfError::LoadError(msg) => "load error: "@ + msg@,
        BpfError::RuntimeError(msg) => "runtime error: "@ + msg@,
    }
}

impl BpfError {
    /// The text of the error.
    pub fn message(&self) -> (text: String)
        ensures
            text@ == bpf_error_text(*self),
    {
        match *self {
            BpfError::InstructionBudgetExceeded => String::from_str("instruction budget exceeded"),
            BpfError::CallDepthExceeded => String::from_str("call depth exceeded"),
            BpfError::InvalidBytecode(msg) => {
                let mut text = String::from_str("invalid bytecode: ");
                text.append(msg);
                text
            },
            BpfError::HelperNotRegistered(id) => {
                let mut text = String::from_str("helper ");
                push_decimal(&mut text, id as u64);
                text.append(" not registered");
                text
            },
            BpfError::LoadError(msg) => {
                let mut text = String::from_str("load error: ");
                text.append(msg);
                text
            },
            BpfError::RuntimeError(msg) => {
                let mut text = String::from_str("runtime error: ");
                text.append(msg);
                text
            },
        }
    }
}

/// A BPF interpreter.
pub trait BpfInterpreter: Sized {
    /// What registering a helper may do.
    open spec fn was_registered(
        pre: Self,
        id: u32,
        helper: Helper,
        post: Self,
        result: Result<(), BpfError>,
    ) -> bool {
        true
    }

    /// Register a helper under a call number.
    fn register_helper(&mut self, id: u32, helper: Helper) -> (result: Result<(), BpfError>)
        ensures
            Self::was_registered(*old(self), id, helper, *final(self), result),
    ;

    /// Load a program, with the addresses and definitions of its maps.
    fn load(&mut self, bytecode: &[u8], map_ptrs: &[u64], map_defs: &[MapDef]) -> Result<
        (),
        BpfError,
    >;

    /// Run the loaded program on the context at `ctx_ptr`.
    fn execute(&mut self, ctx_ptr: u64, instruction_budget: u64) -> Result<u64, BpfError>;
}

/// The text of an error names what has failed and carries its details.
pub proof fn law_bpf_error_texts_carry_details(error: BpfError)
    ensures
        error is InstructionBudgetExceeded ==> bpf_error_text(error)
            == "instruction budget exceeded"@,
        error is CallDepthExceeded ==> bpf_error_text(error) == "call depth exceeded"@,
        error matches BpfError::InvalidBytecode(msg) ==> bpf_error_text(error)
            == "invalid bytecode: "@ + msg@,
        error matches BpfError::HelperNotRegistered(id) ==> bpf_error_text(error) == "helper "@
            + decimal_text(id as nat) + " not registered"@,
        error matches BpfError::LoadError(msg) ==> bpf_error_text(error) == "load error: "@ + msg@,
        error matches BpfError::RuntimeError(msg) ==> bpf_error_text(error) == "runtime error: "@
            + msg@,
{
}

} // verus!
