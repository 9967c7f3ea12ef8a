//! Software breakpoints: the trap opcode that is patched over the code of the
//! target, the bytes it replaces, and the order in which the target's memory
//! is unprotected, written, flushed and protected again.
//!
//! The engine does not touch the target itself. It says which request to make
//! next; whoever owns the target makes it and reports how it went.

use vstd::prelude::*;
use crate::table::EngineError;

verus! {

/// Page protection that lets the patch be written: execute, read and write.
pub const PAGE_EXECUTE_READWRITE: u32 = 0x40;

/// The trap that a breakpoint patches in.
#[derive(Copy, Clone, Debug, PartialEq, Eq, Structural)]
pub enum BreakpointType {
    /// `int3`, one byte.
    Int3,
    /// `int 3` with its immediate, two bytes.
    Int3Imm,
    /// `ud2`, two bytes.
    Ud2,
}

impl BreakpointType {
    /// The bytes of the trap.
    pub open spec fn opcode(self) -> Seq<u8> {
        match self {
            BreakpointType::Int3 => seq![0xCCu8],
            BreakpointType::Int3Imm => seq![0xCDu8, 0x03u8],
            BreakpointType::Ud2 => seq![0x0Fu8, 0x0Bu8],
        }
    }

    /// The bytes of the trap.
    pub fn instruction(&self) -> (r: Vec<u8>)
        ensures
            r@ == self.opcode(),
            1 <= r@.len() <= 2,
    {
        let mut bytes: Vec<u8> = Vec::new();
        match self {
            BreakpointType::Int3 => {
                bytes.push(0xCC);
            },
            BreakpointType::Int3Imm => {
                bytes.push(0xCD);
                bytes.push(0x03);
            },
            BreakpointType::Ud2 => {
                bytes.push(0x0F);
                bytes.push(0x0B);
            },
        }
        proof {
            assert(bytes@ =~= self.opcode());
        }
        bytes
    }

    /// Number of bytes of the trap.
    pub fn length(&self) -> (r: usize)
        ensures
            r == self.opcode().len(),
            1 <= r <= 2,
    {
        match self {
            BreakpointType::Int3 => 1,
            BreakpointType::Int3Imm => 2,
            BreakpointType::Ud2 => 2,
        }
    }
}

/// Where a patch stands.
#[derive(Copy, Clone, Debug, PartialEq, Eq, Structural)]
pub enum PatchStage {
    /// Next the pages are made writable.
    Unprotect,
    /// Next the bytes are written.
    Write,
    /// Next the instruction cache is flushed.
    Flush,
    /// Next the pages get their earlier protection back.
    Reprotect,
    /// Nothing is left to do.
    Done,
}

/// What to do next with the memory of the target.
#[derive(Debug, PartialEq, Eq)]
pub enum MemoryRequest {
    /// Set the protection of `length` bytes at `address`, and report the
    /// protection they had.
    Protect { address: u64, length: usize, protection: u32 },
    /// Write `bytes` at `address`.
    Write { address: u64, bytes: Vec<u8> },
    /// Flush the instruction cache for `length` bytes at `address`.
    Flush { address: u64, length: usize },
    /// The patch is over, and this is how it went.
    Finished { result: Result<(), EngineError> },
}

/// What a `MemoryRequest` holds, with its bytes as a sequence.
pub ghost enum RequestSpec {
    Protect { address: u64, length: usize, protection: u32 },
    Write { address: u64, bytes: Seq<u8> },
    Flush { address: u64, length: usize },
    Finished { result: Result<(), EngineError> },
}

impl View for MemoryRequest {
    type V = RequestSpec;

    open spec fn view(&self) -> RequestSpec {
        match self {
            MemoryRequest::Protect { address, length, protection } => RequestSpec::Protect {
                address: *address,
                length: *length,
                protection: *protection,
            },
            MemoryRequest::Write { address, bytes } => RequestSpec::Write { address: *address, bytes: bytes@ },
            MemoryRequest::Flush { address, length } => RequestSpec::Flush { address: *address, length: *length },
            MemoryRequest::Finished { result } => RequestSpec::Finished { result: *result },
        }
    }
}

/// The state of a patch as a plain value.
pub ghost struct PatchState {
    pub address: u64,
    pub bytes: Seq<u8>,
    pub stage: PatchStage,
    pub previous: u32,
    pub failed: bool,
}

impl PatchState {
    /// The request that the patch makes in this state.
    pub open spec fn request(self) -> RequestSpec {
        match self.stage {
            PatchStage::Unprotect => RequestSpec::Protect {
                address: self.address,
                length: self.bytes.len() as usize,
                protection: PAGE_EXECUTE_READWRITE,
            },
            PatchStage::Write => RequestSpec::Write { address: self.address, bytes: self.bytes },
            PatchStage::Flush => RequestSpec::Flush { address: self.address, length: self.bytes.len() as usize },
            PatchStage::Reprotect => RequestSpec::Protect {
                address: self.address,
                length: self.bytes.len() as usize,
                protection: self.previous,
            },
            PatchStage::Done => RequestSpec::Finished {
                result: if self.failed {
                    Err(EngineError::MemoryAccessFault)
                } else {
                    Ok(())
                },
            },
        }
    }

    /// The state after the request of this state went as `outcome` says:
    /// `None` for a failure, else the value that the request reported, which
    /// is the earlier protection for a request to protect.
    ///
    /// A failure to unprotect ends the patch. A failure to write or to flush
    /// still has the protection restored. Any failure makes the patch fail.
    pub open spec fn after(self, outcome: Option<u32>) -> PatchState {
        match self.stage {
            PatchStage::Unprotect => match outcome {
                Some(previous) => PatchState { stage: PatchStage::Write, previous, ..self },
                None => PatchState { stage: PatchStage::Done, failed: true, ..self },
            },
            PatchStage::Write => match outcome {
                Some(_) => PatchState { stage: PatchStage::Flush, ..self },
                None => PatchState { stage: PatchStage::Reprotect, failed: true, ..self },
            },
            PatchStage::Flush => match outcome {
                Some(_) => PatchState { stage: PatchStage::Reprotect, ..self },
                None => PatchState { stage: PatchStage::Reprotect, failed: true, ..self },
            },
            PatchStage::Reprotect => match outcome {
                Some(_) => PatchState { stage: PatchStage::Done, ..self },
                None => PatchState { stage: PatchStage::Done, failed: true, ..self },
            },
            PatchStage::Done => self,
        }
    }
}

/// A patch under way: `bytes` to be written at `address`.
pub struct Patch {
    address: u64,
    bytes: Vec<u8>,
    stage: PatchStage,
    previous: u32,
    failed: bool,
}

impl View for Patch {
    type V = PatchState;

    closed spec fn view(&self) -> PatchState {
        PatchState {
            address: self.address,
            bytes: self.bytes@,
            stage: self.stage,
            previous: self.previous,
            failed: self.failed,
        }
    }
}

impl Patch {
    /// A patch that has not started: `bytes` are to be written at `address`.
    pub fn new(address: u64, bytes: Vec<u8>) -> (r: Self)
        ensures
            r@ == (PatchState { address, bytes: bytes@, stage: PatchStage::Unprotect, previous: 0, failed: false }),
    {
        Patch { address, bytes, stage: PatchStage::Unprotect, previous: 0, failed: false }
    }

    /// Where the patch stands.
    pub fn stage(&self) -> (r: PatchStage)
        ensures
            r == self@.stage,
    {
        self.stage
    }

    /// The request to make next.
    pub fn request(&self) -> (r: MemoryRequest)
        ensures
            r@ == self@.request(),
    {
        match self.stage {
            PatchStage::Unprotect => MemoryRequest::Protect {
                address: self.address,
                length: self.bytes.len(),
                protection: PAGE_EXECUTE_READWRITE,
            },
            PatchStage::Write => MemoryRequest::Write { address: self.address, bytes: self.bytes.clone() },
            PatchStage::Flush => MemoryRequest::Flush { address: self.address, length: self.bytes.len() },
            PatchStage::Reprotect => MemoryRequest::Protect {
                address: self.address,
                length: self.bytes.len(),
                protection: self.previous,
            },
            PatchStage::Done => MemoryRequest::Finished {
                result: if self.failed {
                    Err(EngineError::MemoryAccessFault)
                } else {
                    Ok(())
                },
            },
        }
    }

    /// Takes note of how the last request went: `None` for a failure, else
    /// the value that it reported.
    pub fn advance(&mut self, outcome: Option<u32>)
        ensures
            final(self)@ == old(self)@.after(outcome),
    {
        match self.stage {
            PatchStage::Unprotect => match outcome {
                Some(previous) => {
                    self.previous = previous;
                    self.stage = PatchStage::Write;
                },
                None => {
                    self.failed = true;
                    self.stage = PatchStage::Done;
                },
            },
            PatchStage::Write => match outcome {
                Some(_) => {
                    self.stage = PatchStage::Flush;
                },
                None => {
                    self.failed = true;
                    self.stage = PatchStage::Reprotect;
                },
            },
            PatchStage::Flush => {
                if outcome.is_none() {
                    self.failed = true;
                }
                self.stage = PatchStage::Reprotect;
            },
            PatchStage::Reprotect => {
                if outcome.is_none() {
                    self.failed = true;
                }
                self.stage = PatchStage::Done;
            },
            PatchStage::Done => {},
        }
    }
}

/// A breakpoint of the controller: where it stands, which trap it patches in,
/// and the bytes that the trap replaces.
pub struct Breakpoint {
    address: u64,
    type_: BreakpointType,
    original_instruction: Vec<u8>,
}

impl Breakpoint {
    /// Where the breakpoint stands.
    pub closed spec fn spec_address(&self) -> u64 {
        self.address
    }

    /// The trap of the breakpoint.

    pub closed spec fn spec_type(&self) -> BreakpointType {
        self.type_
    }

    /// The bytes that the trap replaces.
    pub closed spec fn spec_saved(&self) -> Seq<u8> {
        self.original_instruction@
    }

    /// The breakpoint keeps as many bytes as its trap is long.
    pub open spec fn wf(&self) -> bool {
        self.spec_saved().len() == self.spec_type().opcode().len()
    }

    /// A breakpoint at `address`, where the target now holds `original`.
    /// It keeps the first bytes of `original`, as many as the trap is long,
    /// and is `None` where `original` has fewer.
    pub fn new(address: u64, type_: BreakpointType, original: &[u8]) -> (r: Option<Self>)
        ensures
            r is Some <==> original@.len() >= type_.opcode().len(),
            r matches Some(breakpoint) ==> {
                &&& breakpoint.wf()
                &&& breakpoint.spec_address() == address
                &&& breakpoint.spec_type() == type_
                &&& breakpoint.spec_saved() == original@.take(type_.opcode().len() as int)
            },
    {
        let length = type_.length();
        if original.len() < length {
            return None;
        }
        let mut saved: Vec<u8> = Vec::new();
        let mut i: usize = 0;
        while i < length
            invariant
                i <= length <= original@.len(),
                saved@ == original@.take(i as int),
            decreases length - i,
        {
            saved.push(original[i]);
            i += 1;
            proof {
                assert(saved@ =~= original@.take(i as int));
            }
        }
        Some(Breakpoint { address, type_, original_instruction: saved })
    }

    /// Where the breakpoint stands.
    pub fn address(&self) -> (r: u64)
        ensures
            r == self.spec_address(),
    {
        self.address
    }

    /// The trap of the breakpoint.
    pub fn kind(&self) -> (r: BreakpointType)
        ensures
            r == self.spec_type(),
    {
        self.type_
    }

    /// The bytes that the trap replaces.
    pub fn saved(&self) -> (r: &[u8])
        ensures
            r@ == self.spec_saved(),
    {
        self.original_instruction.as_slice()
    }

    /// The patch that arms the breakpoint: it writes the trap.
    pub fn enable(&self) -> (r: Patch)
        ensures
            r@ == (PatchState {
                address: self.spec_address(),
                bytes: self.spec_type().opcode(),
                stage: PatchStage::Unprotect,
                previous: 0,
                failed: false,
            }),
    {
        Patch::new(self.address, self.type_.instruction())
    }

    /// The patch that disarms the breakpoint: it writes back the bytes that
    /// the trap replaced.
    pub fn disable(&self) -> (r: Patch)
        ensures
            r@ == (PatchState {
                address: self.spec_address(),
                bytes: self.spec_saved(),
                stage: PatchStage::Unprotect,
                previous: 0,
                failed: false,
            }),
    {
        Patch::new(self.address, self.original_instruction.clone())
    }
}

/// `memory` after `bytes` were written at `offset`.
pub open spec fn written(memory: Seq<u8>, offset: int, bytes: Seq<u8>) -> Seq<u8> {
    Seq::new(
        memory.len(),
        |i: int|
            if offset <= i < offset + bytes.len() {
                bytes[i - offset]
            } else {
                memory[i]
            },
    )
}

/// Arming a breakpoint and disarming it again leaves the memory of the
/// target as it was, byte for byte: the write of the trap followed by the
/// write of the saved bytes restores what the breakpoint was made from.
pub proof fn lemma_round_trip(memory: Seq<u8>, offset: int, breakpoint: Breakpoint)
    requires
        breakpoint.wf(),
        0 <= offset,
        offset + breakpoint.spec_saved().len() <= memory.len(),
        breakpoint.spec_saved() == memory.subrange(offset, offset + breakpoint.spec_saved().len()),
    ensures
        written(written(memory, offset, breakpoint.spec_type().opcode()), offset, breakpoint.spec_saved()) == memory,
        written(memory, offset, breakpoint.spec_type().opcode()).subrange(
            offset,
            offset + breakpoint.spec_saved().len(),
        ) == breakpoint.spec_type().opcode(),
{
    let armed = written(memory, offset, breakpoint.spec_type().opcode());
    assert(written(armed, offset, breakpoint.spec_saved()) =~= memory);
    assert(armed.subrange(offset, offset + breakpoint.spec_saved().len()) =~= breakpoint.spec_type().opcode());
}

/// A patch is over after four outcomes. It succeeds exactly when each of
/// its four requests did, and it leaves the address and the bytes alone.
pub proof fn lemma_patch_result(start: PatchState, first: Option<u32>, second: Option<u32>, third: Option<u32>, fourth: Option<u32>)
    requires
        start.stage == PatchStage::Unprotect,
        !start.failed,
    ensures
        ({
            let end = start.after(first).after(second).after(third).after(fourth);
            &&& end.stage == PatchStage::Done
            &&& end.address == start.address
            &&& end.bytes == start.bytes
            &&& !end.failed <==> first is Some && second is Some && third is Some && fourth is Some
        }),
{
}

/// Once the pages were unprotected, the patch asks for their earlier
/// protection back before it ends, however the write and the flush went.
pub proof fn lemma_protection_restored(start: PatchState, previous: u32, second: Option<u32>, third: Option<u32>)
    requires
        start.stage == PatchStage::Unprotect,
    ensures
        ({
            let written = start.after(Some(previous)).after(second);
            let restoring = if second is Some { written.after(third) } else { written };
            restoring.request() == (RequestSpec::Protect {
                address: start.address,
                length: start.bytes.len() as usize,
                protection: previous,
            })
        }),
{
}

} // verus!
