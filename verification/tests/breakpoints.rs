use malebolge::breakpoint::{Breakpoint, BreakpointType, MemoryRequest, Patch, PatchStage, PAGE_EXECUTE_READWRITE};
use malebolge::table::{BreakpointList, EngineError};

/// A target whose memory is a buffer that starts at address `base`. It can
/// be told to fail the request with a given number.
struct Target {
    base: u64,
    memory: Vec<u8>,
    protection: u32,
    fail_at: Option<usize>,
    requests: Vec<MemoryRequest>,
}

impl Target {
    fn new(memory: &[u8]) -> Self {
        Target { base: 0x40_0000, memory: memory.to_vec(), protection: 0x20, fail_at: None, requests: vec![] }
    }

    fn perform(&mut self, request: &MemoryRequest) -> Option<u32> {
        if self.fail_at == Some(self.requests.len()) {
            return None;
        }
        match request {
            MemoryRequest::Protect { protection, .. } => {
                let previous = self.protection;
                self.protection = *protection;
                Some(previous)
            }
            MemoryRequest::Write { address, bytes } => {
                let at = (*address - self.base) as usize;
                self.memory[at..at + bytes.len()].copy_from_slice(bytes);
                Some(0)
            }
            MemoryRequest::Flush { .. } => Some(0),
            MemoryRequest::Finished { .. } => None,
        }
    }

    fn run(&mut self, mut patch: Patch) -> Result<(), EngineError> {
        self.requests.clear();
        loop {
            let request = patch.request();
            if let MemoryRequest::Finished { result } = request {
                return result;
            }
            let outcome = self.perform(&request);
            self.requests.push(request);
            patch.advance(outcome);
        }
    }
}

#[test]
fn trap_opcodes() {
    assert_eq!(BreakpointType::Int3.instruction(), vec![0xCC]);
    assert_eq!(BreakpointType::Int3Imm.instruction(), vec![0xCD, 0x03]);
    assert_eq!(BreakpointType::Ud2.instruction(), vec![0x0F, 0x0B]);
    assert_eq!(BreakpointType::Int3.length(), 1);
    assert_eq!(BreakpointType::Int3Imm.length(), 2);
    assert_eq!(BreakpointType::Ud2.length(), 2);
}

#[test]
fn breakpoint_keeps_original_bytes() {
    let breakpoint = Breakpoint::new(0x40_0002, BreakpointType::Ud2, &[0x48, 0x89, 0xE5]).unwrap();
    assert_eq!(breakpoint.address(), 0x40_0002);
    assert_eq!(breakpoint.kind(), BreakpointType::Ud2);
    assert_eq!(breakpoint.saved(), &[0x48, 0x89]);
    let single = Breakpoint::new(1, BreakpointType::Int3, &[0x55, 0x48]).unwrap();
    assert_eq!(single.saved(), &[0x55]);
    assert!(Breakpoint::new(1, BreakpointType::Int3Imm, &[0x55]).is_none());
    assert!(Breakpoint::new(1, BreakpointType::Int3, &[]).is_none());
}

#[test]
fn breakpoint_round_trip() {
    let original = [0x55, 0x48, 0x89, 0xE5, 0xC3];
    for kind in [BreakpointType::Int3, BreakpointType::Int3Imm, BreakpointType::Ud2] {
        let mut target = Target::new(&original);
        let breakpoint = Breakpoint::new(0x40_0001, kind, &target.memory[1..]).unwrap();
        assert_eq!(target.run(breakpoint.enable()), Ok(()));
        let length = kind.length();
        assert_eq!(&target.memory[1..1 + length], kind.instruction().as_slice());
        assert_eq!(target.memory[0], 0x55);
        assert_eq!(&target.memory[1 + length..], &original[1 + length..]);
        assert_eq!(target.protection, 0x20);
        assert_eq!(target.run(breakpoint.disable()), Ok(()));
        assert_eq!(target.memory, original);
        assert_eq!(target.protection, 0x20);
    }
}

#[test]
fn patch_requests_in_order() {
    let mut target = Target::new(&[0x90, 0x90]);
    let breakpoint = Breakpoint::new(0x40_0000, BreakpointType::Int3Imm, &[0x90, 0x90]).unwrap();
    assert_eq!(target.run(breakpoint.enable()), Ok(()));
    assert_eq!(
        target.requests,
        vec![
            MemoryRequest::Protect { address: 0x40_0000, length: 2, protection: PAGE_EXECUTE_READWRITE },
            MemoryRequest::Write { address: 0x40_0000, bytes: vec![0xCD, 0x03] },
            MemoryRequest::Flush { address: 0x40_0000, length: 2 },
            MemoryRequest::Protect { address: 0x40_0000, length: 2, protection: 0x20 },
        ]
    );
}

#[test]
fn failed_unprotect_ends_the_patch() {
    let mut target = Target::new(&[0x90]);
    target.fail_at = Some(0);
    let breakpoint = Breakpoint::new(0x40_0000, BreakpointType::Int3, &[0x90]).unwrap();
    assert_eq!(target.run(breakpoint.enable()), Err(EngineError::MemoryAccessFault));
    assert_eq!(target.requests.len(), 1);
    assert_eq!(target.memory, vec![0x90]);
}

#[test]
fn failed_write_still_restores_protection() {
    let mut target = Target::new(&[0x90]);
    target.fail_at = Some(1);
    let breakpoint = Breakpoint::new(0x40_0000, BreakpointType::Int3, &[0x90]).unwrap();
    assert_eq!(target.run(breakpoint.enable()), Err(EngineError::MemoryAccessFault));
    assert_eq!(target.requests.len(), 3);
    assert_eq!(
        target.requests[2],
        MemoryRequest::Protect { address: 0x40_0000, length: 1, protection: 0x20 }
    );
    assert_eq!(target.protection, 0x20);
    assert_eq!(target.memory, vec![0x90]);
}

#[test]
fn failed_flush_still_restores_protection() {
    let mut target = Target::new(&[0x90]);
    target.fail_at = Some(2);
    let breakpoint = Breakpoint::new(0x40_0000, BreakpointType::Int3, &[0x90]).unwrap();
    assert_eq!(target.run(breakpoint.enable()), Err(EngineError::MemoryAccessFault));
    assert_eq!(target.requests.len(), 4);
    assert_eq!(target.protection, 0x20);
}

#[test]
fn failed_reprotect_fails_the_patch() {
    let mut target = Target::new(&[0x90]);
    target.fail_at = Some(3);
    let breakpoint = Breakpoint::new(0x40_0000, BreakpointType::Int3, &[0x90]).unwrap();
    assert_eq!(target.run(breakpoint.enable()), Err(EngineError::MemoryAccessFault));
    assert_eq!(target.requests.len(), 4);
}

#[test]
fn patch_stages() {
    let mut patch = Patch::new(0x10, vec![1, 2]);
    assert_eq!(patch.stage(), PatchStage::Unprotect);
    patch.advance(Some(4));
    assert_eq!(patch.stage(), PatchStage::Write);
    patch.advance(Some(0));
    assert_eq!(patch.stage(), PatchStage::Flush);
    patch.advance(Some(0));
    assert_eq!(patch.stage(), PatchStage::Reprotect);
    assert_eq!(patch.request(), MemoryRequest::Protect { address: 0x10, length: 2, protection: 4 });
    patch.advance(Some(0));
    assert_eq!(patch.stage(), PatchStage::Done);
    assert_eq!(patch.request(), MemoryRequest::Finished { result: Ok(()) });
    patch.advance(None);
    assert_eq!(patch.stage(), PatchStage::Done);
    assert_eq!(patch.request(), MemoryRequest::Finished { result: Ok(()) });
}

#[test]
fn arming_fills_the_table_and_disarming_frees_it() {
    let mut target = Target::new(&[0x55, 0xC3]);
    let mut table = BreakpointList::new(1, 2);
    let breakpoint = Breakpoint::new(0x40_0000, BreakpointType::Int3, &target.memory).unwrap();
    assert_eq!(target.run(breakpoint.enable()), Ok(()));
    let id = table.insert(breakpoint.address()).unwrap();
    assert_eq!(table.occupied(), 1);
    assert_eq!(target.memory, vec![0xCC, 0xC3]);
    assert_eq!(target.run(breakpoint.disable()), Ok(()));
    assert!(table.remove(id));
    assert_eq!(table.occupied(), 0);
    assert_eq!(target.memory, vec![0x55, 0xC3]);
}
