use malebolge::cfo::{decode_stream, Cfo, Lookahead, RawInstruction};

fn addresses(bytes: &[u8], start: u64) -> Vec<(u64, usize)> {
    let mut cfo = Cfo::new(64, bytes, start).unwrap();
    cfo.collect().iter().map(|i| (i.address, i.length)).collect()
}

#[test]
fn long_jump_passes_through() {
    // jmp +0 in its five-byte form, then nop
    let bytes = [0xE9, 0x00, 0x00, 0x00, 0x00, 0x90];
    let mut cfo = Cfo::new(64, &bytes, 0x1000).unwrap();
    let jump = cfo.next().unwrap();
    assert_eq!(jump.address, 0x1000);
    assert_eq!(jump.length, 5);
    assert_eq!(jump.near_branch_target, 0x1005);
    assert!(!jump.short_branch());
    assert_eq!(cfo.position(), 5);
    let nop = cfo.next().unwrap();
    assert_eq!((nop.address, nop.length), (0x1005, 1));
    assert!(cfo.next().is_none());
}

#[test]
fn filler_behind_short_branch_is_skipped() {
    // je +3, three bytes that decode as a run ending on the target, ret
    let bytes = [0x74, 0x03, 0x90, 0x90, 0x90, 0xC3];
    let mut cfo = Cfo::new(64, &bytes, 0x1000).unwrap();
    assert_eq!(cfo.peek(2, 5, cfo_code(&[0x74, 0x03])), Lookahead::Aligned);
    let first = cfo.next().unwrap();
    assert_eq!((first.address, first.length), (0x1005, 1));
    assert_eq!(cfo.position(), 6);
    assert!(cfo.next().is_none());
}

fn cfo_code(bytes: &[u8]) -> u32 {
    let mut cfo = Cfo::new(64, bytes, 0).unwrap();
    // a lone branch has nothing behind it, so it is yielded as it is
    cfo.next().unwrap().code
}

#[test]
fn guarded_branch_is_kept() {
    // je +4, nop, jne +1, nop, ret
    let bytes = [0x74, 0x04, 0x90, 0x75, 0x01, 0x90, 0xC3];
    let mut cfo = Cfo::new(64, &bytes, 0x2000).unwrap();
    assert_eq!(cfo.peek(2, 6, cfo_code(&[0x74, 0x04])), Lookahead::Guarded);
    let branch = cfo.next().unwrap();
    assert_eq!((branch.address, branch.length), (0x2000, 2));
    assert!(branch.short_branch());
    assert_eq!(branch.target(), Some(0x2006));
    assert_eq!(branch.negated_code, cfo_code(&[0x75, 0x01]));
    let second = cfo.next().unwrap();
    assert_eq!((second.address, second.length), (0x2002, 1));
    // the jne has one filler byte behind it, so the stream goes on at the ret
    let third = cfo.next().unwrap();
    assert_eq!((third.address, third.length), (0x2006, 1));
    assert!(cfo.next().is_none());
}

#[test]
fn backward_branch_is_kept() {
    // nop, jmp -3 (to the nop), ret
    let bytes = [0x90, 0xEB, 0xFD, 0xC3];
    assert_eq!(addresses(&bytes, 0x10), vec![(0x10, 1), (0x11, 2), (0x13, 1)]);
}

#[test]
fn branch_to_next_instruction_is_kept() {
    // je +0, ret
    let bytes = [0x74, 0x00, 0xC3];
    assert_eq!(addresses(&bytes, 0), vec![(0, 2), (2, 1)]);
}

#[test]
fn branch_past_the_end_is_kept() {
    // je +5 with two bytes behind it
    let bytes = [0x74, 0x05, 0x90, 0x90];
    assert_eq!(addresses(&bytes, 0), vec![(0, 2), (2, 1), (3, 1)]);
    let cfo = Cfo::new(64, &bytes, 0).unwrap();
    assert_eq!(cfo.peek(2, 7, cfo_code(&[0x74, 0x05])), Lookahead::Exhausted);
}

#[test]
fn overrun_keeps_the_branch() {
    // je +1, then a two-byte instruction that passes the target
    let bytes = [0x74, 0x01, 0x31, 0xC0, 0xC3];
    let cfo = Cfo::new(64, &bytes, 0).unwrap();
    assert_eq!(cfo.peek(2, 3, cfo_code(&[0x74, 0x01])), Lookahead::Overrun);
    assert_eq!(addresses(&bytes, 0), vec![(0, 2), (2, 2), (4, 1)]);
}

#[test]
fn consecutive_filler_runs_are_skipped() {
    // je +1, nop, jne +1, nop, ret: the je is guarded by nothing, the jne follows the filler
    let bytes = [0x74, 0x01, 0x90, 0x72, 0x01, 0x90, 0xC3];
    assert_eq!(addresses(&bytes, 0), vec![(6, 1)]);
}

#[test]
fn stream_is_a_function_of_bytes_and_address() {
    let bytes = [0x74, 0x03, 0x90, 0x90, 0x90, 0xC3, 0xE9, 0x00, 0x00, 0x00, 0x00];
    let mut a = Cfo::new(64, &bytes, 0x4000).unwrap();
    let mut b = Cfo::new(64, &bytes, 0x4000).unwrap();
    let first: Vec<RawInstruction> = a.collect();
    let second: Vec<RawInstruction> = b.collect();
    assert_eq!(first, second);
    assert_eq!(first.len(), 2);
}

#[test]
fn address_range_must_fit() {
    let bytes = [0x90, 0x90];
    assert!(Cfo::new(64, &bytes, u64::MAX - 1).is_none());
    assert!(Cfo::new(64, &bytes, u64::MAX - 2).is_some());
    assert!(decode_stream(64, &bytes, u64::MAX).is_none());
}

#[test]
fn unknown_bitness_yields_nothing() {
    let bytes = [0x90];
    let mut cfo = Cfo::new(12, &bytes, 0).unwrap();
    assert!(cfo.next().is_none());
    assert_eq!(cfo.position(), 0);
}

#[test]
fn listing_has_text_and_targets() {
    // je +3, filler, mov eax, 1; jmp -7
    let bytes = [0x74, 0x03, 0x90, 0x90, 0x90, 0xB8, 0x01, 0x00, 0x00, 0x00, 0xEB, 0xF9];
    let listing = decode_stream(64, &bytes, 0x1000).unwrap();
    assert_eq!(listing.len(), 2);
    assert_eq!(listing[0].address, 0x1005);
    assert_eq!(listing[0].length, 5);
    assert_eq!(listing[0].mnemonic, "mov");
    assert_eq!(listing[0].operands, "eax,1");
    assert_eq!(listing[0].target, None);
    assert_eq!(listing[1].address, 0x100A);
    assert_eq!(listing[1].mnemonic, "jmp");
    assert_eq!(listing[1].target, Some(0x1005));
    assert!(listing[1].operands.contains("1005"));
}

#[test]
fn describe_refuses_foreign_addresses() {
    let bytes = [0x90, 0xC3];
    let mut cfo = Cfo::new(64, &bytes, 0x100).unwrap();
    let nop = cfo.next().unwrap();
    assert_eq!(cfo.describe(&nop).unwrap().mnemonic, "nop");
    let mut elsewhere = nop;
    elsewhere.address = 0x102;
    assert!(cfo.describe(&elsewhere).is_none());
    elsewhere.address = 0xFF;
    assert!(cfo.describe(&elsewhere).is_none());
}

#[test]
fn truncated_instruction_ends_the_data() {
    // mov eax, imm32 cut short
    let bytes = [0x90, 0xB8, 0x01];
    assert_eq!(addresses(&bytes, 0), vec![(0, 1), (1, 2)]);
}
