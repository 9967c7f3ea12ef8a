//! A disassembly stream that steps over junk bytes hidden behind opaque
//! short branches.
//!
//! An obfuscator may place a short forward branch in front of bytes that are
//! never executed, so that a linear sweep decodes them and loses alignment.
//! The stream looks ahead from each short forward branch: when the bytes up to
//! its target decode as a run that ends exactly on the target, the run is
//! filler, and the stream goes on at the target without yielding the branch.
//! When the run holds the counterpart of the branch with the opposite
//! condition, the bytes are live code and the branch is yielded as it is.

use vstd::prelude::*;
use iced_x86::Decoder;
use iced_x86::DecoderOptions;
use iced_x86::Formatter;
use iced_x86::NasmFormatter;

verus! {

/// `flow_control` of an unconditional branch.
pub const FLOW_UNCONDITIONAL_BRANCH: u32 = 1;

/// `flow_control` of a conditional branch.
pub const FLOW_CONDITIONAL_BRANCH: u32 = 3;

/// `op0_kind` of a near branch with a 16-bit target.
pub const OP_NEAR_BRANCH16: u32 = 1;

/// `op0_kind` of a near branch with a 32-bit target.
pub const OP_NEAR_BRANCH32: u32 = 2;

/// `op0_kind` of a near branch with a 64-bit target.
pub const OP_NEAR_BRANCH64: u32 = 3;

/// Length of a branch in its short form: the opcode and one displacement byte.
pub const SHORT_BRANCH_LENGTH: usize = 2;

/// What the stream reads of one decoded instruction. The numbers are the
/// decoder's own: `code`, `flow_control` and `op0_kind` are the values of its
/// enumerations, `negated_code` the code with the condition turned around.
#[derive(Copy, Clone, Debug, PartialEq, Eq, Structural)]
pub struct RawInstruction {
    pub address: u64,
    pub length: usize,
    pub code: u32,
    pub negated_code: u32,
    pub flow_control: u32,
    pub op0_kind: u32,
    pub near_branch_target: u64,
}

/// How a look-ahead from a short forward branch ended.
#[derive(Copy, Clone, Debug, PartialEq, Eq, Structural)]
pub enum Lookahead {
    /// The run ended exactly on the target: the bytes are filler.
    Aligned,
    /// The run holds the branch with the opposite condition: the bytes are
    /// live code.
    Guarded,
    /// The run passed the target without ending on it. Going on from there
    /// could only meet a guard or the end of the input, and the branch is
    /// kept either way.
    Overrun,
    /// The input ended before the target was reached.
    Exhausted,
}

/// The instruction that the decoder reads from `data` at `position`, taken to
/// stand at address `ip`, in a `bitness`-bit code segment.
pub uninterp spec fn x86_instruction_at(bitness: u32, data: Seq<u8>, position: int, ip: u64) -> Option<RawInstruction>;

/// Decodes one instruction with `iced_x86::Decoder::decode`, from a decoder
/// made by `Decoder::try_with_ip` and moved by `Decoder::set_position`, and
/// copies out the fields of the `Instruction`. `None` stands for a decoder
/// that could not be made: one for a width other than 16, 32 or 64 bits, or
/// for data that ends within fifteen bytes of the top of the address space,
/// where no allocation lies. An instruction that was decoded keeps the
/// address it was given, takes at least one byte and at most fifteen, and
/// ends within the data: the decoder consumes what it reads and never reads
/// past the end. Bytes that are no instruction decode as an invalid one.
#[verifier::external_body]
fn decode_at(bitness: u32, data: &[u8], position: usize, ip: u64) -> (r: Option<RawInstruction>)
    requires
        position < data@.len(),
    ensures
        r == x86_instruction_at(bitness, data@, position as int, ip),
        r matches Some(i) ==> i.address == ip && 1 <= i.length <= 15 && position + i.length <= data@.len(),
{
    let mut decoder = Decoder::try_with_ip(bitness, data, ip, DecoderOptions::NONE).ok()?;
    decoder.set_position(position).ok()?;
    let i = decoder.decode();
    Some(RawInstruction {
        address: i.ip(),
        length: i.len(),
        code: i.code() as u32,
        negated_code: i.code().negate_condition_code() as u32,
        flow_control: i.flow_control() as u32,
        op0_kind: i.op0_kind() as u32,
        near_branch_target: i.near_branch_target(),
    })
}

/// The mnemonic, with its prefixes, that the NASM formatter writes for the
/// instruction at `position`.
pub uninterp spec fn x86_mnemonic_at(bitness: u32, data: Seq<u8>, position: int, ip: u64) -> Option<Seq<char>>;

/// The operands that the NASM formatter writes for the instruction at
/// `position`.
pub uninterp spec fn x86_operands_at(bitness: u32, data: Seq<u8>, position: int, ip: u64) -> Option<Seq<char>>;

/// Decodes the instruction at `position` as `decode_at` does and has
/// `iced_x86::Formatter::format_mnemonic` of a fresh `NasmFormatter` write its
/// mnemonic. `None` stands for a decoder that could not be made.
#[verifier::external_body]
fn mnemonic_at(bitness: u32, data: &[u8], position: usize, ip: u64) -> (r: Option<String>)
    requires
        position < data@.len(),
    ensures
        r is Some <==> x86_mnemonic_at(bitness, data@, position as int, ip) is Some,
        r matches Some(text) ==> Some(text@) == x86_mnemonic_at(bitness, data@, position as int, ip),
{
    let mut decoder = Decoder::try_with_ip(bitness, data, ip, DecoderOptions::NONE).ok()?;
    decoder.set_position(position).ok()?;
    let i = decoder.decode();
    let mut text = String::new();
    NasmFormatter::new().format_mnemonic(&i, &mut text);
    Some(text)
}

/// Decodes the instruction at `position` as `decode_at` does and has
/// `iced_x86::Formatter::format_all_operands` of a fresh `NasmFormatter` write
/// its operands. `None` stands for a decoder that could not be made.
#[verifier::external_body]
fn operands_at(bitness: u32, data: &[u8], position: usize, ip: u64) -> (r: Option<String>)
    requires
        position < data@.len(),
    ensures
        r is Some <==> x86_operands_at(bitness, data@, position as int, ip) is Some,
        r matches Some(text) ==> Some(text@) == x86_operands_at(bitness, data@, position as int, ip),
{
    let mut decoder = Decoder::try_with_ip(bitness, data, ip, DecoderOptions::NONE).ok()?;
    decoder.set_position(position).ok()?;
    let i = decoder.decode();
    let mut text = String::new();
    NasmFormatter::new().format_all_operands(&i, &mut text);
    Some(text)
}

/// One instruction of the stream as a listing shows it.
#[derive(Clone, Debug)]
pub struct DecodedInstruction {
    pub address: u64,
    pub length: usize,
    pub mnemonic: String,
    pub operands: String,
    /// The address the instruction branches to, when its operand is one.
    pub target: Option<u64>,
}

/// What a `DecodedInstruction` holds, with its texts as sequences.
pub ghost struct DecodedText {
    pub address: u64,
    pub length: usize,
    pub mnemonic: Seq<char>,
    pub operands: Seq<char>,
    pub target: Option<u64>,
}

impl View for DecodedInstruction {
    type V = DecodedText;

    open spec fn view(&self) -> DecodedText {
        DecodedText {
            address: self.address,
            length: self.length,
            mnemonic: self.mnemonic@,
            operands: self.operands@,
            target: self.target,
        }
    }
}

/// The listing entry of `i`, an instruction of the run `data` that starts at
/// address `start`.
pub open spec fn described(bitness: u32, data: Seq<u8>, start: u64, i: RawInstruction) -> Option<DecodedText> {
    match (
        x86_mnemonic_at(bitness, data, i.address - start, i.address),
        x86_operands_at(bitness, data, i.address - start, i.address),
    ) {
        (Some(mnemonic), Some(operands)) => Some(
            DecodedText {
                address: i.address,
                length: i.length,
                mnemonic,
                operands,
                target: if i.has_near_target() {
                    Some(i.near_branch_target)
                } else {
                    None
                },
            },
        ),
        _ => None,
    }
}

impl RawInstruction {
    /// A conditional or unconditional near branch in its two-byte form.
    pub open spec fn is_short_branch(self) -> bool {
        &&& self.flow_control == FLOW_CONDITIONAL_BRANCH || self.flow_control == FLOW_UNCONDITIONAL_BRANCH
        &&& self.op0_kind == OP_NEAR_BRANCH16 || self.op0_kind == OP_NEAR_BRANCH32 || self.op0_kind == OP_NEAR_BRANCH64
        &&& self.length == SHORT_BRANCH_LENGTH
    }

    /// Whether the first operand is a near branch target.
    pub open spec fn has_near_target(self) -> bool {
        self.op0_kind == OP_NEAR_BRANCH16 || self.op0_kind == OP_NEAR_BRANCH32 || self.op0_kind == OP_NEAR_BRANCH64
    }

    /// Whether this is a conditional or unconditional near branch in its
    /// two-byte form.
    pub fn short_branch(&self) -> (r: bool)
        ensures
            r == self.is_short_branch(),
    {
        (self.flow_control == FLOW_CONDITIONAL_BRANCH || self.flow_control == FLOW_UNCONDITIONAL_BRANCH)
            && (self.op0_kind == OP_NEAR_BRANCH16 || self.op0_kind == OP_NEAR_BRANCH32 || self.op0_kind == OP_NEAR_BRANCH64)
            && self.length == SHORT_BRANCH_LENGTH
    }

    /// The address this instruction branches to, if its first operand is a
    /// near branch target.
    pub fn target(&self) -> (r: Option<u64>)
        ensures
            r == if self.has_near_target() { Some(self.near_branch_target) } else { None },
    {
        if self.op0_kind == OP_NEAR_BRANCH16 || self.op0_kind == OP_NEAR_BRANCH32 || self.op0_kind == OP_NEAR_BRANCH64 {
            Some(self.near_branch_target)
        } else {
            None
        }
    }
}

/// How the look-ahead from `position` ends, for a branch with code `code`
/// whose target stands at position `target`. `start` is the address of the
/// first byte of `data`. Each instruction of the run is held against the
/// branch, the one that ends on the target too: an instruction whose code,
/// with its condition turned around, is the code of the branch guards the
/// run.
pub open spec fn lookahead(bitness: u32, data: Seq<u8>, start: u64, position: int, target: int, code: u32) -> Lookahead
    decreases data.len() - position,
{
    if position < 0 || position >= data.len() {
        Lookahead::Exhausted
    } else {
        match x86_instruction_at(bitness, data, position, (start + position) as u64) {
            None => Lookahead::Exhausted,
            Some(peek) => {
                if peek.negated_code == code {
                    Lookahead::Guarded
                } else if peek.length < 1 || position + peek.length > data.len() {
                    Lookahead::Exhausted
                } else if position + peek.length == target {
                    Lookahead::Aligned
                } else if position + peek.length > target {
                    Lookahead::Overrun
                } else {
                    lookahead(bitness, data, start, position + peek.length, target, code)
                }
            },
        }
    }
}

/// Whether the stream steps over the instruction `branch` decoded at
/// `position`: a short branch whose target lies ahead of the byte after it,
/// with a look-ahead that ends exactly on the target.
pub open spec fn elides(bitness: u32, data: Seq<u8>, start: u64, position: int, branch: RawInstruction) -> bool {
    &&& branch.is_short_branch()
    &&& position + branch.length < branch.near_branch_target - start <= data.len()
    &&& lookahead(bitness, data, start, position + branch.length, branch.near_branch_target - start, branch.code) == Lookahead::Aligned
}

/// One step of the stream from `position`: the instruction it yields, if any,
/// and the position it stands at afterwards.
pub open spec fn step(bitness: u32, data: Seq<u8>, start: u64, position: int) -> (Option<RawInstruction>, int)
    decreases data.len() - position,
{
    if position < 0 || position >= data.len() {
        (None, position)
    } else {
        match x86_instruction_at(bitness, data, position, (start + position) as u64) {
            None => (None, position),
            Some(i) => {
                if i.length < 1 || position + i.length > data.len() {
                    (None, position)
                } else if elides(bitness, data, start, position, i) {
                    step(bitness, data, start, i.near_branch_target - start)
                } else {
                    (Some(i), position + i.length)
                }
            },
        }
    }
}

/// Everything the stream yields from `position` on.
pub open spec fn stream(bitness: u32, data: Seq<u8>, start: u64, position: int) -> Seq<RawInstruction>
    decreases data.len() - position,
{
    let (yielded, after) = step(bitness, data, start, position);
    match yielded {
        Some(i) => {
            if position < after <= data.len() {
                seq![i] + stream(bitness, data, start, after)
            } else {
                seq![i]
            }
        },
        None => Seq::empty(),
    }
}

/// A step that yields an instruction moves the cursor forward, and not past
/// the end of the data.
pub proof fn lemma_step_advances(bitness: u32, data: Seq<u8>, start: u64, position: int)
    ensures
        step(bitness, data, start, position).0 is Some ==> position < step(bitness, data, start, position).1 <= data.len(),
    decreases data.len() - position,
{
    if 0 <= position < data.len() {
        match x86_instruction_at(bitness, data, position, (start + position) as u64) {
            None => {},
            Some(i) => {
                if i.length >= 1 && position + i.length <= data.len() && elides(bitness, data, start, position, i) {
                    lemma_step_advances(bitness, data, start, i.near_branch_target - start);
                }
            },
        }
    }
}

/// The stream is finite: it yields at most one instruction for each byte
/// that is left.
pub proof fn lemma_stream_bounded(bitness: u32, data: Seq<u8>, start: u64, position: int)
    requires
        0 <= position <= data.len(),
    ensures
        stream(bitness, data, start, position).len() <= data.len() - position,
    decreases data.len() - position,
{
    let (yielded, after) = step(bitness, data, start, position);
    lemma_step_advances(bitness, data, start, position);
    if yielded is Some {
        lemma_stream_bounded(bitness, data, start, after);
    }
}

/// A look-ahead that ends exactly on the target started before it, and the
/// target lies within the data.
pub proof fn lemma_aligned_within(bitness: u32, data: Seq<u8>, start: u64, position: int, target: int, code: u32)
    requires
        lookahead(bitness, data, start, position, target, code) == Lookahead::Aligned,
    ensures
        position < target <= data.len(),
    decreases data.len() - position,
{
    let peek = x86_instruction_at(bitness, data, position, (start + position) as u64).unwrap();
    if position + peek.length != target {
        lemma_aligned_within(bitness, data, start, position + peek.length, target, code);
    }
}

/// The stream over `data`, a run of code whose first byte stands at address
/// `start`.
pub struct Cfo<'a> {
    bitness: u32,
    data: &'a [u8],
    start: u64,
    position: usize,
}

impl<'a> Cfo<'a> {
    /// Width of the code in bits.
    pub closed spec fn spec_bitness(&self) -> u32 {
        self.bitness
    }

    /// The bytes of the code.

    pub closed spec fn spec_data(&self) -> Seq<u8> {
        self.data@
    }

    /// Address of the first byte of the code.

    pub closed spec fn spec_start(&self) -> u64 {
        self.start
    }

    /// Offset of the cursor in the code.

    pub closed spec fn spec_position(&self) -> int {
        self.position as int
    }

    /// The cursor stands within the data, and the last byte has an address.
    pub open spec fn wf(&self) -> bool {
        &&& 0 <= self.spec_position() <= self.spec_data().len()
        &&& self.spec_start() + self.spec_data().len() <= u64::MAX
    }

    /// What the stream still has to yield.
    pub open spec fn remaining(&self) -> Seq<RawInstruction> {
        stream(self.spec_bitness(), self.spec_data(), self.spec_start(), self.spec_position())
    }

    /// A stream at the first byte of `data`, which stands at address `start`.
    /// `None` when the addresses of the data would pass the end of the
    /// address space.
    pub fn new(bitness: u32, data: &'a [u8], start: u64) -> (r: Option<Self>)
        ensures
            r is Some <==> start + data@.len() <= u64::MAX,
            r matches Some(cfo) ==> {
                &&& cfo.wf()
                &&& cfo.spec_bitness() == bitness
                &&& cfo.spec_data() == data@
                &&& cfo.spec_start() == start
                &&& cfo.spec_position() == 0
            },
    {
        if data.len() as u64 <= u64::MAX - start {
            Some(Cfo { bitness, data, start, position: 0 })
        } else {
            None
        }
    }

    /// Moves the cursor to `position`. A position past the end of the data
    /// is refused and leaves the cursor where it is.
    pub fn seek(&mut self, position: usize) -> (r: bool)
        requires
            old(self).wf(),
        ensures
            final(self).wf(),
            final(self).spec_bitness() == old(self).spec_bitness(),
            final(self).spec_data() == old(self).spec_data(),
            final(self).spec_start() == old(self).spec_start(),
            r == (position <= old(self).spec_data().len()),
            final(self).spec_position() == if r { position as int } else { old(self).spec_position() },
    {
        if position <= self.data.len() {
            self.position = position;
            true
        } else {
            false
        }
    }

    /// Offset of the cursor in the data.
    pub fn position(&self) -> (r: usize)
        ensures
            r == self.spec_position(),
    {
        self.position
    }

    /// Address of the cursor.
    pub fn ip(&self) -> (r: u64)
        requires
            self.wf(),
        ensures
            r == self.spec_start() + self.spec_position(),
    {
        self.start + self.position as u64
    }

    /// Looks ahead from `from` for a branch with code `code` whose target
    /// stands at position `target`, without moving the cursor.
    pub fn peek(&self, from: usize, target: usize, code: u32) -> (r: Lookahead)
        requires
            self.wf(),
        ensures
            r == lookahead(self.spec_bitness(), self.spec_data(), self.spec_start(), from as int, target as int, code),
    {
        let mut position = from;
        loop
            invariant
                self.wf(),
                lookahead(self.bitness, self.data@, self.start, position as int, target as int, code)
                    == lookahead(self.bitness, self.data@, self.start, from as int, target as int, code),
            decreases self.data@.len() - position,
        {
            if position >= self.data.len() {
                return Lookahead::Exhausted;
            }
            let ip = self.start + position as u64;
            match decode_at(self.bitness, self.data, position, ip) {
                None => {
                    return Lookahead::Exhausted;
                },
                Some(peek) => {
                    if peek.negated_code == code {
                        return Lookahead::Guarded;
                    }
                    let next = position + peek.length;
                    if next == target {
                        return Lookahead::Aligned;
                    }
                    if next > target {
                        return Lookahead::Overrun;
                    }
                    position = next;
                },
            }
        }
    }

    /// Yields the next instruction of the stream and moves the cursor behind
    /// it, or yields nothing at the end of the data.
    pub fn next(&mut self) -> (r: Option<RawInstruction>)
        requires
            old(self).wf(),
        ensures
            final(self).wf(),
            final(self).spec_bitness() == old(self).spec_bitness(),
            final(self).spec_data() == old(self).spec_data(),
            final(self).spec_start() == old(self).spec_start(),
            r == step(old(self).spec_bitness(), old(self).spec_data(), old(self).spec_start(), old(self).spec_position()).0,
            final(self).spec_position() == step(old(self).spec_bitness(), old(self).spec_data(), old(self).spec_start(), old(self).spec_position()).1,
            r is Some ==> old(self).spec_position() < final(self).spec_position(),
            r matches Some(i) ==> old(self).spec_start() <= i.address < old(self).spec_start() + old(self).spec_data().len(),
            r is None ==> final(self).remaining() == Seq::<RawInstruction>::empty(),
            r matches Some(i) ==> old(self).remaining() == seq![i] + final(self).remaining(),
    {
        loop
            invariant
                self.wf(),
                self.bitness == old(self).bitness,
                self.data == old(self).data,
                self.start == old(self).start,
                old(self).position <= self.position,
                step(self.bitness, self.data@, self.start, self.position as int)
                    == step(self.bitness, self.data@, self.start, old(self).position as int),
            decreases self.data@.len() - self.position,
        {
            if self.position >= self.data.len() {
                return None;
            }
            let ip = self.start + self.position as u64;
            let i = match decode_at(self.bitness, self.data, self.position, ip) {
                None => {
                    return None;
                },
                Some(i) => i,
            };
            let after = self.position + i.length;
            let ip_after = ip + i.length as u64;
            let mut skip_to: Option<usize> = None;
            if i.short_branch() && i.near_branch_target > ip_after {
                let distance = i.near_branch_target - ip_after;
                if distance <= (self.data.len() - after) as u64 {
                    let target = after + distance as usize;
                    if self.peek(after, target, i.code) == Lookahead::Aligned {
                        skip_to = Some(target);
                    }
                } else {
                    proof {
                        if lookahead(self.bitness, self.data@, self.start, after as int, i.near_branch_target - self.start, i.code) == Lookahead::Aligned {
                            lemma_aligned_within(self.bitness, self.data@, self.start, after as int, i.near_branch_target - self.start, i.code);
                        }
                    }
                }
            }
            match skip_to {
                Some(target) => {
                    self.position = target;
                },
                None => {
                    self.position = after;
                    return Some(i);
                },
            }
        }
    }

    /// The listing entry of `i`, an instruction that this stream yielded.
    /// `None` when the address of `i` lies outside the data, or when the
    /// formatter could not be given the instruction.
    pub fn describe(&self, i: &RawInstruction) -> (r: Option<DecodedInstruction>)
        requires
            self.wf(),
        ensures
            r is Some <==> {
                &&& self.spec_start() <= i.address < self.spec_start() + self.spec_data().len()
                &&& described(self.spec_bitness(), self.spec_data(), self.spec_start(), *i) is Some
            },
            r matches Some(d) ==> Some(d@) == described(self.spec_bitness(), self.spec_data(), self.spec_start(), *i),
    {
        if i.address < self.start {
            return None;
        }
        let offset = i.address - self.start;
        if offset >= self.data.len() as u64 {
            return None;
        }
        let position = offset as usize;
        let mnemonic = mnemonic_at(self.bitness, self.data, position, i.address);
        let operands = operands_at(self.bitness, self.data, position, i.address);
        match (mnemonic, operands) {
            (Some(mnemonic), Some(operands)) => Some(
                DecodedInstruction { address: i.address, length: i.length, mnemonic, operands, target: i.target() },
            ),
            _ => None,
        }
    }

    /// Yields everything that is left of the stream.
    pub fn collect(&mut self) -> (r: Vec<RawInstruction>)
        requires
            old(self).wf(),
        ensures
            final(self).wf(),
            final(self).spec_bitness() == old(self).spec_bitness(),
            final(self).spec_data() == old(self).spec_data(),
            final(self).spec_start() == old(self).spec_start(),
            r@ == old(self).remaining(),
            final(self).remaining() == Seq::<RawInstruction>::empty(),
    {
        let mut out: Vec<RawInstruction> = Vec::new();
        loop
            invariant
                self.wf(),
                self.bitness == old(self).bitness,
                self.data == old(self).data,
                self.start == old(self).start,
                out@ + self.remaining() == old(self).remaining(),
            decreases self.data@.len() - self.position,
        {
            match self.next() {
                None => {
                    return out;
                },
                Some(i) => {
                    proof {
                        assert(out@.push(i) + self.remaining() =~= out@ + (seq![i] + self.remaining()));
                    }
                    out.push(i);
                },
            }
        }
    }
}

/// An instruction that is not a short branch is yielded as it is, and the
/// cursor moves behind it. A branch in its five-byte form is such an
/// instruction.
pub proof fn lemma_pass_through(bitness: u32, data: Seq<u8>, start: u64, position: int, i: RawInstruction)
    requires
        0 <= position < data.len(),
        x86_instruction_at(bitness, data, position, (start + position) as u64) == Some(i),
        1 <= i.length && position + i.length <= data.len(),
        i.length != SHORT_BRANCH_LENGTH || !i.is_short_branch(),
    ensures
        step(bitness, data, start, position) == (Some(i), position + i.length),
{
}

/// A short forward branch whose look-ahead ends exactly on its target is not
/// yielded: the stream goes on at the target as if it had started there.
pub proof fn lemma_elision(bitness: u32, data: Seq<u8>, start: u64, position: int, branch: RawInstruction)
    requires
        0 <= position < data.len(),
        x86_instruction_at(bitness, data, position, (start + position) as u64) == Some(branch),
        branch.is_short_branch(),
        branch.near_branch_target - start > position + branch.length,
        lookahead(bitness, data, start, position + branch.length, branch.near_branch_target - start, branch.code)
            == Lookahead::Aligned,
    ensures
        step(bitness, data, start, position) == step(bitness, data, start, branch.near_branch_target - start),
        stream(bitness, data, start, position) == stream(bitness, data, start, branch.near_branch_target - start),
{
    let target = branch.near_branch_target - start;
    lemma_aligned_within(bitness, data, start, position + branch.length, target, branch.code);
    assert(elides(bitness, data, start, position, branch));
    lemma_step_advances(bitness, data, start, target);
}

/// Behind a short forward branch whose look-ahead ends exactly on its
/// target, the next instruction yielded is the one at the target, where that
/// is no short branch itself, and the cursor then stands behind it.
pub proof fn lemma_elision_lands(bitness: u32, data: Seq<u8>, start: u64, position: int, branch: RawInstruction, at_target: RawInstruction)
    requires
        0 <= position < data.len(),
        x86_instruction_at(bitness, data, position, (start + position) as u64) == Some(branch),
        branch.is_short_branch(),
        branch.near_branch_target - start > position + branch.length,
        lookahead(bitness, data, start, position + branch.length, branch.near_branch_target - start, branch.code)
            == Lookahead::Aligned,
        x86_instruction_at(bitness, data, branch.near_branch_target - start, branch.near_branch_target) == Some(at_target),
        !at_target.is_short_branch(),
        1 <= at_target.length,
        branch.near_branch_target - start + at_target.length <= data.len(),
    ensures
        step(bitness, data, start, position) == (Some(at_target), branch.near_branch_target - start + at_target.length),
{
    let target = branch.near_branch_target - start;
    lemma_elision(bitness, data, start, position, branch);
    assert((start + target) as u64 == branch.near_branch_target);
}

/// A short forward branch whose look-ahead does not end exactly on its
/// target is yielded as it is, and the stream goes on at the byte behind it.
/// A look-ahead that meets the branch with the opposite condition is such a
/// one.
pub proof fn lemma_preservation(bitness: u32, data: Seq<u8>, start: u64, position: int, branch: RawInstruction)
    requires
        0 <= position < data.len(),
        x86_instruction_at(bitness, data, position, (start + position) as u64) == Some(branch),
        branch.is_short_branch(),
        position + branch.length <= data.len(),
        lookahead(bitness, data, start, position + branch.length, branch.near_branch_target - start, branch.code)
            != Lookahead::Aligned,
    ensures
        step(bitness, data, start, position) == (Some(branch), position + branch.length),
        stream(bitness, data, start, position) == seq![branch] + stream(bitness, data, start, position + branch.length),
{
}

/// The first instruction of a look-ahead decides it when it is the branch
/// with the opposite condition.
pub proof fn lemma_guarded_at_once(bitness: u32, data: Seq<u8>, start: u64, position: int, target: int, code: u32, peek: RawInstruction)
    requires
        0 <= position < data.len(),
        x86_instruction_at(bitness, data, position, (start + position) as u64) == Some(peek),
        peek.negated_code == code,
    ensures
        lookahead(bitness, data, start, position, target, code) == Lookahead::Guarded,
{
}

/// Decodes the whole of `data`, a run of `bitness`-bit code whose first byte
/// stands at address `start`, into its listing. `None` when the addresses of
/// the data would pass the end of the address space, or when the formatter
/// could not be given one of the instructions.
pub fn decode_stream(bitness: u32, data: &[u8], start: u64) -> (r: Option<Vec<DecodedInstruction>>)
    ensures
        r is Some <==> {
            &&& start + data@.len() <= u64::MAX
            &&& forall|k: int| 0 <= k < stream(bitness, data@, start, 0).len() ==> described(bitness, data@, start, #[trigger] stream(bitness, data@, start, 0)[k]) is Some
        },
        r matches Some(listing) ==> {
            &&& listing@.len() == stream(bitness, data@, start, 0).len()
            &&& forall|k: int| 0 <= k < listing@.len() ==> Some((#[trigger] listing@[k])@) == described(bitness, data@, start, stream(bitness, data@, start, 0)[k])
        },
{
    let mut cfo = match Cfo::new(bitness, data, start) {
        Some(cfo) => cfo,
        None => {
            return None;
        },
    };
    let ghost all = stream(bitness, data@, start, 0);
    let mut listing: Vec<DecodedInstruction> = Vec::new();
    loop
        invariant
            cfo.wf(),
            cfo.spec_bitness() == bitness,
            cfo.spec_data() == data@,
            cfo.spec_start() == start,
            start + data@.len() <= u64::MAX,
            all == stream(bitness, data@, start, 0),
            listing@.len() <= all.len(),
            all.subrange(listing@.len() as int, all.len() as int) == cfo.remaining(),
            forall|k: int| 0 <= k < listing@.len() ==> Some((#[trigger] listing@[k])@) == described(bitness, data@, start, all[k]),
        decreases data@.len() - cfo.spec_position(),
    {
        let ghost before = cfo.remaining();
        match cfo.next() {
            None => {
                proof {
                    assert(all.subrange(listing@.len() as int, all.len() as int).len() == 0);
                    assert forall|k: int| 0 <= k < all.len() implies described(bitness, data@, start, #[trigger] all[k]) is Some by {
                        assert(Some(listing@[k]@) == described(bitness, data@, start, all[k]));
                    }
                }
                return Some(listing);
            },
            Some(i) => {
                let ghost n = listing@.len() as int;
                proof {
                    let tail = all.subrange(n, all.len() as int);
                    let rest = cfo.remaining();
                    assert(tail == seq![i] + rest);
                    assert(tail.len() == 1 + rest.len());
                    assert(tail[0] == i);
                    assert(all[n] == i);
                    assert forall|j: int| 0 <= j < rest.len() implies all.subrange(n + 1, all.len() as int)[j] == rest[j] by {
                        assert(tail[j + 1] == rest[j]);
                    }
                    assert(all.subrange(n + 1, all.len() as int) =~= rest);
                }
                match cfo.describe(&i) {
                    None => {
                        proof {
                            assert(described(bitness, data@, start, all[n]) is None);
                        }
                        return None;
                    },
                    Some(d) => {
                        listing.push(d);
                    },
                }
            },
        }
    }
}

} // verus!
