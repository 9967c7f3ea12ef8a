//! The assembly view of the code behind an address: one row for each
//! instruction of the stream, decoded as the rows are asked for.

use vstd::prelude::*;
use vstd::slice::slice_subrange;
use vstd::string::StringExecFns;
use crate::cfo::described;
use crate::cfo::step;
use crate::cfo::Cfo;
use crate::cfo::RawInstruction;
use crate::project::DataView;
use crate::raw::hex_bytes;
use crate::text::hex_digits;
use crate::text::push_hex;
use crate::text::push_text;

verus! {

/// One row of the view.
#[derive(Clone, Debug, PartialEq, Eq)]
pub struct AssemblyRow {
    pub address: u64,
    /// The bytes of the instruction in hexadecimal.
    pub bytes: String,
    pub mnemonic: String,
    pub operands: String,
    /// The address the instruction branches to, when its operand is one.
    pub target: Option<u64>,
}

/// What an `AssemblyRow` holds, with its texts as sequences.
pub ghost struct RowSpec {
    pub address: u64,
    pub bytes: Seq<char>,
    pub mnemonic: Seq<char>,
    pub operands: Seq<char>,
    pub target: Option<u64>,
}

impl View for AssemblyRow {
    type V = RowSpec;

    open spec fn view(&self) -> RowSpec {
        RowSpec {
            address: self.address,
            bytes: self.bytes@,
            mnemonic: self.mnemonic@,
            operands: self.operands@,
            target: self.target,
        }
    }
}

/// The views of a run of rows.
pub open spec fn row_views(rows: Seq<AssemblyRow>) -> Seq<RowSpec> {
    Seq::new(rows.len(), |i: int| rows[i]@)
}

/// The row of `i`, an instruction of the run `code` that starts at address
/// `start`.
pub open spec fn listed(bitness: u32, code: Seq<u8>, start: u64, i: RawInstruction) -> Option<RowSpec> {
    match described(bitness, code, start, i) {
        Some(text) => Some(
            RowSpec {
                address: i.address,
                bytes: hex_bytes(code.subrange(i.address - start, i.address - start + i.length)),
                mnemonic: text.mnemonic,
                operands: text.operands,
                target: text.target,
            },
        ),
        None => None,
    }
}

/// Whether a row of `rows` stands at `address`.
pub open spec fn has_row_at(rows: Seq<RowSpec>, address: u64) -> bool {
    exists|k: int| 0 <= k < rows.len() && (#[trigger] rows[k]).address == address
}

/// The state of an assembly view as a plain value.
pub ghost struct AssemblySpec {
    pub bitness: u32,
    pub address: u64,
    pub start: int,
    pub end: int,
    pub position: int,
    pub rows: Seq<RowSpec>,
    pub scroll_to_row: Option<usize>,
}

impl AssemblySpec {
    /// Whether `data` holds the code of the view, and every byte of it has
    /// an address.
    pub open spec fn fits(self, data: Seq<u8>) -> bool {
        &&& 0 <= self.start <= self.end <= data.len()
        &&& self.address + (self.end - self.start) <= u64::MAX
        &&& 0 <= self.position <= self.end - self.start
    }

    /// The code of the view, taken from `data`.
    pub open spec fn code(self, data: Seq<u8>) -> Seq<u8> {
        data.subrange(self.start, self.end)
    }

    /// The row that the view loads next from `data`, and the position
    /// behind its instruction. `None` at the end of the code.
    pub open spec fn next_row(self, data: Seq<u8>) -> Option<(RowSpec, int)> {
        if !self.fits(data) {
            None
        } else {
            let (yielded, after) = step(self.bitness, self.code(data), self.address, self.position);
            match yielded {
                Some(i) => match listed(self.bitness, self.code(data), self.address, i) {
                    Some(row) if self.address <= i.address && i.address - self.address + i.length <= self.end
                        - self.start => Some((row, after)),
                    _ => None,
                },
                None => None,
            }
        }
    }

    /// Whether `target` points into an instruction that was decoded: it lies
    /// in the code decoded so far, and no row stands there.
    pub open spec fn misaligned(self, target: u64) -> bool {
        self.address <= target < self.address + self.position && !has_row_at(self.rows, target)
    }
}

/// The assembly view of the code behind an address.
pub struct AssemblyView {
    bitness: u32,
    address: u64,
    start: usize,
    end: usize,
    position: usize,
    rows: Vec<AssemblyRow>,
    scroll_to_row: Option<usize>,
}

impl View for AssemblyView {
    type V = AssemblySpec;

    closed spec fn view(&self) -> AssemblySpec {
        AssemblySpec {
            bitness: self.bitness,
            address: self.address,
            start: self.start as int,
            end: self.end as int,
            position: self.position as int,
            rows: row_views(self.rows@),
            scroll_to_row: self.scroll_to_row,
        }
    }
}

impl AssemblyView {
    /// The view of the code of `data_view`, the first byte of which stands
    /// at `address`, with no row loaded.
    pub fn new(bitness: u32, address: u64, data_view: DataView) -> (r: Self)
        ensures
            r@ == (AssemblySpec {
                bitness,
                address,
                start: data_view.range.start as int,
                end: data_view.range.end as int,
                position: 0,
                rows: Seq::empty(),
                scroll_to_row: None,
            }),
    {
        let view = AssemblyView {
            bitness,
            address,
            start: data_view.range.start,
            end: data_view.range.end,
            position: 0,
            rows: Vec::new(),
            scroll_to_row: None,
        };
        proof {
            assert(row_views(view.rows@) =~= Seq::<RowSpec>::empty());
        }
        view
    }

    /// Title of the view: `Assembly (` and the address in sixteen
    /// hexadecimal digits, then `)`.
    pub fn title(&self) -> (r: String)
        ensures
            r@ == "Assembly ("@ + hex_digits(self@.address as nat, 16) + ")"@,
    {
        let mut title = String::from_str("Assembly (");
        push_hex(&mut title, self.address, 16);
        push_text(&mut title, ")");
        title
    }

    /// Number of rows loaded.
    pub fn len(&self) -> (r: usize)
        ensures
            r == self@.rows.len(),
    {
        self.rows.len()
    }

    /// The row at `index`, where it is loaded.
    pub fn row(&self, index: usize) -> (r: Option<&AssemblyRow>)
        ensures
            r is Some <==> index < self@.rows.len(),
            r matches Some(row) ==> row@ == self@.rows[index as int],
    {
        if index < self.rows.len() {
            Some(&self.rows[index])
        } else {
            None
        }
    }

    /// Address of the first byte that is not decoded yet.
    pub fn last_address(&self) -> (r: Option<u64>)
        ensures
            r == if self@.address + self@.position <= u64::MAX {
                Some((self@.address + self@.position) as u64)
            } else {
                None
            },
    {
        self.address.checked_add(self.position as u64)
    }

    /// Loads the next row from `data`: the next instruction of the stream
    /// over the code of the view. Gives `false`, and leaves the view as it
    /// is, at the end of the code and where `data` does not hold the code.
    pub fn load_row(&mut self, data: &[u8]) -> (r: bool)
        ensures
            match old(self)@.next_row(data@) {
                Some((row, after)) => r && final(self)@ == (AssemblySpec {
                    position: after,
                    rows: old(self)@.rows.push(row),
                    ..old(self)@
                }),
                None => !r && final(self)@ == old(self)@,
            },
    {
        if self.start > self.end || self.end > data.len() || self.position > self.end - self.start {
            return false;
        }
        let code = slice_subrange(data, self.start, self.end);
        let mut cfo = match Cfo::new(self.bitness, code, self.address) {
            Some(cfo) => cfo,
            None => {
                return false;
            },
        };
        cfo.seek(self.position);
        let i = match cfo.next() {
            Some(i) => i,
            None => {
                return false;
            },
        };
        let text = match cfo.describe(&i) {
            Some(text) => text,
            None => {
                return false;
            },
        };
        let offset = (i.address - self.address) as usize;
        if i.length > code.len() - offset {
            return false;
        }
        let bytes = slice_subrange(code, offset, offset + i.length);
        let mut hex = String::new();
        let mut k: usize = 0;
        while k < bytes.len()
            invariant
                k <= bytes@.len(),
                hex@ == hex_bytes(bytes@.take(k as int)),
            decreases bytes@.len() - k,
        {
            proof {
                assert(bytes@.take(k + 1).drop_last() =~= bytes@.take(k as int));
            }
            if k > 0 {
                hex.push(' ');
            }
            push_hex(&mut hex, bytes[k] as u64, 2);
            k += 1;
            proof {
                assert(hex@ =~= hex_bytes(bytes@.take(k as int)));
            }
        }
        proof {
            assert(bytes@.take(bytes@.len() as int) =~= bytes@);
        }
        let row = AssemblyRow {
            address: text.address,
            bytes: hex,
            mnemonic: text.mnemonic,
            operands: text.operands,
            target: text.target,
        };
        let ghost before = self.rows@;
        self.rows.push(row);
        self.position = cfo.position();
        proof {
            assert(row_views(self.rows@) =~= row_views(before).push(row@));
        }
        true
    }

    /// Index of the row that stands at `address`.
    pub fn row_of(&self, address: u64) -> (r: Option<usize>)
        ensures
            match r {
                Some(index) => index < self@.rows.len() && self@.rows[index as int].address == address,
                None => !has_row_at(self@.rows, address),
            },
    {
        let mut k: usize = 0;
        while k < self.rows.len()
            invariant
                k <= self.rows@.len(),
                forall|j: int| 0 <= j < k ==> (#[trigger] row_views(self.rows@)[j]).address != address,
            decreases self.rows@.len() - k,
        {
            if self.rows[k].address == address {
                return Some(k);
            }
            k += 1;
        }
        None
    }

    /// Whether `target` points into an instruction that was decoded, where
    /// no row stands: a branch to it lands between instructions.
    pub fn is_misaligned(&self, target: u64) -> (r: bool)
        ensures
            r == self@.misaligned(target),
    {
        if target < self.address || target - self.address >= self.position as u64 {
            return false;
        }
        self.row_of(target).is_none()
    }

    /// The operator chose the address `target` in a row. Where a row stands
    /// at it, the view scrolls there; else the address is handed back, to be
    /// opened elsewhere.
    pub fn select(&mut self, target: u64) -> (r: Option<u64>)
        ensures
            match r {
                Some(address) => address == target && !has_row_at(old(self)@.rows, target) && final(self)@ == old(
                    self,
                )@,
                None => final(self)@.scroll_to_row matches Some(index) && index < old(self)@.rows.len() && old(
                    self,
                )@.rows[index as int].address == target && final(self)@ == (AssemblySpec {
                    scroll_to_row: final(self)@.scroll_to_row,
                    ..old(self)@
                }),
            },
    {
        match self.row_of(target) {
            Some(index) => {
                self.scroll_to_row = Some(index);
                None
            },
            None => Some(target),
        }
    }

    /// The row to scroll to, if one was chosen since the last call.
    pub fn take_scroll(&mut self) -> (r: Option<usize>)
        ensures
            r == old(self)@.scroll_to_row,
            final(self)@ == (AssemblySpec { scroll_to_row: None, ..old(self)@ }),
    {
        let row = self.scroll_to_row;
        self.scroll_to_row = None;
        row
    }
}

} // verus!
