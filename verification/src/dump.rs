//! Dumps of the bytes behind an address as the rows of a table: sixteen
//! bytes to a row, or one instruction to a row where the assembly is asked
//! for.

use vstd::prelude::*;
use vstd::string::StringExecFns;
use crate::assembly::AssemblyRow;
use crate::assembly::AssemblySpec;
use crate::assembly::AssemblyView;
use crate::assembly::RowSpec;
use crate::project::DataView;
use crate::project::DataViewType;
use crate::raw::hex_bytes;
use crate::raw::RawSpec;
use crate::raw::RawView;
use crate::text::decimal_digits;
use crate::text::hex_digits;
use crate::text::hex_plain;
use crate::text::push_decimal;
use crate::text::push_hex;
use crate::text::push_hex_plain;
use crate::text::push_text;
use crate::text::repeated;

verus! {

/// A column of a dump.
#[derive(Copy, Clone, Debug, PartialEq, Eq, Hash, Structural)]
pub enum DumpArgsColumn {
    /// Number of the row.
    Idx,
    /// Offset of the row from the address of the dump.
    Off,
    /// Address of the row.
    Va,
    /// Bytes of the row in hexadecimal.
    Raw,
    /// Instruction of the row.
    Asm,
}

/// What to dump: how many rows at most, and which columns.
pub struct DumpArgs {
    pub count: usize,
    pub format: Vec<DumpArgsColumn>,
}

impl DumpArgsColumn {
    /// The heading of the column.
    pub open spec fn spec_heading(self) -> Seq<char> {
        match self {
            DumpArgsColumn::Idx => "IDX"@,
            DumpArgsColumn::Off => "OFF"@,
            DumpArgsColumn::Va => "VA"@,
            DumpArgsColumn::Raw => "RAW"@,
            DumpArgsColumn::Asm => "ASM"@,
        }
    }

    /// The heading of the column.
    pub fn heading(&self) -> (r: String)
        ensures
            r@ == self.spec_heading(),
    {
        match self {
            DumpArgsColumn::Idx => String::from_str("IDX"),
            DumpArgsColumn::Off => String::from_str("OFF"),
            DumpArgsColumn::Va => String::from_str("VA"),
            DumpArgsColumn::Raw => String::from_str("RAW"),
            DumpArgsColumn::Asm => String::from_str("ASM"),
        }
    }
}

/// Whether the assembly is among the columns.
pub open spec fn wants_assembly(format: Seq<DumpArgsColumn>) -> bool {
    exists|k: int| 0 <= k < format.len() && #[trigger] format[k] == DumpArgsColumn::Asm
}

/// The raw view of a dump of `length` bytes at `address`.
pub open spec fn dumped(address: u64, length: int) -> RawSpec {
    RawSpec { rva: address, start: 0, end: length }
}

/// Number of rows of a raw dump: the rows that the bytes fill, `count` at
/// most.
pub open spec fn raw_row_count(address: u64, length: int, count: usize) -> int {
    if count < dumped(address, length).rows() {
        count as int
    } else {
        dumped(address, length).rows()
    }
}

/// The cell of row `index` of a raw dump of `data` in `column`: the number
/// of the row, its offset and its address in hexadecimal without leading
/// zeros, or its bytes, indented in the first row by three spaces for each
/// byte that the row leaves out. A raw dump has no assembly, and an offset
/// or an address that is no 64-bit number is left out.
pub open spec fn raw_cell(data: Seq<u8>, address: u64, index: int, column: DumpArgsColumn) -> Seq<char> {
    let view = dumped(address, data.len() as int);
    match column {
        DumpArgsColumn::Idx => hex_plain(index as nat),
        DumpArgsColumn::Off => if index * 16 <= u64::MAX {
            hex_plain((index * 16) as nat)
        } else {
            Seq::empty()
        },
        DumpArgsColumn::Va => if view.row_address(index) <= u64::MAX {
            hex_plain(view.row_address(index) as nat)
        } else {
            Seq::empty()
        },
        DumpArgsColumn::Raw => repeated(' ', if index == 0 { (3 * view.indent()) as nat } else { 0 }) + hex_bytes(
            view.row_bytes(data, index),
        ),
        DumpArgsColumn::Asm => Seq::empty(),
    }
}

/// The text of an instruction: its mnemonic, and its operands behind a
/// space where it has any.
pub open spec fn instruction_text(row: RowSpec) -> Seq<char> {
    if row.operands.len() == 0 {
        row.mnemonic
    } else {
        row.mnemonic + seq![' '] + row.operands
    }
}

/// The cell of row `index` of a dump of the assembly in `column`: the
/// number of the row in decimal, the offset of the instruction in
/// hexadecimal, its address in sixteen hexadecimal digits, its bytes, or its
/// text.
pub open spec fn assembly_cell(row: RowSpec, address: u64, index: int, column: DumpArgsColumn) -> Seq<char> {
    match column {
        DumpArgsColumn::Idx => decimal_digits(index as nat),
        DumpArgsColumn::Off => if row.address >= address {
            hex_plain((row.address - address) as nat)
        } else {
            Seq::empty()
        },
        DumpArgsColumn::Va => hex_digits(row.address as nat, 16),
        DumpArgsColumn::Raw => row.bytes,
        DumpArgsColumn::Asm => instruction_text(row),
    }
}

/// The rows that an assembly view loads from `data`, from where it stands
/// to the end of its code.
pub open spec fn loaded(view: AssemblySpec, data: Seq<u8>) -> Seq<RowSpec>
    decreases view.end - view.start - view.position,
{
    match view.next_row(data) {
        Some((row, after)) => if view.position < after <= view.end - view.start {
            seq![row] + loaded(AssemblySpec { position: after, rows: view.rows.push(row), ..view }, data)
        } else {
            seq![row]
        },
        None => Seq::empty(),
    }
}

/// The views of a run of texts.
pub open spec fn cells(row: Seq<String>) -> Seq<Seq<char>> {
    Seq::new(row.len(), |i: int| row[i]@)
}

/// The views of the rows of a table.
pub open spec fn grid(rows: Seq<Vec<String>>) -> Seq<Seq<Seq<char>>> {
    Seq::new(rows.len(), |i: int| cells(rows[i]@))
}

/// The rows of a dump of the assembly of `data`: one for each instruction
/// that an assembly view of 64-bit code loads from it.
pub open spec fn assembly_grid(data: Seq<u8>, address: u64, format: Seq<DumpArgsColumn>) -> Seq<Seq<Seq<char>>> {
    let rows = loaded(
        AssemblySpec {
            bitness: 64,
            address,
            start: 0,
            end: data.len() as int,
            position: 0,
            rows: Seq::empty(),
            scroll_to_row: None,
        },
        data,
    );
    Seq::new(rows.len(), |r: int| Seq::new(format.len(), |c: int| assembly_cell(rows[r], address, r, format[c])))
}

/// The rows of a dump of `data`, bytes that stand at `address`, with these
/// columns: one row for each instruction of 64-bit code where the assembly is
/// among the columns, else `count` rows of sixteen bytes at most.
pub open spec fn dump_rows(data: Seq<u8>, address: u64, count: usize, format: Seq<DumpArgsColumn>) -> Seq<Seq<Seq<char>>> {
    if wants_assembly(format) {
        assembly_grid(data, address, format)
    } else {
        Seq::new(
            raw_row_count(address, data.len() as int, count) as nat,
            |r: int| Seq::new(format.len(), |c: int| raw_cell(data, address, r, format[c])),
        )
    }
}

impl DumpArgs {
    /// The headings of the columns.
    pub fn headings(&self) -> (r: Vec<String>)
        ensures
            cells(r@) == Seq::new(self.format@.len(), |c: int| self.format@[c].spec_heading()),
    {
        let mut headings: Vec<String> = Vec::new();
        let mut c: usize = 0;
        while c < self.format.len()
            invariant
                c <= self.format@.len(),
                headings@.len() == c,
                forall|k: int| 0 <= k < c ==> (#[trigger] headings@[k])@ == self.format@[k].spec_heading(),
            decreases self.format@.len() - c,
        {
            headings.push(self.format[c].heading());
            c += 1;
        }
        proof {
            assert(cells(headings@) =~= Seq::new(self.format@.len(), |c: int| self.format@[c].spec_heading()));
        }
        headings
    }

    /// Whether the assembly is among the columns.
    pub fn assembly(&self) -> (r: bool)
        ensures
            r == wants_assembly(self.format@),
    {
        let mut c: usize = 0;
        while c < self.format.len()
            invariant
                c <= self.format@.len(),
                forall|k: int| 0 <= k < c ==> #[trigger] self.format@[k] != DumpArgsColumn::Asm,
            decreases self.format@.len() - c,
        {
            if self.format[c] == DumpArgsColumn::Asm {
                return true;
            }
            c += 1;
        }
        false
    }

    /// The rows of the dump of `data`, bytes that stand at `address`.
    pub fn rows(&self, data: &[u8], address: u64) -> (r: Vec<Vec<String>>)
        ensures
            grid(r@) == dump_rows(data@, address, self.count, self.format@),
    {
        if self.assembly() {
            self.assembly_rows(data, address)
        } else {
            self.raw_rows(data, address)
        }
    }

    fn raw_row(&self, view: &RawView, data: &[u8], address: u64, index: usize) -> (r: Vec<String>)
        requires
            view@ == dumped(address, data@.len() as int),
            index < view@.rows(),
        ensures
            cells(r@) == Seq::new(self.format@.len(), |c: int| raw_cell(data@, address, index as int, self.format@[c])),
    {
        let mut row: Vec<String> = Vec::new();
        let mut c: usize = 0;
        while c < self.format.len()
            invariant
                c <= self.format@.len(),
                index < view@.rows(),
                view@ == dumped(address, data@.len() as int),
                row@.len() == c,
                forall|k: int| 0 <= k < c ==> (#[trigger] row@[k])@ == raw_cell(data@, address, index as int, self.format@[k]),
            decreases self.format@.len() - c,
        {
            let mut cell = String::new();
            match self.format[c] {
                DumpArgsColumn::Idx => {
                    push_hex_plain(&mut cell, index as u64);
                },
                DumpArgsColumn::Off => {
                    let offset = index as u128 * 16;
                    if offset <= u64::MAX as u128 {
                        push_hex_plain(&mut cell, offset as u64);
                    }
                },
                DumpArgsColumn::Va => {
                    match view.row_address(index) {
                        Some(va) => {
                            push_hex_plain(&mut cell, va);
                        },
                        None => {},
                    }
                },
                DumpArgsColumn::Raw => {
                    let total = data.len();
                    match view.row_hex(data, index) {
                        Some(text) => {
                            cell = text;
                        },
                        None => {},
                    }
                },
                DumpArgsColumn::Asm => {},
            }
            proof {
                assert(cell@ =~= raw_cell(data@, address, index as int, self.format@[c as int]));
            }
            row.push(cell);
            c += 1;
        }
        proof {
            assert(cells(row@) =~= Seq::new(
                self.format@.len(),
                |c: int| raw_cell(data@, address, index as int, self.format@[c]),
            ));
        }
        row
    }

    fn raw_rows(&self, data: &[u8], address: u64) -> (r: Vec<Vec<String>>)
        ensures
            grid(r@) == Seq::new(
                raw_row_count(address, data@.len() as int, self.count) as nat,
                |r: int| Seq::new(self.format@.len(), |c: int| raw_cell(data@, address, r, self.format@[c])),
            ),
    {
        let view = RawView::new(address, DataView { type_: DataViewType::Raw, range: 0..data.len() });
        let limit = if self.count < view.rows() { self.count } else { view.rows() };
        let mut rows: Vec<Vec<String>> = Vec::new();
        let mut index: usize = 0;
        while index < limit
            invariant
                index <= limit,
                limit == raw_row_count(address, data@.len() as int, self.count),
                limit <= view@.rows(),
                view@ == dumped(address, data@.len() as int),
                rows@.len() == index,
                forall|r: int| 0 <= r < index ==> cells((#[trigger] rows@[r])@) == Seq::new(
                    self.format@.len(),
                    |c: int| raw_cell(data@, address, r, self.format@[c]),
                ),
            decreases limit - index,
        {
            let row = self.raw_row(&view, data, address, index);
            rows.push(row);
            index += 1;
        }
        proof {
            assert(grid(rows@) =~= Seq::new(
                limit as nat,
                |r: int| Seq::new(self.format@.len(), |c: int| raw_cell(data@, address, r, self.format@[c])),
            ));
        }
        rows
    }

    fn assembly_row(&self, listed: &AssemblyRow, address: u64, index: usize) -> (r: Vec<String>)
        ensures
            cells(r@) == Seq::new(
                self.format@.len(),
                |c: int| assembly_cell(listed@, address, index as int, self.format@[c]),
            ),
    {
        let mut row: Vec<String> = Vec::new();
        let mut c: usize = 0;
        while c < self.format.len()
            invariant
                c <= self.format@.len(),
                row@.len() == c,
                forall|k: int| 0 <= k < c ==> (#[trigger] row@[k])@ == assembly_cell(listed@, address, index as int, self.format@[k]),
            decreases self.format@.len() - c,
        {
            let mut cell = String::new();
            match self.format[c] {
                DumpArgsColumn::Idx => {
                    push_decimal(&mut cell, index);
                },
                DumpArgsColumn::Off => {
                    if listed.address >= address {
                        push_hex_plain(&mut cell, listed.address - address);
                    }
                },
                DumpArgsColumn::Va => {
                    push_hex(&mut cell, listed.address, 16);
                },
                DumpArgsColumn::Raw => {
                    push_text(&mut cell, listed.bytes.as_str());
                },
                DumpArgsColumn::Asm => {
                    push_text(&mut cell, listed.mnemonic.as_str());
                    if listed.operands.as_str().unicode_len() > 0 {
                        cell.push(' ');
                        push_text(&mut cell, listed.operands.as_str());
                    }
                },
            }
            proof {
                assert(cell@ =~= assembly_cell(listed@, address, index as int, self.format@[c as int]));
            }
            row.push(cell);
            c += 1;
        }
        proof {
            assert(cells(row@) =~= Seq::new(
                self.format@.len(),
                |c: int| assembly_cell(listed@, address, index as int, self.format@[c]),
            ));
        }
        row
    }

    fn assembly_rows(&self, data: &[u8], address: u64) -> (r: Vec<Vec<String>>)
        ensures
            grid(r@) == assembly_grid(data@, address, self.format@),
    {
        let mut view = AssemblyView::new(64, address, DataView { type_: DataViewType::Assembly, range: 0..data.len() });
        let ghost all = loaded(view@, data@);
        let mut rows: Vec<Vec<String>> = Vec::new();
        proof {
            assert(view@.rows + loaded(view@, data@) =~= all);
        }
        loop
            invariant
                view@.rows + loaded(view@, data@) == all,
                view@.start == 0,
                view@.end == data@.len(),
                all == loaded(
                    AssemblySpec {
                        bitness: 64,
                        address,
                        start: 0,
                        end: data@.len() as int,
                        position: 0,
                        rows: Seq::empty(),
                        scroll_to_row: None,
                    },
                    data@,
                ),
                rows@.len() == view@.rows.len(),
                forall|r: int| 0 <= r < rows@.len() ==> cells((#[trigger] rows@[r])@) == Seq::new(
                    self.format@.len(),
                    |c: int| assembly_cell(all[r], address, r, self.format@[c]),
                ),
            decreases data@.len() - view@.position,
        {
            let ghost before = view@;
            if !view.load_row(data) {
                proof {
                    assert(loaded(before, data@) =~= Seq::<RowSpec>::empty());
                    assert(view@.rows =~= all);
                    assert(grid(rows@) =~= assembly_grid(data@, address, self.format@));
                }
                return rows;
            }
            proof {
                let (loaded_row, after) = before.next_row(data@).unwrap();
                crate::cfo::lemma_step_advances(before.bitness, before.code(data@), before.address, before.position);
                assert(loaded(before, data@) == seq![loaded_row] + loaded(view@, data@));
                assert(view@.rows + loaded(view@, data@) =~= all);
                assert(all[view@.rows.len() - 1] == loaded_row);
            }
            let index = view.len() - 1;
            let row = match view.row(index) {
                Some(listed) => self.assembly_row(listed, address, index),
                None => Vec::new(),
            };
            rows.push(row);
        }
    }
}

} // verus!
