//! The raw view of the bytes behind an address: rows of sixteen bytes,
//! aligned to addresses that are multiples of sixteen, each with its address,
//! its bytes in hexadecimal and its bytes as text.

use vstd::prelude::*;
use vstd::slice::slice_subrange;
use vstd::string::StringExecFns;
use crate::project::DataView;
use crate::text::hex_digits;
use crate::text::push_hex;
use crate::text::push_repeated;
use crate::text::push_text;
use crate::text::repeated;

verus! {

/// Bytes in one row.
pub const ROW_BYTES: usize = 16;

/// What the raw view shows: the address of its first byte, relative to the
/// base, and how many bytes there are.
pub ghost struct RawSpec {
    pub rva: u64,
    pub start: int,
    pub end: int,
}

impl RawSpec {
    /// Number of bytes shown.
    pub open spec fn len(self) -> int {
        if self.end >= self.start {
            self.end - self.start
        } else {
            0
        }
    }

    /// Cells that the first row leaves empty in front of its first byte.
    pub open spec fn indent(self) -> int {
        self.rva as int % 16
    }

    /// Number of rows.
    pub open spec fn rows(self) -> int {
        (self.len() + self.indent() + 15) / 16
    }

    /// Where the bytes of row `index` start among the bytes shown.
    pub open spec fn row_start(self, index: int) -> int {
        if index == 0 {
            0
        } else {
            index * 16 - self.indent()
        }
    }

    /// Where the bytes of row `index` end among the bytes shown.
    pub open spec fn row_end(self, index: int) -> int {
        if index * 16 + 16 - self.indent() < self.len() {
            index * 16 + 16 - self.indent()
        } else {
            self.len()
        }
    }

    /// Address in front of row `index`: the multiple of sixteen at or below
    /// the address of its first byte.
    pub open spec fn row_address(self, index: int) -> int {
        (self.rva as int / 16 + index) * 16
    }

    /// The bytes of row `index`, taken from `data`.
    pub open spec fn row_bytes(self, data: Seq<u8>, index: int) -> Seq<u8> {
        data.subrange(self.start + self.row_start(index), self.start + self.row_end(index))
    }

    /// Whether row `index` exists and `data` holds the bytes shown.
    pub open spec fn has_row(self, data: Seq<u8>, index: int) -> bool {
        0 <= index < self.rows() && 0 <= self.start <= self.end <= data.len()
    }
}

/// `bytes` in hexadecimal, two digits each, with a space between
/// neighbours.
pub open spec fn hex_bytes(bytes: Seq<u8>) -> Seq<char>
    decreases bytes.len(),
{
    if bytes.len() == 0 {
        Seq::empty()
    } else if bytes.len() == 1 {
        hex_digits(bytes[0] as nat, 2)
    } else {
        hex_bytes(bytes.drop_last()) + seq![' '] + hex_digits(bytes.last() as nat, 2)
    }
}

/// The character that shows `byte` as text: itself from the space to 0x7F,
/// a dot for the rest.
pub open spec fn shown(byte: u8) -> char {
    if 0x20 <= byte <= 0x7F {
        byte as char
    } else {
        '.'
    }
}

/// `bytes` as text, one character each.
pub open spec fn shown_bytes(bytes: Seq<u8>) -> Seq<char> {
    Seq::new(bytes.len(), |i: int| shown(bytes[i]))
}

/// The raw view of the bytes behind an address.
pub struct RawView {
    rva: u64,
    start: usize,
    end: usize,
}

impl View for RawView {
    type V = RawSpec;

    closed spec fn view(&self) -> RawSpec {
        RawSpec { rva: self.rva, start: self.start as int, end: self.end as int }
    }
}

impl RawView {
    /// The raw view of the bytes of `data_view`, the first of which stands
    /// at `rva`.
    pub fn new(rva: u64, data_view: DataView) -> (r: Self)
        ensures
            r@ == (RawSpec { rva, start: data_view.range.start as int, end: data_view.range.end as int }),
    {
        RawView { rva, start: data_view.range.start, end: data_view.range.end }
    }

    /// Title of the view: `Raw (` and the address in sixteen hexadecimal
    /// digits, then `)`.
    pub fn title(&self) -> (r: String)
        ensures
            r@ == "Raw ("@ + hex_digits(self@.rva as nat, 16) + ")"@,
    {
        let mut title = String::from_str("Raw (");
        push_hex(&mut title, self.rva, 16);
        push_text(&mut title, ")");
        title
    }

    /// Number of bytes shown.
    pub fn len(&self) -> (r: usize)
        ensures
            r == self@.len(),
    {
        if self.end >= self.start {
            self.end - self.start
        } else {
            0
        }
    }

    /// Number of rows.
    pub fn rows(&self) -> (r: usize)
        ensures
            r == self@.rows(),
    {
        let total = self.len() as u128 + (self.rva % 16) as u128 + 15;
        (total / 16) as usize
    }

    /// Address in front of row `index`, or nothing where the row does not
    /// exist or its address is not a 64-bit number.
    pub fn row_address(&self, index: usize) -> (r: Option<u64>)
        ensures
            r == if index < self@.rows() && self@.row_address(index as int) <= u64::MAX {
                Some(self@.row_address(index as int) as u64)
            } else {
                None
            },
    {
        if index >= self.rows() {
            return None;
        }
        let address = ((self.rva / 16) as u128 + index as u128) * 16;
        if address <= u64::MAX as u128 {
            Some(address as u64)
        } else {
            None
        }
    }

    /// The span of `data` that row `index` shows, or nothing where the row
    /// does not exist or `data` does not hold the bytes shown.
    pub fn row_span(&self, data: &[u8], index: usize) -> (r: Option<(usize, usize)>)
        ensures
            r is Some <==> self@.has_row(data@, index as int),
            r matches Some((from, to)) ==> {
                &&& from == self@.start + self@.row_start(index as int)
                &&& to == self@.start + self@.row_end(index as int)
                &&& from <= to <= data@.len()
                &&& to - from <= 16
            },
    {
        if index >= self.rows() || self.start > self.end || self.end > data.len() {
            return None;
        }
        let length = (self.end - self.start) as u128;
        let indent = (self.rva % 16) as u128;
        let first = if index == 0 {
            0
        } else {
            index as u128 * 16 - indent
        };
        let last = if index as u128 * 16 + 16 - indent < length {
            index as u128 * 16 + 16 - indent
        } else {
            length
        };
        Some((self.start + first as usize, self.start + last as usize))
    }

    /// The bytes of row `index` in hexadecimal. The first row is indented by
    /// three spaces for each cell that it leaves empty.
    pub fn row_hex(&self, data: &[u8], index: usize) -> (r: Option<String>)
        ensures
            r is Some <==> self@.has_row(data@, index as int),
            r matches Some(text) ==> text@ == repeated(' ', if index == 0 { (3 * self@.indent()) as nat } else { 0 })
                + hex_bytes(self@.row_bytes(data@, index as int)),
    {
        let (from, to) = match self.row_span(data, index) {
            Some(span) => span,
            None => {
                return None;
            },
        };
        let bytes = slice_subrange(data, from, to);
        let mut text = String::new();
        if index == 0 {
            push_repeated(&mut text, ' ', 3 * (self.rva % 16) as usize);
        }
        let ghost indent = text@;
        proof {
            assert(indent =~= repeated(' ', if index == 0 { (3 * self@.indent()) as nat } else { 0 }));
        }
        let mut i: usize = 0;
        while i < bytes.len()
            invariant
                i <= bytes@.len(),
                text@ == indent + hex_bytes(bytes@.take(i as int)),
            decreases bytes@.len() - i,
        {
            proof {
                assert(bytes@.take(i + 1).drop_last() =~= bytes@.take(i as int));
            }
            if i > 0 {
                text.push(' ');
            }
            push_hex(&mut text, bytes[i] as u64, 2);
            i += 1;
            proof {
                assert(text@ =~= indent + hex_bytes(bytes@.take(i as int)));
            }
        }
        proof {
            assert(bytes@.take(bytes@.len() as int) =~= bytes@);
        }
        Some(text)
    }

    /// The bytes of row `index` as text. The first row is indented by one
    /// space for each cell that it leaves empty.
    pub fn row_text(&self, data: &[u8], index: usize) -> (r: Option<String>)
        ensures
            r is Some <==> self@.has_row(data@, index as int),
            r matches Some(text) ==> text@ == repeated(' ', if index == 0 { self@.indent() as nat } else { 0 })
                + shown_bytes(self@.row_bytes(data@, index as int)),
    {
        let (from, to) = match self.row_span(data, index) {
            Some(span) => span,
            None => {
                return None;
            },
        };
        let bytes = slice_subrange(data, from, to);
        let mut text = String::new();
        if index == 0 {
            push_repeated(&mut text, ' ', (self.rva % 16) as usize);
        }
        let ghost indent = text@;
        proof {
            assert(indent =~= repeated(' ', if index == 0 { self@.indent() as nat } else { 0 }));
        }
        let mut i: usize = 0;
        while i < bytes.len()
            invariant
                i <= bytes@.len(),
                text@ == indent + shown_bytes(bytes@.take(i as int)),
            decreases bytes@.len() - i,
        {
            let byte = bytes[i];
            let c = if 0x20 <= byte && byte <= 0x7F {
                byte as char
            } else {
                '.'
            };
            text.push(c);
            i += 1;
            proof {
                assert(text@ =~= indent + shown_bytes(bytes@.take(i as int)));
            }
        }
        proof {
            assert(bytes@.take(bytes@.len() as int) =~= bytes@);
        }
        Some(text)
    }
}

/// The rows of a raw view show each of its bytes once: the first row starts
/// at the first byte, each row starts where the one before it ended, and the
/// last row ends at the last byte.
pub proof fn lemma_rows_tile(view: RawSpec, index: int)
    requires
        0 <= index < view.rows(),
    ensures
        view.row_start(0) == 0,
        view.row_start(index) <= view.row_end(index),
        index + 1 < view.rows() ==> view.row_end(index) == view.row_start(index + 1),
        index + 1 == view.rows() ==> view.row_end(index) == view.len(),
        index > 0 ==> view.row_start(index) < view.len(),
{
}

} // verus!
