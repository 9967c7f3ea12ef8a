//! The table of labels of a project: one row for each labelled address.

use vstd::prelude::*;
use vstd::string::StringExecFns;
use crate::location::kind_of;
use crate::location::name_of;
use crate::location::Location;
use crate::module::wrapping_sum;
use crate::project::Label;
use crate::project::LabelSpec;
use crate::text::hex_digits;
use crate::text::push_hex;

verus! {

/// The table of labels.
#[derive(Copy, Clone, Debug, Default, PartialEq, Eq)]
pub struct LabelView;

/// The three cells of the row of `label` at `rva`: the address relative to
/// the base in sixteen hexadecimal digits, the kind, and the name.
pub open spec fn label_row(rva: u64, label: LabelSpec) -> (Seq<char>, Seq<char>, Seq<char>) {
    (hex_digits(rva as nat, 16), kind_of(label).spec_text(), name_of(label))
}

impl LabelView {
    /// Title of the table.
    pub fn title(&self) -> (r: String)
        ensures
            r@ == "Labels"@,
    {
        String::from_str("Labels")
    }

    /// The three cells of the row of `label` at `rva`.
    pub fn row(&self, rva: u64, label: &Label) -> (r: (String, String, String))
        ensures
            (r.0@, r.1@, r.2@) == label_row(rva, label@),
    {
        let location = Location::of_label(0, rva, label);
        let mut address = String::new();
        push_hex(&mut address, rva, 16);
        proof {
            assert(address@ =~= hex_digits(rva as nat, 16));
        }
        (address, location.kind().text(), location.name().to_owned())
    }

    /// The text that copying the address of a row puts on the clipboard: the
    /// address in the loaded image, in sixteen hexadecimal digits.
    pub fn address_text(&self, base: u64, rva: u64) -> (r: String)
        ensures
            r@ == hex_digits(wrapping_sum(base, rva) as nat, 16),
    {
        let mut address = String::new();
        push_hex(&mut address, crate::module::sum(base, rva), 16);
        proof {
            assert(address@ =~= hex_digits(wrapping_sum(base, rva) as nat, 16));
        }
        address
    }
}

} // verus!
