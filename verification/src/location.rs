//! The list of locations of an image: each labelled address with its kind
//! and its name, as the rows of a table.

use vstd::prelude::*;
use vstd::string::StringExecFns;
use crate::module::sum;
use crate::module::wrapping_sum;
use crate::project::Label;
use crate::project::LabelSpec;
use crate::text::hex_digits;
use crate::text::push_hex;

verus! {

/// What stands at a location.
#[derive(Copy, Clone, Debug, PartialEq, Eq, Structural)]
pub enum LocationType {
    EntryPoint,
    Export,
    TlsCallback,
}

impl LocationType {
    /// The text of the kind in the table.
    pub open spec fn spec_text(self) -> Seq<char> {
        match self {
            LocationType::EntryPoint => "Entry point"@,
            LocationType::Export => "Export"@,
            LocationType::TlsCallback => "TLS callback"@,
        }
    }

    /// The text of the kind in the table.
    pub fn text(&self) -> (r: String)
        ensures
            r@ == self.spec_text(),
    {
        match self {
            LocationType::EntryPoint => String::from_str("Entry point"),
            LocationType::Export => String::from_str("Export"),
            LocationType::TlsCallback => String::from_str("TLS callback"),
        }
    }
}

/// The kind of location that a label marks.
pub open spec fn kind_of(label: LabelSpec) -> LocationType {
    match label {
        LabelSpec::EntryPoint => LocationType::EntryPoint,
        LabelSpec::Export { .. } => LocationType::Export,
        LabelSpec::TlsCallback { .. } => LocationType::TlsCallback,
    }
}

/// The name that a label gives to its location: the name of an export, and
/// none for the other kinds.
pub open spec fn name_of(label: LabelSpec) -> Seq<char> {
    match label {
        LabelSpec::Export { name, .. } => name,
        _ => Seq::empty(),
    }
}

/// One labelled address.
#[derive(Clone, Debug, PartialEq, Eq)]
pub struct Location {
    address: u64,
    type_: LocationType,
    name: String,
}

/// What a `Location` holds, with its name as a sequence.
pub ghost struct LocationSpec {
    pub address: u64,
    pub type_: LocationType,
    pub name: Seq<char>,
}

impl LocationSpec {
    /// The three cells of the location's row: its address in sixteen
    /// hexadecimal digits, its kind, and its name.
    pub open spec fn row(self) -> (Seq<char>, Seq<char>, Seq<char>) {
        (hex_digits(self.address as nat, 16), self.type_.spec_text(), self.name)
    }
}

impl View for Location {
    type V = LocationSpec;

    closed spec fn view(&self) -> LocationSpec {
        LocationSpec { address: self.address, type_: self.type_, name: self.name@ }
    }
}

impl Location {
    /// The location at `address`.
    pub fn new(address: u64, type_: LocationType, name: String) -> (r: Self)
        ensures
            r@ == (LocationSpec { address, type_, name: name@ }),
    {
        Location { address, type_, name }
    }

    /// The location that `label` marks at `rva` in an image based at `base`.
    pub fn of_label(base: u64, rva: u64, label: &Label) -> (r: Self)
        ensures
            r@ == (LocationSpec { address: wrapping_sum(base, rva), type_: kind_of(label@), name: name_of(label@) }),
    {
        let address = sum(base, rva);
        match label {
            Label::EntryPoint => Location { address, type_: LocationType::EntryPoint, name: String::new() },
            Label::Export { name, .. } => Location { address, type_: LocationType::Export, name: name.clone() },
            Label::TlsCallback { .. } => Location { address, type_: LocationType::TlsCallback, name: String::new() },
        }
    }

    /// Address of the location.
    pub fn address(&self) -> (r: u64)
        ensures
            r == self@.address,
    {
        self.address
    }

    /// Kind of the location.
    pub fn kind(&self) -> (r: LocationType)
        ensures
            r == self@.type_,
    {
        self.type_
    }

    /// Name of the location.
    pub fn name(&self) -> (r: &str)
        ensures
            r@ == self@.name,
    {
        self.name.as_str()
    }

    /// The three cells of the location's row.
    pub fn row(&self) -> (r: (String, String, String))
        ensures
            (r.0@, r.1@, r.2@) == self@.row(),
    {
        let mut address = String::new();
        push_hex(&mut address, self.address, 16);
        proof {
            assert(address@ =~= hex_digits(self.address as nat, 16));
        }
        (address, self.type_.text(), self.name.clone())
    }
}

/// The views of a run of locations.
pub open spec fn location_views(locations: Seq<Location>) -> Seq<LocationSpec> {
    Seq::new(locations.len(), |i: int| locations[i]@)
}

/// The table of locations.
pub struct LocationView {
    locations: Vec<Location>,
}

impl View for LocationView {
    type V = Seq<LocationSpec>;

    closed spec fn view(&self) -> Seq<LocationSpec> {
        location_views(self.locations@)
    }
}

impl LocationView {
    /// The table of `locations`, in their order.
    pub fn new(locations: Vec<Location>) -> (r: Self)
        ensures
            r@ == location_views(locations@),
    {
        LocationView { locations }
    }

    /// Title of the table.
    pub fn title(&self) -> (r: String)
        ensures
            r@ == "Locations"@,
    {
        String::from_str("Locations")
    }

    /// Number of rows.
    pub fn len(&self) -> (r: usize)
        ensures
            r == self@.len(),
    {
        self.locations.len()
    }

    /// The cells of row `index`, or nothing past the last row.
    pub fn row(&self, index: usize) -> (r: Option<(String, String, String)>)
        ensures
            r is Some <==> index < self@.len(),
            r matches Some(cells) ==> (cells.0@, cells.1@, cells.2@) == self@[index as int].row(),
    {
        if index < self.locations.len() {
            Some(self.locations[index].row())
        } else {
            None
        }
    }

    /// The address to go to when row `index` is chosen.
    pub fn address_at(&self, index: usize) -> (r: Option<u64>)
        ensures
            r == if index < self@.len() { Some(self@[index as int].address) } else { None },
    {
        if index < self.locations.len() {
            Some(self.locations[index].address())
        } else {
            None
        }
    }
}

} // verus!
