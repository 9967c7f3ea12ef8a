//! An image opened from a file: its bytes, its base, and the labels that its
//! entry point, exports and thread-local-storage callbacks give to addresses.

use vstd::prelude::*;
use vstd::string::StringExecFns;
use std::collections::BTreeMap;
use std::ops::Range;
use crate::image::callbacks_in;
use crate::image::image_callback_bytes;
use crate::image::image_parses;
use crate::image::machine_supported;
use crate::image::pe_exports_of;
use crate::image::pe_headers_of;
use crate::image::read_exports;
use crate::image::located;
use crate::image::wrapping_difference;
use crate::image::difference;
use crate::image::ExportSpec;
use crate::image::export_views;
use crate::image::Image;
use crate::text::byte_chars;
use crate::text::push_bytes;
use crate::image::ImageError;
use crate::image::ImageHeaders;

verus! {

/// What stands at a labelled address.
#[derive(Clone, Debug, PartialEq, Eq)]
pub enum Label {
    EntryPoint,
    Export { ordinal: u32, name: String },
    TlsCallback { ordinal: u32 },
}

/// What a `Label` holds, with its name as a sequence.
pub ghost enum LabelSpec {
    EntryPoint,
    Export { ordinal: u32, name: Seq<char> },
    TlsCallback { ordinal: u32 },
}

impl View for Label {
    type V = LabelSpec;

    open spec fn view(&self) -> LabelSpec {
        match self {
            Label::EntryPoint => LabelSpec::EntryPoint,
            Label::Export { ordinal, name } => LabelSpec::Export { ordinal: *ordinal, name: name@ },
            Label::TlsCallback { ordinal } => LabelSpec::TlsCallback { ordinal: *ordinal },
        }
    }
}

impl LabelSpec {
    /// The text that stands for the label in a listing.
    pub open spec fn text(self) -> Seq<char> {
        match self {
            LabelSpec::EntryPoint => "Entry point"@,
            LabelSpec::Export { name, .. } => name,
            LabelSpec::TlsCallback { .. } => "TLS callback"@,
        }
    }
}

impl Label {
    /// The text that stands for the label in a listing: the name of an
    /// export, and a fixed text for the other kinds.
    pub fn text(&self) -> (r: String)
        ensures
            r@ == self@.text(),
    {
        match self {
            Label::EntryPoint => String::from_str("Entry point"),
            Label::Export { name, .. } => name.clone(),
            Label::TlsCallback { .. } => String::from_str("TLS callback"),
        }
    }
}

/// How the bytes behind an address are shown.
#[derive(Copy, Clone, Debug, PartialEq, Eq, Structural)]
pub enum DataViewType {
    Raw,
    Assembly,
}

/// The bytes from an address to the end of its section, and how to show
/// them.
pub struct DataView {
    pub type_: DataViewType,
    pub range: Range<usize>,
}

/// The views of the labels of a map.
pub open spec fn label_views(labels: Map<u64, Label>) -> Map<u64, LabelSpec> {
    Map::new(|rva: u64| labels.contains_key(rva), |rva: u64| labels[rva]@)
}

/// The label of the entry point, where the image names one.
pub open spec fn entry_label(headers: ImageHeaders) -> Map<u64, LabelSpec> {
    if headers.entry_point != 0 {
        Map::<u64, LabelSpec>::empty().insert(headers.entry_point as u64, LabelSpec::EntryPoint)
    } else {
        Map::<u64, LabelSpec>::empty()
    }
}

/// The label of an export: its ordinal and its name, each byte of which
/// is taken as the character with its number. An export without a name has
/// an empty one.
pub open spec fn export_label(export: ExportSpec) -> LabelSpec {
    LabelSpec::Export {
        ordinal: export.ordinal,
        name: match export.name {
            Some(name) => byte_chars(name),
            None => Seq::empty(),
        },
    }
}

/// `labels` with the label of each export that has an address of its own,
/// later exports over earlier ones.
pub open spec fn with_exports(labels: Map<u64, LabelSpec>, exports: Seq<ExportSpec>) -> Map<u64, LabelSpec>
    decreases exports.len(),
{
    if exports.len() == 0 {
        labels
    } else {
        let before = with_exports(labels, exports.drop_last());
        match exports.last().target {
            Some(rva) => before.insert(rva as u64, export_label(exports.last())),
            None => before,
        }
    }
}

/// `labels` with the label of each callback, at its address relative to
/// `base`, later callbacks over earlier ones.
pub open spec fn with_callbacks(labels: Map<u64, LabelSpec>, callbacks: Seq<u64>, base: u64) -> Map<u64, LabelSpec>
    decreases callbacks.len(),
{
    if callbacks.len() == 0 {
        labels
    } else {
        with_callbacks(labels, callbacks.drop_last(), base).insert(
            wrapping_difference(callbacks.last(), base),
            LabelSpec::TlsCallback { ordinal: (callbacks.len() - 1) as u32 },
        )
    }
}

/// The callbacks of the image in `data`: none for an image without a
/// callback array, `None` for an array without its terminator.
pub open spec fn image_callbacks(data: Seq<u8>) -> Option<Seq<u64>> {
    match image_callback_bytes(data) {
        None => Some(Seq::empty()),
        Some(bytes) => callbacks_in(bytes),
    }
}

/// The labels of the image in `data`, or why it does not resolve.
pub open spec fn resolved_labels(data: Seq<u8>) -> Result<Map<u64, LabelSpec>, ImageError> {
    if !image_parses(data) {
        Err(ImageError::Malformed)
    } else if !machine_supported(pe_headers_of(data).unwrap().machine) {
        Err(ImageError::UnsupportedImage)
    } else {
        match (pe_exports_of(data), image_callbacks(data)) {
            (Some(exports), Some(callbacks)) => {
                if callbacks.len() > u32::MAX {
                    Err(ImageError::Malformed)
                } else {
                    Ok(
                        with_callbacks(
                            with_exports(
                                entry_label(pe_headers_of(data).unwrap()),
                                match exports {
                                    Some(list) => list,
                                    None => Seq::empty(),
                                },
                            ),
                            callbacks,
                            pe_headers_of(data).unwrap().image_base,
                        ),
                    )
                }
            },
            _ => Err(ImageError::Malformed),
        }
    }
}

fn put_label(labels: &mut BTreeMap<u64, Label>, rva: u64, label: Label)
    ensures
        final(labels)@ == old(labels)@.insert(rva, label),
{
    broadcast use vstd::laws_cmp::group_laws_cmp;

    labels.insert(rva, label);
}

/// An image opened from a file.
pub struct Project {
    data: Vec<u8>,
    base: u64,
    image: Image,
    pub label_by_rva: BTreeMap<u64, Label>,
}

impl Project {
    /// The bytes of the image.
    pub closed spec fn spec_data(&self) -> Seq<u8> {
        self.data@
    }

    /// The address the image asks to be loaded at.

    pub closed spec fn spec_base(&self) -> u64 {
        self.base
    }

    /// The labels of the project, by address relative to the base.
    pub closed spec fn spec_labels(&self) -> Map<u64, LabelSpec> {
        label_views(self.label_by_rva@)
    }

    /// The headers and sections that the project keeps are those of its
    /// bytes.
    pub closed spec fn wf(&self) -> bool {
        &&& self.image.is_image_of(self.data@)
        &&& self.base == self.image.headers.image_base
    }

    /// Opens the image in `data`: reads its base and labels its entry
    /// point, where it names one, its exports that have an address of their
    /// own, and its thread-local-storage callbacks.
    pub fn new(data: Vec<u8>) -> (r: Result<Self, ImageError>)
        ensures
            match (r, resolved_labels(data@)) {
                (Ok(project), Ok(labels)) => {
                    &&& project.wf()
                    &&& project.spec_data() == data@
                    &&& project.spec_base() == pe_headers_of(data@).unwrap().image_base
                    &&& project.spec_labels() == labels
                },
                (Err(e), Err(expected)) => e == expected,
                _ => false,
            },
    {
        let image = match Image::parse(data.as_slice()) {
            Ok(image) => image,
            Err(e) => {
                return Err(e);
            },
        };
        let base = image.headers.image_base;
        let mut labels: BTreeMap<u64, Label> = BTreeMap::new();
        if image.headers.entry_point != 0 {
            put_label(&mut labels, image.headers.entry_point as u64, Label::EntryPoint);
        }
        proof {
            assert(label_views(labels@) =~= entry_label(image.headers));
        }
        let exports = match read_exports(data.as_slice()) {
            Ok(Some(exports)) => exports,
            Ok(None) => Vec::new(),
            Err(_) => {
                return Err(ImageError::Malformed);
            },
        };
        let ghost listed = match pe_exports_of(data@).unwrap() {
            Some(list) => list,
            None => Seq::empty(),
        };
        proof {
            assert(export_views(exports@) =~= listed);
        }
        let mut i: usize = 0;
        while i < exports.len()
            invariant
                i <= exports@.len(),
                export_views(exports@) == listed,
                label_views(labels@) == with_exports(entry_label(image.headers), listed.take(i as int)),
            decreases exports@.len() - i,
        {
            proof {
                assert(listed.take(i + 1).drop_last() =~= listed.take(i as int));
                assert(listed.take(i + 1).last() == exports@[i as int]@);
            }
            match exports[i].target {
                Some(rva) => {
                    let mut name = String::new();
                    match &exports[i].name {
                        Some(bytes) => {
                            push_bytes(&mut name, bytes.as_slice());
                        },
                        None => {},
                    }
                    proof {
                        assert(name@ =~= export_label(exports@[i as int]@)->Export_name);
                    }
                    let ghost before = labels@;
                    let label = Label::Export { ordinal: exports[i].ordinal, name };
                    put_label(&mut labels, rva as u64, label);
                    proof {
                        assert(label@ == export_label(exports@[i as int]@));
                        assert(label_views(labels@) =~= label_views(before).insert(rva as u64, label@));
                    }
                },
                None => {},
            }
            i += 1;
        }
        proof {
            assert(listed.take(exports@.len() as int) =~= listed);
        }
        let callbacks = match image.callbacks(data.as_slice()) {
            Ok(callbacks) => callbacks,
            Err(e) => {
                return Err(e);
            },
        };
        if callbacks.len() as u64 > u32::MAX as u64 {
            return Err(ImageError::Malformed);
        }
        let ghost exported = with_exports(entry_label(image.headers), listed);
        let mut k: usize = 0;
        while k < callbacks.len()
            invariant
                k <= callbacks@.len(),
                callbacks@.len() <= u32::MAX,
                label_views(labels@) == with_callbacks(exported, callbacks@.take(k as int), base),
            decreases callbacks@.len() - k,
        {
            proof {
                assert(callbacks@.take(k + 1).drop_last() =~= callbacks@.take(k as int));
            }
            let ghost before = labels@;
            let label = Label::TlsCallback { ordinal: k as u32 };
            put_label(&mut labels, difference(callbacks[k], base), label);
            proof {
                assert(label_views(labels@) =~= label_views(before).insert(
                    wrapping_difference(callbacks@[k as int], base),
                    label@,
                ));
            }
            k += 1;
        }
        proof {
            assert(callbacks@.take(callbacks@.len() as int) =~= callbacks@);
        }
        Ok(Project { data, base, image, label_by_rva: labels })
    }

    /// The labels of the project, by address relative to the base.
    pub fn labels(&self) -> (r: &BTreeMap<u64, Label>)
        ensures
            label_views(r@) == self.spec_labels(),
    {
        &self.label_by_rva
    }

    /// The bytes of the image.
    pub fn data(&self) -> (r: &[u8])
        ensures
            r@ == self.spec_data(),
    {
        self.data.as_slice()
    }

    /// The address the image asks to be loaded at.
    pub fn base(&self) -> (r: u64)
        ensures
            r == self.spec_base(),
    {
        self.base
    }

    /// Width of the image's code in bits.
    pub fn bitness(&self) -> (r: u32)
        requires
            self.wf(),
        ensures
            r == if pe_headers_of(self.spec_data()).unwrap().machine == crate::image::MACHINE_I386 { 32u32 } else { 64u32 },
    {
        self.image.bitness()
    }

    /// Finds the section that contains `rva` and the bytes from `rva` to the
    /// end of that section: shown as assembly where the section holds code or
    /// may be executed, else raw. `None` where no section contains `rva` or
    /// the data does not hold those bytes.
    pub fn data_view(&self, rva: u64) -> (r: Option<DataView>)
        requires
            self.wf(),
        ensures
            match located(crate::image::pe_sections_of(self.spec_data()).unwrap(), self.spec_data().len() as int, rva) {
                Some((executable, start, end)) => r matches Some(view) && view.range.start == start && view.range.end
                    == end && view.type_ == if executable { DataViewType::Assembly } else { DataViewType::Raw },
                None => r is None,
            },
    {
        match self.image.locate(self.data.len(), rva) {
            Some((executable, start, end)) => Some(
                DataView {
                    type_: if executable {
                        DataViewType::Assembly
                    } else {
                        DataViewType::Raw
                    },
                    range: start..end,
                },
            ),
            None => None,
        }
    }
}

} // verus!
