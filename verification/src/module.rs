//! A module of a process: its name, where it is loaded, and the symbols that
//! its image gives to addresses.
//!
//! A module keeps no bytes. Each question is answered from the image as it
//! is handed in, so that a module of a running target is always resolved
//! from what the target holds now.

use vstd::prelude::*;
use vstd::string::StringExecFns;
use crate::image::callback_at;
use crate::image::image_callback_bytes;
use crate::image::image_parses;
use crate::image::machine_supported;
use crate::image::pe_headers_of;
use crate::image::pe_sections_of;
use crate::image::Image;
use crate::image::ImageError;
use crate::image::ImageHeaders;
use crate::project::image_callbacks;
use crate::image::located;
use crate::project::DataViewType;
use crate::text::decimal_digits;
use crate::text::decimal_value;
use crate::text::has_prefix;
use crate::text::parse_decimal;
use crate::text::push_decimal;
use crate::text::same_text;

verus! {

/// `a + b` in 64-bit arithmetic that wraps around.
pub open spec fn wrapping_sum(a: u64, b: u64) -> u64 {
    if a + b <= u64::MAX {
        (a + b) as u64
    } else {
        (a + b - 0x1_0000_0000_0000_0000) as u64
    }
}

/// `a + b` in 64-bit arithmetic that wraps around.
pub fn sum(a: u64, b: u64) -> (r: u64)
    ensures
        r == wrapping_sum(a, b),
{
    if b <= u64::MAX - a {
        a + b
    } else {
        b - (u64::MAX - a) - 1
    }
}

/// Address of the entry point of an image with these headers.
pub open spec fn entry_address(headers: ImageHeaders) -> u64 {
    wrapping_sum(headers.image_base, headers.entry_point as u64)
}

/// Name of the callback with ordinal `n`.
pub open spec fn callback_name(n: nat) -> Seq<char> {
    "tls_callback_"@ + decimal_digits(n)
}

/// The symbols of the callbacks `callbacks`, each named by its ordinal.
pub open spec fn callback_symbols(callbacks: Seq<u64>) -> Seq<(Seq<char>, u64)> {
    Seq::new(callbacks.len(), |k: int| (callback_name(k as nat), callbacks[k]))
}

/// The symbols of the image in `data`, or why it does not resolve: the entry
/// point, where the image names one, then the thread-local-storage callbacks
/// by ordinal.
pub open spec fn resolved_symbols(data: Seq<u8>) -> Result<Seq<(Seq<char>, u64)>, ImageError> {
    if !image_parses(data) {
        Err(ImageError::Malformed)
    } else if !machine_supported(pe_headers_of(data).unwrap().machine) {
        Err(ImageError::UnsupportedImage)
    } else {
        match image_callbacks(data) {
            None => Err(ImageError::Malformed),
            Some(callbacks) => {
                let headers = pe_headers_of(data).unwrap();
                Ok(
                    if headers.entry_point != 0 {
                        seq![("entry_point"@, entry_address(headers))] + callback_symbols(callbacks)
                    } else {
                        callback_symbols(callbacks)
                    },
                )
            },
        }
    }
}

/// The address of the symbol `name` of the image in `data`.
pub open spec fn resolved_symbol(data: Seq<u8>, name: Seq<char>) -> Option<u64> {
    if !image_parses(data) || !machine_supported(pe_headers_of(data).unwrap().machine) {
        None
    } else if name == "entry_point"@ {
        if pe_headers_of(data).unwrap().entry_point != 0 {
            Some(entry_address(pe_headers_of(data).unwrap()))
        } else {
            None
        }
    } else if "tls_callback_"@.len() <= name.len() && name.take("tls_callback_"@.len() as int) == "tls_callback_"@ {
        match (decimal_value(name.skip("tls_callback_"@.len() as int)), image_callback_bytes(data)) {
            (Some(n), Some(bytes)) => callback_at(bytes, n),
            _ => None,
        }
    } else {
        None
    }
}

/// The views of a run of symbols.
pub open spec fn symbol_views(symbols: Seq<(String, u64)>) -> Seq<(Seq<char>, u64)> {
    Seq::new(symbols.len(), |i: int| (symbols[i].0@, symbols[i].1))
}

/// Whether `answer` is what resolving the symbols of `data` gives.
pub open spec fn resolves_to(data: Seq<u8>, answer: Result<Vec<(String, u64)>, ImageError>) -> bool {
    match (answer, resolved_symbols(data)) {
        (Ok(symbols), Ok(expected)) => symbol_views(symbols@) == expected,
        (Err(e), Err(expected)) => e == expected,
        _ => false,
    }
}

/// A module of a process.
pub struct Module {
    name: String,
    base: u64,
    size: usize,
}

impl Module {
    /// Name of the module.
    pub closed spec fn spec_name(&self) -> Seq<char> {
        self.name@
    }

    /// Address the module is loaded at.

    pub closed spec fn spec_base(&self) -> u64 {
        self.base
    }

    /// Bytes the module takes in memory.

    pub closed spec fn spec_size(&self) -> usize {
        self.size
    }

    /// A module with the name, base and size that the system reports.
    pub fn new(name: String, base: u64, size: usize) -> (r: Self)
        ensures
            r.spec_name() == name@,
            r.spec_base() == base,
            r.spec_size() == size,
    {
        Module { name, base, size }
    }

    /// The module whose image `image` is loaded at `base`: its size is the
    /// image size of the headers. Fails as `Image::parse` does.
    pub fn open(name: String, base: u64, image: &[u8]) -> (r: Result<Self, ImageError>)
        ensures
            match r {
                Ok(module) => {
                    &&& image_parses(image@)
                    &&& machine_supported(pe_headers_of(image@).unwrap().machine)
                    &&& module.spec_name() == name@
                    &&& module.spec_base() == base
                    &&& module.spec_size() == pe_headers_of(image@).unwrap().size_of_image
                },
                Err(ImageError::Malformed) => !image_parses(image@),
                Err(ImageError::UnsupportedImage) => image_parses(image@) && !machine_supported(
                    pe_headers_of(image@).unwrap().machine,
                ),
            },
    {
        match Image::parse(image) {
            Ok(parsed) => Ok(Module { name, base, size: parsed.headers.size_of_image as usize }),
            Err(e) => Err(e),
        }
    }

    /// Name of the module.
    pub fn name(&self) -> (r: &str)
        ensures
            r@ == self.spec_name(),
    {
        self.name.as_str()
    }

    /// Address the module is loaded at.
    pub fn base(&self) -> (r: u64)
        ensures
            r == self.spec_base(),
    {
        self.base
    }

    /// Bytes the module takes in memory.
    pub fn size(&self) -> (r: usize)
        ensures
            r == self.spec_size(),
    {
        self.size
    }

    /// Every symbol of the module, resolved from `image`: `entry_point`,
    /// where the image names one, then `tls_callback_0`, `tls_callback_1` and
    /// so on.
    pub fn symbols(&self, image: &[u8]) -> (r: Result<Vec<(String, u64)>, ImageError>)
        ensures
            resolves_to(image@, r),
    {
        let parsed = match Image::parse(image) {
            Ok(parsed) => parsed,
            Err(e) => {
                return Err(e);
            },
        };
        let callbacks = match parsed.callbacks(image) {
            Ok(callbacks) => callbacks,
            Err(e) => {
                return Err(e);
            },
        };
        let mut symbols: Vec<(String, u64)> = Vec::new();
        if parsed.headers.entry_point != 0 {
            symbols.push(
                (String::from_str("entry_point"), sum(parsed.headers.image_base, parsed.headers.entry_point as u64)),
            );
        }
        let ghost head = symbol_views(symbols@);
        let mut k: usize = 0;
        while k < callbacks.len()
            invariant
                k <= callbacks@.len(),
                symbol_views(symbols@) == head + callback_symbols(callbacks@.take(k as int)),
            decreases callbacks@.len() - k,
        {
            let mut name = String::from_str("tls_callback_");
            push_decimal(&mut name, k);
            let ghost before = symbols@;
            let ghost label = name@;
            symbols.push((name, callbacks[k]));
            k += 1;
            proof {
                assert(label == callback_name((k - 1) as nat));
                assert(symbol_views(symbols@) =~= symbol_views(before).push((label, callbacks@[k - 1])));
                assert(callback_symbols(callbacks@.take(k as int)) =~= callback_symbols(callbacks@.take(k - 1)).push(
                    (label, callbacks@[k - 1]),
                ));
                assert(symbol_views(symbols@) =~= head + callback_symbols(callbacks@.take(k as int)));
            }
        }
        proof {
            assert(callbacks@.take(callbacks@.len() as int) =~= callbacks@);
            assert(head + callback_symbols(callbacks@) =~= resolved_symbols(image@).unwrap());
        }
        Ok(symbols)
    }

    /// The address of the symbol `name`, resolved from `image`:
    /// `entry_point`, or `tls_callback_` followed by the ordinal of a
    /// callback in decimal. The callback array is walked up to that ordinal.
    pub fn symbol(&self, image: &[u8], name: &str) -> (r: Option<u64>)
        ensures
            r == resolved_symbol(image@, name@),
    {
        let parsed = match Image::parse(image) {
            Ok(parsed) => parsed,
            Err(_) => {
                return None;
            },
        };
        if same_text(name, "entry_point") {
            return if parsed.headers.entry_point != 0 {
                Some(sum(parsed.headers.image_base, parsed.headers.entry_point as u64))
            } else {
                None
            };
        }
        if !has_prefix(name, "tls_callback_") {
            return None;
        }
        let prefix = "tls_callback_".unicode_len();
        match parse_decimal(name, prefix) {
            Some(n) => parsed.callback(image, n),
            None => {
                let total = image.len();
                let range = parsed.callback_range(image);
                proof {
                    match (decimal_value(name@.skip(prefix as int)), image_callback_bytes(image@)) {
                        (Some(n), Some(bytes)) => {
                            assert(bytes.len() <= total);
                            crate::image::lemma_callback_needs_bytes(bytes, n);
                        },
                        _ => {},
                    }
                }
                None
            },
        }
    }

    /// How the bytes at `address` are shown: as assembly where the section
    /// that contains it holds code or may be executed, else raw. `None` where
    /// the image does not resolve or holds no bytes for the address.
    pub fn section_kind(&self, image: &[u8], address: u64) -> (r: Option<DataViewType>)
        ensures
            r == if image_parses(image@) && machine_supported(pe_headers_of(image@).unwrap().machine)
                && address >= pe_headers_of(image@).unwrap().image_base {
                match located(
                    pe_sections_of(image@).unwrap(),
                    image@.len() as int,
                    (address - pe_headers_of(image@).unwrap().image_base) as u64,
                ) {
                    Some((executable, _, _)) => Some(
                        if executable {
                            DataViewType::Assembly
                        } else {
                            DataViewType::Raw
                        },
                    ),
                    None => None,
                }
            } else {
                None
            },
    {
        let parsed = match Image::parse(image) {
            Ok(parsed) => parsed,
            Err(_) => {
                return None;
            },
        };
        if address < parsed.headers.image_base {
            return None;
        }
        match parsed.locate(image.len(), address - parsed.headers.image_base) {
            Some((executable, _, _)) => Some(
                if executable {
                    DataViewType::Assembly
                } else {
                    DataViewType::Raw
                },
            ),
            None => None,
        }
    }
}

/// Each callback among the symbols of an image is what its name resolves
/// to.
pub proof fn lemma_listed_callback_resolves(data: Seq<u8>, k: nat)
    requires
        resolved_symbols(data) is Ok,
        k < image_callbacks(data).unwrap().len(),
    ensures
        resolved_symbol(data, callback_name(k)) == Some(image_callbacks(data).unwrap()[k as int]),
{
    reveal_strlit("tls_callback_");
    reveal_strlit("entry_point");
    let name = callback_name(k);
    let prefix = "tls_callback_"@;
    crate::text::lemma_decimal_round_trip(k);
    assert(name[0] == 't');
    assert("entry_point"@[0] == 'e');
    assert(name.take(prefix.len() as int) =~= prefix);
    assert(name.skip(prefix.len() as int) =~= decimal_digits(k));
    let bytes = image_callback_bytes(data).unwrap();
    crate::image::lemma_callback_of_list(bytes, k);
}

/// The entry point among the symbols of an image is what its name resolves
/// to.
pub proof fn lemma_listed_entry_resolves(data: Seq<u8>)
    requires
        resolved_symbols(data) is Ok,
        pe_headers_of(data).unwrap().entry_point != 0,
    ensures
        resolved_symbols(data).unwrap()[0] == ("entry_point"@, entry_address(pe_headers_of(data).unwrap())),
        resolved_symbol(data, "entry_point"@) == Some(entry_address(pe_headers_of(data).unwrap())),
{
}

/// Resolving the symbols of the same bytes twice gives the same names with
/// the same addresses, or the same error.
pub proof fn lemma_resolution_idempotent(data: Seq<u8>, first: Result<Vec<(String, u64)>, ImageError>, second: Result<Vec<(String, u64)>, ImageError>)
    requires
        resolves_to(data, first),
        resolves_to(data, second),
    ensures
        match (first, second) {
            (Ok(a), Ok(b)) => symbol_views(a@) == symbol_views(b@),
            (Err(e), Err(f)) => e == f,
            _ => false,
        },
{
}

} // verus!
