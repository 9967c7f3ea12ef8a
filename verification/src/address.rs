//! Addresses as an operator writes them: a module, a symbol of it and an
//! offset, each of which may be left out, as in `kernel32:entry_point+16`.

use vstd::prelude::*;
use crate::module::resolved_symbol;
use crate::module::Module;
use crate::text::decimal_value;
use crate::text::find_char;
use crate::text::first_index;
use crate::text::parse_decimal;
use crate::text::part;

verus! {

/// A written address, taken apart.
#[derive(Clone, Debug, PartialEq, Eq)]
pub struct Address {
    module: Option<String>,
    symbol: Option<String>,
    offset: usize,
}

/// What an `Address` holds, with its names as sequences.
pub ghost struct AddressSpec {
    pub module: Option<Seq<char>>,
    pub symbol: Option<Seq<char>>,
    pub offset: usize,
}

impl View for Address {
    type V = AddressSpec;

    closed spec fn view(&self) -> AddressSpec {
        AddressSpec {
            module: match self.module {
                Some(name) => Some(name@),
                None => None,
            },
            symbol: match self.symbol {
                Some(name) => Some(name@),
                None => None,
            },
            offset: self.offset,
        }
    }
}

/// `name`, or nothing where it is empty.
pub open spec fn named(name: Seq<char>) -> Option<Seq<char>> {
    if name.len() == 0 {
        None
    } else {
        Some(name)
    }
}

/// What stands behind the first colon of `text`, or all of it where it has
/// none.
pub open spec fn behind_module(text: Seq<char>) -> Seq<char> {
    if first_index(text, ':', 0) < text.len() {
        text.skip(first_index(text, ':', 0) + 1)
    } else {
        text
    }
}

/// The address that `text` writes: the module in front of the first colon,
/// the symbol up to the first plus sign behind it, and the offset in decimal
/// behind that sign, zero where there is no sign. `None` where the offset is
/// no decimal number that the machine holds.
pub open spec fn written_address(text: Seq<char>) -> Option<AddressSpec> {
    let colon = first_index(text, ':', 0);
    let rest = behind_module(text);
    let plus = first_index(rest, '+', 0);
    let module = if colon < text.len() {
        named(text.take(colon))
    } else {
        None
    };
    let symbol = named(rest.take(plus));
    if plus < rest.len() {
        match decimal_value(rest.skip(plus + 1)) {
            Some(offset) if offset <= usize::MAX => Some(AddressSpec { module, symbol, offset: offset as usize }),
            _ => None,
        }
    } else {
        Some(AddressSpec { module, symbol, offset: 0 })
    }
}

impl Address {
    /// An address of these parts.
    pub fn new(module: Option<String>, symbol: Option<String>, offset: usize) -> (r: Self)
        ensures
            r.spec_offset() == offset,
            r.spec_symbol() == match symbol {
                Some(name) => Some(name@),
                None => None,
            },
            r.spec_module() == match module {
                Some(name) => Some(name@),
                None => None,
            },
    {
        Address { module, symbol, offset }
    }

    /// The module that the address names.

    pub open spec fn spec_module(&self) -> Option<Seq<char>> {
        self@.module
    }

    /// The symbol that the address names.

    pub open spec fn spec_symbol(&self) -> Option<Seq<char>> {
        self@.symbol
    }

    /// The offset of the address.

    pub open spec fn spec_offset(&self) -> usize {
        self@.offset
    }

    /// Takes a written address apart.
    pub fn parse(value: &str) -> (r: Option<Self>)
        ensures
            r is Some <==> written_address(value@) is Some,
            r matches Some(address) ==> Some(address@) == written_address(value@),
    {
        let length = value.unicode_len();
        let colon = find_char(value, ':');
        let module = if colon < length && colon > 0 {
            Some(part(value, 0, colon))
        } else {
            None
        };
        let rest = if colon < length {
            part(value, colon + 1, length)
        } else {
            part(value, 0, length)
        };
        proof {
            assert(value@.subrange(0, colon as int) =~= value@.take(colon as int));
            assert(value@.subrange(0, length as int) =~= value@);
            assert(value@.subrange(colon + 1, length as int) =~= value@.skip(colon + 1));
            assert(rest@ == behind_module(value@));
        }
        let rest_length = rest.as_str().unicode_len();
        let plus = find_char(rest.as_str(), '+');
        let symbol = if plus > 0 {
            Some(part(rest.as_str(), 0, plus))
        } else {
            None
        };
        proof {
            assert(rest@.subrange(0, plus as int) =~= rest@.take(plus as int));
        }
        let offset = if plus < rest_length {
            match parse_decimal(rest.as_str(), plus + 1) {
                Some(offset) => offset,
                None => {
                    return None;
                },
            }
        } else {
            0
        };
        Some(Address { module, symbol, offset })
    }

    /// Name of the module, where the address names one.
    pub fn module(&self) -> (r: Option<&str>)
        ensures
            r is Some <==> self@.module is Some,
            r matches Some(name) ==> Some(name@) == self@.module,
    {
        match &self.module {
            Some(name) => Some(name.as_str()),
            None => None,
        }
    }

    /// The address in the target: the symbol of `module`, resolved from
    /// `image`, or the base of `module` where the address names no symbol,
    /// moved on by the offset. `None` where the symbol does not resolve or the
    /// sum is no 64-bit address.
    pub fn to_raw(&self, module: &Module, image: &[u8]) -> (r: Option<u64>)
        ensures
            r == match (match self@.symbol {
                Some(name) => resolved_symbol(image@, name),
                None => Some(module.spec_base()),
            }) {
                Some(start) if start + self@.offset <= u64::MAX => Some((start + self@.offset) as u64),
                _ => None,
            },
    {
        let start = match &self.symbol {
            Some(name) => match module.symbol(image, name.as_str()) {
                Some(address) => address,
                None => {
                    return None;
                },
            },
            None => module.base(),
        };
        start.checked_add(self.offset as u64)
    }
}

} // verus!
