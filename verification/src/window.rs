//! The window that asks for an address to go to.

use vstd::prelude::*;
use crate::text::hex_value;
use crate::text::parse_hex;

verus! {

/// The window that asks for an address: whether it is open, and the text
/// that was typed into it.
pub struct GoToAddressWindow {
    open: bool,
    address: String,
}

impl GoToAddressWindow {
    /// Whether the window is open.
    pub closed spec fn spec_open(&self) -> bool {
        self.open
    }

    /// The text that was typed.

    pub closed spec fn spec_address(&self) -> Seq<char> {
        self.address@
    }

    /// An open window with nothing typed into it.
    pub fn new() -> (r: Self)
        ensures
            r.spec_open(),
            r.spec_address() == Seq::<char>::empty(),
    {
        GoToAddressWindow { open: true, address: String::new() }
    }

    /// Whether the window is open.
    pub fn open(&self) -> (r: bool)
        ensures
            r == self.spec_open(),
    {
        self.open
    }

    /// The text that was typed.
    pub fn address(&self) -> (r: &str)
        ensures
            r@ == self.spec_address(),
    {
        self.address.as_str()
    }

    /// Takes the text that was typed.
    pub fn set_address(&mut self, address: String)
        ensures
            final(self).spec_address() == address@,
            final(self).spec_open() == old(self).spec_open(),
    {
        self.address = address;
    }

    /// The operator chose to go: the text is read as a hexadecimal number.
    /// Where it is one that fits 64 bits, that is the address to go to and
    /// the window closes; else the window stays as it is.
    pub fn go(&mut self) -> (r: Option<u64>)
        ensures
            final(self).spec_address() == old(self).spec_address(),
            match hex_value(old(self).spec_address()) {
                Some(n) if n <= u64::MAX => r == Some(n as u64) && !final(self).spec_open(),
                _ => r is None && final(self).spec_open() == old(self).spec_open(),
            },
    {
        let address = parse_hex(self.address.as_str());
        if address.is_some() {
            self.open = false;
        }
        address
    }

    /// The operator chose to cancel: the window closes.
    pub fn cancel(&mut self)
        ensures
            !final(self).spec_open(),
            final(self).spec_address() == old(self).spec_address(),
    {
        self.open = false;
    }
}

impl Default for GoToAddressWindow {
    fn default() -> (r: Self)
        ensures
            r.spec_open(),
            r.spec_address() == Seq::<char>::empty(),
    {
        GoToAddressWindow::new()
    }
}

} // verus!
