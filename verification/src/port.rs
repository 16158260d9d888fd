//! I/O ports: a port number typed by the width of its values and the access
//! it allows. Reading and writing them is left to the caller; the library
//! describes port writes as values.
use vstd::prelude::*;
use core::marker::PhantomData;

pub mod access;

verus! {

/// An I/O port whose values are of type `T` (`u8`, `u16`, `u32`) and whose
/// access is `A`.
pub struct PortGeneric<T, A> {
    port: u16,
    _phantom: PhantomData<(T, A)>,
}

/// A port that can be read and written.
pub type Port<T> = PortGeneric<T, access::ReadWrite>;

impl<T, A> View for PortGeneric<T, A> {
    type V = u16;

    /// The port number.
    closed spec fn view(&self) -> u16 {
        self.port
    }
}

impl<T, A> PortGeneric<T, A> {
    /// The port with number `port`.
    pub fn new(port: u16) -> (r: Self)
        ensures
            r@ == port,
    {
        PortGeneric { port, _phantom: PhantomData }
    }

    /// The port number.
    pub fn number(&self) -> (r: u16)
        ensures
            r == self@,
    {
        self.port
    }
}

/// One byte to be written to a port.
#[derive(Clone, Copy, PartialEq, Eq, Debug)]
pub struct PortByteWrite {
    pub port: u16,
    pub value: u8,
}

} // verus!
