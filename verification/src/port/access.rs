//! Access marker types for ports and the permissions they grant.
use vstd::prelude::*;

verus! {

/// Ports that can be read.
pub trait Readable {
}

/// Ports that can be written.
pub trait Writable {
}

/// Access to read and write.
pub struct ReadWrite(());

impl Readable for ReadWrite {
}

impl Writable for ReadWrite {
}

/// Access to read only.
pub struct ReadOnly(());

impl Readable for ReadOnly {
}

/// Access to write only.
pub struct WriteOnly(());

impl Writable for WriteOnly {
}

} // verus!
