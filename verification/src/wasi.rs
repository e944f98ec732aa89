//! Stream handles of the host-provided connection multiplexer: a reader
//! and a writer identified by a connection id. The polling that moves
//! bytes through them is host glue outside the library.

use vstd::prelude::*;

verus! {

/// The read half of a multiplexed stream.
pub struct IpiisReader {
    cid: u64,
    len: u32,
}

impl IpiisReader {
    /// The connection this half reads from.
    pub closed spec fn spec_cid(&self) -> u64 {
        self.cid
    }

    /// How many bytes remain to read.
    pub closed spec fn spec_len(&self) -> u32 {
        self.len
    }

    /// A reader over connection `cid` with `len` bytes to read.
    pub fn new(cid: u64, len: u32) -> (r: IpiisReader)
        ensures
            r.spec_cid() == cid,
            r.spec_len() == len,
    {
        IpiisReader { cid, len }
    }

    /// The connection id, for the host's read calls.
    pub fn cid(&self) -> (r: u64)
        ensures
            r == self.spec_cid(),
    {
        self.cid
    }

    /// The remaining length, for the host's read calls.
    pub fn len(&self) -> (r: u32)
        ensures
            r == self.spec_len(),
    {
        self.len
    }
}

/// The write half of a multiplexed stream.
pub struct IpiisWriter {
    cid: u64,
}

impl IpiisWriter {
    /// The connection this half writes to.
    pub closed spec fn spec_cid(&self) -> u64 {
        self.cid
    }

    /// A writer over connection `cid`.
    pub fn new(cid: u64) -> (r: IpiisWriter)
        ensures
            r.spec_cid() == cid,
    {
        IpiisWriter { cid }
    }

    /// The connection id, for the host's write calls.
    pub fn cid(&self) -> (r: u64)
        ensures
            r == self.spec_cid(),
    {
        self.cid
    }
}

} // verus!
