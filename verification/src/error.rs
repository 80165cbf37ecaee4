//! Status codes reported by a server, and the error type returned by every
//! fallible operation in this crate.

use vstd::prelude::*;

verus! {

/// An OPC UA status code: the top bits carry its severity.
///
/// Bit 31 marks a bad (error) code and bit 30 an uncertain one; a code with
/// neither is good.
#[derive(Clone, Copy, Debug, PartialEq, Eq, Structural)]
pub struct StatusCode {
    /// The raw 32-bit code as sent on the wire.
    pub bits: u32,
}

/// Bit marking a bad status code.
pub const STATUS_IS_ERROR: u32 = 0x8000_0000;

/// Bit marking an uncertain status code.
pub const STATUS_IS_UNCERTAIN: u32 = 0x4000_0000;

impl StatusCode {
    /// The code is bad: its error bit is set.
    pub open spec fn spec_bad(self) -> bool {
        self.bits & STATUS_IS_ERROR != 0
    }

    /// The code is uncertain: its uncertain bit is set.
    pub open spec fn spec_uncertain(self) -> bool {
        self.bits & STATUS_IS_UNCERTAIN != 0
    }

    /// The code is good: neither bad nor uncertain.
    pub open spec fn spec_good(self) -> bool {
        !self.spec_bad() && !self.spec_uncertain()
    }

    /// Wraps a raw code.
    pub fn new(bits: u32) -> (s: StatusCode)
        ensures
            s.bits == bits,
    {
        StatusCode { bits }
    }

    /// `Good`.
    pub fn good() -> (s: StatusCode)
        ensures
            s.bits == 0,
            s.spec_good(),
    {
        assert(0u32 & STATUS_IS_ERROR == 0 && 0u32 & STATUS_IS_UNCERTAIN == 0) by (bit_vector);
        StatusCode { bits: 0 }
    }

    /// `BadUnexpectedError`: something happened that the protocol has no code for.
    pub fn bad_unexpected_error() -> (s: StatusCode)
        ensures
            s.bits == 0x8001_0000,
            s.spec_bad(),
    {
        assert(0x8001_0000u32 & STATUS_IS_ERROR != 0) by (bit_vector);
        StatusCode { bits: 0x8001_0000 }
    }

    /// `BadNoData`: the read returned no value.
    pub fn bad_no_data() -> (s: StatusCode)
        ensures
            s.bits == 0x809B_0000,
            s.spec_bad(),
    {
        assert(0x809B_0000u32 & STATUS_IS_ERROR != 0) by (bit_vector);
        StatusCode { bits: 0x809B_0000 }
    }

    /// Whether the code is bad.
    pub fn is_bad(&self) -> (r: bool)
        ensures
            r == self.spec_bad(),
    {
        self.bits & STATUS_IS_ERROR != 0
    }

    /// Whether the code is uncertain.
    pub fn is_uncertain(&self) -> (r: bool)
        ensures
            r == self.spec_uncertain(),
    {
        self.bits & STATUS_IS_UNCERTAIN != 0
    }

    /// Whether the code is good, meaning neither bad nor uncertain.
    pub fn is_good(&self) -> (r: bool)
        ensures
            r == self.spec_good(),
    {
        !self.is_bad() && !self.is_uncertain()
    }
}

/// Errors produced while connecting to, browsing, monitoring, or writing to an
/// OPC UA server.
#[derive(Clone, Debug)]
pub enum Error {
    /// A `Browse` or `BrowseNext` service call failed for a specific node.
    Browse {
        /// String form of the node whose children could not be listed.
        node_id: String,
        /// Status code returned by the server.
        status: StatusCode,
    },
    /// The endpoint could not be reached, or the session handshake failed.
    Connect {
        /// Endpoint URL that was attempted.
        endpoint: String,
        /// Status code returned by the server.
        status: StatusCode,
    },
    /// The underlying OPC UA client could not be built from the supplied options.
    ClientBuild(String),
    /// Reading or writing a tag cache file failed.
    CacheIo {
        /// Path of the cache file involved.
        path: String,
        /// What the operating system reported.
        message: String,
    },
    /// A tag cache file existed but could not be parsed.
    CacheFormat {
        /// Path of the cache file involved.
        path: String,
        /// What the parser reported.
        message: String,
    },
    /// A panic raised inside the OPC UA client was caught and converted.
    InternalPanic(String),
    /// A collector was run without a sink.
    MissingSink,
    /// A sink could not be initialized.
    SinkSetup(String),
    /// Credentials would have been sent over an unencrypted channel.
    InsecureCredentials,
    /// No tag matched the supplied browse path or display name.
    UnknownTag {
        /// The path or name that was looked up.
        path: String,
    },
    /// A node ID string could not be parsed.
    BadNodeId {
        /// The string that failed to parse.
        node_id: String,
    },
    /// A `Write` service call failed.
    Write {
        /// Node that was being written.
        node_id: String,
        /// Status code returned by the server.
        status: StatusCode,
    },
    /// A `Read` service call failed.
    Read {
        /// Node that was being read.
        node_id: String,
        /// Status code returned by the server.
        status: StatusCode,
    },
    /// A write was refused because the tag's `AccessLevel` marks it read-only.
    NotWritable {
        /// The path or name that was looked up.
        path: String,
    },
}

impl Error {
    /// Errors that retrying can never fix: a configuration mistake fails
    /// identically on every attempt.
    pub open spec fn spec_recoverable(&self) -> bool {
        !(self is InsecureCredentials || self is ClientBuild)
    }

    /// Whether retrying the operation that produced this error has any
    /// chance of succeeding.
    ///
    /// Tells a transient failure (network blip, a slow server) from a
    /// configuration mistake that will fail identically on every attempt.
    pub fn is_recoverable(&self) -> (r: bool)
        ensures
            r == self.spec_recoverable(),
    {
        match self {
            Error::InsecureCredentials => false,
            Error::ClientBuild(_) => false,
            _ => true,
        }
    }
}

} // verus!
