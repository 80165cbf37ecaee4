//! The flat tag record produced by a scan.

use vstd::prelude::*;
use crate::text::{owned, str_eq};

verus! {

/// A single variable node discovered on an OPC UA server.
///
/// A scan turns a hierarchical address space into a flat list of these, which
/// can be cached, filtered, and fed to a subscription or polling layer.
///
/// The attribute fields (`data_type` through `historizing`) are `None` unless
/// the attributes were read.
#[derive(Debug)]
pub struct PlcTag {
    /// Human-readable name taken from the node's `DisplayName` attribute.
    pub display_name: String,
    /// The node's `BrowseName`.
    pub browse_name: String,
    /// Node identifier in OPC UA string form, for example `ns=3;s=Speed`.
    pub node_id: String,
    /// Node class rendered as text, for example `"Variable"`.
    pub node_class: String,
    /// Slash-joined names from the scan root, for example `Machine/Axis1/Speed`.
    pub path: String,
    /// `NodeId` of the value's `DataType` attribute, in string form.
    pub data_type: Option<String>,
    /// `ValueRank`: `-1` for a scalar, `0` for an array of unknown
    /// dimensions, `n >= 1` for an array with that many dimensions.
    pub value_rank: Option<i32>,
    /// `AccessLevel` attribute bits.
    pub access_level: Option<u8>,
    /// The server's `MinimumSamplingInterval` in milliseconds, held as the
    /// IEEE 754 bit pattern of the `f64` the server reported.
    pub min_sampling_interval_bits: Option<u64>,
    /// `Historizing`: whether the server is collecting history for this value.
    pub historizing: Option<bool>,
    /// `TypeDefinition` node ID reached while browsing.
    pub type_definition: Option<String>,
    /// Reference type that reached this node while browsing.
    pub reference_type: Option<String>,
}

/// `AccessLevel` bit for "current value is readable".
pub const ACCESS_LEVEL_CURRENT_READ: u8 = 0x01;

/// `AccessLevel` bit for "current value is writable".
pub const ACCESS_LEVEL_CURRENT_WRITE: u8 = 0x02;

/// `AccessLevel` bit for "history is readable".
pub const ACCESS_LEVEL_HISTORY_READ: u8 = 0x04;

/// `i=46`, the `HasProperty` reference type in OPC UA string form.
pub open spec fn has_property_identifier() -> Seq<char> {
    seq!['i', '=', '4', '6']
}

/// A node reached through this reference type is a property: the type is
/// `HasProperty`.
pub open spec fn reached_as_property(reference_type: Option<String>) -> bool {
    match reference_type {
        None => false,
        Some(r) => r@ == has_property_identifier(),
    }
}

/// Whether a node reached through `reference_type` is a property.
pub(crate) fn is_property_reference(reference_type: &Option<String>) -> (r: bool)
    ensures
        r == reached_as_property(*reference_type),
{
    match reference_type {
        None => false,
        Some(reference) => {
            proof {
                reveal_strlit("i=46");
                assert("i=46"@ =~= has_property_identifier());
            }
            str_eq(reference.as_str(), "i=46")
        },
    }
}

/// A copy of an optional string.
pub(crate) fn clone_opt_string(s: &Option<String>) -> (r: Option<String>)
    ensures
        r == *s,
{
    match s {
        Some(v) => Some(v.clone()),
        None => None,
    }
}

impl Clone for PlcTag {
    fn clone(&self) -> (r: Self)
        ensures
            r == *self,
    {
        PlcTag {
            display_name: self.display_name.clone(),
            browse_name: self.browse_name.clone(),
            node_id: self.node_id.clone(),
            node_class: self.node_class.clone(),
            path: self.path.clone(),
            data_type: clone_opt_string(&self.data_type),
            value_rank: self.value_rank,
            access_level: self.access_level,
            min_sampling_interval_bits: self.min_sampling_interval_bits,
            historizing: self.historizing,
            type_definition: clone_opt_string(&self.type_definition),
            reference_type: clone_opt_string(&self.reference_type),
        }
    }
}

impl PlcTag {
    /// The tag `new` builds: the five names given, no attribute read.
    pub open spec fn spec_new(
        display_name: Seq<char>,
        browse_name: Seq<char>,
        node_id: Seq<char>,
        node_class: Seq<char>,
        path: Seq<char>,
        t: PlcTag,
    ) -> bool {
        &&& t.display_name@ == display_name
        &&& t.browse_name@ == browse_name
        &&& t.node_id@ == node_id
        &&& t.node_class@ == node_class
        &&& t.path@ == path
        &&& t.data_type is None
        &&& t.value_rank is None
        &&& t.access_level is None
        &&& t.min_sampling_interval_bits is None
        &&& t.historizing is None
        &&& t.type_definition is None
        &&& t.reference_type is None
    }

    /// Builds a tag record with no attributes read.
    pub fn new(display_name: &str, browse_name: &str, node_id: &str, node_class: &str, path: &str) -> (t: Self)
        ensures
            Self::spec_new(display_name@, browse_name@, node_id@, node_class@, path@, t),
    {
        PlcTag {
            display_name: owned(display_name),
            browse_name: owned(browse_name),
            node_id: owned(node_id),
            node_class: owned(node_class),
            path: owned(path),
            data_type: None,
            value_rank: None,
            access_level: None,
            min_sampling_interval_bits: None,
            historizing: None,
            type_definition: None,
            reference_type: None,
        }
    }

    /// Readable per `AccessLevel`, assuming readable when it was not read.
    pub open spec fn spec_readable(&self) -> bool {
        match self.access_level {
            None => true,
            Some(a) => a & ACCESS_LEVEL_CURRENT_READ != 0,
        }
    }

    /// Writable per `AccessLevel`, assuming writable when it was not read.
    pub open spec fn spec_writable(&self) -> bool {
        match self.access_level {
            None => true,
            Some(a) => a & ACCESS_LEVEL_CURRENT_WRITE != 0,
        }
    }

    /// History readable per `AccessLevel`; not assumed when it was not read.
    pub open spec fn spec_has_history(&self) -> bool {
        match self.access_level {
            None => false,
            Some(a) => a & ACCESS_LEVEL_HISTORY_READ != 0,
        }
    }

    /// An array per `ValueRank`: a rank of zero or more.
    pub open spec fn spec_array(&self) -> bool {
        match self.value_rank {
            None => false,
            Some(r) => r >= 0,
        }
    }

    /// Reached through `HasProperty`: the reference type is `i=46`.
    pub open spec fn spec_property(&self) -> bool {
        reached_as_property(self.reference_type)
    }

    /// Whether the server's `AccessLevel` says this value is readable.
    ///
    /// Assumes readable when `AccessLevel` was not read.
    pub fn is_readable(&self) -> (r: bool)
        ensures
            r == self.spec_readable(),
    {
        match self.access_level {
            None => true,
            Some(a) => a & ACCESS_LEVEL_CURRENT_READ != 0,
        }
    }

    /// Whether the server's `AccessLevel` says this value is writable.
    ///
    /// Assumes writable when `AccessLevel` was not read, so this only ever
    /// blocks a write the server would already have rejected.
    pub fn is_writable(&self) -> (r: bool)
        ensures
            r == self.spec_writable(),
    {
        match self.access_level {
            None => true,
            Some(a) => a & ACCESS_LEVEL_CURRENT_WRITE != 0,
        }
    }

    /// Whether the server's `AccessLevel` says history is readable.
    pub fn has_history(&self) -> (r: bool)
        ensures
            r == self.spec_has_history(),
    {
        match self.access_level {
            None => false,
            Some(a) => a & ACCESS_LEVEL_HISTORY_READ != 0,
        }
    }

    /// Whether this is an array, per `ValueRank`.
    pub fn is_array(&self) -> (r: bool)
        ensures
            r == self.spec_array(),
    {
        match self.value_rank {
            None => false,
            Some(rank) => rank >= 0,
        }
    }

    /// Whether this node was reached via `HasProperty` rather than
    /// `HasComponent` or another hierarchical reference.
    pub fn is_property(&self) -> (r: bool)
        ensures
            r == self.spec_property(),
    {
        is_property_reference(&self.reference_type)
    }
}

/// A tag is writable exactly when its `AccessLevel` was not read, or has the
/// `CurrentWrite` bit (the second lowest) set, whatever its other bits say.
pub proof fn law_writable_is_the_current_write_bit(t: PlcTag)
    ensures
        t.access_level is None ==> t.spec_writable(),
        forall|a: u8| t.access_level == Some(a) ==> (t.spec_writable() <==> (a as int / 2) % 2 == 1),
{
    assert forall|a: u8| t.access_level == Some(a) implies (t.spec_writable() <==> (a as int / 2) % 2 == 1) by {
        assert((a & 0x02u8 != 0) <==> ((a / 2) % 2 == 1)) by (bit_vector);
    }
}

} // verus!
