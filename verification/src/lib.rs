//! An OPC UA tag-discovery library: scanning, indexing and monitoring logic.

mod attributes;
mod backoff;
mod browser;
mod collector;
mod connection;
mod error;
mod filter;
mod glob;
mod monitor;
mod repository;
mod restart;
mod scanner;
mod sink;
mod tag;
mod tagset;
mod text;
mod variant;
mod writer;

pub use backoff::{jitter, jittered, Backoff};
pub use browser::{
    absorb_pages, append_references, has_more, BrowseDescription, BrowseDirection, BrowseResult,
    BrowseSession, BrowsedNode, ByteString, NodeBrowser, NodeClass, OpcUaNodeBrowser,
    ReferenceDescription,
};
pub use connection::{
    check_credentials_allowed, retry_interval_for_client, ConnectOptions, Credentials, IdentityToken,
    MessageSecurityMode, Security, SecurityPolicy, TokenPolicy,
};
pub use error::{Error, StatusCode};
pub use filter::{AcceptAll, DefaultNodeFilter, NodeFilter};
pub use glob::{glob_matches, glob_scan};
pub use repository::JsonFileTagRepository;
pub use restart::{after_run, NextStep, RunEnd};
pub use scanner::{Answer, ScanOptions, ScanReport, ScannedTag, TreeScanner, WalkOut};
pub use sink::Source;
pub use tag::PlcTag;
pub use tagset::{glob_match, TagSet};
pub use writer::{read_outcome, write_outcome, DataValue, TagClient, TagSession, WriteRequest};
pub use monitor::{
    effective_batch_size, format_quality, forwards_change, is_change, quality_is_good, refused_positions, server_read_limit,
    subscribe_all, AfterFailedRead, ConnectionWatch, LastSeen, PollCursor, SubscriptionService, MIN_BATCH_SIZE,
};
pub use variant::{format_byte_string, variant_as_bool, variant_as_i64, Scalar};
pub use collector::{
    parseable_positions, pick_tags, reads_cache, ready_to_run, select_tags, split_for_monitoring, subscription_split, take_named, Selection,
};
pub use attributes::{
    apply_attributes, fill_variable_attributes, usable_value, variable_indices, AttributeReads, AttributeSession,
    NODES_PER_BATCH,
};
