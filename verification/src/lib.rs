//! Adapter between a host-supplied key/value block store and a versioned,
//! content-addressed private file system.
//!
//! The crate holds the parts of the adapter that decide and compute: how
//! storage keys are built, how identifiers and paths are read, how a file
//! system verb proceeds from a root to a reply, and how a directory listing
//! is laid out in bytes.  Each of them carries a contract that Verus proves.
//!
//! What only the host can do, reading and writing its store and running the
//! file system engine, is left to whoever links the crate: the library says
//! which call to make and reads what came back.

mod bytes;
pub mod cid;
pub mod decimal;
pub mod dispatch;
pub mod error;
pub mod hex;
pub mod listing;
pub mod path;
pub mod store;

pub use cid::{parse_cid, parse_cid_text, serialize_cid, ContentId};
pub use dispatch::{
    cp_native, init_native, load_with_wnfs_key_native, ls_native, mkdir_native, mv_native,
    read_file_native, rm_native, write_file_native,
};
pub use error::AdapterError;
pub use listing::{decode_listing, encode_listing, ListingEntry};
pub use path::parse_path;
pub use store::JSStore;
