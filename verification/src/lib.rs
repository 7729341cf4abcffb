//! A synthetic, read-only filesystem view of the xkcd archive.
//!
//! The library is the verified core of the filesystem: the bijection between
//! inode numbers and logical entities, the item cache, name lookup, attribute
//! computation, byte-window reads and resumable directory enumeration.
//! The unverified host process owns the kernel interface and the remote
//! HTTP client; it drives this core and performs the fetches that the core
//! requests through `FsError::NeedLatest` and `FsError::NeedItem`.

pub mod address;
pub mod cache;
pub mod content;
pub mod fs;
