//! A worker that drains the queues of a media library: scans of library
//! roots, content hashes, thumbnails, thumbnail cleanups and checkpoints of
//! the write-ahead log. The library holds the rules of the worker, over the
//! tables of the store as plain values; reading and writing the database, the
//! file system and child processes is left to the program around it.

pub mod backoff;
pub mod cleanup_queue;
pub mod config;
pub mod db;
pub mod digest;
pub mod hash;
pub mod io_budget;
pub mod path_safety;
pub mod payload;
pub mod random;
pub mod scan;
pub mod text;
pub mod thumbnail;
pub mod thumbnail_queue;
pub mod wal_queue;
pub mod worker;
