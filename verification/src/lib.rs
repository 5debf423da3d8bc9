//! Client-side transfer engine for a remote object store.
//!
//! The library turns a local byte source into an ordered stream of fixed-size
//! blocks, optionally seals each block with password-derived authenticated
//! encryption, decides between a single-stream and a concurrent multi-part
//! transfer, and re-windows a downloaded byte stream back into decryption
//! blocks.  All decision logic is verified; the network and file-system edges
//! live outside the library and drive the state machines defined here.

pub mod api_types;
pub mod assemble;
pub mod block;
pub mod cmd;
pub mod config;
pub mod constants;
pub mod crypto;
pub mod dirtree;
pub mod envelope;
pub mod errors;
pub mod files;
pub mod metadata;
pub mod paths;
pub mod multipart;
pub mod names;
pub mod pipeline;
pub mod plan;
pub mod progress;
pub mod state;
pub mod term;
pub mod tokens;
pub mod uploads;
pub mod x2str;
