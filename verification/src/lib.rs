//! Verified core of `crust`, a small tool that backs up configured files and
//! environment variables into a zstd-compressed tar archive, restores such an
//! archive, and moves archives between machines over TCP.

pub mod address;
pub mod cli;
pub mod clock;
pub mod compression;
pub mod config;
pub mod decimal;
pub mod decompress;
pub mod directories;
pub mod envvars;
pub mod error;
pub mod filesystem;
pub mod network;
pub mod pack;
pub mod paths;
pub mod text;
pub mod unpack;
