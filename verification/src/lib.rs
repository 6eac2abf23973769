//! Verified core of an APK reverse-engineering project manager.
//!
//! The library plans and validates the two project pipelines — unpack
//! (APK to editable project) and pack (project back to a signed APK) —
//! as pure decisions over plain values: byte-string paths, directory
//! listings, and a persisted project configuration.  All file system
//! access, process spawning and concurrency live outside the library;
//! callers feed in what they observed and execute the plans they get
//! back.

pub mod bytesutil;
pub mod commands;
pub mod config;
pub mod error;
pub mod layout;
pub mod num;
pub mod pack;
pub mod paths;
pub mod smali_to_java;
pub mod tasks;
pub mod unpack;
