//! A resumable job that computes content checksums for the files of a location
//! that have none yet, optionally restricted to one directory of it.

pub mod catalog;
pub mod job;
pub mod laws;
pub mod path;
