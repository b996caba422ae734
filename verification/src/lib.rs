//! The logic of two tools for a Steam installation: a scanner that locates functions in
//! the client's libraries by byte signatures, and a downloader that fetches the depot
//! manifests that Lua files name.

pub mod batch;
pub mod course;
pub mod depots;
pub mod digest;
pub mod display;
pub mod download;
pub mod download_machine;
pub mod fnv;
pub mod install;
pub mod job;
pub mod job_machine;
pub mod jobs;
pub mod manifest;
pub mod modes;
pub mod pattern;
pub mod pe;
pub mod run_machine;
pub mod scanner;
pub mod session;
pub mod signatures;
pub mod text;
