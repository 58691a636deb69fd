//! Management of GE compatibility-tool versions for Steam and Lutris:
//! deriving comparable versions from release tags, a registry of installed
//! versions, release resolution against a paginated tag API, checksum and
//! archive handling, and surgical patching of the host applications'
//! configuration files.
pub mod archive;
pub mod args;
pub mod cli;
pub mod command_execution;
pub mod compat_tool_app;
pub mod command_input;
pub mod config;
pub mod data;
pub mod download;
pub mod filesystem;
pub mod message;
pub mod label;
pub mod registry;
pub mod response;
pub mod tag;
pub mod version;
pub mod text;
