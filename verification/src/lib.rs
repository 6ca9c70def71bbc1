//! texe: the verified core of a LaTeX project builder.
pub mod text;
pub mod order;
pub mod trace;
pub mod paths;
pub mod numbers;
pub mod diagnostics;
pub mod error;
pub mod config;
pub mod setup;
pub mod clean;
pub mod progress;
pub mod buildlog;
pub mod auxfile;
pub mod integrations;
pub mod package;
pub mod source;
pub mod recorder;
pub mod environment;
pub mod engine;
pub mod digest;
pub mod state;
pub mod estimate;
pub mod timing;
pub mod warnings;
pub mod lockfile;
pub mod downloads;
pub mod editor;
pub mod cache;
pub mod bibliography;
pub mod index;
pub mod watching;
pub mod adoption;
pub mod report;
pub mod tracefile;
pub mod synctex;
pub mod texls;
pub mod texls_file;
pub mod settings;
pub mod settings_file;
pub mod settings_restore;
pub mod naming;
pub mod formats;
pub mod building;
pub mod laws;
