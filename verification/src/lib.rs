//! Decision logic of a launcher for a Windows game client.
//!
//! Everything here computes on plain values. What touches the machine (files,
//! windows, the network, the registry) is asked for through dialogues: see
//! [`dialogue`].
pub mod calendar;
pub mod catalog;
pub mod credentials;
pub mod dialogue;
pub mod effects;
pub mod faults;
pub mod fetch;
pub mod file_log;
pub mod host;
pub mod ini;
pub mod ipv4;
pub mod json;
pub mod language;
pub mod launch;
pub mod machine;
pub mod number;
pub mod optimizer;
pub mod path;
pub mod patterns;
pub mod pe;
pub mod place;
pub mod profile;
pub mod protocol;
pub mod registry;
pub mod revert;
pub mod self_update;
pub mod server_list;
pub mod settings;
pub mod status;
pub mod step;
pub mod text;
pub mod undo;
pub mod utf16;
pub mod version;
pub mod window;
pub mod wire;
