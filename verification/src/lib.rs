//! MIDInet: distribution of live MIDI over a network.
//!
//! The crate holds the rules of the system: how MIDI bytes are read and
//! written, how hosts are found and followed, how settings are merged and
//! checked, and how the administration state changes.
pub mod alerting;
pub mod alsa_event;
pub mod auth;
pub mod bits;
pub mod bridge;
pub mod cli;
pub mod client_discovery;
pub mod client_failover;
pub mod client_health;
pub mod client_receiver;
pub mod collector;
pub mod config;
pub mod devices;
pub mod failover_state;
pub mod feedback;
pub mod fleet;
pub mod input;
pub mod metrics_store;
pub mod mode;
pub mod osc;
pub mod protected_apps;
pub mod seqs;
pub mod settings;
pub mod sniffer;
pub mod status;
pub mod supervisor;
pub mod test_generator;
pub mod text;
pub mod toml_doc;
pub mod ump;
pub mod update;
pub mod virtual_device;
pub mod windows_midi;
