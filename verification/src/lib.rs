//! Keyboard-driven pointer control: discover clickable screen regions, label
//! them with short strings, and plan the synthetic input that a chosen label
//! triggers.
//!
//! The logic of this crate is verified with Verus. Work that touches the
//! outside world (sockets, D-Bus, uinput, child processes) is performed by the
//! caller, which feeds the results back into the state machines defined here.
//! The few calls into other crates stand behind wrappers whose contracts are
//! taken on trust; each of them says so.

pub mod backends;
pub mod config;
pub mod consts;
pub mod daemon;
pub mod hints;
pub mod ipc;
pub mod json;
pub mod labels;
pub mod mouse;
pub mod overlay;
pub mod text;
pub mod window_system;
