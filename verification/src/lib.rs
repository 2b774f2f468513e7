//! Keyboard interception core: key combinations, the ordered binding table,
//! the live key state and the key-down / key-up dispatch decisions.

pub mod keys;
pub mod key_combination;
pub mod system_function;
pub mod actions;
pub mod binding;
pub mod keyboard_hook;
pub mod keyboard_hook_callback;
pub mod registry;
pub mod app;
pub mod laws;
