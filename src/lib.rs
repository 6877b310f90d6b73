//! Object, class, signal and property runtime for scriptable window-manager
//! entities.
//!
//! Native entities (buttons, clients, screens, ...) are instances of named,
//! single-inheritance classes. Each class owns a property table and a signal
//! table; each object owns a private signal table and a reference table that
//! keeps script-side values alive. The runtime decides *what* must run
//! (which property callback, which handlers, in which order); invoking the
//! script-side functions is left to the embedding host.

pub mod signal;
pub mod refs;
pub mod class;
pub mod runtime;
pub mod button;
pub mod window;
pub mod screen;
pub mod args;
pub mod pass;
pub mod laws;
