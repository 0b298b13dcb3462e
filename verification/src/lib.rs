//! The core of a PDF service, and the text overlay for its pages.
//!
//! The engine that reads the documents keeps state that tolerates neither a
//! second initialization nor a second caller at the same time. The service
//! therefore gives the engine to one actor, which works through jobs one at a
//! time. This crate holds what that service decides, and proves it:
//!
//! - [`startup`]: where the engine's library is looked for, and in which
//!   order;
//! - [`service`]: the actor's registry of open documents and its end;
//! - [`state`]: the actor's state as a mathematical value, with what holds of
//!   every state that it can reach;
//! - [`handle`]: what a caller is told when the actor cannot be reached;
//! - [`error`]: the failures of the engine and of the service;
//! - [`svg_text`]: the SVG overlay that makes the text of a rendered page
//!   selectable;
//! - [`decimal`]: the decimal text of the numbers in that overlay.
//!
//! Threads, channels and the engine itself stay with the caller.

pub mod decimal;
pub mod error;
pub mod handle;
pub mod service;
pub mod startup;
pub mod state;
pub mod svg_text;
