//! An executor that runs shell commands under guard, sets a work tree back when a command
//! damages it, drives the screen and serves all of this over a socket.
//!
//! The library holds what there is to decide; it does no input or output. Where something must be
//! asked of the outside (the guard, git, the sandbox, the disk, the screen), it says what, and goes
//! on from the answer:
//!
//! - [`executor`], [`pipeline`], [`execution`]: how a command is executed, from the first verdict to
//!   the result;
//! - [`rollback`]: snapshots of a work tree, the way back to one, and the index of them;
//! - [`diagnostics`]: what error an output tells of, and the source around it;
//! - [`guard`]: the rules that a command is held against, and the talk with the service that keeps them;
//! - [`gui`], [`giving`], [`keys`], [`picture`]: what an action on the screen comes to, in which order
//!   an input is given, and what a picture of the screen shows;
//! - [`frames`], [`connection`], [`methods`], [`hub`], [`metrics`], [`server`]: the lines on a
//!   connection, what they ask for, what is pushed to whom, and what is counted;
//! - [`bindings`]: what callers from another language are given;
//! - [`text`], [`json`], [`members`], [`order`], [`paths`], [`patterns`]: what the others are written with.

pub mod bindings;
pub mod connection;
pub mod diagnostics;
pub mod execution;
pub mod executor;
pub mod frames;
pub mod giving;
pub mod guard;
pub mod gui;
pub mod hub;
pub mod json;
pub mod keys;
pub mod members;
pub mod methods;
pub mod metrics;
pub mod order;
pub mod paths;
pub mod patterns;
pub mod picture;
pub mod pipeline;
pub mod rollback;
pub mod server;
pub mod text;
