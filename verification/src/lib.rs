//! Core engine for composable, revertible system actions.
//!
//! An installer describes privileged changes to a machine (creating
//! directories, writing configuration files) as *actions*: units of work
//! that can be planned, executed, described, and later reverted.  This
//! crate provides the action-composition and lifecycle core:
//!
//! * a sum type of action kinds, including a composite kind whose state is
//!   an ordered sequence of child actions ([`action`]);
//! * the stateful wrapper that tracks each action's completion and guards
//!   against double application ([`engine`]);
//! * an error taxonomy that attributes a nested failure to the exact child
//!   action that caused it ([`error`]);
//! * a model of the managed portion of the filesystem, so that the effect
//!   of every action is fully specified and proved ([`system`]);
//! * an interpreter giving the mathematical meaning of execution and
//!   reversion ([`semantics`]), and the laws the engine obeys ([`laws`]);
//! * a tagged wire format with a registry keyed by action kind, so a plan
//!   can be persisted and resumed ([`codec`]).

pub mod action;
pub mod codec;
pub mod engine;
pub mod error;
pub mod laws;
pub mod plan;
pub mod semantics;
pub mod system;
pub mod tag;
