//! Analysis core for security lints over register-based contract programs.
//!
//! The crate takes in a control-flow graph of typed, register-based
//! instructions — a `Body` of basic blocks, as a host compiler front end
//! provides it — and answers the one question every lint in this family
//! reduces to: where does a value of interest come from, and is a safety
//! check on that value guaranteed to run before a sensitive use?
//!
//! The work is split into small, independently specified pieces:
//!
//! * [`ir`] — the place / operand / instruction / block model.
//! * [`topology`] — predecessor lists, reachability and the dominance
//!   relation of a body, computed once per body.
//! * [`trace`] — the backward alias tracer: walks a body against control
//!   flow from a seed place, following assignment chains, and classifies
//!   the value's origin.
//! * [`guard`] — the dominance-gated check verifier: finds a comparison on
//!   any alias of the traced value and asks whether its block dominates
//!   the use site.
//! * [`driver`] — the rule-driver surface: seed extraction, verdict
//!   policies, and the per-body scan that ties tracer and verifier
//!   together.
//! * [`rules`] — decision logic of rule passes that run outside the
//!   dataflow engine, stated over plain facts a host front end hands in.
//! * [`utils`] — small helpers shared with host-side visitors.
//! * [`layouts`] — reference account layouts that document which distinct
//!   types serialize alike.

pub mod ir;
pub mod topology;
pub mod trace;
pub mod guard;
pub mod driver;
pub mod rules;
pub mod utils;
pub mod layouts;
