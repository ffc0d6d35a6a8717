//! A behavior-tree runtime: a tree of control nodes ticked once per control
//! cycle, leaf actions dispatched by name (in place, or as tasks polled across
//! ticks), and a shared blackboard with advisory per-key locks.

pub mod args;
pub mod runtime;
pub mod blackboard;
pub mod table;
pub mod context;
pub mod action;
pub mod data;
pub mod env;
pub mod keeper;
pub mod tree;
