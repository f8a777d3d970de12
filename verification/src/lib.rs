//! Topology assembly and execution bridging for an event pipeline.
//!
//! The crate describes a graph of named sources, transforms and sinks, merges
//! fragments of such a graph, expands self-expanding transforms, detects
//! components that claim the same exclusive resource, and defines the
//! protocol that drives a scripted runtime living on a worker of its own.

pub mod builder;
pub mod builder_laws;
pub mod component;
pub mod config;
pub mod data_dir;
pub mod expand;
pub mod internal_events;
pub mod name_index;
pub mod pipeline;
pub mod resource;
pub mod resource_laws;
pub mod scripted;
pub mod sequence;
pub mod table;
pub mod validation;
