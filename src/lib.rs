//! Ownership, uniqueness and tag-reconciliation rules of a testimonial
//! collection service, over a relational store of users, projects,
//! testimonials, tags and tag links.
//!
//! Every request handler is a verified transition of the store: it
//! authenticates the caller, resolves the entity that an external
//! identifier names, checks that the caller owns its chain, applies the
//! uniqueness rules, and only then changes anything.

pub mod error;
pub mod ids;
pub mod credentials;
pub mod model;
pub mod query;
pub mod tables;
pub mod prune;
pub mod guard;
pub mod auth;
pub mod projects;
pub mod tags;
pub mod reconcile;
pub mod testimonials;
pub mod laws;
pub mod static_files;
