//! A verified core for a small CRUD service over a single `Event` resource.
//!
//! `event` holds the data model, `event_service` the persistence-access
//! semantics over an in-memory record sequence, `scan` the pagination
//! accumulator for paged table scans, `handler` the mapping from operation
//! outcomes to HTTP-style responses, and `laws` the proved relations
//! between consecutive operations.

pub mod event;
pub mod event_service;
pub mod handler;
pub mod handler_params;
pub mod laws;
pub mod scan;
