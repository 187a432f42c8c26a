//! Publishing host aliases and DNS-SD services through an mDNS responder.
//!
//! The library holds the verified core: the domain-name codec ([`name`]),
//! the record and service model ([`types`], [`service`], [`rdata`],
//! [`record`]), configuration snapshots ([`config`]), the reconciliation
//! cycle that turns a snapshot into responder calls ([`reconcile`]), and the
//! classification of responder states ([`status`]).
pub mod config;
pub mod name;
pub mod rdata;
pub mod reconcile;
pub mod record;
pub mod service;
pub mod status;
pub mod text;
pub mod types;
