//! A local vendoring dependency manager, as a verified library.
//!
//! The library holds every decision of the tool: how a dependency is named
//! ([`text`]), what the manifest records ([`types`]), how each workflow
//! reacts to what the file system and the source-control provider report
//! ([`engine`], [`provider`]), and what the user is told in the end
//! ([`report`], [`message`], [`render`]). It performs no I/O itself: a shell
//! around it carries out the requests that an [`engine::Workflow`] issues
//! and hands the answers back.
//!
//! What a whole run comes to is stated in [`model`], and what holds of every
//! run in [`laws`].

pub mod engine;
pub mod laws;
pub mod message;
pub mod model;
pub mod provider;
pub mod render;
pub mod report;
pub mod text;
pub mod types;
