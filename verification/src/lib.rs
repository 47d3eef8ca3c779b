//! Decision logic of a back-office worker that crawls web stores, matches
//! products against benchmarks and assigns products to categories.
//!
//! The worker fetches pages, keeps its records in a relational store and
//! asks an embedding model and a similarity index for vectors and nearest
//! neighbours. None of that happens here. This library holds what the
//! worker decides:
//!
//! - how a store's pages are read ([`extract`], [`crawlers`]) and how what
//!   was read becomes a validated product ([`text`], [`count`], [`number`],
//!   [`amount`], [`product`]);
//! - how the findings of a crawl are put together ([`pipeline`]) and how a
//!   crawl job runs ([`crawl`]);
//! - how vectors are stored and when they are generated ([`embedding`]),
//!   and which neighbours count as matches ([`matching`]);
//! - how the matching of a benchmark ([`benchmark`]) and the category
//!   matching of a tenant ([`category`]) run, the latter under the tenant's
//!   processing guard ([`guard`]);
//! - what the store owes its callers ([`repository`]);
//! - which job a control message starts ([`message`]), and the worker's
//!   settings ([`config`]).
//!
//! Each job is a state machine that asks for one thing at a time; the
//! caller does what is asked and hands back what came of it.

pub mod amount;
pub mod benchmark;
pub mod category;
pub mod config;
pub mod count;
pub mod crawl;
pub mod crawlers;
pub mod embedding;
pub mod extract;
pub mod guard;
pub mod matching;
pub mod message;
pub mod number;
pub mod pipeline;
pub mod product;
pub mod repository;
pub mod text;
pub mod types;

pub use crate::matching::SIMILARITY_THRESHOLD;
