//! A domain crawler's decision logic: link model, link extraction, host policy,
//! sitemap discovery, page classification, the breadth-first frontier and the
//! partitioned output, each with a machine-checked contract.

pub mod address;
pub mod crawler;
pub mod error;
pub mod extract;
pub mod launch;
pub mod link;
pub mod lists;
pub mod media;
pub mod output;
pub mod page;
pub mod sitemap;
pub mod text;
