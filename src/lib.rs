//! A static-site build library: content aggregation, markdown anchoring,
//! table-of-contents extraction, pagination and a multi-file output sink.
pub mod text;
pub mod anchor;
pub mod markdown;
pub mod pagination;
pub mod sink;
pub mod order;
pub mod model;
pub mod front_matter;
pub mod site;
pub mod files;
pub mod site_command;
pub mod content_command;
pub mod command;
pub mod helpers;
