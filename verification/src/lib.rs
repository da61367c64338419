//! An org-mode document core: parsing, headline hierarchy, change-detection
//! tags, a document repository and the decision logic of a file monitor.

pub mod datetime;
pub mod document;
pub mod etag;
pub mod headline;
pub mod hierarchy;
pub mod metadata;
pub mod monitor;
pub mod orgline;
pub mod parser;
pub mod planning;
pub mod props;
pub mod repository;
pub mod settings;
pub mod strutil;
pub mod timestamp;
pub mod title;
pub mod todo;
pub mod update;
