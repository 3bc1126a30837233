//! Verified core of a gacha-record manager: manual record insertion, metadata
//! lookups, fetch planning, backup bookkeeping and database migrations.

pub mod text;
pub mod business;
pub mod gacha_time;
pub mod metadata;
pub mod sort;
pub mod records;
pub mod manual_insert;
pub mod entry_options;
pub mod backup;
pub mod migrations;
