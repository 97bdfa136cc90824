//! Personal finance bookkeeping: wallets, debts and loans kept in a snapshot
//! that events and operations update.
pub mod text;
pub mod tiny_id;
pub mod amount;
pub mod ids;
pub mod snapshot;
pub mod keyed_map;
pub mod money_record;
pub mod record_snapshot;
pub mod date;
pub mod events;
pub mod alias;
pub mod actors;
pub mod currencies;
pub mod wallets;
pub mod item_tags;
pub mod sync;
pub mod apps;
pub mod host;
pub mod nodes;
pub mod database;
pub mod snapshot_io;
pub mod backoffice;
pub mod event_record;
pub mod snapshot_record;
pub mod plain_records;
pub mod views;
