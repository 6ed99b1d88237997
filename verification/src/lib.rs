//! The decision core of a chat platform's backend: channels, calendar events,
//! donations, end-to-end encryption rows, the event gateway and the storage
//! rules that they share, with their behaviour stated and proved.
pub mod accept;
pub mod cache;
pub mod calendar;
pub mod calendar_laws;
pub mod calendar_store;
pub mod channel_laws;
pub mod channel_ops;
pub mod channel_store;
pub mod channels;
pub mod clock;
pub mod commands;
pub mod config;
pub mod crypto;
pub mod db;
pub mod discord_imports;
pub mod donation_laws;
pub mod donation_store;
pub mod donations;
pub mod e2ee;
pub mod e2ee_laws;
pub mod e2ee_store;
pub mod error;
pub mod events;
pub mod file_laws;
pub mod files;
pub mod follows;
pub mod gateway;
pub mod gateway_laws;
pub mod ids;
pub mod json;
pub mod migrations;
pub mod order;
pub mod patch;
pub mod patterns;
pub mod people;
pub mod ready;
pub mod ready_laws;
pub mod schema;
pub mod store_laws;
pub mod table;
pub mod text;
pub mod text_laws;
pub mod timestamps;
