pub mod text;
pub mod models;
pub mod helpers;
pub mod subject;
pub mod inbox;
pub mod cli;
pub mod num;
pub mod error;
pub mod output;
pub mod http;
pub mod keychain;
pub mod bundle;
pub mod crypto;
pub mod outbox;
pub mod ipaddr;
pub mod webhook;
pub mod args;
pub mod sync;
pub mod account;
pub mod draft;
pub mod query;
pub mod autostart;
pub mod received;
pub mod compose;
pub mod attachments;
pub mod timestamps;
pub mod daemon;
pub mod profile;
pub mod notify;
pub mod agent_info;
pub mod audit;
