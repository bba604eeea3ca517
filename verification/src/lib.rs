//! LanBridge: verified core of a primary/secondary LAN folder synchroniser.
pub mod text;
pub mod transient;
pub mod ignore;
pub mod platform;
pub mod path_rules;
pub mod model;
pub mod planner;
pub mod conflict;
pub mod hex;
pub mod pairing;
pub mod id_map;
pub mod coordinator;
pub mod lookup;
pub mod actions;
pub mod executor;
pub mod retry;
pub mod return_sync;
pub mod transfers;
pub mod tasks;
pub mod entries;
pub mod digest;
pub mod history;
pub mod order;
pub mod diagnostics;
pub mod scanner;
pub mod network;
pub mod path_safety;
pub mod app_settings;
pub mod watcher;
pub mod run;
pub mod persist;
pub mod ids;
pub mod store;
