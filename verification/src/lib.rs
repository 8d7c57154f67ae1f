//! A strategy engine's decision logic.
pub mod alpha;
pub mod aqs_types;
pub mod asset;
pub mod backtest;
pub mod children;
pub mod cloud;
pub mod collection;
pub mod detail;
pub mod events;
pub mod history;
pub mod hyper_config;
pub mod hyperparameters;
pub mod ids;
pub mod indicator;
pub mod insight;
pub mod json;
pub mod lifecycle;
pub mod live_loop;
pub mod live_sync;
pub mod local_run;
pub mod metrics;
pub mod number;
pub mod pipeline;
pub mod records;
pub mod snapshot;
pub mod start;
pub mod startup;
pub mod state;
pub mod table;
pub mod teardown;
pub mod telemetry;
pub mod text;
pub mod time;
pub mod timeframe;
pub mod tools;
pub mod trade;
pub mod tui;
pub mod types;
pub mod universe;
pub mod variables;
