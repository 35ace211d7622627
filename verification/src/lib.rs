//! Frame-aware scheduling for Android games: the decisions of the fas-rs
//! scheduler, stated and proved.
pub mod buffer;
pub mod cleaner;
pub mod config;
pub mod config_data;
pub mod cpu;
pub mod dumpsys;
pub mod error;
pub mod extension;
pub mod extra_policy;
pub mod frame_acc;
pub mod laws;
pub mod looper;
pub mod mode;
pub mod packages;
pub mod pid;
pub mod props;
pub mod scheduler;
pub mod sensor;
pub mod sort;
pub mod table;
pub mod text;
pub mod thermal;
pub mod topapp;
pub mod xtask;
pub mod zygisk;
