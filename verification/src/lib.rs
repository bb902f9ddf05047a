//! Decision logic of a Windows system cleaner: path safety rules, clean and
//! scan planning, start-up item management, and the text formats the tool
//! reads from system commands.

pub mod text;
pub mod winpath;
pub mod rules_engine;
pub mod clean_executor;
pub mod keyed;
pub mod scan_scheduler;
pub mod service;
pub mod startup;
pub mod elevate;
pub mod paths;
pub mod shredder;
pub mod icons;
pub mod exec;
pub mod registry;
pub mod process;
pub mod filesystem;
pub mod speedup;
pub mod store;
