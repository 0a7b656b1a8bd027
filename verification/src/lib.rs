//! Browser automation: scenarios of blocks, the schedules that start them, the
//! profiles that they run on, and the server that offers the tools they use.
//!
//! Everything here is decided on plain values. A run, a tool at work on a page,
//! an operation of a protocol, and the scenarios of a profile are machines: a
//! step takes what came back from the action before it, and says what to do
//! next.
pub mod acting;
pub mod actions;
pub mod ai;
pub mod bidi;
pub mod calls;
pub mod cdp;
pub mod chance;
pub mod cloak;
pub mod clock;
pub mod conduct;
pub mod context;
pub mod dataset;
pub mod exchange;
pub mod executor;
pub mod filling;
pub mod flags;
pub mod interpolate;
pub mod json;
pub mod keys;
pub mod launching;
pub mod machine;
pub mod manager;
pub mod map;
pub mod model;
pub mod offers;
pub mod pages;
pub mod plan;
pub mod pressing;
pub mod profiles;
pub mod progress;
pub mod protocol;
pub mod reading;
pub mod records;
pub mod replies;
pub mod scheduler;
pub mod scripts;
pub mod store;
pub mod tables;
pub mod telling;
pub mod text;
pub mod tick;
pub mod tools;
pub mod usage;
pub mod value;
