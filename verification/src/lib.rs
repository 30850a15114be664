//! Verified core of a small MSTSC (Remote Desktop) account manager: connection
//! records, the `.rdp` profiles written for `mstsc.exe`, the command-line
//! arguments passed to it, credential requests, and the decisions taken by the
//! user interface and the floating controller.
pub mod text;
pub mod domain;
pub mod model;
pub mod crypto;
pub mod mstsc;
pub mod rdp_launch;
pub mod platform;
pub mod config;
pub mod storage;
pub mod platform_actions;
pub mod ui;
pub mod floating;
pub mod floating_position;
