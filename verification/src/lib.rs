//! Verified core of a small collection of workstation and home-lab tools:
//! kernel-log pattern matching and driver-rebind decisions for an external
//! GPU, metrics/config helpers for a remote GPU box, an app-launcher model,
//! and the command/response handling of a travel-router manager.
mod text;
pub mod kmsg;
pub mod rebind;
pub mod pcie;
pub mod evo;
pub mod metrics;
pub mod json;
pub mod router;
pub mod widget;
pub mod apps;
pub mod webhook;
pub mod ocr;
pub mod llm;
