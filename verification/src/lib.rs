//! Verified logic of a set-up and monitoring tool for single-board
//! computers: storage health, package-mirror switching, board detection
//! and the text the tool shows.
use vstd::prelude::*;

pub mod text;
pub mod lex;
pub mod model;
pub mod health;
pub mod mmc;
pub mod nvme;
pub mod base64;
pub mod sources;
pub mod source_files;
pub mod fingerprint;
pub mod source_status;
pub mod source_plan;
pub mod benchmark;
pub mod actions;
pub mod catalog;
pub mod i18n;
pub mod api;
pub mod order;
pub mod hardware;
pub mod efi;
pub mod devices;
pub mod fan;
pub mod report;
pub mod helper_request;
pub mod control;
pub mod overlay_files;
pub mod pinout;
pub mod probe;
pub mod boot_transaction;
pub mod efi_entry;

verus! {

} // verus!
