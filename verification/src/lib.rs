//! Decision logic of an input-method coordinator.

pub mod action;
pub mod addword;
pub mod assembly;
pub mod assoc;
pub mod aux_code;
pub mod building;
pub mod candidate;
pub mod charset;
pub mod choosing;
pub mod command;
pub mod config;
pub mod coordinator;
pub mod freq;
pub mod keys;
pub mod learning;
pub mod ops;
pub mod ranking;
pub mod selection;
pub mod state;
pub mod text;
pub mod view;
