//! Turns a mod load order listing into a LOOT user rule document.

pub mod document;
pub mod error;
pub mod file_util;
pub mod lootifier;
pub mod rules;
pub mod text;
pub mod yaml;

pub use crate::error::LootifierError;
pub use crate::lootifier::Lootifier;
pub use crate::rules::{LootRule, RuleSet};
