pub mod amount;
pub mod entities;
pub mod entity;
pub mod chart;
pub mod context;
pub mod history;
pub mod laws;
pub mod ledger;
pub mod ministry;
pub mod report;
pub mod rules;
pub mod unit;

pub use crate::model::amount::Amount;
pub use crate::model::entity::{ContractParams, Entity, EntityKind, Inventory, PlayerParams};
pub use crate::model::unit::{Currency, FullUnit};
pub use crate::model::entities::Entities;
pub use crate::model::history::{DatedHistoryEntry, HistoryEntry};
pub use crate::model::ledger::LedgerError;
pub use crate::model::context::Context;
pub use crate::model::ministry::Ministry;
