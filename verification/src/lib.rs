pub mod accounts;
pub mod amount;
pub mod asset;
pub mod auction;
pub mod batch;
pub mod capital;
pub mod codec;
pub mod error;
pub mod events;
pub mod ids;
pub mod operators;
pub mod policy;
pub mod portfolio;
pub mod reconciliation;
pub mod risk;
pub mod routes;
pub mod scenario;
pub mod schedule;
pub mod settlement;
pub mod store;
pub mod telemetry;
pub mod text;

pub use accounts::{AccountBook, AccountRole, AccountView, BalanceCell};
pub use amount::{Amount, BasisPoints, Ratio};
pub use asset::{Asset, AssetBook, AssetClass};
pub use auction::{AuctionBook, BidRequest, BidTicket};
pub use batch::{BatchBook, BatchOrder, BatchStatus};
pub use error::{EclipseError, Result};
pub use events::{Event, EventLog};
pub use ids::{AccountId, AssetId, BatchId, BidId, OperatorId, RouteId};
pub use operators::{OperatorBook, OperatorProfile, OperatorStatus};
pub use risk::{RiskConfig, RiskEngine};
pub use routes::{RouteBook, RoutePlan};
pub use settlement::{SettlementEngine, SettlementReceipt};
