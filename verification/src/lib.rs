//! Decision logic of the Marrakesh marketplace simulation: event-routed logging,
//! the campaign registry with its value groups, the convergence loop's stopping
//! rule, scenario validation reports and command-line handling.

pub mod bidding;
pub mod campaigns;
pub mod cli;
pub mod convergence;
pub mod logfiles;
pub mod logger;
pub mod scenarios;
pub mod sellers;
pub mod stats;
pub mod targets;
pub mod text;

pub use campaigns::{CampaignEntry, CampaignType, Campaigns, ConvergeTarget};
pub use logger::{sanitize_filename, ConsoleReceiver, Dispatch, LogEvent, Logger, ReceiverId, ReceiverIds};
