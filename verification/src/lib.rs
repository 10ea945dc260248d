//! Price-tracking engine for collectible items: a currency catalog with a
//! fuzzy guesser, an exchange-rate snapshot with exact conversion, a trigger
//! condition evaluator, the enrichment step of the concurrent fan-out engine,
//! and the planning step of the notification dispatcher.

pub mod adapters;
pub mod amount;
pub mod conditions;
pub mod config;
pub mod conversion;
pub mod currency;
pub mod fanout;
pub mod guesser;
pub mod items;
pub mod notifications;
pub mod prices;
pub mod selection;
pub mod text;

pub use currency::SupportedCurrency;
