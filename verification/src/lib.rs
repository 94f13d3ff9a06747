//! Client-side core for a weekly cafeteria ("Mensa") meal plan API.
//!
//! The crate builds the query URL for a location of the closed catalog,
//! validates the transport outcome, decodes the XML body into a typed
//! [`mensa::Plan`], and resolves calendar dates into weekdays.

pub mod catalog;
pub mod date;
pub mod decode;
pub mod error;
pub mod mensa;
pub mod service;
pub mod strutil;
pub mod url;

pub use catalog::MensaPlace;
pub use error::MensaError;
pub use service::collect_plans;
pub use service::process_response;
pub use url::Generation;
pub use url::UrlBuilder;
