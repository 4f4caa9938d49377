//! A client for NASA's open APIs: the Astronomy Picture of the Day and the
//! Near Earth Object Web Service.
pub mod decimal;
pub mod date;
pub mod web;
pub mod response;
pub mod client;

/// The Astronomy Picture of the Day API
pub mod apod;
/// The Near Earth Object Web Service API
pub mod neo_ws;

pub use client::{ApiRequest, Client};
pub use date::Date;
pub use response::{common_errors, respond, ApiResponse, RequestError};
