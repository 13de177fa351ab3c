//! Version two of the JSON-RPC types: error objects, parameters, requests and responses.

pub mod error;
pub mod params;
pub mod request;
pub mod response;
pub mod traits;
