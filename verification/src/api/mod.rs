pub mod params;
pub mod requests;
pub mod response_object;
