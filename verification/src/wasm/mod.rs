pub mod capabilities;
pub mod session;
