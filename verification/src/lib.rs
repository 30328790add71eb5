pub mod engine;
pub mod gateway;
pub mod helixc;
pub mod protocol;
pub mod utils;
