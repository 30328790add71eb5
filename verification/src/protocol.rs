pub mod format;
pub mod request;
pub mod value;
pub mod value_text;
