pub mod id;
pub mod items;
pub mod label_hash;
pub mod styled_string;
pub mod decimal;
pub mod text;
pub mod tqdm;
