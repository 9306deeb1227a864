pub mod types;
pub mod binary;
pub mod tile;
pub mod drops;
pub mod entity;
pub mod header;
pub mod reader;
pub mod sections;
