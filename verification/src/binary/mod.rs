pub mod cursor;
pub mod types;
pub mod strings;
pub mod reader;
pub mod writer;
pub mod roundtrip;
pub mod le;
