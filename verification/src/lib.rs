//! A Terraria server library: the binary encodings of the network protocol and of
//! world files, the world file parser, and the server's handling of client messages.
pub mod binary;
pub mod world;
pub mod network;
