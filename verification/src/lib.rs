//! Placement of actors, shards and singletons over a cluster: who owns what, how
//! ownership moves, and which requests a node may answer.
#![allow(unused_imports)]
pub mod encode;
pub mod epoch_floor;
pub mod hashing;
pub mod keymap;
pub mod leases;
pub mod order;
pub mod ownership;
pub mod plan;
pub mod ranking;
pub mod records;
pub mod region;
pub mod render;
pub mod routing;
pub mod runtime;
pub mod selection;
pub mod sessions;
pub mod sharding;
pub mod sorted;
pub mod text;
pub mod time;
pub mod types;
