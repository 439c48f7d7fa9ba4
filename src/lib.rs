//! Mirrors the canonical chain of an Ethereum node into a relational store.
//!
//! The library holds the logic of the mirror: the row encodings of blocks and
//! transactions, the assembly of a bounded batch of blocks into SQL text, the
//! plan of the database transaction that stores it, and the decisions of the
//! synchronisation loop. The program around it performs the node and database
//! calls and hands the results back.

pub mod text;
pub mod sql;
pub mod pipe;
