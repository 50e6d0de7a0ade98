//! A two-tier cache-aside store for collections: the decisions that sit
//! between a key-value cache and a relational store, verified.

pub mod ids;
pub mod status;
pub mod cache;
pub mod collection;
pub mod repository;
