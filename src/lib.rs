//! Change detection and artifact reuse for incremental container-image
//! builds: a recipe is parsed into a linear graph of steps, each step gets a
//! content address from its inputs, and a local and an optional remote
//! content-addressed cache decide which steps must be rebuilt.
pub mod cache;
pub mod dag;
pub mod env;
pub mod error;
pub mod executor;
pub mod git;
pub mod graph;
pub mod hasher;
pub mod keys;
pub mod parser;
pub mod remote;
pub mod sandbox;
pub mod strmap;
pub mod text;
