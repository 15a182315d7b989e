//! DEX parsing, bytecode decoding and the analyses built on them.

pub mod bytecode;
pub mod call_graph;
pub mod class_decompiler;
pub mod code_extractor;
pub mod constants;
pub mod container;
pub mod data_flow_analyzer;
pub mod decoder;
pub mod entry_point_analyzer;
pub mod error;
pub mod expression_builder;
pub mod filter;
pub mod instruction;
pub mod method_resolver;
pub mod models;
pub mod opcode;
pub mod parser;
pub mod search;

pub use error::DexError;
