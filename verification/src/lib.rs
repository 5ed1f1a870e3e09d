//! Verified core of an image clean-up tool: classifying project files,
//! finding images that no text file references, planning the rewrite of
//! references after conversion, and the decisions of the interactive steps.

pub mod text;
pub mod pathname;
pub mod filters;
pub mod matcher;
pub mod error;
pub mod analyzer;
pub mod replacer;
pub mod scanner;
pub mod cli;
pub mod converter;
pub mod remover;
