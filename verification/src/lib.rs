pub mod attributes;
pub mod binary;
pub mod binding;
pub mod call;
pub mod cell;
pub mod colour;
pub mod error;
pub mod frame;
pub mod function;
pub mod garbage_collector;
pub mod generator;
pub mod heap;
pub mod instruction;
pub mod lexer;
pub mod names;
pub mod numeric;
pub mod optimizer;
pub mod parser;
pub mod position;
pub mod positioned;
pub mod runtime;
pub mod scheduler;
pub mod state;
pub mod thread;
pub mod typing;
pub mod unioning;
pub mod utils;
pub mod value;

