pub mod ast;
