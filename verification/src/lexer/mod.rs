pub mod lexer;
pub mod positioned_token;
pub mod token;
