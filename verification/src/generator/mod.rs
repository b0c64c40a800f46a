pub mod generate_expression;
pub mod generate_program;
pub mod generator_utils;
