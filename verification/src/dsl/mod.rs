//! The scene description language: statements such as `point A (0, 0);`
//! or `circle A radius 2 stroke 1.5;` mixed with Rust control flow, turned
//! into Rust code that builds a `Scene`.

pub mod token;
pub mod grammar;
pub mod codegen;
