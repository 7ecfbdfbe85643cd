//! V-Code: a small scripting language with Spanish keywords.
//!
//! Source text is split into tokens ([`lexer`]), the tokens are read into a
//! syntax tree ([`parser`], [`ast`]), and the tree is evaluated
//! ([`ejecutor`]). Each stage computes a function that is stated over a
//! mathematical model of its input: the token stream of a text, the program
//! of a token stream, and the meaning of a program ([`semantica`],
//! [`operadores`]). The laws of the language that follow from those
//! functions are proved in [`leyes`]; that a program, written out by
//! [`formato`] and [`escritura`], is read back as itself is proved there.
//!
//! Decimal numbers are held as the bits of a double ([`decimal`]). The
//! library compares, negates and truncates them; their arithmetic, the
//! reading of a literal and the writing of a value are asked of the host,
//! through two functions that the evaluator is handed.

pub mod ast;
pub mod decimal;
pub mod ejecutor;
pub mod entorno;
pub mod error;
pub mod escritura;
pub mod formato;
pub mod interprete;
pub mod lexer;
pub mod leyes;
pub mod mensajes;
pub mod operadores;
pub mod parser;
pub mod semantica;
pub mod tabla;
pub mod texto;
pub mod valor;

pub use interprete::{ejecutar, ejecutar_con_limite};
