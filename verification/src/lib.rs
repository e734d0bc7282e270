//! A reverse-Polish-notation stack evaluator.
//!
//! Input text is split into whitespace-delimited lexemes; each lexeme is
//! either a literal (integer, float, quoted string, boolean) that is pushed
//! onto the operand stack, or an operator keyword that pops its operands and
//! pushes its result.  Binary operators coerce their operands to the more
//! generic of the two value kinds before applying the branch for that kind.
//!
//! Floating-point values are carried as IEEE-754 bit patterns (`u64`): the
//! evaluator itself performs no floating-point arithmetic.  Whenever a float
//! must be parsed, widened from an integer, combined, compared or rendered,
//! the machine suspends with a [`machine::FloatReq`] and the embedding
//! program answers with a [`machine::FloatResp`].  Every decision — lexing,
//! literal classification, operator dispatch, coercion, error detection and
//! all integer, string and boolean arithmetic — is made and verified here.

pub mod laws;
pub mod lexer;
pub mod machine;
pub mod stack;
pub mod utils;
