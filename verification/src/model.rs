//! The compiler as a function on mathematical values.
//!
//! Each production of the grammar is a function from the state of the
//! compilation before it to the state after it. The executable compiler is
//! proved to compute these functions on every input that it takes.
//!
//! Every function here is total. A production that repeats itself, or comes
//! back to itself through the productions it is made of, does so only behind
//! a test that the cursor has not gone back, or that it has moved on where
//! the repetition depends on it: the distance to the end of the input is
//! what makes the recursion well-founded. On an input that the compiler
//! takes these tests never fail, and the compiler does not make them.

pub mod expression;
pub mod prepass;
pub mod program;
pub mod state;
pub mod statement;
