//! Front end of a shader-language compiler: tokenizer, parser, and the two
//! passes over the scopes, which give blocks and declarations their scopes
//! and resolve every name to the symbol it refers to.
pub mod text;
pub mod token;
pub mod parser;
pub mod scope;

use vstd::prelude::*;

verus! {
} // verus!
