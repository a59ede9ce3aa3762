//! Front end for a small expression language: a line-oriented scanner that
//! turns source text into tokens, and an expression builder that folds the
//! tokens into one syntax tree by inserting each token into the open slot
//! of the tree built so far.
pub mod expression;
pub mod parser;
pub mod text;
pub mod token;
pub mod token_type;
pub mod tokenizer;

pub use expression::{
    AddExpr, Binary, BinaryType, Expression, IsPartial, MinusRole, ParseExprErrorType, Unary,
    UnaryType,
};
pub use parser::{ParseExprError, Parser};
pub use token::Token;
pub use token_type::TokenType;
pub use tokenizer::{Serialized, Tokenizer, TokenizerError, TokenizerErrorType, TokenizerOutput};
