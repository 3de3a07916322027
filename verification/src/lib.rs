//! A dialog script engine: a tokenizer that cuts script text into words and
//! tags, a tag parser, and an interpreter that applies the tags to the game
//! state and yields what is to be drawn.
pub mod dialog;
pub mod interpreter;
pub mod inventory;
pub mod number;
pub mod parser;
pub mod state;
pub mod tag;
pub mod text;
pub mod tokenizer;
pub mod vars;

pub use dialog::{Dialog, Line, Page};
pub use interpreter::{handle_token, interpret, resume, Event, FloatJob, Interpreter, Word};
pub use inventory::Inventory;
pub use state::State;
pub use tag::{BinOp, Expr, SimpleExpr, Tag, TextEffect, Token, ID};
pub use tokenizer::Tokenizer;
pub use vars::{Val, Vars};
