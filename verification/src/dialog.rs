//! A dialog laid out for the screen: pages of lines of words.
use crate::tag::{TextEffect, ID};
use vstd::prelude::*;

verus! {

/// A dialog: the pages that are shown one after the other.
pub struct Dialog {
    pub pages: Vec<Page>,
}

/// A page: the lines that are shown together.
pub struct Page {
    pub lines: Vec<Line>,
}

/// A line: the words that stand side by side.
pub struct Line {
    pub words: Vec<Word>,
}

/// One thing that stands in a line.
pub enum Word {
    /// Text, and the style to draw it in.
    Text(String, TextEffect),
    Sprite(ID),
    Tile(ID),
    Item(ID),
}

} // verus!
