//! What a script is made of: tokens, tags and expressions.
use crate::vars::{Val, ValView};
use vstd::prelude::*;

verus! {

/// The id of a room, a tile, a sprite, an item or a palette.
pub type ID = String;

/// A style in which text is drawn.
#[derive(Debug, Copy, Clone, PartialEq, Eq, Structural)]
pub enum TextEffect {
    /// No effects.
    Plain,
    /// `{wvy}`: the text waves up and down.
    Wavy,
    /// `{shk}`: the text shakes constantly.
    Shaky,
    /// `{rbw}`: the text is rainbow colored.
    Rainbow,
    /// `{clr}`: the text has a color of the palette.
    Color(u8),
}

impl Default for TextEffect {
    fn default() -> (e: TextEffect)
        ensures
            e == TextEffect::Plain,
    {
        TextEffect::Plain
    }
}

/// An operator between two operands.
#[derive(Debug, Copy, Clone, PartialEq, Eq, Structural)]
pub enum BinOp {
    Mul,
    Div,
    Add,
    Sub,
    Lt,
    Gt,
    Lte,
    Gte,
    Eq,
}

/// An operand: something that has a value by itself.
#[derive(Debug, PartialEq)]
pub enum SimpleExpr {
    /// The value of the variable.
    Var(String),
    /// How many of the item the inventory holds.
    Item(String),
    /// The value itself.
    Val(Val),
}

/// An expression: one operand, or one operator between two operands.
#[derive(Debug, PartialEq)]
pub enum Expr {
    SimpleExpr(SimpleExpr),
    BinOp(BinOp, SimpleExpr, SimpleExpr),
}

/// What stands between braces in a script.
#[derive(Debug, PartialEq)]
pub enum Tag {
    /// Line break.
    Br,
    /// Page break.
    Pg,
    /// Apply style effect to text.
    Eff(TextEffect),
    /// End the game.
    End,
    /// Print the value of the expression.
    Say(Expr),
    /// Draw tile.
    DrwT(ID),
    /// Draw sprite.
    DrwS(ID),
    /// Draw item.
    DrwI(ID),
    /// Change room's current palette.
    Pal(ID),
    /// Make avatar look like the given sprite.
    Ava(ID),
    /// Move player to the given room.
    Exit(ID, u8, u8),
    /// Evaluate the expression and assign its result to the variable.
    Assign(String, Expr),
    /// Unsupported tag, with its name and its arguments.
    Unknown(String, String),
}

/// One piece of a script.
#[derive(Debug, PartialEq)]
pub enum Token {
    OpenTag(Tag),
    CloseTag(Tag),
    Word(String),
}

/// What a [`SimpleExpr`] holds, with each string as its characters.
pub enum SimpleExprView {
    Var(Seq<char>),
    Item(Seq<char>),
    Val(ValView),
}

/// What an [`Expr`] holds, with each string as its characters.
pub enum ExprView {
    SimpleExpr(SimpleExprView),
    BinOp(BinOp, SimpleExprView, SimpleExprView),
}

/// What a [`Tag`] holds, with each string as its characters.
pub enum TagView {
    Br,
    Pg,
    Eff(TextEffect),
    End,
    Say(ExprView),
    DrwT(Seq<char>),
    DrwS(Seq<char>),
    DrwI(Seq<char>),
    Pal(Seq<char>),
    Ava(Seq<char>),
    Exit(Seq<char>, u8, u8),
    Assign(Seq<char>, ExprView),
    Unknown(Seq<char>, Seq<char>),
}

/// What a [`Token`] holds, with each string as its characters.
pub enum TokenView {
    OpenTag(TagView),
    CloseTag(TagView),
    Word(Seq<char>),
}

impl View for SimpleExpr {
    type V = SimpleExprView;

    open spec fn view(&self) -> SimpleExprView {
        match self {
            SimpleExpr::Var(name) => SimpleExprView::Var(name@),
            SimpleExpr::Item(name) => SimpleExprView::Item(name@),
            SimpleExpr::Val(v) => SimpleExprView::Val(v@),
        }
    }
}

impl View for Expr {
    type V = ExprView;

    open spec fn view(&self) -> ExprView {
        match self {
            Expr::SimpleExpr(e) => ExprView::SimpleExpr(e@),
            Expr::BinOp(op, l, r) => ExprView::BinOp(*op, l@, r@),
        }
    }
}

impl View for Tag {
    type V = TagView;

    open spec fn view(&self) -> TagView {
        match self {
            Tag::Br => TagView::Br,
            Tag::Pg => TagView::Pg,
            Tag::Eff(e) => TagView::Eff(*e),
            Tag::End => TagView::End,
            Tag::Say(e) => TagView::Say(e@),
            Tag::DrwT(id) => TagView::DrwT(id@),
            Tag::DrwS(id) => TagView::DrwS(id@),
            Tag::DrwI(id) => TagView::DrwI(id@),
            Tag::Pal(id) => TagView::Pal(id@),
            Tag::Ava(id) => TagView::Ava(id@),
            Tag::Exit(room, x, y) => TagView::Exit(room@, *x, *y),
            Tag::Assign(name, e) => TagView::Assign(name@, e@),
            Tag::Unknown(name, args) => TagView::Unknown(name@, args@),
        }
    }
}

impl View for Token {
    type V = TokenView;

    open spec fn view(&self) -> TokenView {
        match self {
            Token::OpenTag(tag) => TokenView::OpenTag(tag@),
            Token::CloseTag(tag) => TokenView::CloseTag(tag@),
            Token::Word(text) => TokenView::Word(text@),
        }
    }
}

impl Clone for SimpleExpr {
    fn clone(&self) -> (e: SimpleExpr)
        ensures
            e@ == self@,
    {
        match self {
            SimpleExpr::Var(name) => SimpleExpr::Var(name.clone()),
            SimpleExpr::Item(name) => SimpleExpr::Item(name.clone()),
            SimpleExpr::Val(v) => SimpleExpr::Val(v.clone()),
        }
    }
}

impl Clone for Expr {
    fn clone(&self) -> (e: Expr)
        ensures
            e@ == self@,
    {
        match self {
            Expr::SimpleExpr(e) => Expr::SimpleExpr(e.clone()),
            Expr::BinOp(op, l, r) => Expr::BinOp(*op, l.clone(), r.clone()),
        }
    }
}

impl Clone for Tag {
    fn clone(&self) -> (tag: Tag)
        ensures
            tag@ == self@,
    {
        match self {
            Tag::Br => Tag::Br,
            Tag::Pg => Tag::Pg,
            Tag::Eff(e) => Tag::Eff(*e),
            Tag::End => Tag::End,
            Tag::Say(e) => Tag::Say(e.clone()),
            Tag::DrwT(id) => Tag::DrwT(id.clone()),
            Tag::DrwS(id) => Tag::DrwS(id.clone()),
            Tag::DrwI(id) => Tag::DrwI(id.clone()),
            Tag::Pal(id) => Tag::Pal(id.clone()),
            Tag::Ava(id) => Tag::Ava(id.clone()),
            Tag::Exit(room, x, y) => Tag::Exit(room.clone(), *x, *y),
            Tag::Assign(name, e) => Tag::Assign(name.clone(), e.clone()),
            Tag::Unknown(name, args) => Tag::Unknown(name.clone(), args.clone()),
        }
    }
}

impl Clone for Token {
    fn clone(&self) -> (token: Token)
        ensures
            token@ == self@,
    {
        match self {
            Token::OpenTag(tag) => Token::OpenTag(tag.clone()),
            Token::CloseTag(tag) => Token::CloseTag(tag.clone()),
            Token::Word(text) => Token::Word(text.clone()),
        }
    }
}

} // verus!
