//! The interpreter: applies the tags of a script to the game state and
//! yields what is to be drawn.
//!
//! The interpreter computes with integers and strings. The arithmetic of
//! floating-point numbers is the host's: where an expression needs it, the
//! interpreter stops with a [`FloatJob`], the host computes, and
//! [`resume`] goes on with the answer.
//!
//! The text effect is one value and no stack: an effect tag that opens
//! while an effect is active turns that effect off and does not turn its
//! own on, and the closing of any effect tag turns the effect off.
use crate::inventory::quantity;
use crate::number::{i16_to_string, int_text};
use crate::parser::{expr_spec, lemma_integer_literal};
use crate::state::{State, StateView};
use crate::tag::{
    BinOp, Expr, ExprView, SimpleExpr, SimpleExprView, Tag, TagView, TextEffect, Token, TokenView,
    ID,
};
use crate::tokenizer::{lemma_scan_consumes, next_spec, Tokenizer};
use crate::vars::{lookup, Val, ValView};
use vstd::prelude::*;
use vstd::string::StringExecFns;

verus! {

/// One thing for the renderer to draw.
#[derive(Debug, PartialEq)]
pub enum Word {
    /// Text, and the style to draw it in.
    Text(String, TextEffect),
    Sprite(ID),
    Tile(ID),
    Item(ID),
    LineBreak,
    PageBreak,
}

/// What a [`Word`] holds, with each string as its characters.
pub enum WordView {
    Text(Seq<char>, TextEffect),
    Sprite(Seq<char>),
    Tile(Seq<char>),
    Item(Seq<char>),
    LineBreak,
    PageBreak,
}

impl View for Word {
    type V = WordView;

    open spec fn view(&self) -> WordView {
        match self {
            Word::Text(text, effect) => WordView::Text(text@, *effect),
            Word::Sprite(id) => WordView::Sprite(id@),
            Word::Tile(id) => WordView::Tile(id@),
            Word::Item(id) => WordView::Item(id@),
            Word::LineBreak => WordView::LineBreak,
            Word::PageBreak => WordView::PageBreak,
        }
    }
}

/// Work for the host: an operation on numbers of which at least one is a
/// floating-point number.
#[derive(Debug, PartialEq)]
pub enum FloatJob {
    /// Apply the operator to the two numbers; the answer is assigned to
    /// the variable.
    Assign(String, BinOp, Val, Val),
    /// Apply the operator to the two numbers; the answer is printed.
    Say(BinOp, Val, Val),
    /// Write the floating-point number with this literal as it is printed;
    /// the answer is that text, as a string value.
    Render(String),
}

/// What a [`FloatJob`] holds, with each string as its characters.
pub enum FloatJobView {
    Assign(Seq<char>, BinOp, ValView, ValView),
    Say(BinOp, ValView, ValView),
    Render(Seq<char>),
}

impl View for FloatJob {
    type V = FloatJobView;

    open spec fn view(&self) -> FloatJobView {
        match self {
            FloatJob::Assign(name, op, l, r) => FloatJobView::Assign(name@, *op, l@, r@),
            FloatJob::Say(op, l, r) => FloatJobView::Say(*op, l@, r@),
            FloatJob::Render(literal) => FloatJobView::Render(literal@),
        }
    }
}

/// What the interpreter stops with: something to draw, or work for the
/// host.
#[derive(Debug, PartialEq)]
pub enum Event {
    Word(Word),
    Float(FloatJob),
}

/// What an [`Event`] holds, with each string as its characters.
pub enum EventView {
    Word(WordView),
    Float(FloatJobView),
}

impl View for Event {
    type V = EventView;

    open spec fn view(&self) -> EventView {
        match self {
            Event::Word(word) => EventView::Word(word@),
            Event::Float(job) => EventView::Float(job@),
        }
    }
}

/// What an expression comes to: a value, or an operation that is left to
/// the host.
#[derive(Debug, PartialEq)]
pub enum Evaluated {
    Val(Val),
    Float(BinOp, Val, Val),
}

/// What an [`Evaluated`] holds, with each string as its characters.
pub enum EvaluatedView {
    Val(ValView),
    Float(BinOp, ValView, ValView),
}

impl View for Evaluated {
    type V = EvaluatedView;

    open spec fn view(&self) -> EvaluatedView {
        match self {
            Evaluated::Val(v) => EvaluatedView::Val(v@),
            Evaluated::Float(op, l, r) => EvaluatedView::Float(*op, l@, r@),
        }
    }
}

/// What an optional event holds.
pub open spec fn event_view(event: Option<Event>) -> Option<EventView> {
    match event {
        Some(e) => Some(e@),
        None => None,
    }
}

/// The 16-bit integer that `v` wraps around to.
pub open spec fn wrap16(v: int) -> i16 {
    ((v + 0x8000) % 0x1_0000 - 0x8000) as i16
}

/// `a` divided by `b`, rounded towards zero.
pub open spec fn quotient(a: int, b: int) -> int {
    let q = (if a < 0 {
        -a
    } else {
        a
    }) / (if b < 0 {
        -b
    } else {
        b
    });
    if (a < 0) == (b < 0) {
        q
    } else {
        -q
    }
}

/// The integer that stands for a truth value: 1 for true, 0 for false.
pub open spec fn truth(b: bool) -> ValView {
    ValView::I(
        if b {
            1
        } else {
            0
        },
    )
}

/// Whether the two operands are numbers of which at least one is a
/// floating-point number: such an operation is the host's.
pub open spec fn needs_float(l: ValView, r: ValView) -> bool {
    (l is I || l is F) && (r is I || r is F) && (l is F || r is F)
}

/// The operator applied to two integers. Sums, differences, products and
/// quotients wrap around at 16 bits; a quotient is rounded towards zero; a
/// division by zero gives no value. A comparison gives 1 or 0.
pub open spec fn int_op_spec(op: BinOp, a: i16, b: i16) -> ValView {
    match op {
        BinOp::Mul => ValView::I(wrap16(a * b)),
        BinOp::Div => if b == 0 {
            ValView::Undef
        } else {
            ValView::I(wrap16(quotient(a as int, b as int)))
        },
        BinOp::Add => ValView::I(wrap16(a + b)),
        BinOp::Sub => ValView::I(wrap16(a - b)),
        BinOp::Lt => truth(a < b),
        BinOp::Gt => truth(a > b),
        BinOp::Lte => truth(a <= b),
        BinOp::Gte => truth(a >= b),
        BinOp::Eq => truth(a == b),
    }
}

/// The operator applied to two operands that are not both integers, and of
/// which none is a floating-point number beside a number. The sum of two
/// strings is the one followed by the other. Any other sum is the left
/// operand where the right one has no value, else the right operand. A
/// difference, product or quotient is the right operand where the left one
/// has no value, else the left operand. A comparison is false.
pub open spec fn mixed_op_spec(op: BinOp, l: ValView, r: ValView) -> ValView {
    match op {
        BinOp::Add => match (l, r) {
            (ValView::S(a), ValView::S(b)) => ValView::S(a + b),
            (_, ValView::Undef) => l,
            _ => r,
        },
        BinOp::Mul | BinOp::Div | BinOp::Sub => if l is Undef {
            r
        } else {
            l
        },
        _ => truth(false),
    }
}

/// The operator applied to two operands; `None` where the operation is the
/// host's.
pub open spec fn bin_op_spec(op: BinOp, l: ValView, r: ValView) -> Option<ValView> {
    if needs_float(l, r) {
        None
    } else {
        match (l, r) {
            (ValView::I(a), ValView::I(b)) => Some(int_op_spec(op, a, b)),
            _ => Some(mixed_op_spec(op, l, r)),
        }
    }
}

/// The integer that a quantity is read as: the same number up to
/// `i16::MAX`, and beyond it the number wrapped around at 16 bits.
pub open spec fn count_as_int(q: u16) -> i16 {
    wrap16(q as int)
}

/// The value of an operand: what the variable holds, how many of the item
/// the inventory holds, or the value itself.
pub open spec fn simple_value(e: SimpleExprView, s: StateView) -> ValView {
    match e {
        SimpleExprView::Var(name) => lookup(s.vars, name),
        SimpleExprView::Item(name) => ValView::I(count_as_int(quantity(s.inventory, name))),
        SimpleExprView::Val(v) => v,
    }
}

/// What an expression comes to in the state `s`.
pub open spec fn expr_value(e: ExprView, s: StateView) -> EvaluatedView {
    match e {
        ExprView::SimpleExpr(e) => EvaluatedView::Val(simple_value(e, s)),
        ExprView::BinOp(op, l, r) => {
            let l = simple_value(l, s);
            let r = simple_value(r, s);
            match bin_op_spec(op, l, r) {
                Some(v) => EvaluatedView::Val(v),
                None => EvaluatedView::Float(op, l, r),
            }
        },
    }
}

/// The text that a value is printed as: `0` for no value, an integer in
/// base ten, a string as it is, and a floating-point number as the text
/// that it is carried as.
pub open spec fn val_text(v: ValView) -> Seq<char> {
    match v {
        ValView::Undef => seq!['0'],
        ValView::I(i) => int_text(i as int),
        ValView::S(s) => s,
        ValView::F(f) => f,
    }
}

/// A state, and what the interpreter stops with in it, if it stops.
pub struct Outcome {
    pub state: StateView,
    pub event: Option<EventView>,
}

/// The state `s` as it is, and no event.
pub open spec fn silent(s: StateView) -> Outcome {
    Outcome { state: s, event: None }
}

/// The state `s` as it is, and the word to draw.
pub open spec fn draw(s: StateView, word: WordView) -> Outcome {
    Outcome { state: s, event: Some(EventView::Word(word)) }
}

/// Printing the value `v`: an integer, a string or no value is drawn as
/// text in the current style; a floating-point number goes to the host to
/// be written.
pub open spec fn say_spec(v: ValView, s: StateView) -> Outcome {
    match v {
        ValView::F(literal) => Outcome {
            state: s,
            event: Some(EventView::Float(FloatJobView::Render(literal))),
        },
        _ => draw(s, WordView::Text(val_text(v), s.effect)),
    }
}

/// The effect after an effect tag opens: where one is active it is turned
/// off, whichever the tag names; where none is, the tag's effect is on.
pub open spec fn toggle(current: TextEffect, opened: TextEffect) -> TextEffect {
    if current != TextEffect::Plain {
        TextEffect::Plain
    } else {
        opened
    }
}

/// What an opening tag does in the state `s`.
pub open spec fn open_tag_spec(tag: TagView, s: StateView) -> Outcome {
    match tag {
        TagView::Br => draw(s, WordView::LineBreak),
        TagView::Pg => draw(s, WordView::PageBreak),
        TagView::Eff(e) => silent(StateView { effect: toggle(s.effect, e), ..s }),
        TagView::End => silent(StateView { end: true, ..s }),
        TagView::Say(e) => match expr_value(e, s) {
            EvaluatedView::Val(v) => say_spec(v, s),
            EvaluatedView::Float(op, l, r) => Outcome {
                state: s,
                event: Some(EventView::Float(FloatJobView::Say(op, l, r))),
            },
        },
        TagView::DrwT(id) => draw(s, WordView::Tile(id)),
        TagView::DrwS(id) => draw(s, WordView::Sprite(id)),
        TagView::DrwI(id) => draw(s, WordView::Item(id)),
        TagView::Pal(id) => silent(StateView { palette: id, ..s }),
        TagView::Ava(id) => silent(StateView { avatar: id, ..s }),
        TagView::Exit(room, x, y) => silent(StateView { room: room, pos_x: x, pos_y: y, ..s }),
        TagView::Assign(name, e) => match expr_value(e, s) {
            EvaluatedView::Val(v) => silent(StateView { vars: s.vars.insert(name, v), ..s }),
            EvaluatedView::Float(op, l, r) => Outcome {
                state: s,
                event: Some(EventView::Float(FloatJobView::Assign(name, op, l, r))),
            },
        },
        TagView::Unknown(_, _) => silent(s),
    }
}

/// What a closing tag does in the state `s`: the closing of any effect
/// turns the effect off; no other closing tag does anything.
pub open spec fn close_tag_spec(tag: TagView, s: StateView) -> Outcome {
    match tag {
        TagView::Eff(_) => silent(StateView { effect: TextEffect::Plain, ..s }),
        _ => silent(s),
    }
}

/// What a token does in the state `s`.
pub open spec fn token_spec(token: TokenView, s: StateView) -> Outcome {
    match token {
        TokenView::OpenTag(tag) => open_tag_spec(tag, s),
        TokenView::CloseTag(tag) => close_tag_spec(tag, s),
        TokenView::Word(text) => draw(s, WordView::Text(text, s.effect)),
    }
}

/// What the host's answer to a job does in the state `s`: the answer to an
/// assignment is stored under the variable's name; the answer to a printed
/// operation is printed as any value is; the answer to a request to write
/// a number is drawn as text.
pub open spec fn resume_spec(job: FloatJobView, answer: ValView, s: StateView) -> Outcome {
    match job {
        FloatJobView::Assign(name, _, _, _) => silent(
            StateView { vars: s.vars.insert(name, answer), ..s },
        ),
        FloatJobView::Say(_, _, _) => say_spec(answer, s),
        FloatJobView::Render(_) => draw(s, WordView::Text(val_text(answer), s.effect)),
    }
}

/// A run of the interpreter: the script that is left, the state, and what
/// the run stopped with; no event at the end of the script.
pub struct Run {
    pub rest: Seq<char>,
    pub state: StateView,
    pub event: Option<EventView>,
}

/// The run of the interpreter over the script `input` from the state `s`:
/// the tokens are applied in order up to the first that gives an event.
pub open spec fn interpret_spec(input: Seq<char>, s: StateView) -> Run
    decreases input.len(),
    via interpret_spec_decreases
{
    match next_spec(input) {
        (Some(token), rest) => {
            let after = token_spec(token, s);
            if after.event is Some {
                Run { rest: rest, state: after.state, event: after.event }
            } else {
                interpret_spec(rest, after.state)
            }
        },
        (None, rest) => Run { rest: rest, state: s, event: None },
    }
}

#[via_fn]
proof fn interpret_spec_decreases(input: Seq<char>, s: StateView) {
    lemma_scan_consumes(input, Seq::<char>::empty(), false, 0);
}

/// What is assigned to a variable is what the variable then prints:
/// after the value `v` was assigned to `name`, printing `name` is printing
/// `v`, and changes nothing.
pub proof fn lemma_assign_then_say(name: Seq<char>, v: ValView, s: StateView)
    ensures
        ({
            let assigned = open_tag_spec(
                TagView::Assign(name, ExprView::SimpleExpr(SimpleExprView::Val(v))),
                s,
            );
            let said = open_tag_spec(
                TagView::Say(ExprView::SimpleExpr(SimpleExprView::Var(name))),
                assigned.state,
            );
            &&& assigned.event is None
            &&& said == say_spec(v, assigned.state)
            &&& !(v is F) ==> said.event == Some(
                EventView::Word(WordView::Text(val_text(v), s.effect)),
            )
        }),
{
}

/// An integer that is assigned as it is written is printed as it was
/// written: after `name` was assigned the expression that the text of the
/// integer `i` writes, printing `name` draws that text.
pub proof fn lemma_integer_assigned_is_printed(name: Seq<char>, i: i16, s: StateView)
    ensures
        ({
            let assigned = open_tag_spec(TagView::Assign(name, expr_spec(int_text(i as int))), s);
            let said = open_tag_spec(
                TagView::Say(ExprView::SimpleExpr(SimpleExprView::Var(name))),
                assigned.state,
            );
            &&& assigned.event is None
            &&& said.event == Some(
                EventView::Word(WordView::Text(int_text(i as int), s.effect)),
            )
            &&& said.state == assigned.state
        }),
{
    lemma_integer_literal(i);
}

/// An effect tag that opens while an effect is active turns the effect
/// off, and the next effect tag that opens turns its own effect on: the
/// effect is one value, no stack.
pub proof fn lemma_effects_toggle(first: TextEffect, second: TextEffect, s: StateView)
    requires
        s.effect == TextEffect::Plain,
        first != TextEffect::Plain,
    ensures
        ({
            let one = open_tag_spec(TagView::Eff(first), s);
            let two = open_tag_spec(TagView::Eff(second), one.state);
            let three = open_tag_spec(TagView::Eff(second), two.state);
            &&& one.state.effect == first
            &&& two.state.effect == TextEffect::Plain
            &&& three.state.effect == second
            &&& close_tag_spec(TagView::Eff(second), one.state).state.effect == TextEffect::Plain
        }),
{
}

/// The 16-bit integer that `v` wraps around to.
fn wrap(v: i32) -> (r: i16)
    requires
        -0x4000_0000 <= v <= 0x4000_0000,
    ensures
        r == wrap16(v as int),
{
    let shifted: u64 = (v as i64 + 0x4000_8000) as u64;
    let low: u64 = shifted % 0x1_0000;
    assert(low as int == (v + 0x8000) % 0x1_0000) by (nonlinear_arith)
        requires
            low as int == (v + 0x4000_8000) % 0x1_0000,
    ;
    (low as i32 - 0x8000) as i16
}

/// `a` divided by `b`, rounded towards zero.
fn divide(a: i16, b: i16) -> (q: i32)
    requires
        b != 0,
    ensures
        q == quotient(a as int, b as int),
        -0x8000 <= q <= 0x8000,
{
    let ua: u32 = if a < 0 {
        (-(a as i32)) as u32
    } else {
        a as u32
    };
    let ub: u32 = if b < 0 {
        (-(b as i32)) as u32
    } else {
        b as u32
    };
    let q: u32 = ua / ub;
    assert(q <= ua) by (nonlinear_arith)
        requires
            q == ua / ub,
            ub >= 1,
    ;
    if (a < 0) == (b < 0) {
        q as i32
    } else {
        -(q as i32)
    }
}

/// The value that stands for a truth value.
fn truth_val(b: bool) -> (v: Val)
    ensures
        v@ == truth(b),
{
    Val::I(
        if b {
            1
        } else {
            0
        },
    )
}

/// Applies the operator to two integers.
fn eval_int_op(op: BinOp, a: i16, b: i16) -> (v: Val)
    ensures
        v@ == int_op_spec(op, a, b),
{
    match op {
        BinOp::Mul => {
            let x: i32 = a as i32;
            let y: i32 = b as i32;
            assert(-0x4000_0000 <= x * y <= 0x4000_0000) by (nonlinear_arith)
                requires
                    -0x8000 <= x <= 0x7fff,
                    -0x8000 <= y <= 0x7fff,
            ;
            Val::I(wrap(x * y))
        },
        BinOp::Div => {
            if b == 0 {
                Val::Undef
            } else {
                Val::I(wrap(divide(a, b)))
            }
        },
        BinOp::Add => Val::I(wrap(a as i32 + b as i32)),
        BinOp::Sub => Val::I(wrap(a as i32 - b as i32)),
        BinOp::Lt => truth_val(a < b),
        BinOp::Gt => truth_val(a > b),
        BinOp::Lte => truth_val(a <= b),
        BinOp::Gte => truth_val(a >= b),
        BinOp::Eq => truth_val(a == b),
    }
}

/// Whether the value is an integer or a floating-point number.
fn is_number(v: &Val) -> (r: bool)
    ensures
        r == (v@ is I || v@ is F),
{
    match v {
        Val::I(_) => true,
        Val::F(_) => true,
        _ => false,
    }
}

/// Whether the value is a floating-point number.
fn is_float_val(v: &Val) -> (r: bool)
    ensures
        r == (v@ is F),
{
    match v {
        Val::F(_) => true,
        _ => false,
    }
}

/// Applies the operator to two operands that are not both integers, and
/// of which none is a floating-point number beside a number.
fn eval_mixed_op(op: BinOp, lhs: Val, rhs: Val) -> (v: Val)
    ensures
        v@ == mixed_op_spec(op, lhs@, rhs@),
{
    match op {
        BinOp::Add => match lhs {
            Val::S(a) => match rhs {
                Val::S(b) => Val::S(a.concat(b.as_str())),
                Val::Undef => Val::S(a),
                _ => rhs,
            },
            _ => match rhs {
                Val::Undef => lhs,
                _ => rhs,
            },
        },
        BinOp::Mul | BinOp::Div | BinOp::Sub => match lhs {
            Val::Undef => rhs,
            _ => lhs,
        },
        _ => truth_val(false),
    }
}

/// Applies the operator to two operands.
///
/// - Two integers give an integer. Sums, differences, products and
///   quotients wrap around at 16 bits, a quotient is rounded towards zero,
///   and a division by zero gives `Undef`. A comparison gives 1 or 0.
/// - Two strings add up to the one followed by the other.
/// - In any other sum the left operand comes back where the right one is
///   `Undef`, else the right operand. In any other difference, product or
///   quotient the right operand comes back where the left one is `Undef`,
///   else the left operand. Any other comparison gives 0.
/// - `Err` hands the operands back where the operation is the host's: both
///   are numbers, and at least one is a floating-point number.
pub fn eval_bin_op(op: BinOp, lhs: Val, rhs: Val) -> (r: Result<Val, (Val, Val)>)
    ensures
        match r {
            Ok(v) => bin_op_spec(op, lhs@, rhs@) == Some(v@),
            Err((l, r)) => bin_op_spec(op, lhs@, rhs@) is None && l@ == lhs@ && r@ == rhs@,
        },
{
    if is_number(&lhs) && is_number(&rhs) && (is_float_val(&lhs) || is_float_val(&rhs)) {
        return Err((lhs, rhs));
    }
    match lhs {
        Val::I(a) => match rhs {
            Val::I(b) => Ok(eval_int_op(op, a, b)),
            _ => Ok(eval_mixed_op(op, Val::I(a), rhs)),
        },
        _ => Ok(eval_mixed_op(op, lhs, rhs)),
    }
}

/// The integer that a quantity is read as.
fn count_to_int(q: u16) -> (i: i16)
    ensures
        i == count_as_int(q),
{
    wrap(q as i32)
}

/// The value of an operand: what the variable holds, how many of the item
/// the inventory holds, or the value itself.
pub fn eval_simple_expr(expr: SimpleExpr, state: &State) -> (v: Val)
    ensures
        v@ == simple_value(expr@, state@),
{
    match expr {
        SimpleExpr::Var(name) => state.vars.get(name.as_str()).clone(),
        SimpleExpr::Item(name) => Val::I(count_to_int(state.inventory.get(&name))),
        SimpleExpr::Val(val) => val,
    }
}

/// What an expression comes to: its value, or the operation that is left
/// to the host.
pub fn eval_expr(expr: Expr, state: &State) -> (r: Evaluated)
    ensures
        r@ == expr_value(expr@, state@),
{
    match expr {
        Expr::SimpleExpr(expr) => Evaluated::Val(eval_simple_expr(expr, state)),
        Expr::BinOp(op, lhs, rhs) => {
            let lhs = eval_simple_expr(lhs, state);
            let rhs = eval_simple_expr(rhs, state);
            match eval_bin_op(op, lhs, rhs) {
                Ok(v) => Evaluated::Val(v),
                Err((l, r)) => Evaluated::Float(op, l, r),
            }
        },
    }
}

/// The text that a value is printed as: `0` for no value, an integer in
/// base ten, a string as it is, and a floating-point number as the text
/// that it is carried as.
pub fn val_to_string(val: &Val) -> (text: String)
    ensures
        text@ == val_text(val@),
{
    match val {
        Val::Undef => {
            let mut text = String::new();
            text.push('0');
            assert(text@ =~= seq!['0']);
            text
        },
        Val::I(i) => i16_to_string(*i),
        Val::S(s) => s.clone(),
        Val::F(f) => f.clone(),
    }
}

/// Prints a value: an integer, a string or no value is drawn as text in
/// the current style; a floating-point number goes to the host to be
/// written.
fn say(val: Val, state: &State) -> (event: Option<Event>)
    ensures
        event_view(event) == say_spec(val@, state@).event,
{
    match val {
        Val::F(literal) => Some(Event::Float(FloatJob::Render(literal))),
        _ => Some(Event::Word(Word::Text(val_to_string(&val), state.effect))),
    }
}

/// Applies an opening tag to the state, and returns what it stops with,
/// if anything. An effect tag turns the effect on where none is active,
/// and off where one is, whichever it names.
pub fn handle_open_tag(tag: Tag, state: &mut State) -> (event: Option<Event>)
    ensures
        final(state)@ == open_tag_spec(tag@, old(state)@).state,
        event_view(event) == open_tag_spec(tag@, old(state)@).event,
{
    match tag {
        Tag::Br => Some(Event::Word(Word::LineBreak)),
        Tag::Pg => Some(Event::Word(Word::PageBreak)),
        Tag::Eff(eff) => {
            if state.effect != TextEffect::Plain {
                state.effect = TextEffect::Plain;
            } else {
                state.effect = eff;
            }
            None
        },
        Tag::End => {
            state.end = true;
            None
        },
        Tag::Say(expr) => match eval_expr(expr, state) {
            Evaluated::Val(val) => say(val, state),
            Evaluated::Float(op, l, r) => Some(Event::Float(FloatJob::Say(op, l, r))),
        },
        Tag::DrwT(id) => Some(Event::Word(Word::Tile(id))),
        Tag::DrwS(id) => Some(Event::Word(Word::Sprite(id))),
        Tag::DrwI(id) => Some(Event::Word(Word::Item(id))),
        Tag::Pal(pal) => {
            state.palette = pal;
            None
        },
        Tag::Ava(id) => {
            state.avatar = id;
            None
        },
        Tag::Exit(room, x, y) => {
            state.room = room;
            state.pos_x = x;
            state.pos_y = y;
            None
        },
        Tag::Assign(name, expr) => match eval_expr(expr, state) {
            Evaluated::Val(val) => {
                state.vars.set(name, val);
                None
            },
            Evaluated::Float(op, l, r) => Some(Event::Float(FloatJob::Assign(name, op, l, r))),
        },
        Tag::Unknown(_, _) => None,
    }
}

/// Applies a closing tag to the state: the closing of any effect turns the
/// effect off. A closing tag never gives an event.
pub fn handle_close_tag(tag: Tag, state: &mut State) -> (event: Option<Event>)
    ensures
        final(state)@ == close_tag_spec(tag@, old(state)@).state,
        event is None,
{
    if let Tag::Eff(_) = tag {
        state.effect = TextEffect::Plain;
    }
    None
}

/// Applies one token to the state, and returns what it stops with, if
/// anything: an opening tag and a closing tag do what they say, and a word
/// is drawn as text in the current style. With this step a host can run
/// tokens from any source.
pub fn handle_token(token: Token, state: &mut State) -> (event: Option<Event>)
    ensures
        final(state)@ == token_spec(token@, old(state)@).state,
        event_view(event) == token_spec(token@, old(state)@).event,
{
    match token {
        Token::OpenTag(tag) => handle_open_tag(tag, state),
        Token::CloseTag(tag) => handle_close_tag(tag, state),
        Token::Word(t) => Some(Event::Word(Word::Text(t, state.effect))),
    }
}

/// Goes on after a job, with the host's answer to it.
pub fn resume(job: FloatJob, answer: Val, state: &mut State) -> (event: Option<Event>)
    ensures
        final(state)@ == resume_spec(job@, answer@, old(state)@).state,
        event_view(event) == resume_spec(job@, answer@, old(state)@).event,
{
    match job {
        FloatJob::Assign(name, _, _, _) => {
            state.vars.set(name, answer);
            None
        },
        FloatJob::Say(_, _, _) => say(answer, state),
        FloatJob::Render(_) => Some(
            Event::Word(Word::Text(val_to_string(&answer), state.effect)),
        ),
    }
}

/// Runs the script up to the next event: takes tokens off the tokenizer
/// and applies each to the state, until one gives something to draw or
/// work for the host. `None` at the end of the script.
pub fn interpret(tokens: &mut Tokenizer, state: &mut State) -> (event: Option<Event>)
    ensures
        final(tokens)@ == interpret_spec(old(tokens)@, old(state)@).rest,
        final(state)@ == interpret_spec(old(tokens)@, old(state)@).state,
        event_view(event) == interpret_spec(old(tokens)@, old(state)@).event,
{
    loop
        invariant
            interpret_spec(tokens@, state@) == interpret_spec(old(tokens)@, old(state)@),
        decreases tokens@.len(),
    {
        proof {
            lemma_scan_consumes(tokens@, Seq::<char>::empty(), false, 0);
        }
        let token = match tokens.next() {
            Some(token) => token,
            None => {
                return None;
            },
        };
        if let Some(event) = handle_token(token, state) {
            return Some(event);
        }
    }
}

/// An interpreter over the tokens of a script and the state of a game.
pub struct Interpreter<'a> {
    pub tokens: Tokenizer,
    pub state: &'a mut State,
}

impl<'a> Interpreter<'a> {
    /// Runs the script up to the next event. `None` at the end of the
    /// script.
    pub fn next(&mut self) -> (event: Option<Event>)
        ensures
            final(self).tokens@ == interpret_spec(old(self).tokens@, old(self).state@).rest,
            final(self).state@ == interpret_spec(old(self).tokens@, old(self).state@).state,
            event_view(event) == interpret_spec(old(self).tokens@, old(self).state@).event,
    {
        interpret(&mut self.tokens, self.state)
    }

    /// Goes on after a job, with the host's answer to it.
    pub fn resume(&mut self, job: FloatJob, answer: Val) -> (event: Option<Event>)
        ensures
            final(self).tokens@ == old(self).tokens@,
            final(self).state@ == resume_spec(job@, answer@, old(self).state@).state,
            event_view(event) == resume_spec(job@, answer@, old(self).state@).event,
    {
        resume(job, answer, self.state)
    }
}

} // verus!
