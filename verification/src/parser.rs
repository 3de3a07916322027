//! The tag parser: from the text between two braces to a token.
use crate::number::{
    i16_spec, int_text, is_digit, is_digit_char, is_float, is_float_literal,
    lemma_integer_round_trip, parse_i16, parse_u8, u8_spec,
};
use crate::tag::{
    BinOp, Expr, ExprView, SimpleExpr, SimpleExprView, Tag, TagView, TextEffect, Token, TokenView,
};
use crate::text::{
    all_space, ends_with, ends_with_spec, has_prefix, is_space, lemma_find_char,
    lemma_trim_no_space, lemma_trim_padding, lemma_words_no_space, no_space, skip_chars,
    split_ascii_whitespace, split_once, split_once_spec, starts_with, starts_with_spec, str_eq,
    strip_prefix, trim_ascii, trim_spec, trimmed, views, words_spec,
};
use crate::vars::{Val, ValView};
use vstd::prelude::*;

verus! {

/// `v` without the double quotes around it, where it begins and ends with
/// one; otherwise `v`. A lone double quote stays.
pub open spec fn unquote_spec(v: Seq<char>) -> Seq<char> {
    if v.len() >= 2 && v[0] == '"' && v.last() == '"' {
        v.subrange(1, v.len() - 1)
    } else {
        v
    }
}

/// Whether `c` may stand in the name of a variable: an ASCII letter, an
/// ASCII digit or an underscore.
pub open spec fn is_name_char(c: char) -> bool {
    is_digit(c) || ('a' <= c && c <= 'z') || ('A' <= c && c <= 'Z') || c == '_'
}

/// Whether `part` is the name of a variable: ASCII letters, digits and
/// underscores only, and no digit in the first place.
pub open spec fn is_var_spec(part: Seq<char>) -> bool {
    (forall|i: int| 0 <= i < part.len() ==> is_name_char(#[trigger] part[i])) && !(part.len() > 0
        && is_digit(part[0]))
}

/// The operand that `part` writes. In this order: `true` and `false` are
/// the integers 1 and 0; a 16-bit integer; a floating-point literal; text
/// that begins with a double quote is a string, without the quotes around
/// it; a name is a variable; anything else is a string as it stands.
pub open spec fn simple_expr_spec(part: Seq<char>) -> SimpleExprView {
    let t = trim_spec(part);
    if t == "true"@ {
        SimpleExprView::Val(ValView::I(1))
    } else if t == "false"@ {
        SimpleExprView::Val(ValView::I(0))
    } else if i16_spec(t) is Some {
        SimpleExprView::Val(ValView::I(i16_spec(t)->0))
    } else if is_float_literal(t) {
        SimpleExprView::Val(ValView::F(t))
    } else if starts_with_spec(t, '"') {
        SimpleExprView::Val(ValView::S(unquote_spec(t)))
    } else if is_var_spec(t) {
        SimpleExprView::Var(t)
    } else {
        SimpleExprView::Val(ValView::S(t))
    }
}

/// The operator that `op` writes, if it writes one.
pub open spec fn op_spec(op: Seq<char>) -> Option<BinOp> {
    if op == "*"@ {
        Some(BinOp::Mul)
    } else if op == "/"@ {
        Some(BinOp::Div)
    } else if op == "+"@ {
        Some(BinOp::Add)
    } else if op == "-"@ {
        Some(BinOp::Sub)
    } else if op == "<"@ {
        Some(BinOp::Lt)
    } else if op == ">"@ {
        Some(BinOp::Gt)
    } else if op == "<="@ {
        Some(BinOp::Lte)
    } else if op == ">="@ {
        Some(BinOp::Gte)
    } else if op == "=="@ {
        Some(BinOp::Eq)
    } else {
        None
    }
}

/// The expression that `args` writes. One word is an operand. Three words
/// with an operator in the middle are that operator between two operands.
/// Anything else is the whole text as a string, without the whitespace
/// around it.
pub open spec fn expr_spec(args: Seq<char>) -> ExprView {
    let t = trim_spec(args);
    let parts = words_spec(t);
    let whole = ExprView::SimpleExpr(SimpleExprView::Val(ValView::S(t)));
    if parts.len() == 1 {
        ExprView::SimpleExpr(simple_expr_spec(parts[0]))
    } else if parts.len() == 3 {
        match op_spec(trim_spec(parts[1])) {
            Some(op) => ExprView::BinOp(op, simple_expr_spec(parts[0]), simple_expr_spec(parts[2])),
            None => whole,
        }
    } else {
        whole
    }
}

/// The number that `s` writes between 0 and 255, whitespace around it set
/// aside; 0 where it writes none.
pub open spec fn coordinate_spec(s: Seq<char>) -> u8 {
    match u8_spec(trim_spec(s)) {
        Some(n) => n,
        None => 0,
    }
}

/// The room and the position that the arguments of an `exit` tag name:
/// `room,x,y`, where double quotes may stand around the whole or around
/// the room. A coordinate that is missing or is no number is 0.
pub open spec fn exit_args_spec(args: Seq<char>) -> (Seq<char>, u8, u8) {
    let a = unquote_spec(args);
    match split_once_spec(a, ',') {
        Some((room, rest)) => match split_once_spec(rest, ',') {
            Some((x, y)) => (unquote_spec(room), coordinate_spec(x), coordinate_spec(y)),
            None => (unquote_spec(room), 0, 0),
        },
        None => (unquote_spec(a), 0, 0),
    }
}

/// The tag with the name `name` and without arguments.
pub open spec fn tag_without_args_spec(name: Seq<char>) -> TagView {
    if name == "br"@ {
        TagView::Br
    } else if name == "pg"@ {
        TagView::Pg
    } else if name == "clr1"@ {
        TagView::Eff(TextEffect::Color(1))
    } else if name == "clr2"@ {
        TagView::Eff(TextEffect::Color(2))
    } else if name == "clr3"@ {
        TagView::Eff(TextEffect::Color(3))
    } else if name == "wvy"@ {
        TagView::Eff(TextEffect::Wavy)
    } else if name == "shk"@ {
        TagView::Eff(TextEffect::Shaky)
    } else if name == "rbw"@ {
        TagView::Eff(TextEffect::Rainbow)
    } else if name == "end"@ {
        TagView::End
    } else {
        TagView::Unknown(name, Seq::<char>::empty())
    }
}

/// The item that the arguments of a `say` tag name, where they begin with
/// `{item`: what follows, without a closing brace at the end, without the
/// whitespace around it and without double quotes around it.
pub open spec fn item_name_spec(args: Seq<char>) -> Seq<char> {
    let a = args.skip("{item"@.len() as int);
    let b = if ends_with_spec(a, '}') {
        a.drop_last()
    } else {
        a
    };
    unquote_spec(trim_spec(b))
}

/// The tag with the name `name` and the arguments `args`.
pub open spec fn tag_with_args_spec(name: Seq<char>, args: Seq<char>) -> TagView {
    if starts_with_spec(args, '=') {
        TagView::Assign(name, expr_spec(args.skip(1)))
    } else if name == "clr"@ {
        if args == "1"@ {
            TagView::Eff(TextEffect::Color(2))
        } else if args == "2"@ {
            TagView::Eff(TextEffect::Color(3))
        } else {
            TagView::Eff(TextEffect::Color(1))
        }
    } else if name == "say"@ || name == "print"@ {
        if has_prefix(args, "{item"@) {
            TagView::Say(ExprView::SimpleExpr(SimpleExprView::Item(item_name_spec(args))))
        } else {
            TagView::Say(expr_spec(args))
        }
    } else if name == "drwt"@ || name == "printTile"@ {
        TagView::DrwT(unquote_spec(args))
    } else if name == "drws"@ || name == "printSprite"@ {
        TagView::DrwS(unquote_spec(args))
    } else if name == "drwi"@ || name == "printItem"@ {
        TagView::DrwI(unquote_spec(args))
    } else if name == "ava"@ {
        TagView::Ava(unquote_spec(args))
    } else if name == "pal"@ {
        TagView::Pal(unquote_spec(args))
    } else if name == "exit"@ {
        let (room, x, y) = exit_args_spec(args);
        TagView::Exit(room, x, y)
    } else {
        TagView::Unknown(name, args)
    }
}

/// The tag that `word` writes: its name up to the first space, and after
/// it its arguments, without the whitespace around them.
pub open spec fn tag_value_spec(word: Seq<char>) -> TagView {
    let (name, args) = match split_once_spec(word, ' ') {
        Some((name, args)) => (name, trim_spec(args)),
        None => (word, Seq::<char>::empty()),
    };
    if args.len() == 0 {
        tag_without_args_spec(name)
    } else {
        tag_with_args_spec(name, args)
    }
}

/// What stands between the braces of the span `word`, its first and its
/// last character, without the whitespace around it.
pub open spec fn tag_body_spec(word: Seq<char>) -> Seq<char> {
    trim_spec(word.subrange(1, word.len() - 1))
}

/// The token that the bracket span `word` writes. The braces, its first
/// and its last character, are set aside. A `/` in front makes it a closing tag.
/// Whitespace at either end, and after the `/`, does not count.
pub open spec fn tag_spec(word: Seq<char>) -> TokenView {
    let body = tag_body_spec(word);
    if starts_with_spec(body, '/') {
        TokenView::CloseTag(tag_value_spec(trim_spec(body.skip(1))))
    } else {
        TokenView::OpenTag(tag_value_spec(body))
    }
}

/// Whitespace inside the braces of an opening tag, before and after what
/// the tag says, does not count.
pub proof fn lemma_opening_tag_padding(before: Seq<char>, body: Seq<char>, after: Seq<char>)
    requires
        all_space(before),
        all_space(after),
        trimmed(body),
        !starts_with_spec(body, '/'),
    ensures
        tag_spec(seq!['{'] + before + body + after + seq!['}']) == TokenView::OpenTag(
            tag_value_spec(body),
        ),
{
    let word = seq!['{'] + before + body + after + seq!['}'];
    assert(word.subrange(1, word.len() - 1) =~= before + body + after);
    lemma_trim_padding(before, body, after);
}

/// Whitespace inside the braces of a closing tag does not count: not
/// before the `/`, not between the `/` and what the tag closes, and not
/// after that.
pub proof fn lemma_closing_tag_padding(
    before: Seq<char>,
    between: Seq<char>,
    body: Seq<char>,
    after: Seq<char>,
)
    requires
        all_space(before),
        all_space(between),
        all_space(after),
        trimmed(body),
    ensures
        tag_spec(seq!['{'] + before + seq!['/'] + between + body + after + seq!['}'])
            == TokenView::CloseTag(tag_value_spec(body)),
{
    let word = seq!['{'] + before + seq!['/'] + between + body + after + seq!['}'];
    let inner = before + seq!['/'] + between + body + after;
    assert(word.subrange(1, word.len() - 1) =~= inner);
    let empty = Seq::<char>::empty();
    if body.len() == 0 {
        let tail = between + after;
        assert(inner =~= before + seq!['/'] + tail);
        assert forall|k: int| 0 <= k < tail.len() implies is_space(#[trigger] tail[k]) by {
            if k < between.len() {
                assert(tail[k] == between[k]);
            } else {
                assert(tail[k] == after[k - between.len()]);
            }
        }
        lemma_trim_padding(before, seq!['/'], tail);
        assert(tag_body_spec(word) == seq!['/']);
        assert(seq!['/'].skip(1) =~= empty);
        lemma_trim_padding(empty, empty, empty);
        assert(empty + empty + empty =~= empty);
        assert(body =~= empty);
    } else {
        let x = seq!['/'] + between + body;
        assert(inner =~= before + x + after);
        assert(x.last() == body.last());
        lemma_trim_padding(before, x, after);
        assert(tag_body_spec(word) == x);
        assert(x[0] == '/');
        assert(x.skip(1) =~= between + body + empty);
        lemma_trim_padding(between, body, empty);
    }
}

/// The whitespace between the name of a tag and its arguments does not
/// count beyond the first space, nor does whitespace after the arguments.
pub proof fn lemma_argument_padding(
    name: Seq<char>,
    before: Seq<char>,
    args: Seq<char>,
    after: Seq<char>,
)
    requires
        forall|i: int| 0 <= i < name.len() ==> name[i] != ' ',
        all_space(before),
        all_space(after),
        trimmed(args),
    ensures
        tag_value_spec(name + seq![' '] + before + args + after) == if args.len() == 0 {
            tag_without_args_spec(name)
        } else {
            tag_with_args_spec(name, args)
        },
{
    let word = name + seq![' '] + before + args + after;
    let i = name.len() as int;
    assert forall|k: int| 0 <= k < i implies #[trigger] word[k] != ' ' by {
        assert(word[k] == name[k]);
    }
    assert(word[i] == ' ');
    lemma_find_char(word, ' ', i);
    assert(word.take(i) =~= name);
    assert(word.skip(i + 1) =~= before + args + after);
    lemma_trim_padding(before, args, after);
}

/// An integer, written in base ten, is read as an expression that is that
/// integer.
pub proof fn lemma_integer_literal(i: i16)
    ensures
        simple_expr_spec(int_text(i as int)) == SimpleExprView::Val(ValView::I(i)),
        expr_spec(int_text(i as int)) == ExprView::SimpleExpr(
            SimpleExprView::Val(ValView::I(i)),
        ),
{
    let s = int_text(i as int);
    lemma_integer_round_trip(i);
    assert(no_space(s)) by {
        assert forall|k: int| 0 <= k < s.len() implies !is_space(#[trigger] s[k]) by {
            if k >= 1 {
                assert(is_digit(s[k]));
            }
        }
    }
    lemma_trim_no_space(s);
    lemma_words_no_space(s, Seq::<char>::empty());
    assert(Seq::<char>::empty() + s =~= s);
    reveal_strlit("true");
    reveal_strlit("false");
    assert(s != "true"@);
    assert(s != "false"@);
}

/// Takes the double quotes off `v`, where it begins and ends with one;
/// otherwise returns `v` as it is. A lone double quote stays.
pub fn unquote<'a>(v: &'a str) -> (r: &'a str)
    ensures
        r@ == unquote_spec(v@),
{
    let n = v.unicode_len();
    if n >= 2 && v.get_char(0) == '"' && v.get_char(n - 1) == '"' {
        v.substring_char(1, n - 1)
    } else {
        v
    }
}

/// The only item of a list of one.
pub fn unwrap_vec_1<'a>(items: &[&'a str]) -> (r: Option<&'a str>)
    ensures
        r == if items@.len() == 1 {
            Some(items@[0])
        } else {
            None
        },
{
    if items.len() != 1 {
        return None;
    }
    Some(items[0])
}

/// The three items of a list of three.
pub fn unwrap_vec_3<'a>(items: &[&'a str]) -> (r: Option<(&'a str, &'a str, &'a str)>)
    ensures
        r == if items@.len() == 3 {
            Some((items@[0], items@[1], items@[2]))
        } else {
            None
        },
{
    if items.len() != 3 {
        return None;
    }
    Some((items[0], items[1], items[2]))
}

/// Whether `c` may stand in the name of a variable.
fn is_name(c: char) -> (r: bool)
    ensures
        r == is_name_char(c),
{
    is_digit_char(c) || ('a' <= c && c <= 'z') || ('A' <= c && c <= 'Z') || c == '_'
}

/// Whether `part` is the name of a variable: ASCII letters, digits and
/// underscores only, and no digit in the first place.
pub fn is_var(part: &str) -> (r: bool)
    ensures
        r == is_var_spec(part@),
{
    let n = part.unicode_len();
    let mut i: usize = 0;
    while i < n
        invariant
            i <= n,
            n == part@.len(),
            forall|k: int| 0 <= k < i ==> is_name_char(#[trigger] part@[k]),
            !(i > 0 && is_digit(part@[0])),
        decreases n - i,
    {
        let ch = part.get_char(i);
        if i == 0 && is_digit_char(ch) {
            return false;
        }
        if !is_name(ch) {
            return false;
        }
        i += 1;
    }
    true
}

/// Reads one operand. In this order: `true` and `false` are the integers 1
/// and 0; a 16-bit integer; a floating-point literal; text that begins
/// with a double quote is a string, without the quotes around it; a name
/// is a variable; anything else is a string as it stands.
pub fn parse_simple_expr(part: &str) -> (e: SimpleExpr)
    ensures
        e@ == simple_expr_spec(part@),
{
    let part = trim_ascii(part);
    if str_eq(part, "true") {
        return SimpleExpr::Val(Val::I(1));
    }
    if str_eq(part, "false") {
        return SimpleExpr::Val(Val::I(0));
    }
    if let Some(i) = parse_i16(part) {
        return SimpleExpr::Val(Val::I(i));
    }
    if is_float(part) {
        return SimpleExpr::Val(Val::F(part.to_owned()));
    }
    if starts_with(part, '"') {
        return SimpleExpr::Val(Val::S(unquote(part).to_owned()));
    }
    if is_var(part) {
        return SimpleExpr::Var(part.to_owned());
    }
    SimpleExpr::Val(Val::S(part.to_owned()))
}

/// Reads an operator.
fn parse_op(op: &str) -> (r: Option<BinOp>)
    ensures
        r == op_spec(op@),
{
    if str_eq(op, "*") {
        Some(BinOp::Mul)
    } else if str_eq(op, "/") {
        Some(BinOp::Div)
    } else if str_eq(op, "+") {
        Some(BinOp::Add)
    } else if str_eq(op, "-") {
        Some(BinOp::Sub)
    } else if str_eq(op, "<") {
        Some(BinOp::Lt)
    } else if str_eq(op, ">") {
        Some(BinOp::Gt)
    } else if str_eq(op, "<=") {
        Some(BinOp::Lte)
    } else if str_eq(op, ">=") {
        Some(BinOp::Gte)
    } else if str_eq(op, "==") {
        Some(BinOp::Eq)
    } else {
        None
    }
}

/// Reads an expression. One word is an operand. Three words with an
/// operator in the middle are that operator between two operands. Anything
/// else is the whole text as a string, without the whitespace around it.
pub fn parse_expr(args: &str) -> (e: Expr)
    ensures
        e@ == expr_spec(args@),
{
    let args = trim_ascii(args);
    let parts = split_ascii_whitespace(args);
    assert(views(parts@).len() == parts@.len());
    if let Some(part) = unwrap_vec_1(parts.as_slice()) {
        assert(views(parts@)[0] == part@);
        Expr::SimpleExpr(parse_simple_expr(part))
    } else if let Some((left, op, right)) = unwrap_vec_3(parts.as_slice()) {
        assert(views(parts@)[0] == left@);
        assert(views(parts@)[1] == op@);
        assert(views(parts@)[2] == right@);
        let op = trim_ascii(op);
        match parse_op(op) {
            Some(op) => {
                let left = parse_simple_expr(left);
                let right = parse_simple_expr(right);
                Expr::BinOp(op, left, right)
            },
            None => Expr::SimpleExpr(SimpleExpr::Val(Val::S(args.to_owned()))),
        }
    } else {
        Expr::SimpleExpr(SimpleExpr::Val(Val::S(args.to_owned())))
    }
}

/// Reads an assignment: `args` is `=` and then the expression.
pub fn parse_assign(name: &str, args: &str) -> (tag: Tag)
    requires
        starts_with_spec(args@, '='),
    ensures
        tag@ == TagView::Assign(name@, expr_spec(args@.skip(1))),
{
    let args = skip_chars(args, 1);
    let expr = parse_expr(args);
    Tag::Assign(name.to_owned(), expr)
}

/// Reads a coordinate: a number between 0 and 255, or 0 where the text
/// writes none.
fn parse_coordinate(s: &str) -> (n: u8)
    ensures
        n == coordinate_spec(s@),
{
    match parse_u8(trim_ascii(s)) {
        Some(n) => n,
        None => 0,
    }
}

/// Reads the arguments of an `exit` tag: `room,x,y`, where double quotes
/// may stand around the whole or around the room. A coordinate that is
/// missing or is no number is 0.
pub fn parse_exit_args<'a>(args: &'a str) -> (r: (&'a str, u8, u8))
    ensures
        (r.0@, r.1, r.2) == exit_args_spec(args@),
{
    let args = unquote(args);
    match split_once(args, ',') {
        Some((room, rest)) => {
            let room = unquote(room);
            match split_once(rest, ',') {
                Some((x, y)) => (room, parse_coordinate(x), parse_coordinate(y)),
                None => (room, 0, 0),
            }
        },
        None => (unquote(args), 0, 0),
    }
}

/// Reads a tag that has no arguments.
pub fn parse_tag_without_args(name: &str) -> (tag: Tag)
    ensures
        tag@ == tag_without_args_spec(name@),
{
    if str_eq(name, "br") {
        Tag::Br
    } else if str_eq(name, "pg") {
        Tag::Pg
    } else if str_eq(name, "clr1") {
        Tag::Eff(TextEffect::Color(1))
    } else if str_eq(name, "clr2") {
        Tag::Eff(TextEffect::Color(2))
    } else if str_eq(name, "clr3") {
        Tag::Eff(TextEffect::Color(3))
    } else if str_eq(name, "wvy") {
        Tag::Eff(TextEffect::Wavy)
    } else if str_eq(name, "shk") {
        Tag::Eff(TextEffect::Shaky)
    } else if str_eq(name, "rbw") {
        Tag::Eff(TextEffect::Rainbow)
    } else if str_eq(name, "end") {
        Tag::End
    } else {
        let args = String::new();
        Tag::Unknown(name.to_owned(), args)
    }
}

/// Reads a tag that has arguments.
pub fn parse_tag_with_args(name: &str, args: &str) -> (tag: Tag)
    ensures
        tag@ == tag_with_args_spec(name@, args@),
{
    if starts_with(args, '=') {
        return parse_assign(name, args);
    }
    if str_eq(name, "clr") {
        if str_eq(args, "1") {
            Tag::Eff(TextEffect::Color(2))
        } else if str_eq(args, "2") {
            Tag::Eff(TextEffect::Color(3))
        } else {
            Tag::Eff(TextEffect::Color(1))
        }
    } else if str_eq(name, "say") || str_eq(name, "print") {
        if let Some(args) = strip_prefix(args, "{item") {
            let args = if ends_with(args, '}') {
                let n = args.unicode_len();
                let cut = args.substring_char(0, n - 1);
                assert(cut@ =~= args@.drop_last());
                cut
            } else {
                args
            };
            let args = trim_ascii(args);
            let args = unquote(args);
            Tag::Say(Expr::SimpleExpr(SimpleExpr::Item(args.to_owned())))
        } else {
            Tag::Say(parse_expr(args))
        }
    } else if str_eq(name, "drwt") || str_eq(name, "printTile") {
        Tag::DrwT(unquote(args).to_owned())
    } else if str_eq(name, "drws") || str_eq(name, "printSprite") {
        Tag::DrwS(unquote(args).to_owned())
    } else if str_eq(name, "drwi") || str_eq(name, "printItem") {
        Tag::DrwI(unquote(args).to_owned())
    } else if str_eq(name, "ava") {
        Tag::Ava(unquote(args).to_owned())
    } else if str_eq(name, "pal") {
        Tag::Pal(unquote(args).to_owned())
    } else if str_eq(name, "exit") {
        let (room, x, y) = parse_exit_args(args);
        Tag::Exit(room.to_owned(), x, y)
    } else {
        Tag::Unknown(name.to_owned(), args.to_owned())
    }
}

/// Reads a tag from its name and, after the first space, its arguments.
pub fn parse_tag_value(word: &str) -> (tag: Tag)
    ensures
        tag@ == tag_value_spec(word@),
{
    match split_once(word, ' ') {
        Some((name, args)) => {
            let args = trim_ascii(args);
            if args.unicode_len() == 0 {
                parse_tag_without_args(name)
            } else {
                parse_tag_with_args(name, args)
            }
        },
        None => parse_tag_without_args(word),
    }
}

/// Reads the token that a bracket span writes. `word` is the span from
/// its opening brace to its closing brace: at least two characters, of
/// which the first and the last are set aside.
pub fn parse_tag(word: &str) -> (token: Token)
    requires
        word@.len() >= 2,
    ensures
        token@ == tag_spec(word@),
{
    let n = word.unicode_len();
    let word = word.substring_char(1, n - 1);
    let word = trim_ascii(word);
    if starts_with(word, '/') {
        let word = trim_ascii(skip_chars(word, 1));
        Token::CloseTag(parse_tag_value(word))
    } else {
        Token::OpenTag(parse_tag_value(word))
    }
}

} // verus!
