use dialog_script::parser::{
    is_var, parse_assign, parse_exit_args, parse_expr, parse_simple_expr, parse_tag,
    parse_tag_value, parse_tag_with_args, parse_tag_without_args, unquote, unwrap_vec_1,
    unwrap_vec_3,
};
use dialog_script::{BinOp, Expr, SimpleExpr, Tag, TextEffect, Token, Val};

fn lit_i(i: i16) -> SimpleExpr {
    SimpleExpr::Val(Val::I(i))
}

fn lit_s(s: &str) -> SimpleExpr {
    SimpleExpr::Val(Val::S(s.to_string()))
}

fn lit_f(s: &str) -> SimpleExpr {
    SimpleExpr::Val(Val::F(s.to_string()))
}

fn var(s: &str) -> SimpleExpr {
    SimpleExpr::Var(s.to_string())
}

#[test]
fn closing_tags_with_whitespace() {
    for text in ["{/pg}", "{/ pg }", "{ / pg }", "{\t/\tpg\r}"] {
        assert_eq!(parse_tag(text), Token::CloseTag(Tag::Pg));
    }
}

#[test]
fn unknown_tags_keep_name_and_arguments() {
    assert_eq!(
        parse_tag("{blegh args}"),
        Token::OpenTag(Tag::Unknown("blegh".to_string(), "args".to_string()))
    );
    assert_eq!(
        parse_tag("{blegh   two  words }"),
        Token::OpenTag(Tag::Unknown(
            "blegh".to_string(),
            "two  words".to_string()
        ))
    );
    assert_eq!(
        parse_tag("{/blegh args}"),
        Token::CloseTag(Tag::Unknown("blegh".to_string(), "args".to_string()))
    );
    assert_eq!(
        parse_tag("{}"),
        Token::OpenTag(Tag::Unknown(String::new(), String::new()))
    );
    assert_eq!(
        parse_tag("{/}"),
        Token::CloseTag(Tag::Unknown(String::new(), String::new()))
    );
    assert_eq!(
        parse_tag("{a=1}"),
        Token::OpenTag(Tag::Unknown("a=1".to_string(), String::new()))
    );
    assert_eq!(
        parse_tag("{br now}"),
        Token::OpenTag(Tag::Unknown("br".to_string(), "now".to_string()))
    );
}

#[test]
fn the_braces_are_set_aside() {
    assert_eq!(parse_tag("{br}"), Token::OpenTag(Tag::Br));
    assert_eq!(parse_tag("{end}"), Token::OpenTag(Tag::End));
    assert_eq!(
        parse_tag("{{br}}"),
        Token::OpenTag(Tag::Unknown("{br}".to_string(), String::new()))
    );
}

#[test]
fn exit_in_three_spellings() {
    for text in [
        r#"{exit "hi",3,4}"#,
        r#"{exit "hi", 3, 4}"#,
        r#"{exit "hi,3,4"}"#,
    ] {
        assert_eq!(
            parse_tag(text),
            Token::OpenTag(Tag::Exit("hi".to_string(), 3, 4))
        );
    }
}

#[test]
fn exit_arguments() {
    assert_eq!(parse_exit_args("hi,3,4"), ("hi", 3, 4));
    assert_eq!(parse_exit_args("hi"), ("hi", 0, 0));
    assert_eq!(parse_exit_args("\"hi\""), ("hi", 0, 0));
    assert_eq!(parse_exit_args("hi,3"), ("hi", 0, 0));
    assert_eq!(parse_exit_args("hi,,"), ("hi", 0, 0));
    assert_eq!(parse_exit_args("hi,3,4,5"), ("hi", 3, 0));
    assert_eq!(parse_exit_args("hi, 255 ,\t0\t"), ("hi", 255, 0));
    assert_eq!(parse_exit_args("hi,256,-0"), ("hi", 0, 0));
    assert_eq!(parse_exit_args("hi,+7,007"), ("hi", 7, 7));
    assert_eq!(parse_exit_args("hi,1.0,1e1"), ("hi", 0, 0));
    assert_eq!(parse_exit_args(",1,2"), ("", 1, 2));
    assert_eq!(parse_exit_args("\"a,b\",1,2"), ("\"a", 0, 0));
}

#[test]
fn tags_with_arguments() {
    assert_eq!(
        parse_tag_with_args("clr", "0"),
        Tag::Eff(TextEffect::Color(1))
    );
    assert_eq!(
        parse_tag_with_args("clr", "1"),
        Tag::Eff(TextEffect::Color(2))
    );
    assert_eq!(
        parse_tag_with_args("clr", "2"),
        Tag::Eff(TextEffect::Color(3))
    );
    assert_eq!(
        parse_tag_with_args("clr", "red"),
        Tag::Eff(TextEffect::Color(1))
    );
    assert_eq!(
        parse_tag_with_args("drwt", "\"wall\""),
        Tag::DrwT("wall".to_string())
    );
    assert_eq!(parse_tag_with_args("ava", "cat"), Tag::Ava("cat".to_string()));
    assert_eq!(
        parse_tag_with_args("pal", "\"p\""),
        Tag::Pal("p".to_string())
    );
    assert_eq!(
        parse_tag_with_args("print", "x"),
        Tag::Say(Expr::SimpleExpr(var("x")))
    );
    assert_eq!(
        parse_tag_with_args("say", "{item   \"red key\" }"),
        Tag::Say(Expr::SimpleExpr(SimpleExpr::Item("red key".to_string())))
    );
    assert_eq!(
        parse_tag_with_args("say", "{item key"),
        Tag::Say(Expr::SimpleExpr(SimpleExpr::Item("key".to_string())))
    );
    assert_eq!(
        parse_tag_with_args("say", "{items}"),
        Tag::Say(Expr::SimpleExpr(SimpleExpr::Item("s".to_string())))
    );
    assert_eq!(
        parse_tag_with_args("say", "1 + 2"),
        Tag::Say(Expr::BinOp(BinOp::Add, lit_i(1), lit_i(2)))
    );
    assert_eq!(
        parse_tag_with_args("clr", "= 1"),
        Tag::Assign("clr".to_string(), Expr::SimpleExpr(lit_i(1)))
    );
    assert_eq!(
        parse_tag_with_args("Say", "x"),
        Tag::Unknown("Say".to_string(), "x".to_string())
    );
}

#[test]
fn tags_without_arguments() {
    assert_eq!(parse_tag_without_args("br"), Tag::Br);
    assert_eq!(parse_tag_without_args("pg"), Tag::Pg);
    assert_eq!(parse_tag_without_args("end"), Tag::End);
    assert_eq!(
        parse_tag_without_args("clr1"),
        Tag::Eff(TextEffect::Color(1))
    );
    assert_eq!(
        parse_tag_without_args("say"),
        Tag::Unknown("say".to_string(), String::new())
    );
    assert_eq!(
        parse_tag_without_args("BR"),
        Tag::Unknown("BR".to_string(), String::new())
    );
    assert_eq!(parse_tag_value("br"), Tag::Br);
    assert_eq!(parse_tag_value("br   "), Tag::Br);
    assert_eq!(
        parse_tag_value("say  hi"),
        Tag::Say(Expr::SimpleExpr(var("hi")))
    );
    assert_eq!(
        parse_tag_value("a\tb"),
        Tag::Unknown("a\tb".to_string(), String::new())
    );
}

#[test]
fn assignments() {
    assert_eq!(
        parse_assign("a", "= 14"),
        Tag::Assign("a".to_string(), Expr::SimpleExpr(lit_i(14)))
    );
    assert_eq!(
        parse_assign("a", "=b * 2"),
        Tag::Assign(
            "a".to_string(),
            Expr::BinOp(BinOp::Mul, var("b"), lit_i(2))
        )
    );
    assert_eq!(
        parse_assign("a", "="),
        Tag::Assign("a".to_string(), Expr::SimpleExpr(lit_s("")))
    );
    assert_eq!(
        parse_assign("a", "== 1"),
        Tag::Assign("a".to_string(), Expr::SimpleExpr(lit_s("= 1")))
    );
}

#[test]
fn operands() {
    assert_eq!(parse_simple_expr("true"), lit_i(1));
    assert_eq!(parse_simple_expr("false"), lit_i(0));
    assert_eq!(parse_simple_expr(" 12 "), lit_i(12));
    assert_eq!(parse_simple_expr("-32768"), lit_i(i16::MIN));
    assert_eq!(parse_simple_expr("32767"), lit_i(i16::MAX));
    assert_eq!(parse_simple_expr("32768"), lit_f("32768"));
    assert_eq!(parse_simple_expr("3.14"), lit_f("3.14"));
    assert_eq!(parse_simple_expr("-.5e-3"), lit_f("-.5e-3"));
    assert_eq!(parse_simple_expr("inf"), lit_f("inf"));
    assert_eq!(parse_simple_expr("NaN"), lit_f("NaN"));
    assert_eq!(parse_simple_expr("\"hi\""), lit_s("hi"));
    assert_eq!(parse_simple_expr("\"hi"), lit_s("\"hi"));
    assert_eq!(parse_simple_expr("\""), lit_s("\""));
    assert_eq!(parse_simple_expr("hi"), var("hi"));
    assert_eq!(parse_simple_expr("hi_2"), var("hi_2"));
    assert_eq!(parse_simple_expr("_"), var("_"));
    assert_eq!(parse_simple_expr("2hi"), lit_s("2hi"));
    assert_eq!(parse_simple_expr("hi!"), lit_s("hi!"));
    assert_eq!(parse_simple_expr("hé"), lit_s("hé"));
    assert_eq!(parse_simple_expr("infinit"), var("infinit"));
    assert_eq!(parse_simple_expr(""), var(""));
}

#[test]
fn names_of_variables() {
    assert!(is_var("a"));
    assert!(is_var("A_b9"));
    assert!(is_var("_9"));
    assert!(is_var(""));
    assert!(!is_var("9a"));
    assert!(!is_var("9"));
    assert!(!is_var("a b"));
    assert!(!is_var("a-b"));
    assert!(!is_var("ä"));
}

#[test]
fn expressions() {
    assert_eq!(parse_expr(" a "), Expr::SimpleExpr(var("a")));
    for (text, op) in [
        ("*", BinOp::Mul),
        ("/", BinOp::Div),
        ("+", BinOp::Add),
        ("-", BinOp::Sub),
        ("<", BinOp::Lt),
        (">", BinOp::Gt),
        ("<=", BinOp::Lte),
        (">=", BinOp::Gte),
        ("==", BinOp::Eq),
    ] {
        assert_eq!(
            parse_expr(&format!("a {text}\t\"b\"")),
            Expr::BinOp(op, var("a"), lit_s("b"))
        );
    }
    assert_eq!(parse_expr("a = b"), Expr::SimpleExpr(lit_s("a = b")));
    assert_eq!(parse_expr("a != b"), Expr::SimpleExpr(lit_s("a != b")));
    assert_eq!(parse_expr(" a  b "), Expr::SimpleExpr(lit_s("a  b")));
    assert_eq!(
        parse_expr("a + b + c"),
        Expr::SimpleExpr(lit_s("a + b + c"))
    );
    assert_eq!(parse_expr("a+b"), Expr::SimpleExpr(lit_s("a+b")));
    assert_eq!(parse_expr("  "), Expr::SimpleExpr(lit_s("")));
}

#[test]
fn quotes_come_off_at_both_ends() {
    assert_eq!(unquote("\"a\""), "a");
    assert_eq!(unquote("\"a\"b\""), "a\"b");
    assert_eq!(unquote("\"\""), "");
    assert_eq!(unquote("\""), "\"");
    assert_eq!(unquote("\"a"), "\"a");
    assert_eq!(unquote("a\""), "a\"");
    assert_eq!(unquote(""), "");
}

#[test]
fn lists_of_one_and_three() {
    assert_eq!(unwrap_vec_1(&["a"]), Some("a"));
    assert_eq!(unwrap_vec_1(&[]), None);
    assert_eq!(unwrap_vec_1(&["a", "b"]), None);
    assert_eq!(unwrap_vec_3(&["a", "b", "c"]), Some(("a", "b", "c")));
    assert_eq!(unwrap_vec_3(&["a", "b"]), None);
    assert_eq!(unwrap_vec_3(&["a", "b", "c", "d"]), None);
}
