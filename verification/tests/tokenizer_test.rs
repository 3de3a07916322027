use dialog_script::{Expr, SimpleExpr, Tag, TextEffect, Token, Tokenizer, Val};

#[test]
fn test_tokenizer_text() {
    check("hello", vec![w("hello")]);
    check("  hello", vec![w("  hello")]);
    check("  hello ", vec![w("  hello ")]);
    check("hello world", vec![w("hello "), w("world")]);
    check("hello world!!!", vec![w("hello "), w("world!!!")]);
    check("    ", vec![w("    ")]);
}

#[test]
fn test_tokenizer_tags() {
    check("{br}", vec![Token::OpenTag(Tag::Br)]);
    check("{ br}", vec![Token::OpenTag(Tag::Br)]);
    check("{ br }", vec![Token::OpenTag(Tag::Br)]);

    check("\n", vec![Token::OpenTag(Tag::Br)]);
    check("{pg}", vec![Token::OpenTag(Tag::Pg)]);

    check("{/pg}", vec![Token::CloseTag(Tag::Pg)]);
    check("{/pg }", vec![Token::CloseTag(Tag::Pg)]);
    check("{/ pg }", vec![Token::CloseTag(Tag::Pg)]);
    check("{ / pg }", vec![Token::CloseTag(Tag::Pg)]);

    check(
        "{br}{br}",
        vec![Token::OpenTag(Tag::Br), Token::OpenTag(Tag::Br)],
    );
    check(
        "oh{br}hi{br}mark",
        vec![
            w("oh"),
            Token::OpenTag(Tag::Br),
            w("hi"),
            Token::OpenTag(Tag::Br),
            w("mark"),
        ],
    );

    check(
        "{blegh}",
        vec![Token::OpenTag(Tag::Unknown(
            "blegh".to_string(),
            "".to_string(),
        ))],
    );
    check(
        "{ blegh }",
        vec![Token::OpenTag(Tag::Unknown(
            "blegh".to_string(),
            "".to_string(),
        ))],
    );
    check(
        "{ blegh args }",
        vec![Token::OpenTag(Tag::Unknown(
            "blegh".to_string(),
            "args".to_string(),
        ))],
    );
    check(
        "{ blegh    args }",
        vec![Token::OpenTag(Tag::Unknown(
            "blegh".to_string(),
            "args".to_string(),
        ))],
    );
    check(
        "{clr1}",
        vec![Token::OpenTag(Tag::Eff(TextEffect::Color(1)))],
    );
    check(
        "{clr 1}",
        vec![Token::OpenTag(Tag::Eff(TextEffect::Color(2)))],
    );

    let expr = Expr::SimpleExpr(SimpleExpr::Var("hi".to_string()));
    check("{say hi}", vec![Token::OpenTag(Tag::Say(expr.clone()))]);
    check("{ say  hi }", vec![Token::OpenTag(Tag::Say(expr))]);
    let expr = Expr::SimpleExpr(SimpleExpr::Item("cat".to_string()));
    check(r#"{say {item "cat"}}"#, vec![Token::OpenTag(Tag::Say(expr))]);

    check(
        r#"{exit "hi,3,4"}"#,
        vec![Token::OpenTag(Tag::Exit("hi".to_string(), 3, 4))],
    );
    check(
        r#"{exit "hi",3,4}"#,
        vec![Token::OpenTag(Tag::Exit("hi".to_string(), 3, 4))],
    );
    check(
        r#"{exit "hi", 3, 4}"#,
        vec![Token::OpenTag(Tag::Exit("hi".to_string(), 3, 4))],
    );
}

#[test]
fn test_tokenizer_assignment() {
    let val = Val::S("hello world!".to_string());
    let expr = Expr::SimpleExpr(SimpleExpr::Val(val));
    check(
        "{ a = hello world! }",
        vec![Token::OpenTag(Tag::Assign("a".to_string(), expr))],
    );

    let expr = Expr::SimpleExpr(SimpleExpr::Val(Val::I(14)));
    check(
        "{a = 14}",
        vec![Token::OpenTag(Tag::Assign("a".to_string(), expr))],
    );

    let expr = Expr::SimpleExpr(SimpleExpr::Val(Val::I(-14)));
    check(
        "{a = -14}",
        vec![Token::OpenTag(Tag::Assign("a".to_string(), expr))],
    );

    let expr = Expr::SimpleExpr(SimpleExpr::Val(Val::F(3.14f32.to_string())));
    check(
        "{a = 3.14}",
        vec![Token::OpenTag(Tag::Assign("a".to_string(), expr))],
    );

    let expr = Expr::SimpleExpr(SimpleExpr::Val(Val::I(1)));
    check(
        "{a = true}",
        vec![Token::OpenTag(Tag::Assign("a".to_string(), expr))],
    );

    let expr = Expr::SimpleExpr(SimpleExpr::Val(Val::S("hi".to_string())));
    check(
        r#"{a = "hi"}"#,
        vec![Token::OpenTag(Tag::Assign("a".to_string(), expr))],
    );

    let expr = Expr::SimpleExpr(SimpleExpr::Var("hi".to_string()));
    check(
        r#"{a = hi}"#,
        vec![Token::OpenTag(Tag::Assign("a".to_string(), expr))],
    );

    let expr = Expr::SimpleExpr(SimpleExpr::Var("hi_mark".to_string()));
    check(
        r#"{a = hi_mark}"#,
        vec![Token::OpenTag(Tag::Assign("a".to_string(), expr))],
    );
}

#[test]
fn one_word_and_two_words() {
    check("hello", vec![w("hello")]);
    check("hello world", vec![w("hello "), w("world")]);
}

#[test]
fn a_tag_between_words() {
    check("oh{br}hi", vec![w("oh"), Token::OpenTag(Tag::Br), w("hi")]);
}

#[test]
fn line_feed_is_a_break_tag() {
    let from_feed = Tokenizer::new("\n").collect();
    let from_tag = Tokenizer::new("{br}").collect();
    assert_eq!(from_feed, vec![Token::OpenTag(Tag::Br)]);
    assert_eq!(from_feed, from_tag);
}

#[test]
fn color_tags_in_both_spellings() {
    assert_eq!(
        Tokenizer::new("{clr1}").collect(),
        Tokenizer::new("{clr 0}").collect()
    );
    assert_eq!(
        Tokenizer::new("{clr2}").collect(),
        Tokenizer::new("{clr 1}").collect()
    );
    assert_eq!(
        Tokenizer::new("{clr3}").collect(),
        Tokenizer::new("{clr 2}").collect()
    );
    check(
        "{clr 0}",
        vec![Token::OpenTag(Tag::Eff(TextEffect::Color(1)))],
    );
    check(
        "{clr 2}",
        vec![Token::OpenTag(Tag::Eff(TextEffect::Color(3)))],
    );
    check(
        "{clr 7}",
        vec![Token::OpenTag(Tag::Eff(TextEffect::Color(1)))],
    );
}

#[test]
fn the_tags_without_arguments() {
    check("{wvy}", vec![Token::OpenTag(Tag::Eff(TextEffect::Wavy))]);
    check("{shk}", vec![Token::OpenTag(Tag::Eff(TextEffect::Shaky))]);
    check("{rbw}", vec![Token::OpenTag(Tag::Eff(TextEffect::Rainbow))]);
    check("{/rbw}", vec![Token::CloseTag(Tag::Eff(TextEffect::Rainbow))]);
    check("{end}", vec![Token::OpenTag(Tag::End)]);
    check("{clr2}", vec![Token::OpenTag(Tag::Eff(TextEffect::Color(2)))]);
    check("{clr3}", vec![Token::OpenTag(Tag::Eff(TextEffect::Color(3)))]);
}

#[test]
fn same_text_same_tokens() {
    let text = "hi {wvy}there{/wvy}\n{a = 1 + 2}{say a}{exit \"x\",1,2} tail";
    let mut one = Tokenizer::new(text);
    let mut two = Tokenizer::new(text);
    let mut count = 0;
    loop {
        let a = one.next();
        let b = two.next();
        assert_eq!(a, b);
        if a.is_none() {
            break;
        }
        count += 1;
    }
    assert_eq!(count, 9);
    assert_eq!(
        Tokenizer::new(text).collect(),
        Tokenizer::new(text).collect()
    );
}

#[test]
fn next_gives_each_token_once_and_then_none() {
    let mut tokens = Tokenizer::new("a b");
    assert_eq!(tokens.next(), Some(w("a ")));
    assert_eq!(tokens.next(), Some(w("b")));
    assert_eq!(tokens.next(), None);
    assert_eq!(tokens.next(), None);
    assert_eq!(Tokenizer::new("").next(), None);
    assert_eq!(Tokenizer::new("").collect(), Vec::<Token>::new());
}

#[test]
fn an_unclosed_brace_is_text() {
    check("{br", vec![w("{br")]);
    check("hi {wvy", vec![w("hi "), w("{wvy")]);
    check("{a {b}", vec![w("{a {b}")]);
}

#[test]
fn a_line_feed_abandons_an_open_tag() {
    check(
        "{say\nhi}",
        vec![Token::OpenTag(Tag::Br), w("hi}")],
    );
    check("ab\ncd", vec![Token::OpenTag(Tag::Br), w("cd")]);
}

#[test]
fn a_brace_after_text_ends_the_word() {
    check(
        "oh{wvy}hi",
        vec![w("oh"), Token::OpenTag(Tag::Eff(TextEffect::Wavy)), w("hi")],
    );
    check("a}b", vec![w("a}b")]);
}

#[test]
fn whitespace_before_a_tag_is_dropped() {
    check(" {br}", vec![Token::OpenTag(Tag::Br)]);
    check(" \t\r {br}", vec![Token::OpenTag(Tag::Br)]);
    check(
        "{br} {br}",
        vec![Token::OpenTag(Tag::Br), Token::OpenTag(Tag::Br)],
    );
    check(
        "{wvy} {shk}",
        vec![
            Token::OpenTag(Tag::Eff(TextEffect::Wavy)),
            Token::OpenTag(Tag::Eff(TextEffect::Shaky)),
        ],
    );
    check(
        "a {br} b",
        vec![w("a "), Token::OpenTag(Tag::Br), w(" b")],
    );
    check(
        "  {exit \"hi\", 3, 4}",
        vec![Token::OpenTag(Tag::Exit("hi".to_string(), 3, 4))],
    );
}

#[test]
fn a_stray_closing_brace_before_a_tag_is_dropped() {
    check("}{br}", vec![Token::OpenTag(Tag::Br)]);
    check(" } }{/pg}", vec![Token::CloseTag(Tag::Pg)]);
    check(
        "}{say {item key}}",
        vec![Token::OpenTag(Tag::Say(Expr::SimpleExpr(SimpleExpr::Item(
            "key".to_string(),
        ))))],
    );
}

#[test]
fn whitespace_before_an_unclosed_brace_is_text() {
    check("  {br", vec![w("  {br")]);
    check(" }{a {b}", vec![w(" }{a {b}")]);
    check(" }", vec![w(" }")]);
}

#[test]
fn tabs_and_carriage_returns_end_a_word() {
    check("a\tb\rc\x0Cd", vec![w("a\t"), w("b\r"), w("c\x0C"), w("d")]);
}

#[test]
fn nested_braces_stay_in_the_span() {
    let expr = Expr::SimpleExpr(SimpleExpr::Item("key".to_string()));
    check(
        "got {say {item key}} keys",
        vec![
            w("got "),
            Token::OpenTag(Tag::Say(expr)),
            w(" keys"),
        ],
    );
}

#[test]
fn text_beyond_ascii() {
    check("héllo wörld", vec![w("héllo "), w("wörld")]);
    check(
        "{say \"é\"}",
        vec![Token::OpenTag(Tag::Say(Expr::SimpleExpr(SimpleExpr::Val(
            Val::S("é".to_string()),
        ))))],
    );
}

fn w(w: &str) -> Token {
    Token::Word(w.to_string())
}

fn check(given: &str, expected: Vec<Token>) {
    let tokenizer = Tokenizer::new(given);
    let actual: Vec<_> = tokenizer.collect();
    assert_eq!(actual, expected);
}

#[test]
fn plain_text_is_kept() {
    for text in [
        "hello",
        "  two  words ",
        "a\tb\rc",
        " \t ",
        "one two three four five",
        "ünï cödé",
    ] {
        let mut joined = String::new();
        for token in Tokenizer::new(text).collect() {
            match token {
                Token::Word(word) => joined.push_str(&word),
                other => panic!("{other:?}"),
            }
        }
        assert_eq!(joined, text);
    }
}

#[test]
fn collect_gives_what_is_left() {
    let mut tokens = Tokenizer::new("a{br}b c");
    assert_eq!(tokens.next(), Some(w("a")));
    assert_eq!(
        tokens.collect(),
        vec![Token::OpenTag(Tag::Br), w("b "), w("c")]
    );
}
