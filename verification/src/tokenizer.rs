//! The tokenizer: cuts script text into words and tags, one at a time.
use crate::parser::{parse_tag, tag_spec};
use crate::tag::{Tag, TagView, Token, TokenView};
use crate::text::{find_char, lemma_find_char, skip_chars};
use vstd::prelude::*;

verus! {

/// The whitespace that ends a word: tab, form feed, carriage return and
/// space. A line feed is a line break of its own.
pub open spec fn is_blank(c: char) -> bool {
    c == '\t' || c == '\x0C' || c == '\r' || c == ' '
}

/// The word that the scan ends with when the input ends: none where
/// nothing was read.
pub open spec fn last_word(word: Seq<char>) -> Option<TokenView> {
    if word.len() == 0 {
        None
    } else {
        Some(TokenView::Word(word))
    }
}

/// The bracket span at the end of what was read: `read` from its first
/// opening brace on.
pub open spec fn span_of(read: Seq<char>) -> Seq<char> {
    read.skip(find_char(read, '{'))
}

/// The token that the scan arrives at, and the input that is left after
/// it. `word` holds what was read for this token so far, `found` says
/// whether anything but leading whitespace is among it, and `depth` counts
/// the braces that are open.
///
/// - A line feed gives a line break, whatever was read before it.
/// - An opening brace after text that stands outside braces ends the
///   word; the brace stays in the input. Any other opening brace opens one
///   level more.
/// - A closing brace closes one level. With the last level the span is
///   complete: the span from its opening brace to this closing brace is
///   read as a tag. Whitespace and closing braces that stood before the
///   opening brace are dropped with it: they are no token of their own.
///   A closing brace with none open is kept as a character that does not
///   count as text.
/// - Whitespace after text outside braces ends the word, and belongs to it.
/// - The end of the input ends the word, with all that was read for it, an
///   unclosed span too; where nothing was read, there is no token.
pub open spec fn scan(input: Seq<char>, word: Seq<char>, found: bool, depth: nat) -> (
    Option<TokenView>,
    Seq<char>,
)
    decreases input.len(),
{
    if input.len() == 0 {
        (last_word(word), input)
    } else {
        let ch = input[0];
        let rest = input.drop_first();
        let read = word.push(ch);
        if ch == '\n' {
            (Some(TokenView::OpenTag(TagView::Br)), rest)
        } else if ch == '{' {
            if depth == 0 && found {
                (last_word(word), input)
            } else {
                scan(rest, read, found, depth + 1)
            }
        } else if ch == '}' {
            if depth == 1 {
                (Some(tag_spec(span_of(read))), rest)
            } else if depth == 0 {
                scan(rest, read, found, depth)
            } else {
                scan(rest, read, true, (depth - 1) as nat)
            }
        } else if is_blank(ch) {
            if depth == 0 && found {
                (last_word(read), rest)
            } else {
                scan(rest, read, found, depth)
            }
        } else {
            scan(rest, read, true, depth)
        }
    }
}

/// The first token of `input`, and the input that is left after it.
pub open spec fn next_spec(input: Seq<char>) -> (Option<TokenView>, Seq<char>) {
    scan(input, Seq::<char>::empty(), false, 0)
}

/// All the tokens of `input`, in order.
pub open spec fn tokens_spec(input: Seq<char>) -> Seq<TokenView>
    decreases input.len(),
    via tokens_spec_decreases
{
    match next_spec(input) {
        (Some(token), rest) => seq![token] + tokens_spec(rest),
        (None, _) => Seq::<TokenView>::empty(),
    }
}

#[via_fn]
proof fn tokens_spec_decreases(input: Seq<char>) {
    lemma_scan_consumes(input, Seq::<char>::empty(), false, 0);
}

/// What each token of a list holds.
pub open spec fn token_views(tokens: Seq<Token>) -> Seq<TokenView> {
    Seq::new(tokens.len(), |i: int| tokens[i]@)
}

/// A scan never gives input back that it was not given, gives a token
/// whenever there is anything to read, and reads at least one character
/// for a token unless it had read some before.
pub proof fn lemma_scan_consumes(input: Seq<char>, word: Seq<char>, found: bool, depth: nat)
    requires
        found ==> word.len() > 0,
    ensures
        scan(input, word, found, depth).1.len() <= input.len(),
        scan(input, word, found, depth).0 is None <==> word.len() == 0 && input.len() == 0,
        word.len() == 0 && input.len() > 0 ==> scan(input, word, found, depth).1.len()
            < input.len(),
    decreases input.len(),
{
    if input.len() > 0 {
        let ch = input[0];
        let rest = input.drop_first();
        let read = word.push(ch);
        if ch == '\n' {
        } else if ch == '{' {
            if depth == 0 && found {
            } else {
                lemma_scan_consumes(rest, read, found, depth + 1);
            }
        } else if ch == '}' {
            if depth == 1 {
            } else if depth == 0 {
                lemma_scan_consumes(rest, read, found, depth);
            } else {
                lemma_scan_consumes(rest, read, true, (depth - 1) as nat);
            }
        } else if is_blank(ch) {
            if depth == 0 && found {
            } else {
                lemma_scan_consumes(rest, read, found, depth);
            }
        } else {
            lemma_scan_consumes(rest, read, true, depth);
        }
    }
}

/// The tokens of a script depend on its text alone: two tokenizers that
/// have the same text before them give the same next token, leave the same
/// text behind, and give the same tokens in all.
pub proof fn lemma_same_text_same_tokens(a: Tokenizer, b: Tokenizer)
    requires
        a@ == b@,
    ensures
        next_spec(a@) == next_spec(b@),
        tokens_spec(a@) == tokens_spec(b@),
{
}

/// A script without a closing brace has no tag but the line break: a
/// brace that is never closed is text. A word of such a script begins with
/// what was read for it before.
pub proof fn lemma_unclosed_brace_is_text(
    input: Seq<char>,
    word: Seq<char>,
    found: bool,
    depth: nat,
)
    requires
        forall|i: int| 0 <= i < input.len() ==> input[i] != '}',
    ensures
        match scan(input, word, found, depth).0 {
            Some(TokenView::OpenTag(tag)) => tag == TagView::Br,
            Some(TokenView::CloseTag(_)) => false,
            Some(TokenView::Word(text)) => text.len() > 0 && word.is_prefix_of(text),
            None => word.len() == 0,
        },
    decreases input.len(),
{
    if input.len() > 0 {
        let ch = input[0];
        let rest = input.drop_first();
        let read = word.push(ch);
        assert forall|i: int| 0 <= i < rest.len() implies rest[i] != '}' by {
            assert(rest[i] == input[i + 1]);
        }
        assert(word.is_prefix_of(read));
        if ch == '\n' {
        } else if ch == '{' {
            if depth == 0 && found {
            } else {
                lemma_unclosed_brace_is_text(rest, read, found, depth + 1);
            }
        } else if is_blank(ch) {
            if depth == 0 && found {
            } else {
                lemma_unclosed_brace_is_text(rest, read, found, depth);
            }
        } else {
            lemma_unclosed_brace_is_text(rest, read, true, depth);
        }
    }
}

/// Whether `s` holds only what may stand before a bracket span without
/// being text: whitespace that ends words, and closing braces.
pub open spec fn is_lead(s: Seq<char>) -> bool {
    forall|i: int| 0 <= i < s.len() ==> is_blank(#[trigger] s[i]) || s[i] == '}'
}

proof fn lemma_scan_lead(pad: Seq<char>, input: Seq<char>, word: Seq<char>)
    requires
        is_lead(pad),
    ensures
        scan(pad + input, word, false, 0) == scan(input, word + pad, false, 0),
    decreases pad.len(),
{
    if pad.len() == 0 {
        assert(pad + input =~= input);
        assert(word + pad =~= word);
    } else {
        let s = pad + input;
        let rest = pad.drop_first();
        assert(s[0] == pad[0]);
        assert(is_blank(pad[0]) || pad[0] == '}');
        assert(s.drop_first() =~= rest + input);
        assert forall|i: int| 0 <= i < rest.len() implies is_blank(#[trigger] rest[i]) || rest[i]
            == '}' by {
            assert(rest[i] == pad[i + 1]);
        }
        lemma_scan_lead(rest, input, word.push(pad[0]));
        assert(word.push(pad[0]) + rest =~= word + pad);
    }
}

proof fn lemma_scan_inside(
    input: Seq<char>,
    pad: Seq<char>,
    word: Seq<char>,
    found_padded: bool,
    found: bool,
    depth: nat,
)
    requires
        depth >= 1,
        word.len() > 0,
        word[0] == '{',
        forall|i: int| 0 <= i < pad.len() ==> pad[i] != '{',
    ensures
        scan(input, pad + word, found_padded, depth).1 == scan(input, word, found, depth).1,
        match scan(input, word, found, depth).0 {
            Some(TokenView::Word(text)) => scan(input, pad + word, found_padded, depth).0 == Some(
                TokenView::Word(pad + text),
            ),
            other => scan(input, pad + word, found_padded, depth).0 == other,
        },
    decreases input.len(),
{
    if input.len() > 0 {
        let ch = input[0];
        let rest = input.drop_first();
        let read = word.push(ch);
        assert((pad + word).push(ch) =~= pad + read);
        if ch == '\n' {
        } else if ch == '{' {
            lemma_scan_inside(rest, pad, read, found_padded, found, depth + 1);
        } else if ch == '}' {
            if depth == 1 {
                let padded = pad + read;
                assert forall|k: int| 0 <= k < pad.len() implies #[trigger] padded[k] != '{' by {
                    assert(padded[k] == pad[k]);
                }
                assert(padded[pad.len() as int] == read[0]);
                lemma_find_char(padded, '{', pad.len() as int);
                lemma_find_char(read, '{', 0);
                assert(span_of(padded) =~= read);
                assert(span_of(read) =~= read);
            } else {
                lemma_scan_inside(rest, pad, read, true, true, (depth - 1) as nat);
            }
        } else if is_blank(ch) {
            lemma_scan_inside(rest, pad, read, found_padded, found, depth);
        } else {
            lemma_scan_inside(rest, pad, read, true, true, depth);
        }
    }
}

/// Whitespace and closing braces before a bracket span do not change the
/// tag that the span writes, and are dropped with it. Where the span is not
/// closed and ends as a word, they belong to that word.
pub proof fn lemma_lead_before_span(pad: Seq<char>, input: Seq<char>)
    requires
        is_lead(pad),
        input.len() > 0,
        input[0] == '{',
    ensures
        next_spec(pad + input).1 == next_spec(input).1,
        match next_spec(input).0 {
            Some(TokenView::Word(text)) => next_spec(pad + input).0 == Some(
                TokenView::Word(pad + text),
            ),
            other => next_spec(pad + input).0 == other,
        },
{
    let empty = Seq::<char>::empty();
    lemma_scan_lead(pad, input, empty);
    assert(empty + pad =~= pad);
    let rest = input.drop_first();
    let open = empty.push('{');
    assert(pad.push('{') =~= pad + open);
    assert forall|i: int| 0 <= i < pad.len() implies pad[i] != '{' by {
        assert(is_blank(pad[i]) || pad[i] == '}');
    }
    lemma_scan_inside(rest, pad, open, false, false, 1);
}

/// Whether `s` is text without braces and line feeds.
pub open spec fn is_plain(s: Seq<char>) -> bool {
    forall|i: int| 0 <= i < s.len() ==> s[i] != '{' && s[i] != '}' && s[i] != '\n'
}

/// The texts of the words among `tokens`, one after the other.
pub open spec fn joined(tokens: Seq<TokenView>) -> Seq<char>
    decreases tokens.len(),
{
    if tokens.len() == 0 {
        Seq::<char>::empty()
    } else {
        (match tokens[0] {
            TokenView::Word(text) => text,
            _ => Seq::<char>::empty(),
        }) + joined(tokens.drop_first())
    }
}

proof fn lemma_scan_plain(input: Seq<char>, word: Seq<char>, found: bool)
    requires
        is_plain(input),
        found ==> word.len() > 0,
    ensures
        is_plain(scan(input, word, found, 0).1),
        match scan(input, word, found, 0).0 {
            Some(TokenView::Word(text)) => text + scan(input, word, found, 0).1 == word + input,
            Some(_) => false,
            None => word.len() == 0 && input.len() == 0,
        },
    decreases input.len(),
{
    if input.len() == 0 {
        assert(word + input =~= word);
    } else {
        let ch = input[0];
        let rest = input.drop_first();
        let read = word.push(ch);
        assert forall|i: int| 0 <= i < rest.len() implies rest[i] != '{' && rest[i] != '}'
            && rest[i] != '\n' by {
            assert(rest[i] == input[i + 1]);
        }
        assert(read + rest =~= word + input);
        if is_blank(ch) {
            if found {
            } else {
                lemma_scan_plain(rest, read, found);
            }
        } else {
            lemma_scan_plain(rest, read, true);
        }
    }
}

/// Of text without braces and line feeds nothing is lost: its tokens are
/// words, and the words one after the other are the text.
pub proof fn lemma_plain_text_is_kept(input: Seq<char>)
    requires
        is_plain(input),
    ensures
        joined(tokens_spec(input)) == input,
        forall|i: int| 0 <= i < tokens_spec(input).len() ==> tokens_spec(input)[i] is Word,
    decreases input.len(),
{
    let empty = Seq::<char>::empty();
    lemma_scan_plain(input, empty, false);
    lemma_scan_consumes(input, empty, false, 0);
    match next_spec(input) {
        (Some(token), rest) => {
            lemma_plain_text_is_kept(rest);
            let tokens = seq![token] + tokens_spec(rest);
            assert(tokens[0] == token);
            assert(tokens.drop_first() =~= tokens_spec(rest));
            assert(empty + input =~= input);
            assert forall|i: int| 0 <= i < tokens.len() implies tokens[i] is Word by {
                if i > 0 {
                    assert(tokens[i] == tokens_spec(rest)[i - 1]);
                }
            }
        },
        (None, _) => {
            assert(input =~= empty);
        },
    }
}

/// A tokenizer over a script. It gives the tokens of the script one by
/// one, from the first to the last, and each of them once.
pub struct Tokenizer {
    buffer: Vec<char>,
    at: usize,
    stash: Option<char>,
}

impl View for Tokenizer {
    type V = Seq<char>;

    /// The input that is still to be read.
    closed spec fn view(&self) -> Seq<char> {
        let rest = self.buffer@.skip(self.at as int);
        match self.stash {
            Some(c) => seq![c] + rest,
            None => rest,
        }
    }
}

impl Tokenizer {
    #[verifier::type_invariant]
    spec fn in_bounds(&self) -> bool {
        self.at <= self.buffer@.len()
    }

    /// A tokenizer at the beginning of `text`.
    pub fn new(text: &str) -> (tokenizer: Tokenizer)
        ensures
            tokenizer@ == text@,
    {
        let mut buffer: Vec<char> = Vec::new();
        for c in it: text.chars()
            invariant
                it.seq() == text@,
                buffer@ == it.seq().take(it.index()),
        {
            buffer.push(c);
        }
        assert(buffer@.skip(0) =~= buffer@);
        Tokenizer { buffer, at: 0, stash: None }
    }

    /// Takes the next character off the input.
    fn read(&mut self) -> (r: Option<char>)
        ensures
            match r {
                Some(c) => old(self)@.len() > 0 && c == old(self)@[0] && final(self)@ == old(
                    self,
                )@.drop_first() && final(self).stash is None,
                None => old(self)@.len() == 0 && final(self)@ == old(self)@ && final(self).stash
                    is None,
            },
    {
        proof {
            use_type_invariant(&*self);
        }
        match self.stash {
            Some(c) => {
                self.stash = None;
                assert(self@ =~= old(self)@.drop_first());
                Some(c)
            },
            None => {
                if self.at < self.buffer.len() {
                    let c = self.buffer[self.at];
                    self.at = self.at + 1;
                    assert(self@ =~= old(self)@.drop_first());
                    Some(c)
                } else {
                    None
                }
            },
        }
    }

    /// Puts `c` back in front of the input.
    fn unread(&mut self, c: char)
        requires
            old(self).stash is None,
        ensures
            final(self)@ == seq![c] + old(self)@,
    {
        proof {
            use_type_invariant(&*self);
        }
        self.stash = Some(c);
    }

    /// The next token of the script, or `None` at its end.
    pub fn next(&mut self) -> (r: Option<Token>)
        ensures
            match r {
                Some(token) => next_spec(old(self)@).0 == Some(token@),
                None => next_spec(old(self)@).0 is None,
            },
            final(self)@ == next_spec(old(self)@).1,
    {
        let mut word = String::new();
        let mut found_letter = false;
        let mut open_tags: u128 = 0;
        let mut count: u128 = 0;
        let mut lead: u128 = 0;
        proof {
            use_type_invariant(&*self);
            assert(self.buffer@.len() <= usize::MAX) by {
                vstd::std_specs::vec::axiom_spec_len(&self.buffer);
            }
            assert(self@.len() <= self.buffer@.len() + 1);
        }
        loop
            invariant
                scan(self@, word@, found_letter, open_tags as nat) == next_spec(old(self)@),
                found_letter ==> word@.len() > 0,
                open_tags <= word@.len(),
                count == word@.len(),
                word@.len() + self@.len() <= usize::MAX + 1,
                open_tags == 0 ==> forall|k: int| 0 <= k < word@.len() ==> word@[k] != '{',
                open_tags > 0 ==> lead < word@.len() && word@[lead as int] == '{' && forall|
                    k: int,
                | 0 <= k < lead ==> word@[k] != '{',
            decreases self@.len(),
        {
            let ghost input = self@;
            let ch = match self.read() {
                Some(ch) => ch,
                None => {
                    if word.as_str().unicode_len() == 0 {
                        return None;
                    }
                    return Some(Token::Word(word));
                },
            };
            if ch == '\n' {
                return Some(Token::OpenTag(Tag::Br));
            }
            if ch == '{' && open_tags == 0 && found_letter {
                self.unread(ch);
                assert(self@ =~= input);
                return Some(Token::Word(word));
            }
            word.push(ch);
            count += 1;
            if ch == '{' {
                if open_tags == 0 {
                    lead = count - 1;
                }
                open_tags += 1;
            } else if ch == '}' {
                if open_tags != 0 {
                    open_tags -= 1;
                    if open_tags == 0 {
                        proof {
                            lemma_find_char(word@, '{', lead as int);
                        }
                        let span = skip_chars(word.as_str(), lead as usize);
                        return Some(parse_tag(span));
                    } else {
                        found_letter = true;
                    }
                }
            } else if ch == '\t' || ch == '\x0C' || ch == '\r' || ch == ' ' {
                if open_tags == 0 && found_letter {
                    return Some(Token::Word(word));
                }
            } else {
                found_letter = true;
            }
        }
    }

    /// All the tokens that are left, in order.
    pub fn collect(self) -> (tokens: Vec<Token>)
        ensures
            token_views(tokens@) == tokens_spec(self@),
    {
        let mut rest = self;
        let mut tokens: Vec<Token> = Vec::new();
        assert(token_views(tokens@) + tokens_spec(rest@) =~= tokens_spec(self@));
        loop
            invariant
                token_views(tokens@) + tokens_spec(rest@) == tokens_spec(self@),
            decreases rest@.len(),
        {
            let ghost input = rest@;
            let ghost before = token_views(tokens@);
            proof {
                lemma_scan_consumes(input, Seq::<char>::empty(), false, 0);
            }
            match rest.next() {
                Some(token) => {
                    tokens.push(token);
                    assert(token_views(tokens@) =~= before + seq![token@]);
                    assert((before + seq![token@]) + tokens_spec(rest@) =~= before + (seq![
                        token@,
                    ] + tokens_spec(rest@)));
                },
                None => {
                    assert(before + Seq::<TokenView>::empty() =~= before);
                    return tokens;
                },
            }
        }
    }
}

} // verus!
