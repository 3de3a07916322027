//! Script values and the store of named variables.
use crate::number::{i16_spec, is_float, is_float_literal, parse_i16};
use crate::text::{
    ends_with, ends_with_spec, starts_with, starts_with_spec, str_eq, trim_ascii, trim_spec,
};
use vstd::prelude::*;

verus! {

/// A script value.
///
/// A floating-point number is carried as its decimal literal: the library
/// recognises and moves such numbers, and leaves their arithmetic to the
/// host.
#[derive(Debug, PartialEq)]
pub enum Val {
    /// No value: what a variable holds before it is assigned.
    Undef,
    /// A 16-bit integer.
    I(i16),
    /// A string.
    S(String),
    /// A floating-point number, as its decimal literal.
    F(String),
}

/// What a [`Val`] holds, with each string as its characters.
pub enum ValView {
    Undef,
    I(i16),
    S(Seq<char>),
    F(Seq<char>),
}

impl View for Val {
    type V = ValView;

    open spec fn view(&self) -> ValView {
        match self {
            Val::Undef => ValView::Undef,
            Val::I(i) => ValView::I(*i),
            Val::S(s) => ValView::S(s@),
            Val::F(f) => ValView::F(f@),
        }
    }
}

impl Default for Val {
    fn default() -> (v: Val)
        ensures
            v == Val::Undef,
    {
        Val::Undef
    }
}

/// The number of characters of `s` that are `c`.
pub open spec fn count_char(s: Seq<char>, c: char) -> nat
    decreases s.len(),
{
    if s.len() == 0 {
        0
    } else {
        count_char(s.drop_last(), c) + if s.last() == c {
            1nat
        } else {
            0nat
        }
    }
}

/// `s` without the double quotes around it, where it holds exactly two
/// double quotes, one at each end; otherwise `s`.
pub open spec fn unquote_spec(s: Seq<char>) -> Seq<char> {
    if count_char(s, '"') == 2 && starts_with_spec(s, '"') && ends_with_spec(s, '"') {
        s.subrange(1, s.len() - 1)
    } else {
        s
    }
}

/// The value that the text `s` writes: `true` and `false` are the integers
/// 1 and 0; then a 16-bit integer; then a floating-point literal; anything
/// else is a string, without the double quotes around it if it has them.
/// Whitespace around the text does not count.
pub open spec fn val_spec(s: Seq<char>) -> ValView {
    let t = trim_spec(s);
    if t == "true"@ {
        ValView::I(1)
    } else if t == "false"@ {
        ValView::I(0)
    } else if i16_spec(t) is Some {
        ValView::I(i16_spec(t)->0)
    } else if is_float_literal(t) {
        ValView::F(t)
    } else {
        ValView::S(unquote_spec(t))
    }
}

proof fn lemma_count_two(s: Seq<char>, c: char)
    requires
        count_char(s, c) == 2,
        starts_with_spec(s, c),
        ends_with_spec(s, c),
    ensures
        s.len() >= 2,
{
    if s.len() == 1 {
        assert(s.drop_last().len() == 0);
        assert(count_char(s.drop_last(), c) == 0);
    }
}

/// The number of characters of `s` that are `c`, counted up to `limit`:
/// the result is the count itself where that is at most `limit`, and
/// `limit + 1` where it is more.
fn count_up_to(s: &str, c: char, limit: usize) -> (k: usize)
    requires
        limit < usize::MAX,
    ensures
        count_char(s@, c) <= limit ==> k == count_char(s@, c),
        count_char(s@, c) > limit ==> k == limit + 1,
{
    let n = s.unicode_len();
    let mut k: usize = 0;
    let mut i: usize = 0;
    proof {
        assert(s@.take(0) =~= Seq::<char>::empty());
    }
    while i < n
        invariant
            i <= n,
            n == s@.len(),
            k <= limit,
            limit < usize::MAX,
            k == count_char(s@.take(i as int), c),
        decreases n - i,
    {
        proof {
            let t = s@.take(i + 1);
            assert(t.drop_last() =~= s@.take(i as int));
            assert(t.last() == s@[i as int]);
        }
        if s.get_char(i) == c {
            k += 1;
            if k > limit {
                proof {
                    lemma_count_prefix(s@, c, i + 1);
                }
                return k;
            }
        }
        i += 1;
    }
    proof {
        assert(s@.take(n as int) =~= s@);
    }
    k
}

proof fn lemma_count_prefix(s: Seq<char>, c: char, k: int)
    requires
        0 <= k <= s.len(),
    ensures
        count_char(s.take(k), c) <= count_char(s, c),
    decreases s.len() - k,
{
    if k == s.len() {
        assert(s.take(k) =~= s);
    } else {
        lemma_count_prefix(s, c, k + 1);
        let t = s.take(k + 1);
        assert(t.drop_last() =~= s.take(k));
    }
}

/// Takes the double quotes off `v`, where it holds exactly two double
/// quotes, one at each end; otherwise returns `v` as it is.
pub fn unquote<'a>(v: &'a str) -> (r: &'a str)
    ensures
        r@ == unquote_spec(v@),
{
    let n_quotes = count_up_to(v, '"', 2);
    if n_quotes != 2 {
        return v;
    }
    if starts_with(v, '"') && ends_with(v, '"') {
        proof {
            lemma_count_two(v@, '"');
        }
        let n = v.unicode_len();
        v.substring_char(1, n - 1)
    } else {
        v
    }
}

impl Val {
    /// Reads a value from text: `true` and `false` are the integers 1 and
    /// 0; then a 16-bit integer; then a floating-point literal; anything
    /// else is a string, without the double quotes around it if it has
    /// them. Whitespace around the text does not count.
    pub fn from_str(&self, s: &str) -> (v: Val)
        ensures
            v@ == val_spec(s@),
    {
        let s = trim_ascii(s);
        if str_eq(s, "true") {
            return Val::I(1);
        }
        if str_eq(s, "false") {
            return Val::I(0);
        }
        if let Some(i) = parse_i16(s) {
            return Val::I(i);
        }
        if is_float(s) {
            return Val::F(s.to_owned());
        }
        Val::S(unquote(s).to_owned())
    }
}

impl Clone for Val {
    fn clone(&self) -> (v: Val)
        ensures
            v@ == self@,
    {
        match self {
            Val::Undef => Val::Undef,
            Val::I(i) => Val::I(*i),
            Val::S(s) => Val::S(s.clone()),
            Val::F(f) => Val::F(f.clone()),
        }
    }
}

/// A `hashbrown::HashMap` from variable names to values.
#[verifier::external_body]
#[derive(Debug)]
pub struct Slots {
    map: hashbrown::HashMap<String, Val>,
}

/// The entries of the map: each name that it holds, as its characters, with
/// the value stored under it.
pub uninterp spec fn slots_of(t: Slots) -> Map<Seq<char>, ValView>;

/// `hashbrown::HashMap::new`: a map without entries.
#[verifier::external_body]
fn slots_new() -> (table: Slots)
    ensures
        slots_of(table) =~= Map::empty(),
{
    Slots { map: hashbrown::HashMap::new() }
}

/// `hashbrown::HashMap::insert`: afterwards the map holds `v` under `name`,
/// in place of what it held there, and every other entry as before.
#[verifier::external_body]
fn slots_insert(t: &mut Slots, name: String, v: Val)
    ensures
        slots_of(*final(t)) == slots_of(*old(t)).insert(name@, v@),
{
    t.map.insert(name, v);
}

/// `hashbrown::HashMap::get`: the value stored under `name`, or `None`
/// where the map holds nothing under it.
#[verifier::external_body]
fn slots_get<'a>(t: &'a Slots, name: &str) -> (r: Option<&'a Val>)
    ensures
        match r {
            Some(v) => slots_of(*t).contains_key(name@) && slots_of(*t)[name@] == v@,
            None => !slots_of(*t).contains_key(name@),
        },
{
    t.map.get(name)
}

/// `Clone::clone` of `hashbrown::HashMap`: a map with the same entries.
#[verifier::external_body]
fn slots_clone(t: &Slots) -> (table: Slots)
    ensures
        slots_of(table) == slots_of(*t),
{
    Slots { map: t.map.clone() }
}

/// The value that the variables `m` give for `name`: the one stored, or
/// `Undef` where none is.
pub open spec fn lookup(m: Map<Seq<char>, ValView>, name: Seq<char>) -> ValView {
    if m.contains_key(name) {
        m[name]
    } else {
        ValView::Undef
    }
}

/// The store of named variables. A name that was never set reads as
/// `Undef`.
#[derive(Debug)]
pub struct Vars {
    items: Slots,
}

impl Default for Vars {
    fn default() -> (vars: Vars)
        ensures
            vars@ =~= Map::empty(),
    {
        Vars::new()
    }
}

impl Clone for Vars {
    fn clone(&self) -> (vars: Vars)
        ensures
            vars@ == self@,
    {
        Vars { items: slots_clone(&self.items) }
    }
}

impl View for Vars {
    type V = Map<Seq<char>, ValView>;

    closed spec fn view(&self) -> Map<Seq<char>, ValView> {
        slots_of(self.items)
    }
}

impl Vars {
    /// A store without variables.
    pub fn new() -> (vars: Vars)
        ensures
            vars@ =~= Map::empty(),
    {
        Vars { items: slots_new() }
    }

    /// Stores `v` under `name`, in place of what was stored there.
    pub fn set(&mut self, name: String, v: Val)
        ensures
            final(self)@ == old(self)@.insert(name@, v@),
    {
        slots_insert(&mut self.items, name, v);
    }

    /// The value stored under `name`, or `Undef` where none is.
    pub fn get(&self, name: &str) -> (v: &Val)
        ensures
            v@ == lookup(self@, name@),
    {
        match slots_get(&self.items, name) {
            Some(v) => v,
            None => &Val::Undef,
        }
    }
}

} // verus!
