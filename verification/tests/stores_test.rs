use dialog_script::vars::unquote;
use dialog_script::{Inventory, State, TextEffect, Val, Vars};

#[test]
fn a_new_inventory_is_empty() {
    let inv = Inventory::new();
    assert_eq!(inv.get(&"key".to_string()), 0);
    assert_eq!(Inventory::default().get(&String::new()), 0);
}

#[test]
fn put_and_pop_count() {
    let mut inv = Inventory::new();
    assert_eq!(inv.put("key".to_string()), 1);
    assert_eq!(inv.put("key".to_string()), 2);
    assert_eq!(inv.put("coin".to_string()), 1);
    assert_eq!(inv.get(&"key".to_string()), 2);
    assert_eq!(inv.get(&"coin".to_string()), 1);
    assert_eq!(inv.get(&"ke".to_string()), 0);
    assert_eq!(inv.pop("key".to_string()), 1);
    assert_eq!(inv.get(&"key".to_string()), 1);
    assert_eq!(inv.get(&"coin".to_string()), 1);
    assert_eq!(inv.pop("key".to_string()), 0);
    assert_eq!(inv.get(&"key".to_string()), 0);
}

#[test]
fn pop_on_an_empty_item_stays_at_zero() {
    let mut inv = Inventory::new();
    for _ in 0..5 {
        assert_eq!(inv.pop("key".to_string()), 0);
        assert_eq!(inv.get(&"key".to_string()), 0);
    }
    assert_eq!(inv.put("key".to_string()), 1);
    assert_eq!(inv.pop("key".to_string()), 0);
    assert_eq!(inv.pop("key".to_string()), 0);
}

#[test]
fn put_never_exceeds_the_largest_count() {
    let mut inv = Inventory::new();
    for n in 1..=u16::MAX {
        assert_eq!(inv.put("coin".to_string()), n);
    }
    for _ in 0..10 {
        assert_eq!(inv.put("coin".to_string()), u16::MAX);
        assert_eq!(inv.get(&"coin".to_string()), u16::MAX);
    }
    assert_eq!(inv.pop("coin".to_string()), u16::MAX - 1);
    assert_eq!(inv.get(&"other".to_string()), 0);
}

#[test]
fn a_cloned_inventory_is_its_own() {
    let mut inv = Inventory::new();
    inv.put("key".to_string());
    let mut copy = inv.clone();
    assert_eq!(copy.get(&"key".to_string()), 1);
    copy.put("key".to_string());
    assert_eq!(copy.get(&"key".to_string()), 2);
    assert_eq!(inv.get(&"key".to_string()), 1);
}

#[test]
fn variables_default_to_no_value() {
    let vars = Vars::new();
    assert_eq!(vars.get("a"), &Val::Undef);
    assert_eq!(Vars::default().get(""), &Val::Undef);
    assert_eq!(Val::default(), Val::Undef);
}

#[test]
fn set_then_get() {
    let mut vars = Vars::new();
    vars.set("a".to_string(), Val::I(3));
    vars.set("b".to_string(), Val::S("x".to_string()));
    assert_eq!(vars.get("a"), &Val::I(3));
    assert_eq!(vars.get("b"), &Val::S("x".to_string()));
    assert_eq!(vars.get("c"), &Val::Undef);
    vars.set("a".to_string(), Val::F("2.5".to_string()));
    assert_eq!(vars.get("a"), &Val::F("2.5".to_string()));
    assert_eq!(vars.get("b"), &Val::S("x".to_string()));
    vars.set("a".to_string(), Val::Undef);
    assert_eq!(vars.get("a"), &Val::Undef);
}

#[test]
fn cloned_variables_are_their_own() {
    let mut vars = Vars::new();
    vars.set("a".to_string(), Val::I(3));
    let mut copy = vars.clone();
    assert_eq!(copy.get("a"), &Val::I(3));
    copy.set("a".to_string(), Val::I(4));
    assert_eq!(copy.get("a"), &Val::I(4));
    assert_eq!(vars.get("a"), &Val::I(3));
}

#[test]
fn values_clone() {
    for v in [
        Val::Undef,
        Val::I(-5),
        Val::S("s".to_string()),
        Val::F("0.5".to_string()),
    ] {
        assert_eq!(v.clone(), v);
    }
}

#[test]
fn the_state_at_the_beginning() {
    let state = State::default();
    assert_eq!(state.room, "");
    assert_eq!(state.avatar, "");
    assert_eq!(state.palette, "");
    assert_eq!((state.pos_x, state.pos_y), (0, 0));
    assert!(!state.end);
    assert_eq!(state.effect, TextEffect::Plain);
    assert_eq!(TextEffect::default(), TextEffect::Plain);
    assert_eq!(state.vars.get("a"), &Val::Undef);
    assert_eq!(state.inventory.get(&"a".to_string()), 0);
}

#[test]
fn a_cloned_state_is_its_own() {
    let mut state = State::default();
    state.room = "hall".to_string();
    state.pos_x = 2;
    state.end = true;
    state.effect = TextEffect::Color(3);
    state.vars.set("a".to_string(), Val::I(1));
    state.inventory.put("key".to_string());
    let mut copy = state.clone();
    assert_eq!(copy.room, "hall");
    assert_eq!(copy.pos_x, 2);
    assert!(copy.end);
    assert_eq!(copy.effect, TextEffect::Color(3));
    assert_eq!(copy.vars.get("a"), &Val::I(1));
    assert_eq!(copy.inventory.get(&"key".to_string()), 1);
    copy.vars.set("a".to_string(), Val::I(2));
    copy.inventory.put("key".to_string());
    assert_eq!(state.vars.get("a"), &Val::I(1));
    assert_eq!(state.inventory.get(&"key".to_string()), 1);
}

#[test]
fn values_from_text() {
    let v = Val::Undef;
    assert_eq!(v.from_str("true"), Val::I(1));
    assert_eq!(v.from_str(" false "), Val::I(0));
    assert_eq!(v.from_str("14"), Val::I(14));
    assert_eq!(v.from_str("-14"), Val::I(-14));
    assert_eq!(v.from_str("+14"), Val::I(14));
    assert_eq!(v.from_str("32768"), Val::F("32768".to_string()));
    assert_eq!(v.from_str("3.14"), Val::F("3.14".to_string()));
    assert_eq!(v.from_str("\thello\n"), Val::S("hello".to_string()));
    assert_eq!(v.from_str("\"hello\""), Val::S("hello".to_string()));
    assert_eq!(v.from_str("\"he\"llo\""), Val::S("\"he\"llo\"".to_string()));
    assert_eq!(v.from_str("\"hello"), Val::S("\"hello".to_string()));
    assert_eq!(v.from_str("True"), Val::S("True".to_string()));
    assert_eq!(v.from_str(""), Val::S(String::new()));
}

#[test]
fn quotes_come_off_in_pairs() {
    assert_eq!(unquote("\"a\""), "a");
    assert_eq!(unquote("\"\""), "");
    assert_eq!(unquote("\""), "\"");
    assert_eq!(unquote("a\"b\""), "a\"b\"");
    assert_eq!(unquote("\"a\"b\""), "\"a\"b\"");
    assert_eq!(unquote("\"é\""), "é");
    assert_eq!(unquote(""), "");
    assert_eq!(unquote("ab"), "ab");
}
