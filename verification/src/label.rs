//! The stable labels under which derived resources are registered.

use vstd::prelude::*;

verus! {

/// The character of a decimal digit.
pub open spec fn digit_char(d: nat) -> char {
    if d == 0 {
        '0'
    } else if d == 1 {
        '1'
    } else if d == 2 {
        '2'
    } else if d == 3 {
        '3'
    } else if d == 4 {
        '4'
    } else if d == 5 {
        '5'
    } else if d == 6 {
        '6'
    } else if d == 7 {
        '7'
    } else if d == 8 {
        '8'
    } else {
        '9'
    }
}

/// A number in decimal, without leading zeros.
pub open spec fn decimal(n: nat) -> Seq<char>
    decreases n,
{
    if n < 10 {
        seq![digit_char(n)]
    } else {
        decimal(n / 10).push(digit_char(n % 10))
    }
}

/// How a declared value of an IntGrid layer is named in a label: by its
/// identifier, or by `#` and its position where it has none.
pub open spec fn value_name(identifier: Option<String>, index: nat) -> Seq<char> {
    match identifier {
        Some(name) => name@,
        None => "#"@ + decimal(index),
    }
}

/// `"Tileset <identifier>"`.
pub open spec fn tileset_label(identifier: Seq<char>) -> Seq<char> {
    "Tileset "@ + identifier
}

/// `"Layer Color <layer>x<value>"`.
pub open spec fn layer_color_label(layer: Seq<char>, value: Seq<char>) -> Seq<char> {
    "Layer Color "@ + layer + "x"@ + value
}

/// `"Entity Color <identifier>"`.
pub open spec fn entity_color_label(identifier: Seq<char>) -> Seq<char> {
    "Entity Color "@ + identifier
}

fn digit_text(d: usize) -> (text: &'static str)
    requires
        d < 10,
    ensures
        text@ == seq![digit_char(d as nat)],
{
    proof {
        reveal_strlit("0");
        reveal_strlit("1");
        reveal_strlit("2");
        reveal_strlit("3");
        reveal_strlit("4");
        reveal_strlit("5");
        reveal_strlit("6");
        reveal_strlit("7");
        reveal_strlit("8");
        reveal_strlit("9");
    }
    let text = if d == 0 {
        "0"
    } else if d == 1 {
        "1"
    } else if d == 2 {
        "2"
    } else if d == 3 {
        "3"
    } else if d == 4 {
        "4"
    } else if d == 5 {
        "5"
    } else if d == 6 {
        "6"
    } else if d == 7 {
        "7"
    } else if d == 8 {
        "8"
    } else {
        "9"
    };
    assert(text@ =~= seq![digit_char(d as nat)]);
    text
}

/// Writes a number in decimal.
pub fn decimal_text(n: usize) -> (text: String)
    ensures
        text@ == decimal(n as nat),
    decreases n,
{
    if n < 10 {
        String::from_str(digit_text(n))
    } else {
        let mut text = decimal_text(n / 10);
        text.append(digit_text(n % 10));
        assert(text@ =~= decimal(n as nat));
        text
    }
}

/// Names a declared value of an IntGrid layer.
pub fn value_name_text(identifier: &Option<String>, index: usize) -> (text: String)
    ensures
        text@ == value_name(*identifier, index as nat),
{
    match identifier {
        Some(name) => name.clone(),
        None => {
            let mut text = String::from_str("#");
            let digits = decimal_text(index);
            text.append(digits.as_str());
            text
        },
    }
}

/// Labels the atlas of a tileset.
pub fn tileset_label_text(identifier: &str) -> (text: String)
    ensures
        text@ == tileset_label(identifier@),
{
    let mut text = String::from_str("Tileset ");
    text.append(identifier);
    text
}

/// Labels the material of a declared value of an IntGrid layer.
pub fn layer_color_label_text(layer: &str, value: &str) -> (text: String)
    ensures
        text@ == layer_color_label(layer@, value@),
{
    let mut text = String::from_str("Layer Color ");
    text.append(layer);
    text.append("x");
    text.append(value);
    text
}

/// Labels the material of an entity definition.
pub fn entity_color_label_text(identifier: &str) -> (text: String)
    ensures
        text@ == entity_color_label(identifier@),
{
    let mut text = String::from_str("Entity Color ");
    text.append(identifier);
    text
}

} // verus!
