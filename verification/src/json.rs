//! JSON values, their equality and their compact text.
use vstd::prelude::*;

use crate::text;
use crate::text::{decimal_text, same_text};
use crate::text_map;
use crate::text_map::TextMap;

verus! {

/// A floating-point number: its IEEE 754 double-precision bits and the text
/// under which it is written in JSON.
#[derive(Debug, Clone, PartialEq, Eq)]
pub struct Float {
    pub bits: u64,
    pub text: String,
}

#[derive(Debug, Clone, PartialEq, Eq)]
pub enum Number {
    PosInt(u64),
    NegInt(i64),
    Float(Float),
}

#[derive(Debug, PartialEq)]
pub enum Value {
    Null,
    Bool(bool),
    Number(Number),
    String(String),
    Array(Vec<Value>),
    Object(TextMap<Value>),
}

pub enum NumberView {
    PosInt(u64),
    NegInt(i64),
    Float { bits: u64, text: Seq<char> },
}

pub enum ValueView {
    Null,
    Bool(bool),
    Number(NumberView),
    String(Seq<char>),
    Array(Seq<ValueView>),
    Object(Seq<(Seq<char>, ValueView)>),
}

/// Neither infinite nor not-a-number: the exponent is not all ones.
pub open spec fn finite_bits(bits: u64) -> bool {
    (bits / 4503599627370496) % 2048 != 2047
}

/// Not a number: the exponent is all ones, the fraction is not zero.
pub open spec fn nan_bits(bits: u64) -> bool {
    bits % 9223372036854775808 > 9218868437227405312
}

/// Position of a number among those that are not NaN: numbers compare as their
/// positions do, and the two zeros share one.
pub open spec fn float_rank(bits: u64) -> int {
    if bits < 9223372036854775808 {
        bits as int
    } else {
        9223372036854775808 - bits
    }
}

/// IEEE equality of two numbers given by their bits.
pub open spec fn floats_equal(a: u64, b: u64) -> bool {
    !nan_bits(a) && !nan_bits(b) && float_rank(a) == float_rank(b)
}

pub fn is_finite_bits(bits: u64) -> (is: bool)
    ensures
        is == finite_bits(bits),
{
    (bits / 4503599627370496) % 2048 != 2047
}

pub fn is_nan_bits(bits: u64) -> (is: bool)
    ensures
        is == nan_bits(bits),
{
    bits % 9223372036854775808 > 9218868437227405312
}

pub fn rank_of_float(bits: u64) -> (rank: i128)
    ensures
        rank == float_rank(bits),
{
    if bits < 9223372036854775808 {
        bits as i128
    } else {
        9223372036854775808i128 - bits as i128
    }
}

impl Number {
    pub open spec fn view(&self) -> NumberView {
        match self {
            Number::PosInt(n) => NumberView::PosInt(*n),
            Number::NegInt(n) => NumberView::NegInt(*n),
            Number::Float(f) => NumberView::Float { bits: f.bits, text: f.text@ },
        }
    }

    pub fn copy(&self) -> (res: Number)
        ensures
            res@ == self@,
    {
        match self {
            Number::PosInt(n) => Number::PosInt(*n),
            Number::NegInt(n) => Number::NegInt(*n),
            Number::Float(f) => Number::Float(Float { bits: f.bits, text: f.text.clone() }),
        }
    }

    /// Whether the number is held as an integer.
    pub fn is_integer(&self) -> (is: bool)
        ensures
            is == self@.integer(),
    {
        match self {
            Number::PosInt(_) | Number::NegInt(_) => true,
            Number::Float(_) => false,
        }
    }

    /// The text of the number.
    pub fn to_text(&self) -> (res: String)
        ensures
            res@ == self@.text(),
    {
        match self {
            Number::PosInt(n) => decimal_text(*n),
            Number::NegInt(n) => {
                if *n < 0 {
                    let m: u64 = (-(*n + 1)) as u64 + 1;
                    text::joined("-", &decimal_text(m))
                } else {
                    decimal_text(*n as u64)
                }
            },
            Number::Float(f) => f.text.clone(),
        }
    }
}

impl NumberView {
    pub open spec fn integer(self) -> bool {
        !(self is Float)
    }

    pub open spec fn text(self) -> Seq<char> {
        match self {
            NumberView::PosInt(n) => text::decimal(n as nat),
            NumberView::NegInt(n) => if n < 0 {
                "-"@ + text::decimal((-n) as nat)
            } else {
                text::decimal(n as nat)
            },
            NumberView::Float { bits, text } => text,
        }
    }

    pub open spec fn equals(self, other: NumberView) -> bool {
        match (self, other) {
            (NumberView::PosInt(a), NumberView::PosInt(b)) => a == b,
            (NumberView::NegInt(a), NumberView::NegInt(b)) => a == b,
            (NumberView::Float { bits: a, .. }, NumberView::Float { bits: b, .. }) => floats_equal(
                a,
                b,
            ),
            _ => false,
        }
    }
}

pub fn same_number(a: &Number, b: &Number) -> (same: bool)
    ensures
        same == a@.equals(b@),
{
    match (a, b) {
        (Number::PosInt(x), Number::PosInt(y)) => *x == *y,
        (Number::NegInt(x), Number::NegInt(y)) => *x == *y,
        (Number::Float(x), Number::Float(y)) => !is_nan_bits(x.bits) && !is_nan_bits(y.bits)
            && rank_of_float(x.bits) == rank_of_float(y.bits),
        _ => false,
    }
}

impl Value {
    pub open spec fn view(&self) -> ValueView
        decreases self,
    {
        match self {
            Value::Null => ValueView::Null,
            Value::Bool(b) => ValueView::Bool(*b),
            Value::Number(n) => ValueView::Number(n@),
            Value::String(s) => ValueView::String(s@),
            Value::Array(items) => ValueView::Array(value_views(items@)),
            Value::Object(map) => ValueView::Object(member_views(map.entries@)),
        }
    }

    pub fn is_null(&self) -> (is: bool)
        ensures
            is == (self@ is Null),
    {
        match self {
            Value::Null => true,
            _ => false,
        }
    }

    /// The member of an object with this name.
    pub fn member(&self, name: &str) -> (found: Option<&Value>)
        ensures
            match found {
                Some(value) => self@.member(name@) == Some(value@),
                None => self@.member(name@) is None,
            },
            found matches Some(value) ==> decreases_to!(*self => *value),
    {
        match self {
            Value::Object(map) => {
                let at: usize = map.position(name);
                proof {
                    text_map::lemma_index_of(member_views(map.entries@), name@, at as int);
                }
                if at < map.entries.len() {
                    let value = &map.entries[at].1;
                    proof {
                        assert(decreases_to!(map.entries@ => map.entries@[at as int].1));
                        assert(decreases_to!(*self => self->Object_0));
                    }
                    Some(value)
                } else {
                    None
                }
            },
            _ => None,
        }
    }

    /// The item of an array at this index.
    pub fn item(&self, index: usize) -> (found: Option<&Value>)
        ensures
            match found {
                Some(value) => self@.item(index as nat) == Some(value@),
                None => self@.item(index as nat) is None,
            },
    {
        match self {
            Value::Array(items) => {
                if index < items.len() {
                    Some(&items[index])
                } else {
                    None
                }
            },
            _ => None,
        }
    }
}

impl ValueView {
    pub open spec fn member(self, name: Seq<char>) -> Option<ValueView> {
        match self {
            ValueView::Object(members) => text_map::lookup(members, name),
            _ => None,
        }
    }

    pub open spec fn item(self, index: nat) -> Option<ValueView> {
        match self {
            ValueView::Array(items) => if index < items.len() {
                Some(items[index as int])
            } else {
                None
            },
            _ => None,
        }
    }

    /// Equality of JSON values: floating-point numbers compare by value.
    pub open spec fn equals(self, other: ValueView) -> bool
        decreases self,
    {
        match (self, other) {
            (ValueView::Null, ValueView::Null) => true,
            (ValueView::Bool(a), ValueView::Bool(b)) => a == b,
            (ValueView::Number(a), ValueView::Number(b)) => a.equals(b),
            (ValueView::String(a), ValueView::String(b)) => a == b,
            (ValueView::Array(a), ValueView::Array(b)) => a.len() == b.len() && forall|i: int|
                0 <= i < a.len() ==> (#[trigger] a[i]).equals(b[i]),
            (ValueView::Object(a), ValueView::Object(b)) => a.len() == b.len() && forall|i: int|
                0 <= i < a.len() ==> (#[trigger] a[i]).0 == b[i].0 && a[i].1.equals(b[i].1),
            _ => false,
        }
    }

    /// The compact JSON text of the value.
    pub open spec fn text(self) -> Seq<char>
        decreases self, 1nat,
    {
        match self {
            ValueView::Null => "null"@,
            ValueView::Bool(b) => if b {
                "true"@
            } else {
                "false"@
            },
            ValueView::Number(n) => n.text(),
            ValueView::String(s) => json_string_text(s),
            ValueView::Array(items) => "["@ + items_text(items) + "]"@,
            ValueView::Object(members) => "{"@ + members_text(members) + "}"@,
        }
    }
}

/// The texts of the items, separated by commas.
pub open spec fn items_text(items: Seq<ValueView>) -> Seq<char>
    decreases items, 0nat,
{
    if items.len() == 0 {
        Seq::empty()
    } else if items.len() == 1 {
        items[0].text()
    } else {
        items_text(items.drop_last()) + ","@ + items.last().text()
    }
}

/// The members, each as its quoted name, a colon and its text, separated by commas.
pub open spec fn members_text(members: Seq<(Seq<char>, ValueView)>) -> Seq<char>
    decreases members, 0nat,
{
    if members.len() == 0 {
        Seq::empty()
    } else if members.len() == 1 {
        json_string_text(members[0].0) + ":"@ + members[0].1.text()
    } else {
        members_text(members.drop_last()) + ","@ + json_string_text(members.last().0) + ":"@
            + members.last().1.text()
    }
}

pub open spec fn value_views(items: Seq<Value>) -> Seq<ValueView>
    decreases items,
{
    Seq::new(
        items.len(),
        |i: int|
            if 0 <= i < items.len() {
                items[i].view()
            } else {
                ValueView::Null
            },
    )
}

pub open spec fn member_views(members: Seq<(String, Value)>) -> Seq<(Seq<char>, ValueView)>
    decreases members,
{
    Seq::new(
        members.len(),
        |i: int|
            if 0 <= i < members.len() {
                (members[i].0@, members[i].1.view())
            } else {
                (Seq::empty(), ValueView::Null)
            },
    )
}

/// How a character stands inside a JSON string: a quote, a backslash and the
/// control characters below the space are escaped.
pub open spec fn escaped_char(c: char) -> Seq<char> {
    if c == '"' {
        seq!['\\', '"']
    } else if c == '\\' {
        seq!['\\', '\\']
    } else if c == '\u{8}' {
        seq!['\\', 'b']
    } else if c == '\t' {
        seq!['\\', 't']
    } else if c == '\n' {
        seq!['\\', 'n']
    } else if c == '\u{c}' {
        seq!['\\', 'f']
    } else if c == '\r' {
        seq!['\\', 'r']
    } else if (c as u32) < 0x20 {
        let digits = "0123456789abcdef"@;
        let n = (c as u32) as int;
        seq!['\\', 'u', '0', '0', digits[n / 16], digits[n % 16]]
    } else {
        seq![c]
    }
}

pub open spec fn escaped_text(s: Seq<char>) -> Seq<char>
    decreases s.len(),
{
    if s.len() == 0 {
        Seq::empty()
    } else {
        escaped_text(s.drop_last()) + escaped_char(s.last())
    }
}

/// How a text is written in JSON: in quotes, with escapes.
#[verifier::opaque]
pub open spec fn json_string_text(s: Seq<char>) -> Seq<char> {
    "\""@ + escaped_text(s) + "\""@
}

/// `serde_json::to_string` on a `str`: the text in quotes. A quote, a backslash
/// and the control characters below the space are escaped, where there is one
/// by a letter and else by four hexadecimal digits; every other character
/// stands as it is.
#[verifier::external_body]
fn json_string(s: &str) -> (res: String)
    ensures
        res@ == json_string_text(s@),
{
    serde_json::to_string(s).unwrap()
}

impl Clone for Value {
    fn clone(&self) -> (res: Value)
        ensures
            res@ == self@,
        decreases self,
    {
        match self {
            Value::Null => Value::Null,
            Value::Bool(b) => Value::Bool(*b),
            Value::Number(n) => Value::Number(n.copy()),
            Value::String(s) => Value::String(s.clone()),
            Value::Array(items) => Value::Array(clone_values(items)),
            Value::Object(map) => Value::Object(clone_members(map)),
        }
    }
}

pub fn clone_values(items: &Vec<Value>) -> (res: Vec<Value>)
    ensures
        value_views(res@) == value_views(items@),
    decreases items,
{
    let mut out: Vec<Value> = Vec::new();
    let mut i: usize = 0;
    while i < items.len()
        invariant
            i <= items@.len(),
            out@.len() == i,
            forall|j: int| 0 <= j < i ==> out@[j]@ == items@[j]@,
        decreases items@.len() - i,
    {
        out.push(items[i].clone());
        i = i + 1;
    }
    assert(value_views(out@) =~= value_views(items@));
    out
}

pub fn clone_members(map: &TextMap<Value>) -> (res: TextMap<Value>)
    ensures
        member_views(res.entries@) == member_views(map.entries@),
    decreases map,
{
    let mut out: Vec<(String, Value)> = Vec::new();
    let mut i: usize = 0;
    while i < map.entries.len()
        invariant
            i <= map.entries@.len(),
            out@.len() == i,
            forall|j: int|
                0 <= j < i ==> out@[j].0@ == map.entries@[j].0@ && out@[j].1@
                    == map.entries@[j].1@,
        decreases map.entries@.len() - i,
    {
        out.push((map.entries[i].0.clone(), map.entries[i].1.clone()));
        i = i + 1;
    }
    assert(member_views(out@) =~= member_views(map.entries@));
    TextMap { entries: out }
}

/// Equality of JSON values.
pub fn same_value(a: &Value, b: &Value) -> (same: bool)
    ensures
        same == a@.equals(b@),
    decreases a,
{
    match (a, b) {
        (Value::Null, Value::Null) => true,
        (Value::Bool(x), Value::Bool(y)) => *x == *y,
        (Value::Number(x), Value::Number(y)) => same_number(x, y),
        (Value::String(x), Value::String(y)) => same_text(x, y),
        (Value::Array(x), Value::Array(y)) => {
            if x.len() != y.len() {
                return false;
            }
            let mut i: usize = 0;
            while i < x.len()
                invariant
                    i <= x@.len(),
                    x@.len() == y@.len(),
                    *a == Value::Array(*x),
                    a@ == ValueView::Array(value_views(x@)),
                    b@ == ValueView::Array(value_views(y@)),
                    forall|j: int| 0 <= j < i ==> (#[trigger] x@[j])@.equals(y@[j]@),
                decreases x@.len() - i,
            {
                proof {
                    assert(decreases_to!(*a => a->Array_0));
                    assert(decreases_to!(x@ => x@[i as int]));
                }
                if !same_value(&x[i], &y[i]) {
                    assert(!value_views(x@)[i as int].equals(value_views(y@)[i as int]));
                    return false;
                }
                i = i + 1;
            }
            assert forall|j: int| 0 <= j < x@.len() implies (#[trigger] value_views(
                x@,
            )[j]).equals(value_views(y@)[j]) by {
                assert(x@[j]@.equals(y@[j]@));
            }
            true
        },
        (Value::Object(x), Value::Object(y)) => {
            if x.entries.len() != y.entries.len() {
                return false;
            }
            let mut i: usize = 0;
            while i < x.entries.len()
                invariant
                    i <= x.entries@.len(),
                    x.entries@.len() == y.entries@.len(),
                    *a == Value::Object(*x),
                    a@ == ValueView::Object(member_views(x.entries@)),
                    b@ == ValueView::Object(member_views(y.entries@)),
                    forall|j: int|
                        0 <= j < i ==> (#[trigger] x.entries@[j]).0@ == y.entries@[j].0@
                            && x.entries@[j].1@.equals(y.entries@[j].1@),
                decreases x.entries@.len() - i,
            {
                proof {
                    assert(decreases_to!(*a => a->Object_0));
                    assert(decreases_to!(x.entries@ => x.entries@[i as int].1));
                }
                if !same_text(&x.entries[i].0, &y.entries[i].0) || !same_value(
                    &x.entries[i].1,
                    &y.entries[i].1,
                ) {
                    assert(!(member_views(x.entries@)[i as int].0 == member_views(
                        y.entries@,
                    )[i as int].0 && member_views(x.entries@)[i as int].1.equals(
                        member_views(y.entries@)[i as int].1,
                    )));
                    return false;
                }
                i = i + 1;
            }
            assert forall|j: int| 0 <= j < x.entries@.len() implies (#[trigger] member_views(
                x.entries@,
            )[j]).0 == member_views(y.entries@)[j].0 && member_views(x.entries@)[j].1.equals(
                member_views(y.entries@)[j].1,
            ) by {
                assert(x.entries@[j].1@.equals(y.entries@[j].1@));
            }
            true
        },
        _ => false,
    }
}

/// Whether a value is equal to one of a list.
pub open spec fn listed(values: Seq<ValueView>, value: ValueView) -> bool {
    exists|i: int| 0 <= i < values.len() && (#[trigger] values[i]).equals(value)
}

pub fn is_listed(values: &Vec<Value>, value: &Value) -> (found: bool)
    ensures
        found == listed(value_views(values@), value@),
{
    let mut i: usize = 0;
    while i < values.len()
        invariant
            i <= values@.len(),
            forall|j: int| 0 <= j < i ==> !(#[trigger] value_views(values@)[j]).equals(value@),
        decreases values@.len() - i,
    {
        if same_value(&values[i], value) {
            assert(value_views(values@)[i as int].equals(value@));
            return true;
        }
        i = i + 1;
    }
    false
}

/// The compact JSON text of a value.
pub fn value_text(value: &Value) -> (res: String)
    ensures
        res@ == value@.text(),
    decreases value, 1nat,
{
    match value {
        Value::Null => text::owned("null"),
        Value::Bool(b) => {
            if *b {
                text::owned("true")
            } else {
                text::owned("false")
            }
        },
        Value::Number(n) => n.to_text(),
        Value::String(s) => json_string(s),
        Value::Array(items) => {
            let inner = values_text(items);
            let mut out = text::joined("[", &inner);
            out.append("]");
            out
        },
        Value::Object(map) => {
            let inner = entries_text(map);
            let mut out = text::joined("{", &inner);
            out.append("}");
            out
        },
    }
}

fn values_text(items: &Vec<Value>) -> (res: String)
    ensures
        res@ == items_text(value_views(items@)),
    decreases items, 0nat,
{
    let mut out = String::new();
    let mut i: usize = 0;
    while i < items.len()
        invariant
            i <= items@.len(),
            out@ == items_text(value_views(items@).take(i as int)),
        decreases items@.len() - i,
    {
        let ghost views = value_views(items@);
        proof {
            assert(decreases_to!(items@ => items@[i as int]));
            assert(views.take(i + 1).drop_last() =~= views.take(i as int));
            assert(views.take(i + 1).last() == items@[i as int]@);
        }
        let item = value_text(&items[i]);
        if i > 0 {
            out.append(",");
            out.append(&item);
        } else {
            out.append(&item);
            assert(out@ =~= item@);
        }
        i = i + 1;
    }
    assert(value_views(items@).take(i as int) =~= value_views(items@));
    out
}

fn entries_text(map: &TextMap<Value>) -> (res: String)
    ensures
        res@ == members_text(member_views(map.entries@)),
    decreases map, 0nat,
{
    let mut out = String::new();
    let mut i: usize = 0;
    while i < map.entries.len()
        invariant
            i <= map.entries@.len(),
            out@ == members_text(member_views(map.entries@).take(i as int)),
        decreases map.entries@.len() - i,
    {
        let ghost views = member_views(map.entries@);
        proof {
            assert(decreases_to!(map.entries@ => map.entries@[i as int].1));
            assert(views.take(i + 1).drop_last() =~= views.take(i as int));
            assert(views.take(i + 1).last() == views[i as int]);
        }
        let name = json_string(&map.entries[i].0);
        let item = value_text(&map.entries[i].1);
        if i > 0 {
            out.append(",");
        }
        let ghost start = out@;
        out.append(&name);
        out.append(":");
        out.append(&item);
        proof {
            if i == 0 {
                assert(start =~= Seq::empty());
                assert(start + name@ =~= name@);
            }
        }
        i = i + 1;
    }
    assert(member_views(map.entries@).take(i as int) =~= member_views(map.entries@));
    out
}

} // verus!
