//! How a document is written out: the pieces that it is written in, and a count
//! of their bytes that stops where a limit is passed.
use vstd::prelude::*;

use crate::expr::saturated;
use crate::json::{
    escaped_char, escaped_text, items_text, json_string_text, member_views, members_text,
    value_views, Value, ValueView,
};
use crate::text;
use crate::text::{chars_of, piece, text_len};

verus! {

// ---------------------------------------------------------------------------
// Pieces
// ---------------------------------------------------------------------------
/// The bytes of the escape that stands for a character inside a JSON string, or
/// none where the character stands as it is.
pub open spec fn escape_bytes(c: char) -> nat {
    if c == '"' || c == '\\' || c == '\u{8}' || c == '\t' || c == '\n' || c == '\u{c}' || c
        == '\r' {
        2
    } else if (c as u32) < 0x20 {
        6
    } else {
        0
    }
}

/// A run of characters that stand as they are is written at once.
pub open spec fn run_pieces(run: Seq<char>) -> Seq<nat> {
    if run.len() == 0 {
        Seq::empty()
    } else {
        seq![text::byte_len(run)]
    }
}

/// The inside of a string from the `start`-th character on, of which those
/// before the `i`-th stand as they are.
pub open spec fn inner_pieces(s: Seq<char>, start: int, i: int) -> Seq<nat>
    decreases s.len() - i,
{
    if i >= s.len() {
        run_pieces(s.subrange(start, s.len() as int))
    } else if escape_bytes(s[i]) > 0 {
        run_pieces(s.subrange(start, i)) + seq![escape_bytes(s[i])] + inner_pieces(s, i + 1, i + 1)
    } else {
        inner_pieces(s, start, i + 1)
    }
}

/// A string: its quotes, its runs and its escapes.
pub open spec fn string_pieces(s: Seq<char>) -> Seq<nat> {
    seq![1nat] + inner_pieces(s, 0, 0) + seq![1nat]
}

/// What stands before the `i`-th item of a list.
pub open spec fn comma_pieces(i: nat) -> Seq<nat> {
    if i == 0 {
        Seq::empty()
    } else {
        seq![1nat]
    }
}

/// The lengths of the pieces that a document is written in: brackets, commas,
/// colons and quotes by themselves, a number or a word at once.
pub open spec fn value_pieces(value: ValueView) -> Seq<nat>
    decreases value, 1int,
{
    match value {
        ValueView::Null => seq![4nat],
        ValueView::Bool(b) => if b {
            seq![4nat]
        } else {
            seq![5nat]
        },
        ValueView::Number(n) => seq![text::byte_len(n.text())],
        ValueView::String(s) => string_pieces(s),
        ValueView::Array(items) => seq![1nat] + items_pieces(items, 0) + seq![1nat],
        ValueView::Object(members) => seq![1nat] + members_pieces(members, 0) + seq![1nat],
    }
}

/// The items of an array from the `i`-th on.
pub open spec fn items_pieces(items: Seq<ValueView>, i: nat) -> Seq<nat>
    decreases items, items.len() - i,
{
    if i >= items.len() {
        Seq::empty()
    } else {
        comma_pieces(i) + value_pieces(items[i as int]) + items_pieces(items, i + 1)
    }
}

/// The members of an object from the `i`-th on.
pub open spec fn members_pieces(members: Seq<(Seq<char>, ValueView)>, i: nat) -> Seq<nat>
    decreases members, members.len() - i,
{
    if i >= members.len() {
        Seq::empty()
    } else {
        comma_pieces(i) + string_pieces(members[i as int].0) + seq![1nat] + value_pieces(
            members[i as int].1,
        ) + members_pieces(members, i + 1)
    }
}

// ---------------------------------------------------------------------------
// Counting
// ---------------------------------------------------------------------------
/// A count with one more piece, or the count that passed the limit.
pub open spec fn counted(count: Result<nat, nat>, piece: nat, limit: nat) -> Result<nat, nat> {
    match count {
        Ok(n) => if saturated(n + piece) > limit {
            Err(saturated(n + piece))
        } else {
            Ok(saturated(n + piece))
        },
        Err(n) => Err(n),
    }
}

/// A count with more pieces, one after the other.
pub open spec fn tally(count: Result<nat, nat>, pieces: Seq<nat>, limit: nat) -> Result<nat, nat>
    decreases pieces.len(),
{
    if pieces.len() == 0 {
        count
    } else {
        counted(tally(count, pieces.drop_last(), limit), pieces.last(), limit)
    }
}

proof fn lemma_tally_both(count: Result<nat, nat>, a: Seq<nat>, b: Seq<nat>, limit: nat)
    ensures
        tally(count, a + b, limit) == tally(tally(count, a, limit), b, limit),
    decreases b.len(),
{
    if b.len() == 0 {
        assert(a + b =~= a);
    } else {
        assert((a + b).drop_last() =~= a + b.drop_last());
        lemma_tally_both(count, a, b.drop_last(), limit);
    }
}

proof fn lemma_tally_one(count: Result<nat, nat>, piece: nat, limit: nat)
    ensures
        tally(count, seq![piece], limit) == counted(count, piece, limit),
{
    assert(seq![piece].drop_last() =~= Seq::empty());
    assert(tally(count, seq![piece].drop_last(), limit) == count);
}

/// A count of bytes under a limit.
pub struct ByteCounter {
    pub count: Result<usize, usize>,
    pub limit: usize,
}

impl ByteCounter {
    pub open spec fn view(&self) -> Result<nat, nat> {
        match self.count {
            Ok(n) => Ok(n as nat),
            Err(n) => Err(n as nat),
        }
    }

    /// Whether pieces have been counted, and the limit stayed.
    pub open spec fn went_on(&self, before: &ByteCounter, pieces: Seq<nat>) -> bool {
        self@ == tally(before@, pieces, before.limit as nat) && self.limit == before.limit
    }

    pub fn new(limit: usize) -> (res: Self)
        ensures
            res@ == Ok::<nat, nat>(0),
            res.limit == limit,
    {
        ByteCounter { count: Ok(0), limit }
    }

    /// Counts a piece.
    pub fn write(&mut self, bytes: usize)
        ensures
            final(self).went_on(old(self), seq![bytes as nat]),
    {
        proof {
            lemma_tally_one(self@, bytes as nat, self.limit as nat);
        }
        match self.count {
            Ok(n) => {
                let attempted: usize = n.saturating_add(bytes);
                self.count = if attempted > self.limit {
                    Err(attempted)
                } else {
                    Ok(attempted)
                };
            },
            Err(_) => {},
        }
    }

    fn write_run(&mut self, chars: &Vec<char>, start: usize, end: usize)
        requires
            start <= end <= chars@.len(),
        ensures
            final(self).went_on(old(self), run_pieces(chars@.subrange(start as int, end as int))),
    {
        if start < end {
            let run = piece(chars, start, end);
            self.write(text_len(&run));
        }
    }

    fn write_inner(&mut self, s: &str)
        ensures
            final(self).went_on(old(self), inner_pieces(s@, 0, 0)),
    {
        let chars = chars_of(s);
        let ghost whole = tally(self@, inner_pieces(s@, 0, 0), self.limit as nat);
        let mut start: usize = 0;
        let mut i: usize = 0;
        while i < chars.len()
            invariant
                chars@ == s@,
                start <= i <= chars@.len(),
                self.limit == old(self).limit,
                whole == tally(old(self)@, inner_pieces(s@, 0, 0), old(self).limit as nat),
                whole == tally(
                    self@,
                    inner_pieces(s@, start as int, i as int),
                    self.limit as nat,
                ),
            decreases chars@.len() - i,
        {
            let width = escape_width(chars[i]);
            if width > 0 {
                let ghost before = self@;
                let ghost limit = self.limit as nat;
                let ghost run = run_pieces(s@.subrange(start as int, i as int));
                let ghost rest = inner_pieces(s@, i as int + 1, i as int + 1);
                self.write_run(&chars, start, i);
                self.write(width);
                proof {
                    let escape = seq![width as nat];
                    lemma_tally_both(before, run + escape, rest, limit);
                    lemma_tally_both(before, run, escape, limit);
                }
                start = i + 1;
            }
            i = i + 1;
        }
        let n: usize = chars.len();
        self.write_run(&chars, start, n);
    }

    /// Counts a string.
    pub fn write_string(&mut self, s: &str)
        ensures
            final(self).went_on(old(self), string_pieces(s@)),
    {
        let ghost before = self@;
        let ghost limit = self.limit as nat;
        self.write(1);
        self.write_inner(s);
        self.write(1);
        proof {
            let quote = seq![1nat];
            let inner = inner_pieces(s@, 0, 0);
            lemma_tally_both(before, quote + inner, quote, limit);
            lemma_tally_both(before, quote, inner, limit);
        }
    }

    fn write_comma(&mut self, i: usize)
        ensures
            final(self).went_on(old(self), comma_pieces(i as nat)),
    {
        if i > 0 {
            self.write(1);
        }
    }

    /// Counts a document.
    pub fn write_value(&mut self, value: &Value)
        ensures
            final(self).went_on(old(self), value_pieces(value@)),
        decreases value, 1int,
    {
        let ghost before = self@;
        let ghost limit = self.limit as nat;
        match value {
            Value::Null => {
                self.write(4);
            },
            Value::Bool(b) => {
                self.write(if *b {
                    4
                } else {
                    5
                });
            },
            Value::Number(n) => {
                self.write(text_len(&n.to_text()));
            },
            Value::String(s) => {
                self.write_string(s);
            },
            Value::Array(items) => {
                self.write(1);
                self.write_items(items);
                self.write(1);
                proof {
                    let inner = items_pieces(value_views(items@), 0);
                    lemma_tally_both(before, seq![1nat] + inner, seq![1nat], limit);
                    lemma_tally_both(before, seq![1nat], inner, limit);
                }
            },
            Value::Object(map) => {
                self.write(1);
                self.write_members(&map.entries);
                self.write(1);
                proof {
                    let inner = members_pieces(member_views(map.entries@), 0);
                    lemma_tally_both(before, seq![1nat] + inner, seq![1nat], limit);
                    lemma_tally_both(before, seq![1nat], inner, limit);
                }
            },
        }
    }

    fn write_items(&mut self, items: &Vec<Value>)
        ensures
            final(self).went_on(old(self), items_pieces(value_views(items@), 0)),
        decreases items, 0int,
    {
        let ghost views = value_views(items@);
        let ghost whole = tally(self@, items_pieces(views, 0), self.limit as nat);
        let mut i: usize = 0;
        while i < items.len()
            invariant
                views == value_views(items@),
                i <= items@.len(),
                self.limit == old(self).limit,
                whole == tally(old(self)@, items_pieces(views, 0), old(self).limit as nat),
                whole == tally(self@, items_pieces(views, i as nat), self.limit as nat),
            decreases items@.len() - i,
        {
            assert(decreases_to!(items@ => items@[i as int]));
            assert(views[i as int] == items@[i as int]@);
            let ghost before = self@;
            let ghost limit = self.limit as nat;
            self.write_comma(i);
            self.write_value(&items[i]);
            proof {
                let comma = comma_pieces(i as nat);
                let here = value_pieces(views[i as int]);
                lemma_tally_both(before, comma + here, items_pieces(views, i as nat + 1), limit);
                lemma_tally_both(before, comma, here, limit);
            }
            i = i + 1;
        }
    }

    fn write_members(&mut self, entries: &Vec<(String, Value)>)
        ensures
            final(self).went_on(old(self), members_pieces(member_views(entries@), 0)),
        decreases entries, 0int,
    {
        let ghost views = member_views(entries@);
        let ghost whole = tally(self@, members_pieces(views, 0), self.limit as nat);
        let mut i: usize = 0;
        while i < entries.len()
            invariant
                views == member_views(entries@),
                i <= entries@.len(),
                self.limit == old(self).limit,
                whole == tally(old(self)@, members_pieces(views, 0), old(self).limit as nat),
                whole == tally(self@, members_pieces(views, i as nat), self.limit as nat),
            decreases entries@.len() - i,
        {
            assert(decreases_to!(entries@ => entries@[i as int].1));
            assert(views[i as int] == (entries@[i as int].0@, entries@[i as int].1@));
            let ghost before = self@;
            let ghost limit = self.limit as nat;
            self.write_comma(i);
            self.write_string(&entries[i].0);
            self.write(1);
            self.write_value(&entries[i].1);
            proof {
                let comma = comma_pieces(i as nat);
                let name = string_pieces(views[i as int].0);
                let colon = seq![1nat];
                let here = value_pieces(views[i as int].1);
                let rest = members_pieces(views, i as nat + 1);
                lemma_tally_both(before, comma + name + colon + here, rest, limit);
                lemma_tally_both(before, comma + name + colon, here, limit);
                lemma_tally_both(before, comma + name, colon, limit);
                lemma_tally_both(before, comma, name, limit);
            }
            i = i + 1;
        }
    }
}

fn escape_width(c: char) -> (res: usize)
    ensures
        res == escape_bytes(c),
{
    if c == '"' || c == '\\' || c == '\u{8}' || c == '\t' || c == '\n' || c == '\u{c}' || c
        == '\r' {
        2
    } else if (c as u32) < 0x20 {
        6
    } else {
        0
    }
}

// ---------------------------------------------------------------------------
// Laws
// ---------------------------------------------------------------------------
/// The bytes of all pieces.
pub open spec fn total(pieces: Seq<nat>) -> nat
    decreases pieces.len(),
{
    if pieces.len() == 0 {
        0
    } else {
        total(pieces.drop_last()) + pieces.last()
    }
}

proof fn lemma_total_both(a: Seq<nat>, b: Seq<nat>)
    ensures
        total(a + b) == total(a) + total(b),
    decreases b.len(),
{
    if b.len() == 0 {
        assert(a + b =~= a);
    } else {
        assert((a + b).drop_last() =~= a + b.drop_last());
        lemma_total_both(a, b.drop_last());
    }
}

proof fn lemma_total_one(n: nat)
    ensures
        total(seq![n]) == n,
{
    assert(seq![n].drop_last() =~= Seq::empty());
    assert(total(seq![n].drop_last()) == 0);
}

pub proof fn lemma_bytes_both(a: Seq<char>, b: Seq<char>)
    ensures
        text::byte_len(a + b) == text::byte_len(a) + text::byte_len(b),
    decreases a.len(),
{
    if a.len() == 0 {
        assert(a + b =~= b);
    } else {
        assert((a + b).drop_first() =~= a.drop_first() + b);
        lemma_bytes_both(a.drop_first(), b);
    }
}

/// A character below U+0080 takes one byte.
proof fn lemma_plain_bytes(s: Seq<char>)
    requires
        forall|i: int| 0 <= i < s.len() ==> (#[trigger] s[i] as u32) < 0x80,
    ensures
        text::byte_len(s) == s.len(),
    decreases s.len(),
{
    if s.len() > 0 {
        assert((s[0] as u32) < 0x80);
        lemma_plain_bytes(s.drop_first());
    }
}

proof fn lemma_escape(c: char)
    ensures
        escape_bytes(c) > 0 ==> text::byte_len(escaped_char(c)) == escape_bytes(c),
        escape_bytes(c) == 0 ==> escaped_char(c) == seq![c],
{
    if escape_bytes(c) > 0 {
        reveal_strlit("0123456789abcdef");
        let n = (c as u32) as int;
        if n < 0x20 {
            let digits = "0123456789abcdef"@;
            assert(0 <= n / 16 < 16 && 0 <= n % 16 < 16);
            assert forall|k: int| 0 <= k < 16 implies (#[trigger] digits[k] as u32) < 0x80 by {}
            assert((digits[n / 16] as u32) < 0x80 && (digits[n % 16] as u32) < 0x80);
        }
        lemma_plain_bytes(escaped_char(c));
    }
}

proof fn lemma_escaped_both(a: Seq<char>, b: Seq<char>)
    ensures
        escaped_text(a + b) == escaped_text(a) + escaped_text(b),
    decreases b.len(),
{
    if b.len() == 0 {
        assert(a + b =~= a);
        assert(escaped_text(a) + escaped_text(b) =~= escaped_text(a));
    } else {
        assert((a + b).drop_last() =~= a + b.drop_last());
        lemma_escaped_both(a, b.drop_last());
        assert(escaped_text(a) + (escaped_text(b.drop_last()) + escaped_char(b.last()))
            =~= escaped_text(a) + escaped_text(b.drop_last()) + escaped_char(b.last()));
    }
}

proof fn lemma_escaped_run(run: Seq<char>)
    requires
        forall|i: int| 0 <= i < run.len() ==> escape_bytes(#[trigger] run[i]) == 0,
    ensures
        escaped_text(run) == run,
    decreases run.len(),
{
    if run.len() > 0 {
        lemma_escaped_run(run.drop_last());
        lemma_escape(run.last());
        assert(run.drop_last() + seq![run.last()] =~= run);
    }
}

proof fn lemma_run(run: Seq<char>)
    requires
        forall|i: int| 0 <= i < run.len() ==> escape_bytes(#[trigger] run[i]) == 0,
    ensures
        total(run_pieces(run)) == text::byte_len(escaped_text(run)),
{
    lemma_escaped_run(run);
    if run.len() > 0 {
        lemma_total_one(text::byte_len(run));
    }
}

proof fn lemma_inner(s: Seq<char>, start: int, i: int)
    requires
        0 <= start <= i <= s.len(),
        forall|k: int| start <= k < i ==> escape_bytes(#[trigger] s[k]) == 0,
    ensures
        total(inner_pieces(s, start, i)) == text::byte_len(
            escaped_text(s.subrange(start, s.len() as int)),
        ),
    decreases s.len() - i,
{
    let end = s.len() as int;
    if i >= s.len() {
        lemma_run(s.subrange(start, end));
    } else if escape_bytes(s[i]) > 0 {
        let run = s.subrange(start, i);
        let one = seq![s[i]];
        let rest = s.subrange(i + 1, end);
        let escape = seq![escape_bytes(s[i])];
        lemma_run(run);
        lemma_inner(s, i + 1, i + 1);
        lemma_escape(s[i]);
        assert(s.subrange(start, end) =~= run + one + rest);
        lemma_escaped_both(run + one, rest);
        lemma_escaped_both(run, one);
        assert(one.drop_last() =~= Seq::empty());
        assert(escaped_text(one) =~= escaped_char(s[i])) by {
            assert(escaped_text(one.drop_last()) =~= Seq::empty());
        }
        lemma_bytes_both(escaped_text(run) + escaped_text(one), escaped_text(rest));
        lemma_bytes_both(escaped_text(run), escaped_text(one));
        lemma_total_both(run_pieces(run) + escape, inner_pieces(s, i + 1, i + 1));
        lemma_total_both(run_pieces(run), escape);
        lemma_total_one(escape_bytes(s[i]));
    } else {
        lemma_inner(s, start, i + 1);
    }
}

proof fn lemma_string(s: Seq<char>)
    ensures
        total(string_pieces(s)) == text::byte_len(json_string_text(s)),
{
    reveal(json_string_text);
    reveal_strlit("\"");
    let quote = "\""@;
    let inner = inner_pieces(s, 0, 0);
    lemma_plain_bytes(quote);
    lemma_inner(s, 0, 0);
    assert(s.subrange(0, s.len() as int) =~= s);
    lemma_bytes_both(quote + escaped_text(s), quote);
    lemma_bytes_both(quote, escaped_text(s));
    lemma_total_both(seq![1nat] + inner, seq![1nat]);
    lemma_total_both(seq![1nat], inner);
    lemma_total_one(1);
}

/// The pieces of a document make up its text: together they are as long as it.
pub proof fn law_pieces_make_up_the_text(value: ValueView)
    ensures
        total(value_pieces(value)) == text::byte_len(value.text()),
    decreases value, 1int,
{
    reveal_strlit("null");
    reveal_strlit("true");
    reveal_strlit("false");
    reveal_strlit("[");
    reveal_strlit("]");
    reveal_strlit("{");
    reveal_strlit("}");
    lemma_total_one(1);
    match value {
        ValueView::Null => {
            lemma_plain_bytes("null"@);
            lemma_total_one(4);
        },
        ValueView::Bool(_) => {
            lemma_plain_bytes("true"@);
            lemma_plain_bytes("false"@);
            lemma_total_one(4);
            lemma_total_one(5);
        },
        ValueView::Number(n) => lemma_total_one(text::byte_len(n.text())),
        ValueView::String(s) => lemma_string(s),
        ValueView::Array(items) => {
            lemma_items(items, 0);
            assert(items.take(0) =~= Seq::empty());
            lemma_plain_bytes("["@);
            lemma_plain_bytes("]"@);
            lemma_bytes_both("["@ + items_text(items), "]"@);
            lemma_bytes_both("["@, items_text(items));
            lemma_total_both(seq![1nat] + items_pieces(items, 0), seq![1nat]);
            lemma_total_both(seq![1nat], items_pieces(items, 0));
        },
        ValueView::Object(members) => {
            lemma_members(members, 0);
            assert(members.take(0) =~= Seq::empty());
            lemma_plain_bytes("{"@);
            lemma_plain_bytes("}"@);
            lemma_bytes_both("{"@ + members_text(members), "}"@);
            lemma_bytes_both("{"@, members_text(members));
            lemma_total_both(seq![1nat] + members_pieces(members, 0), seq![1nat]);
            lemma_total_both(seq![1nat], members_pieces(members, 0));
        },
    }
}

proof fn lemma_items(items: Seq<ValueView>, i: nat)
    requires
        i <= items.len(),
    ensures
        text::byte_len(items_text(items)) == text::byte_len(items_text(items.take(i as int)))
            + total(items_pieces(items, i)),
    decreases items, items.len() - i,
{
    if i < items.len() {
        let here = items[i as int];
        let before = items.take(i as int);
        let after = items.take(i as int + 1);
        lemma_items(items, i + 1);
        law_pieces_make_up_the_text(here);
        assert(after.drop_last() =~= before);
        assert(after.last() == here);
        lemma_total_both(comma_pieces(i) + value_pieces(here), items_pieces(items, i + 1));
        lemma_total_both(comma_pieces(i), value_pieces(here));
        lemma_total_one(1);
        if i > 0 {
            reveal_strlit(",");
            lemma_plain_bytes(","@);
            lemma_bytes_both(items_text(before) + ","@, here.text());
            lemma_bytes_both(items_text(before), ","@);
        } else {
            assert(after[0] == here);
            assert(items_text(before) =~= Seq::empty());
            lemma_plain_bytes(items_text(before));
        }
    } else {
        assert(items.take(i as int) =~= items);
    }
}

proof fn lemma_members(members: Seq<(Seq<char>, ValueView)>, i: nat)
    requires
        i <= members.len(),
    ensures
        text::byte_len(members_text(members)) == text::byte_len(
            members_text(members.take(i as int)),
        ) + total(members_pieces(members, i)),
    decreases members, members.len() - i,
{
    if i < members.len() {
        let (name, here) = members[i as int];
        let before = members.take(i as int);
        let after = members.take(i as int + 1);
        let quoted = json_string_text(name);
        let first = comma_pieces(i) + string_pieces(name);
        lemma_members(members, i + 1);
        law_pieces_make_up_the_text(here);
        lemma_string(name);
        assert(after.drop_last() =~= before);
        assert(after.last() == (name, here));
        lemma_total_both(
            first + seq![1nat] + value_pieces(here),
            members_pieces(members, i + 1),
        );
        lemma_total_both(first + seq![1nat], value_pieces(here));
        lemma_total_both(first, seq![1nat]);
        lemma_total_both(comma_pieces(i), string_pieces(name));
        lemma_total_one(1);
        reveal_strlit(":");
        lemma_plain_bytes(":"@);
        if i > 0 {
            let start = members_text(before) + ","@;
            reveal_strlit(",");
            lemma_plain_bytes(","@);
            lemma_bytes_both(start + quoted + ":"@, here.text());
            lemma_bytes_both(start + quoted, ":"@);
            lemma_bytes_both(start, quoted);
            lemma_bytes_both(members_text(before), ","@);
        } else {
            assert(after[0] == (name, here));
            assert(members_text(before) =~= Seq::empty());
            lemma_plain_bytes(members_text(before));
            lemma_bytes_both(quoted + ":"@, here.text());
            lemma_bytes_both(quoted, ":"@);
        }
    } else {
        assert(members.take(i as int) =~= members);
    }
}

proof fn lemma_tally_total(pieces: Seq<nat>, limit: nat)
    requires
        limit < usize::MAX,
    ensures
        tally(Ok(0), pieces, limit) is Ok <==> total(pieces) <= limit,
        tally(Ok(0), pieces, limit) matches Ok(n) ==> n == total(pieces),
        tally(Ok(0), pieces, limit) matches Err(n) ==> limit < n <= total(pieces),
    decreases pieces.len(),
{
    if pieces.len() > 0 {
        lemma_tally_total(pieces.drop_last(), limit);
    }
}

/// A document is counted whole exactly where its text stays within the limit,
/// and then by the bytes of its text. Where it does not, the count is what made
/// it pass the limit, and never more than the whole.
pub proof fn law_count_is_the_size_of_the_text(value: ValueView, limit: nat)
    requires
        limit < usize::MAX,
    ensures
        ({
            let size = text::byte_len(value.text());
            let count = tally(Ok(0), value_pieces(value), limit);
            &&& count is Ok <==> size <= limit
            &&& count matches Ok(n) ==> n == size
            &&& count matches Err(n) ==> limit < n <= size
        }),
{
    law_pieces_make_up_the_text(value);
    lemma_tally_total(value_pieces(value), limit);
}

} // verus!
