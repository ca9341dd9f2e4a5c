//! Text primitives: byte lengths, ordering, character classes and the pieces
//! from which paths and messages are built.
use vstd::prelude::*;

verus! {

/// Number of bytes of the UTF-8 encoding of `s`.
pub open spec fn byte_len(s: Seq<char>) -> nat {
    vstd::utf8::encode_utf8(s).len()
}

/// Number of bytes that `s` occupies.
pub fn text_len(s: &str) -> (n: usize)
    ensures
        n == byte_len(s@),
{
    s.as_bytes().len()
}

/// The characters of `s`, in order.
pub fn chars_of(s: &str) -> (chars: Vec<char>)
    ensures
        chars@ == s@,
{
    let mut chars: Vec<char> = Vec::new();
    let n: usize = s.unicode_len();
    let mut i: usize = 0;
    let mut rest = s.chars();
    while i < n
        invariant
            i <= n,
            n == s@.len(),
            chars@ == s@.take(i as int),
            vstd::std_specs::iter::IteratorSpec::remaining(&rest) == s@.skip(i as int),
        decreases n - i,
    {
        broadcast use vstd::string::group_string_axioms;
        let next = rest.next();
        match next {
            Some(c) => {
                chars.push(c);
            },
            None => {},
        }
        i = i + 1;
        assert(chars@ =~= s@.take(i as int));
        assert(vstd::std_specs::iter::IteratorSpec::remaining(&rest) =~= s@.skip(i as int));
    }
    assert(chars@ =~= s@);
    chars
}

/// Whether two texts hold the same characters.
pub fn same_text(a: &str, b: &str) -> (same: bool)
    ensures
        same == (a@ == b@),
{
    a.to_owned() == b.to_owned()
}

/// `std::string::String::push`: the character goes to the end of the text.
pub assume_specification[ std::string::String::push ](s: &mut std::string::String, c: char)
    ensures
        final(s)@ == old(s)@.push(c),
;

/// Strict code point order of texts: the order of a map keyed by text.
pub open spec fn before(a: Seq<char>, b: Seq<char>) -> bool
    decreases a.len(),
{
    if b.len() == 0 {
        false
    } else if a.len() == 0 {
        true
    } else if a[0] != b[0] {
        a[0] < b[0]
    } else {
        before(a.skip(1), b.skip(1))
    }
}

/// Whether `a` comes strictly before `b`.
pub fn text_before(a: &str, b: &str) -> (less: bool)
    ensures
        less == before(a@, b@),
{
    let left = chars_of(a);
    let right = chars_of(b);
    let mut i: usize = 0;
    assert(a@.skip(0) =~= a@);
    assert(b@.skip(0) =~= b@);
    while i < left.len() && i < right.len()
        invariant
            left@ == a@,
            right@ == b@,
            i <= left@.len(),
            i <= right@.len(),
            before(a@, b@) == before(a@.skip(i as int), b@.skip(i as int)),
        decreases left@.len() - i,
    {
        assert(a@.skip(i as int).skip(1) =~= a@.skip(i + 1));
        assert(b@.skip(i as int).skip(1) =~= b@.skip(i + 1));
        if left[i] != right[i] {
            return left[i] < right[i];
        }
        i = i + 1;
    }
    i < right.len()
}

/// Characters with the Unicode `White_Space` property.
#[verifier::opaque]
pub open spec fn white_space(c: char) -> bool {
    let n = c as u32;
    ||| 0x09 <= n <= 0x0d
    ||| n == 0x20
    ||| n == 0x85
    ||| n == 0xa0
    ||| n == 0x1680
    ||| 0x2000 <= n <= 0x200a
    ||| n == 0x2028
    ||| n == 0x2029
    ||| n == 0x202f
    ||| n == 0x205f
    ||| n == 0x3000
}

/// Whether a character is white space.
pub fn is_white_space(c: char) -> (white: bool)
    ensures
        white == white_space(c),
{
    reveal(white_space);
    let n: u32 = c as u32;
    (0x09 <= n && n <= 0x0d) || n == 0x20 || n == 0x85 || n == 0xa0 || n == 0x1680 || (0x2000 <= n
        && n <= 0x200a) || n == 0x2028 || n == 0x2029 || n == 0x202f || n == 0x205f || n == 0x3000
}

/// Control characters: the Unicode category `Cc`.
pub open spec fn control(c: char) -> bool {
    (c as u32) <= 0x1f || 0x7f <= (c as u32) <= 0x9f
}

/// Whether a character is a control character.
pub fn is_control(c: char) -> (is: bool)
    ensures
        is == control(c),
{
    let n: u32 = c as u32;
    n <= 0x1f || (0x7f <= n && n <= 0x9f)
}

pub open spec fn ascii_digit(c: char) -> bool {
    '0' <= c <= '9'
}

pub open spec fn ascii_letter(c: char) -> bool {
    'a' <= c <= 'z' || 'A' <= c <= 'Z'
}

pub open spec fn ascii_alphanumeric(c: char) -> bool {
    ascii_digit(c) || ascii_letter(c)
}

pub fn is_ascii_digit(c: char) -> (is: bool)
    ensures
        is == ascii_digit(c),
{
    '0' <= c && c <= '9'
}

pub fn is_ascii_letter(c: char) -> (is: bool)
    ensures
        is == ascii_letter(c),
{
    ('a' <= c && c <= 'z') || ('A' <= c && c <= 'Z')
}

pub fn is_ascii_alphanumeric(c: char) -> (is: bool)
    ensures
        is == ascii_alphanumeric(c),
{
    is_ascii_digit(c) || is_ascii_letter(c)
}

/// A text with nothing but white space in it.
pub open spec fn blank(s: Seq<char>) -> bool {
    forall|i: int| 0 <= i < s.len() ==> white_space(#[trigger] s[i])
}

/// Whether a text is empty once trimmed.
pub fn is_blank(s: &str) -> (is: bool)
    ensures
        is == blank(s@),
{
    let chars = chars_of(s);
    let mut i: usize = 0;
    while i < chars.len()
        invariant
            chars@ == s@,
            i <= chars@.len(),
            forall|j: int| 0 <= j < i ==> white_space(#[trigger] s@[j]),
        decreases chars@.len() - i,
    {
        if !is_white_space(chars[i]) {
            assert(!white_space(s@[i as int]));
            return false;
        }
        i = i + 1;
    }
    true
}

/// Decimal digits of a number, without leading zeros.
pub open spec fn decimal(n: nat) -> Seq<char>
    decreases n,
{
    if n < 10 {
        seq![digit(n)]
    } else {
        decimal(n / 10).push(digit(n % 10))
    }
}

pub open spec fn digit(n: nat) -> char {
    if n == 0 {
        '0'
    } else if n == 1 {
        '1'
    } else if n == 2 {
        '2'
    } else if n == 3 {
        '3'
    } else if n == 4 {
        '4'
    } else if n == 5 {
        '5'
    } else if n == 6 {
        '6'
    } else if n == 7 {
        '7'
    } else if n == 8 {
        '8'
    } else {
        '9'
    }
}

fn digit_char(n: u64) -> (c: char)
    requires
        n < 10,
    ensures
        c == digit(n as nat),
{
    if n == 0 {
        '0'
    } else if n == 1 {
        '1'
    } else if n == 2 {
        '2'
    } else if n == 3 {
        '3'
    } else if n == 4 {
        '4'
    } else if n == 5 {
        '5'
    } else if n == 6 {
        '6'
    } else if n == 7 {
        '7'
    } else if n == 8 {
        '8'
    } else {
        '9'
    }
}

/// The decimal text of a number.
pub fn decimal_text(n: u64) -> (res: String)
    ensures
        res@ == decimal(n as nat),
    decreases n,
{
    if n < 10 {
        let mut out = String::new();
        out.push(digit_char(n));
        assert(out@ =~= seq![digit(n as nat)]);
        out
    } else {
        let mut out = decimal_text(n / 10);
        out.push(digit_char(n % 10));
        out
    }
}

/// Text of a number of things.
pub fn count_text(n: usize) -> (res: String)
    ensures
        res@ == decimal(n as nat),
{
    decimal_text(n as u64)
}

/// What `{:?}` shows of a text: quoted, with escapes.
pub uninterp spec fn debug_text(s: Seq<char>) -> Seq<char>;

/// `format!` with `{:?}` on a `str`: the text in quotes, with the characters
/// that need it escaped. Which characters are escaped is left to std.
#[verifier::external_body]
pub(crate) fn quoted(s: &str) -> (res: String)
    ensures
        res@ == debug_text(s@),
{
    format!("{:?}", s)
}

/// An owned copy of a text.
pub fn owned(s: &str) -> (res: String)
    ensures
        res@ == s@,
{
    s.to_owned()
}

/// Two texts in a row.
pub fn joined(a: &str, b: &str) -> (res: String)
    ensures
        res@ == a@ + b@,
{
    let mut out = a.to_owned();
    out.append(b);
    out
}

/// The characters of several texts.
pub open spec fn text_views(texts: Seq<String>) -> Seq<Seq<char>> {
    texts.map_values(|t: String| t@)
}

/// The text between two positions.
pub fn piece(chars: &Vec<char>, from: usize, to: usize) -> (res: String)
    requires
        from <= to <= chars@.len(),
    ensures
        res@ == chars@.subrange(from as int, to as int),
{
    let mut out = String::new();
    let mut i: usize = from;
    while i < to
        invariant
            from <= i <= to <= chars@.len(),
            out@ == chars@.subrange(from as int, i as int),
        decreases to - i,
    {
        out.push(chars[i]);
        i = i + 1;
        assert(out@ =~= chars@.subrange(from as int, i as int));
    }
    out
}

/// The pieces of a text between the occurrences of a separator.
pub open spec fn split(s: Seq<char>, sep: char) -> Seq<Seq<char>>
    decreases s.len(),
{
    if s.len() == 0 {
        seq![Seq::empty()]
    } else {
        let init = split(s.drop_last(), sep);
        if s.last() == sep {
            init.push(Seq::empty())
        } else {
            init.drop_last().push(init.last().push(s.last()))
        }
    }
}

/// A split has at least one piece.
pub proof fn lemma_split_len(s: Seq<char>, sep: char)
    ensures
        split(s, sep).len() > 0,
    decreases s.len(),
{
    if s.len() > 0 {
        lemma_split_len(s.drop_last(), sep);
    }
}

/// The pieces of a text between the occurrences of a separator.
pub fn split_text(s: &str, sep: char) -> (res: Vec<String>)
    ensures
        text_views(res@) == split(s@, sep),
        res@.len() > 0,
{
    let chars = chars_of(s);
    let mut done: Vec<String> = Vec::new();
    let mut current = String::new();
    let mut i: usize = 0;
    assert(text_views(done@).push(current@) =~= split(s@.take(0), sep));
    while i < chars.len()
        invariant
            chars@ == s@,
            i <= chars@.len(),
            text_views(done@).push(current@) == split(s@.take(i as int), sep),
        decreases chars@.len() - i,
    {
        let ghost before = text_views(done@).push(current@);
        proof {
            assert(s@.take(i + 1).drop_last() =~= s@.take(i as int));
            assert(s@.take(i + 1).last() == s@[i as int]);
        }
        if chars[i] == sep {
            done.push(current);
            current = String::new();
            assert(text_views(done@) =~= before);
            assert(text_views(done@).push(current@) =~= before.push(Seq::empty()));
        } else {
            current.push(chars[i]);
            assert(before.drop_last() =~= text_views(done@));
            assert(text_views(done@).push(current@) =~= before.drop_last().push(
                before.last().push(s@[i as int]),
            ));
        }
        i = i + 1;
    }
    assert(s@.take(i as int) =~= s@);
    let ghost all = text_views(done@).push(current@);
    done.push(current);
    assert(text_views(done@) =~= all);
    done
}

/// Whether `pattern` stands in `s` at position `i`.
pub open spec fn occurs(s: Seq<char>, pattern: Seq<char>, i: int) -> bool {
    0 <= i && i + pattern.len() <= s.len() && s.subrange(i, i + pattern.len()) == pattern
}

/// Whether `pattern` stands somewhere in `s`.
pub open spec fn contains(s: Seq<char>, pattern: Seq<char>) -> bool {
    exists|i: int| occurs(s, pattern, i)
}

/// The first position at or after `i` at which `pattern` stands.
pub open spec fn find(s: Seq<char>, pattern: Seq<char>, i: nat) -> Option<nat>
    decreases s.len() + 1 - i,
{
    if i > s.len() {
        None
    } else if occurs(s, pattern, i as int) {
        Some(i)
    } else {
        find(s, pattern, i + 1)
    }
}

/// What `find` finds, and that it is the first.
pub proof fn lemma_find(s: Seq<char>, pattern: Seq<char>, i: nat)
    ensures
        match find(s, pattern, i) {
            Some(at) => i <= at && occurs(s, pattern, at as int) && forall|j: int|
                i <= j < at ==> !occurs(s, pattern, j),
            None => forall|j: int| i <= j ==> !occurs(s, pattern, j),
        },
    decreases s.len() + 1 - i,
{
    if i <= s.len() && !occurs(s, pattern, i as int) {
        lemma_find(s, pattern, i + 1);
    }
}

fn occurs_at(s: &Vec<char>, pattern: &Vec<char>, i: usize) -> (res: bool)
    requires
        i <= s@.len(),
    ensures
        res == occurs(s@, pattern@, i as int),
{
    let n: usize = s.len();
    if pattern.len() > n - i {
        return false;
    }
    let mut k: usize = 0;
    while k < pattern.len()
        invariant
            n == s@.len(),
            k <= pattern@.len(),
            i + pattern@.len() <= s@.len(),
            forall|j: int| 0 <= j < k ==> s@[i + j] == #[trigger] pattern@[j],
        decreases pattern@.len() - k,
    {
        if s[i + k] != pattern[k] {
            assert(s@.subrange(i as int, i + pattern@.len())[k as int] != pattern@[k as int]);
            return false;
        }
        k = k + 1;
    }
    assert(s@.subrange(i as int, i + pattern@.len()) =~= pattern@);
    true
}

/// The first position at or after `from` at which `pattern` stands.
pub fn find_from(s: &Vec<char>, pattern: &str, from: usize) -> (res: Option<usize>)
    ensures
        match res {
            Some(at) => find(s@, pattern@, from as nat) == Some(at as nat) && at + pattern@.len()
                <= s@.len() && from <= at,
            None => find(s@, pattern@, from as nat) is None,
        },
{
    let wanted = chars_of(pattern);
    let mut i: usize = from;
    if i > s.len() {
        return None;
    }
    loop
        invariant
            wanted@ == pattern@,
            from <= i <= s@.len(),
            find(s@, pattern@, from as nat) == find(s@, pattern@, i as nat),
        decreases s@.len() - i,
    {
        if occurs_at(s, &wanted, i) {
            return Some(i);
        }
        if i == s.len() {
            assert(find(s@, pattern@, (i + 1) as nat) is None);
            return None;
        }
        i = i + 1;
    }
}

/// Whether `pattern` stands somewhere in `s`.
pub fn contains_text(s: &str, pattern: &str) -> (res: bool)
    ensures
        res == contains(s@, pattern@),
{
    let chars = chars_of(s);
    proof {
        lemma_find(s@, pattern@, 0);
    }
    match find_from(&chars, pattern, 0) {
        Some(at) => {
            assert(occurs(s@, pattern@, at as int));
            true
        },
        None => {
            assert(forall|j: int| !occurs(s@, pattern@, j));
            false
        },
    }
}

/// Whether a character stands somewhere in `s`.
pub fn contains_char(s: &str, c: char) -> (res: bool)
    ensures
        res == s@.contains(c),
{
    let chars = chars_of(s);
    let mut i: usize = 0;
    while i < chars.len()
        invariant
            chars@ == s@,
            i <= chars@.len(),
            forall|j: int| 0 <= j < i ==> s@[j] != c,
        decreases chars@.len() - i,
    {
        if chars[i] == c {
            assert(s@[i as int] == c);
            return true;
        }
        i = i + 1;
    }
    false
}

pub open spec fn has_prefix(s: Seq<char>, prefix: Seq<char>) -> bool {
    occurs(s, prefix, 0)
}

pub open spec fn has_suffix(s: Seq<char>, suffix: Seq<char>) -> bool {
    occurs(s, suffix, s.len() - suffix.len())
}

pub fn starts_with(s: &str, prefix: &str) -> (res: bool)
    ensures
        res == has_prefix(s@, prefix@),
{
    let chars = chars_of(s);
    let wanted = chars_of(prefix);
    occurs_at(&chars, &wanted, 0)
}

pub fn ends_with(s: &str, suffix: &str) -> (res: bool)
    ensures
        res == has_suffix(s@, suffix@),
{
    let chars = chars_of(s);
    let wanted = chars_of(suffix);
    if wanted.len() > chars.len() {
        return false;
    }
    occurs_at(&chars, &wanted, chars.len() - wanted.len())
}

/// A text without the white space at its ends.
pub open spec fn trimmed(s: Seq<char>) -> Seq<char>
    decreases s.len(),
{
    if s.len() == 0 {
        s
    } else if white_space(s[0]) {
        trimmed(s.skip(1))
    } else if white_space(s.last()) {
        trimmed(s.drop_last())
    } else {
        s
    }
}

/// A text without the white space at its ends.
pub fn trim(s: &str) -> (res: String)
    ensures
        res@ == trimmed(s@),
{
    let chars = chars_of(s);
    let mut from: usize = 0;
    let mut to: usize = chars.len();
    assert(s@.subrange(0, to as int) =~= s@);
    while from < to && is_white_space(chars[from])
        invariant
            from <= to <= chars@.len(),
            to == chars@.len(),
            chars@ == s@,
            trimmed(s@) == trimmed(s@.subrange(from as int, to as int)),
        decreases to - from,
    {
        assert(s@.subrange(from as int, to as int).skip(1) =~= s@.subrange(from + 1, to as int));
        from = from + 1;
    }
    while from < to && is_white_space(chars[to - 1])
        invariant
            from <= to <= chars@.len(),
            chars@ == s@,
            from < to ==> !white_space(s@[from as int]),
            trimmed(s@) == trimmed(s@.subrange(from as int, to as int)),
        decreases to - from,
    {
        assert(s@.subrange(from as int, to as int).drop_last() =~= s@.subrange(
            from as int,
            to - 1,
        ));
        to = to - 1;
    }
    proof {
        let rest = s@.subrange(from as int, to as int);
        if from < to {
            assert(rest[0] == s@[from as int]);
            assert(rest.last() == s@[to - 1]);
        }
        assert(trimmed(rest) == rest);
    }
    piece(&chars, from, to)
}

/// Whether a character is a letter or a number in Unicode.
pub uninterp spec fn unicode_alphanumeric(c: char) -> bool;

/// `char::is_alphanumeric`: the Unicode properties `Alphabetic` or a numeric
/// category. Of the characters beyond ASCII it only gives the answer a name.
#[verifier::external_body]
pub(crate) fn is_alphanumeric(c: char) -> (res: bool)
    ensures
        res == unicode_alphanumeric(c),
        (c as u32) < 128 ==> res == ascii_alphanumeric(c),
{
    c.is_alphanumeric()
}

/// Whether a character is a letter in Unicode.
pub uninterp spec fn unicode_alphabetic(c: char) -> bool;

/// `char::is_alphabetic`: the Unicode property `Alphabetic`. Of the characters
/// beyond ASCII it only gives the answer a name.
#[verifier::external_body]
pub(crate) fn is_alphabetic(c: char) -> (res: bool)
    ensures
        res == unicode_alphabetic(c),
        (c as u32) < 128 ==> res == ascii_letter(c),
{
    c.is_alphabetic()
}

/// Pieces with a separator between them.
pub open spec fn joined_by(pieces: Seq<Seq<char>>, sep: char) -> Seq<char>
    decreases pieces.len(),
{
    if pieces.len() == 0 {
        Seq::empty()
    } else if pieces.len() == 1 {
        pieces[0]
    } else {
        joined_by(pieces.drop_last(), sep).push(sep) + pieces.last()
    }
}

/// The pieces of a split, with the separator between them, are the text, and none of them holds
/// the separator.
pub proof fn law_split(s: Seq<char>, sep: char)
    ensures
        split(s, sep).len() > 0,
        joined_by(split(s, sep), sep) == s,
        forall|i: int| 0 <= i < split(s, sep).len() ==> !(#[trigger] split(s, sep)[i]).contains(sep),
    decreases s.len(),
{
    if s.len() > 0 {
        let init = split(s.drop_last(), sep);
        let all = split(s, sep);
        law_split(s.drop_last(), sep);
        assert(s =~= s.drop_last().push(s.last()));
        if s.last() == sep {
            assert(all.drop_last() =~= init);
            assert(joined_by(all, sep) =~= s);
        } else {
            let last = init.last().push(s.last());
            assert(all.last() == last);
            assert(all.drop_last() =~= init.drop_last());
            assert forall|i: int| 0 <= i < all.len() implies !(#[trigger] all[i]).contains(sep) by {
                if i < all.len() - 1 {
                    assert(all[i] == init[i]);
                } else {
                    assert(!init[init.len() - 1].contains(sep));
                    if last.contains(sep) {
                        let k = choose|k: int| 0 <= k < last.len() && last[k] == sep;
                        assert(init.last()[k] == sep);
                    }
                }
            }
            if init.len() == 1 {
                assert(joined_by(all, sep) =~= s);
            } else {
                assert(joined_by(init, sep) == joined_by(init.drop_last(), sep).push(sep)
                    + init.last());
                assert(joined_by(all, sep) =~= s);
            }
        }
    }
}

/// A trimmed text is the text without white space before and after it: what is left out is white
/// space, and what is left neither begins nor ends with any.
pub proof fn law_trimmed(s: Seq<char>)
    ensures
        exists|head: Seq<char>, tail: Seq<char>|
            blank(head) && blank(tail) && s == #[trigger] (head + trimmed(s) + tail),
        trimmed(s).len() > 0 ==> !white_space(trimmed(s)[0]) && !white_space(trimmed(s).last()),
    decreases s.len(),
{
    if s.len() == 0 {
        let none = Seq::<char>::empty();
        assert(none + trimmed(s) + none =~= s);
    } else if white_space(s[0]) {
        law_trimmed(s.skip(1));
        let (head, tail) = choose|head: Seq<char>, tail: Seq<char>|
            blank(head) && blank(tail) && s.skip(1) == #[trigger] (head + trimmed(s.skip(1)) + tail);
        let longer = seq![s[0]] + head;
        let inner = head + trimmed(s.skip(1)) + tail;
        assert(longer + trimmed(s) + tail =~= seq![s[0]] + inner);
        assert(seq![s[0]] + s.skip(1) =~= s);
        assert(blank(longer));
    } else if white_space(s.last()) {
        law_trimmed(s.drop_last());
        let (head, tail) = choose|head: Seq<char>, tail: Seq<char>|
            blank(head) && blank(tail) && s.drop_last() == #[trigger] (head + trimmed(
                s.drop_last(),
            ) + tail);
        let longer = tail.push(s.last());
        let inner = head + trimmed(s.drop_last()) + tail;
        assert(head + trimmed(s) + longer =~= inner.push(s.last()));
        assert(s.drop_last().push(s.last()) =~= s);
        assert(blank(longer));
    } else {
        let none = Seq::<char>::empty();
        assert(none + trimmed(s) + none =~= s);
    }
}

proof fn lemma_split_behind(a: Seq<char>, b: Seq<char>, sep: char)
    requires
        !b.contains(sep),
    ensures
        split(a.push(sep) + b, sep) == split(a, sep).push(b),
    decreases b.len(),
{
    let whole = a.push(sep) + b;
    if b.len() == 0 {
        assert(whole =~= a.push(sep));
        assert(whole.drop_last() =~= a);
        assert(b =~= Seq::empty());
    } else {
        let shorter = b.drop_last();
        if shorter.contains(sep) {
            let k = choose|k: int| 0 <= k < shorter.len() && shorter[k] == sep;
            assert(b[k] == sep);
        }
        lemma_split_behind(a, shorter, sep);
        assert(whole.drop_last() =~= a.push(sep) + shorter);
        assert(whole.last() == b.last());
        assert(b.contains(b.last()));
        let init = split(a, sep).push(shorter);
        assert(init.drop_last() =~= split(a, sep));
        assert(shorter.push(b.last()) =~= b);
    }
}

proof fn lemma_split_whole(s: Seq<char>, sep: char)
    requires
        !s.contains(sep),
    ensures
        split(s, sep) == seq![s],
    decreases s.len(),
{
    if s.len() > 0 {
        let shorter = s.drop_last();
        if shorter.contains(sep) {
            let k = choose|k: int| 0 <= k < shorter.len() && shorter[k] == sep;
            assert(s[k] == sep);
        }
        lemma_split_whole(shorter, sep);
        assert(s.contains(s.last()));
        assert(seq![shorter].drop_last() =~= Seq::<Seq<char>>::empty());
        assert(shorter.push(s.last()) =~= s);
        assert(split(s, sep) =~= seq![s]);
    } else {
        assert(s =~= Seq::empty());
    }
}

/// Pieces that do not hold the separator are what a split of them, put together, gives back.
pub proof fn law_split_of_joined(pieces: Seq<Seq<char>>, sep: char)
    requires
        pieces.len() > 0,
        forall|i: int| 0 <= i < pieces.len() ==> !(#[trigger] pieces[i]).contains(sep),
    ensures
        split(joined_by(pieces, sep), sep) == pieces,
    decreases pieces.len(),
{
    if pieces.len() == 1 {
        lemma_split_whole(pieces[0], sep);
        assert(pieces =~= seq![pieces[0]]);
    } else {
        let init = pieces.drop_last();
        law_split_of_joined(init, sep);
        lemma_split_behind(joined_by(init, sep), pieces.last(), sep);
        assert(init.push(pieces.last()) =~= pieces);
    }
}

} // verus!
