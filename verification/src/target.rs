//! Paths of action inputs: their notations, and writes through them.
use vstd::prelude::*;

use crate::bind_error::{BindErrView, BindingError};
use crate::context::{segment_views, ContextPathSegment, SegmentView};
use crate::format::digits_value;
use crate::json::{member_views, value_views, Value, ValueView};
use crate::store;
use crate::text;
use crate::text::{
    chars_of, count_text, is_blank, joined, owned, piece, quoted, same_text, split_text,
    text_views,
};
use crate::text_map;
use crate::text_map::TextMap;

verus! {

#[derive(Debug, Clone, Copy, PartialEq, Eq, Structural)]
pub struct BindingLimits {
    pub max_bindings: usize,
    pub max_path_segments: usize,
    pub max_template_parts: usize,
    pub max_rendered_bytes: usize,
}

impl Default for BindingLimits {
    fn default() -> (res: Self)
        ensures
            res.max_bindings == 128,
            res.max_path_segments == 32,
            res.max_template_parts == 256,
            res.max_rendered_bytes == 64 * 1024,
    {
        BindingLimits {
            max_bindings: 128,
            max_path_segments: 32,
            max_template_parts: 256,
            max_rendered_bytes: 64 * 1024,
        }
    }
}

// ---------------------------------------------------------------------------
// Notation
// ---------------------------------------------------------------------------
pub open spec fn all_digits(s: Seq<char>) -> bool {
    forall|i: int| 0 <= i < s.len() ==> text::ascii_digit(#[trigger] s[i])
}

/// The number that a text writes in decimal, with an optional plus sign, where
/// it fits a machine word.
pub open spec fn index_value(s: Seq<char>) -> Option<nat> {
    let digits = if s.len() > 1 && s[0] == '+' {
        s.skip(1)
    } else {
        s
    };
    if digits.len() > 0 && all_digits(digits) && digits_value(digits) <= usize::MAX {
        Some(digits_value(digits))
    } else {
        None
    }
}

/// A segment is an index where it can be read as one, and a field name otherwise.
pub open spec fn segment_of(name: Seq<char>) -> SegmentView {
    match index_value(name) {
        Some(index) => SegmentView::Index { index },
        None => SegmentView::Field { name },
    }
}

/// A pointer segment without its escapes; none where a tilde begins no escape.
pub open spec fn unescaped(s: Seq<char>) -> Option<Seq<char>>
    decreases s.len(),
{
    if s.len() == 0 {
        Some(Seq::empty())
    } else if s[0] != '~' {
        match unescaped(s.skip(1)) {
            Some(rest) => Some(seq![s[0]] + rest),
            None => None,
        }
    } else if s.len() >= 2 && (s[1] == '0' || s[1] == '1') {
        match unescaped(s.skip(2)) {
            Some(rest) => Some(
                seq![
                    if s[1] == '0' {
                        '~'
                    } else {
                        '/'
                    },
                ] + rest,
            ),
            None => None,
        }
    } else {
        None
    }
}

pub open spec fn escape(c: char) -> Seq<char> {
    if c == '~' {
        "~0"@
    } else if c == '/' {
        "~1"@
    } else {
        seq![c]
    }
}

/// A field name as a pointer segment.
pub open spec fn escaped(s: Seq<char>) -> Seq<char>
    decreases s.len(),
{
    if s.len() == 0 {
        Seq::empty()
    } else {
        escaped(s.drop_last()) + escape(s.last())
    }
}

pub open spec fn segment_text(segment: SegmentView) -> Seq<char> {
    match segment {
        SegmentView::Field { name } => escaped(name),
        SegmentView::Index { index } => text::decimal(index),
    }
}

/// A path as a JSON Pointer.
pub open spec fn pointer(path: Seq<SegmentView>) -> Seq<char>
    decreases path.len(),
{
    if path.len() == 0 {
        Seq::empty()
    } else {
        pointer(path.drop_last()) + "/"@ + segment_text(path.last())
    }
}

pub open spec fn pointer_name(piece: Seq<char>, target: Seq<char>) -> Result<
    Seq<char>,
    BindErrView,
> {
    match unescaped(piece) {
        None => Err(BindErrView::InvalidPointer { target }),
        Some(name) => if name.len() == 0 {
            Err(BindErrView::EmptyTarget(target))
        } else {
            Ok(name)
        },
    }
}

pub open spec fn dotted_name(piece: Seq<char>, target: Seq<char>) -> Result<
    Seq<char>,
    BindErrView,
> {
    if piece.len() == 0 {
        Err(BindErrView::EmptyTarget(target))
    } else {
        Ok(piece)
    }
}

/// The names of a path, or what is wrong with the first piece that is none.
pub open spec fn names_of(pieces: Seq<Seq<char>>, pointer: bool, target: Seq<char>) -> Result<
    Seq<Seq<char>>,
    BindErrView,
>
    decreases pieces.len(),
{
    if pieces.len() == 0 {
        Ok(Seq::empty())
    } else {
        match names_of(pieces.drop_last(), pointer, target) {
            Err(e) => Err(e),
            Ok(names) => match if pointer {
                pointer_name(pieces.last(), target)
            } else {
                dotted_name(pieces.last(), target)
            } {
                Err(e) => Err(e),
                Ok(name) => Ok(names.push(name)),
            },
        }
    }
}

/// The path that a binding target writes: a JSON Pointer, or a dotted path.
pub open spec fn target_path(target: Seq<char>, limits: BindingLimits) -> Result<
    Seq<SegmentView>,
    BindErrView,
> {
    if text::blank(target) || target == "/"@ {
        Err(BindErrView::EmptyTarget(target))
    } else {
        let names = if target[0] == '/' {
            names_of(text::split(target.skip(1), '/'), true, target)
        } else {
            names_of(text::split(target, '.'), false, target)
        };
        match names {
            Err(e) => Err(e),
            Ok(names) => if names.len() > limits.max_path_segments {
                Err(BindErrView::PathLimit { target, limit: limits.max_path_segments })
            } else {
                Ok(names.map_values(|name: Seq<char>| segment_of(name)))
            },
        }
    }
}

proof fn lemma_digits_grow(s: Seq<char>, i: int)
    requires
        0 <= i <= s.len(),
    ensures
        digits_value(s.take(i)) <= digits_value(s),
    decreases s.len(),
{
    if i < s.len() {
        lemma_digits_grow(s.drop_last(), i);
        assert(s.drop_last().take(i) =~= s.take(i));
    } else {
        assert(s.take(i) =~= s);
    }
}

/// Reads a segment as an index.
fn parse_index(name: &str) -> (res: Option<usize>)
    ensures
        match res {
            Some(index) => index_value(name@) == Some(index as nat),
            None => index_value(name@) is None,
        },
{
    let chars = chars_of(name);
    let n: usize = chars.len();
    let from: usize = if n > 1 && chars[0] == '+' {
        1
    } else {
        0
    };
    let ghost digits = if from == 1 {
        name@.skip(1)
    } else {
        name@
    };
    if from == n {
        return None;
    }
    let mut value: usize = 0;
    let mut i: usize = from;
    assert(digits.take(0) =~= Seq::empty());
    while i < n
        invariant
            chars@ == name@,
            n == chars@.len(),
            from <= i <= n,
            from <= 1,
            from < n,
            from == 1 <==> n > 1 && chars@[0] == '+',
            digits == if from == 1 {
                name@.skip(1)
            } else {
                name@
            },
            forall|j: int| 0 <= j < i - from ==> text::ascii_digit(#[trigger] digits[j]),
            value == digits_value(digits.take(i - from)),
        decreases n - i,
    {
        let c = chars[i];
        assert(digits[i - from] == c);
        if !text::is_ascii_digit(c) {
            assert(!text::ascii_digit(digits[i - from]));
            assert(!all_digits(digits));
            return None;
        }
        let d: usize = (c as u32 - 48) as usize;
        proof {
            assert(digits.take(i - from + 1).drop_last() =~= digits.take(i - from));
            lemma_digits_grow(digits, i - from + 1);
        }
        match value.checked_mul(10) {
            None => {
                return None;
            },
            Some(scaled) => match scaled.checked_add(d) {
                None => {
                    return None;
                },
                Some(next) => {
                    value = next;
                },
            },
        }
        i = i + 1;
    }
    assert(digits.take(i - from) =~= digits);
    Some(value)
}

fn segment(name: String) -> (res: ContextPathSegment)
    ensures
        res@ == segment_of(name@),
{
    match parse_index(&name) {
        Some(index) => ContextPathSegment::index(index),
        None => ContextPathSegment::field(&name),
    }
}

pub open spec fn prefixed(done: Seq<char>, rest: Option<Seq<char>>) -> Option<Seq<char>> {
    match rest {
        Some(rest) => Some(done + rest),
        None => None,
    }
}

fn decode_pointer_segment(segment: &str, target: &str) -> (res: Result<String, BindingError>)
    ensures
        match res {
            Ok(name) => pointer_name(segment@, target@) == Ok::<Seq<char>, BindErrView>(name@),
            Err(e) => pointer_name(segment@, target@) == Err::<Seq<char>, BindErrView>(e@),
        },
{
    let chars = chars_of(segment);
    let n: usize = chars.len();
    let mut decoded = String::new();
    let mut i: usize = 0;
    proof {
        assert(segment@.skip(0) =~= segment@);
        if unescaped(segment@) is Some {
            assert(decoded@ + unescaped(segment@)->0 =~= unescaped(segment@)->0);
        }
    }
    while i < n
        invariant
            n == chars@.len(),
            chars@ == segment@,
            i <= n,
            unescaped(segment@) == prefixed(decoded@, unescaped(segment@.skip(i as int))),
        decreases n - i,
    {
        let ghost rest = segment@.skip(i as int);
        let ghost before = decoded@;
        assert(rest[0] == chars@[i as int]);
        if chars[i] != '~' {
            assert(rest.skip(1) =~= segment@.skip(i + 1));
            decoded.push(chars[i]);
            proof {
                if unescaped(segment@.skip(i + 1)) is Some {
                    let tail = unescaped(segment@.skip(i + 1))->0;
                    assert(before + (seq![rest[0]] + tail) =~= decoded@ + tail);
                }
            }
            i = i + 1;
        } else {
            if i + 1 < n && (chars[i + 1] == '0' || chars[i + 1] == '1') {
                assert(rest[1] == chars@[i + 1]);
                assert(rest.skip(2) =~= segment@.skip(i + 2));
                let c = if chars[i + 1] == '0' {
                    '~'
                } else {
                    '/'
                };
                decoded.push(c);
                proof {
                    if unescaped(segment@.skip(i + 2)) is Some {
                        let tail = unescaped(segment@.skip(i + 2))->0;
                        assert(before + (seq![c] + tail) =~= decoded@ + tail);
                    }
                }
                i = i + 2;
            } else {
                assert(rest.len() >= 2 ==> rest[1] == chars@[i + 1]);
                return Err(BindingError::InvalidPointer { target: owned(target) });
            }
        }
    }
    proof {
        assert(segment@.skip(i as int) =~= Seq::empty());
        assert(decoded@ + Seq::<char>::empty() =~= decoded@);
    }
    if text::text_len(&decoded) == 0 {
        return Err(BindingError::EmptyTarget(owned(target)));
    }
    Ok(decoded)
}

fn read_names(pieces: &Vec<String>, pointer: bool, target: &str) -> (res: Result<
    Vec<String>,
    BindingError,
>)
    ensures
        match res {
            Ok(names) => names_of(text_views(pieces@), pointer, target@) == Ok::<
                Seq<Seq<char>>,
                BindErrView,
            >(text_views(names@)),
            Err(e) => names_of(text_views(pieces@), pointer, target@) == Err::<
                Seq<Seq<char>>,
                BindErrView,
            >(e@),
        },
{
    let ghost views = text_views(pieces@);
    let mut names: Vec<String> = Vec::new();
    let mut i: usize = 0;
    assert(text_views(names@) =~= Seq::empty());
    while i < pieces.len()
        invariant
            i <= pieces@.len(),
            views == text_views(pieces@),
            names_of(views.take(i as int), pointer, target@) == Ok::<Seq<Seq<char>>, BindErrView>(
                text_views(names@),
            ),
        decreases pieces@.len() - i,
    {
        proof {
            assert(views.take(i + 1).drop_last() =~= views.take(i as int));
            assert(views.take(i + 1).last() == pieces@[i as int]@);
        }
        let read = if pointer {
            decode_pointer_segment(&pieces[i], target)
        } else if text::text_len(&pieces[i]) == 0 {
            Err(BindingError::EmptyTarget(owned(target)))
        } else {
            Ok(pieces[i].clone())
        };
        match read {
            Err(e) => {
                proof {
                    lemma_first_error(views, pointer, target@, i + 1);
                }
                return Err(e);
            },
            Ok(name) => {
                let ghost before = text_views(names@);
                let ghost added = name@;
                names.push(name);
                assert(text_views(names@) =~= before.push(added));
            },
        }
        i = i + 1;
    }
    assert(views.take(i as int) =~= views);
    Ok(names)
}

proof fn lemma_first_error(pieces: Seq<Seq<char>>, pointer: bool, target: Seq<char>, i: int)
    requires
        0 <= i <= pieces.len(),
        names_of(pieces.take(i), pointer, target) is Err,
    ensures
        names_of(pieces, pointer, target) == names_of(pieces.take(i), pointer, target),
    decreases pieces.len(),
{
    if i < pieces.len() {
        assert(pieces.drop_last().take(i) =~= pieces.take(i));
        lemma_first_error(pieces.drop_last(), pointer, target, i);
    } else {
        assert(pieces.take(i) =~= pieces);
    }
}

/// Reads a binding target: an RFC 6901 JSON Pointer (`/checksum/sha256`) or a
/// dotted path (`checksum.sha256`).
pub fn parse_binding_target(target: &str, limits: BindingLimits) -> (res: Result<
    Vec<ContextPathSegment>,
    BindingError,
>)
    ensures
        match res {
            Ok(path) => target_path(target@, limits) == Ok::<Seq<SegmentView>, BindErrView>(
                segment_views(path@),
            ),
            Err(e) => target_path(target@, limits) == Err::<Seq<SegmentView>, BindErrView>(e@),
        },
{
    if is_blank(target) || same_text(target, "/") {
        return Err(BindingError::EmptyTarget(owned(target)));
    }
    let chars = chars_of(target);
    let n: usize = chars.len();
    assert(n > 0);
    let read = if chars[0] == '/' {
        let rest = piece(&chars, 1, n);
        assert(rest@ =~= target@.skip(1));
        let pieces = split_text(&rest, '/');
        read_names(&pieces, true, target)
    } else {
        let pieces = split_text(target, '.');
        read_names(&pieces, false, target)
    };
    let names = match read {
        Err(e) => {
            return Err(e);
        },
        Ok(names) => names,
    };
    if names.len() > limits.max_path_segments {
        return Err(
            BindingError::PathLimit { target: owned(target), limit: limits.max_path_segments },
        );
    }
    let ghost views = text_views(names@);
    let mut path: Vec<ContextPathSegment> = Vec::new();
    let mut i: usize = 0;
    while i < names.len()
        invariant
            i <= names@.len(),
            views == text_views(names@),
            path@.len() == i,
            forall|j: int| 0 <= j < i ==> (#[trigger] path@[j])@ == segment_of(views[j]),
        decreases names@.len() - i,
    {
        assert(views[i as int] == names@[i as int]@);
        path.push(segment(names[i].clone()));
        i = i + 1;
    }
    assert(segment_views(path@) =~= views.map_values(|name: Seq<char>| segment_of(name)));
    Ok(path)
}

fn escape_name(name: &str) -> (res: String)
    ensures
        res@ == escaped(name@),
{
    let chars = chars_of(name);
    let mut res = String::new();
    let mut i: usize = 0;
    assert(res@ =~= escaped(name@.take(0)));
    while i < chars.len()
        invariant
            chars@ == name@,
            i <= chars@.len(),
            res@ == escaped(name@.take(i as int)),
        decreases chars@.len() - i,
    {
        let c = chars[i];
        proof {
            assert(name@.take(i + 1).drop_last() =~= name@.take(i as int));
        }
        let ghost before = res@;
        if c == '~' {
            res.append("~0");
        } else if c == '/' {
            res.append("~1");
        } else {
            res.push(c);
            assert(res@ =~= before + seq![c]);
        }
        i = i + 1;
    }
    assert(name@.take(i as int) =~= name@);
    res
}

/// A path in the notation of JSON Pointers.
pub fn display_target(segments: &Vec<ContextPathSegment>) -> (res: String)
    ensures
        res@ == pointer(segment_views(segments@)),
{
    let ghost views = segment_views(segments@);
    let mut res = String::new();
    let mut i: usize = 0;
    assert(res@ =~= pointer(views.take(0)));
    while i < segments.len()
        invariant
            i <= segments@.len(),
            views == segment_views(segments@),
            res@ == pointer(views.take(i as int)),
        decreases segments@.len() - i,
    {
        proof {
            assert(views.take(i + 1).drop_last() =~= views.take(i as int));
            assert(views.take(i + 1).last() == segments@[i as int]@);
        }
        res.append("/");
        match &segments[i] {
            ContextPathSegment::Field { name } => {
                res.append(&escape_name(name));
            },
            ContextPathSegment::Index { index } => {
                res.append(&count_text(*index));
            },
        }
        i = i + 1;
    }
    assert(views.take(i as int) =~= views);
    res
}

// ---------------------------------------------------------------------------
// Writing
// ---------------------------------------------------------------------------
/// What a parent is created as, for the segment that follows it.
pub open spec fn container(next: SegmentView) -> ValueView {
    match next {
        SegmentView::Field { .. } => ValueView::Object(Seq::empty()),
        SegmentView::Index { .. } => ValueView::Array(Seq::empty()),
    }
}

/// The child to descend into: what stands there, or a new container in the place
/// of nothing and of null.
pub open spec fn child_of(
    members: Seq<(Seq<char>, ValueView)>,
    name: Seq<char>,
    next: SegmentView,
) -> ValueView {
    match text_map::lookup(members, name) {
        Some(child) => if child is Null {
            container(next)
        } else {
            child
        },
        None => container(next),
    }
}

/// A value with another written at the path from its `i`-th segment on, or why
/// it cannot be.
pub open spec fn written(
    root: ValueView,
    path: Seq<SegmentView>,
    i: nat,
    value: ValueView,
) -> Result<ValueView, Seq<char>>
    decreases path.len() - i,
{
    if i >= path.len() {
        Err("target has no path segments"@)
    } else {
        match path[i as int] {
            SegmentView::Field { name } => match root {
                ValueView::Object(members) => if i + 1 == path.len() {
                    Ok(ValueView::Object(text_map::stored(members, name, value)))
                } else {
                    match written(child_of(members, name, path[i as int + 1]), path, i + 1, value) {
                        Err(message) => Err(message),
                        Ok(child) => Ok(ValueView::Object(text_map::stored(members, name, child))),
                    }
                },
                _ => Err("parent of "@ + text::debug_text(name) + " is not an object"@),
            },
            SegmentView::Index { index } => match root {
                ValueView::Array(items) => if index >= items.len() {
                    Err("missing array index "@ + text::decimal(index))
                } else if i + 1 == path.len() {
                    Ok(ValueView::Array(items.update(index as int, value)))
                } else {
                    match written(items[index as int], path, i + 1, value) {
                        Err(message) => Err(message),
                        Ok(child) => Ok(ValueView::Array(items.update(index as int, child))),
                    }
                },
                _ => Err("missing array index "@ + text::decimal(index)),
            },
        }
    }
}

pub open spec fn value_pairs(pairs: Seq<(Seq<char>, Value)>) -> Seq<(Seq<char>, ValueView)> {
    pairs.map_values(|p: (Seq<char>, Value)| (p.0, p.1@))
}

proof fn lemma_stored_values(pairs: Seq<(Seq<char>, Value)>, name: Seq<char>, v: Value)
    ensures
        value_pairs(text_map::stored(pairs, name, v)) == text_map::stored(
            value_pairs(pairs),
            name,
            v@,
        ),
    decreases pairs.len(),
{
    let views = value_pairs(pairs);
    if pairs.len() == 0 {
        assert(value_pairs(seq![(name, v)]) =~= seq![(name, v@)]);
    } else {
        assert(views.skip(1) =~= value_pairs(pairs.skip(1)));
        if pairs[0].0 == name {
            assert(value_pairs(seq![(name, v)] + pairs.skip(1)) =~= seq![(name, v@)] + views.skip(
                1,
            ));
        } else if text::before(name, pairs[0].0) {
            assert(value_pairs(seq![(name, v)] + pairs) =~= seq![(name, v@)] + views);
        } else {
            lemma_stored_values(pairs.skip(1), name, v);
            let rest = text_map::stored(pairs.skip(1), name, v);
            assert(value_pairs(seq![pairs[0]] + rest) =~= seq![views[0]] + value_pairs(rest));
        }
    }
}

/// Stores a member in an object.
pub fn store_member(map: &mut TextMap<Value>, name: &str, value: Value)
    ensures
        member_views(final(map).entries@) == text_map::stored(
            member_views(old(map).entries@),
            name@,
            value@,
        ),
{
    let ghost before = map.pairs();
    proof {
        lemma_stored_values(before, name@, value);
        assert(value_pairs(before) =~= member_views(map.entries@));
    }
    map.insert(owned(name), value);
    assert(value_pairs(map.pairs()) =~= member_views(map.entries@));
}

fn new_container(next: &ContextPathSegment) -> (res: Value)
    ensures
        res@ == container(next@),
{
    match next {
        ContextPathSegment::Field { .. } => {
            let map: TextMap<Value> = TextMap::new();
            assert(member_views(map.entries@) =~= Seq::empty());
            Value::Object(map)
        },
        ContextPathSegment::Index { .. } => {
            let items: Vec<Value> = Vec::new();
            assert(value_views(items@) =~= Seq::empty());
            Value::Array(items)
        },
    }
}

fn missing_index<T>(index: usize) -> (res: Result<T, String>)
    ensures
        res matches Err(message) && message@ == "missing array index "@ + text::decimal(
            index as nat,
        ),
{
    Err(joined("missing array index ", &count_text(index)))
}

fn write_from(root: Value, segments: &Vec<ContextPathSegment>, at: usize, value: Value) -> (res:
    Result<Value, String>)
    requires
        at <= segments@.len(),
    ensures
        match res {
            Ok(v) => written(root@, segment_views(segments@), at as nat, value@) == Ok::<
                ValueView,
                Seq<char>,
            >(v@),
            Err(message) => written(root@, segment_views(segments@), at as nat, value@) == Err::<
                ValueView,
                Seq<char>,
            >(message@),
        },
    decreases segments@.len() - at,
{
    let ghost path = segment_views(segments@);
    let n: usize = segments.len();
    if at >= n {
        return Err(owned("target has no path segments"));
    }
    assert(path[at as int] == segments@[at as int]@);
    match &segments[at] {
        ContextPathSegment::Field { name } => {
            let ghost members = root@;
            let child = if at + 1 == n {
                value
            } else {
                let below = match root.member(name) {
                    Some(child) => if child.is_null() {
                        new_container(&segments[at + 1])
                    } else {
                        child.clone()
                    },
                    None => new_container(&segments[at + 1]),
                };
                assert(path[at + 1] == segments@[at + 1]@);
                match root {
                    Value::Object(_) => {
                        match write_from(below, segments, at + 1, value) {
                            Err(message) => {
                                return Err(message);
                            },
                            Ok(child) => child,
                        }
                    },
                    _ => value,
                }
            };
            match root {
                Value::Object(map) => {
                    let mut map = map;
                    store_member(&mut map, name, child);
                    Ok(Value::Object(map))
                },
                _ => {
                    let mut message = joined("parent of ", &quoted(name));
                    message.append(" is not an object");
                    Err(message)
                },
            }
        },
        ContextPathSegment::Index { index } => {
            let index: usize = *index;
            match root {
                Value::Array(items) => {
                    if index >= items.len() {
                        return missing_index(index);
                    }
                    let ghost views = value_views(items@);
                    let child = if at + 1 == n {
                        value
                    } else {
                        assert(views[index as int] == items@[index as int]@);
                        match write_from(items[index].clone(), segments, at + 1, value) {
                            Err(message) => {
                                return Err(message);
                            },
                            Ok(child) => child,
                        }
                    };
                    let mut items = items;
                    let ghost put = child@;
                    items.set(index, child);
                    assert(value_views(items@) =~= views.update(index as int, put));
                    Ok(Value::Array(items))
                },
                _ => missing_index(index),
            }
        },
    }
}

/// Writes a value at a path below a root, creating the objects on the way that
/// are absent or null.
pub fn set_value_at_path(root: Value, segments: &Vec<ContextPathSegment>, value: Value) -> (res:
    Result<Value, String>)
    ensures
        match res {
            Ok(v) => written(root@, segment_views(segments@), 0, value@) == Ok::<
                ValueView,
                Seq<char>,
            >(v@),
            Err(message) => written(root@, segment_views(segments@), 0, value@) == Err::<
                ValueView,
                Seq<char>,
            >(message@),
        },
{
    write_from(root, segments, 0, value)
}

// ---------------------------------------------------------------------------
// Laws
// ---------------------------------------------------------------------------
proof fn lemma_unescaped_push(s: Seq<char>, c: char)
    requires
        unescaped(s) is Some,
    ensures
        unescaped(s + escape(c)) == Some(unescaped(s)->0.push(c)),
    decreases s.len(),
{
    reveal_strlit("~0");
    reveal_strlit("~1");
    let all = s + escape(c);
    if s.len() == 0 {
        assert(all =~= escape(c));
        let none = Seq::<char>::empty();
        assert(unescaped(none) == Some(none));
        if c == '~' || c == '/' {
            assert(all.skip(2) =~= none);
        } else {
            assert(all.skip(1) =~= none);
        }
        assert(unescaped(all)->0 =~= seq![c]);
        assert(unescaped(s)->0.push(c) =~= seq![c]);
    } else if s[0] != '~' {
        assert(all.skip(1) =~= s.skip(1) + escape(c));
        lemma_unescaped_push(s.skip(1), c);
        assert(unescaped(all)->0 =~= unescaped(s)->0.push(c));
    } else {
        assert(all.skip(2) =~= s.skip(2) + escape(c));
        lemma_unescaped_push(s.skip(2), c);
        assert(unescaped(all)->0 =~= unescaped(s)->0.push(c));
    }
}

/// Decoding an escaped name gives the name back.
pub proof fn law_escape_round_trip(name: Seq<char>)
    ensures
        unescaped(escaped(name)) == Some(name),
    decreases name.len(),
{
    if name.len() > 0 {
        law_escape_round_trip(name.drop_last());
        lemma_unescaped_push(escaped(name.drop_last()), name.last());
        assert(name.drop_last().push(name.last()) =~= name);
    } else {
        assert(name =~= Seq::empty());
    }
}

pub open spec fn lacks(s: Seq<char>, c: char) -> bool {
    forall|i: int| 0 <= i < s.len() ==> #[trigger] s[i] != c
}

proof fn lemma_escaped_lacks_slash(name: Seq<char>)
    ensures
        lacks(escaped(name), '/'),
        name.len() > 0 ==> escaped(name).len() > 0,
    decreases name.len(),
{
    reveal_strlit("~0");
    reveal_strlit("~1");
    if name.len() > 0 {
        lemma_escaped_lacks_slash(name.drop_last());
    }
}

proof fn lemma_decimal(n: nat)
    ensures
        text::decimal(n).len() > 0,
        all_digits(text::decimal(n)),
        digits_value(text::decimal(n)) == n,
    decreases n,
{
    let s = text::decimal(n);
    if n < 10 {
        assert(s.drop_last() =~= Seq::empty());
        assert(digits_value(s.drop_last()) == 0);
    } else {
        lemma_decimal(n / 10);
        assert(s.drop_last() =~= text::decimal(n / 10));
    }
}

proof fn lemma_plain(s: Seq<char>)
    requires
        lacks(s, '~'),
    ensures
        unescaped(s) == Some(s),
    decreases s.len(),
{
    if s.len() > 0 {
        lemma_plain(s.skip(1));
        assert(seq![s[0]] + s.skip(1) =~= s);
    } else {
        assert(s =~= Seq::empty());
    }
}

proof fn lemma_split_plain(s: Seq<char>, sep: char)
    requires
        lacks(s, sep),
    ensures
        text::split(s, sep) == seq![s],
    decreases s.len(),
{
    if s.len() > 0 {
        lemma_split_plain(s.drop_last(), sep);
        assert(s.drop_last().push(s.last()) =~= s);
        assert(seq![s.drop_last()].drop_last().push(s) =~= seq![s]);
    } else {
        assert(s =~= Seq::empty());
    }
}

proof fn lemma_split_joined(s: Seq<char>, t: Seq<char>)
    requires
        lacks(t, '/'),
    ensures
        text::split(s + "/"@ + t, '/') == text::split(s, '/').push(t),
    decreases t.len(),
{
    reveal_strlit("/");
    let all = s + "/"@ + t;
    if t.len() == 0 {
        assert(all.drop_last() =~= s);
        assert(all.last() == '/');
        assert(t =~= Seq::empty());
    } else {
        lemma_split_joined(s, t.drop_last());
        assert(all.drop_last() =~= s + "/"@ + t.drop_last());
        assert(all.last() == t.last());
        assert(t.drop_last().push(t.last()) =~= t);
        let init = text::split(s, '/').push(t.drop_last());
        assert(init.drop_last().push(init.last().push(t.last())) =~= text::split(s, '/').push(t));
    }
}

/// A path whose segments a target can write: names that are not empty and do
/// not read as indexes, and indexes that fit a machine word.
pub open spec fn writable(path: Seq<SegmentView>) -> bool {
    forall|i: int|
        0 <= i < path.len() ==> match #[trigger] path[i] {
            SegmentView::Field { name } => name.len() > 0 && index_value(name) is None,
            SegmentView::Index { index } => index <= usize::MAX,
        }
}

pub open spec fn segment_name(segment: SegmentView) -> Seq<char> {
    match segment {
        SegmentView::Field { name } => name,
        SegmentView::Index { index } => text::decimal(index),
    }
}

proof fn lemma_segment_text(segment: SegmentView)
    requires
        writable(seq![segment]),
    ensures
        segment_text(segment).len() > 0,
        lacks(segment_text(segment), '/'),
        unescaped(segment_text(segment)) == Some(segment_name(segment)),
        segment_name(segment).len() > 0,
        segment_of(segment_name(segment)) == segment,
{
    assert(seq![segment][0] == segment);
    match segment {
        SegmentView::Field { name } => {
            lemma_escaped_lacks_slash(name);
            law_escape_round_trip(name);
        },
        SegmentView::Index { index } => {
            let s = text::decimal(index);
            lemma_decimal(index);
            assert(lacks(s, '/') && lacks(s, '~')) by {
                assert forall|i: int| 0 <= i < s.len() implies s[i] != '/' && s[i] != '~' by {
                    assert(text::ascii_digit(s[i]));
                }
            }
            assert(text::ascii_digit(s[0]));
            lemma_plain(s);
        },
    }
}

proof fn lemma_pointer_pieces(path: Seq<SegmentView>, target: Seq<char>)
    requires
        path.len() > 0,
        writable(path),
    ensures
        pointer(path).len() > 1,
        pointer(path)[0] == '/',
        ({
            let pieces = text::split(pointer(path).skip(1), '/');
            names_of(pieces, true, target) == Ok::<Seq<Seq<char>>, BindErrView>(
                path.map_values(|segment: SegmentView| segment_name(segment)),
            )
        }),
    decreases path.len(),
{
    reveal_strlit("/");
    let init = path.drop_last();
    let last = path.last();
    let names = path.map_values(|segment: SegmentView| segment_name(segment));
    assert(writable(seq![last])) by {
        assert(path[path.len() - 1] == last);
    }
    lemma_segment_text(last);
    let t = segment_text(last);
    if init.len() == 0 {
        assert(pointer(init) =~= Seq::empty());
        assert(pointer(path).skip(1) =~= t);
        lemma_split_plain(t, '/');
        let pieces = seq![t];
        assert(pieces.drop_last() =~= Seq::empty());
        assert(names_of(pieces.drop_last(), true, target) == Ok::<Seq<Seq<char>>, BindErrView>(
            Seq::empty(),
        ));
        assert(Seq::<Seq<char>>::empty().push(segment_name(last)) =~= names);
    } else {
        assert(writable(init)) by {
            assert forall|i: int| 0 <= i < init.len() implies match #[trigger] init[i] {
                SegmentView::Field { name } => name.len() > 0 && index_value(name) is None,
                SegmentView::Index { index } => index <= usize::MAX,
            } by {
                assert(path[i] == init[i]);
            }
        }
        lemma_pointer_pieces(init, target);
        let before = pointer(init).skip(1);
        assert(pointer(path).skip(1) =~= before + "/"@ + t);
        lemma_split_joined(before, t);
        let pieces = text::split(before, '/').push(t);
        assert(pieces.drop_last() =~= text::split(before, '/'));
        assert(init.map_values(|segment: SegmentView| segment_name(segment)).push(
            segment_name(last),
        ) =~= names);
    }
}

/// Reading a target that a path was written as gives the path back.
pub proof fn law_target_round_trip(path: Seq<SegmentView>, limits: BindingLimits)
    requires
        0 < path.len() <= limits.max_path_segments,
        writable(path),
    ensures
        target_path(pointer(path), limits) == Ok::<Seq<SegmentView>, BindErrView>(path),
{
    let target = pointer(path);
    lemma_pointer_pieces(path, target);
    reveal_strlit("/");
    assert(!text::blank(target)) by {
        reveal(text::white_space);
        assert(!text::white_space(target[0]));
    }
    let names = path.map_values(|segment: SegmentView| segment_name(segment));
    let read = names.map_values(|name: Seq<char>| segment_of(name));
    assert forall|i: int| 0 <= i < path.len() implies read[i] == path[i] by {
        assert(writable(seq![path[i]]));
        lemma_segment_text(path[i]);
    }
    assert(read =~= path);
}

proof fn lemma_stored_found<T>(pairs: Seq<(Seq<char>, T)>, key: Seq<char>, value: T)
    ensures
        text_map::lookup(text_map::stored(pairs, key, value), key) == Some(value),
    decreases pairs.len(),
{
    let out = text_map::stored(pairs, key, value);
    if pairs.len() > 0 && pairs[0].0 != key && !text::before(key, pairs[0].0) {
        lemma_stored_found(pairs.skip(1), key, value);
        assert(out.skip(1) =~= text_map::stored(pairs.skip(1), key, value));
    }
}

/// A read at the path of a write finds what was written.
pub proof fn law_read_after_write(root: ValueView, path: Seq<SegmentView>, i: nat, value: ValueView)
    requires
        written(root, path, i, value) is Ok,
    ensures
        store::walk(written(root, path, i, value)->Ok_0, path, i) == Ok::<ValueView, nat>(value),
    decreases path.len() - i,
{
    let out = written(root, path, i, value)->Ok_0;
    let next = match path[i as int] {
        SegmentView::Field { name } => {
            let members = root->Object_0;
            let put = if i + 1 == path.len() {
                value
            } else {
                let child = child_of(members, name, path[i as int + 1]);
                law_read_after_write(child, path, i + 1, value);
                written(child, path, i + 1, value)->Ok_0
            };
            lemma_stored_found(members, name, put);
            put
        },
        SegmentView::Index { index } => {
            let items = root->Array_0;
            if i + 1 == path.len() {
                value
            } else {
                law_read_after_write(items[index as int], path, i + 1, value);
                written(items[index as int], path, i + 1, value)->Ok_0
            }
        },
    };
    if i + 1 == path.len() {
        assert(store::walk(next, path, i + 1) == Ok::<ValueView, nat>(value));
    }
}

proof fn lemma_stored_others<T>(
    pairs: Seq<(Seq<char>, T)>,
    key: Seq<char>,
    value: T,
    other: Seq<char>,
)
    requires
        other != key,
    ensures
        text_map::lookup(text_map::stored(pairs, key, value), other) == text_map::lookup(
            pairs,
            other,
        ),
    decreases pairs.len(),
{
    let out = text_map::stored(pairs, key, value);
    if pairs.len() == 0 {
        assert(out.skip(1) =~= pairs);
    } else if pairs[0].0 == key {
        assert(out.skip(1) =~= pairs.skip(1));
    } else if text::before(key, pairs[0].0) {
        assert(out.skip(1) =~= pairs);
    } else {
        lemma_stored_others(pairs.skip(1), key, value, other);
        assert(out.skip(1) =~= text_map::stored(pairs.skip(1), key, value));
    }
}

/// A write leaves alone what stands beside its path: a read that went along the
/// path up to its `j`-th segment and elsewhere from there still finds what it
/// found.
pub proof fn law_write_keeps_the_rest(
    root: ValueView,
    path: Seq<SegmentView>,
    beside: Seq<SegmentView>,
    i: nat,
    j: nat,
    value: ValueView,
)
    requires
        i <= j < path.len(),
        j < beside.len(),
        forall|k: int| i <= k < j ==> path[k] == #[trigger] beside[k],
        path[j as int] != beside[j as int],
        written(root, path, i, value) is Ok,
        store::walk(root, beside, i) is Ok,
    ensures
        store::walk(written(root, path, i, value)->Ok_0, beside, i) == store::walk(
            root,
            beside,
            i,
        ),
    decreases path.len() - i,
{
    match path[i as int] {
        SegmentView::Field { name } => {
            let members = root->Object_0;
            let put = if i + 1 == path.len() {
                value
            } else {
                written(child_of(members, name, path[i as int + 1]), path, i + 1, value)->Ok_0
            };
            if i == j {
                match beside[i as int] {
                    SegmentView::Field { name: other } => {
                        lemma_stored_others(members, name, put, other);
                    },
                    _ => {},
                }
            } else {
                assert(beside[i as int] == path[i as int]);
                lemma_stored_found(members, name, put);
                let child = text_map::lookup(members, name)->Some_0;
                assert(store::walk(child, beside, i + 1) is Ok);
                assert(!(child is Null));
                law_write_keeps_the_rest(child, path, beside, i + 1, j, value);
            }
        },
        SegmentView::Index { index } => {
            let items = root->Array_0;
            if i < j {
                assert(beside[i as int] == path[i as int]);
                law_write_keeps_the_rest(items[index as int], path, beside, i + 1, j, value);
            }
        },
    }
}

proof fn lemma_dotted_names(pieces: Seq<Seq<char>>, target: Seq<char>)
    requires
        forall|i: int| 0 <= i < pieces.len() ==> (#[trigger] pieces[i]).len() > 0,
    ensures
        names_of(pieces, false, target) == Ok::<Seq<Seq<char>>, BindErrView>(pieces),
    decreases pieces.len(),
{
    if pieces.len() > 0 {
        lemma_dotted_names(pieces.drop_last(), target);
        assert(pieces.drop_last().push(pieces.last()) =~= pieces);
    } else {
        assert(pieces =~= Seq::empty());
    }
}

/// A target in dotted form is the path of the names between its dots: a name that can be read as
/// a number is a position, and any other a field.
pub proof fn law_dotted_target(names: Seq<Seq<char>>, limits: BindingLimits, k: int)
    requires
        names.len() > 0,
        names.len() <= limits.max_path_segments,
        forall|i: int|
            0 <= i < names.len() ==> (#[trigger] names[i]).len() > 0 && !names[i].contains('.'),
        !text::blank(text::joined_by(names, '.')),
        text::joined_by(names, '.')[0] != '/',
    ensures
        target_path(text::joined_by(names, '.'), limits) matches Ok(path) && path.len()
            == names.len() && (0 <= k < names.len() ==> match path[k] {
            SegmentView::Field { name } => name == names[k] && index_value(name) is None,
            SegmentView::Index { index } => index_value(names[k]) == Some(index),
        }),
{
    let target = text::joined_by(names, '.');
    text::law_split_of_joined(names, '.');
    lemma_dotted_names(names, target);
    assert(target.len() > 0) by {
        if target.len() == 0 {
            assert(text::blank(target));
        }
    }
    reveal_strlit("/");
    assert(target != "/"@);
}

} // verus!
