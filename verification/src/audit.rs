//! The audit log: one line for each event.
use vstd::prelude::*;

use crate::json::{
    escaped_char, escaped_text, json_string_text, member_views, members_text, value_text, Value,
    ValueView,
};
use crate::schema::{clone_optional, optional_text};
use crate::text;
use crate::text::{chars_of, is_blank, owned, piece, split_text, text_views};
use crate::text_map::TextMap;

verus! {

#[derive(Debug, PartialEq, Eq)]
pub struct AuditEntry {
    pub timestamp: String,
    pub action: String,
    pub outcome: String,
    pub detail: Option<String>,
}

pub struct AuditView {
    pub timestamp: Seq<char>,
    pub action: Seq<char>,
    pub outcome: Seq<char>,
    pub detail: Option<Seq<char>>,
}

impl AuditEntry {
    pub open spec fn view(&self) -> AuditView {
        AuditView {
            timestamp: self.timestamp@,
            action: self.action@,
            outcome: self.outcome@,
            detail: optional_text(self.detail),
        }
    }

    pub fn new(timestamp: &str, action: &str, outcome: &str, detail: &Option<String>) -> (res: Self)
        ensures
            res@ == (AuditView {
                timestamp: timestamp@,
                action: action@,
                outcome: outcome@,
                detail: optional_text(*detail),
            }),
    {
        AuditEntry {
            timestamp: owned(timestamp),
            action: owned(action),
            outcome: owned(outcome),
            detail: clone_optional(detail),
        }
    }

    /// The line of the log that records an event.
    pub fn line(&self) -> (res: String)
        ensures
            res@ == self@.document().text(),
    {
        let detail = match &self.detail {
            Some(detail) => Value::String(detail.clone()),
            None => Value::Null,
        };
        let mut entries: Vec<(String, Value)> = Vec::new();
        entries.push((owned("timestamp"), Value::String(self.timestamp.clone())));
        entries.push((owned("action"), Value::String(self.action.clone())));
        entries.push((owned("outcome"), Value::String(self.outcome.clone())));
        entries.push((owned("detail"), detail));
        assert(member_views(entries@) =~= self@.members());
        value_text(&Value::Object(TextMap { entries }))
    }
}

impl AuditView {
    pub open spec fn members(self) -> Seq<(Seq<char>, ValueView)> {
        seq![
            ("timestamp"@, ValueView::String(self.timestamp)),
            ("action"@, ValueView::String(self.action)),
            ("outcome"@, ValueView::String(self.outcome)),
            (
                "detail"@,
                match self.detail {
                    Some(detail) => ValueView::String(detail),
                    None => ValueView::Null,
                },
            ),
        ]
    }

    pub open spec fn document(self) -> ValueView {
        ValueView::Object(self.members())
    }
}

/// Where the log is: where it was asked for, where the environment says, or in
/// the data directory of the user.
pub open spec fn log_path<P>(
    explicit: Option<P>,
    environment: Option<P>,
    standard: Option<P>,
) -> Option<P> {
    if explicit is Some {
        explicit
    } else if environment is Some {
        environment
    } else {
        standard
    }
}

pub fn resolve_log_path<P>(
    explicit: Option<P>,
    environment: Option<P>,
    standard: Option<P>,
) -> (res: Option<P>)
    ensures
        res == log_path(explicit, environment, standard),
{
    if explicit.is_some() {
        explicit
    } else if environment.is_some() {
        environment
    } else {
        standard
    }
}

/// A line without the carriage return at its end, where a line feed follows.
pub open spec fn bare_line(lines: Seq<Seq<char>>, i: int) -> Seq<char> {
    if i + 1 < lines.len() && lines[i].len() > 0 && lines[i].last() == '\r' {
        lines[i].drop_last()
    } else {
        lines[i]
    }
}

/// The lines from the `i`-th on that are not blank.
pub open spec fn shown_lines(lines: Seq<Seq<char>>, i: nat) -> Seq<Seq<char>>
    decreases lines.len() - i,
{
    if i >= lines.len() {
        Seq::empty()
    } else if text::blank(bare_line(lines, i as int)) {
        shown_lines(lines, i + 1)
    } else {
        seq![bare_line(lines, i as int)] + shown_lines(lines, i + 1)
    }
}

/// The lines of a log that hold events.
pub open spec fn events_in(content: Seq<char>) -> Seq<Seq<char>> {
    shown_lines(text::split(content, '\n'), 0)
}

/// The lines of a log that hold events.
pub fn event_lines(content: &str) -> (res: Vec<String>)
    ensures
        text_views(res@) == events_in(content@),
{
    let lines = split_text(content, '\n');
    let ghost views = text_views(lines@);
    let count: usize = lines.len();
    let mut res: Vec<String> = Vec::new();
    let mut i: usize = 0;
    assert(shown_lines(views, 0) =~= text_views(res@) + shown_lines(views, 0));
    while i < count
        invariant
            count == lines@.len(),
            i <= count,
            views == text_views(lines@),
            shown_lines(views, 0) == text_views(res@) + shown_lines(views, i as nat),
        decreases count - i,
    {
        assert(views[i as int] == lines@[i as int]@);
        let ghost was = text_views(res@);
        let ghost rest = shown_lines(views, (i + 1) as nat);
        let chars = chars_of(&lines[i]);
        let n: usize = chars.len();
        let line = if i + 1 < count && n > 0 && chars[n - 1] == '\r' {
            let bare = piece(&chars, 0, n - 1);
            assert(bare@ =~= lines@[i as int]@.drop_last());
            bare
        } else {
            lines[i].clone()
        };
        assert(line@ == bare_line(views, i as int));
        if !is_blank(&line) {
            let ghost added = line@;
            res.push(line);
            assert(text_views(res@) =~= was.push(added));
            assert(was + (seq![added] + rest) =~= was.push(added) + rest);
        }
        i = i + 1;
    }
    assert(text_views(res@) + Seq::<Seq<char>>::empty() =~= text_views(res@));
    res
}

// ---------------------------------------------------------------------------
// Laws
// ---------------------------------------------------------------------------
/// A text with no line feed in it.
pub open spec fn one_line(s: Seq<char>) -> bool {
    forall|i: int| 0 <= i < s.len() ==> #[trigger] s[i] != '\n'
}

proof fn lemma_join_lines(a: Seq<char>, b: Seq<char>)
    requires
        one_line(a),
        one_line(b),
    ensures
        one_line(a + b),
{
}

proof fn lemma_escaped_line(s: Seq<char>)
    ensures
        one_line(escaped_text(s)),
    decreases s.len(),
{
    if s.len() > 0 {
        lemma_escaped_line(s.drop_last());
        reveal_strlit("0123456789abcdef");
        let c = s.last();
        let digits = "0123456789abcdef"@;
        assert(digits.len() == 16);
        assert(one_line(digits));
        if (c as u32) < 0x20 {
            let n = (c as u32) as int;
            assert(0 <= n / 16 < 16 && 0 <= n % 16 < 16);
            assert(digits[n / 16] != '\n' && digits[n % 16] != '\n');
        }
        assert(one_line(escaped_char(c)));
        lemma_join_lines(escaped_text(s.drop_last()), escaped_char(s.last()));
    }
}

proof fn lemma_string_line(s: Seq<char>)
    ensures
        one_line(json_string_text(s)),
{
    reveal(json_string_text);
    reveal_strlit("\"");
    lemma_escaped_line(s);
    lemma_join_lines("\""@, escaped_text(s));
    lemma_join_lines("\""@ + escaped_text(s), "\""@);
}

proof fn lemma_member_line(name: Seq<char>, value: ValueView)
    requires
        value is String || value is Null,
    ensures
        one_line(json_string_text(name) + ":"@ + value.text()),
{
    reveal_strlit(":");
    reveal_strlit("null");
    lemma_string_line(name);
    match value {
        ValueView::String(s) => lemma_string_line(s),
        _ => {},
    }
    lemma_join_lines(json_string_text(name), ":"@);
    lemma_join_lines(json_string_text(name) + ":"@, value.text());
}

proof fn lemma_members_line(members: Seq<(Seq<char>, ValueView)>)
    requires
        forall|i: int|
            0 <= i < members.len() ==> (#[trigger] members[i]).1 is String || members[i].1 is Null,
    ensures
        one_line(members_text(members)),
    decreases members.len(),
{
    if members.len() == 1 {
        lemma_member_line(members[0].0, members[0].1);
    } else if members.len() > 1 {
        let (name, value) = members.last();
        let before = members_text(members.drop_last());
        lemma_members_line(members.drop_last());
        lemma_member_line(name, value);
        reveal_strlit(",");
        lemma_join_lines(before, ","@);
        lemma_join_lines(before + ","@, json_string_text(name) + ":"@ + value.text());
        assert(members_text(members) =~= before + ","@ + (json_string_text(name) + ":"@
            + value.text()));
    }
}

/// Text that holds no line feed goes to the last line.
proof fn lemma_split_more(s: Seq<char>, t: Seq<char>)
    requires
        one_line(t),
    ensures
        text::split(s + t, '\n') == text::split(s, '\n').drop_last().push(
            text::split(s, '\n').last() + t,
        ),
    decreases t.len(),
{
    text::lemma_split_len(s, '\n');
    let lines = text::split(s, '\n');
    if t.len() == 0 {
        assert(s + t =~= s);
        assert(lines.last() + t =~= lines.last());
        assert(lines.drop_last().push(lines.last()) =~= lines);
    } else {
        let less = t.drop_last();
        assert(one_line(less));
        lemma_split_more(s, less);
        assert((s + t).drop_last() =~= s + less);
        assert((lines.last() + less).push(t.last()) =~= lines.last() + t);
        let init = text::split(s + less, '\n');
        assert(init.drop_last() =~= lines.drop_last());
    }
}

proof fn lemma_shown_after(done: Seq<Seq<char>>, line: Seq<char>, i: nat)
    requires
        i <= done.len(),
        !text::blank(line),
        line.last() != '\r',
    ensures
        shown_lines(done.push(line).push(Seq::empty()), i) == shown_lines(
            done.push(Seq::empty()),
            i,
        ).push(line),
    decreases done.len() - i,
{
    let before = done.push(Seq::empty());
    let after = done.push(line).push(Seq::empty());
    if i < done.len() {
        lemma_shown_after(done, line, i + 1);
        assert(bare_line(before, i as int) == bare_line(after, i as int));
        let first = bare_line(before, i as int);
        assert((seq![first] + shown_lines(before, i + 1)).push(line) =~= seq![first]
            + shown_lines(before, i + 1).push(line));
    } else {
        assert(shown_lines(before, i + 1) =~= Seq::empty());
        assert(shown_lines(before, i) =~= Seq::empty());
        assert(shown_lines(after, i + 2) =~= Seq::empty());
        assert(shown_lines(after, i + 1) =~= Seq::empty());
        assert(bare_line(after, i as int) == line);
        assert(shown_lines(after, i) =~= seq![line]);
    }
}

/// An event that is appended to a log is read back after all the events that
/// the log held before, each as it was.
pub proof fn law_appended_event_is_read_back(content: Seq<char>, entry: AuditView)
    requires
        content.len() == 0 || content.last() == '\n',
    ensures
        events_in(content + entry.document().text() + "\n"@) == events_in(content).push(
            entry.document().text(),
        ),
{
    let line = entry.document().text();
    let members = members_text(entry.members());
    reveal_strlit("{");
    reveal_strlit("}");
    reveal_strlit("\n");
    lemma_members_line(entry.members());
    lemma_join_lines("{"@, members);
    lemma_join_lines("{"@ + members, "}"@);
    assert(line == "{"@ + members + "}"@);
    assert(line[0] == '{');
    assert(line.last() == '}');
    assert(!text::white_space(line[0])) by {
        reveal(text::white_space);
    }
    let lines = text::split(content, '\n');
    text::lemma_split_len(content, '\n');
    if content.len() > 0 {
        text::lemma_split_len(content.drop_last(), '\n');
    }
    assert(lines.last() =~= Seq::empty());
    lemma_split_more(content, line);
    assert(lines.last() + line =~= line);
    let done = lines.drop_last();
    let whole = content + line + "\n"@;
    assert(whole.drop_last() =~= content + line);
    assert(text::split(whole, '\n') == done.push(line).push(Seq::empty()));
    assert(done.push(Seq::empty()) =~= lines);
    lemma_shown_after(done, line, 0);
}

/// An event is written with all it has: when, what, with which outcome, and the detail, where
/// there is one.
pub proof fn law_event_is_written_whole(entry: AuditView)
    ensures
        entry.document().member("timestamp"@) == Some(ValueView::String(entry.timestamp)),
        entry.document().member("action"@) == Some(ValueView::String(entry.action)),
        entry.document().member("outcome"@) == Some(ValueView::String(entry.outcome)),
        entry.detail matches Some(detail) ==> entry.document().member("detail"@) == Some(
            ValueView::String(detail),
        ),
        entry.detail is None ==> entry.document().member("detail"@) == Some(ValueView::Null),
{
    reveal_strlit("timestamp");
    reveal_strlit("action");
    reveal_strlit("outcome");
    reveal_strlit("detail");
    let members = entry.members();
    assert("timestamp"@.len() == 9 && "action"@.len() == 6 && "outcome"@.len() == 7
        && "detail"@.len() == 6);
    assert("action"@[0] == 'a' && "detail"@[0] == 'd');
    crate::text_map::lemma_index_of(members, "timestamp"@, 0);
    crate::text_map::lemma_index_of(members, "action"@, 1);
    crate::text_map::lemma_index_of(members, "outcome"@, 2);
    crate::text_map::lemma_index_of(members, "detail"@, 3);
}

/// The log is where it was asked for; if nothing was asked, where the environment says; and in
/// its usual place otherwise.
pub proof fn law_log_place<P>(explicit: Option<P>, environment: Option<P>, standard: Option<P>)
    ensures
        explicit is Some ==> log_path(explicit, environment, standard) == explicit,
        explicit is None && environment is Some ==> log_path(explicit, environment, standard)
            == environment,
        explicit is None && environment is None ==> log_path(explicit, environment, standard)
            == standard,
{
}

} // verus!
