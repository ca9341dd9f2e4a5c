//! Which texts are values of a semantic format.
use vstd::prelude::*;

use crate::schema::SemanticFormat;
use crate::text;
use crate::text::{
    ascii_alphanumeric, ascii_digit, chars_of, contains_char, contains_text, find, find_from,
    is_alphanumeric, is_ascii_alphanumeric, is_ascii_digit, is_blank, is_control,
    is_white_space, piece, same_text, split, split_text, text_len, text_views,
    unicode_alphanumeric, white_space,
};

verus! {

pub open spec fn hex_digit(c: char) -> bool {
    ascii_digit(c) || 'a' <= c <= 'f' || 'A' <= c <= 'F'
}

pub fn is_hex_digit(c: char) -> (res: bool)
    ensures
        res == hex_digit(c),
{
    is_ascii_digit(c) || ('a' <= c && c <= 'f') || ('A' <= c && c <= 'F')
}

/// A scheme of ASCII letters, digits, `+`, `-` and `.`, then `://`, then
/// something, and no white space anywhere.
pub open spec fn url(s: Seq<char>) -> bool {
    match find(s, "://"@, 0) {
        None => false,
        Some(at) => {
            &&& at > 0
            &&& forall|i: int| 0 <= i < at ==> scheme_char(#[trigger] s[i])
            &&& at + 3 < s.len()
            &&& forall|i: int| 0 <= i < s.len() ==> !white_space(#[trigger] s[i])
        },
    }
}

pub open spec fn scheme_char(c: char) -> bool {
    ascii_alphanumeric(c) || c == '+' || c == '-' || c == '.'
}

pub fn valid_url(value: &str) -> (res: bool)
    ensures
        res == url(value@),
{
    let chars = chars_of(value);
    let n: usize = chars.len();
    proof {
        reveal_strlit("://");
    }
    let at: usize = match find_from(&chars, "://", 0) {
        Some(at) => at,
        None => {
            return false;
        },
    };
    if at == 0 || at + 3 == n {
        return false;
    }
    let mut i: usize = 0;
    while i < chars.len()
        invariant
            chars@ == value@,
            i <= chars@.len(),
            0 < at < chars@.len(),
            find(value@, "://"@, 0) == Some(at as nat),
            forall|j: int| 0 <= j < i && j < at ==> scheme_char(#[trigger] value@[j]),
            forall|j: int| 0 <= j < i ==> !white_space(#[trigger] value@[j]),
        decreases chars@.len() - i,
    {
        let c = chars[i];
        assert(c == value@[i as int]);
        if i < at && !(is_ascii_alphanumeric(c) || c == '+' || c == '-' || c == '.') {
            return false;
        }
        if is_white_space(c) {
            return false;
        }
        i = i + 1;
    }
    true
}

/// A URL, or `user@host:path`.
pub open spec fn git_url(s: Seq<char>) -> bool {
    url(s) || match find(s, ":"@, 0) {
        None => false,
        Some(at) => s.take(at as int).contains('@') && at + 1 < s.len(),
    }
}

pub fn valid_git_url(value: &str) -> (res: bool)
    ensures
        res == git_url(value@),
{
    if valid_url(value) {
        return true;
    }
    let chars = chars_of(value);
    let n: usize = chars.len();
    proof {
        reveal_strlit(":");
    }
    match find_from(&chars, ":", 0) {
        Some(at) => {
            let host = piece(&chars, 0, at);
            assert(host@ =~= value@.take(at as int));
            contains_char(&host, '@') && at + 1 < n
        },
        None => false,
    }
}

/// Dot-separated labels of at most 63 ASCII letters, digits and inner hyphens,
/// at most 253 in all.
pub open spec fn hostname(s: Seq<char>) -> bool {
    &&& s.len() > 0
    &&& text::byte_len(s) <= 253
    &&& forall|i: int| 0 <= i < split(s, '.').len() ==> host_label(#[trigger] split(s, '.')[i])
}

pub open spec fn host_label(s: Seq<char>) -> bool {
    &&& s.len() > 0
    &&& text::byte_len(s) <= 63
    &&& s[0] != '-'
    &&& s.last() != '-'
    &&& forall|i: int| 0 <= i < s.len() ==> (ascii_alphanumeric(#[trigger] s[i]) || s[i] == '-')
}

fn valid_label(label: &str) -> (res: bool)
    ensures
        res == host_label(label@),
{
    let chars = chars_of(label);
    if chars.len() == 0 || text_len(label) > 63 || chars[0] == '-' || chars[chars.len() - 1]
        == '-' {
        return false;
    }
    let mut i: usize = 0;
    while i < chars.len()
        invariant
            chars@ == label@,
            i <= chars@.len(),
            forall|j: int|
                0 <= j < i ==> (ascii_alphanumeric(#[trigger] label@[j]) || label@[j] == '-'),
        decreases chars@.len() - i,
    {
        assert(chars@[i as int] == label@[i as int]);
        if !is_ascii_alphanumeric(chars[i]) && chars[i] != '-' {
            return false;
        }
        i = i + 1;
    }
    true
}

pub fn valid_hostname(value: &str) -> (res: bool)
    ensures
        res == hostname(value@),
{
    let chars = chars_of(value);
    if chars.len() == 0 || text_len(value) > 253 {
        return false;
    }
    let labels = split_text(value, '.');
    let mut i: usize = 0;
    while i < labels.len()
        invariant
            text_views(labels@) == split(value@, '.'),
            i <= labels@.len(),
            forall|j: int| 0 <= j < i ==> host_label(#[trigger] split(value@, '.')[j]),
        decreases labels@.len() - i,
    {
        assert(text_views(labels@)[i as int] == labels@[i as int]@);
        if !valid_label(&labels[i]) {
            assert(!host_label(split(value@, '.')[i as int]));
            return false;
        }
        i = i + 1;
    }
    true
}

/// Thirty-six characters: hexadecimal digits, with hyphens after the eighth,
/// twelfth, sixteenth and twentieth digit.
pub open spec fn uuid(s: Seq<char>) -> bool {
    s.len() == 36 && forall|i: int|
        0 <= i < 36 ==> if i == 8 || i == 13 || i == 18 || i == 23 {
            #[trigger] s[i] == '-'
        } else {
            hex_digit(s[i])
        }
}

pub fn valid_uuid(value: &str) -> (res: bool)
    ensures
        res == uuid(value@),
{
    let chars = chars_of(value);
    if chars.len() != 36 {
        return false;
    }
    let mut i: usize = 0;
    while i < 36
        invariant
            chars@ == value@,
            chars@.len() == 36,
            i <= 36,
            forall|j: int|
                0 <= j < i ==> if j == 8 || j == 13 || j == 18 || j == 23 {
                    #[trigger] value@[j] == '-'
                } else {
                    hex_digit(value@[j])
                },
        decreases 36 - i,
    {
        let c = chars[i];
        assert(c == value@[i as int]);
        let fits = if i == 8 || i == 13 || i == 18 || i == 23 {
            c == '-'
        } else {
            is_hex_digit(c)
        };
        if !fits {
            return false;
        }
        i = i + 1;
    }
    true
}

/// A name that git takes for a reference.
pub open spec fn git_ref(s: Seq<char>) -> bool {
    &&& s.len() > 0
    &&& s[0] != '.'
    &&& s.last() != '.'
    &&& s.last() != '/'
    &&& !text::contains(s, ".."@)
    &&& !text::contains(s, "@{"@)
    &&& forall|i: int| 0 <= i < s.len() ==> !text::control(#[trigger] s[i]) && !white_space(s[i])
}

pub fn valid_git_ref(value: &str) -> (res: bool)
    ensures
        res == git_ref(value@),
{
    let chars = chars_of(value);
    if chars.len() == 0 || chars[0] == '.' {
        return false;
    }
    let last = chars[chars.len() - 1];
    if last == '.' || last == '/' || contains_text(value, "..") || contains_text(value, "@{") {
        return false;
    }
    let mut i: usize = 0;
    while i < chars.len()
        invariant
            chars@ == value@,
            i <= chars@.len(),
            forall|j: int|
                0 <= j < i ==> !text::control(#[trigger] value@[j]) && !white_space(value@[j]),
        decreases chars@.len() - i,
    {
        assert(chars@[i as int] == value@[i as int]);
        if is_control(chars[i]) || is_white_space(chars[i]) {
            return false;
        }
        i = i + 1;
    }
    true
}

pub open spec fn name_char(c: char) -> bool {
    unicode_alphanumeric(c) || c == '-' || c == '_' || c == '.'
}

/// Letters and numbers of any script, hyphens, underscores and dots.
pub open spec fn identifier(s: Seq<char>) -> bool {
    s.len() > 0 && forall|i: int| 0 <= i < s.len() ==> name_char(#[trigger] s[i])
}

pub fn valid_identifier(value: &str) -> (res: bool)
    ensures
        res == identifier(value@),
{
    let chars = chars_of(value);
    if chars.len() == 0 {
        return false;
    }
    let mut i: usize = 0;
    while i < chars.len()
        invariant
            chars@ == value@,
            i <= chars@.len(),
            forall|j: int| 0 <= j < i ==> name_char(#[trigger] value@[j]),
        decreases chars@.len() - i,
    {
        let c = chars[i];
        assert(c == value@[i as int]);
        if !(is_alphanumeric(c) || c == '-' || c == '_' || c == '.') {
            return false;
        }
        i = i + 1;
    }
    true
}

/// Identifiers separated by slashes, none of them `.` or `..`.
pub open spec fn repository_name(s: Seq<char>) -> bool {
    s.len() > 0 && forall|i: int|
        0 <= i < split(s, '/').len() ==> repository_segment(#[trigger] split(s, '/')[i])
}

pub open spec fn repository_segment(s: Seq<char>) -> bool {
    identifier(s) && s != "."@ && s != ".."@
}

pub fn valid_repository_name(value: &str) -> (res: bool)
    ensures
        res == repository_name(value@),
{
    if value.is_empty() {
        return false;
    }
    let segments = split_text(value, '/');
    let mut i: usize = 0;
    while i < segments.len()
        invariant
            text_views(segments@) == split(value@, '/'),
            i <= segments@.len(),
            forall|j: int| 0 <= j < i ==> repository_segment(#[trigger] split(value@, '/')[j]),
        decreases segments@.len() - i,
    {
        assert(text_views(segments@)[i as int] == segments@[i as int]@);
        let segment = &segments[i];
        if !valid_identifier(segment) || same_text(segment, ".") || same_text(segment, "..") {
            assert(!repository_segment(split(value@, '/')[i as int]));
            return false;
        }
        i = i + 1;
    }
    true
}

/// Something, one `@`, and something with a dot in it.
pub open spec fn email(s: Seq<char>) -> bool {
    let parts = split(s, '@');
    parts.len() == 2 && parts[0].len() > 0 && parts[1].contains('.')
}

fn valid_email(value: &str) -> (res: bool)
    ensures
        res == email(value@),
{
    let parts = split_text(value, '@');
    proof {
        assert(text_views(parts@).len() == parts@.len());
    }
    if parts.len() != 2 {
        return false;
    }
    proof {
        assert(text_views(parts@)[0] == parts@[0]@);
        assert(text_views(parts@)[1] == parts@[1]@);
    }
    !parts[0].as_str().is_empty() && contains_char(&parts[1], '.')
}

// ---------------------------------------------------------------------------
// IP addresses
// ---------------------------------------------------------------------------
/// The number that decimal digits write.
pub open spec fn digits_value(s: Seq<char>) -> nat
    decreases s.len(),
{
    if s.len() == 0 {
        0
    } else {
        10 * digits_value(s.drop_last()) + ((s.last() as u32) as int - 48) as nat
    }
}

/// One to three decimal digits without a leading zero, at most 255.
pub open spec fn octet(s: Seq<char>) -> bool {
    &&& 1 <= s.len() <= 3
    &&& forall|i: int| 0 <= i < s.len() ==> ascii_digit(#[trigger] s[i])
    &&& s.len() > 1 ==> s[0] != '0'
    &&& digits_value(s) <= 255
}

fn valid_octet(part: &str) -> (res: bool)
    ensures
        res == octet(part@),
{
    let chars = chars_of(part);
    if chars.len() < 1 || chars.len() > 3 || (chars.len() > 1 && chars[0] == '0') {
        return false;
    }
    let mut value: u32 = 0;
    let mut i: usize = 0;
    while i < chars.len()
        invariant
            chars@ == part@,
            chars@.len() <= 3,
            i <= chars@.len(),
            value == digits_value(part@.take(i as int)),
            i == 0 ==> value == 0,
            i == 1 ==> value <= 9,
            i == 2 ==> value <= 99,
            i == 3 ==> value <= 999,
            forall|j: int| 0 <= j < i ==> ascii_digit(#[trigger] part@[j]),
        decreases chars@.len() - i,
    {
        let c = chars[i];
        assert(c == part@[i as int]);
        if !is_ascii_digit(c) {
            return false;
        }
        proof {
            assert(part@.take(i + 1).drop_last() =~= part@.take(i as int));
            assert(part@.take(i + 1).last() == c);
        }
        value = 10 * value + (c as u32 - 48);
        i = i + 1;
    }
    assert(part@.take(i as int) =~= part@);
    value <= 255
}

/// Four octets separated by dots.
pub open spec fn ipv4(s: Seq<char>) -> bool {
    let parts = split(s, '.');
    parts.len() == 4 && octet(parts[0]) && octet(parts[1]) && octet(parts[2]) && octet(parts[3])
}

fn valid_ipv4(value: &str) -> (res: bool)
    ensures
        res == ipv4(value@),
{
    let parts = split_text(value, '.');
    proof {
        assert(text_views(parts@).len() == parts@.len());
    }
    if parts.len() != 4 {
        return false;
    }
    proof {
        assert(text_views(parts@)[0] == parts@[0]@);
        assert(text_views(parts@)[1] == parts@[1]@);
        assert(text_views(parts@)[2] == parts@[2]@);
        assert(text_views(parts@)[3] == parts@[3]@);
    }
    valid_octet(&parts[0]) && valid_octet(&parts[1]) && valid_octet(&parts[2]) && valid_octet(
        &parts[3],
    )
}

/// One to four hexadecimal digits.
pub open spec fn ipv6_group(s: Seq<char>) -> bool {
    1 <= s.len() <= 4 && forall|i: int| 0 <= i < s.len() ==> hex_digit(#[trigger] s[i])
}

fn valid_group(part: &str) -> (res: bool)
    ensures
        res == ipv6_group(part@),
{
    let chars = chars_of(part);
    if chars.len() < 1 || chars.len() > 4 {
        return false;
    }
    let mut i: usize = 0;
    while i < chars.len()
        invariant
            chars@ == part@,
            i <= chars@.len(),
            forall|j: int| 0 <= j < i ==> hex_digit(#[trigger] part@[j]),
        decreases chars@.len() - i,
    {
        assert(chars@[i as int] == part@[i as int]);
        if !is_hex_digit(chars[i]) {
            return false;
        }
        i = i + 1;
    }
    true
}

/// How many 16-bit groups a colon-separated run writes; none if it is not a
/// run of groups. A final IPv4 address, where allowed, counts for two.
pub open spec fn group_count(s: Seq<char>, ipv4_end: bool) -> Option<nat> {
    let parts = split(s, ':');
    if s.len() == 0 {
        Some(0)
    } else if !(forall|i: int| 0 <= i < parts.len() - 1 ==> ipv6_group(#[trigger] parts[i])) {
        None
    } else if ipv6_group(parts.last()) {
        Some(parts.len())
    } else if ipv4_end && ipv4(parts.last()) {
        Some(parts.len() + 1)
    } else {
        None
    }
}

fn count_groups(value: &str, ipv4_end: bool) -> (res: Option<usize>)
    ensures
        match res {
            Some(n) => group_count(value@, ipv4_end) == Some(n as nat),
            None => group_count(value@, ipv4_end) is None || group_count(value@, ipv4_end)->0 > 8,
        },
{
    if value.is_empty() {
        return Some(0);
    }
    let parts = split_text(value, ':');
    let n: usize = parts.len();
    proof {
        assert(text_views(parts@).len() == parts@.len());
    }
    if n > 8 {
        return None;
    }
    let mut i: usize = 0;
    while i < n - 1
        invariant
            n == parts@.len(),
            n >= 1,
            text_views(parts@) == split(value@, ':'),
            i <= n - 1,
            value@.len() > 0,
            forall|j: int| 0 <= j < i ==> ipv6_group(#[trigger] split(value@, ':')[j]),
        decreases n - i,
    {
        assert(text_views(parts@)[i as int] == parts@[i as int]@);
        if !valid_group(&parts[i]) {
            assert(!ipv6_group(split(value@, ':')[i as int]));
            return None;
        }
        i = i + 1;
    }
    assert(text_views(parts@)[n - 1] == parts@[n - 1]@);
    if valid_group(&parts[n - 1]) {
        Some(n)
    } else if ipv4_end && valid_ipv4(&parts[n - 1]) {
        Some(n + 1)
    } else {
        None
    }
}

/// Eight groups; or two runs around `::`, which stands for at least one group.
/// An IPv4 address may stand for the last two groups.
pub open spec fn ipv6(s: Seq<char>) -> bool {
    match find(s, "::"@, 0) {
        None => group_count(s, true) == Some(8nat),
        Some(at) => match (
            group_count(s.take(at as int), false),
            group_count(s.skip(at as int + 2), true),
        ) {
            (Some(head), Some(tail)) => head + tail <= 7,
            _ => false,
        },
    }
}

fn valid_ipv6(value: &str) -> (res: bool)
    ensures
        res == ipv6(value@),
{
    let chars = chars_of(value);
    let n: usize = chars.len();
    proof {
        reveal_strlit("::");
    }
    match find_from(&chars, "::", 0) {
        None => match count_groups(value, true) {
            Some(n) => n == 8,
            None => false,
        },
        Some(at) => {
            let head = piece(&chars, 0, at);
            let tail = piece(&chars, at + 2, n);
            assert(head@ =~= value@.take(at as int));
            assert(tail@ =~= value@.skip(at + 2));
            match (count_groups(&head, false), count_groups(&tail, true)) {
                (Some(h), Some(t)) => h <= 7 && t <= 7 - h,
                _ => false,
            }
        },
    }
}

// ---------------------------------------------------------------------------
// Dates and the whole set
// ---------------------------------------------------------------------------
/// Whether a text is an RFC 3339 date and time.
pub uninterp spec fn rfc3339(s: Seq<char>) -> bool;

/// `chrono::DateTime::parse_from_rfc3339`: whether the text parses. Only the
/// answer is named; which texts parse is left to the crate.
#[verifier::external_body]
fn is_rfc3339(value: &str) -> (res: bool)
    ensures
        res == rfc3339(value@),
{
    chrono::DateTime::parse_from_rfc3339(value).is_ok()
}

/// A text that is not empty and has no NUL character.
pub open spec fn opaque_text(s: Seq<char>) -> bool {
    s.len() > 0 && !s.contains('\0')
}

/// Whether a text is a value of a semantic format.
pub open spec fn format_admits(s: Seq<char>, format: SemanticFormat) -> bool {
    match format {
        SemanticFormat::Path | SemanticFormat::FilePath | SemanticFormat::DirectoryPath
        | SemanticFormat::OpaqueId | SemanticFormat::PackageName => opaque_text(s),
        SemanticFormat::Url => url(s),
        SemanticFormat::GitUrl => git_url(s),
        SemanticFormat::SecretRef | SemanticFormat::Duration => !text::blank(s),
        SemanticFormat::Sha256 => s.len() == 64 && forall|i: int|
            0 <= i < s.len() ==> hex_digit(#[trigger] s[i]),
        SemanticFormat::DateTime => rfc3339(s),
        SemanticFormat::Email => email(s),
        SemanticFormat::Hostname => hostname(s),
        SemanticFormat::IpAddress => ipv4(s) || ipv6(s),
        SemanticFormat::Uuid => uuid(s),
        SemanticFormat::GitRef => git_ref(s),
        SemanticFormat::RepositoryName => repository_name(s),
        SemanticFormat::Identifier => identifier(s),
    }
}

fn valid_sha256(value: &str) -> (res: bool)
    ensures
        res == format_admits(value@, SemanticFormat::Sha256),
{
    let chars = chars_of(value);
    if chars.len() != 64 {
        return false;
    }
    let mut i: usize = 0;
    while i < chars.len()
        invariant
            chars@ == value@,
            chars@.len() == 64,
            i <= chars@.len(),
            forall|j: int| 0 <= j < i ==> hex_digit(#[trigger] value@[j]),
        decreases chars@.len() - i,
    {
        assert(chars@[i as int] == value@[i as int]);
        if !is_hex_digit(chars[i]) {
            return false;
        }
        i = i + 1;
    }
    true
}

fn string_format_holds(value: &str, format: SemanticFormat) -> (res: bool)
    ensures
        res == format_admits(value@, format),
{
    match format {
        SemanticFormat::Path | SemanticFormat::FilePath | SemanticFormat::DirectoryPath
        | SemanticFormat::OpaqueId | SemanticFormat::PackageName => !value.is_empty()
            && !contains_char(value, '\0'),
        SemanticFormat::Url => valid_url(value),
        SemanticFormat::GitUrl => valid_git_url(value),
        SemanticFormat::SecretRef | SemanticFormat::Duration => !is_blank(value),
        SemanticFormat::Sha256 => valid_sha256(value),
        SemanticFormat::DateTime => is_rfc3339(value),
        SemanticFormat::Email => valid_email(value),
        SemanticFormat::Hostname => valid_hostname(value),
        SemanticFormat::IpAddress => valid_ipv4(value) || valid_ipv6(value),
        SemanticFormat::Uuid => valid_uuid(value),
        SemanticFormat::GitRef => valid_git_ref(value),
        SemanticFormat::RepositoryName => valid_repository_name(value),
        SemanticFormat::Identifier => valid_identifier(value),
    }
}

impl SemanticFormat {
    /// The name of the format as it is shown in messages.
    pub open spec fn text(self) -> Seq<char> {
        match self {
            SemanticFormat::Path => "Path"@,
            SemanticFormat::FilePath => "FilePath"@,
            SemanticFormat::DirectoryPath => "DirectoryPath"@,
            SemanticFormat::Url => "Url"@,
            SemanticFormat::GitUrl => "GitUrl"@,
            SemanticFormat::SecretRef => "SecretRef"@,
            SemanticFormat::Sha256 => "Sha256"@,
            SemanticFormat::DateTime => "DateTime"@,
            SemanticFormat::Duration => "Duration"@,
            SemanticFormat::Email => "Email"@,
            SemanticFormat::Hostname => "Hostname"@,
            SemanticFormat::IpAddress => "IpAddress"@,
            SemanticFormat::Uuid => "Uuid"@,
            SemanticFormat::GitRef => "GitRef"@,
            SemanticFormat::RepositoryName => "RepositoryName"@,
            SemanticFormat::Identifier => "Identifier"@,
            SemanticFormat::PackageName => "PackageName"@,
            SemanticFormat::OpaqueId => "OpaqueId"@,
        }
    }

    pub fn to_text(self) -> (res: String)
        ensures
            res@ == self.text(),
    {
        match self {
            SemanticFormat::Path => text::owned("Path"),
            SemanticFormat::FilePath => text::owned("FilePath"),
            SemanticFormat::DirectoryPath => text::owned("DirectoryPath"),
            SemanticFormat::Url => text::owned("Url"),
            SemanticFormat::GitUrl => text::owned("GitUrl"),
            SemanticFormat::SecretRef => text::owned("SecretRef"),
            SemanticFormat::Sha256 => text::owned("Sha256"),
            SemanticFormat::DateTime => text::owned("DateTime"),
            SemanticFormat::Duration => text::owned("Duration"),
            SemanticFormat::Email => text::owned("Email"),
            SemanticFormat::Hostname => text::owned("Hostname"),
            SemanticFormat::IpAddress => text::owned("IpAddress"),
            SemanticFormat::Uuid => text::owned("Uuid"),
            SemanticFormat::GitRef => text::owned("GitRef"),
            SemanticFormat::RepositoryName => text::owned("RepositoryName"),
            SemanticFormat::Identifier => text::owned("Identifier"),
            SemanticFormat::PackageName => text::owned("PackageName"),
            SemanticFormat::OpaqueId => text::owned("OpaqueId"),
        }
    }
}

/// What is reported of a text that is not a value of a format.
pub open spec fn format_error(s: Seq<char>, format: SemanticFormat) -> Seq<char> {
    text::debug_text(s) + " is not a valid "@ + format.text()
}

/// Check a text against a semantic format.
pub fn validate_string_format(value: &str, format: SemanticFormat) -> (res: Result<(), String>)
    ensures
        match res {
            Ok(_) => format_admits(value@, format),
            Err(message) => !format_admits(value@, format) && message@ == format_error(
                value@,
                format,
            ),
        },
{
    if string_format_holds(value, format) {
        Ok(())
    } else {
        let mut out = text::quoted(value);
        out.append(" is not a valid ");
        out.append(&format.to_text());
        Err(out)
    }
}

// ---------------------------------------------------------------------------
// Laws
// ---------------------------------------------------------------------------
/// A path, an opaque identity and the name of a package are any text that is not empty and holds
/// no NUL; a reference to a secret and a duration are any text that is not blank.
pub proof fn law_open_formats(s: Seq<char>, format: SemanticFormat)
    ensures
        (format == SemanticFormat::Path || format == SemanticFormat::FilePath || format
            == SemanticFormat::DirectoryPath || format == SemanticFormat::OpaqueId || format
            == SemanticFormat::PackageName) ==> (format_admits(s, format) <==> s.len() > 0 && forall|
            i: int,
        | 0 <= i < s.len() ==> #[trigger] s[i] != '\0'),
        (format == SemanticFormat::SecretRef || format == SemanticFormat::Duration) ==> (
        format_admits(s, format) <==> exists|i: int|
            0 <= i < s.len() && !white_space(#[trigger] s[i])),
{
    if !s.contains('\0') {
        assert forall|i: int| 0 <= i < s.len() implies #[trigger] s[i] != '\0' by {
            if s[i] == '\0' {
                assert(s.contains(s[i]));
            }
        }
    }
}

/// A digest is sixty-four hexadecimal digits; a UUID is thirty-two of them in five groups.
pub proof fn law_digests(s: Seq<char>)
    ensures
        format_admits(s, SemanticFormat::Sha256) <==> s.len() == 64 && forall|i: int|
            0 <= i < s.len() ==> '0' <= #[trigger] s[i] <= '9' || 'a' <= s[i] <= 'f' || 'A' <= s[i]
                <= 'F',
        format_admits(s, SemanticFormat::Uuid) ==> s.len() == 36 && s[8] == '-' && s[13] == '-'
            && s[18] == '-' && s[23] == '-',
        s.len() == 36 && s[8] == '-' && s[13] == '-' && s[18] == '-' && s[23] == '-' && (forall|
            i: int,
        |
            0 <= i < 36 && i != 8 && i != 13 && i != 18 && i != 23 ==> '0' <= #[trigger] s[i] <= '9'
                || 'a' <= s[i] <= 'f' || 'A' <= s[i] <= 'F') ==> format_admits(
            s,
            SemanticFormat::Uuid,
        ),
{
}

/// A URL is a scheme of letters, digits, `+`, `-` and `.`, then `://` and something, without
/// white space; every URL is a Git URL, and so is a user, a host and a path in the short form.
pub proof fn law_urls(scheme: Seq<char>, rest: Seq<char>, s: Seq<char>)
    requires
        scheme.len() > 0,
        forall|i: int|
            0 <= i < scheme.len() ==> ascii_alphanumeric(#[trigger] scheme[i]) || scheme[i] == '+'
                || scheme[i] == '-' || scheme[i] == '.',
        rest.len() > 0,
        forall|i: int| 0 <= i < rest.len() ==> !white_space(#[trigger] rest[i]),
        forall|i: int| 0 <= i < scheme.len() ==> !white_space(#[trigger] scheme[i]),
        s == scheme + "://"@ + rest,
        !white_space(':'),
        !white_space('/'),
    ensures
        format_admits(s, SemanticFormat::Url),
        format_admits(s, SemanticFormat::GitUrl),
{
    reveal_strlit("://");
    text::lemma_find(s, "://"@, 0);
    let at = scheme.len() as int;
    assert(s.subrange(at, at + 3) =~= "://"@);
    assert(text::occurs(s, "://"@, at));
    assert forall|j: int| 0 <= j < at implies !text::occurs(s, "://"@, j) by {
        if text::occurs(s, "://"@, j) {
            assert(s.subrange(j, j + 3)[0] == ':');
            assert(s[j] == scheme[j]);
        }
    }
    assert(find(s, "://"@, 0) == Some(scheme.len()));
    assert forall|i: int| 0 <= i < s.len() implies !white_space(#[trigger] s[i]) by {
        if i < at {
            assert(s[i] == scheme[i]);
        } else if i >= at + 3 {
            assert(s[i] == rest[i - at - 3]);
        } else {
            assert(s[i] == "://"@[i - at]);
        }
    }
    assert forall|i: int| 0 <= i < at implies scheme_char(#[trigger] s[i]) by {
        assert(s[i] == scheme[i]);
    }
}

/// Nothing is a URL that has no `://`, or white space anywhere.
pub proof fn law_no_urls(s: Seq<char>)
    ensures
        format_admits(s, SemanticFormat::Url) ==> text::contains(s, "://"@) && forall|i: int|
            0 <= i < s.len() ==> !white_space(#[trigger] s[i]),
        format_admits(s, SemanticFormat::Url) ==> format_admits(s, SemanticFormat::GitUrl),
{
    text::lemma_find(s, "://"@, 0);
}

/// An address is something, one `@` and a domain with a dot in it.
pub proof fn law_addresses(s: Seq<char>)
    ensures
        format_admits(s, SemanticFormat::Email) ==> exists|name: Seq<char>, domain: Seq<char>|
            s == #[trigger] (name.push('@') + domain) && name.len() > 0 && !name.contains('@')
                && !domain.contains('@') && domain.contains('.'),
{
    if email(s) {
        let parts = split(s, '@');
        text::law_split(s, '@');
        assert(parts.drop_last() =~= seq![parts[0]]);
        reveal_with_fuel(text::joined_by, 2);
        assert(text::joined_by(parts, '@') == parts[0].push('@') + parts[1]);
    }
}

/// An identifier is letters and numbers, hyphens, underscores and dots, at least one of them; the
/// name of a repository is such identifiers between slashes, none of them `.` or `..`.
pub proof fn law_names(s: Seq<char>)
    ensures
        format_admits(s, SemanticFormat::Identifier) <==> s.len() > 0 && forall|i: int|
            0 <= i < s.len() ==> unicode_alphanumeric(#[trigger] s[i]) || s[i] == '-' || s[i] == '_'
                || s[i] == '.',
        format_admits(s, SemanticFormat::RepositoryName) <==> s.len() > 0 && forall|i: int|
            0 <= i < split(s, '/').len() ==> format_admits(
                #[trigger] split(s, '/')[i],
                SemanticFormat::Identifier,
            ) && split(s, '/')[i] != "."@ && split(s, '/')[i] != ".."@,
{
}

/// A reference of Git neither begins nor ends with a dot, does not end with a slash, and holds no
/// two dots together, no `@{`, no white space and no control character; a host is labels of
/// letters, digits and inner hyphens between dots.
pub proof fn law_references_and_hosts(s: Seq<char>)
    ensures
        format_admits(s, SemanticFormat::GitRef) <==> s.len() > 0 && s[0] != '.' && s.last() != '.'
            && s.last() != '/' && !text::contains(s, ".."@) && !text::contains(s, "@{"@) && forall|
            i: int,
        | 0 <= i < s.len() ==> !white_space(#[trigger] s[i]) && !text::control(s[i]),
        format_admits(s, SemanticFormat::Hostname) <==> s.len() > 0 && text::byte_len(s) <= 253
            && forall|i: int|
            0 <= i < split(s, '.').len() ==> {
                let label = #[trigger] split(s, '.')[i];
                &&& 0 < label.len()
                &&& text::byte_len(label) <= 63
                &&& label[0] != '-' && label.last() != '-'
                &&& forall|k: int|
                    0 <= k < label.len() ==> ascii_alphanumeric(#[trigger] label[k]) || label[k]
                        == '-'
            },
{
}

} // verus!
