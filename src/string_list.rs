use vstd::prelude::*;

verus! {

/// One entry of a configuration string list: a literal value, or (written with a
/// leading `@`) the path of a file of values.
pub enum StringListEntry {
    Literal(String),
    File(String),
}

/// A list of string values, each a literal or a file of values.
pub struct StringList {
    pub inner: Vec<StringListEntry>,
}

/// Where a value of a string list comes from.
pub enum StringListSource {
    /// A literal in the list, at this index.
    Literal { index: usize },
    /// A file named in the list at this index; the line counts from 1.
    File { index: usize, path: String, line: usize },
}

/// `entry` is what the configuration value `value` denotes.
pub open spec fn entry_of(entry: StringListEntry, value: Seq<char>) -> bool {
    if value.len() > 0 && value[0] == '@' {
        entry matches StringListEntry::File(p) && p@ == value.drop_first()
    } else {
        entry matches StringListEntry::Literal(v) && v@ == value
    }
}

impl StringList {
    /// Builds a list from configuration values: a value that starts with `@` names a
    /// file, any other is a literal.
    pub fn from(input: Vec<String>) -> (r: StringList)
        ensures
            r.inner@.len() == input@.len(),
            forall|i: int| 0 <= i < input@.len() ==> entry_of(#[trigger] r.inner@[i], input@[i]@),
    {
        let mut inner: Vec<StringListEntry> = Vec::new();
        let mut i: usize = 0;
        while i < input.len()
            invariant
                i <= input@.len(),
                inner@.len() == i,
                forall|j: int| 0 <= j < i ==> entry_of(#[trigger] inner@[j], input@[j]@),
            decreases input@.len() - i,
        {
            let value = input[i].as_str();
            let n = value.unicode_len();
            if n > 0 && value.get_char(0) == '@' {
                let path = value.substring_char(1, n);
                assert(path@ =~= value@.drop_first());
                inner.push(StringListEntry::File(path.to_owned()));
            } else {
                inner.push(StringListEntry::Literal(value.to_owned()));
            }
            i = i + 1;
        }
        StringList { inner }
    }
}

/// White space as Unicode's `White_Space` property defines it.
pub open spec fn is_white_space(c: char) -> bool {
    ('\u{9}' <= c && c <= '\u{d}') || c == ' ' || c == '\u{85}' || c == '\u{a0}' || c
        == '\u{1680}' || ('\u{2000}' <= c && c <= '\u{200a}') || c == '\u{2028}' || c
        == '\u{2029}' || c == '\u{202f}' || c == '\u{205f}' || c == '\u{3000}'
}

fn white_space(c: char) -> (r: bool)
    ensures
        r == is_white_space(c),
{
    ('\u{9}' <= c && c <= '\u{d}') || c == ' ' || c == '\u{85}' || c == '\u{a0}' || c
        == '\u{1680}' || ('\u{2000}' <= c && c <= '\u{200a}') || c == '\u{2028}' || c
        == '\u{2029}' || c == '\u{202f}' || c == '\u{205f}' || c == '\u{3000}'
}

/// The index of the first character at or after `i` that is not white space.
pub open spec fn skip_white_space(s: Seq<char>, i: int) -> int
    decreases s.len() - i,
{
    if i < 0 || i >= s.len() || !is_white_space(s[i]) {
        i
    } else {
        skip_white_space(s, i + 1)
    }
}

/// The index of the first white space character at or after `i`, or the length.
pub open spec fn skip_token(s: Seq<char>, i: int) -> int
    decreases s.len() - i,
{
    if i < 0 || i >= s.len() || is_white_space(s[i]) {
        i
    } else {
        skip_token(s, i + 1)
    }
}

/// The first white-space-delimited token of a line (empty if there is none).
pub open spec fn first_token(line: Seq<char>) -> Seq<char> {
    let start = skip_white_space(line, 0);
    line.subrange(start, skip_token(line, start))
}

/// The value a line of a list file holds: its first token, unless there is none or it
/// starts a comment (`//` or `#`).
pub open spec fn line_value(line: Seq<char>) -> Option<Seq<char>> {
    let t = first_token(line);
    if t.len() == 0 || t[0] == '#' || (t.len() >= 2 && t[0] == '/' && t[1] == '/') {
        None
    } else {
        Some(t)
    }
}

/// Reads the value of one line of a list file (the IANA TLD list and the public-suffix
/// list share this format).
pub fn parse_list_line(line: &str) -> (r: Option<String>)
    ensures
        match r {
            Some(v) => line_value(line@) == Some(v@),
            None => line_value(line@) is None,
        },
{
    let n = line.unicode_len();
    let mut start: usize = 0;
    while start < n && white_space(line.get_char(start))
        invariant
            n == line@.len(),
            start <= n,
            skip_white_space(line@, start as int) == skip_white_space(line@, 0),
        decreases n - start,
    {
        start = start + 1;
    }
    let mut end: usize = start;
    while end < n && !white_space(line.get_char(end))
        invariant
            n == line@.len(),
            start <= end <= n,
            start as int == skip_white_space(line@, 0),
            skip_token(line@, end as int) == skip_token(line@, start as int),
        decreases n - end,
    {
        end = end + 1;
    }
    let token = line.substring_char(start, end);
    assert(token@ == first_token(line@));
    let len = end - start;
    if len == 0 {
        return None;
    }
    let c0 = token.get_char(0);
    if c0 == '#' || (len >= 2 && c0 == '/' && token.get_char(1) == '/') {
        return None;
    }
    Some(token.to_owned())
}

} // verus!
