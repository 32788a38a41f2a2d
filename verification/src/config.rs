//! The text of a `config.toml`, edited line by line.
//!
//! The file is never parsed as a whole when it is changed: a key is looked up
//! among the lines, and the one line is replaced, inserted or taken out, so
//! that everything else in the file stays as its author wrote it.

use crate::text::{
    append_chars, chars_eq, copy_chars, find_char, find_from, first_index, from_chars, join,
    join_rows, lemma_first_index_is, lines, lower_chars, lowered, rows_of, slice_chars, split_lines,
    text_view, texts_of, to_chars, trim, trim_chars,
};
use crate::toml_value::{
    as_string, member, parse_document, toml_as_str, toml_member, toml_parse,
};
use vstd::prelude::*;

verus! {

/// Whether the row, trimmed, opens a table: `[` first and `]` last.
pub open spec fn is_table_header(row: Seq<char>) -> bool {
    let t = trim(row);
    t.len() > 0 && t.first() == '[' && t.last() == ']'
}

/// Whether the row, trimmed, is `[features]`.
pub open spec fn is_features_header(row: Seq<char>) -> bool {
    trim(row) == "[features]"@
}

/// Whether the row assigns to `key`: it is neither blank nor a comment, it
/// holds an `=`, and what stands before the first `=` is `key` once trimmed.
pub open spec fn key_value_for(row: Seq<char>, key: Seq<char>) -> bool {
    let t = trim(row);
    let at = find_char(t, '=');
    t.len() > 0 && t[0] != '#' && at < t.len() && trim(t.take(at as int)) == key
}

/// The index of the first row that opens a table, or the number of rows.
pub open spec fn first_table(rows: Seq<Seq<char>>) -> nat {
    first_index(rows, |row: Seq<char>| is_table_header(row))
}

/// The index of the first row that is `[features]`, or the number of rows.
pub open spec fn first_features(rows: Seq<Seq<char>>) -> nat {
    first_index(rows, |row: Seq<char>| is_features_header(row))
}

/// The index of the first row that assigns to `key`, or the number of rows.
pub open spec fn first_key_row(rows: Seq<Seq<char>>, key: Seq<char>) -> nat {
    first_index(rows, |row: Seq<char>| key_value_for(row, key))
}

/// The line `key = "value"`.
pub open spec fn assignment(key: Seq<char>, value: Seq<char>) -> Seq<char> {
    key + " = \""@ + value + "\""@
}

/// The line `key = true` or `key = false`.
pub open spec fn flag_assignment(key: Seq<char>, enabled: bool) -> Seq<char> {
    key + " = "@ + if enabled {
        "true"@
    } else {
        "false"@
    }
}

/// The rows, with an empty row added where the last one is not blank.
pub open spec fn padded(rows: Seq<Seq<char>>) -> Seq<Seq<char>> {
    if rows.len() > 0 && trim(rows.last()).len() > 0 {
        rows.push(Seq::empty())
    } else {
        rows
    }
}

/// The rows as the text of a file: joined by line feeds, and closed by one
/// where the text they came from was, or where nothing is left.
pub open spec fn finished(contents: Seq<char>, rows: Seq<Seq<char>>) -> Seq<char> {
    let text = join(rows, seq!['\n']);
    if (contents.len() > 0 && contents.last() == '\n') || text.len() == 0 {
        text.push('\n')
    } else {
        text
    }
}

/// The rows with `line` in place of the first row among the first `limit`
/// that assigns to `key`, or put in before row `limit` where none does.
pub open spec fn placed(rows: Seq<Seq<char>>, key: Seq<char>, limit: nat, line: Seq<char>) -> Seq<
    Seq<char>,
> {
    let at = first_key_row(rows.take(limit as int), key);
    if at < limit {
        rows.update(at as int, line)
    } else {
        rows.insert(limit as int, line)
    }
}

/// The text with `key = "value"` as a top-level key: in place of the first
/// top-level line that assigns to `key`, or else just before the first table,
/// or at the end where the file has no table.
pub open spec fn with_top_level_key(contents: Seq<char>, key: Seq<char>, value: Seq<char>) -> Seq<
    char,
> {
    let rows = lines(contents);
    finished(contents, placed(rows, key, first_table(rows), assignment(key, value)))
}

/// As [`with_top_level_key`], but where the file has no table and the key is
/// new, an empty line parts it from a last line that is not blank.
pub open spec fn with_top_level_string(contents: Seq<char>, key: Seq<char>, value: Seq<char>) -> Seq<
    char,
> {
    let rows = lines(contents);
    let table = first_table(rows);
    let line = assignment(key, value);
    if table >= rows.len() && first_key_row(rows, key) >= rows.len() {
        finished(contents, padded(rows).push(line))
    } else {
        finished(contents, placed(rows, key, table, line))
    }
}

/// The rows that do not assign to `key`.
pub open spec fn without_key(rows: Seq<Seq<char>>, key: Seq<char>) -> Seq<Seq<char>>
    decreases rows.len(),
{
    if rows.len() == 0 {
        rows
    } else if key_value_for(rows.last(), key) {
        without_key(rows.drop_last(), key)
    } else {
        without_key(rows.drop_last(), key).push(rows.last())
    }
}

/// The text without the top-level lines that assign to `key`: what stands in
/// or after the first table is kept whatever it says.
pub open spec fn without_top_level_key(contents: Seq<char>, key: Seq<char>) -> Seq<char> {
    let rows = lines(contents);
    let table = first_table(rows) as int;
    finished(contents, without_key(rows.take(table), key) + rows.skip(table))
}

/// The text with `key` set in the table `[features]`: in place of the first
/// line of that table that assigns to `key`, or else at the table's end; where
/// the file has no such table, the table is added at the end of the file.
pub open spec fn with_feature_flag(contents: Seq<char>, key: Seq<char>, enabled: bool) -> Seq<char> {
    let rows = lines(contents);
    let start = first_features(rows);
    let line = flag_assignment(key, enabled);
    if start < rows.len() {
        let body = rows.skip(start as int + 1);
        let end = first_table(body);
        let at = first_key_row(body.take(end as int), key);
        if at < end {
            finished(contents, rows.update(start as int + 1 + at, line))
        } else {
            finished(contents, rows.insert(start as int + 1 + end, line))
        }
    } else {
        finished(contents, padded(rows).push("[features]"@).push(line))
    }
}

/// What a flag's value says: `true`, `false`, or nothing that is understood.
pub open spec fn flag_value(text: Seq<char>) -> Option<bool> {
    if text == "true"@ {
        Some(true)
    } else if text == "false"@ {
        Some(false)
    } else {
        None
    }
}

/// The value of the flag `key` as the rows give it, read from the first row
/// on, `in_features` saying whether the rows begin inside `[features]`. Only
/// lines of that table count. The first that assigns to `key` decides, by
/// what stands between its `=` and a `#`; a line of the table without an `=`
/// ends the search with nothing.
pub open spec fn scan_flag(rows: Seq<Seq<char>>, key: Seq<char>, in_features: bool) -> Option<bool>
    decreases rows.len(),
{
    if rows.len() == 0 {
        None
    } else {
        let t = trim(rows[0]);
        let at = find_char(t, '=');
        if is_table_header(rows[0]) {
            scan_flag(rows.skip(1), key, is_features_header(rows[0]))
        } else if !in_features || t.len() == 0 || t[0] == '#' {
            scan_flag(rows.skip(1), key, in_features)
        } else if at >= t.len() {
            None
        } else if trim(t.take(at as int)) != key {
            scan_flag(rows.skip(1), key, in_features)
        } else {
            let value = t.skip(at as int + 1);
            flag_value(trim(value.take(find_char(value, '#') as int)))
        }
    }
}

/// The value of the flag `key` in the table `[features]` of the text.
pub open spec fn feature_flag(contents: Seq<char>, key: Seq<char>) -> Option<bool> {
    scan_flag(lines(contents), key, false)
}

/// Whether the row opens a table.
fn row_is_table_header(row: &[char]) -> (yes: bool)
    ensures
        yes == is_table_header(row@),
{
    let t = trim_chars(row);
    t.len() > 0 && t[0] == '[' && t[t.len() - 1] == ']'
}

/// Whether the row is `[features]`.
fn row_is_features_header(row: &[char]) -> (yes: bool)
    ensures
        yes == is_features_header(row@),
{
    let t = trim_chars(row);
    let header = to_chars("[features]");
    chars_eq(t.as_slice(), header.as_slice())
}

/// Whether the row assigns to `key`.
fn row_is_key_value(row: &[char], key: &[char]) -> (yes: bool)
    ensures
        yes == key_value_for(row@, key@),
{
    let t = trim_chars(row);
    if t.len() == 0 || t[0] == '#' {
        return false;
    }
    assert(t@.skip(0) == t@);
    let at = find_from(t.as_slice(), 0, '=');
    if at >= t.len() {
        return false;
    }
    let before = slice_chars(t.as_slice(), 0, at);
    let candidate = trim_chars(before.as_slice());
    chars_eq(candidate.as_slice(), key)
}

/// The first row at or after `from` that opens a table.
fn find_table(rows: &Vec<Vec<char>>, from: usize) -> (at: usize)
    requires
        from <= rows.len(),
    ensures
        from <= at <= rows.len(),
        at - from == first_table(rows_of(rows@).skip(from as int)),
{
    let mut at: usize = from;
    while at < rows.len() && !row_is_table_header(rows[at].as_slice())
        invariant
            from <= at <= rows.len(),
            forall|j: int| from <= j < at ==> !is_table_header(#[trigger] rows_of(rows@)[j]),
        decreases rows.len() - at,
    {
        at += 1;
    }
    proof {
        let rest = rows_of(rows@).skip(from as int);
        let p = |row: Seq<char>| is_table_header(row);
        lemma_first_index_is(rest, p, at - from);
    }
    at
}

/// The first row that is `[features]`.
fn find_features(rows: &Vec<Vec<char>>) -> (at: usize)
    ensures
        at <= rows.len(),
        at == first_features(rows_of(rows@)),
{
    let mut at: usize = 0;
    while at < rows.len() && !row_is_features_header(rows[at].as_slice())
        invariant
            at <= rows.len(),
            forall|j: int| 0 <= j < at ==> !is_features_header(#[trigger] rows_of(rows@)[j]),
        decreases rows.len() - at,
    {
        at += 1;
    }
    proof {
        let p = |row: Seq<char>| is_features_header(row);
        lemma_first_index_is(rows_of(rows@), p, at as int);
    }
    at
}

/// The first row in `from..to` that assigns to `key`, or `to`.
fn find_key(rows: &Vec<Vec<char>>, key: &[char], from: usize, to: usize) -> (at: usize)
    requires
        from <= to <= rows.len(),
    ensures
        from <= at <= to,
        at - from == first_key_row(rows_of(rows@).subrange(from as int, to as int), key@),
{
    let mut at: usize = from;
    while at < to && !row_is_key_value(rows[at].as_slice(), key)
        invariant
            from <= at <= to <= rows.len(),
            forall|j: int| from <= j < at ==> !key_value_for(#[trigger] rows_of(rows@)[j], key@),
        decreases to - at,
    {
        at += 1;
    }
    proof {
        let part = rows_of(rows@).subrange(from as int, to as int);
        let p = |row: Seq<char>| key_value_for(row, key@);
        lemma_first_index_is(part, p, at - from);
    }
    at
}

/// The rows as the text of a file.
fn finish(contents: &[char], rows: &Vec<Vec<char>>) -> (text: String)
    ensures
        text@ == finished(contents@, rows_of(rows@)),
{
    let sep: Vec<char> = vec!['\n'];
    assert(sep@ == seq!['\n']);
    let mut out = join_rows(rows, sep.as_slice());
    if (contents.len() > 0 && contents[contents.len() - 1] == '\n') || out.len() == 0 {
        out.push('\n');
    }
    from_chars(out.as_slice())
}

/// Puts `line` in place of row `at`.
fn replace_row(rows: &mut Vec<Vec<char>>, at: usize, line: Vec<char>)
    requires
        at < old(rows).len(),
    ensures
        rows_of(final(rows)@) == rows_of(old(rows)@).update(at as int, line@),
{
    rows.set(at, line);
}

/// Puts `line` in before row `at`.
fn insert_row(rows: &mut Vec<Vec<char>>, at: usize, line: Vec<char>)
    requires
        at <= old(rows).len(),
    ensures
        rows_of(final(rows)@) == rows_of(old(rows)@).insert(at as int, line@),
{
    rows.insert(at, line);
}

/// Adds `line` after the last row.
fn push_row(rows: &mut Vec<Vec<char>>, line: Vec<char>)
    ensures
        rows_of(final(rows)@) == rows_of(old(rows)@).push(line@),
{
    rows.push(line);
}

/// Adds an empty row where the last one is not blank.
fn pad_rows(rows: &mut Vec<Vec<char>>)
    ensures
        rows_of(final(rows)@) == padded(rows_of(old(rows)@)),
{
    if rows.len() > 0 {
        let last = trim_chars(rows[rows.len() - 1].as_slice());
        if last.len() > 0 {
            push_row(rows, Vec::new());
        }
    }
}

/// Puts `line` where [`placed`] says.
fn place_row(rows: &mut Vec<Vec<char>>, key: &[char], limit: usize, line: Vec<char>)
    requires
        limit <= old(rows).len(),
    ensures
        rows_of(final(rows)@) == placed(rows_of(old(rows)@), key@, limit as nat, line@),
{
    let at = find_key(rows, key, 0, limit);
    if at < limit {
        replace_row(rows, at, line);
    } else {
        insert_row(rows, limit, line);
    }
}

/// The line `key = "value"`.
fn assignment_chars(key: &[char], value: &[char]) -> (line: Vec<char>)
    ensures
        line@ == assignment(key@, value@),
{
    let mut line = copy_chars(key);
    let open = to_chars(" = \"");
    append_chars(&mut line, open.as_slice());
    append_chars(&mut line, value);
    let close = to_chars("\"");
    append_chars(&mut line, close.as_slice());
    line
}

/// The line `key = true` or `key = false`.
fn flag_chars(key: &[char], enabled: bool) -> (line: Vec<char>)
    ensures
        line@ == flag_assignment(key@, enabled),
{
    let mut line = copy_chars(key);
    let equals = to_chars(" = ");
    append_chars(&mut line, equals.as_slice());
    let value = if enabled {
        to_chars("true")
    } else {
        to_chars("false")
    };
    append_chars(&mut line, value.as_slice());
    line
}

/// Whether the line assigns to `key`.
pub fn is_key_value_for(line: &str, key: &str) -> (yes: bool)
    ensures
        yes == key_value_for(line@, key@),
{
    let row = to_chars(line);
    let name = to_chars(key);
    row_is_key_value(row.as_slice(), name.as_slice())
}

/// The index of the first line that opens a table.
pub fn first_table_start_index(lines: &[String]) -> (index: Option<usize>)
    ensures
        match index {
            Some(at) => at < lines.len() && at == first_table(texts_of(lines@)),
            None => first_table(texts_of(lines@)) == lines.len(),
        },
{
    let mut at: usize = 0;
    while at < lines.len()
        invariant
            at <= lines.len(),
            forall|j: int| 0 <= j < at ==> !is_table_header(#[trigger] texts_of(lines@)[j]),
        decreases lines.len() - at,
    {
        let row = to_chars(lines[at].as_str());
        if row_is_table_header(row.as_slice()) {
            proof {
                let p = |row: Seq<char>| is_table_header(row);
                lemma_first_index_is(texts_of(lines@), p, at as int);
            }
            return Some(at);
        }
        at += 1;
    }
    proof {
        let p = |row: Seq<char>| is_table_header(row);
        lemma_first_index_is(texts_of(lines@), p, at as int);
    }
    None
}

/// Sets the top-level key `key` to the string `value`.
pub fn upsert_top_level_string_key(contents: &str, key: &str, value: &str) -> (updated: String)
    ensures
        updated@ == with_top_level_key(contents@, key@, value@),
{
    let text = to_chars(contents);
    let name = to_chars(key);
    let content = to_chars(value);
    let mut rows = split_lines(text.as_slice());
    assert(rows_of(rows@).skip(0) == rows_of(rows@));
    let table = find_table(&rows, 0);
    let line = assignment_chars(name.as_slice(), content.as_slice());
    place_row(&mut rows, name.as_slice(), table, line);
    finish(text.as_slice(), &rows)
}

/// Sets the top-level key `key` to the string `value`, with an empty line
/// before a key that is added at the end of a file without tables.
pub fn upsert_top_level_string(contents: &str, key: &str, value: &str) -> (updated: String)
    ensures
        updated@ == with_top_level_string(contents@, key@, value@),
{
    let text = to_chars(contents);
    let name = to_chars(key);
    let content = to_chars(value);
    let mut rows = split_lines(text.as_slice());
    assert(rows_of(rows@).skip(0) == rows_of(rows@));
    let table = find_table(&rows, 0);
    let line = assignment_chars(name.as_slice(), content.as_slice());
    if table >= rows.len() {
        let at = find_key(&rows, name.as_slice(), 0, rows.len());
        if at >= rows.len() {
            pad_rows(&mut rows);
            push_row(&mut rows, line);
            return finish(text.as_slice(), &rows);
        }
    }
    place_row(&mut rows, name.as_slice(), table, line);
    finish(text.as_slice(), &rows)
}

/// Takes out the top-level lines that assign to `key`.
pub fn remove_top_level_key(contents: &str, key: &str) -> (updated: String)
    ensures
        updated@ == without_top_level_key(contents@, key@),
{
    let text = to_chars(contents);
    let name = to_chars(key);
    let rows = split_lines(text.as_slice());
    assert(rows_of(rows@).skip(0) == rows_of(rows@));
    let table = find_table(&rows, 0);
    let ghost all = rows_of(rows@);
    let mut kept: Vec<Vec<char>> = Vec::new();
    let mut i: usize = 0;
    while i < table
        invariant
            i <= table <= rows.len(),
            all == rows_of(rows@),
            rows_of(kept@) == without_key(all.take(i as int), name@),
        decreases table - i,
    {
        assert(all.take(i + 1).drop_last() == all.take(i as int));
        if !row_is_key_value(rows[i].as_slice(), name.as_slice()) {
            push_row(&mut kept, copy_chars(rows[i].as_slice()));
        }
        i += 1;
    }
    while i < rows.len()
        invariant
            table <= i <= rows.len(),
            all == rows_of(rows@),
            rows_of(kept@) == without_key(all.take(table as int), name@) + all.subrange(
                table as int,
                i as int,
            ),
        decreases rows.len() - i,
    {
        push_row(&mut kept, copy_chars(rows[i].as_slice()));
        i += 1;
    }
    finish(text.as_slice(), &kept)
}

/// Sets the flag `key` in the table `[features]`.
pub fn upsert_feature_flag(contents: &str, key: &str, enabled: bool) -> (updated: String)
    ensures
        updated@ == with_feature_flag(contents@, key@, enabled),
{
    let text = to_chars(contents);
    let name = to_chars(key);
    let mut rows = split_lines(text.as_slice());
    let line = flag_chars(name.as_slice(), enabled);
    let start = find_features(&rows);
    if start < rows.len() {
        let end = find_table(&rows, start + 1);
        let at = find_key(&rows, name.as_slice(), start + 1, end);
        assert(rows_of(rows@).subrange(start + 1, end as int) == rows_of(rows@).skip(
            start + 1,
        ).take(end - (start + 1)));
        if at < end {
            replace_row(&mut rows, at, line);
        } else {
            insert_row(&mut rows, end, line);
        }
    } else {
        pad_rows(&mut rows);
        push_row(&mut rows, to_chars("[features]"));
        push_row(&mut rows, line);
    }
    finish(text.as_slice(), &rows)
}

/// Reads the flag `key` from the table `[features]`.
pub fn find_feature_flag(contents: &str, key: &str) -> (flag: Option<bool>)
    ensures
        flag == feature_flag(contents@, key@),
{
    let text = to_chars(contents);
    let name = to_chars(key);
    let rows = split_lines(text.as_slice());
    let ghost all = rows_of(rows@);
    let mut in_features = false;
    let mut i: usize = 0;
    assert(all.skip(0) == all);
    while i < rows.len()
        invariant
            i <= rows.len(),
            all == rows_of(rows@),
            feature_flag(contents@, key@) == scan_flag(all.skip(i as int), name@, in_features),
            name@ == key@,
        decreases rows.len() - i,
    {
        assert(all.skip(i as int).skip(1) == all.skip(i + 1));
        let row = rows[i].as_slice();
        i += 1;
        if row_is_table_header(row) {
            in_features = row_is_features_header(row);
            continue;
        }
        let t = trim_chars(row);
        if !in_features || t.len() == 0 || t[0] == '#' {
            continue;
        }
        assert(t@.skip(0) == t@);
        let at = find_from(t.as_slice(), 0, '=');
        if at >= t.len() {
            return None;
        }
        let before = slice_chars(t.as_slice(), 0, at);
        let candidate = trim_chars(before.as_slice());
        if !chars_eq(candidate.as_slice(), name.as_slice()) {
            continue;
        }
        let value = slice_chars(t.as_slice(), at + 1, t.len());
        assert(value@.skip(0) == value@);
        let stop = find_from(value.as_slice(), 0, '#');
        let plain = slice_chars(value.as_slice(), 0, stop);
        let word = trim_chars(plain.as_slice());
        let yes = to_chars("true");
        let no = to_chars("false");
        if chars_eq(word.as_slice(), yes.as_slice()) {
            return Some(true);
        }
        if chars_eq(word.as_slice(), no.as_slice()) {
            return Some(false);
        }
        return None;
    }
    None
}

/// The personality that a value names: `friendly` or `pragmatic`, whatever
/// the case of its letters and the whitespace around it.
pub open spec fn personality_of(value: Seq<char>) -> Option<Seq<char>> {
    let name = lowered(trim(value));
    if name == "friendly"@ {
        Some("friendly"@)
    } else if name == "pragmatic"@ {
        Some("pragmatic"@)
    } else {
        None
    }
}

/// The value trimmed, or nothing where that leaves nothing.
pub open spec fn trimmed_or_none(value: Option<Seq<char>>) -> Option<Seq<char>> {
    match value {
        Some(text) => if trim(text).len() == 0 {
            None
        } else {
            Some(trim(text))
        },
        None => None,
    }
}

/// The string that a TOML document holds under a top-level key.
pub open spec fn top_level_string(contents: Seq<char>, key: Seq<char>) -> Option<Seq<char>> {
    match toml_parse(contents) {
        Some(document) => match toml_member(document, key) {
            Some(inner) => toml_as_str(inner),
            None => None,
        },
        None => None,
    }
}

/// The personality that the document sets, if it is one that is known.
pub open spec fn personality_in(contents: Seq<char>) -> Option<Seq<char>> {
    match top_level_string(contents, "personality"@) {
        Some(value) => personality_of(value),
        None => None,
    }
}

/// The name of a known personality.
pub fn normalize_personality_value(value: &str) -> (name: Option<&'static str>)
    ensures
        match name {
            Some(known) => personality_of(value@) == Some(known@),
            None => personality_of(value@) is None,
        },
{
    let chars = to_chars(value);
    let trimmed = trim_chars(chars.as_slice());
    let lower = lower_chars(trimmed.as_slice());
    let friendly = to_chars("friendly");
    let pragmatic = to_chars("pragmatic");
    if chars_eq(lower.as_slice(), friendly.as_slice()) {
        Some("friendly")
    } else if chars_eq(lower.as_slice(), pragmatic.as_slice()) {
        Some("pragmatic")
    } else {
        None
    }
}

/// The value trimmed, or nothing where that leaves nothing.
pub fn trim_to_option(value: Option<String>) -> (kept: Option<String>)
    ensures
        text_view(kept) == trimmed_or_none(text_view(value)),
{
    match value {
        Some(text) => {
            let chars = to_chars(text.as_str());
            let trimmed = trim_chars(chars.as_slice());
            if trimmed.len() == 0 {
                None
            } else {
                Some(from_chars(trimmed.as_slice()))
            }
        },
        None => None,
    }
}

/// The string under a top-level key of a TOML document; nothing where the
/// document does not parse, has no such key, or holds another kind of value
/// there.
pub fn read_top_level_string(contents: &str, key: &str) -> (value: Option<String>)
    ensures
        text_view(value) == top_level_string(contents@, key@),
{
    match parse_document(contents) {
        Some(document) => match member(&document, key) {
            Some(inner) => as_string(&inner),
            None => None,
        },
        None => None,
    }
}

/// The personality that a TOML document sets.
pub fn parse_personality_from_toml(contents: &str) -> (name: Option<&'static str>)
    ensures
        match name {
            Some(known) => personality_in(contents@) == Some(known@),
            None => personality_in(contents@) is None,
        },
{
    match read_top_level_string(contents, "personality") {
        Some(value) => normalize_personality_value(value.as_str()),
        None => None,
    }
}

/// The model that a TOML document sets: its `model`, trimmed, where that is
/// a string and not blank.
pub fn parse_model_from_toml(contents: &str) -> (model: Option<String>)
    ensures
        text_view(model) == trimmed_or_none(top_level_string(contents@, "model"@)),
{
    trim_to_option(read_top_level_string(contents, "model"))
}

} // verus!
