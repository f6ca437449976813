//! Data tables as comma-separated text.

use crate::text::{chars_of, join, joined, joined_front, views, views_push};
use vstd::prelude::*;
use vstd::string::StringExecFns;

verus! {

/// The character cannot stand in a field without quotes.
pub open spec fn needs_quotes(c: char) -> bool {
    c == ',' || c == '"' || c == '\n'
}

/// Some character of the field needs quotes.
pub open spec fn is_quoted(s: Seq<char>) -> bool {
    exists|i: int| 0 <= i < s.len() && needs_quotes(#[trigger] s[i])
}

/// The text with every quotation mark doubled.
pub open spec fn doubled(s: Seq<char>) -> Seq<char>
    decreases s.len(),
{
    if s.len() == 0 {
        Seq::empty()
    } else if s[0] == '"' {
        seq!['"', '"'] + doubled(s.drop_first())
    } else {
        seq![s[0]] + doubled(s.drop_first())
    }
}

/// A value as a field: in quotation marks where it holds a comma, a quotation
/// mark or a line feed, and its own quotation marks doubled.
pub open spec fn field_text(s: Seq<char>) -> Seq<char> {
    if is_quoted(s) {
        seq!['"'] + doubled(s) + seq!['"']
    } else {
        s
    }
}

/// A value as a field.
pub fn csv_field(value: &str) -> (r: String)
    ensures
        r@ == field_text(value@),
{
    let chars = chars_of(value);
    let mut quoted = false;
    for i in 0..chars.len()
        invariant
            chars@ == value@,
            quoted == (exists|k: int| 0 <= k < i && needs_quotes(#[trigger] chars@[k])),
    {
        if chars[i] == ',' || chars[i] == '"' || chars[i] == '\n' {
            assert(needs_quotes(chars@[i as int]));
            quoted = true;
        }
    }
    let mut out = String::new();
    if !quoted {
        out.append(value);
        return out;
    }
    out.push('"');
    let mut i: usize = 0;
    assert(chars@.skip(0) =~= value@);
    while i < chars.len()
        invariant
            chars@ == value@,
            i <= chars@.len(),
            seq!['"'] + doubled(value@) == out@ + doubled(chars@.skip(i as int)),
        decreases chars@.len() - i,
    {
        let ghost rest = chars@.skip(i as int);
        let ghost before = out@;
        assert(rest.drop_first() =~= chars@.skip(i + 1));
        assert(rest[0] == chars@[i as int]);
        if chars[i] == '"' {
            out.push('"');
        }
        out.push(chars[i]);
        assert(before + doubled(rest) =~= out@ + doubled(chars@.skip(i + 1)));
        i = i + 1;
    }
    assert(out@ + doubled(chars@.skip(i as int)) =~= out@);
    out.push('"');
    out
}

/// The text with every pair of quotation marks made one.
pub open spec fn undoubled(s: Seq<char>) -> Seq<char>
    decreases s.len(),
{
    if s.len() == 0 {
        Seq::empty()
    } else if s.len() >= 2 && s[0] == '"' && s[1] == '"' {
        seq!['"'] + undoubled(s.skip(2))
    } else {
        seq![s[0]] + undoubled(s.drop_first())
    }
}

/// The value that a field writes.
pub open spec fn field_value(text: Seq<char>) -> Seq<char> {
    if text.len() >= 2 && text[0] == '"' {
        undoubled(text.subrange(1, text.len() - 1))
    } else {
        text
    }
}

proof fn undoubled_doubled(s: Seq<char>)
    ensures
        undoubled(doubled(s)) == s,
    decreases s.len(),
{
    if s.len() > 0 {
        let rest = s.drop_first();
        undoubled_doubled(rest);
        let d = doubled(s);
        if s[0] == '"' {
            assert(d.skip(2) =~= doubled(rest));
            assert(seq!['"'] + rest =~= s);
        } else {
            assert(d.drop_first() =~= doubled(rest));
            assert(seq![s[0]] + rest =~= s);
        }
    }
}

/// Every value reads back from its field.
pub proof fn field_reads_back(s: Seq<char>)
    ensures
        field_value(field_text(s)) == s,
{
    if is_quoted(s) {
        let text = field_text(s);
        assert(text.subrange(1, text.len() - 1) =~= doubled(s));
        undoubled_doubled(s);
    } else if s.len() > 0 {
        assert(!needs_quotes(s[0]));
    }
}

/// The fields of a line, with commas between them.
pub open spec fn line_text(cells: Seq<Seq<char>>) -> Seq<char> {
    joined(cells.map_values(|c: Seq<char>| field_text(c)), ","@)
}

/// The cells of a row as one line.
pub fn csv_line(cells: &[String]) -> (r: String)
    ensures
        r@ == line_text(views(cells@)),
{
    let ghost all = views(cells@).map_values(|c: Seq<char>| field_text(c));
    let mut fields: Vec<String> = Vec::new();
    for i in 0..cells.len()
        invariant
            all == views(cells@).map_values(|c: Seq<char>| field_text(c)),
            views(fields@) == all.take(i as int),
    {
        let field = csv_field(cells[i].as_str());
        proof {
            views_push(fields@, field);
            assert(all.take(i + 1) =~= all.take(i as int).push(field@));
        }
        fields.push(field);
    }
    assert(all.take(all.len() as int) =~= all);
    join(fields.as_slice(), ",")
}

/// What the rows of a table say.
pub open spec fn row_views(rows: Seq<Vec<String>>) -> Seq<Seq<Seq<char>>> {
    rows.map_values(|r: Vec<String>| views(r@))
}

/// Lines, each with a line feed at its end.
pub open spec fn lines_text(rows: Seq<Seq<Seq<char>>>) -> Seq<char>
    decreases rows.len(),
{
    if rows.len() == 0 {
        Seq::empty()
    } else {
        lines_text(rows.drop_last()) + line_text(rows.last()) + "\n"@
    }
}

/// A table as text: the line of its titles, then one line per row.
pub fn csv_table(headers: &[String], rows: &[Vec<String>]) -> (r: String)
    ensures
        r@ == line_text(views(headers@)) + "\n"@ + lines_text(row_views(rows@)),
{
    let ghost all = row_views(rows@);
    let mut out = csv_line(headers);
    out.append("\n");
    let ghost start = out@;
    assert(all.take(0) =~= Seq::<Seq<Seq<char>>>::empty());
    assert(start + lines_text(all.take(0)) =~= start);
    for i in 0..rows.len()
        invariant
            all == row_views(rows@),
            out@ == start + lines_text(all.take(i as int)),
    {
        out.append(csv_line(rows[i].as_slice()).as_str());
        out.append("\n");
        proof {
            assert(all.take(i + 1).drop_last() =~= all.take(i as int));
            assert(all[i as int] == views(rows@[i as int]@));
            assert(out@ =~= start + lines_text(all.take(i + 1)));
        }
    }
    assert(all.take(all.len() as int) =~= all);
    out
}

/// The first comma at `i` or later that stands outside quotation marks, or the
/// end.
pub open spec fn field_end(s: Seq<char>, i: int, quoted: bool) -> int
    decreases s.len() - i,
{
    if i >= s.len() {
        i
    } else if s[i] == '"' {
        field_end(s, i + 1, !quoted)
    } else if s[i] == ',' && !quoted {
        i
    } else {
        field_end(s, i + 1, quoted)
    }
}

/// The fields of a line: its parts between the commas that stand outside
/// quotation marks.
pub open spec fn fields_of(line: Seq<char>) -> Seq<Seq<char>>
    decreases line.len(),
    via fields_of_shrinks
{
    let end = field_end(line, 0, false);
    if end >= line.len() {
        seq![line]
    } else {
        seq![line.take(end)] + fields_of(line.skip(end + 1))
    }
}

#[via_fn]
proof fn fields_of_shrinks(line: Seq<char>) {
    field_end_bounds(line, 0, false);
}

proof fn field_end_bounds(s: Seq<char>, i: int, quoted: bool)
    requires
        0 <= i,
    ensures
        i <= field_end(s, i, quoted),
        i <= s.len() ==> field_end(s, i, quoted) <= s.len(),
    decreases s.len() - i,
{
    if i < s.len() {
        if s[i] == '"' {
            field_end_bounds(s, i + 1, !quoted);
        } else if !(s[i] == ',' && !quoted) {
            field_end_bounds(s, i + 1, quoted);
        }
    }
}

proof fn scan_doubled(t: Seq<char>, i: int, s: Seq<char>)
    requires
        0 <= i,
        i + doubled(s).len() <= t.len(),
        t.subrange(i, i + doubled(s).len()) == doubled(s),
    ensures
        field_end(t, i, true) == field_end(t, i + doubled(s).len(), true),
    decreases s.len(),
{
    if s.len() > 0 {
        let d = doubled(s);
        let rest = s.drop_first();
        let part = t.subrange(i, i + d.len());
        assert(part[0] == t[i]);
        if s[0] == '"' {
            assert(part[1] == t[i + 1]);
            assert(d[0] == '"' && d[1] == '"');
            assert(t.subrange(i + 2, i + 2 + doubled(rest).len()) =~= doubled(rest)) by {
                assert(d.skip(2) =~= doubled(rest));
                assert(t.subrange(i + 2, i + 2 + doubled(rest).len()) =~= part.skip(2));
            }
            assert(field_end(t, i, true) == field_end(t, i + 1, false));
            assert(field_end(t, i + 1, false) == field_end(t, i + 2, true));
            scan_doubled(t, i + 2, rest);
        } else {
            assert(d[0] == s[0]);
            assert(t.subrange(i + 1, i + 1 + doubled(rest).len()) =~= doubled(rest)) by {
                assert(d.drop_first() =~= doubled(rest));
                assert(t.subrange(i + 1, i + 1 + doubled(rest).len()) =~= part.drop_first());
            }
            scan_doubled(t, i + 1, rest);
        }
    }
}

proof fn scan_plain(t: Seq<char>, i: int, end: int)
    requires
        0 <= i <= end <= t.len(),
        forall|k: int| i <= k < end ==> !needs_quotes(#[trigger] t[k]),
    ensures
        field_end(t, i, false) == field_end(t, end, false),
    decreases end - i,
{
    if i < end {
        assert(!needs_quotes(t[i]));
        scan_plain(t, i + 1, end);
    }
}

/// A field ends where it ends, in whatever line it stands first.
proof fn first_field_ends(s: Seq<char>, rest: Seq<char>)
    requires
        rest.len() == 0 || rest[0] == ',',
    ensures
        field_end(field_text(s) + rest, 0, false) == field_text(s).len(),
{
    let f = field_text(s);
    let t = f + rest;
    let n = f.len() as int;
    assert(field_end(t, n, false) == n) by {
        if rest.len() > 0 {
            assert(t[n] == rest[0]);
        }
    }
    if is_quoted(s) {
        let d = doubled(s);
        assert(f.len() == d.len() + 2);
        assert(t[0] == '"');
        assert(t.subrange(1, 1 + d.len() as int) =~= d);
        scan_doubled(t, 1, s);
        assert(t[1 + d.len() as int] == '"');
        assert(field_end(t, 0, false) == field_end(t, 1, true));
        assert(field_end(t, 1 + d.len() as int, true) == field_end(t, 2 + d.len() as int, false));
    } else {
        assert forall|k: int| 0 <= k < n implies !needs_quotes(#[trigger] t[k]) by {
            assert(t[k] == s[k]);
        }
        scan_plain(t, 0, n);
    }
}

/// A line reads back: its fields are those of its cells, and each cell reads
/// back from its field.
pub proof fn line_reads_back(cells: Seq<Seq<char>>)
    requires
        cells.len() > 0,
    ensures
        fields_of(line_text(cells)).map_values(|f: Seq<char>| field_value(f)) == cells,
{
    let value = |f: Seq<char>| field_value(f);
    let fields = cells.map_values(|c: Seq<char>| field_text(c));
    fields_split(cells);
    assert forall|i: int| 0 <= i < cells.len() implies #[trigger] fields.map_values(value)[i]
        == cells[i] by {
        field_reads_back(cells[i]);
    }
    assert(fields.map_values(value) =~= cells);
}

proof fn fields_split(cells: Seq<Seq<char>>)
    requires
        cells.len() > 0,
    ensures
        fields_of(line_text(cells)) == cells.map_values(|c: Seq<char>| field_text(c)),
    decreases cells.len(),
{
    let text = |c: Seq<char>| field_text(c);
    let fields = cells.map_values(text);
    let line = line_text(cells);
    let first = field_text(cells[0]);
    reveal_strlit(",");
    if cells.len() == 1 {
        first_field_ends(cells[0], Seq::empty());
        assert(first + Seq::<char>::empty() =~= first);
        assert(line == fields[0]);
        assert(seq![line] =~= fields);
    } else {
        let others = cells.drop_first();
        joined_front(fields, ","@);
        assert(fields.drop_first() =~= others.map_values(text));
        let rest = ","@ + line_text(others);
        assert(line =~= first + rest);
        first_field_ends(cells[0], rest);
        assert(line.take(first.len() as int) =~= first);
        assert(line.skip(first.len() as int + 1) =~= line_text(others));
        fields_split(others);
        assert(seq![first] + others.map_values(text) =~= fields);
    }
}

} // verus!
