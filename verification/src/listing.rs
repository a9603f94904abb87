//! The listings of the filesystem tool: lines of fields, the fields parted
//! by blanks. A listing of snapshots gives one identifier on each line; a
//! listing of filesystems gives a name and a mount point.

use crate::error::ReplError;
use crate::text::{after_last, chars_of, lemma_after_last_bounds, rows, string_of, texts};
use vstd::prelude::*;
use vstd::utf8::{decode_utf8, valid_utf8};

verus! {

/// Whether `c` parts the fields of a line: a space, a tab or a carriage return.
pub open spec fn is_blank(c: char) -> bool {
    c == ' ' || c == '\t' || c == '\r'
}

/// The lines of a text: what stands between its line feeds. A text that
/// ends with a line feed has an empty last line.
pub open spec fn lines(text: Seq<char>) -> Seq<Seq<char>>
    decreases text.len(),
{
    let start = after_last(text, '\n');
    if 0 < start <= text.len() {
        lines(text.take(start - 1)).push(text.skip(start))
    } else {
        seq![text]
    }
}

/// The first index from `from` on at which `line` holds no blank.
pub open spec fn skip_blanks(line: Seq<char>, from: int) -> int
    decreases line.len() - from,
{
    if 0 <= from < line.len() && is_blank(line[from]) {
        skip_blanks(line, from + 1)
    } else {
        from
    }
}

/// The first index from `from` on at which `line` holds a blank or ends.
pub open spec fn skip_word(line: Seq<char>, from: int) -> int
    decreases line.len() - from,
{
    if 0 <= from < line.len() && !is_blank(line[from]) {
        skip_word(line, from + 1)
    } else {
        from
    }
}

/// The field of `line` that starts at or after `from`, and the index at
/// which it ends; `None` where only blanks are left.
pub open spec fn field_from(line: Seq<char>, from: int) -> Option<(Seq<char>, int)> {
    let start = skip_blanks(line, from);
    let end = skip_word(line, start);
    if start < line.len() {
        Some((line.subrange(start, end), end))
    } else {
        None
    }
}

/// The first field of a line.
pub open spec fn first_field(line: Seq<char>) -> Option<Seq<char>> {
    match field_from(line, 0) {
        Some((name, _)) => Some(name),
        None => None,
    }
}

/// The second field of a line.
pub open spec fn second_field(line: Seq<char>) -> Option<Seq<char>> {
    match field_from(line, 0) {
        Some((_, end)) => match field_from(line, end) {
            Some((value, _)) => Some(value),
            None => None,
        },
        None => None,
    }
}

/// The snapshot that a line of a listing names: its first field. A blank
/// line names none, nor does the header, whose first field is `NAME`.
pub open spec fn snapshot_row(line: Seq<char>) -> Option<Seq<char>> {
    match first_field(line) {
        Some(name) => if name == "NAME"@ {
            None
        } else {
            Some(name)
        },
        None => None,
    }
}

/// The mounted filesystem that a line of a listing names: its first field,
/// where a second field follows that is not `none`. The header, `NAME` and
/// `MOUNTPOINT`, names none.
pub open spec fn mounted_row(line: Seq<char>) -> Option<Seq<char>> {
    match (first_field(line), second_field(line)) {
        (Some(name), Some(mount)) => if mount == "none"@ || (name == "NAME"@ && mount
            == "MOUNTPOINT"@) {
            None
        } else {
            Some(name)
        },
        _ => None,
    }
}

/// The snapshots that a listing names, in its order.
pub open spec fn snapshot_names(text: Seq<char>) -> Seq<Seq<char>> {
    lines(text).filter_map(|line: Seq<char>| snapshot_row(line))
}

/// The mounted filesystems that a listing names, in its order.
pub open spec fn mounted_names(text: Seq<char>) -> Seq<Seq<char>> {
    lines(text).filter_map(|line: Seq<char>| mounted_row(line))
}

/// The lines of a text that has grown by one character.
proof fn lemma_lines_push(text: Seq<char>, c: char)
    ensures
        lines(text).len() > 0,
        c == '\n' ==> lines(text.push(c)) == lines(text).push(Seq::empty()),
        c != '\n' ==> lines(text.push(c)) == lines(text).drop_last().push(lines(text).last().push(c)),
{
    let grown = text.push(c);
    lemma_after_last_bounds(text, '\n');
    assert(grown.drop_last() =~= text);
    if c == '\n' {
        assert(after_last(grown, '\n') == grown.len());
        assert(grown.take(grown.len() - 1) =~= text);
        assert(grown.skip(grown.len() as int) =~= Seq::empty());
    } else {
        let start = after_last(text, '\n');
        assert(after_last(grown, '\n') == start);
        if 0 < start {
            assert(grown.take(start - 1) =~= text.take(start - 1));
            assert(grown.skip(start) =~= text.skip(start).push(c));
            let head = lines(text.take(start - 1));
            assert(lines(text) == head.push(text.skip(start)));
            assert(head.push(text.skip(start)).drop_last() =~= head);
        } else {
            assert(lines(text) =~= seq![text]);
            assert(seq![text].drop_last().push(text.push(c)) =~= seq![grown]);
        }
    }
}

/// The lines of a text.
pub fn lines_of(text: &Vec<char>) -> (found: Vec<Vec<char>>)
    ensures
        rows(found@) == lines(text@),
{
    let mut found: Vec<Vec<char>> = Vec::new();
    let mut line: Vec<char> = Vec::new();
    let mut i: usize = 0;
    proof {
        assert(text@.take(0) =~= Seq::empty());
        assert(lines(Seq::empty()) =~= seq![Seq::empty()]);
        assert(rows(found@).push(line@) =~= lines(text@.take(0)));
    }
    while i < text.len()
        invariant
            i <= text.len(),
            rows(found@).push(line@) == lines(text@.take(i as int)),
        decreases text.len() - i,
    {
        let c = text[i];
        proof {
            lemma_lines_push(text@.take(i as int), c);
            assert(text@.take(i + 1) =~= text@.take(i as int).push(c));
            assert(rows(found@).push(line@).drop_last() =~= rows(found@));
        }
        if c == '\n' {
            proof {
                crate::text::lemma_rows_push(found@, line);
            }
            found.push(line);
            line = Vec::new();
        } else {
            line.push(c);
        }
        i += 1;
    }
    proof {
        assert(text@.take(i as int) =~= text@);
        crate::text::lemma_rows_push(found@, line);
    }
    found.push(line);
    found
}

/// Whether `c` parts the fields of a line.
pub fn blank(c: char) -> (r: bool)
    ensures
        r == is_blank(c),
{
    c == ' ' || c == '\t' || c == '\r'
}

fn pass_blanks(line: &Vec<char>, from: usize) -> (r: usize)
    requires
        from <= line.len(),
    ensures
        r == skip_blanks(line@, from as int),
        from <= r <= line.len(),
{
    let mut i: usize = from;
    while i < line.len() && blank(line[i])
        invariant
            from <= i <= line.len(),
            skip_blanks(line@, from as int) == skip_blanks(line@, i as int),
        decreases line.len() - i,
    {
        i += 1;
    }
    i
}

fn pass_word(line: &Vec<char>, from: usize) -> (r: usize)
    requires
        from <= line.len(),
    ensures
        r == skip_word(line@, from as int),
        from <= r <= line.len(),
{
    let mut i: usize = from;
    while i < line.len() && !blank(line[i])
        invariant
            from <= i <= line.len(),
            skip_word(line@, from as int) == skip_word(line@, i as int),
        decreases line.len() - i,
    {
        i += 1;
    }
    i
}

/// The bounds of the field of `line` that starts at or after `from`.
fn next_field(line: &Vec<char>, from: usize) -> (r: Option<(usize, usize)>)
    requires
        from <= line.len(),
    ensures
        match r {
            Some((start, end)) => start <= end <= line.len() && field_from(line@, from as int)
                == Some((line@.subrange(start as int, end as int), end as int)),
            None => field_from(line@, from as int) is None,
        },
{
    let start = pass_blanks(line, from);
    if start < line.len() {
        let end = pass_word(line, start);
        Some((start, end))
    } else {
        None
    }
}

/// Whether the characters of `line` from `start` up to `end` are those of `word`.
fn range_is(line: &Vec<char>, start: usize, end: usize, word: &Vec<char>) -> (r: bool)
    requires
        start <= end <= line.len(),
    ensures
        r == (line@.subrange(start as int, end as int) == word@),
{
    if end - start != word.len() {
        return false;
    }
    let mut i: usize = 0;
    while i < word.len()
        invariant
            start <= end <= line.len(),
            end - start == word.len(),
            i <= word.len(),
            forall|k: int| 0 <= k < i ==> line@[start + k] == word@[k],
        decreases word.len() - i,
    {
        if line[start + i] != word[i] {
            assert(line@.subrange(start as int, end as int)[i as int] == line@[start + i]);
            return false;
        }
        i += 1;
    }
    assert(line@.subrange(start as int, end as int) =~= word@);
    true
}

/// The snapshot that a line of a listing names.
pub fn snapshot_in(line: &Vec<char>) -> (r: Option<String>)
    ensures
        match r {
            Some(name) => snapshot_row(line@) == Some(name@),
            None => snapshot_row(line@) is None,
        },
{
    let header = chars_of("NAME");
    match next_field(line, 0) {
        Some((start, end)) => {
            if range_is(line, start, end, &header) {
                None
            } else {
                Some(string_of(line, start, end))
            }
        },
        None => None,
    }
}

/// The mounted filesystem that a line of a listing names.
pub fn mounted_in(line: &Vec<char>) -> (r: Option<String>)
    ensures
        match r {
            Some(name) => mounted_row(line@) == Some(name@),
            None => mounted_row(line@) is None,
        },
{
    let none = chars_of("none");
    let name_title = chars_of("NAME");
    let mount_title = chars_of("MOUNTPOINT");
    match next_field(line, 0) {
        Some((start, end)) => match next_field(line, end) {
            Some((from, to)) => {
                if range_is(line, from, to, &none) || (range_is(line, start, end, &name_title)
                    && range_is(line, from, to, &mount_title)) {
                    None
                } else {
                    Some(string_of(line, start, end))
                }
            },
            None => None,
        },
        None => None,
    }
}

/// The snapshots that a listing names, in its order.
pub fn parse_snapshot_listing(text: &str) -> (names: Vec<String>)
    ensures
        texts(names@) == snapshot_names(text@),
{
    let chars = chars_of(text);
    let found = lines_of(&chars);
    let mut names: Vec<String> = Vec::new();
    let mut i: usize = 0;
    proof {
        assert(lines(text@).take(0) =~= Seq::empty());
        assert(texts(names@) =~= Seq::empty());
    }
    while i < found.len()
        invariant
            i <= found.len(),
            rows(found@) == lines(text@),
            texts(names@) == lines(text@).take(i as int).filter_map(
                |line: Seq<char>| snapshot_row(line),
            ),
        decreases found.len() - i,
    {
        proof {
            lines(text@).lemma_filter_map_take_succ(|line: Seq<char>| snapshot_row(line), i as int);
            assert(rows(found@)[i as int] == found@[i as int]@);
        }
        match snapshot_in(&found[i]) {
            Some(name) => {
                proof {
                    crate::text::lemma_texts_push(names@, name);
                    assert(texts(names@).push(name@) =~= texts(names@) + seq![name@]);
                }
                names.push(name);
            },
            None => {
                proof {
                    assert(texts(names@) + Seq::empty() =~= texts(names@));
                }
            },
        }
        i += 1;
    }
    proof {
        assert(lines(text@).take(i as int) =~= lines(text@));
    }
    names
}

/// The mounted filesystems that a listing names, in its order.
pub fn parse_mounted_listing(text: &str) -> (names: Vec<String>)
    ensures
        texts(names@) == mounted_names(text@),
{
    let chars = chars_of(text);
    let found = lines_of(&chars);
    let mut names: Vec<String> = Vec::new();
    let mut i: usize = 0;
    proof {
        assert(lines(text@).take(0) =~= Seq::empty());
        assert(texts(names@) =~= Seq::empty());
    }
    while i < found.len()
        invariant
            i <= found.len(),
            rows(found@) == lines(text@),
            texts(names@) == lines(text@).take(i as int).filter_map(
                |line: Seq<char>| mounted_row(line),
            ),
        decreases found.len() - i,
    {
        proof {
            lines(text@).lemma_filter_map_take_succ(|line: Seq<char>| mounted_row(line), i as int);
            assert(rows(found@)[i as int] == found@[i as int]@);
        }
        match mounted_in(&found[i]) {
            Some(name) => {
                proof {
                    crate::text::lemma_texts_push(names@, name);
                    assert(texts(names@).push(name@) =~= texts(names@) + seq![name@]);
                }
                names.push(name);
            },
            None => {
                proof {
                    assert(texts(names@) + Seq::empty() =~= texts(names@));
                }
            },
        }
        i += 1;
    }
    proof {
        assert(lines(text@).take(i as int) =~= lines(text@));
    }
    names
}

/// `String::from_utf8`: the text that the bytes encode, where they are valid UTF-8.
#[verifier::external_body]
fn text_of(bytes: Vec<u8>) -> (r: Option<String>)
    ensures
        match r {
            Some(text) => valid_utf8(bytes@) && text@ == decode_utf8(bytes@),
            None => !valid_utf8(bytes@),
        },
{
    String::from_utf8(bytes).ok()
}

/// The text of a listing, as the tool has written it. Output that is not
/// valid text is refused with `ReplError::Catalog`.
pub fn decode_listing(output: Vec<u8>) -> (r: Result<String, ReplError>)
    ensures
        match r {
            Ok(text) => valid_utf8(output@) && text@ == decode_utf8(output@),
            Err(e) => e == ReplError::Catalog && !valid_utf8(output@),
        },
{
    match text_of(output) {
        Some(text) => Ok(text),
        None => Err(ReplError::Catalog),
    }
}

/// The snapshots that the output of a listing names.
pub fn list_snapshots(output: Vec<u8>) -> (r: Result<Vec<String>, ReplError>)
    ensures
        match r {
            Ok(names) => valid_utf8(output@) && texts(names@) == snapshot_names(
                decode_utf8(output@),
            ),
            Err(e) => e == ReplError::Catalog && !valid_utf8(output@),
        },
{
    match decode_listing(output) {
        Ok(text) => Ok(parse_snapshot_listing(text.as_str())),
        Err(e) => Err(e),
    }
}

/// The mounted filesystems that the output of a listing names.
pub fn list_mounted_pools(output: Vec<u8>) -> (r: Result<Vec<String>, ReplError>)
    ensures
        match r {
            Ok(names) => valid_utf8(output@) && texts(names@) == mounted_names(
                decode_utf8(output@),
            ),
            Err(e) => e == ReplError::Catalog && !valid_utf8(output@),
        },
{
    match decode_listing(output) {
        Ok(text) => Ok(parse_mounted_listing(text.as_str())),
        Err(e) => Err(e),
    }
}

} // verus!
