//! The live preview: a program's source and output side by side.

use vstd::prelude::*;
use crate::text::{chars_of, chars_range, owned, push_char, push_str, string_of, strings_view, utf8_len};
use crate::shell::{char_index_at_byte, char_index_of_byte, utf8_len_of};

verus! {

/// What the preview shows of a run: the source, the output and the trace.
#[derive(Debug, Clone)]
pub struct PreviewSnapshot {
    pub source: String,
    pub output: String,
    pub trace: Vec<String>,
}

/// `char_index_at_byte` finds a number of characters of `s`, at least one
/// for a positive byte count.
pub proof fn lemma_char_index_range(s: Seq<char>, b: int)
    ensures
        char_index_at_byte(s, b) matches Some(k) ==> 0 <= k <= s.len() && (b > 0 ==> k >= 1),
    decreases s.len(),
{
    if b != 0 && b >= 0 && s.len() > 0 {
        lemma_char_index_range(s.drop_first(), b - crate::text::char_utf8_len(s[0]));
    }
}

/// A line cut into pieces of `width` bytes; `None` where a cut falls
/// inside a character, or where the width is zero and the line is not
/// empty.
pub open spec fn byte_chunks(line: Seq<char>, width: nat) -> Option<Seq<Seq<char>>>
    decreases line.len(),
{
    if utf8_len(line) <= width {
        Some(seq![line])
    } else if width == 0 {
        None
    } else {
        match char_index_at_byte(line, width as int) {
            None => None,
            Some(k) => {
                proof {
                    lemma_char_index_range(line, width as int);
                }
                if 1 <= k <= line.len() {
                    match byte_chunks(line.skip(k), width) {
                        None => None,
                        Some(rest) => Some(seq![line.take(k)] + rest),
                    }
                } else {
                    None
                }
            },
        }
    }
}

/// The lines of a text wrapped at `width` bytes, one empty line for an
/// empty text; `None` where a line cannot be cut.
pub open spec fn wrapped_lines(lines: Seq<Seq<char>>, width: nat) -> Option<Seq<Seq<char>>>
    decreases lines.len(),
{
    if lines.len() == 0 {
        Some(Seq::empty())
    } else {
        match (wrapped_lines(lines.drop_last(), width), byte_chunks(lines.last(), width)) {
            (Some(a), Some(b)) => Some(a + b),
            _ => None,
        }
    }
}

/// The text wrapped for one column of the preview.
pub open spec fn wrapped_text(text: Seq<char>, width: nat) -> Option<Seq<Seq<char>>> {
    match wrapped_lines(crate::editor::split_lines(text), width) {
        None => None,
        Some(out) => if out.len() == 0 { Some(seq![Seq::<char>::empty()]) } else { Some(out) },
    }
}

proof fn lemma_wrapped_prefix_none(lines: Seq<Seq<char>>, k: int, width: nat)
    requires
        0 <= k <= lines.len(),
        wrapped_lines(lines.take(k), width) is None,
    ensures
        wrapped_lines(lines, width) is None,
    decreases lines.len() - k,
{
    if k < lines.len() {
        assert(lines.take(k + 1).drop_last() =~= lines.take(k));
        lemma_wrapped_prefix_none(lines, k + 1, width);
    } else {
        assert(lines.take(k) =~= lines);
    }
}

/// Cuts a line into pieces of `width` bytes.
fn chunks_of(line: &[char], width: usize) -> (r: Option<Vec<String>>)
    ensures
        match r {
            Some(v) => byte_chunks(line@, width as nat) == Some(strings_view(v@)),
            None => byte_chunks(line@, width as nat) is None,
        },
{
    let mut out: Vec<String> = Vec::new();
    let mut start: usize = 0;
    let ghost mut acc: Seq<Seq<char>> = Seq::empty();
    assert(line@.skip(0) =~= line@);
    loop
        invariant
            start <= line@.len(),
            strings_view(out@) == acc,
            byte_chunks(line@, width as nat) == (match byte_chunks(line@.skip(start as int), width as nat) {
                Some(rest) => Some(acc + rest),
                None => None::<Seq<Seq<char>>>,
            }),
        decreases line@.len() - start,
    {
        let rest = chars_range(line, start, line.len());
        assert(rest@ =~= line@.skip(start as int));
        let n = utf8_len_of(&rest);
        if n <= width as u128 {
            let ghost before = strings_view(out@);
            out.push(string_of(&rest));
            assert(strings_view(out@) =~= before.push(rest@));
            assert(acc + seq![rest@] =~= acc.push(rest@));
            return Some(out);
        }
        if width == 0 {
            return None;
        }
        match char_index_of_byte(&rest, width as u128) {
            None => return None,
            Some(k) => {
                proof {
                    lemma_char_index_range(rest@, width as int);
                }
                let piece = chars_range(&rest, 0, k);
                assert(piece@ =~= rest@.take(k as int));
                assert(rest@.skip(k as int) =~= line@.skip(start + k));
                let ghost before = strings_view(out@);
                out.push(string_of(&piece));
                assert(strings_view(out@) =~= before.push(piece@));
                proof {
                    assert(acc + (seq![piece@] + Seq::empty()) =~= acc.push(piece@) + Seq::empty());
                    assert forall|r: Seq<Seq<char>>| #[trigger] (acc + (seq![piece@] + r)) == acc.push(piece@) + r by {
                        assert(acc + (seq![piece@] + r) =~= acc.push(piece@) + r);
                    }
                    acc = acc.push(piece@);
                }
                start = start + k;
            },
        }
    }
}

/// Wraps a text at `width` bytes; `None` where a cut falls inside a
/// character or the width is zero under a non-empty line.
pub fn try_wrap_lines(text: &str, width: usize) -> (r: Option<Vec<String>>)
    ensures
        match r {
            Some(v) => wrapped_text(text@, width as nat) == Some(strings_view(v@)),
            None => wrapped_text(text@, width as nat) is None,
        },
{
    let lines = crate::editor::text_lines(text);
    let mut out: Vec<String> = Vec::new();
    let mut i: usize = 0;
    while i < lines.len()
        invariant
            i <= lines@.len(),
            strings_view(lines@) == crate::editor::split_lines(text@),
            wrapped_lines(strings_view(lines@).take(i as int), width as nat) == Some(strings_view(out@)),
        decreases lines@.len() - i,
    {
        let ghost pre2 = strings_view(lines@).take(i + 1);
        assert(pre2.drop_last() =~= strings_view(lines@).take(i as int));
        assert(pre2.last() == lines@[i as int]@);
        let lv = chars_of(lines[i].as_str());
        match chunks_of(&lv, width) {
            None => {
                proof {
                    lemma_wrapped_prefix_none(strings_view(lines@), i + 1, width as nat);
                }
                return None;
            },
            Some(pieces) => {
                let ghost before = strings_view(out@);
                let mut k: usize = 0;
                while k < pieces.len()
                    invariant
                        k <= pieces@.len(),
                        strings_view(out@) == before + strings_view(pieces@).take(k as int),
                    decreases pieces@.len() - k,
                {
                    let ghost b = strings_view(out@);
                    let piece = pieces[k].clone();
                    assert(piece@ == strings_view(pieces@)[k as int]);
                    out.push(piece);
                    assert(strings_view(out@) =~= b.push(piece@));
                    assert(strings_view(out@) =~= before + strings_view(pieces@).take(k + 1));
                    k = k + 1;
                }
                assert(strings_view(pieces@).take(pieces@.len() as int) =~= strings_view(pieces@));
            },
        }
        i = i + 1;
    }
    assert(strings_view(lines@).take(lines@.len() as int) =~= strings_view(lines@));
    if out.len() == 0 {
        out.push(String::new());
        assert(strings_view(out@) =~= seq![Seq::<char>::empty()]);
    }
    Some(out)
}

/// Wraps a text at `width` bytes for one column of the preview.
pub fn wrap_lines(text: &str, width: usize) -> (r: Vec<String>)
    requires
        wrapped_text(text@, width as nat) is Some,
    ensures
        wrapped_text(text@, width as nat) == Some(strings_view(r@)),
{
    try_wrap_lines(text, width).unwrap()
}

} // verus!

verus! {

/// The output shown while a program waits for input: what it printed,
/// ended by a newline, then which input line it waits for.
pub open spec fn input_wait_text(stdout: Seq<char>, consumed_lines: nat) -> Seq<char> {
    (if stdout.len() > 0 && stdout.last() != '\n' { stdout.push('\n') } else { stdout })
        + "Program is waiting for input line "@ + crate::text::decimal(consumed_lines + 1) + "."@
}

/// The output shown while a program waits for input.
pub fn input_wait_output(stdout: &str, consumed_lines: usize) -> (r: String)
    requires
        consumed_lines < usize::MAX,
    ensures
        r@ == input_wait_text(stdout@, consumed_lines as nat),
{
    let mut out = owned(stdout);
    let v = chars_of(stdout);
    if v.len() > 0 && v[v.len() - 1] != '\n' {
        push_char(&mut out, '\n');
    }
    push_str(&mut out, "Program is waiting for input line ");
    push_str(&mut out, crate::text::decimal_string(consumed_lines + 1).as_str());
    push_str(&mut out, ".");
    out
}

/// The width of each column of the preview: half the terminal less two,
/// at least 20.
pub open spec fn preview_column(width: nat) -> nat {
    let c = if width / 2 >= 2 { (width / 2 - 2) as nat } else { 0 };
    if c > 20 { c } else { 20 }
}

/// `n` dashes.
pub open spec fn dashes(n: nat) -> Seq<char> {
    Seq::new(n, |i: int| '-')
}

/// The lines of the live preview: a title, the column heads, a rule, the
/// source and output side by side, and the first ten trace lines after a
/// blank line when there is a trace.
pub open spec fn preview_text(path: Seq<char>, left: Seq<Seq<char>>, right: Seq<Seq<char>>, trace: Seq<Seq<char>>, column: nat) -> Seq<Seq<char>> {
    let rows: nat = if left.len() >= right.len() { if left.len() >= 1 { left.len() } else { 1 } } else { right.len() };
    seq![
        "SNSX Live Preview ["@ + path + "]"@,
        crate::text::pad_right("Source"@, column) + " | "@ + "Output"@,
        dashes(column) + "-+-"@ + dashes(column),
    ] + Seq::new(rows, |r: int| crate::text::pad_right(crate::studio::row_at(left, r), column) + " | "@ + crate::studio::row_at(right, r))
        + if trace.len() > 0 {
            seq![Seq::<char>::empty(), "Trace:"@] + trace.take(if trace.len() < 10 { trace.len() as int } else { 10 })
        } else {
            Seq::empty()
        }
}

fn dash_string(n: usize) -> (r: String)
    ensures
        r@ == dashes(n as nat),
{
    let mut s = String::new();
    let mut i: usize = 0;
    while i < n
        invariant
            i <= n,
            s@ == dashes(i as nat),
        decreases n - i,
    {
        push_char(&mut s, '-');
        i = i + 1;
        assert(s@ =~= dashes(i as nat));
    }
    s
}

/// The lines of the live preview of a snapshot in a terminal of the given
/// width; `None` where the source or output cannot be wrapped.
pub fn live_preview_lines(path: &str, snapshot: &PreviewSnapshot, terminal_width: usize) -> (r: Option<Vec<String>>)
    ensures
        match r {
            Some(v) => {
                let column = preview_column(terminal_width as nat);
                &&& wrapped_text(snapshot.source@, column) is Some
                &&& wrapped_text(snapshot.output@, column) is Some
                &&& strings_view(v@) == preview_text(path@, wrapped_text(snapshot.source@, column)->0,
                        wrapped_text(snapshot.output@, column)->0, strings_view(snapshot.trace@), column)
            },
            None => {
                let column = preview_column(terminal_width as nat);
                wrapped_text(snapshot.source@, column) is None || wrapped_text(snapshot.output@, column) is None
            },
        },
{
    let half = terminal_width / 2;
    let c = if half >= 2 { half - 2 } else { 0 };
    let column = if c > 20 { c } else { 20 };
    let left = match try_wrap_lines(snapshot.source.as_str(), column) {
        Some(l) => l,
        None => return None,
    };
    let right = match try_wrap_lines(snapshot.output.as_str(), column) {
        Some(r) => r,
        None => return None,
    };
    let rows = if left.len() >= right.len() { if left.len() >= 1 { left.len() } else { 1 } } else { right.len() };
    let mut lines: Vec<String> = Vec::new();
    let mut title = owned("SNSX Live Preview [");
    push_str(&mut title, path);
    push_str(&mut title, "]");
    lines.push(title);
    let mut heads = crate::text::pad_right_string("Source", column);
    push_str(&mut heads, " | ");
    push_str(&mut heads, "Output");
    lines.push(heads);
    let mut rule = dash_string(column);
    push_str(&mut rule, "-+-");
    push_str(&mut rule, dash_string(column).as_str());
    lines.push(rule);
    let ghost head = strings_view(lines@);
    let ghost body = Seq::new(rows as nat, |r: int| crate::text::pad_right(crate::studio::row_at(strings_view(left@), r), column as nat) + " | "@ + crate::studio::row_at(strings_view(right@), r));
    let mut row: usize = 0;
    while row < rows
        invariant
            row <= rows,
            body == Seq::new(rows as nat, |r: int| crate::text::pad_right(crate::studio::row_at(strings_view(left@), r), column as nat) + " | "@ + crate::studio::row_at(strings_view(right@), r)),
            strings_view(lines@) == head + body.take(row as int),
        decreases rows - row,
    {
        let l = if row < left.len() { left[row].as_str() } else { "" };
        let r = if row < right.len() { right[row].as_str() } else { "" };
        proof {
            reveal_strlit("");
        }
        let mut line = crate::text::pad_right_string(l, column);
        push_str(&mut line, " | ");
        push_str(&mut line, r);
        let ghost before = strings_view(lines@);
        lines.push(line);
        assert(strings_view(lines@) =~= before.push(line@));
        assert(body.take(row + 1) =~= body.take(row as int).push(body[row as int]));
        row = row + 1;
    }
    assert(body.take(rows as int) =~= body);
    let ghost unt = strings_view(lines@);
    if snapshot.trace.len() > 0 {
        lines.push(String::new());
        lines.push(owned("Trace:"));
        let limit = if snapshot.trace.len() < 10 { snapshot.trace.len() } else { 10 };
        let ghost tv = strings_view(snapshot.trace@);
        let mut k: usize = 0;
        assert(strings_view(lines@) =~= unt + seq![Seq::<char>::empty(), "Trace:"@]);
        while k < limit
            invariant
                k <= limit <= snapshot.trace@.len(),
                tv == strings_view(snapshot.trace@),
                strings_view(lines@) == unt + seq![Seq::<char>::empty(), "Trace:"@] + tv.take(k as int),
            decreases limit - k,
        {
            let item = snapshot.trace[k].clone();
            assert(item@ == tv[k as int]);
            let ghost before = strings_view(lines@);
            lines.push(item);
            assert(strings_view(lines@) =~= before.push(item@));
            assert(tv.take(k + 1) =~= tv.take(k as int).push(tv[k as int]));
            k = k + 1;
        }
    } else {
        assert(unt + Seq::<Seq<char>>::empty() =~= unt);
    }
    Some(lines)
}

} // verus!
