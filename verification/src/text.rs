//! Text helpers over the character view of strings.

use vstd::prelude::*;
use vstd::string::*;

verus! {

/// Appends one character to a string.
///
/// Trusted: `String::push`, which std documents as appending the given char
/// to the end of the string.
#[verifier::external_body]
pub(crate) fn push_char(s: &mut String, c: char)
    ensures
        final(s)@ == old(s)@.push(c),
{
    s.push(c);
}

/// The characters of a string.
pub fn chars_of(s: &str) -> (v: Vec<char>)
    ensures
        v@ == s@,
{
    let n = s.unicode_len();
    let mut v: Vec<char> = Vec::new();
    let mut i: usize = 0;
    while i < n
        invariant
            i <= n,
            n == s@.len(),
            v@ == s@.subrange(0, i as int),
        decreases n - i,
    {
        v.push(s.get_char(i));
        i = i + 1;
        assert(v@ =~= s@.subrange(0, i as int));
    }
    assert(s@.subrange(0, n as int) =~= s@);
    v
}

/// A string made of the characters `chars[from..to]`.
pub fn string_of_range(chars: &[char], from: usize, to: usize) -> (s: String)
    requires
        from <= to <= chars@.len(),
    ensures
        s@ == chars@.subrange(from as int, to as int),
{
    let mut s = String::new();
    let mut i = from;
    while i < to
        invariant
            from <= i <= to <= chars@.len(),
            s@ == chars@.subrange(from as int, i as int),
        decreases to - i,
    {
        push_char(&mut s, chars[i]);
        i = i + 1;
        assert(s@ =~= chars@.subrange(from as int, i as int));
    }
    s
}

/// A string made of the given characters.
pub fn string_of(chars: &[char]) -> (s: String)
    ensures
        s@ == chars@,
{
    let s = string_of_range(chars, 0, chars.len());
    assert(chars@.subrange(0, chars@.len() as int) =~= chars@);
    s
}

/// Appends the characters of a string slice.
pub fn push_str(s: &mut String, t: &str)
    ensures
        final(s)@ == old(s)@ + t@,
{
    s.append(t);
}

/// The number of times `c` occurs in `s`.
pub open spec fn count_char(s: Seq<char>, c: char) -> nat
    decreases s.len(),
{
    if s.len() == 0 {
        0
    } else {
        count_char(s.drop_last(), c) + if s.last() == c { 1nat } else { 0nat }
    }
}

pub proof fn lemma_count_char_bound(s: Seq<char>, c: char)
    ensures
        count_char(s, c) <= s.len(),
    decreases s.len(),
{
    if s.len() > 0 {
        lemma_count_char_bound(s.drop_last(), c);
    }
}

/// The number of lines `str::lines` yields: one per newline, plus one for a
/// final line that does not end in a newline.
pub open spec fn line_count(s: Seq<char>) -> nat {
    count_char(s, '\n') + if s.len() > 0 && s.last() != '\n' { 1nat } else { 0nat }
}

/// The number of lines of a text, as `str::lines` counts them.
pub fn count_lines(s: &str) -> (n: usize)
    ensures
        n == line_count(s@),
{
    let chars = chars_of(s);
    let mut count: usize = 0;
    let mut i: usize = 0;
    while i < chars.len()
        invariant
            i <= chars@.len(),
            chars@ == s@,
            count == count_char(s@.subrange(0, i as int), '\n'),
            count <= i,
        decreases chars@.len() - i,
    {
        assert(s@.subrange(0, i + 1).drop_last() =~= s@.subrange(0, i as int));
        if chars[i] == '\n' {
            count = count + 1;
        }
        i = i + 1;
    }
    assert(s@.subrange(0, chars@.len() as int) =~= s@);
    if chars.len() > 0 && chars[chars.len() - 1] != '\n' {
        proof {
            lemma_count_char_bound(s@.drop_last(), '\n');
        }
        count + 1
    } else {
        count
    }
}

/// The number of bytes of the UTF-8 encoding of a character.
pub open spec fn char_utf8_len(c: char) -> nat {
    if (c as u32) < 0x80 {
        1
    } else if (c as u32) < 0x800 {
        2
    } else if (c as u32) < 0x10000 {
        3
    } else {
        4
    }
}

/// The number of bytes of the UTF-8 encoding of a text.
pub open spec fn utf8_len(s: Seq<char>) -> nat
    decreases s.len(),
{
    if s.len() == 0 {
        0
    } else {
        utf8_len(s.drop_last()) + char_utf8_len(s.last())
    }
}

/// The number of bytes of the UTF-8 encoding of a character.
pub fn char_len_utf8(c: char) -> (n: usize)
    ensures
        n == char_utf8_len(c),
{
    let v = c as u32;
    if v < 0x80 {
        1
    } else if v < 0x800 {
        2
    } else if v < 0x10000 {
        3
    } else {
        4
    }
}

/// `n` spaces.
pub open spec fn spaces(n: nat) -> Seq<char> {
    Seq::new(n, |i: int| ' ')
}

} // verus!

verus! {

/// The UTF-8 encoding of a concatenation is the concatenation of the
/// encodings.
pub proof fn lemma_encode_utf8_concat(a: Seq<char>, b: Seq<char>)
    ensures
        vstd::utf8::encode_utf8(a + b) == vstd::utf8::encode_utf8(a) + vstd::utf8::encode_utf8(b),
    decreases a.len(),
{
    if a.len() == 0 {
        assert(a + b =~= b);
    } else {
        assert((a + b).drop_first() =~= a.drop_first() + b);
        lemma_encode_utf8_concat(a.drop_first(), b);
    }
}

/// A space takes one byte in UTF-8.
pub proof fn lemma_encode_utf8_space()
    ensures
        vstd::utf8::encode_utf8(seq![' ']).len() == 1,
{
    let s = seq![' '];
    assert(s.drop_first() =~= Seq::<char>::empty());
    assert((' ' as u32) == 32);
    assert(vstd::utf8::has_width_1_encoding(32));
    assert(vstd::utf8::encode_utf8(s) == vstd::utf8::encode_scalar(32) + vstd::utf8::encode_utf8(Seq::<char>::empty()));
}

/// A character's UTF-8 encoding is `char_utf8_len` bytes long.
pub proof fn lemma_char_encode_len(c: char)
    ensures
        vstd::utf8::encode_utf8(seq![c]).len() == char_utf8_len(c),
{
    let s = seq![c];
    assert(s.drop_first() =~= Seq::<char>::empty());
    vstd::utf8::char_is_scalar(c);
    assert(vstd::utf8::encode_utf8(s) == vstd::utf8::encode_scalar(c as u32) + vstd::utf8::encode_utf8(Seq::<char>::empty()));
}

/// A text's UTF-8 encoding is `utf8_len` bytes long.
pub proof fn lemma_encode_utf8_len(s: Seq<char>)
    ensures
        vstd::utf8::encode_utf8(s).len() == utf8_len(s),
    decreases s.len(),
{
    if s.len() > 0 {
        lemma_encode_utf8_len(s.drop_last());
        lemma_encode_utf8_concat(s.drop_last(), seq![s.last()]);
        assert(s.drop_last() + seq![s.last()] =~= s);
        lemma_char_encode_len(s.last());
    }
}

/// The UTF-8 length of a text, or `cap` when it is at least `cap` bytes.
pub fn utf8_len_capped(s: &str, cap: usize) -> (n: usize)
    ensures
        n == (if utf8_len(s@) < cap { utf8_len(s@) } else { cap as nat }),
{
    let chars = chars_of(s);
    let mut acc: usize = 0;
    let mut i: usize = 0;
    while i < chars.len()
        invariant
            i <= chars@.len(),
            chars@ == s@,
            acc == utf8_len(s@.subrange(0, i as int)),
            acc < cap || (acc == 0 && cap == 0),
        decreases chars@.len() - i,
    {
        let l = char_len_utf8(chars[i]);
        assert(s@.subrange(0, i + 1).drop_last() =~= s@.subrange(0, i as int));
        if l >= cap - acc {
            proof {
                lemma_utf8_len_prefix_mono(s@, i + 1);
            }
            return cap;
        }
        acc = acc + l;
        i = i + 1;
    }
    assert(s@.subrange(0, chars@.len() as int) =~= s@);
    acc
}

proof fn lemma_utf8_len_prefix_mono(s: Seq<char>, k: int)
    requires
        0 <= k <= s.len(),
    ensures
        utf8_len(s.subrange(0, k)) <= utf8_len(s),
    decreases s.len() - k,
{
    if k < s.len() {
        lemma_utf8_len_prefix_mono(s, k + 1);
        assert(s.subrange(0, k + 1).drop_last() =~= s.subrange(0, k));
    } else {
        assert(s.subrange(0, k) =~= s);
    }
}

/// The lines joined by newlines.
pub open spec fn join_lines(lines: Seq<Seq<char>>) -> Seq<char>
    decreases lines.len(),
{
    if lines.len() == 0 {
        Seq::empty()
    } else if lines.len() == 1 {
        lines[0]
    } else {
        join_lines(lines.drop_last()) + seq!['\n'] + lines.last()
    }
}

/// The text of each string.
pub open spec fn strings_view(v: Seq<String>) -> Seq<Seq<char>> {
    Seq::new(v.len(), |i: int| v[i]@)
}

/// Joins lines with newlines.
pub fn join_with_newlines(lines: &Vec<String>) -> (s: String)
    ensures
        s@ == join_lines(strings_view(lines@)),
{
    let mut s = String::new();
    let mut i: usize = 0;
    while i < lines.len()
        invariant
            i <= lines@.len(),
            s@ == join_lines(strings_view(lines@).subrange(0, i as int)),
        decreases lines@.len() - i,
    {
        let ghost pre = strings_view(lines@).subrange(0, i as int);
        let ghost pre2 = strings_view(lines@).subrange(0, i + 1);
        if i > 0 {
            push_char(&mut s, '\n');
        }
        push_str(&mut s, lines[i].as_str());
        proof {
            assert(pre2.drop_last() =~= pre);
            if i == 0 {
                assert(s@ =~= pre2[0]);
            } else {
                assert(s@ =~= join_lines(pre) + seq!['\n'] + pre2.last());
            }
        }
        i = i + 1;
    }
    assert(strings_view(lines@).subrange(0, lines@.len() as int) =~= strings_view(lines@));
    s
}

} // verus!

verus! {

/// Whether two texts are equal.
pub fn str_eq(a: &str, b: &str) -> (r: bool)
    ensures
        r == (a@ == b@),
{
    let x = chars_of(a);
    let y = chars_of(b);
    chars_eq(&x, &y)
}

/// Whether two character sequences are equal.
pub fn chars_eq(x: &[char], y: &[char]) -> (r: bool)
    ensures
        r == (x@ == y@),
{
    if x.len() != y.len() {
        return false;
    }
    let mut i: usize = 0;
    while i < x.len()
        invariant
            i <= x@.len(),
            x@.len() == y@.len(),
            forall|j: int| 0 <= j < i ==> x@[j] == y@[j],
        decreases x@.len() - i,
    {
        if x[i] != y[i] {
            return false;
        }
        i = i + 1;
    }
    assert(x@ =~= y@);
    true
}

} // verus!

verus! {

/// The decimal digits of a number.
pub open spec fn decimal(n: nat) -> Seq<char>
    decreases n,
{
    if n < 10 {
        seq![(('0' as nat) + n) as char]
    } else {
        decimal(n / 10).push((('0' as nat) + n % 10) as char)
    }
}

/// The decimal text of a number.
pub fn decimal_string(n: usize) -> (s: String)
    ensures
        s@ == decimal(n as nat),
    decreases n,
{
    let digits: [char; 10] = ['0', '1', '2', '3', '4', '5', '6', '7', '8', '9'];
    assert(digits@ =~= seq!['0', '1', '2', '3', '4', '5', '6', '7', '8', '9']);
    if n < 10 {
        let mut s = String::new();
        push_char(&mut s, digits[n]);
        assert(s@ =~= decimal(n as nat));
        s
    } else {
        let mut s = decimal_string(n / 10);
        push_char(&mut s, digits[n % 10]);
        s
    }
}

/// The decimal text of a 64-bit number.
pub fn decimal_string_u64(n: u64) -> (s: String)
    ensures
        s@ == decimal(n as nat),
    decreases n,
{
    let digits: [char; 10] = ['0', '1', '2', '3', '4', '5', '6', '7', '8', '9'];
    assert(digits@ =~= seq!['0', '1', '2', '3', '4', '5', '6', '7', '8', '9']);
    if n < 10 {
        let mut s = String::new();
        push_char(&mut s, digits[n as usize]);
        assert(s@ =~= decimal(n as nat));
        s
    } else {
        let mut s = decimal_string_u64(n / 10);
        push_char(&mut s, digits[(n % 10) as usize]);
        s
    }
}

/// The text right-aligned in a field of `width` characters.
pub open spec fn pad_left(s: Seq<char>, width: nat) -> Seq<char> {
    if s.len() >= width {
        s
    } else {
        spaces((width - s.len()) as nat) + s
    }
}

/// Right-aligns a text in a field of `width` characters.
pub fn pad_left_string(s: &str, width: usize) -> (r: String)
    ensures
        r@ == pad_left(s@, width as nat),
{
    let n = s.unicode_len();
    let mut r = String::new();
    let mut i = n;
    while i < width
        invariant
            n == s@.len(),
            n <= i <= width || (n > width && i == n),
            r@ == spaces((i - n) as nat),
        decreases width - i,
    {
        push_char(&mut r, ' ');
        assert(r@ =~= spaces((i + 1 - n) as nat));
        i = i + 1;
    }
    push_str(&mut r, s);
    assert(spaces(0) + s@ =~= s@);
    r
}

/// The characters of `s` from index `start`, at most `width` of them.
pub open spec fn slice_seq(s: Seq<char>, start: int, width: int) -> Seq<char> {
    let lo = if start < s.len() { start } else { s.len() as int };
    let hi = if lo + width < s.len() { lo + width } else { s.len() as int };
    s.subrange(lo, hi)
}

/// At most `width` characters of a text, from character index `start`.
pub fn slice_chars(text: &str, start: usize, width: usize) -> (s: String)
    ensures
        s@ == slice_seq(text@, start as int, width as int),
{
    let chars = chars_of(text);
    let lo = if start < chars.len() { start } else { chars.len() };
    let hi = if width < chars.len() - lo { lo + width } else { chars.len() };
    string_of_range(&chars, lo, hi)
}

/// The number of characters of a text.
pub fn text_char_len(text: &str) -> (n: usize)
    ensures
        n == text@.len(),
{
    text.unicode_len()
}

/// `n` copies of a character.
pub fn repeat_char(c: char, n: usize) -> (s: String)
    ensures
        s@ == Seq::new(n as nat, |i: int| c),
{
    let mut s = String::new();
    let mut i: usize = 0;
    while i < n
        invariant
            i <= n,
            s@ == Seq::new(i as nat, |k: int| c),
        decreases n - i,
    {
        push_char(&mut s, c);
        i = i + 1;
        assert(s@ =~= Seq::new(i as nat, |k: int| c));
    }
    s
}

/// A line cut to `width` characters: unchanged when it fits, else its first
/// `width - 3` characters followed by `...` (or only dots when `width` is 3
/// or less).
pub open spec fn clip_seq(line: Seq<char>, width: int) -> Seq<char> {
    if width <= 0 {
        Seq::empty()
    } else if line.len() <= width {
        line
    } else if width <= 3 {
        Seq::new(width as nat, |i: int| '.')
    } else {
        line.subrange(0, width - 3) + seq!['.', '.', '.']
    }
}

/// Cuts a line to fit `width` characters, marking a cut with an ellipsis.
pub fn clip_line(line: &str, width: usize) -> (s: String)
    ensures
        s@ == clip_seq(line@, width as int),
{
    if width == 0 {
        return String::new();
    }
    if text_char_len(line) <= width {
        return line.to_string();
    }
    if width <= 3 {
        return repeat_char('.', width);
    }
    let mut s = slice_chars(line, 0, width - 3);
    push_str(&mut s, "...");
    proof {
        reveal_strlit("...");
    }
    assert(s@ =~= line@.subrange(0, width - 3) + seq!['.', '.', '.']);
    s
}

} // verus!

verus! {

/// Whether a character has the Unicode `White_Space` property, as
/// `char::is_whitespace` tests.
pub open spec fn is_ws(c: char) -> bool {
    ||| ('\t' <= c && c <= '\r')
    ||| c == ' '
    ||| c == '\u{85}'
    ||| c == '\u{a0}'
    ||| c == '\u{1680}'
    ||| ('\u{2000}' <= c && c <= '\u{200a}')
    ||| c == '\u{2028}'
    ||| c == '\u{2029}'
    ||| c == '\u{202f}'
    ||| c == '\u{205f}'
    ||| c == '\u{3000}'
}

/// Whether a character is white space.
pub fn is_whitespace(c: char) -> (r: bool)
    ensures
        r == is_ws(c),
{
    ('\t' <= c && c <= '\r') || c == ' ' || c == '\u{85}' || c == '\u{a0}' || c == '\u{1680}'
        || ('\u{2000}' <= c && c <= '\u{200a}') || c == '\u{2028}' || c == '\u{2029}'
        || c == '\u{202f}' || c == '\u{205f}' || c == '\u{3000}'
}

/// Whether every character of a text is white space.
pub open spec fn all_ws(s: Seq<char>) -> bool {
    forall|i: int| 0 <= i < s.len() ==> is_ws(#[trigger] s[i])
}

/// Whether a text is empty once trimmed.
pub fn is_blank(text: &str) -> (r: bool)
    ensures
        r == all_ws(text@),
{
    let chars = chars_of(text);
    let mut i: usize = 0;
    while i < chars.len()
        invariant
            i <= chars@.len(),
            chars@ == text@,
            forall|j: int| 0 <= j < i ==> is_ws(#[trigger] chars@[j]),
        decreases chars@.len() - i,
    {
        if !is_whitespace(chars[i]) {
            return false;
        }
        i = i + 1;
    }
    true
}

} // verus!

verus! {

/// The text without its leading white space.
pub open spec fn trim_start(s: Seq<char>) -> Seq<char>
    decreases s.len(),
{
    if s.len() > 0 && is_ws(s[0]) {
        trim_start(s.drop_first())
    } else {
        s
    }
}

/// The text without its trailing white space.
pub open spec fn trim_end(s: Seq<char>) -> Seq<char>
    decreases s.len(),
{
    if s.len() > 0 && is_ws(s.last()) {
        trim_end(s.drop_last())
    } else {
        s
    }
}

/// The text without leading and trailing white space.
pub open spec fn trim(s: Seq<char>) -> Seq<char> {
    trim_end(trim_start(s))
}

/// Whether `s` begins with `p`.
pub open spec fn starts_with(s: Seq<char>, p: Seq<char>) -> bool {
    p.len() <= s.len() && s.subrange(0, p.len() as int) == p
}

proof fn lemma_trim_start_suffix(s: Seq<char>, i: int)
    requires
        0 <= i <= s.len(),
        forall|j: int| 0 <= j < i ==> is_ws(#[trigger] s[j]),
    ensures
        trim_start(s) == trim_start(s.subrange(i, s.len() as int)),
    decreases i,
{
    if i > 0 {
        assert(s.drop_first().subrange(i - 1, s.drop_first().len() as int) =~= s.subrange(i, s.len() as int));
        assert forall|j: int| 0 <= j < i - 1 implies is_ws(#[trigger] s.drop_first()[j]) by {
            assert(s.drop_first()[j] == s[j + 1]);
        }
        lemma_trim_start_suffix(s.drop_first(), i - 1);
    } else {
        assert(s.subrange(0, s.len() as int) =~= s);
    }
}

proof fn lemma_trim_end_prefix(s: Seq<char>, k: int)
    requires
        0 <= k <= s.len(),
        forall|j: int| k <= j < s.len() ==> is_ws(#[trigger] s[j]),
    ensures
        trim_end(s) == trim_end(s.subrange(0, k)),
    decreases s.len() - k,
{
    if k < s.len() {
        assert(s.drop_last().subrange(0, k) =~= s.subrange(0, k));
        assert forall|j: int| k <= j < s.drop_last().len() implies is_ws(#[trigger] s.drop_last()[j]) by {
            assert(s.drop_last()[j] == s[j]);
        }
        lemma_trim_end_prefix(s.drop_last(), k);
    } else {
        assert(s.subrange(0, k) =~= s);
    }
}

/// The range `[lo, hi)` of `v[from..to]` that remains after trimming white
/// space.
pub fn trim_range(v: &[char], from: usize, to: usize) -> (r: (usize, usize))
    requires
        from <= to <= v@.len(),
    ensures
        from <= r.0 <= r.1 <= to,
        v@.subrange(r.0 as int, r.1 as int) == trim(v@.subrange(from as int, to as int)),
{
    let ghost s = v@.subrange(from as int, to as int);
    let mut lo = from;
    while lo < to && is_whitespace(v[lo])
        invariant
            from <= lo <= to <= v@.len(),
            s == v@.subrange(from as int, to as int),
            forall|j: int| from <= j < lo ==> is_ws(#[trigger] v@[j]),
        decreases to - lo,
    {
        lo = lo + 1;
    }
    proof {
        assert forall|j: int| 0 <= j < lo - from implies is_ws(#[trigger] s[j]) by {
            assert(s[j] == v@[from + j]);
        }
        lemma_trim_start_suffix(s, lo - from);
        assert(s.subrange(lo - from, s.len() as int) =~= v@.subrange(lo as int, to as int));
        if lo < to {
            assert(!is_ws(v@[lo as int]));
        }
    }
    let ghost t = v@.subrange(lo as int, to as int);
    assert(trim_start(s) == t) by {
        if t.len() > 0 {
            assert(t[0] == v@[lo as int]);
        }
    }
    let mut hi = to;
    while hi > lo && is_whitespace(v[hi - 1])
        invariant
            from <= lo <= hi <= to <= v@.len(),
            t == v@.subrange(lo as int, to as int),
            forall|j: int| hi <= j < to ==> is_ws(#[trigger] v@[j]),
        decreases hi - lo,
    {
        hi = hi - 1;
    }
    proof {
        assert forall|j: int| hi - lo <= j < t.len() implies is_ws(#[trigger] t[j]) by {
            assert(t[j] == v@[lo + j]);
        }
        lemma_trim_end_prefix(t, hi - lo);
        assert(t.subrange(0, hi - lo) =~= v@.subrange(lo as int, hi as int));
        let u = v@.subrange(lo as int, hi as int);
        if u.len() > 0 {
            assert(u.last() == v@[hi - 1]);
        }
    }
    (lo, hi)
}

/// The text with leading and trailing white space removed.
pub fn trim_str(s: &str) -> (r: String)
    ensures
        r@ == trim(s@),
{
    let v = chars_of(s);
    let (lo, hi) = trim_range(&v, 0, v.len());
    assert(v@.subrange(0, v@.len() as int) =~= s@);
    string_of_range(&v, lo, hi)
}

/// Whether `v[from..]` begins with the characters of `p`.
pub fn starts_with_at(v: &[char], from: usize, p: &str) -> (r: bool)
    requires
        from <= v@.len(),
    ensures
        r == starts_with(v@.subrange(from as int, v@.len() as int), p@),
{
    let pc = chars_of(p);
    let ghost s = v@.subrange(from as int, v@.len() as int);
    if pc.len() > v.len() - from {
        return false;
    }
    let mut i: usize = 0;
    while i < pc.len()
        invariant
            i <= pc@.len(),
            pc@ == p@,
            pc@.len() <= v@.len() - from,
            v@.len() <= usize::MAX,
            s == v@.subrange(from as int, v@.len() as int),
            forall|j: int| 0 <= j < i ==> v@[from + j] == pc@[j],
        decreases pc@.len() - i,
    {
        if v[from + i] != pc[i] {
            assert(s.subrange(0, p@.len() as int)[i as int] != p@[i as int]);
            return false;
        }
        i = i + 1;
    }
    assert(s.subrange(0, p@.len() as int) =~= p@);
    true
}

/// The white-space separated words of `s`, continuing a current word `cur`
/// after the words `done`.
pub open spec fn words_from(s: Seq<char>, cur: Seq<char>, done: Seq<Seq<char>>) -> Seq<Seq<char>>
    decreases s.len(),
{
    if s.len() == 0 {
        if cur.len() > 0 {
            done.push(cur)
        } else {
            done
        }
    } else if is_ws(s[0]) {
        if cur.len() > 0 {
            words_from(s.drop_first(), Seq::empty(), done.push(cur))
        } else {
            words_from(s.drop_first(), Seq::empty(), done)
        }
    } else {
        words_from(s.drop_first(), cur.push(s[0]), done)
    }
}

/// The white-space separated words of a text, as `str::split_whitespace`
/// yields them.
pub open spec fn words(s: Seq<char>) -> Seq<Seq<char>> {
    words_from(s, Seq::empty(), Seq::empty())
}

/// Splits `v[from..]` into white-space separated words.
pub fn words_of(v: &[char], from: usize) -> (ws: Vec<Vec<char>>)
    requires
        from <= v@.len(),
    ensures
        ws@.len() == words(v@.subrange(from as int, v@.len() as int)).len(),
        forall|i: int| 0 <= i < ws@.len() ==> (#[trigger] ws@[i])@ == words(v@.subrange(from as int, v@.len() as int))[i],
{
    let ghost s = v@.subrange(from as int, v@.len() as int);
    let mut ws: Vec<Vec<char>> = Vec::new();
    let mut cur: Vec<char> = Vec::new();
    let mut i = from;
    let ghost mut done: Seq<Seq<char>> = Seq::empty();
    while i < v.len()
        invariant
            from <= i <= v@.len(),
            s == v@.subrange(from as int, v@.len() as int),
            ws@.len() == done.len(),
            forall|k: int| 0 <= k < ws@.len() ==> (#[trigger] ws@[k])@ == done[k],
            words_from(v@.subrange(i as int, v@.len() as int), cur@, done) == words(s),
        decreases v@.len() - i,
    {
        let ghost rest = v@.subrange(i as int, v@.len() as int);
        assert(rest.drop_first() =~= v@.subrange(i + 1, v@.len() as int));
        assert(rest[0] == v@[i as int]);
        if is_whitespace(v[i]) {
            if cur.len() > 0 {
                let word = cur;
                ws.push(word);
                proof {
                    done = done.push(word@);
                }
                cur = Vec::new();
            } else {
                assert(cur@ =~= Seq::<char>::empty());
            }
        } else {
            cur.push(v[i]);
        }
        i = i + 1;
    }
    assert(v@.subrange(v@.len() as int, v@.len() as int) =~= Seq::<char>::empty());
    if cur.len() > 0 {
        let word = cur;
        ws.push(word);
        proof {
            done = done.push(word@);
        }
    }
    ws
}

/// The words after `done` are appended after them.
pub proof fn lemma_words_from_keeps(s: Seq<char>, cur: Seq<char>, done: Seq<Seq<char>>)
    ensures
        words_from(s, cur, done).len() >= done.len(),
        forall|i: int| 0 <= i < done.len() ==> #[trigger] words_from(s, cur, done)[i] == done[i],
    decreases s.len(),
{
    if s.len() > 0 {
        if is_ws(s[0]) {
            if cur.len() > 0 {
                lemma_words_from_keeps(s.drop_first(), Seq::empty(), done.push(cur));
                assert forall|i: int| 0 <= i < done.len() implies #[trigger] words_from(s, cur, done)[i] == done[i] by {
                    assert(done.push(cur)[i] == done[i]);
                }
            } else {
                lemma_words_from_keeps(s.drop_first(), Seq::empty(), done);
            }
        } else {
            lemma_words_from_keeps(s.drop_first(), cur.push(s[0]), done);
        }
    }
}

/// A text that begins with a character other than white space begins with
/// its first word, and has one.
pub proof fn lemma_first_word_prefix(s: Seq<char>, cur: Seq<char>)
    requires
        cur.len() > 0 || (s.len() > 0 && !is_ws(s[0])),
        forall|i: int| 0 <= i < cur.len() ==> !is_ws(#[trigger] cur[i]),
    ensures
        words_from(s, cur, Seq::empty()).len() > 0,
        starts_with(cur + s, words_from(s, cur, Seq::empty())[0]),
        forall|i: int| 0 <= i < words_from(s, cur, Seq::empty())[0].len() ==> !is_ws(#[trigger] words_from(s, cur, Seq::empty())[0][i]),
        words_from(s, cur, Seq::empty())[0].len() > 0,
    decreases s.len(),
{
    if s.len() == 0 {
        assert(cur + s =~= cur);
        assert(cur.subrange(0, cur.len() as int) =~= cur);
    } else if is_ws(s[0]) {
        lemma_words_from_keeps(s.drop_first(), Seq::empty(), seq![cur]);
        assert(seq![cur][0] == cur);
        assert(Seq::<Seq<char>>::empty().push(cur) =~= seq![cur]);
        assert((cur + s).subrange(0, cur.len() as int) =~= cur);
    } else {
        let cur2 = cur.push(s[0]);
        assert forall|i: int| 0 <= i < cur2.len() implies !is_ws(#[trigger] cur2[i]) by {
            if i < cur.len() {
                assert(cur2[i] == cur[i]);
            }
        }
        lemma_first_word_prefix(s.drop_first(), cur2);
        assert(cur2 + s.drop_first() =~= cur + s);
    }
}

} // verus!

verus! {

/// The characters `v[from..to]`.
pub fn chars_range(v: &[char], from: usize, to: usize) -> (r: Vec<char>)
    requires
        from <= to <= v@.len(),
    ensures
        r@ == v@.subrange(from as int, to as int),
{
    let mut r: Vec<char> = Vec::new();
    let mut i = from;
    while i < to
        invariant
            from <= i <= to <= v@.len(),
            r@ == v@.subrange(from as int, i as int),
        decreases to - i,
    {
        r.push(v[i]);
        i = i + 1;
        assert(r@ =~= v@.subrange(from as int, i as int));
    }
    r
}

/// Whether the characters `w` spell the text `lit`.
pub fn eq_lit(w: &[char], lit: &str) -> (r: bool)
    ensures
        r == (w@ == lit@),
{
    let l = chars_of(lit);
    chars_eq(w, &l)
}

/// A text whose trimmed form is not empty begins and ends, once trimmed,
/// with a character other than white space.
pub proof fn lemma_trim_bounds(s: Seq<char>)
    ensures
        trim(s).len() > 0 ==> !is_ws(trim(s)[0]) && !is_ws(trim(s).last()),
        trim(s).len() <= s.len(),
{
    lemma_trim_start_first(s);
    lemma_trim_end_keeps_first(trim_start(s));
}

proof fn lemma_trim_start_first(s: Seq<char>)
    ensures
        trim_start(s).len() > 0 ==> !is_ws(trim_start(s)[0]),
        trim_start(s).len() <= s.len(),
    decreases s.len(),
{
    if s.len() > 0 && is_ws(s[0]) {
        lemma_trim_start_first(s.drop_first());
    }
}

proof fn lemma_trim_end_keeps_first(s: Seq<char>)
    ensures
        trim_end(s).len() <= s.len(),
        trim_end(s).len() > 0 ==> trim_end(s)[0] == s[0] && !is_ws(trim_end(s).last()),
    decreases s.len(),
{
    if s.len() > 0 && is_ws(s.last()) {
        lemma_trim_end_keeps_first(s.drop_last());
    }
}

} // verus!

verus! {

/// An owned copy of a text.
pub fn owned(s: &str) -> (r: String)
    ensures
        r@ == s@,
{
    let mut r = String::new();
    push_str(&mut r, s);
    r
}

/// The text without its trailing white space, as the index where it ends.
pub fn trim_end_len(v: &[char]) -> (n: usize)
    ensures
        n <= v@.len(),
        v@.take(n as int) == trim_end(v@),
{
    let mut hi = v.len();
    assert(v@.take(v@.len() as int) =~= v@);
    while hi > 0 && is_whitespace(v[hi - 1])
        invariant
            hi <= v@.len(),
            trim_end(v@) == trim_end(v@.take(hi as int)),
        decreases hi,
    {
        assert(v@.take(hi as int).drop_last() =~= v@.take(hi - 1));
        hi = hi - 1;
    }
    proof {
        let t = v@.take(hi as int);
        if hi > 0 {
            assert(t.last() == v@[hi - 1]);
        }
    }
    hi
}

/// The Unicode lowercase form of a text, as `str::to_lowercase` gives it.
pub uninterp spec fn lowercase(s: Seq<char>) -> Seq<char>;

/// The lowercase form of a text.
///
/// Trusted: `str::to_lowercase`, which std documents as mapping the text
/// by the Unicode `Lowercase` property; a function of the text alone. What
/// that mapping is, character by character, is left unsaid.
#[verifier::external_body]
pub(crate) fn to_lowercase(s: &str) -> (r: String)
    ensures
        r@ == lowercase(s@),
{
    s.to_lowercase()
}

} // verus!

verus! {

/// The text left-aligned in a field of `width` characters.
pub open spec fn pad_right(s: Seq<char>, width: nat) -> Seq<char> {
    if s.len() >= width {
        s
    } else {
        s + spaces((width - s.len()) as nat)
    }
}

/// Left-aligns a text in a field of `width` characters.
pub fn pad_right_string(s: &str, width: usize) -> (r: String)
    ensures
        r@ == pad_right(s@, width as nat),
{
    let n = s.unicode_len();
    let mut r = owned(s);
    let mut i = n;
    while i < width
        invariant
            n == s@.len(),
            n <= i <= width || (n > width && i == n),
            r@ == s@ + spaces((i - n) as nat),
        decreases width - i,
    {
        push_char(&mut r, ' ');
        assert(r@ =~= s@ + spaces((i + 1 - n) as nat));
        i = i + 1;
    }
    assert(s@ + spaces(0) =~= s@);
    r
}

} // verus!
