//! What the bytecode machine reports to its hosts: its options, the trap it
//! raises when a program waits for input, and its builtins on text.

use vstd::prelude::*;
use crate::runtime::SandboxPolicy;
use vstd::string::StringSliceAdditionalSpecFns;
use crate::text::{owned, push_char, push_str, decimal, decimal_string, chars_of, trim, trim_str, is_ws};
use crate::codec::{hex, hex_text};
use crate::crypto::{sha3_256, sha3_256_digest};
use crate::listing::{occurs_in, text_contains};

verus! {

/// How a program runs on the bytecode machine.
#[derive(Debug, Clone)]
pub struct VmOptions {
    pub deterministic: bool,
    pub trace: bool,
    pub sandbox: SandboxPolicy,
    pub stdin: String,
    pub allow_host_stdin: bool,
}

impl Default for VmOptions {
    /// Nondeterministic, without trace, in the default sandbox, with no
    /// input and no access to the host's input.
    fn default() -> (o: Self)
        ensures
            !o.deterministic,
            !o.trace,
            !o.sandbox.allow_fs && !o.sandbox.allow_network && o.sandbox.allow_ai && !o.sandbox.deterministic,
            o.sandbox.max_memory_bytes == 64 * 1024 * 1024,
            o.stdin@ == Seq::<char>::empty(),
            !o.allow_host_stdin,
    {
        let stdin = String::new();
        assert(stdin@ =~= Seq::<char>::empty());
        VmOptions { deterministic: false, trace: false, sandbox: SandboxPolicy::default(), stdin, allow_host_stdin: false }
    }
}

/// A program's state when it asked for an input line that was not given:
/// what it printed, its trace, and how many input lines it had read.
#[derive(Debug, Clone)]
pub struct InputRequest {
    pub stdout: String,
    pub trace: Vec<String>,
    pub consumed_lines: usize,
}

/// Why the machine stopped a program before its end.
#[derive(Debug, Clone)]
pub enum VmTrap {
    InputRequested(InputRequest),
}

/// The message of a trap.
pub open spec fn trap_message(t: VmTrap) -> Seq<char> {
    match t {
        VmTrap::InputRequested(r) => "SNSX program is waiting for input line "@ + decimal(r.consumed_lines as nat + 1),
    }
}

impl VmTrap {
    /// The message of the trap.
    pub fn message(&self) -> (m: String)
        requires
            match self {
                VmTrap::InputRequested(r) => r.consumed_lines < usize::MAX,
            },
        ensures
            m@ == trap_message(*self),
    {
        match self {
            VmTrap::InputRequested(request) => {
                let mut s = owned("SNSX program is waiting for input line ");
                push_str(&mut s, decimal_string(request.consumed_lines + 1).as_str());
                s
            },
        }
    }
}

} // verus!

verus! {

/// Whether a text is one or more ASCII digits.
pub open spec fn ascii_digits(s: Seq<char>) -> bool {
    s.len() > 0 && forall|i: int| 0 <= i < s.len() ==> '0' <= #[trigger] s[i] && s[i] <= '9'
}

/// The value of a run of decimal digits.
pub open spec fn digits_value(s: Seq<char>) -> int
    decreases s.len(),
{
    if s.len() == 0 {
        0
    } else {
        digits_value(s.drop_last()) * 10 + (s.last() as int - '0' as int)
    }
}

/// The `i64` a text spells: an optional `+` or `-`, then decimal digits
/// only, whose value fits; `None` for any other text.
pub open spec fn i64_text_value(s: Seq<char>) -> Option<i64> {
    let signed = s.len() > 0 && (s[0] == '-' || s[0] == '+');
    let body = if signed { s.drop_first() } else { s };
    let v = if s.len() > 0 && s[0] == '-' { -digits_value(body) } else { digits_value(body) };
    if ascii_digits(body) && i64::MIN <= v && v <= i64::MAX {
        Some(v as i64)
    } else {
        None
    }
}

/// A run of digits is worth no less than any of its beginnings.
proof fn lemma_digits_value_grows(s: Seq<char>, k: int)
    requires
        0 <= k <= s.len(),
        forall|i: int| 0 <= i < s.len() ==> '0' <= #[trigger] s[i] && s[i] <= '9',
    ensures
        0 <= digits_value(s.take(k)) <= digits_value(s),
    decreases s.len(),
{
    if k == s.len() {
        assert(s.take(k) =~= s);
        lemma_digits_value_nonneg(s);
    } else {
        let t = s.drop_last();
        assert(t.take(k) =~= s.take(k));
        lemma_digits_value_grows(t, k);
        assert(s.last() == s[s.len() - 1]);
    }
}

/// A run of digits is worth at least nothing.
proof fn lemma_digits_value_nonneg(s: Seq<char>)
    requires
        forall|i: int| 0 <= i < s.len() ==> '0' <= #[trigger] s[i] && s[i] <= '9',
    ensures
        digits_value(s) >= 0,
    decreases s.len(),
{
    if s.len() > 0 {
        lemma_digits_value_nonneg(s.drop_last());
        assert(s.last() == s[s.len() - 1]);
    }
}

/// Reads an `i64` from a text as `str::parse::<i64>` does: an optional `+`
/// or `-`, then decimal digits only, whose value fits.
fn parse_i64(text: &str) -> (r: Option<i64>)
    ensures
        r == i64_text_value(text@),
{
    let v = chars_of(text);
    let n = v.len();
    let neg = n > 0 && v[0] == '-';
    let signed = n > 0 && (v[0] == '-' || v[0] == '+');
    let start: usize = if signed { 1 } else { 0 };
    let ghost body = if signed { text@.drop_first() } else { text@ };
    assert(v@.skip(start as int) =~= body);
    if start == n {
        return None;
    }
    let mut acc: u128 = 0;
    let mut i: usize = start;
    assert(body.take(0) =~= Seq::<char>::empty());
    while i < n
        invariant
            start <= i <= n,
            n == v@.len(),
            v@ == text@,
            body == v@.skip(start as int),
            body == (if text@.len() > 0 && (text@[0] == '-' || text@[0] == '+') { text@.drop_first() } else { text@ }),
            neg == (text@.len() > 0 && text@[0] == '-'),
            acc == digits_value(body.take(i - start)),
            acc <= 9223372036854775808,
            forall|j: int| 0 <= j < i - start ==> '0' <= #[trigger] body[j] && body[j] <= '9',
        decreases n - i,
    {
        let c = v[i];
        assert(body[i - start] == c);
        if !('0' <= c && c <= '9') {
            return None;
        }
        let d = (c as u32 - '0' as u32) as u128;
        let next = acc * 10 + d;
        proof {
            let p = body.take(i + 1 - start);
            assert(p.drop_last() =~= body.take(i - start));
            assert(p.last() == c);
            assert(digits_value(p) == next);
        }
        if next > 9223372036854775808 {
            proof {
                if ascii_digits(body) {
                    lemma_digits_value_grows(body, i + 1 - start);
                }
            }
            return None;
        }
        acc = next;
        i = i + 1;
    }
    assert(body.take(n - start) =~= body);
    if neg {
        if acc == 9223372036854775808 {
            Some(i64::MIN)
        } else {
            Some(-(acc as i64))
        }
    } else if acc <= 9223372036854775807 {
        Some(acc as i64)
    } else {
        None
    }
}

/// The builtin `len` on a text: its length in bytes.
pub fn builtin_text_len(text: &str) -> (n: i64)
    requires
        text.spec_bytes().len() <= usize::MAX,
        text.spec_bytes().len() <= i64::MAX,
    ensures
        n == text.spec_bytes().len(),
{
    text.len() as i64
}

/// The builtin `contains`: whether `needle` occurs in `text`.
pub fn builtin_contains(text: &str, needle: &str) -> (r: bool)
    ensures
        r == occurs_in(text@, needle@),
{
    text_contains(text, needle)
}

/// The message of `int` on a blank text.
pub open spec fn int_blank_message() -> Seq<char> {
    "int expects a non-empty numeric string"@
}

/// The builtin `int`: the `i64` the trimmed text spells, or why there is
/// none.
pub fn builtin_int(text: &str) -> (r: Result<i64, String>)
    ensures
        trim(text@).len() == 0 ==> (r matches Err(m) && m@ == int_blank_message()),
        trim(text@).len() > 0 ==> match i64_text_value(trim(text@)) {
            Some(v) => r == Ok::<i64, String>(v),
            None => (r matches Err(m) && m@ == "int could not parse '"@ + trim(text@) + "'"@),
        },
{
    let trimmed = trim_str(text);
    if trimmed.as_str().is_empty() {
        return Err(owned("int expects a non-empty numeric string"));
    }
    match parse_i64(trimmed.as_str()) {
        Some(v) => Ok(v),
        None => {
            let mut m = owned("int could not parse '");
            push_str(&mut m, trimmed.as_str());
            push_str(&mut m, "'");
            Err(m)
        },
    }
}

/// The builtin `is_int`: whether the trimmed text spells an `i64`.
pub fn builtin_is_int(text: &str) -> (r: bool)
    ensures
        r == (trim(text@).len() > 0 && i64_text_value(trim(text@)) is Some),
{
    let trimmed = trim_str(text);
    if trimmed.as_str().is_empty() {
        false
    } else {
        parse_i64(trimmed.as_str()).is_some()
    }
}

/// The builtin `is_digits`: whether the trimmed text is ASCII digits.
pub fn builtin_is_digits(text: &str) -> (r: bool)
    ensures
        r == ascii_digits(trim(text@)),
{
    let t = chars_of(trim_str(text).as_str());
    if t.len() == 0 {
        return false;
    }
    let mut i: usize = 0;
    while i < t.len()
        invariant
            i <= t@.len(),
            t@ == trim(text@),
            forall|j: int| 0 <= j < i ==> '0' <= #[trigger] t@[j] && t@[j] <= '9',
        decreases t@.len() - i,
    {
        if !('0' <= t[i] && t[i] <= '9') {
            return false;
        }
        i = i + 1;
    }
    true
}

/// Whether a text has the shape of an e-mail address: not empty, with an
/// `@` and a `.`, neither of which begins or ends it.
pub open spec fn email_shaped(t: Seq<char>) -> bool {
    &&& t.len() > 0
    &&& t.contains('@')
    &&& t.contains('.')
    &&& t[0] != '@' && t.last() != '@'
    &&& t[0] != '.' && t.last() != '.'
}

/// Whether a text holds a character.
fn has_char(v: &Vec<char>, c: char) -> (r: bool)
    ensures
        r == v@.contains(c),
{
    let mut i: usize = 0;
    while i < v.len()
        invariant
            i <= v@.len(),
            forall|j: int| 0 <= j < i ==> v@[j] != c,
        decreases v@.len() - i,
    {
        if v[i] == c {
            return true;
        }
        i = i + 1;
    }
    false
}

/// The builtin `is_email`: whether the trimmed text has the shape of an
/// e-mail address.
pub fn builtin_is_email(text: &str) -> (r: bool)
    ensures
        r == email_shaped(trim(text@)),
{
    let t = chars_of(trim_str(text).as_str());
    if t.len() == 0 {
        return false;
    }
    let first = t[0];
    let last = t[t.len() - 1];
    assert(t@.last() == last);
    has_char(&t, '@') && has_char(&t, '.') && first != '@' && last != '@' && first != '.' && last != '.'
}

/// The builtin `sha3` (and `seal`): the lowercase hexadecimal SHA3-256
/// digest of a text's UTF-8 bytes.
pub fn builtin_sha3(text: &str) -> (r: String)
    ensures
        r@ == hex_text(sha3_256_digest(text.spec_bytes())),
        r@.len() == 64,
{
    let d = sha3_256(text.as_bytes());
    proof {
        vstd::array::array_len_matches_n(&d);
        crate::codec::lemma_hex_text_len(d@);
    }
    hex(&d)
}

/// The text of the builtin `draft`.
pub open spec fn draft_text(title: Seq<char>, body: Seq<char>) -> Seq<char> {
    "<draft title=\""@ + title + "\">\n"@ + body + "\n</draft>"@
}

/// The builtin `draft`: a body wrapped in a titled draft element.
pub fn builtin_draft(title: &str, body: &str) -> (r: String)
    ensures
        r@ == draft_text(title@, body@),
{
    let mut s = owned("<draft title=\"");
    push_str(&mut s, title);
    push_str(&mut s, "\">\n");
    push_str(&mut s, body);
    push_str(&mut s, "\n</draft>");
    s
}

/// The text of the builtin `panel`.
pub open spec fn panel_text(title: Seq<char>, body: Seq<char>) -> Seq<char> {
    seq!['['] + title + "]\n"@ + body
}

/// The builtin `panel`: a body under a bracketed title.
pub fn builtin_panel(title: &str, body: &str) -> (r: String)
    ensures
        r@ == panel_text(title@, body@),
{
    let mut s = String::new();
    push_char(&mut s, '[');
    push_str(&mut s, title);
    push_str(&mut s, "]\n");
    push_str(&mut s, body);
    assert(s@ =~= panel_text(title@, body@));
    s
}

} // verus!
