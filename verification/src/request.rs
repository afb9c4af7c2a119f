//! The decisions of the web front end: which page a request path asks for, and which
//! code a submitted login form carries.

use vstd::prelude::*;
use vstd::string::StrSliceExecFns;

verus! {

/// `s` begins with `prefix`.
pub fn starts_with(s: &str, prefix: &str) -> (b: bool)
    ensures
        b == prefix@.is_prefix_of(s@),
{
    let n = s.unicode_len();
    let m = prefix.unicode_len();
    if m > n {
        return false;
    }
    let mut i: usize = 0;
    while i < m
        invariant
            m <= n,
            n == s@.len(),
            m == prefix@.len(),
            i <= m,
            forall|j: int| 0 <= j < i ==> s@[j] == prefix@[j],
        decreases m - i,
    {
        if s.get_char(i) != prefix.get_char(i) {
            return false;
        }
        i = i + 1;
    }
    assert(prefix@ =~= s@.subrange(0, m as int));
    true
}

/// `a` and `b` are the same text.
pub fn same_text(a: &str, b: &str) -> (same: bool)
    ensures
        same == (a@ == b@),
{
    if a.unicode_len() != b.unicode_len() {
        return false;
    }
    let prefix = starts_with(a, b);
    proof {
        if prefix {
            assert(a@ =~= a@.subrange(0, b@.len() as int));
        }
    }
    prefix
}

/// The pages of the front end.
#[derive(Clone, Copy, Debug, PartialEq, Eq)]
pub enum Route {
    /// `/current_code`: the current code and the seconds it stays valid.
    CurrentCode,
    /// `/`: the enrolment and login page.
    Index,
    /// A path beginning with `/verify`: the check of a submitted code.
    Verify,
    /// Any other path, which gets no answer.
    NotFound,
}

/// The page that a request path asks for.
pub open spec fn route_of(path: Seq<char>) -> Route {
    if path == "/current_code"@ {
        Route::CurrentCode
    } else if path == "/"@ {
        Route::Index
    } else if "/verify"@.is_prefix_of(path) {
        Route::Verify
    } else {
        Route::NotFound
    }
}

/// Chooses the page for a request path.
pub fn route(path: &str) -> (page: Route)
    ensures
        page == route_of(path@),
{
    if same_text(path, "/current_code") {
        Route::CurrentCode
    } else if same_text(path, "/") {
        Route::Index
    } else if starts_with(path, "/verify") {
        Route::Verify
    } else {
        Route::NotFound
    }
}

/// The end of the `&`-separated field of a form body that starts at `i`: the position of
/// the next `&`, or the end of the body.
pub open spec fn field_end(s: Seq<char>, i: int) -> int
    decreases s.len() - i,
{
    if i < 0 || i >= s.len() {
        s.len() as int
    } else if s[i] == '&' {
        i
    } else {
        field_end(s, i + 1)
    }
}

/// Where a field ends: not before its start, not past the body, and on an `&` unless at the end.
pub proof fn lemma_field_end(s: Seq<char>, i: int)
    requires
        0 <= i <= s.len(),
    ensures
        i <= field_end(s, i) <= s.len(),
        field_end(s, i) < s.len() ==> s[field_end(s, i)] == '&',
    decreases s.len() - i,
{
    if i < s.len() && s[i] != '&' {
        lemma_field_end(s, i + 1);
    }
}

/// The name, with its `=`, that marks the code field of the login form.
pub open spec fn code_key() -> Seq<char> {
    "code="@
}

/// The value of the first field from position `start` on that begins with `code=`, or the
/// empty text where there is none.
pub open spec fn code_field_from(s: Seq<char>, start: int) -> Seq<char>
    decreases s.len() - start,
{
    if start < 0 || start > s.len() {
        Seq::empty()
    } else {
        let end = field_end(s, start);
        let field = s.subrange(start, end);
        if code_key().is_prefix_of(field) {
            field.skip(code_key().len() as int)
        } else if end < s.len() {
            proof {
                lemma_field_end(s, start);
            }
            code_field_from(s, end + 1)
        } else {
            Seq::empty()
        }
    }
}

/// The value of the code field of a form body (`""` where there is none).
pub open spec fn code_field(body: Seq<char>) -> Seq<char> {
    code_field_from(body, 0)
}

/// Finds the end of the field of `body` that starts at `start`.
fn find_field_end(body: &str, start: usize) -> (end: usize)
    requires
        start <= body@.len(),
    ensures
        end == field_end(body@, start as int),
{
    let n = body.unicode_len();
    let mut j = start;
    while j < n && body.get_char(j) != '&'
        invariant
            n == body@.len(),
            start <= j <= n,
            field_end(body@, start as int) == field_end(body@, j as int),
        decreases n - j,
    {
        j = j + 1;
    }
    j
}

/// The text of the code field of a login form body: the part after `code=` of the first
/// `&`-separated field that begins with it, or the empty text.
pub fn form_code_field(body: &str) -> (value: &str)
    ensures
        value@ == code_field(body@),
{
    let key = "code=";
    let key_len = key.unicode_len();
    let n = body.unicode_len();
    let mut start: usize = 0;
    loop
        invariant
            n == body@.len(),
            key@ == code_key(),
            key_len == code_key().len(),
            start <= n,
            code_field_from(body@, 0) == code_field_from(body@, start as int),
        decreases n - start,
    {
        let end = find_field_end(body, start);
        proof {
            lemma_field_end(body@, start as int);
        }
        let field = body.substring_char(start, end);
        if starts_with(field, key) {
            let field_len = field.unicode_len();
            assert(code_field_from(body@, start as int) == field@.skip(key_len as int));
            let value = field.substring_char(key_len, field_len);
            assert(value@ =~= field@.skip(key_len as int));
            return value;
        }
        if end >= n {
            let empty = body.substring_char(n, n);
            assert(empty@ =~= Seq::<char>::empty());
            return empty;
        }
        assert(code_field_from(body@, start as int) == code_field_from(body@, end + 1));
        start = end + 1;
    }
}

/// A decimal digit.
pub open spec fn is_digit(c: char) -> bool {
    48 <= c as u32 <= 57
}

/// The number that a text of decimal digits writes.
pub open spec fn decimal_value(s: Seq<char>) -> nat
    decreases s.len(),
{
    if s.len() == 0 {
        0
    } else {
        decimal_value(s.drop_last()) * 10 + (s.last() as u32 - 48) as nat
    }
}

/// The digits of an unsigned number's text: without one leading `+`.
pub open spec fn unsigned_digits(s: Seq<char>) -> Seq<char> {
    if s.len() > 0 && s[0] == '+' {
        s.drop_first()
    } else {
        s
    }
}

/// What `str::parse::<u32>` gives: an optional `+`, then one or more decimal digits whose
/// value fits in a `u32`; anything else (signs, spaces, other characters) is refused.
pub open spec fn parse_u32(s: Seq<char>) -> Option<u32> {
    let d = unsigned_digits(s);
    if d.len() > 0 && (forall|i: int| 0 <= i < d.len() ==> is_digit(#[trigger] d[i]))
        && decimal_value(d) <= u32::MAX {
        Some(decimal_value(d) as u32)
    } else {
        None
    }
}

proof fn lemma_decimal_prefix(s: Seq<char>, k: int)
    requires
        0 <= k <= s.len(),
    ensures
        decimal_value(s.subrange(0, k)) <= decimal_value(s),
    decreases s.len(),
{
    if k < s.len() {
        lemma_decimal_prefix(s.drop_last(), k);
        assert(s.drop_last().subrange(0, k) =~= s.subrange(0, k));
    } else {
        assert(s.subrange(0, k) =~= s);
    }
}

/// Reads an unsigned decimal number as `str::parse::<u32>` does.
pub fn parse_code(text: &str) -> (value: Option<u32>)
    ensures
        value == parse_u32(text@),
{
    let n = text.unicode_len();
    let mut start: usize = 0;
    if n > 0 && text.get_char(0) == '+' {
        start = 1;
    }
    let ghost digits = unsigned_digits(text@);
    assert(digits =~= text@.subrange(start as int, n as int));
    if start >= n {
        return None;
    }
    let mut acc: u64 = 0;
    let mut i: usize = start;
    while i < n
        invariant
            n == text@.len(),
            start <= i <= n,
            start < n,
            digits == text@.subrange(start as int, n as int),
            digits == unsigned_digits(text@),
            acc == decimal_value(digits.subrange(0, i - start)),
            acc <= u32::MAX,
            forall|j: int| 0 <= j < i - start ==> is_digit(#[trigger] digits[j]),
        decreases n - i,
    {
        let c = text.get_char(i);
        let code_point = c as u32;
        assert(digits[i - start] == c);
        if !(48 <= code_point && code_point <= 57) {
            assert(!is_digit(digits[i - start]));
            return None;
        }
        let d = (code_point - 48) as u64;
        let ghost prefix = digits.subrange(0, i - start + 1);
        proof {
            assert(prefix.drop_last() =~= digits.subrange(0, i - start));
            assert(prefix.last() == c);
        }
        acc = acc * 10 + d;
        assert(acc == decimal_value(prefix));
        if acc > 0xffff_ffff {
            proof {
                lemma_decimal_prefix(digits, i - start + 1);
            }
            return None;
        }
        i = i + 1;
    }
    assert(digits.subrange(0, n - start) =~= digits);
    Some(acc as u32)
}

/// The code that a login form body submits: the code field read as a number, or 0 where
/// it does not read as one.
pub fn submitted_code(body: &str) -> (code: u32)
    ensures
        code == match parse_u32(code_field(body@)) {
            Some(v) => v,
            None => 0,
        },
{
    match parse_code(form_code_field(body)) {
        Some(v) => v,
        None => 0,
    }
}

} // verus!
