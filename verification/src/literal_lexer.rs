use crate::text::{push_char, string_of};
use std::char::{decode_utf16, REPLACEMENT_CHARACTER};
use vstd::prelude::*;

verus! {

/// A literal as written in the source: its token texts, and for a string
/// the characters it stands for.
#[derive(Debug, PartialEq, Eq)]
pub enum LiteralToken {
    Integer(String),
    FloatingPoint(String),
    String { open_quote: String, value: String, close_quote: String },
    Boolean(String),
}

/// `c` is an ASCII decimal digit.
pub open spec fn is_digit(c: char) -> bool {
    '0' <= c && c <= '9'
}

/// `c` is an ASCII hexadecimal digit.
pub open spec fn is_hex(c: char) -> bool {
    ('0' <= c && c <= '9') || ('a' <= c && c <= 'f') || ('A' <= c && c <= 'F')
}

/// The value of the hexadecimal digit `c`.
pub open spec fn hex_value(c: char) -> int {
    if '0' <= c && c <= '9' {
        c as int - '0' as int
    } else if 'a' <= c && c <= 'f' {
        c as int - 'a' as int + 10
    } else {
        c as int - 'A' as int + 10
    }
}

/// The value of the four hexadecimal digits at the start of `s`.
pub open spec fn hex4_value(s: Seq<char>) -> int {
    hex_value(s[0]) * 4096 + hex_value(s[1]) * 256 + hex_value(s[2]) * 16 + hex_value(s[3])
}

/// `s` starts with four hexadecimal digits.
pub open spec fn starts_with_hex4(s: Seq<char>) -> bool {
    s.len() >= 4 && is_hex(s[0]) && is_hex(s[1]) && is_hex(s[2]) && is_hex(s[3])
}

/// The character a UTF-16 code unit stands for on its own: a surrogate,
/// which needs a partner, stands for the replacement character.
pub open spec fn unit_char(v: int) -> char {
    if 0xD800 <= v <= 0xDFFF {
        '\u{FFFD}'
    } else {
        v as char
    }
}

/// How many decimal digits `s` starts with.
pub open spec fn digits_len(s: Seq<char>) -> nat
    decreases s.len(),
{
    if s.len() > 0 && is_digit(s[0]) {
        1 + digits_len(s.drop_first())
    } else {
        0
    }
}

/// `s` starts with `prefix`.
pub open spec fn starts_with(s: Seq<char>, prefix: Seq<char>) -> bool {
    s.len() >= prefix.len() && s.take(prefix.len() as int) == prefix
}

/// An integer literal at the start of `s`: one or more digits. The rest of
/// `s` and the literal's text, if there is one.
pub open spec fn integer_spec(s: Seq<char>) -> Option<(Seq<char>, Seq<char>)> {
    let n = digits_len(s);
    if n > 0 {
        Some((s.skip(n as int), s.take(n as int)))
    } else {
        None
    }
}

/// A floating point literal at the start of `s`: digits, a dot, digits.
pub open spec fn floating_point_spec(s: Seq<char>) -> Option<(Seq<char>, Seq<char>)> {
    let n1 = digits_len(s);
    if n1 > 0 && n1 < s.len() && s[n1 as int] == '.' {
        let n2 = digits_len(s.skip(n1 + 1 as int));
        if n2 > 0 {
            Some((s.skip((n1 + 1 + n2) as int), s.take((n1 + 1 + n2) as int)))
        } else {
            None
        }
    } else {
        None
    }
}

/// A boolean literal at the start of `s`: `true` or `false`.
pub open spec fn boolean_spec(s: Seq<char>) -> Option<(Seq<char>, Seq<char>)> {
    if starts_with(s, "true"@) {
        Some((s.skip(4), "true"@))
    } else if starts_with(s, "false"@) {
        Some((s.skip(5), "false"@))
    } else {
        None
    }
}

/// What follows a backslash in a string: the character it stands for and
/// how many characters it takes. `\\`, `\"`, `\'`, `\r`, `\n` and `\t` stand
/// for themselves; a UTF-16 code unit is written as `u` and four
/// hexadecimal digits, in either order.
pub open spec fn escape_spec(t: Seq<char>) -> Option<(char, nat)> {
    if t.len() == 0 {
        None
    } else if t[0] == '\\' {
        Some(('\\', 1))
    } else if t[0] == '"' {
        Some(('"', 1))
    } else if t[0] == '\'' {
        Some(('\'', 1))
    } else if t[0] == 'r' {
        Some(('\r', 1))
    } else if t[0] == 'n' {
        Some(('\n', 1))
    } else if t[0] == 't' {
        Some(('\t', 1))
    } else if t[0] == 'u' {
        if starts_with_hex4(t.drop_first()) {
            Some((unit_char(hex4_value(t.drop_first())), 5))
        } else {
            None
        }
    } else if starts_with_hex4(t) && t.len() >= 5 && t[4] == 'u' {
        Some((unit_char(hex4_value(t)), 5))
    } else {
        None
    }
}

/// The body of a string at the start of `s`, up to a double quote or the
/// end: the rest of `s` and the characters the body stands for; none where
/// an escape is malformed.
pub open spec fn string_body_spec(s: Seq<char>) -> Option<(Seq<char>, Seq<char>)>
    decreases s.len(),
{
    if s.len() == 0 || s[0] == '"' {
        Some((s, Seq::empty()))
    } else if s[0] == '\\' {
        match escape_spec(s.drop_first()) {
            Some((c, used)) => match string_body_spec(s.skip((1 + used) as int)) {
                Some((rest, v)) => Some((rest, seq![c] + v)),
                None => None,
            },
            None => None,
        }
    } else {
        match string_body_spec(s.drop_first()) {
            Some((rest, v)) => Some((rest, seq![s[0]] + v)),
            None => None,
        }
    }
}

/// A string literal at the start of `s`: a double quote, a body and a
/// double quote. The rest of `s` and what the body stands for.
pub open spec fn string_spec(s: Seq<char>) -> Option<(Seq<char>, Seq<char>)> {
    if s.len() > 0 && s[0] == '"' {
        match string_body_spec(s.drop_first()) {
            Some((rest, v)) => if rest.len() > 0 && rest[0] == '"' {
                Some((rest.drop_first(), v))
            } else {
                None
            },
            None => None,
        }
    } else {
        None
    }
}

/// `s` has a double quote at or after `from`, the first one at `at`.
pub open spec fn first_quote_at(s: Seq<char>, from: int, at: int) -> bool {
    &&& from <= at < s.len()
    &&& s[at] == '"'
    &&& forall|j: int| from <= j < at ==> s[j] != '"'
}

/// `s` has a double quote at or after `from`.
pub open spec fn has_quote_from(s: Seq<char>, from: int) -> bool {
    exists|j: int| from <= j < s.len() && s[j] == '"'
}

/// `std::char::decode_utf16` of the single code unit `u`, an unpaired
/// surrogate replaced by `REPLACEMENT_CHARACTER`: the character whose code
/// is `u`, or the replacement character for a surrogate.
#[verifier::external_body]
fn decode_unit(u: u16) -> (r: char)
    ensures
        r == unit_char(u as int),
{
    decode_utf16([u]).next().unwrap().unwrap_or(REPLACEMENT_CHARACTER)
}

/// Whether `c` is a decimal digit.
fn char_is_digit(c: char) -> (r: bool)
    ensures
        r == is_digit(c),
{
    '0' <= c && c <= '9'
}

/// Whether `c` is a hexadecimal digit.
fn char_is_hex(c: char) -> (r: bool)
    ensures
        r == is_hex(c),
{
    ('0' <= c && c <= '9') || ('a' <= c && c <= 'f') || ('A' <= c && c <= 'F')
}

/// The value of the hexadecimal digit `c`.
fn char_hex_value(c: char) -> (r: u16)
    requires
        is_hex(c),
    ensures
        r as int == hex_value(c),
        r < 16,
{
    let code = c as u32;
    if '0' <= c && c <= '9' {
        (code - 48) as u16
    } else if 'a' <= c && c <= 'f' {
        (code - 97 + 10) as u16
    } else {
        (code - 65 + 10) as u16
    }
}

/// How many decimal digits `s` has from position `from` on.
fn count_digits(s: &str, from: usize) -> (r: usize)
    requires
        from <= s@.len(),
    ensures
        r == digits_len(s@.skip(from as int)),
        from + r <= s@.len(),
{
    let n = s.unicode_len();
    let mut i = from;
    while i < n && char_is_digit(s.get_char(i))
        invariant
            n == s@.len(),
            from <= i <= n,
            digits_len(s@.skip(from as int)) == (i - from) + digits_len(s@.skip(i as int)),
        decreases n - i,
    {
        assert(s@.skip(i as int).drop_first() =~= s@.skip(i + 1));
        i = i + 1;
    }
    i - from
}

/// Whether `s` has `word` at position `from`.
fn has_word_at(s: &str, from: usize, word: &str) -> (r: bool)
    requires
        from <= s@.len(),
    ensures
        r == starts_with(s@.skip(from as int), word@),
{
    let n = s.unicode_len();
    let m = word.unicode_len();
    if n - from < m {
        return false;
    }
    let mut j: usize = 0;
    while j < m
        invariant
            n == s@.len(),
            m == word@.len(),
            from + m <= n,
            j <= m,
            forall|k: int| 0 <= k < j ==> s@[from + k] == word@[k],
        decreases m - j,
    {
        if s.get_char(from + j) != word.get_char(j) {
            assert(s@.skip(from as int).take(m as int)[j as int] != word@[j as int]);
            return false;
        }
        j = j + 1;
    }
    assert(s@.skip(from as int).take(m as int) =~= word@);
    true
}

/// The text of `s` from position `from` on.
fn rest_of<'a>(s: &'a str, from: usize) -> (r: &'a str)
    requires
        from <= s@.len(),
    ensures
        r@ == s@.skip(from as int),
{
    let n = s.unicode_len();
    let r = s.substring_char(from, n);
    assert(r@ =~= s@.skip(from as int));
    r
}

/// An integer literal at the start of `s`; the rest of `s` with it.
pub fn integer_literal<'a>(s: &'a str) -> (r: Option<(&'a str, LiteralToken)>)
    ensures
        match integer_spec(s@) {
            Some((rest, text)) => r matches Some((x, LiteralToken::Integer(t))) && x@ == rest && t@ == text,
            None => r is None,
        },
{
    let n = count_digits(s, 0);
    assert(s@.skip(0) =~= s@);
    if n == 0 {
        return None;
    }
    let text = s.substring_char(0, n);
    assert(text@ =~= s@.take(n as int));
    Some((rest_of(s, n), LiteralToken::Integer(string_of(text))))
}

/// A floating point literal at the start of `s`; the rest of `s` with it.
pub fn floating_point_literal<'a>(s: &'a str) -> (r: Option<(&'a str, LiteralToken)>)
    ensures
        match floating_point_spec(s@) {
            Some((rest, text)) => r matches Some((x, LiteralToken::FloatingPoint(t))) && x@ == rest && t@ == text,
            None => r is None,
        },
{
    let len = s.unicode_len();
    let n1 = count_digits(s, 0);
    assert(s@.skip(0) =~= s@);
    if n1 == 0 || n1 >= len || s.get_char(n1) != '.' {
        return None;
    }
    let n2 = count_digits(s, n1 + 1);
    if n2 == 0 {
        return None;
    }
    let end = n1 + 1 + n2;
    let text = s.substring_char(0, end);
    assert(text@ =~= s@.take(end as int));
    assert(s@.skip(n1 + 1).skip(n2 as int) =~= s@.skip(end as int));
    Some((rest_of(s, end), LiteralToken::FloatingPoint(string_of(text))))
}

/// A boolean literal at the start of `s`; the rest of `s` with it.
pub fn boolean_literal<'a>(s: &'a str) -> (r: Option<(&'a str, LiteralToken)>)
    ensures
        match boolean_spec(s@) {
            Some((rest, text)) => r matches Some((x, LiteralToken::Boolean(t))) && x@ == rest && t@ == text,
            None => r is None,
        },
{
    proof {
        reveal_strlit("true");
        reveal_strlit("false");
    }
    assert(s@.skip(0) =~= s@);
    if has_word_at(s, 0, "true") {
        Some((rest_of(s, 4), LiteralToken::Boolean(string_of("true"))))
    } else if has_word_at(s, 0, "false") {
        Some((rest_of(s, 5), LiteralToken::Boolean(string_of("false"))))
    } else {
        None
    }
}

/// The escape after a backslash, at position `at` of `s`; see
/// `escape_spec`.
fn escape_at(s: &str, at: usize) -> (r: Option<(char, usize)>)
    requires
        at <= s@.len(),
    ensures
        match escape_spec(s@.skip(at as int)) {
            Some((c, used)) => r == Some((c, used as usize)),
            None => r is None,
        },
{
    let n = s.unicode_len();
    let ghost t = s@.skip(at as int);
    if at >= n {
        return None;
    }
    let c = s.get_char(at);
    if c == '\\' {
        Some(('\\', 1))
    } else if c == '"' {
        Some(('"', 1))
    } else if c == '\'' {
        Some(('\'', 1))
    } else if c == 'r' {
        Some(('\r', 1))
    } else if c == 'n' {
        Some(('\n', 1))
    } else if c == 't' {
        Some(('\t', 1))
    } else {
        let digits_from = if c == 'u' {
            at + 1
        } else {
            at
        };
        if n - digits_from < 4 {
            return None;
        }
        let d0 = s.get_char(digits_from);
        let d1 = s.get_char(digits_from + 1);
        let d2 = s.get_char(digits_from + 2);
        let d3 = s.get_char(digits_from + 3);
        if !(char_is_hex(d0) && char_is_hex(d1) && char_is_hex(d2) && char_is_hex(d3)) {
            return None;
        }
        if c != 'u' && (n - digits_from < 5 || s.get_char(digits_from + 4) != 'u') {
            return None;
        }
        let v: u16 = char_hex_value(d0) * 4096 + char_hex_value(d1) * 256 + char_hex_value(d2) * 16
            + char_hex_value(d3);
        proof {
            let h = s@.skip(digits_from as int);
            assert(h[0] == d0 && h[1] == d1 && h[2] == d2 && h[3] == d3);
            if c == 'u' {
                assert(t.drop_first() =~= h);
            } else {
                assert(t =~= h);
            }
        }
        Some((decode_unit(v), 5))
    }
}

/// The result of a string body whose first characters stood for `acc`.
pub open spec fn after_prefix(acc: Seq<char>, r: Option<(Seq<char>, Seq<char>)>) -> Option<(Seq<char>, Seq<char>)> {
    match r {
        Some((rest, v)) => Some((rest, acc + v)),
        None => None,
    }
}

/// The body of a string at position `from` of `s`: where it ends and what it
/// stands for; none where an escape is malformed.
fn string_body(s: &str, from: usize) -> (r: Option<(usize, String)>)
    requires
        from <= s@.len(),
    ensures
        match string_body_spec(s@.skip(from as int)) {
            Some((rest, v)) => r matches Some((end, value)) && end <= s@.len() && s@.skip(end as int) == rest
                && value@ == v,
            None => r is None,
        },
{
    let n = s.unicode_len();
    let mut i = from;
    let mut value = String::new();
    while i < n && s.get_char(i) != '"'
        invariant
            n == s@.len(),
            from <= i <= n,
            string_body_spec(s@.skip(from as int)) == after_prefix(value@, string_body_spec(s@.skip(i as int))),
        decreases n - i,
    {
        let c = s.get_char(i);
        let ghost here = s@.skip(i as int);
        if c == '\\' {
            match escape_at(s, i + 1) {
                Some((e, used)) => {
                    proof {
                        assert(here.drop_first() =~= s@.skip(i + 1));
                        assert(here.skip(1 + used) =~= s@.skip(i + 1 + used));
                        let inner = string_body_spec(s@.skip(i + 1 + used));
                        assert(after_prefix(value@, string_body_spec(here)) == after_prefix(value@.push(e), inner)) by {
                            match inner {
                                Some((rest, v)) => {
                                    assert(value@ + (seq![e] + v) =~= value@.push(e) + v);
                                },
                                None => {},
                            }
                        }
                    }
                    push_char(&mut value, e);
                    i = i + 1 + used;
                },
                None => {
                    proof {
                        assert(here.drop_first() =~= s@.skip(i + 1));
                    }
                    return None;
                },
            }
        } else {
            proof {
                assert(here.drop_first() =~= s@.skip(i + 1));
                let inner = string_body_spec(s@.skip(i + 1));
                assert(after_prefix(value@, string_body_spec(here)) == after_prefix(value@.push(c), inner)) by {
                    match inner {
                        Some((rest, v)) => {
                            assert(value@ + (seq![c] + v) =~= value@.push(c) + v);
                        },
                        None => {},
                    }
                }
            }
            push_char(&mut value, c);
            i = i + 1;
        }
    }
    proof {
        let here = s@.skip(i as int);
        assert(string_body_spec(here) == Some((here, Seq::<char>::empty())));
        assert(value@ + Seq::<char>::empty() =~= value@);
    }
    Some((i, value))
}

/// A string literal at the start of `s`: its escapes stand for the
/// characters they name. The rest of `s` with it.
pub fn string_literal<'a>(s: &'a str) -> (r: Option<(&'a str, LiteralToken)>)
    ensures
        match string_spec(s@) {
            Some((rest, v)) => r matches Some((x, LiteralToken::String { open_quote, value, close_quote }))
                && x@ == rest && value@ == v && open_quote@ == "\""@ && close_quote@ == "\""@,
            None => r is None,
        },
{
    let n = s.unicode_len();
    if n == 0 || s.get_char(0) != '"' {
        return None;
    }
    assert(s@.drop_first() =~= s@.skip(1));
    match string_body(s, 1) {
        Some((end, value)) => {
            if end < n && s.get_char(end) == '"' {
                assert(s@.skip(end as int).drop_first() =~= s@.skip(end + 1));
                Some((rest_of(s, end + 1), LiteralToken::String {
                    open_quote: string_of("\""),
                    value,
                    close_quote: string_of("\""),
                }))
            } else {
                None
            }
        },
        None => None,
    }
}

/// How many of the four parts of a raw string are still to be found.
pub open spec fn parts_left(m1: bool, m2: bool, m3: bool, m4: bool) -> int {
    (if m1 { 0int } else { 1int }) + (if m2 { 0int } else { 1int }) + (if m3 { 0int } else { 1int }) + (if m4 {
        0int
    } else {
        1int
    })
}

/// A raw string is four parts found in any order: an `r`, a double quote,
/// the text up to the next double quote, and a closing double quote. Each
/// round the first part still missing that fits the input is taken; the
/// input fails when none fits. The rest of `s` and the text, where all four
/// are found.
pub open spec fn raw_parts_spec(s: Seq<char>, m1: bool, m2: bool, m3: bool, m4: bool, body: Seq<char>) -> Option<
    (Seq<char>, Seq<char>),
>
    decreases parts_left(m1, m2, m3, m4),
{
    if m1 && m2 && m3 && m4 {
        Some((s, body))
    } else if !m1 && s.len() > 0 && s[0] == 'r' {
        raw_parts_spec(s.drop_first(), true, m2, m3, m4, body)
    } else if !m2 && s.len() > 0 && s[0] == '"' {
        raw_parts_spec(s.drop_first(), m1, true, m3, m4, body)
    } else if !m3 && has_quote_from(s, 0) {
        let k = choose|k: int| first_quote_at(s, 0, k);
        raw_parts_spec(s.skip(k), m1, m2, true, m4, s.take(k))
    } else if !m4 && s.len() > 0 && s[0] == '"' {
        raw_parts_spec(s.drop_first(), m1, m2, m3, true, body)
    } else {
        None
    }
}

/// A raw string literal at the start of `s`; see `raw_parts_spec`.
pub open spec fn raw_string_spec(s: Seq<char>) -> Option<(Seq<char>, Seq<char>)> {
    raw_parts_spec(s, false, false, false, false, Seq::empty())
}

/// A literal at the start of `s`: the first of a boolean, a floating point
/// number, an integer, a string and a raw string that fits.
pub open spec fn literal_kind_spec(s: Seq<char>) -> int {
    if boolean_spec(s) is Some {
        0
    } else if floating_point_spec(s) is Some {
        1
    } else if integer_spec(s) is Some {
        2
    } else if string_spec(s) is Some {
        3
    } else if raw_string_spec(s) is Some {
        4
    } else {
        5
    }
}

/// Where the first double quote at or after `from` is, if there is one.
fn find_quote(s: &str, from: usize) -> (r: Option<usize>)
    requires
        from <= s@.len(),
    ensures
        match r {
            Some(k) => first_quote_at(s@, from as int, k as int),
            None => !has_quote_from(s@, from as int),
        },
{
    let n = s.unicode_len();
    let mut i = from;
    while i < n
        invariant
            n == s@.len(),
            from <= i <= n,
            forall|j: int| from <= j < i ==> s@[j] != '"',
        decreases n - i,
    {
        if s.get_char(i) == '"' {
            return Some(i);
        }
        i = i + 1;
    }
    None
}

/// A raw string literal at the start of `s`; see `raw_parts_spec`. The
/// rest of `s` with it.
pub fn raw_string_literal<'a>(s: &'a str) -> (r: Option<(&'a str, LiteralToken)>)
    ensures
        match raw_string_spec(s@) {
            Some((rest, v)) => r matches Some((x, LiteralToken::String { open_quote, value, close_quote }))
                && x@ == rest && value@ == v && open_quote@ == "r\""@ && close_quote@ == "\""@,
            None => r is None,
        },
{
    let n = s.unicode_len();
    let mut i: usize = 0;
    let mut m1 = false;
    let mut m2 = false;
    let mut m3 = false;
    let mut m4 = false;
    let mut body_from: usize = 0;
    let mut body_to: usize = 0;
    assert(s@.skip(0) =~= s@);
    assert(s@.subrange(0, 0) =~= Seq::<char>::empty());
    while !(m1 && m2 && m3 && m4)
        invariant
            n == s@.len(),
            i <= n,
            body_from <= body_to <= n,
            raw_string_spec(s@) == raw_parts_spec(s@.skip(i as int), m1, m2, m3, m4, s@.subrange(body_from as int, body_to as int)),
        decreases parts_left(m1, m2, m3, m4),
    {
        let ghost here = s@.skip(i as int);
        let c = if i < n {
            Some(s.get_char(i))
        } else {
            None
        };
        if !m1 && c == Some('r') {
            assert(here.drop_first() =~= s@.skip(i + 1));
            m1 = true;
            i = i + 1;
        } else if !m2 && c == Some('"') {
            assert(here.drop_first() =~= s@.skip(i + 1));
            m2 = true;
            i = i + 1;
        } else if !m3 && find_quote(s, i).is_some() {
            let k = find_quote(s, i).unwrap();
            proof {
                let kk = k - i;
                assert(first_quote_at(here, 0, kk));
                assert(has_quote_from(here, 0));
                let chosen = choose|q: int| first_quote_at(here, 0, q);
                assert(chosen == kk) by {
                    if chosen < kk {
                        assert(s@[i + chosen] != '"');
                    } else if chosen > kk {
                        assert(here[kk] != '"');
                    }
                }
                assert(here.skip(kk) =~= s@.skip(k as int));
                assert(here.take(kk) =~= s@.subrange(i as int, k as int));
            }
            m3 = true;
            body_from = i;
            body_to = k;
            i = k;
        } else if !m4 && c == Some('"') {
            assert(here.drop_first() =~= s@.skip(i + 1));
            m4 = true;
            i = i + 1;
        } else {
            proof {
                if !m3 {
                    if has_quote_from(here, 0) {
                        let q = choose|q: int| 0 <= q < here.len() && here[q] == '"';
                        assert(s@[i + q] == '"');
                    }
                }
            }
            return None;
        }
    }
    let body = s.substring_char(body_from, body_to);
    Some((rest_of(s, i), LiteralToken::String {
        open_quote: string_of("r\""),
        value: string_of(body),
        close_quote: string_of("\""),
    }))
}

/// A literal at the start of `s`: the first of a boolean, a floating point
/// number, an integer, a string and a raw string that fits. The rest of `s`
/// with it.
pub fn literal_expr<'a>(s: &'a str) -> (r: Option<(&'a str, LiteralToken)>)
    ensures
        literal_kind_spec(s@) == 0 ==> (match boolean_spec(s@) {
            Some((rest, text)) => r matches Some((x, LiteralToken::Boolean(t))) && x@ == rest && t@ == text,
            None => false,
        }),
        literal_kind_spec(s@) == 1 ==> (match floating_point_spec(s@) {
            Some((rest, text)) => r matches Some((x, LiteralToken::FloatingPoint(t))) && x@ == rest && t@ == text,
            None => false,
        }),
        literal_kind_spec(s@) == 2 ==> (match integer_spec(s@) {
            Some((rest, text)) => r matches Some((x, LiteralToken::Integer(t))) && x@ == rest && t@ == text,
            None => false,
        }),
        literal_kind_spec(s@) == 3 ==> (match string_spec(s@) {
            Some((rest, v)) => r matches Some((x, LiteralToken::String { open_quote, value, close_quote }))
                && x@ == rest && value@ == v && open_quote@ == "\""@ && close_quote@ == "\""@,
            None => false,
        }),
        literal_kind_spec(s@) == 4 ==> (match raw_string_spec(s@) {
            Some((rest, v)) => r matches Some((x, LiteralToken::String { open_quote, value, close_quote }))
                && x@ == rest && value@ == v && open_quote@ == "r\""@ && close_quote@ == "\""@,
            None => false,
        }),
        literal_kind_spec(s@) == 5 ==> r is None,
{
    let b = boolean_literal(s);
    if b.is_some() {
        return b;
    }
    let f = floating_point_literal(s);
    if f.is_some() {
        return f;
    }
    let i = integer_literal(s);
    if i.is_some() {
        return i;
    }
    let t = string_literal(s);
    if t.is_some() {
        return t;
    }
    raw_string_literal(s)
}

/// Every ASCII decimal digit, `0` to `9`, counts as a digit.
pub proof fn law_decimal_digits_are_digits(c: char)
    requires
        '0' <= c <= '9',
    ensures
        is_digit(c),
{
}

/// A text made only of the decimal digits `0` to `9` is read whole as one
/// integer literal, with nothing left over.
pub proof fn law_integer_literal_takes_every_digit(s: Seq<char>)
    requires
        s.len() > 0,
        forall|i: int| 0 <= i < s.len() ==> '0' <= #[trigger] s[i] <= '9',
    ensures
        integer_spec(s) == Some((Seq::<char>::empty(), s)),
{
    lemma_all_digits_len(s);
    assert(s.skip(s.len() as int) =~= Seq::<char>::empty());
    assert(s.take(s.len() as int) =~= s);
}

/// A text of decimal digits is a run of digits as long as itself.
proof fn lemma_all_digits_len(s: Seq<char>)
    requires
        forall|i: int| 0 <= i < s.len() ==> '0' <= #[trigger] s[i] <= '9',
    ensures
        digits_len(s) == s.len(),
    decreases s.len(),
{
    if s.len() > 0 {
        assert('0' <= s[0] <= '9');
        law_decimal_digits_are_digits(s[0]);
        assert forall|i: int| 0 <= i < s.drop_first().len() implies '0' <= #[trigger] s.drop_first()[i] <= '9' by {
            assert(s.drop_first()[i] == s[i + 1]);
        }
        lemma_all_digits_len(s.drop_first());
    }
}

} // verus!
