//! Character-level string helpers shared by the rest of the library:
//! conversions between `String`/`&str` and character sequences, decimal
//! rendering of integers, and the escaping schemes used in HTML bodies and
//! JSON string literals.

use vstd::prelude::*;

verus! {

/// The characters of `s`, in order.
pub fn chars_of(s: &str) -> (r: Vec<char>)
    ensures
        r@ == s@,
{
    let mut r: Vec<char> = Vec::new();
    for c in it: s.chars()
        invariant
            r@ == it.seq().take(it.index() as int),
    {
        r.push(c);
    }
    r
}

/// Appends one character to a `String` (std's `String::push`).
#[verifier::external_body]
pub fn push_char(s: &mut String, c: char)
    ensures
        final(s)@ == old(s)@.push(c),
{
    s.push(c)
}

/// Appends `t` to `s`.
pub fn push_str(s: &mut String, t: &str)
    ensures
        final(s)@ == old(s)@ + t@,
{
    let cs = chars_of(t);
    let mut i: usize = 0;
    let ghost start = s@;
    while i < cs.len()
        invariant
            i <= cs.len(),
            cs@ == t@,
            s@ == start + cs@.take(i as int),
        decreases cs.len() - i,
    {
        push_char(s, cs[i]);
        i = i + 1;
        assert(cs@.take(i as int) == cs@.take((i - 1) as int).push(cs@[i - 1]));
    }
    assert(cs@.take(cs.len() as int) == cs@);
}

/// A new `String` holding the characters of `t`.
pub fn string_of(t: &str) -> (s: String)
    ensures
        s@ == t@,
{
    let mut s = String::new();
    push_str(&mut s, t);
    s
}

/// A new `String` holding the characters `cs`.
pub fn string_from_chars(cs: &Vec<char>) -> (s: String)
    ensures
        s@ == cs@,
{
    let mut s = String::new();
    let mut i: usize = 0;
    while i < cs.len()
        invariant
            i <= cs.len(),
            s@ == cs@.take(i as int),
        decreases cs.len() - i,
    {
        push_char(&mut s, cs[i]);
        i = i + 1;
        assert(cs@.take(i as int) == cs@.take((i - 1) as int).push(cs@[i - 1]));
    }
    assert(cs@.take(cs.len() as int) == cs@);
    s
}

/// Character-wise equality of two string slices.
pub fn str_eq(a: &str, b: &str) -> (r: bool)
    ensures
        r == (a@ == b@),
{
    let ca = chars_of(a);
    let cb = chars_of(b);
    if ca.len() != cb.len() {
        return false;
    }
    let mut i: usize = 0;
    while i < ca.len()
        invariant
            i <= ca.len(),
            ca.len() == cb.len(),
            ca@ == a@,
            cb@ == b@,
            forall|j: int| 0 <= j < i ==> ca@[j] == cb@[j],
        decreases ca.len() - i,
    {
        if ca[i] != cb[i] {
            return false;
        }
        i = i + 1;
    }
    assert(ca@ =~= cb@);
    true
}

/// Whether `c` occurs in `s`.
pub fn has_char(s: &str, c: char) -> (r: bool)
    ensures
        r == s@.contains(c),
{
    let cs = chars_of(s);
    let mut i: usize = 0;
    while i < cs.len()
        invariant
            i <= cs.len(),
            cs@ == s@,
            forall|j: int| 0 <= j < i ==> cs@[j] != c,
        decreases cs.len() - i,
    {
        if cs[i] == c {
            assert(s@[i as int] == c);
            return true;
        }
        i = i + 1;
    }
    false
}

// ---------------------------------------------------------------------------
// Decimal rendering
// ---------------------------------------------------------------------------

/// The ASCII digit for `d` (`d < 10`).
pub open spec fn digit_char(d: nat) -> char {
    (48 + d) as char
}

/// The decimal digits of `n`, most significant first, without leading zeros.
pub open spec fn decimal(n: nat) -> Seq<char>
    decreases n,
{
    if n < 10 {
        seq![digit_char(n)]
    } else {
        decimal(n / 10).push(digit_char(n % 10))
    }
}

/// The decimal rendering of a signed integer: a leading `-` for negatives.
pub open spec fn int_decimal(n: int) -> Seq<char> {
    if n < 0 {
        seq!['-'] + decimal((-n) as nat)
    } else {
        decimal(n as nat)
    }
}

fn digit(d: u64) -> (c: char)
    requires
        d < 10,
    ensures
        c == digit_char(d as nat),
{
    let b: u8 = 48u8 + (d as u8);
    b as char
}

/// Decimal rendering of an unsigned integer (what `{}` formats).
pub fn u64_to_decimal(n: u64) -> (s: String)
    ensures
        s@ == decimal(n as nat),
    decreases n,
{
    if n < 10 {
        let mut s = String::new();
        push_char(&mut s, digit(n));
        s
    } else {
        let mut s = u64_to_decimal(n / 10);
        push_char(&mut s, digit(n % 10));
        s
    }
}

/// Decimal rendering of a signed integer (what `{}` formats).
pub fn i64_to_decimal(n: i64) -> (s: String)
    ensures
        s@ == int_decimal(n as int),
{
    if n < 0 {
        let m: u64 = if n == i64::MIN {
            9223372036854775808u64
        } else {
            (-n) as u64
        };
        let digits = u64_to_decimal(m);
        let mut s = String::new();
        push_char(&mut s, '-');
        push_str(&mut s, digits.as_str());
        s
    } else {
        u64_to_decimal(n as u64)
    }
}

// ---------------------------------------------------------------------------
// HTML escaping
// ---------------------------------------------------------------------------

/// What one character becomes in an HTML text node.
pub open spec fn html_escape_char(c: char) -> Seq<char> {
    if c == '&' {
        seq!['&', 'a', 'm', 'p', ';']
    } else if c == '<' {
        seq!['&', 'l', 't', ';']
    } else if c == '>' {
        seq!['&', 'g', 't', ';']
    } else {
        seq![c]
    }
}

/// `s` with `&`, `<` and `>` replaced by their entities.
pub open spec fn html_escaped(s: Seq<char>) -> Seq<char>
    decreases s.len(),
{
    if s.len() == 0 {
        Seq::empty()
    } else {
        html_escaped(s.drop_last()) + html_escape_char(s.last())
    }
}

/// Escapes `&`, `<` and `>` so that `s` can stand in an HTML text node.
pub fn html_escape(s: &str) -> (r: String)
    ensures
        r@ == html_escaped(s@),
{
    let cs = chars_of(s);
    let mut r = String::new();
    let mut i: usize = 0;
    while i < cs.len()
        invariant
            i <= cs.len(),
            cs@ == s@,
            r@ == html_escaped(cs@.take(i as int)),
        decreases cs.len() - i,
    {
        let c = cs[i];
        proof {
            reveal_strlit("&amp;");
            reveal_strlit("&lt;");
            reveal_strlit("&gt;");
        }
        if c == '&' {
            push_str(&mut r, "&amp;");
        } else if c == '<' {
            push_str(&mut r, "&lt;");
        } else if c == '>' {
            push_str(&mut r, "&gt;");
        } else {
            push_char(&mut r, c);
        }
        i = i + 1;
        assert(cs@.take(i as int).drop_last() == cs@.take((i - 1) as int));
    }
    assert(cs@.take(cs.len() as int) == cs@);
    r
}

/// Escaped text holds no tag delimiter: no `<` and no `>` survive.
pub proof fn law_html_escaped_has_no_tags(s: Seq<char>)
    ensures
        !html_escaped(s).contains('<'),
        !html_escaped(s).contains('>'),
    decreases s.len(),
{
    if s.len() > 0 {
        law_html_escaped_has_no_tags(s.drop_last());
        let prev = html_escaped(s.drop_last());
        let tail = html_escape_char(s.last());
        assert forall|i: int| 0 <= i < tail.len() implies tail[i] != '<' && tail[i] != '>' by {}
        assert forall|i: int| 0 <= i < (prev + tail).len() implies (prev + tail)[i] != '<' && (prev
            + tail)[i] != '>' by {
            if i < prev.len() {
                assert((prev + tail)[i] == prev[i]);
            } else {
                assert((prev + tail)[i] == tail[i - prev.len()]);
            }
        }
    }
}

} // verus!

verus! {

// ---------------------------------------------------------------------------
// Lookup by key
// ---------------------------------------------------------------------------

/// The position of the first occurrence of `k` in `keys`.
pub open spec fn first_index(keys: Seq<Seq<char>>, k: Seq<char>) -> Option<int>
    decreases keys.len(),
{
    if keys.len() == 0 {
        None
    } else if keys[0] == k {
        Some(0)
    } else {
        match first_index(keys.drop_first(), k) {
            Some(i) => Some(i + 1),
            None => None,
        }
    }
}

/// `first_index` finds the first match, or reports that there is none.
pub proof fn lemma_first_index(keys: Seq<Seq<char>>, k: Seq<char>)
    ensures
        match first_index(keys, k) {
            Some(i) => 0 <= i < keys.len() && keys[i] == k && forall|j: int|
                0 <= j < i ==> keys[j] != k,
            None => !keys.contains(k),
        },
    decreases keys.len(),
{
    if keys.len() > 0 {
        lemma_first_index(keys.drop_first(), k);
        if keys[0] != k {
            match first_index(keys.drop_first(), k) {
                Some(i) => {
                    assert forall|j: int| 0 <= j < i + 1 implies keys[j] != k by {
                        if j > 0 {
                            assert(keys[j] == keys.drop_first()[j - 1]);
                        }
                    }
                },
                None => {
                    assert forall|j: int| 0 <= j < keys.len() implies keys[j] != k by {
                        if j > 0 {
                            assert(keys[j] == keys.drop_first()[j - 1]);
                        }
                    }
                },
            }
        }
    }
}

/// A match at `i` with none before it is the first match.
pub proof fn lemma_first_index_at(keys: Seq<Seq<char>>, k: Seq<char>, i: int)
    requires
        0 <= i < keys.len(),
        keys[i] == k,
        forall|j: int| 0 <= j < i ==> keys[j] != k,
    ensures
        first_index(keys, k) == Some(i),
{
    lemma_first_index(keys, k);
    match first_index(keys, k) {
        Some(m) => {
            if m < i {
            } else if m > i {
            }
        },
        None => {
            assert(keys[i] == k);
        },
    }
}

/// No match anywhere means no first match.
pub proof fn lemma_first_index_none(keys: Seq<Seq<char>>, k: Seq<char>)
    requires
        forall|j: int| 0 <= j < keys.len() ==> keys[j] != k,
    ensures
        first_index(keys, k) is None,
{
    lemma_first_index(keys, k);
    match first_index(keys, k) {
        Some(m) => {
            assert(keys[m] == k);
        },
        None => {},
    }
}

} // verus!

verus! {

// ---------------------------------------------------------------------------
// JSON string literals
// ---------------------------------------------------------------------------

/// The lower-case hexadecimal digit for `d` (`d < 16`).
pub open spec fn hex_lower(d: nat) -> char {
    if d < 10 {
        (48 + d) as char
    } else {
        (87 + d) as char
    }
}

/// What one character becomes inside a JSON string literal, as serde_json
/// writes it: quote and backslash are escaped, control characters get their
/// short escape or `\u00XX`, everything else stands as it is.
pub open spec fn json_escape_char(c: char) -> Seq<char> {
    if c == '"' {
        seq!['\\', '"']
    } else if c == '\\' {
        seq!['\\', '\\']
    } else if c == '\u{8}' {
        seq!['\\', 'b']
    } else if c == '\u{c}' {
        seq!['\\', 'f']
    } else if c == '\n' {
        seq!['\\', 'n']
    } else if c == '\r' {
        seq!['\\', 'r']
    } else if c == '\t' {
        seq!['\\', 't']
    } else if (c as u32) < 0x20 {
        seq![
            '\\',
            'u',
            '0',
            '0',
            hex_lower(((c as u32) / 16) as nat),
            hex_lower(((c as u32) % 16) as nat),
        ]
    } else {
        seq![c]
    }
}

/// The body of a JSON string literal holding `s`.
pub open spec fn json_escaped(s: Seq<char>) -> Seq<char>
    decreases s.len(),
{
    if s.len() == 0 {
        Seq::empty()
    } else {
        json_escaped(s.drop_last()) + json_escape_char(s.last())
    }
}

/// A JSON string literal holding `s`, quotes included.
pub open spec fn json_string(s: Seq<char>) -> Seq<char> {
    seq!['"'] + json_escaped(s) + seq!['"']
}

fn hex_digit_lower(d: u32) -> (c: char)
    requires
        d < 16,
    ensures
        c == hex_lower(d as nat),
{
    if d < 10 {
        ((48 + d) as u8) as char
    } else {
        ((87 + d) as u8) as char
    }
}

/// Appends a JSON string literal holding `s` (quotes included) to `out`.
pub fn push_json_string(out: &mut String, s: &str)
    ensures
        final(out)@ == old(out)@ + json_string(s@),
{
    let cs = chars_of(s);
    push_char(out, '"');
    let ghost start = out@;
    let mut i: usize = 0;
    while i < cs.len()
        invariant
            i <= cs.len(),
            cs@ == s@,
            out@ == start + json_escaped(cs@.take(i as int)),
        decreases cs.len() - i,
    {
        let c = cs[i];
        let ghost before = out@;
        if c == '"' {
            push_char(out, '\\');
            push_char(out, '"');
        } else if c == '\\' {
            push_char(out, '\\');
            push_char(out, '\\');
        } else if c == '\u{8}' {
            push_char(out, '\\');
            push_char(out, 'b');
        } else if c == '\u{c}' {
            push_char(out, '\\');
            push_char(out, 'f');
        } else if c == '\n' {
            push_char(out, '\\');
            push_char(out, 'n');
        } else if c == '\r' {
            push_char(out, '\\');
            push_char(out, 'r');
        } else if c == '\t' {
            push_char(out, '\\');
            push_char(out, 't');
        } else if (c as u32) < 0x20 {
            let v = c as u32;
            push_char(out, '\\');
            push_char(out, 'u');
            push_char(out, '0');
            push_char(out, '0');
            push_char(out, hex_digit_lower(v / 16));
            push_char(out, hex_digit_lower(v % 16));
        } else {
            push_char(out, c);
        }
        assert(out@ =~= before + json_escape_char(c));
        i = i + 1;
        assert(cs@.take(i as int).drop_last() == cs@.take((i - 1) as int));
    }
    assert(cs@.take(cs.len() as int) == cs@);
    push_char(out, '"');
    assert(out@ =~= old(out)@ + json_string(s@));
}

} // verus!
