//! Character and string helpers used to render protobuf names and definitions.
//!
//! Identifiers are ASCII in practice; the case conversions below change only ASCII letters and
//! leave every other character as it is.

use vstd::prelude::*;

verus! {

pub open spec fn is_ascii_upper(c: char) -> bool {
    'A' <= c && c <= 'Z'
}

pub open spec fn is_ascii_lower(c: char) -> bool {
    'a' <= c && c <= 'z'
}

pub open spec fn upper_of(c: char) -> char {
    if is_ascii_lower(c) {
        ((c as u8) - 32) as char
    } else {
        c
    }
}

pub open spec fn lower_of(c: char) -> char {
    if is_ascii_upper(c) {
        ((c as u8) + 32) as char
    } else {
        c
    }
}

pub fn to_ascii_upper(c: char) -> (r: char)
    ensures
        r == upper_of(c),
{
    if 'a' <= c && c <= 'z' {
        let b: u8 = c as u8;
        (b - 32) as char
    } else {
        c
    }
}

pub fn to_ascii_lower(c: char) -> (r: char)
    ensures
        r == lower_of(c),
{
    if 'A' <= c && c <= 'Z' {
        let b: u8 = c as u8;
        (b + 32) as char
    } else {
        c
    }
}

/// Appends one character to a string by `String::push`, which std documents as appending the
/// character to the end; this contract is believed, not proved.
#[verifier::external_body]
pub(crate) fn push_char(s: &mut String, c: char)
    ensures
        final(s)@ == old(s)@.push(c),
{
    s.push(c);
}

/// Appends a string slice to a string.
pub(crate) fn push_str(s: &mut String, t: &str)
    ensures
        final(s)@ == old(s)@ + t@,
{
    s.append(t);
}

/// A string holding the characters of a literal.
pub(crate) fn string_of(t: &str) -> (r: String)
    ensures
        r@ == t@,
{
    String::from_str(t)
}

/// Character-wise equality of two strings.
pub fn str_eq(a: &str, b: &str) -> (r: bool)
    ensures
        r == (a@ == b@),
{
    let n = a.unicode_len();
    let m = b.unicode_len();
    if n != m {
        return false;
    }
    let mut i: usize = 0;
    while i < n
        invariant
            n == a@.len(),
            m == b@.len(),
            n == m,
            i <= n,
            forall|j: int| 0 <= j < i ==> a@[j] == b@[j],
        decreases n - i,
    {
        if a.get_char(i) != b.get_char(i) {
            return false;
        }
        i = i + 1;
    }
    assert(a@ =~= b@);
    true
}

/// The string `"Proto"`.
pub open spec fn proto_word() -> Seq<char> {
    seq!['P', 'r', 'o', 't', 'o']
}

/// `s` with a trailing `"Proto"` removed, when it ends with one.
pub open spec fn strip_proto_suffix_spec(s: Seq<char>) -> Seq<char> {
    if s.len() >= 5 && s.subrange(s.len() - 5, s.len() as int) == proto_word() {
        s.subrange(0, s.len() - 5)
    } else {
        s
    }
}

pub fn strip_proto_suffix(s: &str) -> (r: String)
    ensures
        r@ == strip_proto_suffix_spec(s@),
{
    let n = s.unicode_len();
    let mut ends = false;
    if n >= 5 {
        ends = s.get_char(n - 5) == 'P' && s.get_char(n - 4) == 'r' && s.get_char(n - 3) == 'o'
            && s.get_char(n - 2) == 't' && s.get_char(n - 1) == 'o';
        if ends {
            assert(s@.subrange(n - 5, n as int) =~= proto_word());
        } else {
            assert(s@.subrange(n - 5, n as int) != proto_word()) by {
                if s@.subrange(n - 5, n as int) == proto_word() {
                    assert(s@.subrange(n - 5, n as int)[0] == s@[n - 5]);
                    assert(s@.subrange(n - 5, n as int)[1] == s@[n - 4]);
                    assert(s@.subrange(n - 5, n as int)[2] == s@[n - 3]);
                    assert(s@.subrange(n - 5, n as int)[3] == s@[n - 2]);
                    assert(s@.subrange(n - 5, n as int)[4] == s@[n - 1]);
                }
            }
        }
    }
    let end = if ends { n - 5 } else { n };
    let r = s.substring_char(0, end);
    proof {
        if !ends {
            assert(s@.subrange(0, n as int) =~= s@);
        }
    }
    string_of(r)
}

/// `s` with its first character upper-cased.
pub open spec fn capitalize_spec(s: Seq<char>) -> Seq<char> {
    if s.len() == 0 {
        s
    } else {
        seq![upper_of(s[0])] + s.drop_first()
    }
}

pub fn capitalize(s: &str) -> (r: String)
    ensures
        r@ == capitalize_spec(s@),
{
    let n = s.unicode_len();
    let mut r = String::new();
    let mut i: usize = 0;
    while i < n
        invariant
            n == s@.len(),
            i <= n,
            r@ == capitalize_spec(s@.subrange(0, i as int)),
        decreases n - i,
    {
        let c = s.get_char(i);
        let ghost prev = r@;
        if i == 0 {
            push_char(&mut r, to_ascii_upper(c));
        } else {
            push_char(&mut r, c);
        }
        proof {
            let p = s@.subrange(0, i as int);
            let q = s@.subrange(0, i + 1);
            assert(q =~= p.push(c));
            if i > 0 {
                assert(q.drop_first() =~= p.drop_first().push(c));
                assert(q[0] == p[0]);
            }
            assert(r@ =~= capitalize_spec(q));
        }
        i = i + 1;
    }
    assert(s@.subrange(0, n as int) =~= s@);
    r
}

/// What one source character becomes in snake case; `later` tells whether it is not the first.
pub open spec fn snake_piece(c: char, later: bool) -> Seq<char> {
    if is_ascii_upper(c) {
        if later {
            seq!['_', lower_of(c)]
        } else {
            seq![lower_of(c)]
        }
    } else {
        seq![c]
    }
}

/// Snake case: an underscore goes before every upper-case letter but a leading one, and
/// upper-case letters become lower-case.
pub open spec fn snake_spec(s: Seq<char>) -> Seq<char>
    decreases s.len(),
{
    if s.len() == 0 {
        Seq::empty()
    } else {
        snake_spec(s.drop_last()) + snake_piece(s.last(), s.len() > 1)
    }
}

pub fn to_snake_case(s: &str) -> (r: String)
    ensures
        r@ == snake_spec(s@),
{
    let n = s.unicode_len();
    let mut r = String::new();
    let mut i: usize = 0;
    while i < n
        invariant
            n == s@.len(),
            i <= n,
            r@ == snake_spec(s@.subrange(0, i as int)),
        decreases n - i,
    {
        let c = s.get_char(i);
        if 'A' <= c && c <= 'Z' {
            if i > 0 {
                push_char(&mut r, '_');
            }
            push_char(&mut r, to_ascii_lower(c));
        } else {
            push_char(&mut r, c);
        }
        proof {
            let q = s@.subrange(0, i + 1);
            assert(q.drop_last() =~= s@.subrange(0, i as int));
            assert(r@ =~= snake_spec(q));
        }
        i = i + 1;
    }
    assert(s@.subrange(0, n as int) =~= s@);
    r
}

/// Upper snake case: snake case with every letter upper-cased.
pub open spec fn upper_snake_spec(s: Seq<char>) -> Seq<char> {
    snake_spec(s).map_values(|c: char| upper_of(c))
}

pub fn to_upper_snake_case(s: &str) -> (r: String)
    ensures
        r@ == upper_snake_spec(s@),
{
    let snake = to_snake_case(s);
    let t = snake.as_str();
    let n = t.unicode_len();
    let mut r = String::new();
    let mut i: usize = 0;
    while i < n
        invariant
            n == t@.len(),
            t@ == snake_spec(s@),
            i <= n,
            r@ =~= t@.subrange(0, i as int).map_values(|c: char| upper_of(c)),
        decreases n - i,
    {
        let c = t.get_char(i);
        push_char(&mut r, to_ascii_upper(c));
        assert(t@.subrange(0, i + 1) =~= t@.subrange(0, i as int).push(c));
        i = i + 1;
    }
    assert(t@.subrange(0, n as int) =~= t@);
    r
}

/// What one source character becomes in Pascal case, given the character before it.
pub open spec fn pascal_piece(c: char, prev: Option<char>) -> Seq<char> {
    if c == '_' {
        Seq::empty()
    } else if prev is None || prev == Some('_') {
        seq![upper_of(c)]
    } else {
        seq![c]
    }
}

/// Pascal case: underscores are dropped and the letter that starts each word is upper-cased.
pub open spec fn pascal_spec(s: Seq<char>) -> Seq<char>
    decreases s.len(),
{
    if s.len() == 0 {
        Seq::empty()
    } else {
        let prev = if s.len() > 1 { Some(s[s.len() - 2]) } else { None };
        pascal_spec(s.drop_last()) + pascal_piece(s.last(), prev)
    }
}

pub fn to_pascal_case(s: &str) -> (r: String)
    ensures
        r@ == pascal_spec(s@),
{
    let n = s.unicode_len();
    let mut r = String::new();
    let mut i: usize = 0;
    let mut prev: Option<char> = None;
    while i < n
        invariant
            n == s@.len(),
            i <= n,
            r@ == pascal_spec(s@.subrange(0, i as int)),
            prev == (if i > 0 { Some(s@[i - 1]) } else { None::<char> }),
        decreases n - i,
    {
        let c = s.get_char(i);
        if c != '_' {
            let starts = match prev {
                None => true,
                Some(p) => p == '_',
            };
            if starts {
                push_char(&mut r, to_ascii_upper(c));
            } else {
                push_char(&mut r, c);
            }
        }
        proof {
            let q = s@.subrange(0, i + 1);
            assert(q.drop_last() =~= s@.subrange(0, i as int));
            if i > 0 {
                assert(q[q.len() - 2] == s@[i - 1]);
            }
            assert(r@ =~= pascal_spec(q));
        }
        prev = Some(c);
        i = i + 1;
    }
    assert(s@.subrange(0, n as int) =~= s@);
    r
}

/// The decimal digits of a natural number.
pub open spec fn digit_char(d: nat) -> char {
    if d == 0 { '0' }
    else if d == 1 { '1' }
    else if d == 2 { '2' }
    else if d == 3 { '3' }
    else if d == 4 { '4' }
    else if d == 5 { '5' }
    else if d == 6 { '6' }
    else if d == 7 { '7' }
    else if d == 8 { '8' }
    else { '9' }
}

pub open spec fn nat_text(n: nat) -> Seq<char>
    decreases n,
{
    if n < 10 {
        seq![digit_char(n)]
    } else {
        nat_text(n / 10).push(digit_char(n % 10))
    }
}

/// Decimal text of an integer, with a leading `-` when it is negative.
pub open spec fn int_text(i: int) -> Seq<char> {
    if i < 0 {
        seq!['-'] + nat_text((-i) as nat)
    } else {
        nat_text(i as nat)
    }
}

fn digit(d: u64) -> (c: char)
    requires
        d < 10,
    ensures
        c == digit_char(d as nat),
{
    if d == 0 { '0' }
    else if d == 1 { '1' }
    else if d == 2 { '2' }
    else if d == 3 { '3' }
    else if d == 4 { '4' }
    else if d == 5 { '5' }
    else if d == 6 { '6' }
    else if d == 7 { '7' }
    else if d == 8 { '8' }
    else { '9' }
}

/// Appends the decimal text of `n`.
pub fn push_u64(s: &mut String, n: u64)
    ensures
        final(s)@ == old(s)@ + nat_text(n as nat),
    decreases n,
{
    if n < 10 {
        push_char(s, digit(n));
    } else {
        push_u64(s, n / 10);
        push_char(s, digit(n % 10));
        assert(final(s)@ =~= old(s)@ + nat_text(n as nat));
    }
}

/// Appends the decimal text of `i`.
pub fn push_i64(s: &mut String, i: i64)
    ensures
        final(s)@ == old(s)@ + int_text(i as int),
{
    if i < 0 {
        push_char(s, '-');
        let m: u64 = if i == i64::MIN { 9223372036854775808u64 } else { (-i) as u64 };
        push_u64(s, m);
        assert(final(s)@ =~= old(s)@ + int_text(i as int));
    } else {
        push_u64(s, i as u64);
    }
}

/// The value of a decimal digit character.
pub open spec fn digit_value(c: char) -> nat {
    ((c as int) - 48) as nat
}

pub open spec fn is_digit(c: char) -> bool {
    '0' <= c && c <= '9'
}

pub open spec fn all_digits(d: Seq<char>) -> bool {
    forall|i: int| 0 <= i < d.len() ==> is_digit(#[trigger] d[i])
}

/// The value of a sequence of decimal digits.
pub open spec fn digits_value(s: Seq<char>) -> nat
    decreases s.len(),
{
    if s.len() == 0 {
        0
    } else {
        digits_value(s.drop_last()) * 10 + digit_value(s.last())
    }
}

/// What `str::parse::<usize>` gives: an optional `+`, then one or more decimal digits whose value
/// fits in `usize`.
pub open spec fn parse_usize_spec(s: Seq<char>) -> Option<usize> {
    let d = if s.len() > 0 && s[0] == '+' {
        s.drop_first()
    } else {
        s
    };
    if d.len() > 0 && all_digits(d) && digits_value(d) <= usize::MAX {
        Some(digits_value(d) as usize)
    } else {
        None
    }
}

proof fn lemma_digits_value_grows(s: Seq<char>, k: int)
    requires
        0 <= k <= s.len(),
    ensures
        digits_value(s.take(k)) <= digits_value(s),
    decreases s.len() - k,
{
    if k < s.len() {
        lemma_digits_value_grows(s, k + 1);
        assert(s.take(k + 1).drop_last() =~= s.take(k));
    } else {
        assert(s.take(k) =~= s);
    }
}

/// Parses a decimal `usize` as `str::parse` does.
pub fn parse_usize(s: &str) -> (r: Option<usize>)
    ensures
        r == parse_usize_spec(s@),
{
    let n = s.unicode_len();
    let start: usize = if n > 0 && s.get_char(0) == '+' {
        1
    } else {
        0
    };
    let ghost d = if s@.len() > 0 && s@[0] == '+' {
        s@.drop_first()
    } else {
        s@
    };
    assert(d =~= s@.subrange(start as int, n as int));
    if start == n {
        assert(d.len() == 0);
        return None;
    }
    let mut acc: u128 = 0;
    let mut i: usize = start;
    while i < n
        invariant
            n == s@.len(),
            start <= i <= n,
            d =~= s@.subrange(start as int, n as int),
            d == (if s@.len() > 0 && s@[0] == '+' {
                s@.drop_first()
            } else {
                s@
            }),
            acc == digits_value(d.take(i - start)),
            acc <= usize::MAX,
            forall|j: int| 0 <= j < i - start ==> is_digit(#[trigger] d[j]),
        decreases n - i,
    {
        let c = s.get_char(i);
        assert(c == d[i - start]);
        if !('0' <= c && c <= '9') {
            assert(!is_digit(d[i - start]));
            assert(!all_digits(d));
            assert(parse_usize_spec(s@) is None);
            return None;
        }
        let dv = (c as u32 - 48) as u128;
        acc = acc * 10 + dv;
        assert(d.take(i - start + 1).drop_last() =~= d.take(i - start));
        assert(d.take(i - start + 1).last() == c);
        assert(acc == digits_value(d.take(i - start + 1)));
        if acc > usize::MAX as u128 {
            proof {
                lemma_digits_value_grows(d, i - start + 1);
                assert(digits_value(d) > usize::MAX);
                assert(parse_usize_spec(s@) is None);
            }
            return None;
        }
        i = i + 1;
    }
    assert(d.take(n - start) =~= d);
    Some(acc as usize)
}

/// The parts joined with `sep` between neighbours.
pub open spec fn join_spec(parts: Seq<Seq<char>>, sep: Seq<char>) -> Seq<char>
    decreases parts.len(),
{
    if parts.len() == 0 {
        Seq::empty()
    } else if parts.len() == 1 {
        parts[0]
    } else {
        join_spec(parts.drop_last(), sep) + sep + parts.last()
    }
}

/// The characters of an optional string slice.
pub open spec fn opt_view(o: Option<&str>) -> Option<Seq<char>> {
    match o {
        Some(s) => Some(s@),
        None => None,
    }
}

/// The views of a sequence of strings.
pub open spec fn views(v: Seq<String>) -> Seq<Seq<char>> {
    v.map_values(|s: String| s@)
}

pub fn join(parts: &Vec<String>, sep: &str) -> (r: String)
    ensures
        r@ == join_spec(views(parts@), sep@),
{
    let mut r = String::new();
    let n = parts.len();
    let mut i: usize = 0;
    while i < n
        invariant
            n == parts@.len(),
            i <= n,
            r@ == join_spec(views(parts@.subrange(0, i as int)), sep@),
        decreases n - i,
    {
        if i > 0 {
            push_str(&mut r, sep);
        }
        push_str(&mut r, parts[i].as_str());
        proof {
            let q = views(parts@.subrange(0, i + 1));
            assert(q.drop_last() =~= views(parts@.subrange(0, i as int)));
            assert(q.last() == parts@[i as int]@);
            if i == 0 {
                assert(r@ =~= join_spec(q, sep@));
            }
        }
        i = i + 1;
    }
    assert(parts@.subrange(0, n as int) =~= parts@);
    r
}

} // verus!
