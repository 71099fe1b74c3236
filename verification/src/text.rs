//! Character-level helpers shared by the small textual parsers of the library.
use vstd::prelude::*;

verus! {

/// Unicode `White_Space`, the set that `char::is_whitespace` and `str::trim` use.
pub open spec fn is_space(c: char) -> bool {
    ||| c == '\t'
    ||| c == '\n'
    ||| c == '\u{0B}'
    ||| c == '\u{0C}'
    ||| c == '\r'
    ||| c == ' '
    ||| c == '\u{85}'
    ||| c == '\u{A0}'
    ||| c == '\u{1680}'
    ||| ('\u{2000}' <= c && c <= '\u{200A}')
    ||| c == '\u{2028}'
    ||| c == '\u{2029}'
    ||| c == '\u{202F}'
    ||| c == '\u{205F}'
    ||| c == '\u{3000}'
}

/// Whether a character is white space.
pub fn char_is_space(c: char) -> (r: bool)
    ensures
        r == is_space(c),
{
    c == '\t' || c == '\n' || c == '\u{0B}' || c == '\u{0C}' || c == '\r' || c == ' ' || c
        == '\u{85}' || c == '\u{A0}' || c == '\u{1680}' || ('\u{2000}' <= c && c <= '\u{200A}')
        || c == '\u{2028}' || c == '\u{2029}' || c == '\u{202F}' || c == '\u{205F}' || c
        == '\u{3000}'
}

/// Whether a character is a decimal digit.
pub open spec fn is_digit(c: char) -> bool {
    '0' <= c && c <= '9'
}

/// The value of a decimal digit.
pub open spec fn digit_value(c: char) -> nat {
    (c as nat - '0' as nat) as nat
}

/// ASCII-only lower-casing, as `char::to_ascii_lowercase` does.
pub open spec fn ascii_lower(c: char) -> char {
    if 'A' <= c && c <= 'Z' {
        ((c as u32) + 32) as char
    } else {
        c
    }
}

/// A character in lower case, where it is an ASCII letter.
pub fn char_ascii_lower(c: char) -> (r: char)
    ensures
        r == ascii_lower(c),
{
    if 'A' <= c && c <= 'Z' {
        let code: u32 = (c as u32) + 32;
        assert(0x61 <= code <= 0x7A);
        char_from_ascii_code(code)
    } else {
        c
    }
}

/// `s` with every ASCII upper-case letter lowered.
pub open spec fn lower_seq(s: Seq<char>) -> Seq<char> {
    s.map_values(|c: char| ascii_lower(c))
}

fn char_from_ascii_code(code: u32) -> (c: char)
    requires
        0x61 <= code <= 0x7A,
    ensures
        c as u32 == code,
        c == code as char,
{
    let b: u8 = code as u8;
    assert(b as u32 == code);
    let c = b as char;
    c
}

/// The characters of `s`, one by one.
pub fn chars_of(s: &str) -> (v: Vec<char>)
    ensures
        v@ == s@,
{
    let n = s.unicode_len();
    let mut v: Vec<char> = Vec::new();
    let mut i: usize = 0;
    while i < n
        invariant
            n == s@.len(),
            i <= n,
            v@ == s@.subrange(0, i as int),
        decreases n - i,
    {
        let c = s.get_char(i);
        v.push(c);
        i = i + 1;
        assert(v@ =~= s@.subrange(0, i as int));
    }
    assert(v@ =~= s@);
    v
}

/// Appends one character, as `String::push` does.
#[verifier::external_body]
pub(crate) fn string_push(s: &mut String, c: char)
    ensures
        final(s)@ == old(s)@.push(c),
{
    s.push(c);
}

/// A `String` holding exactly the given characters.
pub fn string_from_chars(v: &[char]) -> (s: String)
    ensures
        s@ == v@,
{
    let mut s = String::new();
    let mut i: usize = 0;
    while i < v.len()
        invariant
            i <= v@.len(),
            s@ == v@.subrange(0, i as int),
        decreases v@.len() - i,
    {
        string_push(&mut s, v[i]);
        i = i + 1;
        assert(s@ =~= v@.subrange(0, i as int));
    }
    assert(s@ =~= v@);
    s
}

/// String equality by content.
pub fn str_eq(a: &str, b: &str) -> (r: bool)
    ensures
        r == (a@ == b@),
{
    let x: String = a.to_owned();
    let y: String = b.to_owned();
    x == y
}

/// Number of leading white-space characters.
pub open spec fn leading_space(s: Seq<char>) -> nat
    decreases s.len(),
{
    if s.len() > 0 && is_space(s[0]) {
        1 + leading_space(s.drop_first())
    } else {
        0
    }
}

/// Number of trailing white-space characters.
pub open spec fn trailing_space(s: Seq<char>) -> nat
    decreases s.len(),
{
    if s.len() > 0 && is_space(s.last()) {
        1 + trailing_space(s.drop_last())
    } else {
        0
    }
}

/// `s` without leading and trailing white space, as `str::trim` gives it.
pub open spec fn trim_seq(s: Seq<char>) -> Seq<char> {
    let front = s.skip(leading_space(s) as int);
    front.take(front.len() - trailing_space(front))
}

/// The leading white space is no longer than the text.
pub proof fn lemma_leading_space_bound(s: Seq<char>)
    ensures
        leading_space(s) <= s.len(),
    decreases s.len(),
{
    if s.len() > 0 && is_space(s[0]) {
        lemma_leading_space_bound(s.drop_first());
    }
}

proof fn lemma_trailing_space_bound(s: Seq<char>)
    ensures
        trailing_space(s) <= s.len(),
    decreases s.len(),
{
    if s.len() > 0 && is_space(s.last()) {
        lemma_trailing_space_bound(s.drop_last());
    }
}

/// The length of the leading white space of `v` from `from` on.
pub fn count_leading_space(v: &Vec<char>, from: usize) -> (n: usize)
    requires
        from <= v@.len(),
    ensures
        n == leading_space(v@.skip(from as int)),
        from + n <= v@.len(),
    decreases v@.len() - from,
{
    proof {
        lemma_leading_space_bound(v@.skip(from as int));
    }
    if from < v.len() && char_is_space(v[from]) {
        assert(v@.skip(from as int).drop_first() =~= v@.skip(from + 1));
        let rest = count_leading_space(v, from + 1);
        rest + 1
    } else {
        0
    }
}

fn count_trailing_space(v: &Vec<char>, from: usize, to: usize) -> (n: usize)
    requires
        from <= to <= v@.len(),
    ensures
        n == trailing_space(v@.subrange(from as int, to as int)),
        n <= to - from,
    decreases to - from,
{
    proof {
        lemma_trailing_space_bound(v@.subrange(from as int, to as int));
    }
    if from < to && char_is_space(v[to - 1]) {
        assert(v@.subrange(from as int, to as int).drop_last() =~= v@.subrange(
            from as int,
            to - 1,
        ));
        let rest = count_trailing_space(v, from, to - 1);
        rest + 1
    } else {
        0
    }
}

/// `s` without leading and trailing white space.
pub fn trim_chars(v: &Vec<char>) -> (r: Vec<char>)
    ensures
        r@ == trim_seq(v@),
{
    let lead = count_leading_space(v, 0);
    assert(v@.skip(0) =~= v@);
    let trail = count_trailing_space(v, lead, v.len());
    assert(v@.subrange(lead as int, v@.len() as int) =~= v@.skip(lead as int));
    let end = v.len() - trail;
    let mut r: Vec<char> = Vec::new();
    let mut i = lead;
    while i < end
        invariant
            lead <= i <= end <= v@.len(),
            r@ == v@.subrange(lead as int, i as int),
        decreases end - i,
    {
        r.push(v[i]);
        i = i + 1;
        assert(r@ =~= v@.subrange(lead as int, i as int));
    }
    assert(r@ =~= trim_seq(v@));
    r
}

/// ASCII lower-casing of every character.
pub fn lower_chars(v: &Vec<char>) -> (r: Vec<char>)
    ensures
        r@ == lower_seq(v@),
{
    let mut r: Vec<char> = Vec::new();
    let mut i: usize = 0;
    while i < v.len()
        invariant
            i <= v@.len(),
            r@ == lower_seq(v@.subrange(0, i as int)),
        decreases v@.len() - i,
    {
        let c = char_ascii_lower(v[i]);
        r.push(c);
        i = i + 1;
        assert(r@ =~= lower_seq(v@.subrange(0, i as int)));
    }
    assert(v@.subrange(0, v@.len() as int) =~= v@);
    r
}

/// Whether two character vectors are equal.
pub fn chars_eq(a: &Vec<char>, b: &Vec<char>) -> (r: bool)
    ensures
        r == (a@ == b@),
{
    if a.len() != b.len() {
        return false;
    }
    let mut i: usize = 0;
    while i < a.len()
        invariant
            a@.len() == b@.len(),
            i <= a@.len(),
            forall|j: int| 0 <= j < i ==> a@[j] == b@[j],
        decreases a@.len() - i,
    {
        if a[i] != b[i] {
            return false;
        }
        i = i + 1;
    }
    assert(a@ =~= b@);
    true
}

/// Whether a character vector equals a given string.
pub fn chars_eq_str(a: &Vec<char>, b: &str) -> (r: bool)
    ensures
        r == (a@ == b@),
{
    let bv = chars_of(b);
    chars_eq(a, &bv)
}

/// The value of a run of decimal digits.
pub open spec fn digits_value(s: Seq<char>) -> nat
    decreases s.len(),
{
    if s.len() == 0 {
        0
    } else {
        digits_value(s.drop_last()) * 10 + digit_value(s.last())
    }
}

/// Whether every character is a decimal digit.
pub open spec fn all_digits(s: Seq<char>) -> bool {
    forall|i: int| 0 <= i < s.len() ==> is_digit(#[trigger] s[i])
}

/// What `str::parse::<uN>` gives for an unsigned integer type whose maximum is `max`:
/// an optional `+`, then one or more decimal digits whose value is at most `max`.
pub open spec fn parse_unsigned(s: Seq<char>, max: nat) -> Option<nat> {
    let body = if s.len() > 0 && s[0] == '+' {
        s.drop_first()
    } else {
        s
    };
    if body.len() > 0 && all_digits(body) && digits_value(body) <= max {
        Some(digits_value(body))
    } else {
        None
    }
}

/// Parses an unsigned decimal no greater than `max`, as `str::parse` does for unsigned types.
pub fn parse_unsigned_chars(s: &Vec<char>, max: u64) -> (r: Option<u64>)
    ensures
        r matches Some(v) ==> parse_unsigned(s@, max as nat) == Some(v as nat),
        r is None ==> parse_unsigned(s@, max as nat) is None,
{
    let start: usize = if s.len() > 0 && s[0] == '+' {
        1
    } else {
        0
    };
    let ghost body = if s@.len() > 0 && s@[0] == '+' {
        s@.drop_first()
    } else {
        s@
    };
    assert(body =~= s@.skip(start as int));
    if start >= s.len() {
        return None;
    }
    let mut value: u64 = 0;
    let mut i = start;
    while i < s.len()
        invariant
            start <= i <= s@.len(),
            start < s@.len(),
            body == s@.skip(start as int),
            body == (if s@.len() > 0 && s@[0] == '+' { s@.drop_first() } else { s@ }),
            value as nat == digits_value(s@.subrange(start as int, i as int)),
            value <= max,
            all_digits(s@.subrange(start as int, i as int)),
        decreases s@.len() - i,
    {
        let c = s[i];
        let ghost prefix = s@.subrange(start as int, i as int);
        let ghost next = s@.subrange(start as int, i + 1);
        assert(next.drop_last() =~= prefix);
        if !('0' <= c && c <= '9') {
            assert(body[i - start] == c);
            assert(!is_digit(body[i - start]));
            assert(!all_digits(body));
            assert(parse_unsigned(s@, max as nat) is None);
            return None;
        }
        let d: u64 = ((c as u32) - ('0' as u32)) as u64;
        assert(d as nat == digit_value(c));
        if d > max || value > (max - d) / 10 {
            proof {
                assert(digits_value(next) == digits_value(prefix) * 10 + d);
                if d <= max {
                    assert(value * 10 + d > max) by (nonlinear_arith)
                        requires
                            value > (max - d) / 10,
                            d <= 9,
                            d <= max,
                    ;
                }
                assert(all_digits(next));
                if all_digits(body) {
                    lemma_digits_value_prefix_mono(body, (i - start + 1) as int);
                    assert(body.subrange(0, (i - start + 1) as int) =~= next);
                    assert(digits_value(body) > max);
                }
                assert(parse_unsigned(s@, max as nat) is None);
            }
            return None;
        }
        proof {
            assert(value * 10 + d <= max) by (nonlinear_arith)
                requires
                    value <= (max - d) / 10,
                    d <= max,
            ;
        }
        value = value * 10 + d;
        i = i + 1;
        assert(all_digits(next));
    }
    assert(s@.subrange(start as int, s@.len() as int) =~= body);
    Some(value)
}

/// A longer run of digits never has a smaller value.
proof fn lemma_digits_value_prefix_mono(s: Seq<char>, k: int)
    requires
        0 <= k <= s.len(),
        all_digits(s),
    ensures
        digits_value(s.subrange(0, k)) <= digits_value(s),
    decreases s.len(),
{
    if k < s.len() {
        assert(s.drop_last().subrange(0, k) =~= s.subrange(0, k));
        assert(all_digits(s.drop_last()));
        lemma_digits_value_prefix_mono(s.drop_last(), k);
        assert(digits_value(s) == digits_value(s.drop_last()) * 10 + digit_value(s.last()));
    } else {
        assert(s.subrange(0, k) =~= s);
    }
}

/// Number of leading characters that are not white space: the length of the first token.
pub open spec fn token_len(s: Seq<char>) -> nat
    decreases s.len(),
{
    if s.len() > 0 && !is_space(s[0]) {
        1 + token_len(s.drop_first())
    } else {
        0
    }
}

/// A token is no longer than the text, and not empty where the text starts with one.
pub proof fn lemma_token_len_bound(s: Seq<char>)
    ensures
        token_len(s) <= s.len(),
        s.len() > 0 && !is_space(s[0]) ==> token_len(s) >= 1,
        forall|i: int| 0 <= i < token_len(s) ==> !is_space(#[trigger] s[i]),
    decreases s.len(),
{
    if s.len() > 0 && !is_space(s[0]) {
        lemma_token_len_bound(s.drop_first());
        assert forall|i: int| 0 <= i < token_len(s) implies !is_space(#[trigger] s[i]) by {
            if i > 0 {
                assert(s[i] == s.drop_first()[i - 1]);
            }
        }
    }
}

/// The first white-space separated token that starts with a decimal digit, as
/// `split_whitespace().find(..)` gives it.
pub open spec fn first_numeric_token(s: Seq<char>) -> Option<Seq<char>>
    decreases s.len(),
{
    let rest = s.skip(leading_space(s) as int);
    if leading_space(s) >= s.len() || rest.len() == 0 {
        None
    } else {
        let n = token_len(rest);
        if is_digit(rest[0]) {
            Some(rest.take(n as int))
        } else {
            proof {
                lemma_leading_space_bound(s);
                lemma_token_len_bound(rest);
            }
            if n == 0 {
                None
            } else {
                first_numeric_token(rest.skip(n as int))
            }
        }
    }
}

/// The length of the token of `v` at `from`.
pub fn count_token(v: &Vec<char>, from: usize) -> (n: usize)
    requires
        from <= v@.len(),
    ensures
        n == token_len(v@.skip(from as int)),
        from + n <= v@.len(),
    decreases v@.len() - from,
{
    proof {
        lemma_token_len_bound(v@.skip(from as int));
    }
    if from < v.len() && !char_is_space(v[from]) {
        assert(v@.skip(from as int).drop_first() =~= v@.skip(from + 1));
        let rest = count_token(v, from + 1);
        rest + 1
    } else {
        0
    }
}

/// The first token of `v` that starts with a decimal digit.
pub fn find_numeric_token(v: &Vec<char>) -> (r: Option<Vec<char>>)
    ensures
        match r {
            Some(t) => first_numeric_token(v@) == Some(t@),
            None => first_numeric_token(v@) is None,
        },
{
    let mut i: usize = 0;
    assert(v@.skip(0) =~= v@);
    while i < v.len()
        invariant
            i <= v@.len(),
            first_numeric_token(v@) == first_numeric_token(v@.skip(i as int)),
        decreases v@.len() - i,
    {
        let ghost s = v@.skip(i as int);
        let lead = count_leading_space(v, i);
        proof {
            lemma_leading_space_bound(s);
        }
        let start = i + lead;
        if start >= v.len() {
            return None;
        }
        let ghost rest = s.skip(lead as int);
        assert(rest =~= v@.skip(start as int));
        let n = count_token(v, start);
        proof {
            lemma_token_len_bound(rest);
        }
        proof {
            lemma_leading_space_stop(s);
            assert(rest[0] == v@[start as int]);
        }
        let end = start + n;
        if '0' <= v[start] && v[start] <= '9' {
            let mut t: Vec<char> = Vec::new();
            let mut j = start;
            while j < end
                invariant
                    end == start + n,
                    start <= j <= end <= v@.len(),
                    t@ == v@.subrange(start as int, j as int),
                decreases end - j,
            {
                t.push(v[j]);
                j = j + 1;
                assert(t@ =~= v@.subrange(start as int, j as int));
            }
            assert(t@ =~= rest.take(n as int));
            return Some(t);
        }
        assert(rest.skip(n as int) =~= v@.skip((start + n) as int));
        assert(first_numeric_token(s) == first_numeric_token(rest.skip(n as int)));
        i = end;
    }
    assert(v@.skip(i as int).len() == 0);
    None
}

/// The leading white space ends at a character that is not white space, if any.
pub proof fn lemma_leading_space_stop(s: Seq<char>)
    ensures
        leading_space(s) < s.len() ==> !is_space(s[leading_space(s) as int]),
    decreases s.len(),
{
    if s.len() > 0 && is_space(s[0]) {
        lemma_leading_space_stop(s.drop_first());
        if leading_space(s) < s.len() {
            assert(s[leading_space(s) as int] == s.drop_first()[leading_space(s.drop_first()) as int]);
        }
    }
}

/// The part of `s` before the first `c` (all of `s` when there is none).
pub open spec fn before_char(s: Seq<char>, c: char) -> Seq<char>
    decreases s.len(),
{
    if s.len() == 0 || s[0] == c {
        Seq::empty()
    } else {
        seq![s[0]] + before_char(s.drop_first(), c)
    }
}

/// The part of `s` after the first `c`, when there is one.
pub open spec fn after_char(s: Seq<char>, c: char) -> Option<Seq<char>>
    decreases s.len(),
{
    if s.len() == 0 {
        None
    } else if s[0] == c {
        Some(s.drop_first())
    } else {
        after_char(s.drop_first(), c)
    }
}

/// Splits `v[from..]` at its first `c`: the part before it, and the position after it.
pub fn split_at_char(v: &Vec<char>, from: usize, c: char) -> (r: (Vec<char>, Option<usize>))
    requires
        from <= v@.len(),
    ensures
        r.0@ == before_char(v@.skip(from as int), c),
        match r.1 {
            Some(k) => k <= v@.len() && after_char(v@.skip(from as int), c) == Some(v@.skip(k as int)),
            None => after_char(v@.skip(from as int), c) is None,
        },
    decreases v@.len() - from,
{
    if from >= v.len() {
        return (Vec::new(), None);
    }
    let ghost s = v@.skip(from as int);
    assert(s.drop_first() =~= v@.skip(from + 1));
    if v[from] == c {
        return (Vec::new(), Some(from + 1));
    }
    let (rest, k) = split_at_char(v, from + 1, c);
    let mut out: Vec<char> = Vec::new();
    out.push(v[from]);
    let mut i: usize = 0;
    while i < rest.len()
        invariant
            i <= rest@.len(),
            out@ == seq![v@[from as int]] + rest@.take(i as int),
        decreases rest@.len() - i,
    {
        out.push(rest[i]);
        i = i + 1;
        assert(out@ =~= seq![v@[from as int]] + rest@.take(i as int));
    }
    assert(rest@.take(rest@.len() as int) =~= rest@);
    (out, k)
}

/// `s` without its trailing `c` characters, as `str::trim_end_matches` gives it.
pub open spec fn trim_end_char(s: Seq<char>, c: char) -> Seq<char>
    decreases s.len(),
{
    if s.len() > 0 && s.last() == c {
        trim_end_char(s.drop_last(), c)
    } else {
        s
    }
}

/// The characters without any trailing `c`.
pub fn trim_end_chars(v: &Vec<char>, c: char) -> (r: Vec<char>)
    ensures
        r@ == trim_end_char(v@, c),
{
    let mut end = v.len();
    assert(v@.take(end as int) =~= v@);
    while end > 0 && v[end - 1] == c
        invariant
            end <= v@.len(),
            trim_end_char(v@, c) == trim_end_char(v@.take(end as int), c),
        decreases end,
    {
        assert(v@.take(end as int).drop_last() =~= v@.take(end - 1));
        end = end - 1;
    }
    let mut r: Vec<char> = Vec::new();
    let mut i: usize = 0;
    while i < end
        invariant
            i <= end <= v@.len(),
            r@ == v@.take(i as int),
        decreases end - i,
    {
        r.push(v[i]);
        i = i + 1;
        assert(r@ =~= v@.take(i as int));
    }
    r
}

/// Appends the characters of `t` to `s`.
pub fn push_str(s: &mut String, t: &str)
    ensures
        final(s)@ == old(s)@ + t@,
{
    let cs = chars_of(t);
    let mut i: usize = 0;
    while i < cs.len()
        invariant
            i <= cs@.len(),
            cs@ == t@,
            s@ == old(s)@ + cs@.take(i as int),
        decreases cs@.len() - i,
    {
        string_push(s, cs[i]);
        i = i + 1;
        assert(s@ =~= old(s)@ + cs@.take(i as int));
    }
    assert(cs@.take(cs@.len() as int) =~= cs@);
}

/// Whether `s` begins with `p`.
pub open spec fn starts_with(s: Seq<char>, p: Seq<char>) -> bool {
    p.len() <= s.len() && s.take(p.len() as int) == p
}

/// Whether the characters start with `p`.
pub fn chars_start_with(v: &Vec<char>, p: &str) -> (r: bool)
    ensures
        r == starts_with(v@, p@),
{
    let pc = chars_of(p);
    if pc.len() > v.len() {
        return false;
    }
    let mut i: usize = 0;
    while i < pc.len()
        invariant
            i <= pc@.len() <= v@.len(),
            pc@ == p@,
            v@.take(i as int) == pc@.take(i as int),
        decreases pc@.len() - i,
    {
        if v[i] != pc[i] {
            assert(v@.take(pc@.len() as int)[i as int] != pc@[i as int]);
            return false;
        }
        i = i + 1;
        assert(v@.take(i as int) =~= pc@.take(i as int));
    }
    assert(pc@.take(pc@.len() as int) =~= pc@);
    true
}

/// Whether `p` occurs in `s`.
pub open spec fn contains_seq(s: Seq<char>, p: Seq<char>) -> bool {
    exists|i: int| 0 <= i && i + p.len() <= s.len() && #[trigger] s.subrange(i, i + p.len()) == p
}

/// Whether `p` occurs in the characters.
pub fn chars_contain(v: &Vec<char>, p: &Vec<char>) -> (r: bool)
    ensures
        r == contains_seq(v@, p@),
{
    if p.len() > v.len() {
        proof {
            if contains_seq(v@, p@) {
                let i = choose|i: int| 0 <= i && i + p@.len() <= v@.len() && #[trigger] v@.subrange(i, i + p@.len()) == p@;
            }
        }
        return false;
    }
    let vlen = v.len();
    let last = vlen - p.len();
    let mut i: usize = 0;
    while i <= last
        invariant
            last == v@.len() - p@.len(),
            vlen == v@.len(),
            p@.len() <= v@.len(),
            forall|k: int| 0 <= k < i ==> #[trigger] v@.subrange(k, k + p@.len()) != p@,
        decreases last + 1 - i,
    {
        let mut j: usize = 0;
        let mut same = true;
        assert(v@.subrange(i as int, i as int) =~= p@.take(0));
        while j < p.len()
            invariant
                j <= p@.len(),
                p@.len() <= v@.len(),
                i <= last,
                last == v@.len() - p@.len(),
                vlen == v@.len(),
                same == (v@.subrange(i as int, i + j) == p@.take(j as int)),
            decreases p@.len() - j,
        {
            assert(i + j < v@.len());
            let at: usize = i + j;
            if same && v[at] != p[j] {
                same = false;
                assert(v@.subrange(i as int, i + j + 1)[j as int] != p@.take(j + 1)[j as int]);
            } else if same {
                assert(v@.subrange(i as int, i + j + 1) =~= p@.take(j + 1));
            } else {
                assert(v@.subrange(i as int, i + j + 1).take(j as int) =~= v@.subrange(i as int, i + j));
                assert(p@.take(j + 1).take(j as int) =~= p@.take(j as int));
            }
            j = j + 1;
        }
        assert(p@.take(p@.len() as int) =~= p@);
        if same {
            return true;
        }
        assert(v@.subrange(i as int, i + p@.len()) != p@);
        if i == last {
            proof {
                if contains_seq(v@, p@) {
                    let k = choose|k: int| 0 <= k && k + p@.len() <= v@.len() && #[trigger] v@.subrange(k, k + p@.len()) == p@;
                    assert(k <= last);
                    if k < i {
                    } else {
                        assert(k == i);
                    }
                }
            }
            return false;
        }
        i = i + 1;
    }
    false
}

/// A decimal digit.
pub open spec fn digit_char(d: nat) -> char {
    (('0' as nat) + d) as char
}

/// A number in decimal, without leading zeros.
pub open spec fn decimal_text(n: nat) -> Seq<char>
    decreases n,
{
    if n < 10 {
        seq![digit_char(n)]
    } else {
        decimal_text(n / 10).push(digit_char(n % 10))
    }
}

/// The decimal digit of a value below ten.
pub fn digit(d: u64) -> (c: char)
    requires
        d < 10,
    ensures
        c == digit_char(d as nat),
{
    let b: u8 = d as u8;
    (('0' as u8) + b) as char
}

/// A number in decimal.
pub fn decimal_string(n: u64) -> (s: String)
    ensures
        s@ == decimal_text(n as nat),
    decreases n,
{
    if n < 10 {
        let mut s = String::new();
        string_push(&mut s, digit(n));
        s
    } else {
        let mut s = decimal_string(n / 10);
        string_push(&mut s, digit(n % 10));
        s
    }
}

/// A signed number in decimal: a minus sign before a negative one, and, where `plus` is
/// asked for, a plus sign before any other.
pub open spec fn signed_text(v: int, plus: bool) -> Seq<char> {
    if v < 0 {
        seq!['-'] + decimal_text((-v) as nat)
    } else if plus {
        seq!['+'] + decimal_text(v as nat)
    } else {
        decimal_text(v as nat)
    }
}

/// A signed number in decimal, as `signed_text` says.
pub fn signed_string(v: i32, plus: bool) -> (s: String)
    ensures
        s@ == signed_text(v as int, plus),
{
    let wide = v as i64;
    let mut s = String::new();
    if wide < 0 {
        string_push(&mut s, '-');
        let digits = decimal_string((-wide) as u64);
        push_str(&mut s, digits.as_str());
    } else {
        if plus {
            string_push(&mut s, '+');
        }
        let digits = decimal_string(wide as u64);
        push_str(&mut s, digits.as_str());
    }
    s
}

/// A percentage as a fraction with two decimals, such as `0.80` for 80.
pub open spec fn two_decimals_text(percent: u8) -> Seq<char> {
    seq![digit_char(percent as nat / 100), '.', digit_char((percent as nat / 10) % 10), digit_char(percent as nat % 10)]
}

/// A percentage as a fraction with two decimals.
pub fn two_decimals(percent: u8) -> (s: String)
    ensures
        s@ == two_decimals_text(percent),
{
    let p = percent as u64;
    let mut s = String::new();
    string_push(&mut s, digit(p / 100));
    string_push(&mut s, '.');
    string_push(&mut s, digit((p / 10) % 10));
    string_push(&mut s, digit(p % 10));
    s
}

} // verus!
