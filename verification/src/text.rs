//! Character sequences: decimal numbers, splitting, trimming, replacing.
use vstd::prelude::*;

verus! {

/// Appends one character to a string (`String::push`).
#[verifier::external_body]
pub fn push_char(s: &mut String, c: char)
    ensures
        final(s)@ == old(s)@.push(c),
{
    s.push(c);
}

pub open spec fn is_digit(c: char) -> bool {
    '0' <= c && c <= '9'
}

pub open spec fn digit_value(c: char) -> nat {
    (c as int - '0' as int) as nat
}

pub open spec fn digit_char(d: nat) -> char {
    if d == 0 {
        '0'
    } else if d == 1 {
        '1'
    } else if d == 2 {
        '2'
    } else if d == 3 {
        '3'
    } else if d == 4 {
        '4'
    } else if d == 5 {
        '5'
    } else if d == 6 {
        '6'
    } else if d == 7 {
        '7'
    } else if d == 8 {
        '8'
    } else {
        '9'
    }
}

/// Decimal representation of a natural number, without leading zeros.
pub open spec fn decimal(n: nat) -> Seq<char>
    decreases n,
{
    if n < 10 {
        seq![digit_char(n)]
    } else {
        decimal(n / 10).push(digit_char(n % 10))
    }
}

/// Every character is an ASCII digit.
pub open spec fn all_digits(s: Seq<char>) -> bool {
    forall|i: int| 0 <= i < s.len() ==> is_digit(#[trigger] s[i])
}

/// The value of a string of decimal digits (most significant first).
pub open spec fn digits_value(s: Seq<char>) -> nat
    decreases s.len(),
{
    if s.len() == 0 {
        0
    } else {
        digits_value(s.drop_last()) * 10 + digit_value(s.last())
    }
}

/// What `str::parse` gives for an unsigned integer type whose largest value is `max`:
/// an optional `+`, then at least one ASCII digit and nothing else, no larger than `max`.
pub open spec fn parse_unsigned(s: Seq<char>, max: nat) -> Option<nat> {
    let d = if s.len() > 0 && s[0] == '+' { s.drop_first() } else { s };
    if d.len() > 0 && all_digits(d) && digits_value(d) <= max {
        Some(digits_value(d))
    } else {
        None
    }
}

pub proof fn lemma_decimal_digits(n: nat)
    ensures
        decimal(n).len() > 0,
        all_digits(decimal(n)),
        digits_value(decimal(n)) == n,
        decimal(n)[0] != '+',
    decreases n,
{
    lemma_digit_char(n % 10);
    if n < 10 {
        assert(decimal(n).drop_last() =~= Seq::<char>::empty());
        assert(digits_value(decimal(n).drop_last()) == 0);
    } else {
        lemma_decimal_digits(n / 10);
        let s = decimal(n);
        assert(s.drop_last() =~= decimal(n / 10));
        assert(s.last() == digit_char(n % 10));
        assert(digits_value(s) == digits_value(decimal(n / 10)) * 10 + digit_value(digit_char(n % 10)));
        assert(all_digits(s)) by {
            assert forall|i: int| 0 <= i < s.len() implies is_digit(#[trigger] s[i]) by {
                if i < s.len() - 1 {
                    assert(s[i] == decimal(n / 10)[i]);
                }
            }
        }
    }
}

pub proof fn lemma_digit_char(d: nat)
    requires
        d < 10,
    ensures
        is_digit(digit_char(d)),
        digit_value(digit_char(d)) == d,
        digit_char(d) != '+',
{
}

/// Decimal formatting followed by parsing gives the number back.
pub proof fn lemma_parse_decimal(n: nat, max: nat)
    requires
        n <= max,
    ensures
        parse_unsigned(decimal(n), max) == Some(n),
{
    lemma_decimal_digits(n);
}

/// Formats an unsigned integer in decimal (what `to_string` / `{}` give).
pub fn u64_to_decimal(n: u64) -> (r: String)
    ensures
        r@ == decimal(n as nat),
    decreases n,
{
    let d: u64 = n % 10;
    let c: char = if d == 0 {
        '0'
    } else if d == 1 {
        '1'
    } else if d == 2 {
        '2'
    } else if d == 3 {
        '3'
    } else if d == 4 {
        '4'
    } else if d == 5 {
        '5'
    } else if d == 6 {
        '6'
    } else if d == 7 {
        '7'
    } else if d == 8 {
        '8'
    } else {
        '9'
    };
    if n < 10 {
        let mut r = String::new();
        push_char(&mut r, c);
        r
    } else {
        let mut r = u64_to_decimal(n / 10);
        push_char(&mut r, c);
        r
    }
}

/// Parses an unsigned decimal number no larger than `max` (as `str::parse` does).
pub fn parse_unsigned_chars(s: &Vec<char>, max: u64) -> (r: Option<u64>)
    ensures
        match parse_unsigned(s@, max as nat) {
            Some(v) => r == Some(v as u64),
            None => r is None,
        },
{
    let start: usize = if s.len() > 0 && s[0] == '+' { 1 } else { 0 };
    let ghost d = if s@.len() > 0 && s@[0] == '+' { s@.drop_first() } else { s@ };
    assert(d =~= s@.subrange(start as int, s@.len() as int));
    if start >= s.len() {
        return None;
    }
    let mut value: u64 = 0;
    let mut i: usize = start;
    while i < s.len()
        invariant
            start <= i <= s.len(),
            d =~= s@.subrange(start as int, s@.len() as int),
            d == (if s@.len() > 0 && s@[0] == '+' { s@.drop_first() } else { s@ }),
            all_digits(s@.subrange(start as int, i as int)),
            value as nat == digits_value(s@.subrange(start as int, i as int)),
            value <= max,
        decreases s.len() - i,
    {
        let c = s[i];
        if !('0' <= c && c <= '9') {
            assert(d[i - start] == c);
            assert(!is_digit(d[i - start]));
            assert(!all_digits(d));
            return None;
        }
        let dv: u64 = (c as u32 - '0' as u32) as u64;
        let ghost prefix = s@.subrange(start as int, i + 1);
        assert(prefix.drop_last() =~= s@.subrange(start as int, i as int));
        assert(is_digit(c));
        if (value as u128) * 10 + (dv as u128) > (max as u128) {
            proof {
                if all_digits(d) {
                    lemma_digits_value_prefix_le(d, (i - start + 1) as int);
                    assert(d.subrange(0, i - start + 1) =~= prefix);
                    assert(digits_value(prefix) == value * 10 + dv);
                }
            }
            return None;
        }
        value = value * 10 + dv;
        i = i + 1;
    }
    assert(s@.subrange(start as int, s@.len() as int) =~= d);
    Some(value)
}

/// The value of a digit string is at least the value of any of its prefixes.
pub proof fn lemma_digits_value_prefix_le(s: Seq<char>, k: int)
    requires
        0 <= k <= s.len(),
        all_digits(s),
    ensures
        digits_value(s.subrange(0, k)) <= digits_value(s),
    decreases s.len() - k,
{
    if k == s.len() {
        assert(s.subrange(0, k) =~= s);
    } else {
        lemma_digits_value_prefix_le(s, k + 1);
        let p = s.subrange(0, k + 1);
        assert(p.drop_last() =~= s.subrange(0, k));
    }
}


/// The characters of a string slice, in order.
pub fn to_chars(s: &str) -> (r: Vec<char>)
    ensures
        r@ == s@,
{
    let mut r: Vec<char> = Vec::new();
    for c in it: s.chars()
        invariant
            it.seq() == s@,
            r@ == s@.take(it.index() as int),
    {
        r.push(c);
        assert(r@ =~= s@.take(it.index() + 1));
    }
    assert(s@.take(s@.len() as int) =~= s@);
    r
}

/// A string made of the characters `cs[from..to]`.
pub fn string_of(cs: &Vec<char>, from: usize, to: usize) -> (r: String)
    requires
        from <= to <= cs.len(),
    ensures
        r@ == cs@.subrange(from as int, to as int),
{
    let mut r = String::new();
    let mut i: usize = from;
    while i < to
        invariant
            from <= i <= to <= cs.len(),
            r@ == cs@.subrange(from as int, i as int),
        decreases to - i,
    {
        push_char(&mut r, cs[i]);
        assert(r@ =~= cs@.subrange(from as int, i + 1));
        i = i + 1;
    }
    r
}

/// Equality of two string slices, character by character.
pub fn str_eq(a: &str, b: &str) -> (r: bool)
    ensures
        r == (a@ == b@),
{
    let x = a.to_owned();
    let y = b.to_owned();
    x == y
}

pub open spec fn starts_with(s: Seq<char>, p: Seq<char>) -> bool {
    p.len() <= s.len() && s.subrange(0, p.len() as int) == p
}

pub open spec fn ends_with(s: Seq<char>, p: Seq<char>) -> bool {
    p.len() <= s.len() && s.subrange(s.len() - p.len(), s.len() as int) == p
}

/// `t` occurs in `s`.
pub open spec fn has_text(s: Seq<char>, t: Seq<char>) -> bool {
    exists|i: int| 0 <= i && i + t.len() <= s.len() && #[trigger] s.subrange(i, i + t.len()) == t
}

/// `t` occurs in `a + t + b`.
pub proof fn lemma_has_text_between(a: Seq<char>, t: Seq<char>, b: Seq<char>)
    ensures
        has_text(a + t + b, t),
{
    let s = a + t + b;
    assert(s.subrange(a.len() as int, (a.len() + t.len()) as int) =~= t);
}

/// Whether `s` starts with `p` (`str::starts_with`).
pub fn str_starts_with(s: &str, p: &str) -> (r: bool)
    ensures
        r == starts_with(s@, p@),
{
    let cs = to_chars(s);
    let ps = to_chars(p);
    if ps.len() > cs.len() {
        return false;
    }
    let mut i: usize = 0;
    while i < ps.len()
        invariant
            ps.len() <= cs.len(),
            i <= ps.len(),
            cs@ == s@,
            ps@ == p@,
            forall|j: int| 0 <= j < i ==> cs@[j] == ps@[j],
        decreases ps.len() - i,
    {
        if cs[i] != ps[i] {
            assert(s@.subrange(0, p@.len() as int)[i as int] != p@[i as int]);
            return false;
        }
        i = i + 1;
    }
    assert(s@.subrange(0, p@.len() as int) =~= p@);
    true
}

/// Whether `s` ends with `p` (`str::ends_with`).
pub fn str_ends_with(s: &str, p: &str) -> (r: bool)
    ensures
        r == ends_with(s@, p@),
{
    let cs = to_chars(s);
    let ps = to_chars(p);
    if ps.len() > cs.len() {
        return false;
    }
    let off: usize = cs.len() - ps.len();
    let mut i: usize = 0;
    while i < ps.len()
        invariant
            ps.len() <= cs.len(),
            off == cs.len() - ps.len(),
            i <= ps.len(),
            cs@ == s@,
            ps@ == p@,
            forall|j: int| 0 <= j < i ==> cs@[off + j] == ps@[j],
        decreases ps.len() - i,
    {
        if cs[off + i] != ps[i] {
            assert(s@.subrange(off as int, s@.len() as int)[i as int] != p@[i as int]);
            return false;
        }
        i = i + 1;
    }
    assert(s@.subrange(off as int, s@.len() as int) =~= p@);
    true
}

/// The pieces of `s` between occurrences of `sep` (`str::split` on a character):
/// always at least one piece; `k` separators give `k + 1` pieces.
pub open spec fn split_on(s: Seq<char>, sep: char) -> Seq<Seq<char>>
    decreases s.len(),
{
    if s.len() == 0 {
        seq![Seq::<char>::empty()]
    } else {
        let r = split_on(s.drop_last(), sep);
        if s.last() == sep {
            r.push(Seq::<char>::empty())
        } else {
            r.update(r.len() - 1, r.last().push(s.last()))
        }
    }
}

pub proof fn lemma_split_on_nonempty(s: Seq<char>, sep: char)
    ensures
        split_on(s, sep).len() >= 1,
    decreases s.len(),
{
    if s.len() > 0 {
        lemma_split_on_nonempty(s.drop_last(), sep);
    }
}

/// A piece without the separator is its own split.
pub proof fn lemma_split_on_no_sep(s: Seq<char>, sep: char)
    requires
        !s.contains(sep),
    ensures
        split_on(s, sep) == seq![s],
    decreases s.len(),
{
    if s.len() > 0 {
        assert(!s.drop_last().contains(sep)) by {
            if s.drop_last().contains(sep) {
                let k = choose|k: int| 0 <= k < s.drop_last().len() && s.drop_last()[k] == sep;
                assert(s[k] == sep);
            }
        }
        lemma_split_on_no_sep(s.drop_last(), sep);
        assert(s.last() != sep) by {
            assert(s[s.len() - 1] == s.last());
        }
        assert(s.drop_last().push(s.last()) =~= s);
        assert(split_on(s, sep) =~= seq![s]);
    } else {
        assert(s =~= Seq::<char>::empty());
        assert(split_on(s, sep) =~= seq![s]);
    }
}

/// Splitting at a separator splits the two sides independently.
pub proof fn lemma_split_on_concat(x: Seq<char>, y: Seq<char>, sep: char)
    ensures
        split_on(x + seq![sep] + y, sep) == split_on(x, sep) + split_on(y, sep),
    decreases y.len(),
{
    if y.len() == 0 {
        assert(x + seq![sep] + y =~= x.push(sep));
        assert((x + seq![sep] + y).drop_last() =~= x);
        assert(split_on(y, sep) =~= seq![Seq::<char>::empty()]);
        assert(split_on(x, sep).push(Seq::<char>::empty()) =~= split_on(x, sep) + split_on(y, sep));
    } else {
        let z = x + seq![sep] + y;
        lemma_split_on_concat(x, y.drop_last(), sep);
        lemma_split_on_nonempty(y.drop_last(), sep);
        lemma_split_on_nonempty(x, sep);
        assert(z.drop_last() =~= x + seq![sep] + y.drop_last());
        assert(z.last() == y.last());
        let a = split_on(x, sep);
        let b = split_on(y.drop_last(), sep);
        if y.last() == sep {
            assert((a + b).push(Seq::<char>::empty()) =~= a + b.push(Seq::<char>::empty()));
        } else {
            assert((a + b).update((a + b).len() - 1, (a + b).last().push(y.last())) =~= a + b.update(
                b.len() - 1,
                b.last().push(y.last()),
            ));
        }
    }
}

/// Removes one `\r` right before a line end.
pub open spec fn strip_cr(s: Seq<char>) -> Seq<char> {
    if s.len() > 0 && s.last() == '\r' {
        s.drop_last()
    } else {
        s
    }
}

/// The lines of a text (`str::lines`): pieces between `\n`, with a `\r` right before a
/// `\n` removed, and no empty last line after a final `\n`.
pub open spec fn lines_of(s: Seq<char>) -> Seq<Seq<char>> {
    let parts = split_on(s, '\n');
    let ended = parts.drop_last().map_values(|p: Seq<char>| strip_cr(p));
    if parts.last().len() == 0 {
        ended
    } else {
        ended.push(parts.last())
    }
}


/// The views of a list of strings.
pub open spec fn views(v: Seq<String>) -> Seq<Seq<char>> {
    v.map_values(|x: String| x@)
}

/// Splits a string at every occurrence of `sep` (`str::split` with a character).
pub fn split_str(s: &str, sep: char) -> (r: Vec<String>)
    ensures
        views(r@) == split_on(s@, sep),
{
    let cs = to_chars(s);
    let mut parts: Vec<String> = Vec::new();
    let mut cur = String::new();
    let mut i: usize = 0;
    assert(s@.take(0) =~= Seq::<char>::empty());
    assert(views(parts@).push(cur@) =~= split_on(s@.take(0), sep));
    while i < cs.len()
        invariant
            i <= cs.len(),
            cs@ == s@,
            views(parts@).push(cur@) == split_on(s@.take(i as int), sep),
        decreases cs.len() - i,
    {
        let c = cs[i];
        let ghost before = views(parts@).push(cur@);
        assert(s@.take(i + 1).drop_last() =~= s@.take(i as int));
        assert(s@.take(i + 1).last() == c);
        if c == sep {
            let done = cur;
            parts.push(done);
            cur = String::new();
            assert(views(parts@).push(cur@) =~= before.push(Seq::<char>::empty()));
        } else {
            push_char(&mut cur, c);
            assert(views(parts@).push(cur@) =~= before.update(
                before.len() - 1,
                before.last().push(c),
            ));
        }
        i = i + 1;
    }
    parts.push(cur);
    assert(s@.take(cs.len() as int) =~= s@);
    assert(views(parts@) =~= split_on(s@, sep));
    parts
}

/// The lines of a text (`str::lines`).
pub fn lines_str(s: &str) -> (r: Vec<String>)
    ensures
        views(r@) == lines_of(s@),
{
    let parts = split_str(s, '\n');
    proof {
        lemma_split_on_nonempty(s@, '\n');
    }
    let n = parts.len();
    let ghost pv = views(parts@);
    let ghost ended = pv.drop_last().map_values(|p: Seq<char>| strip_cr(p));
    let mut r: Vec<String> = Vec::new();
    let mut i: usize = 0;
    while i + 1 < n
        invariant
            n == parts.len(),
            n >= 1,
            i + 1 <= n,
            pv == views(parts@),
            ended == pv.drop_last().map_values(|p: Seq<char>| strip_cr(p)),
            views(r@) == ended.take(i as int),
        decreases n - i,
    {
        let cs = to_chars(parts[i].as_str());
        let len = cs.len();
        let line = if len > 0 && cs[len - 1] == '\r' {
            string_of(&cs, 0, len - 1)
        } else {
            string_of(&cs, 0, len)
        };
        proof {
            assert(pv[i as int] == parts@[i as int]@);
            if len > 0 && cs@[len - 1] == '\r' {
                assert(cs@.subrange(0, len - 1) =~= cs@.drop_last());
            } else {
                assert(cs@.subrange(0, len as int) =~= cs@);
            }
            assert(line@ == strip_cr(pv[i as int]));
        }
        assert(pv.drop_last()[i as int] == pv[i as int]);
        assert(ended[i as int] == strip_cr(pv[i as int]));
        let ghost old_r = r@;
        r.push(line);
        assert(views(r@) =~= views(old_r).push(strip_cr(pv[i as int])));
        assert(views(r@) =~= ended.take(i + 1));
        i = i + 1;
    }
    assert(ended.take(i as int) =~= ended);
    let last_cs = to_chars(parts[n - 1].as_str());
    assert(pv.last() == parts@[n - 1]@);
    if last_cs.len() > 0 {
        let last = string_of(&last_cs, 0, last_cs.len());
        assert(last_cs@.subrange(0, last_cs@.len() as int) =~= last_cs@);
        let ghost old_r = r@;
        r.push(last);
        assert(views(r@) =~= views(old_r).push(pv.last()));
        assert(views(r@) =~= ended.push(pv.last()));
    }
    r
}


pub open spec fn is_ascii_alphanumeric(c: char) -> bool {
    ('a' <= c && c <= 'z') || ('A' <= c && c <= 'Z') || ('0' <= c && c <= '9')
}

pub open spec fn is_ascii_whitespace_char(c: char) -> bool {
    c == ' ' || c == '\t' || c == '\n' || c == '\r' || c == '\x0b' || c == '\x0c'
}

/// Whether `char::is_alphanumeric` holds of a character beyond ASCII: the Unicode
/// Alphabetic or Numeric property.
pub uninterp spec fn unicode_alphanumeric(c: char) -> bool;

/// Whether `char::is_whitespace` holds of a character beyond ASCII: the Unicode
/// White_Space property.
pub uninterp spec fn unicode_white_space(c: char) -> bool;

/// `char::is_alphanumeric`: within ASCII, `a-z`, `A-Z`, `0-9`; beyond, the Unicode
/// Alphabetic or Numeric property.
pub open spec fn alphanumeric(c: char) -> bool {
    if (c as u32) < 128 {
        is_ascii_alphanumeric(c)
    } else {
        unicode_alphanumeric(c)
    }
}

/// `char::is_whitespace`: within ASCII, space, tab, line feed, vertical tab, form feed
/// and carriage return; beyond, the Unicode White_Space property.
pub open spec fn white_space(c: char) -> bool {
    if (c as u32) < 128 {
        is_ascii_whitespace_char(c)
    } else {
        unicode_white_space(c)
    }
}

/// `char::is_alphanumeric`. Within ASCII the result is stated; beyond ASCII it is the
/// Unicode property, named `unicode_alphanumeric`.
#[verifier::external_body]
pub fn is_alphanumeric(c: char) -> (r: bool)
    ensures
        r == (if (c as u32) < 128 {
            is_ascii_alphanumeric(c)
        } else {
            unicode_alphanumeric(c)
        }),
{
    c.is_alphanumeric()
}

/// `char::is_whitespace`. Within ASCII the result is stated; beyond ASCII it is the
/// Unicode property, named `unicode_white_space`.
#[verifier::external_body]
pub fn is_whitespace(c: char) -> (r: bool)
    ensures
        r == (if (c as u32) < 128 {
            is_ascii_whitespace_char(c)
        } else {
            unicode_white_space(c)
        }),
{
    c.is_whitespace()
}

/// `s` without its leading white space.
pub open spec fn trim_start(s: Seq<char>) -> Seq<char>
    decreases s.len(),
{
    if s.len() > 0 && white_space(s[0]) {
        trim_start(s.drop_first())
    } else {
        s
    }
}

/// `s` without its trailing white space.
pub open spec fn trim_end(s: Seq<char>) -> Seq<char>
    decreases s.len(),
{
    if s.len() > 0 && white_space(s.last()) {
        trim_end(s.drop_last())
    } else {
        s
    }
}

/// `s` without leading and trailing white space (`str::trim`).
pub open spec fn trim(s: Seq<char>) -> Seq<char> {
    trim_end(trim_start(s))
}

/// Removes leading and trailing white space (`str::trim`).
pub fn trim_str(s: &str) -> (r: String)
    ensures
        r@ == trim(s@),
{
    let cs = to_chars(s);
    let mut i: usize = 0;
    assert(s@.subrange(0, s@.len() as int) =~= s@);
    while i < cs.len() && is_whitespace(cs[i])
        invariant
            i <= cs.len(),
            cs@ == s@,
            trim_start(s@) == trim_start(s@.subrange(i as int, s@.len() as int)),
        decreases cs.len() - i,
    {
        assert(s@.subrange(i as int, s@.len() as int).drop_first() =~= s@.subrange(
            i + 1,
            s@.len() as int,
        ));
        i = i + 1;
    }
    let ghost st = s@.subrange(i as int, s@.len() as int);
    assert(trim_start(st) == st);
    let mut j: usize = cs.len();
    assert(st =~= s@.subrange(i as int, j as int));
    while j > i && is_whitespace(cs[j - 1])
        invariant
            i <= j <= cs.len(),
            cs@ == s@,
            trim_end(st) == trim_end(s@.subrange(i as int, j as int)),
        decreases j,
    {
        assert(s@.subrange(i as int, j as int).drop_last() =~= s@.subrange(i as int, j - 1));
        assert(s@.subrange(i as int, j as int).last() == cs@[j - 1]);
        j = j - 1;
    }
    assert(trim_end(s@.subrange(i as int, j as int)) == s@.subrange(i as int, j as int));
    string_of(&cs, i, j)
}

/// `s` with every occurrence of `p` replaced by `t`, left to right, the occurrences not
/// overlapping (`str::replace` with a non-empty pattern).
pub open spec fn replace_all(s: Seq<char>, p: Seq<char>, t: Seq<char>) -> Seq<char>
    recommends
        p.len() > 0,
    decreases s.len(),
{
    if s.len() < p.len() || s.len() == 0 {
        s
    } else if p.len() > 0 && s.subrange(0, p.len() as int) == p {
        t + replace_all(s.subrange(p.len() as int, s.len() as int), p, t)
    } else {
        seq![s[0]] + replace_all(s.drop_first(), p, t)
    }
}

/// Replaces every occurrence of the non-empty pattern `p` by `t` (`str::replace`).
pub fn replace_str(s: &str, p: &str, t: &str) -> (r: String)
    requires
        p@.len() > 0,
    ensures
        r@ == replace_all(s@, p@, t@),
{
    let cs = to_chars(s);
    let ps = to_chars(p);
    let mut r = String::new();
    let mut i: usize = 0;
    assert(s@.subrange(0, s@.len() as int) =~= s@);
    while i < cs.len()
        invariant
            i <= cs.len(),
            cs@ == s@,
            ps@ == p@,
            ps.len() > 0,
            r@ + replace_all(s@.subrange(i as int, s@.len() as int), p@, t@) == replace_all(
                s@,
                p@,
                t@,
            ),
        decreases cs.len() - i,
    {
        let ghost rest = s@.subrange(i as int, s@.len() as int);
        let mut matches = ps.len() <= cs.len() - i;
        let mut k: usize = 0;
        while matches && k < ps.len()
            invariant
                i <= cs.len(),
                cs@ == s@,
                ps@ == p@,
                k <= ps.len(),
                rest == s@.subrange(i as int, s@.len() as int),
                matches ==> i + ps.len() <= cs.len(),
                matches ==> forall|j: int| 0 <= j < k ==> cs@[i + j] == ps@[j],
                !matches ==> !(rest.len() >= p@.len() && rest.subrange(0, p@.len() as int) == p@),
            decreases ps.len() - k + (if matches { 1int } else { 0int }),
        {
            if cs[i + k] != ps[k] {
                assert(rest.subrange(0, p@.len() as int)[k as int] != p@[k as int]);
                matches = false;
            } else {
                k = k + 1;
            }
        }
        if matches {
            assert(rest.subrange(0, p@.len() as int) =~= p@);
            assert(rest.subrange(p@.len() as int, rest.len() as int) =~= s@.subrange(
                i + ps.len(),
                s@.len() as int,
            ));
            r.append(t);
            i = i + ps.len();
        } else {
            assert(rest.drop_first() =~= s@.subrange(i + 1, s@.len() as int));
            push_char(&mut r, cs[i]);
            i = i + 1;
        }
    }
    assert(s@.subrange(i as int, s@.len() as int) =~= Seq::<char>::empty());
    assert(r@ + Seq::<char>::empty() =~= r@);
    r
}

} // verus!
