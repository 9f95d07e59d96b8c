//! Text building blocks: characters of a string, decimal and grouped numbers.

use vstd::prelude::*;

verus! {

/// Appends one character to a string (`String::push`).
#[verifier::external_body]
pub(crate) fn push_char(s: &mut String, c: char)
    ensures
        final(s)@ == old(s)@.push(c),
{
    s.push(c);
}

/// The characters of `s`, in order.
pub fn chars_of(s: &str) -> (res: Vec<char>)
    ensures
        res@ == s@,
{
    let mut res: Vec<char> = Vec::new();
    for c in it: s.chars()
        invariant
            res@ == it.seq().take(it.index() as int),
            it.seq() == s@,
    {
        res.push(c);
    }
    res
}

/// The string made of the characters in `v`.
pub fn string_of(v: &[char]) -> (res: String)
    ensures
        res@ == v@,
{
    let mut res = String::new();
    let mut i: usize = 0;
    while i < v.len()
        invariant
            i <= v.len(),
            res@ == v@.take(i as int),
        decreases v.len() - i,
    {
        push_char(&mut res, v[i]);
        i = i + 1;
    }
    res
}

/// The ASCII digit for `d` (`0 <= d < 10`).
pub open spec fn digit_char(d: nat) -> char {
    (48 + d) as char
}

/// The decimal digits of `n`, most significant first, without leading zeros.
pub open spec fn decimal(n: nat) -> Seq<char>
    decreases n,
{
    if n < 10 {
        seq![digit_char(n)]
    } else {
        decimal(n / 10).push(digit_char(n % 10))
    }
}

/// The decimal text of a signed integer, with a leading `-` when negative.
pub open spec fn signed_decimal(n: int) -> Seq<char> {
    if n < 0 {
        seq!['-'] + decimal((-n) as nat)
    } else {
        decimal(n as nat)
    }
}

fn digit(d: u64) -> (c: char)
    requires
        d < 10,
    ensures
        c == digit_char(d as nat),
{
    ((48 + d) as u8) as char
}

/// Decimal text of an unsigned integer (as `u64::to_string` gives it).
pub fn u64_decimal(n: u64) -> (res: String)
    ensures
        res@ == decimal(n as nat),
    decreases n,
{
    if n < 10 {
        let mut s = String::new();
        push_char(&mut s, digit(n));
        s
    } else {
        let mut s = u64_decimal(n / 10);
        push_char(&mut s, digit(n % 10));
        s
    }
}


/// Whether two texts are the same.
pub fn same_text(a: &str, b: &str) -> (res: bool)
    ensures
        res == (a@ == b@),
{
    let x = chars_of(a);
    let y = chars_of(b);
    if x.len() != y.len() {
        return false;
    }
    let mut i: usize = 0;
    while i < x.len()
        invariant
            x@ == a@,
            y@ == b@,
            x.len() == y.len(),
            i <= x.len(),
            forall|j: int| 0 <= j < i ==> x@[j] == y@[j],
        decreases x.len() - i,
    {
        if x[i] != y[i] {
            return false;
        }
        i = i + 1;
    }
    assert(x@ =~= y@);
    true
}

/// Decimal text of a signed integer (as `i64::to_string` gives it).
pub fn i64_decimal(n: i64) -> (res: String)
    ensures
        res@ == signed_decimal(n as int),
{
    if n < 0 {
        let m: u64 = ((-(n + 1)) as u64) + 1;
        let mut s = String::new();
        push_char(&mut s, '-');
        let digits = u64_decimal(m);
        s.append(digits.as_str());
        s
    } else {
        u64_decimal(n as u64)
    }
}

/// How many times `c` occurs in `s`.
pub open spec fn count_char(s: Seq<char>, c: char) -> nat
    decreases s.len(),
{
    if s.len() == 0 {
        0
    } else {
        count_char(s.drop_last(), c) + if s.last() == c { 1nat } else { 0nat }
    }
}

/// Counts the occurrences of `c` in `s`.
pub fn count_occurrences(s: &str, c: char) -> (n: usize)
    ensures
        n == count_char(s@, c),
{
    let v = chars_of(s);
    let mut n: usize = 0;
    let mut i: usize = 0;
    while i < v.len()
        invariant
            i <= v.len(),
            n == count_char(v@.take(i as int), c),
            n <= i,
        decreases v.len() - i,
    {
        assert(v@.take(i + 1).drop_last() =~= v@.take(i as int));
        if v[i] == c {
            n = n + 1;
        }
        i = i + 1;
    }
    assert(v@.take(v.len() as int) =~= v@);
    n
}

/// The pieces of `s` between occurrences of `sep` (as `str::split` with a
/// character pattern gives them; there is always at least one piece).
pub open spec fn split_on(s: Seq<char>, sep: char) -> Seq<Seq<char>>
    decreases s.len(),
{
    if s.len() == 0 {
        seq![Seq::<char>::empty()]
    } else {
        let init = split_on(s.drop_last(), sep);
        if s.last() == sep {
            init.push(Seq::<char>::empty())
        } else {
            init.update(init.len() - 1, init.last().push(s.last()))
        }
    }
}

proof fn lemma_split_on_nonempty(s: Seq<char>, sep: char)
    ensures
        split_on(s, sep).len() >= 1,
    decreases s.len(),
{
    if s.len() > 0 {
        lemma_split_on_nonempty(s.drop_last(), sep);
    }
}

/// Splits `s` at every `sep`.
pub fn split_chars(s: &str, sep: char) -> (res: Vec<String>)
    ensures
        res@.map_values(|p: String| p@) == split_on(s@, sep),
        res@.len() >= 1,
{
    let v = chars_of(s);
    let mut pieces: Vec<String> = Vec::new();
    let mut cur = String::new();
    let mut i: usize = 0;
    proof {
        assert(v@.take(0) =~= Seq::<char>::empty());
        assert(pieces@.map_values(|p: String| p@).push(cur@) =~= split_on(v@.take(0), sep));
    }
    while i < v.len()
        invariant
            i <= v.len(),
            v@ == s@,
            pieces@.map_values(|p: String| p@).push(cur@) == split_on(v@.take(i as int), sep),
        decreases v.len() - i,
    {
        let ghost before = pieces@.map_values(|p: String| p@).push(cur@);
        proof {
            assert(v@.take(i + 1).drop_last() =~= v@.take(i as int));
            assert(v@.take(i + 1).last() == v@[i as int]);
        }
        if v[i] == sep {
            let done = cur;
            pieces.push(done);
            cur = String::new();
            assert(pieces@.map_values(|p: String| p@).push(cur@) =~= before.push(Seq::<char>::empty()));
        } else {
            push_char(&mut cur, v[i]);
            assert(pieces@.map_values(|p: String| p@).push(cur@) =~= before.update(
                before.len() - 1,
                before.last().push(v@[i as int]),
            ));
        }
        i = i + 1;
    }
    pieces.push(cur);
    assert(v@.take(v.len() as int) =~= v@);
    pieces
}

/// Whether `c` is an ASCII digit.
pub open spec fn is_digit(c: char) -> bool {
    '0' <= c <= '9'
}

/// The value of a nonempty run of ASCII digits.
pub open spec fn digits_value(s: Seq<char>) -> int
    decreases s.len(),
{
    if s.len() == 0 {
        0
    } else {
        digits_value(s.drop_last()) * 10 + (s.last() as int - 48)
    }
}

/// The sign and digit part of a number's text: a leading `+`, or `-` where
/// `signed`, is taken off.
pub open spec fn sign_and_body(s: Seq<char>, signed: bool) -> (bool, Seq<char>) {
    if s.len() > 0 && s[0] == '+' {
        (false, s.drop_first())
    } else if signed && s.len() > 0 && s[0] == '-' {
        (true, s.drop_first())
    } else {
        (false, s)
    }
}

/// Whether every character of `s` is an ASCII digit.
pub open spec fn all_digits(s: Seq<char>) -> bool {
    forall|i: int| 0 <= i < s.len() ==> is_digit(#[trigger] s[i])
}

/// The number `s` spells in decimal, as the standard integer parsers read it:
/// an optional sign (`+`, or `-` where `signed`), then one or more ASCII digits.
pub open spec fn parse_int(s: Seq<char>, signed: bool) -> Option<int> {
    let body = sign_and_body(s, signed).1;
    if body.len() > 0 && all_digits(body) {
        Some(if sign_and_body(s, signed).0 { -digits_value(body) } else { digits_value(body) })
    } else {
        None
    }
}

proof fn lemma_digits_value_nonneg(s: Seq<char>)
    requires
        forall|i: int| 0 <= i < s.len() ==> is_digit(#[trigger] s[i]),
    ensures
        digits_value(s) >= 0,
    decreases s.len(),
{
    if s.len() > 0 {
        lemma_digits_value_nonneg(s.drop_last());
    }
}

/// Reads a decimal integer in `[lo, hi]`; `None` when the text is no number or
/// the number falls outside the range (as `str::parse` for a fixed-width integer).
fn parse_in_range(s: &str, signed: bool, lo: i128, hi: i128) -> (res: Option<i128>)
    requires
        -0x8000_0000_0000_0000 <= lo <= 0,
        0 <= hi <= 0xffff_ffff_ffff_ffff,
    ensures
        match res {
            Some(v) => parse_int(s@, signed) == Some(v as int) && lo <= v <= hi,
            None => match parse_int(s@, signed) {
                Some(v) => v < lo || v > hi,
                None => true,
            },
        },
{
    let v = chars_of(s);
    let mut start: usize = 0;
    let mut neg = false;
    if v.len() > 0 && v[0] == '+' {
        start = 1;
    } else if signed && v.len() > 0 && v[0] == '-' {
        start = 1;
        neg = true;
    }
    let ghost body = v@.skip(start as int);
    proof {
        assert(sign_and_body(s@, signed) == (neg, body)) by {
            if start == 1 {
                assert(body =~= v@.drop_first());
            } else {
                assert(body =~= v@);
            }
        }
        if start == 1 {
            assert(body =~= v@.drop_first());
        } else {
            assert(body =~= v@);
        }
    }
    if start >= v.len() {
        return None;
    }
    // magnitude limit: values beyond it are out of range whatever follows
    let limit: i128 = if neg { -lo } else { hi };
    let mut acc: i128 = 0;
    let mut i: usize = start;
    let mut too_big = false;
    proof {
        assert(body.take(0) =~= Seq::<char>::empty());
    }
    while i < v.len()
        invariant
            start <= i <= v.len(),
            start < v.len(),
            body == v@.skip(start as int),
            v@ == s@,
            sign_and_body(s@, signed) == (neg, body),
            0 <= limit <= 0xffff_ffff_ffff_ffff,
            forall|j: int| 0 <= j < i - start ==> is_digit(#[trigger] body[j]),
            !too_big ==> acc == digits_value(body.take(i - start)) && 0 <= acc <= limit,
            too_big ==> digits_value(body.take(i - start)) > limit,
        decreases v.len() - i,
    {
        let c = v[i];
        if c < '0' || c > '9' {
            proof {
                assert(body.len() == v@.len() - start);
                assert(body[i - start] == v@[i as int]);
                assert(!is_digit(body[i - start]));
                assert(!all_digits(body));
            }
            return None;
        }
        proof {
            let t = body.take(i - start + 1);
            assert(t.drop_last() =~= body.take(i - start));
            assert(t.last() == c);
            lemma_digits_value_nonneg(body.take(i - start));
        }
        let d = (c as u32 - 48) as i128;
        if !too_big {
            if d > limit || acc > (limit - d) / 10 {
                too_big = true;
                if d <= limit {
                    assert(acc * 10 + d > limit) by (nonlinear_arith)
                        requires
                            acc > (limit - d) / 10,
                            0 <= d <= 9,
                            limit >= d,
                    ;
                }
            } else {
                assert(acc * 10 + d <= limit) by (nonlinear_arith)
                    requires
                        acc <= (limit - d) / 10,
                        0 <= d <= 9,
                        limit >= d,
                        acc >= 0,
                ;
                acc = acc * 10 + d;
            }
        } else {
            assert(digits_value(body.take(i - start)) * 10 + d > limit) by (nonlinear_arith)
                requires
                    digits_value(body.take(i - start)) > limit,
                    limit >= 0,
                    0 <= d,
            ;
        }
        i = i + 1;
    }
    proof {
        assert(body.take(v.len() - start) =~= body);
    }
    if too_big {
        return None;
    }
    if neg {
        Some(-acc)
    } else {
        Some(acc)
    }
}

/// Unsigned numbers are never negative.
pub proof fn lemma_parse_unsigned_nonneg(s: Seq<char>)
    ensures
        parse_int(s, false) matches Some(v) ==> v >= 0,
{
    let body = sign_and_body(s, false).1;
    if body.len() > 0 && all_digits(body) {
        lemma_digits_value_nonneg(body);
    }
}

/// Reads an `i32` (as `str::parse::<i32>` does).
pub fn parse_i32(s: &str) -> (res: Option<i32>)
    ensures
        match parse_int(s@, true) {
            Some(v) => if i32::MIN <= v <= i32::MAX { res == Some(v as i32) } else { res is None },
            None => res is None,
        },
{
    match parse_in_range(s, true, i32::MIN as i128, i32::MAX as i128) {
        Some(v) => Some(v as i32),
        None => None,
    }
}

/// Reads an `i64` (as `str::parse::<i64>` does).
pub fn parse_i64(s: &str) -> (res: Option<i64>)
    ensures
        match parse_int(s@, true) {
            Some(v) => if i64::MIN <= v <= i64::MAX { res == Some(v as i64) } else { res is None },
            None => res is None,
        },
{
    match parse_in_range(s, true, i64::MIN as i128, i64::MAX as i128) {
        Some(v) => Some(v as i64),
        None => None,
    }
}

/// Reads a `u64` (as `str::parse::<u64>` does).
pub fn parse_u64(s: &str) -> (res: Option<u64>)
    ensures
        match parse_int(s@, false) {
            Some(v) => if v <= u64::MAX { res == Some(v as u64) } else { res is None },
            None => res is None,
        },
{
    proof {
        lemma_parse_unsigned_nonneg(s@);
    }
    match parse_in_range(s, false, 0, u64::MAX as i128) {
        Some(v) => Some(v as u64),
        None => None,
    }
}

/// The string made of the characters of `v` from `lo` up to `hi`.
pub fn string_of_range(v: &Vec<char>, lo: usize, hi: usize) -> (res: String)
    requires
        lo <= hi <= v.len(),
    ensures
        res@ == v@.subrange(lo as int, hi as int),
{
    let mut res = String::new();
    let mut i: usize = lo;
    while i < hi
        invariant
            lo <= i <= hi <= v.len(),
            res@ == v@.subrange(lo as int, i as int),
        decreases hi - i,
    {
        push_char(&mut res, v[i]);
        assert(v@.subrange(lo as int, i + 1) =~= v@.subrange(lo as int, i as int).push(v@[i as int]));
        i = i + 1;
    }
    res
}

/// Whether `c` has the Unicode `White_Space` property (as `char::is_whitespace`).
pub open spec fn is_white_space(c: char) -> bool {
    ||| '\u{9}' <= c <= '\u{d}'
    ||| c == ' '
    ||| c == '\u{85}'
    ||| c == '\u{a0}'
    ||| c == '\u{1680}'
    ||| '\u{2000}' <= c <= '\u{200a}'
    ||| c == '\u{2028}'
    ||| c == '\u{2029}'
    ||| c == '\u{202f}'
    ||| c == '\u{205f}'
    ||| c == '\u{3000}'
}

/// Whether `c` is white space.
pub fn white_space(c: char) -> (res: bool)
    ensures
        res == is_white_space(c),
{
    ('\u{9}' <= c && c <= '\u{d}') || c == ' ' || c == '\u{85}' || c == '\u{a0}' || c == '\u{1680}'
        || ('\u{2000}' <= c && c <= '\u{200a}') || c == '\u{2028}' || c == '\u{2029}'
        || c == '\u{202f}' || c == '\u{205f}' || c == '\u{3000}'
}

/// `s` without its leading white space.
pub open spec fn trim_start(s: Seq<char>) -> Seq<char>
    decreases s.len(),
{
    if s.len() > 0 && is_white_space(s[0]) {
        trim_start(s.drop_first())
    } else {
        s
    }
}

/// `s` without its trailing white space.
pub open spec fn trim_end(s: Seq<char>) -> Seq<char>
    decreases s.len(),
{
    if s.len() > 0 && is_white_space(s.last()) {
        trim_end(s.drop_last())
    } else {
        s
    }
}

/// `s` without leading and trailing white space (as `str::trim`).
pub open spec fn trimmed(s: Seq<char>) -> Seq<char> {
    trim_end(trim_start(s))
}

proof fn lemma_trim_start_skip(s: Seq<char>, i: int)
    requires
        0 <= i <= s.len(),
        forall|j: int| 0 <= j < i ==> is_white_space(#[trigger] s[j]),
    ensures
        trim_start(s) == trim_start(s.skip(i)),
    decreases i,
{
    if i > 0 {
        assert(s.skip(1) =~= s.drop_first());
        lemma_trim_start_skip(s.drop_first(), i - 1);
        assert(s.drop_first().skip(i - 1) =~= s.skip(i));
    } else {
        assert(s.skip(0) =~= s);
    }
}

proof fn lemma_trim_end_take(s: Seq<char>, i: int)
    requires
        0 <= i <= s.len(),
        forall|j: int| i <= j < s.len() ==> is_white_space(#[trigger] s[j]),
    ensures
        trim_end(s) == trim_end(s.take(i)),
    decreases s.len() - i,
{
    if i < s.len() {
        assert(s.take(s.len() - 1) =~= s.drop_last());
        lemma_trim_end_take(s.drop_last(), i);
        assert(s.drop_last().take(i) =~= s.take(i));
    } else {
        assert(s.take(i) =~= s);
    }
}

/// Trims white space from both ends (as `str::trim`).
pub fn trim(s: &str) -> (res: String)
    ensures
        res@ == trimmed(s@),
{
    let v = chars_of(s);
    let mut lo: usize = 0;
    while lo < v.len() && white_space(v[lo])
        invariant
            lo <= v.len(),
            v@ == s@,
            forall|j: int| 0 <= j < lo ==> is_white_space(#[trigger] v@[j]),
        decreases v.len() - lo,
    {
        lo = lo + 1;
    }
    let mut hi: usize = v.len();
    while hi > lo && white_space(v[hi - 1])
        invariant
            lo <= hi <= v.len(),
            v@ == s@,
            forall|j: int| hi <= j < v.len() ==> is_white_space(#[trigger] v@[j]),
        decreases hi - lo,
    {
        hi = hi - 1;
    }
    proof {
        lemma_trim_start_skip(v@, lo as int);
        let t = v@.skip(lo as int);
        assert(lo == v.len() || !is_white_space(t[0]));
        assert(trim_start(t) == t);
        lemma_trim_end_take(t, hi - lo);
        assert(t.take(hi - lo) =~= v@.subrange(lo as int, hi as int));
        let u = t.take(hi - lo);
        assert(hi == lo || !is_white_space(u.last()));
        assert(trim_end(u) == u);
    }
    string_of_range(&v, lo, hi)
}

/// The three decimal digits of `n` (`0 <= n < 1000`), with leading zeros.
pub open spec fn three_digits(n: nat) -> Seq<char> {
    seq![digit_char(n / 100), digit_char((n / 10) % 10), digit_char(n % 10)]
}

/// The decimal digits of `n` in groups of three, the groups parted by commas
/// (as numbers are written in English).
pub open spec fn grouped_decimal(n: nat) -> Seq<char>
    decreases n,
{
    if n < 1000 {
        decimal(n)
    } else {
        grouped_decimal(n / 1000) + seq![','] + three_digits(n % 1000)
    }
}

/// Writes `n` in English digit grouping, with `num_format`'s
/// `ToFormattedString::to_formatted_string` and `Locale::en` (separator ",",
/// groups of three digits): claimed to be `grouped_decimal(n)`.
#[verifier::external_body]
pub(crate) fn english_grouped(n: u64) -> (res: String)
    ensures
        res@ == grouped_decimal(n as nat),
{
    num_format::ToFormattedString::to_formatted_string(&n, &num_format::Locale::en)
}

/// How many bytes UTF-8 gives a character.
pub open spec fn utf8_width(c: char) -> nat {
    if (c as u32) < 0x80 {
        1
    } else if (c as u32) < 0x800 {
        2
    } else if (c as u32) < 0x10000 {
        3
    } else {
        4
    }
}

/// How many leading characters of `s` fit in `n` bytes.
pub open spec fn fit_count(s: Seq<char>, n: int) -> nat
    decreases s.len(),
{
    if s.len() == 0 || utf8_width(s[0]) > n {
        0
    } else {
        1 + fit_count(s.drop_first(), n - utf8_width(s[0]))
    }
}

/// How many bytes the leading characters of `s` that fit in `n` bytes take.
pub open spec fn fit_bytes(s: Seq<char>, n: int) -> nat
    decreases s.len(),
{
    if s.len() == 0 || utf8_width(s[0]) > n {
        0
    } else {
        utf8_width(s[0]) + fit_bytes(s.drop_first(), n - utf8_width(s[0]))
    }
}

/// How many bytes UTF-8 gives `c`.
pub fn utf8_char_width(c: char) -> (w: usize)
    ensures
        w == utf8_width(c),
{
    if (c as u32) < 0x80 {
        1
    } else if (c as u32) < 0x800 {
        2
    } else if (c as u32) < 0x10000 {
        3
    } else {
        4
    }
}

/// How many leading characters of `s` fit in `n` bytes, and how many bytes they take.
pub fn fit_prefix(s: &Vec<char>, n: usize) -> (res: (usize, usize))
    ensures
        res.0 == fit_count(s@, n as int),
        res.1 == fit_bytes(s@, n as int),
        res.0 <= s.len(),
        res.1 <= n,
        res.0 < s.len() ==> utf8_width(s@[res.0 as int]) > n - res.1,
{
    let mut i: usize = 0;
    let mut used: usize = 0;
    assert(s@.skip(0) =~= s@);
    while i < s.len() && utf8_char_width(s[i]) <= n - used
        invariant
            i <= s.len(),
            used <= n,
            fit_count(s@, n as int) == i + fit_count(s@.skip(i as int), n - used),
            fit_bytes(s@, n as int) == used + fit_bytes(s@.skip(i as int), n - used),
        decreases s.len() - i,
    {
        assert(s@.skip(i as int).drop_first() =~= s@.skip(i + 1));
        used = used + utf8_char_width(s[i]);
        i = i + 1;
    }
    assert(fit_count(s@.skip(i as int), n - used) == 0);
    assert(fit_bytes(s@.skip(i as int), n - used) == 0);
    (i, used)
}

/// Whether `a` comes before `b` in character order (as `String`'s ordering
/// does: UTF-8 bytes compare as the characters they encode).
pub open spec fn text_lt(a: Seq<char>, b: Seq<char>) -> bool
    decreases a.len(),
{
    if a.len() == 0 {
        b.len() > 0
    } else if b.len() == 0 {
        false
    } else if a[0] != b[0] {
        a[0] < b[0]
    } else {
        text_lt(a.drop_first(), b.drop_first())
    }
}

/// Text order is transitive.
pub proof fn lemma_text_lt_transitive(a: Seq<char>, b: Seq<char>, c: Seq<char>)
    requires
        text_lt(a, b),
        text_lt(b, c),
    ensures
        text_lt(a, c),
    decreases a.len(),
{
    if a.len() > 0 && b.len() > 0 && c.len() > 0 && a[0] == b[0] && b[0] == c[0] {
        lemma_text_lt_transitive(a.drop_first(), b.drop_first(), c.drop_first());
    }
}

/// Of two different texts, one comes first; a text does not come before itself.
pub proof fn lemma_text_lt_total(a: Seq<char>, b: Seq<char>)
    ensures
        a == b || text_lt(a, b) || text_lt(b, a),
        !(text_lt(a, b) && text_lt(b, a)),
        !text_lt(a, a),
    decreases a.len(),
{
    if a.len() == 0 && b.len() == 0 {
        assert(a =~= b);
    }
    if a.len() > 0 && b.len() > 0 {
        lemma_text_lt_total(a.drop_first(), b.drop_first());
        if a[0] == b[0] && a.drop_first() == b.drop_first() {
            assert(a =~= seq![a[0]] + a.drop_first());
            assert(b =~= seq![b[0]] + b.drop_first());
            assert(a =~= b);
        }
    }
    if a.len() > 0 {
        lemma_text_lt_total(a.drop_first(), a.drop_first());
    }
}

/// Whether `a` comes before `b`.
pub fn text_less(a: &str, b: &str) -> (res: bool)
    ensures
        res == text_lt(a@, b@),
{
    let x = chars_of(a);
    let y = chars_of(b);
    let mut i: usize = 0;
    assert(x@.skip(0) =~= x@);
    assert(y@.skip(0) =~= y@);
    while i < x.len() && i < y.len() && x[i] == y[i]
        invariant
            i <= x.len(),
            i <= y.len(),
            x@ == a@,
            y@ == b@,
            text_lt(a@, b@) == text_lt(x@.skip(i as int), y@.skip(i as int)),
        decreases x.len() - i,
    {
        assert(x@.skip(i as int).drop_first() =~= x@.skip(i + 1));
        assert(y@.skip(i as int).drop_first() =~= y@.skip(i + 1));
        i = i + 1;
    }
    if i == x.len() {
        i < y.len()
    } else if i == y.len() {
        false
    } else {
        x[i] < y[i]
    }
}

/// The texts of a list.
pub open spec fn texts(v: Seq<String>) -> Seq<Seq<char>> {
    v.map_values(|s: String| s@)
}

/// Whether the texts are in order.
pub open spec fn sorted_texts(t: Seq<Seq<char>>) -> bool {
    forall|i: int, j: int| 0 <= i < j < t.len() ==> !text_lt(t[j], t[i])
}

proof fn lemma_insert_multiset<A>(s: Seq<A>, i: int, x: A)
    requires
        0 <= i <= s.len(),
    ensures
        s.insert(i, x).to_multiset() =~= s.to_multiset().insert(x),
{
    broadcast use vstd::multiset::group_multiset_axioms;
    broadcast use vstd::seq_lib::group_to_multiset_ensures;
    let t = s.insert(i, x);
    assert(t.remove(i) =~= s);
    assert(t[i] == x);
    assert(t.to_multiset().count(x) > 0);
}

/// The texts in order (as `slice::sort` orders strings).
pub fn sort_texts(v: Vec<String>) -> (res: Vec<String>)
    ensures
        sorted_texts(texts(res@)),
        texts(res@).to_multiset() =~= texts(v@).to_multiset(),
{
    broadcast use vstd::multiset::group_multiset_axioms;
    broadcast use vstd::seq_lib::group_to_multiset_ensures;
    let ghost orig = texts(v@);
    let mut rest = v;
    let mut res: Vec<String> = Vec::new();
    assert(texts(res@) =~= Seq::<Seq<char>>::empty());
    while rest.len() > 0
        invariant
            sorted_texts(texts(res@)),
            texts(res@).to_multiset().add(texts(rest@).to_multiset()) =~= orig.to_multiset(),
        decreases rest.len(),
    {
        let ghost rest_before = texts(rest@);
        let ghost res_before = texts(res@);
        let x = rest.remove(0);
        proof {
            assert(texts(rest@) =~= rest_before.remove(0));
            assert(rest_before[0] == x@);
            assert(rest_before =~= rest_before.remove(0).insert(0, x@));
            lemma_insert_multiset(rest_before.remove(0), 0, x@);
        }
        let mut p: usize = 0;
        while p < res.len() && !text_less(x.as_str(), res[p].as_str())
            invariant
                p <= res@.len(),
                res_before == texts(res@),
                forall|j: int| 0 <= j < p ==> !text_lt(x@, #[trigger] res_before[j]),
            decreases res.len() - p,
        {
            p = p + 1;
        }
        res.insert(p, x);
        proof {
            assert(texts(res@) =~= res_before.insert(p as int, x@));
            lemma_insert_multiset(res_before, p as int, x@);
            let r = texts(res@);
            assert forall|i: int, j: int| 0 <= i < j < r.len() implies !text_lt(r[j], r[i]) by {
                if j < p {
                } else if j == p {
                    lemma_text_lt_total(x@, res_before[i]);
                } else if i < p {
                    assert(r[j] == res_before[j - 1]);
                    assert(!text_lt(x@, res_before[i]));
                    lemma_text_lt_total(x@, res_before[i]);
                    assert(text_lt(x@, res_before[p as int]));
                    if p < j - 1 {
                        assert(!text_lt(res_before[j - 1], res_before[p as int]));
                        lemma_text_lt_total(res_before[j - 1], res_before[p as int]);
                        if text_lt(res_before[p as int], res_before[j - 1]) {
                            lemma_text_lt_transitive(x@, res_before[p as int], res_before[j - 1]);
                        }
                    }
                    // res_before[i] <= x < res_before[j - 1]
                    lemma_text_lt_total(res_before[i], x@);
                    if text_lt(res_before[i], x@) {
                        lemma_text_lt_transitive(res_before[i], x@, res_before[j - 1]);
                    }
                    lemma_text_lt_total(res_before[i], res_before[j - 1]);
                } else if i == p {
                    assert(r[j] == res_before[j - 1]);
                    assert(text_lt(x@, res_before[p as int]));
                    if p < j - 1 {
                        lemma_text_lt_total(res_before[j - 1], res_before[p as int]);
                        if text_lt(res_before[p as int], res_before[j - 1]) {
                            lemma_text_lt_transitive(x@, res_before[p as int], res_before[j - 1]);
                        }
                    }
                    lemma_text_lt_total(x@, res_before[j - 1]);
                } else {
                    assert(r[i] == res_before[i - 1]);
                    assert(r[j] == res_before[j - 1]);
                }
            }
        }
    }
    res
}

/// The length of a text in bytes (UTF-8), as `str::len` reports it.
pub open spec fn byte_len(s: Seq<char>) -> nat {
    (vstd::utf8::encode_utf8(s).len() as usize) as nat
}

/// A signed number in English digit grouping: a minus sign before the grouped
/// magnitude of a negative number.
pub open spec fn grouped_signed(n: int) -> Seq<char> {
    if n < 0 { seq!['-'] + grouped_decimal((-n) as nat) } else { grouped_decimal(n as nat) }
}

/// Writes `n` in English digit grouping, with `num_format`'s
/// `ToFormattedString::to_formatted_string` and `Locale::en` (minus sign "-",
/// separator ",", groups of three): claimed to be `grouped_signed(n)`.
#[verifier::external_body]
pub(crate) fn english_grouped_signed(n: i64) -> (res: String)
    ensures
        res@ == grouped_signed(n as int),
{
    num_format::ToFormattedString::to_formatted_string(&n, &num_format::Locale::en)
}

/// A character occurs in a text at most as often as the text is long.
pub proof fn lemma_count_char_le_len(s: Seq<char>, c: char)
    ensures
        count_char(s, c) <= s.len(),
    decreases s.len(),
{
    if s.len() > 0 {
        lemma_count_char_le_len(s.drop_last(), c);
    }
}

/// Printing a number and reading it back gives the number: its decimal digits
/// are digits, and their value is the number.
pub proof fn lemma_decimal_reads_back(n: nat)
    ensures
        decimal(n).len() > 0,
        all_digits(decimal(n)),
        digits_value(decimal(n)) == n,
        !decimal(n).contains(':'),
        decimal(n)[0] != '-' && decimal(n)[0] != '+',
    decreases n,
{
    if n < 10 {
        assert(decimal(n) =~= seq![digit_char(n)]);
        assert(decimal(n).drop_last() =~= Seq::<char>::empty());
        assert((digit_char(n) as int) == 48 + n);
        assert(digits_value(decimal(n)) == digits_value(Seq::<char>::empty()) * 10 + n as int);
    } else {
        lemma_decimal_reads_back(n / 10);
        let d = decimal(n / 10);
        assert(decimal(n) == d.push(digit_char(n % 10)));
        assert(decimal(n).drop_last() =~= d);
        assert((digit_char(n % 10) as int) == 48 + n % 10);
        assert(digits_value(decimal(n)) == digits_value(d) * 10 + (n % 10) as int);
        assert(n == (n / 10) * 10 + n % 10);
        assert forall|i: int| 0 <= i < decimal(n).len() implies is_digit(#[trigger] decimal(n)[i]) by {
            if i < d.len() {
                assert(decimal(n)[i] == d[i]);
            }
        }
        assert(!decimal(n).contains(':')) by {
            if decimal(n).contains(':') {
                let i = choose|i: int| 0 <= i < decimal(n).len() && decimal(n)[i] == ':';
                if i < d.len() {
                    assert(d[i] == ':');
                }
            }
        }
        assert(decimal(n)[0] == d[0]);
    }
}

/// A signed number's text reads back as the number.
pub proof fn lemma_signed_decimal_reads_back(n: int)
    ensures
        parse_int(signed_decimal(n), true) == Some(n),
        !signed_decimal(n).contains(':'),
{
    if n < 0 {
        let m = (-n) as nat;
        lemma_decimal_reads_back(m);
        let t = seq!['-'] + decimal(m);
        assert(t.drop_first() =~= decimal(m));
        assert(sign_and_body(t, true) == (true, decimal(m)));
        assert(!t.contains(':')) by {
            if t.contains(':') {
                let i = choose|i: int| 0 <= i < t.len() && t[i] == ':';
                assert(decimal(m)[i - 1] == ':');
            }
        }
    } else {
        lemma_decimal_reads_back(n as nat);
        assert(sign_and_body(decimal(n as nat), true) == (false, decimal(n as nat)));
    }
}

/// Splitting text that ends in the separator ends in an empty piece.
pub proof fn lemma_split_push_sep(s: Seq<char>, sep: char)
    ensures
        split_on(s.push(sep), sep) == split_on(s, sep).push(Seq::<char>::empty()),
{
    assert(s.push(sep).drop_last() =~= s);
}

/// Adding text without the separator lengthens the last piece.
pub proof fn lemma_split_append_plain(s: Seq<char>, t: Seq<char>, sep: char)
    requires
        !t.contains(sep),
    ensures
        split_on(s + t, sep) == split_on(s, sep).update(
            split_on(s, sep).len() - 1,
            split_on(s, sep).last() + t,
        ),
        split_on(s + t, sep).len() == split_on(s, sep).len(),
    decreases t.len(),
{
    lemma_split_on_nonempty(s, sep);
    if t.len() == 0 {
        assert(s + t =~= s);
        assert(split_on(s, sep).last() + t =~= split_on(s, sep).last());
        assert(split_on(s, sep).update(split_on(s, sep).len() - 1, split_on(s, sep).last()) =~= split_on(s, sep));
    } else {
        let init = t.drop_last();
        assert(!init.contains(sep)) by {
            if init.contains(sep) {
                let i = choose|i: int| 0 <= i < init.len() && init[i] == sep;
                assert(t[i] == sep);
            }
        }
        assert(t.last() != sep) by {
            assert(t[t.len() - 1] == t.last());
        }
        lemma_split_append_plain(s, init, sep);
        assert((s + t).drop_last() =~= s + init);
        assert((s + t).last() == t.last());
        let p = split_on(s, sep);
        assert(split_on(s + t, sep) =~= p.update(p.len() - 1, p.last() + t)) by {
            assert(p.last() + init + seq![t.last()] =~= p.last() + t);
            assert((p.last() + init).push(t.last()) =~= p.last() + t);
        }
    }
}

} // verus!
