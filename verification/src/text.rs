//! Text helpers: decimal formatting and parsing of integers, splitting on a
//! separator, stripping a trailing character, and the std text operations
//! (`trim`, `to_lowercase`) the library relies on.

use vstd::prelude::*;

verus! {

// ---------------------------------------------------------------------------
// Decimal digits
// ---------------------------------------------------------------------------

/// The character that writes the decimal digit `d` (`0 <= d < 10`).
pub open spec fn digit_char(d: int) -> char {
    if d == 0 {
        '0'
    } else if d == 1 {
        '1'
    } else if d == 2 {
        '2'
    } else if d == 3 {
        '3'
    } else if d == 4 {
        '4'
    } else if d == 5 {
        '5'
    } else if d == 6 {
        '6'
    } else if d == 7 {
        '7'
    } else if d == 8 {
        '8'
    } else {
        '9'
    }
}

/// The decimal writing of a natural number, without leading zeros.
pub open spec fn decimal_text(n: nat) -> Seq<char>
    decreases n,
{
    if n < 10 {
        seq![digit_char(n as int)]
    } else {
        decimal_text(n / 10).push(digit_char((n % 10) as int))
    }
}

/// The decimal writing of an integer: a minus sign before negative numbers.
pub open spec fn signed_decimal_text(i: int) -> Seq<char> {
    if i < 0 {
        seq!['-'] + decimal_text((-i) as nat)
    } else {
        decimal_text(i as nat)
    }
}

fn digit_str(d: u64) -> (r: &'static str)
    requires
        d < 10,
    ensures
        r@ == seq![digit_char(d as int)],
{
    proof {
        reveal_strlit("0");
        reveal_strlit("1");
        reveal_strlit("2");
        reveal_strlit("3");
        reveal_strlit("4");
        reveal_strlit("5");
        reveal_strlit("6");
        reveal_strlit("7");
        reveal_strlit("8");
        reveal_strlit("9");
    }
    if d == 0 {
        "0"
    } else if d == 1 {
        "1"
    } else if d == 2 {
        "2"
    } else if d == 3 {
        "3"
    } else if d == 4 {
        "4"
    } else if d == 5 {
        "5"
    } else if d == 6 {
        "6"
    } else if d == 7 {
        "7"
    } else if d == 8 {
        "8"
    } else {
        "9"
    }
}

/// Writes `n` in decimal, as `format!("{}", n)` does.
pub fn decimal_string(n: u64) -> (r: String)
    ensures
        r@ == decimal_text(n as nat),
    decreases n,
{
    if n < 10 {
        String::from_str(digit_str(n))
    } else {
        let mut s = decimal_string(n / 10);
        s.append(digit_str(n % 10));
        s
    }
}

/// Writes `i` in decimal with a leading minus sign when negative, as
/// `format!("{}", i)` does.
pub fn signed_decimal_string(i: i64) -> (r: String)
    ensures
        r@ == signed_decimal_text(i as int),
{
    if i < 0 {
        let mut s = String::from_str("-");
        proof {
            reveal_strlit("-");
        }
        let magnitude: u64 = (-(i as i128)) as u64;
        let digits = decimal_string(magnitude);
        s.append(digits.as_str());
        s
    } else {
        decimal_string(i as u64)
    }
}

// ---------------------------------------------------------------------------
// Parsing integers as `str::parse` does
// ---------------------------------------------------------------------------

/// An ASCII decimal digit.
pub open spec fn is_digit(c: char) -> bool {
    '0' <= c && c <= '9'
}

/// The value of the ASCII decimal digit `c`.
pub open spec fn digit_value(c: char) -> int {
    (c as int) - ('0' as int)
}

/// Every character of `s` is an ASCII decimal digit.
pub open spec fn all_digits(s: Seq<char>) -> bool {
    forall|i: int| 0 <= i < s.len() ==> is_digit(#[trigger] s[i])
}

/// The value of a string of decimal digits.
pub open spec fn digits_value(s: Seq<char>) -> int
    decreases s.len(),
{
    if s.len() == 0 {
        0
    } else {
        digits_value(s.drop_last()) * 10 + digit_value(s.last())
    }
}

/// The magnitude written by a non-empty string of decimal digits, if `s` is one.
pub open spec fn unsigned_number(s: Seq<char>) -> Option<int> {
    if s.len() > 0 && all_digits(s) {
        Some(digits_value(s))
    } else {
        None
    }
}

/// The integer that `str::parse` reads from `s` before it checks the range of
/// the target type: an optional `+` sign (or `-` for signed types) and at least
/// one decimal digit; anything else is refused.
pub open spec fn parsed_integer(s: Seq<char>, signed: bool) -> Option<int> {
    if s.len() > 0 && s[0] == '+' {
        unsigned_number(s.drop_first())
    } else if signed && s.len() > 0 && s[0] == '-' {
        match unsigned_number(s.drop_first()) {
            Some(v) => Some(-v),
            None => None,
        }
    } else {
        unsigned_number(s)
    }
}

/// What `s.parse::<i32>()` returns, with its error collapsed to `None`.
pub open spec fn parsed_i32(s: Seq<char>) -> Option<i32> {
    match parsed_integer(s, true) {
        Some(v) => if i32::MIN <= v <= i32::MAX {
            Some(v as i32)
        } else {
            None
        },
        None => None,
    }
}

/// What `s.parse::<u8>()` returns, with its error collapsed to `None`.
pub open spec fn parsed_u8(s: Seq<char>) -> Option<u8> {
    match parsed_integer(s, false) {
        Some(v) => if 0 <= v <= u8::MAX {
            Some(v as u8)
        } else {
            None
        },
        None => None,
    }
}

/// A bound beyond every value the parsers here accept.
pub open spec fn parse_cap() -> int {
    2147483649
}

/// `v` held within `[-parse_cap(), parse_cap()]`.
pub open spec fn clamp_to_cap(v: int) -> int {
    if v > parse_cap() {
        parse_cap()
    } else if v < -parse_cap() {
        -parse_cap()
    } else {
        v
    }
}

proof fn lemma_digits_value_nonneg(s: Seq<char>)
    requires
        all_digits(s),
    ensures
        digits_value(s) >= 0,
    decreases s.len(),
{
    if s.len() > 0 {
        assert(all_digits(s.drop_last())) by {
            assert forall|i: int| 0 <= i < s.drop_last().len() implies is_digit(
                #[trigger] s.drop_last()[i],
            ) by {
                assert(s.drop_last()[i] == s[i]);
            }
        }
        lemma_digits_value_nonneg(s.drop_last());
        assert(is_digit(s[s.len() - 1]));
    }
}

/// Reads the decimal digits of `s` from index `from`, saturating at the cap.
fn scan_digits(s: &str, from: usize) -> (r: Option<i64>)
    requires
        from <= s@.len(),
    ensures
        match (r, unsigned_number(s@.subrange(from as int, s@.len() as int))) {
            (Some(x), Some(v)) => x == clamp_to_cap(v) && x >= 0,
            (None, None) => true,
            _ => false,
        },
{
    let n = s.unicode_len();
    let ghost t = s@.subrange(from as int, s@.len() as int);
    if from >= n {
        return None;
    }
    let mut acc: i64 = 0;
    let mut i: usize = from;
    while i < n
        invariant
            from <= i <= n,
            n == s@.len(),
            t == s@.subrange(from as int, s@.len() as int),
            all_digits(t.take(i - from)),
            acc == clamp_to_cap(digits_value(t.take(i - from))),
            0 <= acc <= parse_cap(),
        decreases n - i,
    {
        let c = s.get_char(i);
        if !('0' <= c && c <= '9') {
            proof {
                assert(t[i - from] == c);
                assert(!all_digits(t));
            }
            return None;
        }
        let d = (c as u32 - '0' as u32) as i64;
        proof {
            let k = (i - from) as int;
            assert(t.take(k + 1).drop_last() == t.take(k));
            assert(t.take(k + 1).last() == c);
            lemma_digits_value_nonneg(t.take(k));
            assert(all_digits(t.take(k + 1))) by {
                assert forall|j: int| 0 <= j < t.take(k + 1).len() implies is_digit(
                    #[trigger] t.take(k + 1)[j],
                ) by {
                    if j < k {
                        assert(t.take(k + 1)[j] == t.take(k)[j]);
                    }
                }
            }
        }
        if acc >= 214748365 {
            acc = 2147483649;
        } else {
            let next = acc * 10 + d;
            acc = if next > 2147483649 {
                2147483649
            } else {
                next
            };
        }
        i = i + 1;
    }
    proof {
        assert(t.take(n - from) == t);
        lemma_digits_value_nonneg(t);
    }
    Some(acc)
}

/// Reads the integer written in `s` as `str::parse` does, saturating the value
/// at the cap; `None` when `s` writes no integer.
fn scan_integer(s: &str, signed: bool) -> (r: Option<i64>)
    ensures
        match (r, parsed_integer(s@, signed)) {
            (Some(x), Some(v)) => x == clamp_to_cap(v),
            (None, None) => true,
            _ => false,
        },
{
    let n = s.unicode_len();
    if n == 0 {
        return None;
    }
    let first = s.get_char(0);
    if first == '+' {
        proof {
            assert(s@.subrange(1, s@.len() as int) == s@.drop_first());
        }
        scan_digits(s, 1)
    } else if signed && first == '-' {
        proof {
            assert(s@.subrange(1, s@.len() as int) == s@.drop_first());
        }
        match scan_digits(s, 1) {
            Some(x) => Some(-x),
            None => None,
        }
    } else {
        proof {
            assert(s@.subrange(0, s@.len() as int) == s@);
        }
        scan_digits(s, 0)
    }
}

/// `s.parse::<i32>().ok()`.
pub fn parse_i32(s: &str) -> (r: Option<i32>)
    ensures
        r == parsed_i32(s@),
{
    match scan_integer(s, true) {
        Some(x) => {
            if -2147483648 <= x && x <= 2147483647 {
                Some(x as i32)
            } else {
                None
            }
        },
        None => None,
    }
}

/// `s.parse::<u8>().ok()`.
pub fn parse_u8(s: &str) -> (r: Option<u8>)
    ensures
        r == parsed_u8(s@),
{
    match scan_integer(s, false) {
        Some(x) => {
            if 0 <= x && x <= 255 {
                Some(x as u8)
            } else {
                None
            }
        },
        None => None,
    }
}

/// A non-empty string of decimal digits is read as its decimal value, leading
/// zeros included: as a `u8` when the value is at most 255 (and refused
/// above), as an `i32` when it is at most `i32::MAX`, as a negative `i32`
/// after a minus sign down to `i32::MIN`, and a leading plus sign changes
/// nothing.
pub proof fn lemma_parse_digits(s: Seq<char>)
    requires
        s.len() > 0,
        all_digits(s),
    ensures
        digits_value(s) >= 0,
        digits_value(s) <= 255 ==> parsed_u8(s) == Some(digits_value(s) as u8),
        digits_value(s) > 255 ==> parsed_u8(s) is None,
        parsed_u8(seq!['+'] + s) == parsed_u8(s),
        digits_value(s) <= i32::MAX ==> parsed_i32(s) == Some(digits_value(s) as i32),
        digits_value(s) <= 2147483648 ==> parsed_i32(seq!['-'] + s) == Some((-digits_value(s)) as i32),
        parsed_i32(seq!['+'] + s) == parsed_i32(s),
        parsed_u8(seq!['-'] + s) is None,
{
    lemma_digits_value_nonneg(s);
    assert(is_digit(s[0]));
    assert((seq!['+'] + s).drop_first() =~= s);
    assert((seq!['-'] + s).drop_first() =~= s);
    assert((seq!['-'] + s)[0] == '-');
    assert((seq!['+'] + s)[0] == '+');
    assert(!is_digit('-'));
    assert(!all_digits(seq!['-'] + s)) by {
        assert(!is_digit((seq!['-'] + s)[0]));
    }
}

/// The decimal writing of a natural number is a non-empty string of digits
/// whose value is the number.
pub proof fn lemma_decimal_text_value(n: nat)
    ensures
        decimal_text(n).len() > 0,
        all_digits(decimal_text(n)),
        digits_value(decimal_text(n)) == n,
    decreases n,
{
    if n >= 10 {
        lemma_decimal_text_value(n / 10);
        let t = decimal_text(n);
        let d = (n % 10) as int;
        assert(t == decimal_text(n / 10).push(digit_char(d)));
        assert(t.drop_last() =~= decimal_text(n / 10));
        assert(is_digit(digit_char(d)) && digit_value(digit_char(d)) == d);
        assert(t.last() == digit_char(d));
        assert(digits_value(t) == digits_value(decimal_text(n / 10)) * 10 + d);
        assert((n / 10) * 10 + n % 10 == n) by (nonlinear_arith);
        assert forall|i: int| 0 <= i < t.len() implies is_digit(#[trigger] t[i]) by {
            if i < t.len() - 1 {
                assert(t[i] == decimal_text(n / 10)[i]);
            }
        }
    } else {
        assert(is_digit(digit_char(n as int)) && digit_value(digit_char(n as int)) == n);
        assert(decimal_text(n).drop_last() =~= Seq::<char>::empty());
        assert(digits_value(Seq::<char>::empty()) == 0);
        assert(decimal_text(n).last() == digit_char(n as int));
        assert(digits_value(decimal_text(n)) == 0 * 10 + digit_value(digit_char(n as int)));
    }
}

/// Reading back what `decimal_string` and `signed_decimal_string` write gives
/// the number again.
pub proof fn lemma_parse_decimal_round_trip(n: u8, i: i32)
    ensures
        parsed_u8(decimal_text(n as nat)) == Some(n),
        parsed_i32(signed_decimal_text(i as int)) == Some(i),
{
    lemma_decimal_text_value(n as nat);
    lemma_parse_digits(decimal_text(n as nat));
    if i < 0 {
        lemma_decimal_text_value((-i) as nat);
        lemma_parse_digits(decimal_text((-i) as nat));
    } else {
        lemma_decimal_text_value(i as nat);
        lemma_parse_digits(decimal_text(i as nat));
    }
}

// ---------------------------------------------------------------------------
// Splitting and stripping
// ---------------------------------------------------------------------------

/// The pieces of `s` between occurrences of `sep`, as `str::split(sep)` yields
/// them: always at least one piece, empty pieces kept.
pub open spec fn split_on(s: Seq<char>, sep: char) -> Seq<Seq<char>>
    decreases s.len(),
{
    if s.len() == 0 {
        seq![Seq::<char>::empty()]
    } else {
        let before = split_on(s.drop_last(), sep);
        if s.last() == sep {
            before.push(Seq::<char>::empty())
        } else {
            before.update(before.len() - 1, before.last().push(s.last()))
        }
    }
}

/// `split_on` never yields an empty list of pieces.
pub proof fn lemma_split_on_nonempty(s: Seq<char>, sep: char)
    ensures
        split_on(s, sep).len() >= 1,
    decreases s.len(),
{
    if s.len() > 0 {
        lemma_split_on_nonempty(s.drop_last(), sep);
    }
}

/// A text without the separator is a single piece.
pub proof fn lemma_split_without_separator(s: Seq<char>, sep: char)
    requires
        !s.contains(sep),
    ensures
        split_on(s, sep) == seq![s],
    decreases s.len(),
{
    if s.len() > 0 {
        assert(!s.drop_last().contains(sep)) by {
            if s.drop_last().contains(sep) {
                let j = choose|j: int| 0 <= j < s.drop_last().len() && s.drop_last()[j] == sep;
                assert(s[j] == sep);
            }
        }
        lemma_split_without_separator(s.drop_last(), sep);
        assert(s.last() != sep) by {
            assert(s[s.len() - 1] == s.last());
        }
        assert(s.drop_last().push(s.last()) =~= s);
    } else {
        assert(s =~= Seq::<char>::empty());
    }
}

/// Joining `a` and a text `b` without the separator by one separator splits
/// into the pieces of `a` followed by `b`.
pub proof fn lemma_split_join(a: Seq<char>, b: Seq<char>, sep: char)
    requires
        !b.contains(sep),
    ensures
        split_on(a + seq![sep] + b, sep) == split_on(a, sep).push(b),
    decreases b.len(),
{
    let t = a + seq![sep] + b;
    if b.len() == 0 {
        assert(t.drop_last() =~= a);
        assert(t.last() == sep);
        assert(b =~= Seq::<char>::empty());
    } else {
        assert(!b.drop_last().contains(sep)) by {
            if b.drop_last().contains(sep) {
                let j = choose|j: int| 0 <= j < b.drop_last().len() && b.drop_last()[j] == sep;
                assert(b[j] == sep);
            }
        }
        lemma_split_join(a, b.drop_last(), sep);
        assert(t.drop_last() =~= a + seq![sep] + b.drop_last());
        assert(t.last() == b.last());
        assert(b.last() != sep) by {
            assert(b[b.len() - 1] == b.last());
        }
        assert(b.drop_last().push(b.last()) =~= b);
    }
}

/// The views of a list of strings.
pub open spec fn texts(v: Seq<String>) -> Seq<Seq<char>> {
    v.map_values(|x: String| x@)
}

/// `s.split(sep).map(|p| p.to_string()).collect()`.
pub fn split_text(s: &str, sep: char) -> (r: Vec<String>)
    ensures
        texts(r@) == split_on(s@, sep),
{
    let n = s.unicode_len();
    let mut pieces: Vec<String> = Vec::new();
    let mut start: usize = 0;
    let mut i: usize = 0;
    proof {
        assert(s@.take(0) == Seq::<char>::empty());
        assert(texts(pieces@) == Seq::<Seq<char>>::empty());
        assert(s@.subrange(0, 0) == Seq::<char>::empty());
    }
    while i < n
        invariant
            0 <= start <= i <= n,
            n == s@.len(),
            texts(pieces@).push(s@.subrange(start as int, i as int)) == split_on(s@.take(i as int), sep),
        decreases n - i,
    {
        let c = s.get_char(i);
        proof {
            assert(s@.take(i + 1).drop_last() == s@.take(i as int));
            assert(s@.take(i + 1).last() == c);
            lemma_split_on_nonempty(s@.take(i as int), sep);
        }
        if c == sep {
            let piece = String::from_str(s.substring_char(start, i));
            pieces.push(piece);
            start = i + 1;
            proof {
                assert(texts(pieces@) == texts(pieces@.drop_last()).push(piece@));
                assert(s@.subrange(start as int, i + 1) == Seq::<char>::empty());
            }
        } else {
            proof {
                let before = split_on(s@.take(i as int), sep);
                assert(s@.subrange(start as int, i + 1) == s@.subrange(start as int, i as int).push(c));
                assert(texts(pieces@).push(s@.subrange(start as int, i + 1)) == before.update(
                    before.len() - 1,
                    before.last().push(c),
                ));
            }
        }
        i = i + 1;
    }
    let last = String::from_str(s.substring_char(start, n));
    pieces.push(last);
    proof {
        assert(s@.take(n as int) == s@);
        assert(texts(pieces@) == texts(pieces@.drop_last()).push(last@));
    }
    pieces
}

/// `s` without all the occurrences of `c` at its end.
pub open spec fn strip_trailing(s: Seq<char>, c: char) -> Seq<char>
    decreases s.len(),
{
    if s.len() > 0 && s.last() == c {
        strip_trailing(s.drop_last(), c)
    } else {
        s
    }
}

/// `s.trim_end_matches(c).to_string()`.
pub fn strip_trailing_text(s: &str, c: char) -> (r: String)
    ensures
        r@ == strip_trailing(s@, c),
{
    let mut end = s.unicode_len();
    proof {
        assert(s@.take(end as int) == s@);
    }
    while end > 0 && s.get_char(end - 1) == c
        invariant
            end <= s@.len(),
            strip_trailing(s@.take(end as int), c) == strip_trailing(s@, c),
        decreases end,
    {
        proof {
            assert(s@.take(end as int).drop_last() == s@.take(end - 1));
        }
        end = end - 1;
    }
    String::from_str(s.substring_char(0, end))
}

/// The two texts hold the same characters.
pub fn same_text(a: &str, b: &str) -> (r: bool)
    ensures
        r == (a@ == b@),
{
    let x = String::from_str(a);
    let y = String::from_str(b);
    x == y
}

// ---------------------------------------------------------------------------
// std text operations without a specification in vstd
// ---------------------------------------------------------------------------

/// What `str::trim` returns for `s`: `s` without its leading and trailing
/// Unicode white space.
pub uninterp spec fn trimmed(s: Seq<char>) -> Seq<char>;

/// Calls `str::trim`. The contract only names the result (`trimmed`); which
/// characters count as white space is left to std's Unicode tables.
#[verifier::external_body]
pub(crate) fn trim_text(s: &str) -> (r: String)
    ensures
        r@ == trimmed(s@),
{
    s.trim().to_string()
}

/// What `str::to_lowercase` returns for `s`.
pub uninterp spec fn lowercased(s: Seq<char>) -> Seq<char>;

/// Calls `str::to_lowercase`. The contract only names the result
/// (`lowercased`); the Unicode case mapping itself is left to std.
#[verifier::external_body]
pub(crate) fn lowercase_text(s: &str) -> (r: String)
    ensures
        r@ == lowercased(s@),
{
    s.to_lowercase()
}

} // verus!
