//! Searching, replacing, splitting and joining of texts.
use vstd::prelude::*;

use crate::text;
use crate::text::{chars_of, is_whitespace, same_text, text_range};

verus! {

/// Whether `pat` stands in `chars` at position `at`.
fn matches_at(chars: &Vec<char>, pat: &Vec<char>, at: usize) -> (r: bool)
    requires
        at <= chars@.len(),
    ensures
        r == text::occurs_at(chars@, pat@, at as int),
{
    let n: usize = chars.len();
    if pat.len() > n - at {
        return false;
    }
    let mut i: usize = 0;
    while i < pat.len()
        invariant
            i <= pat@.len(),
            n == chars@.len(),
            at + pat@.len() <= n,
            forall|j: int| 0 <= j < i ==> chars@[at + j] == pat@[j],
        decreases pat@.len() - i,
    {
        if chars[at + i] != pat[i] {
            assert(chars@.subrange(at as int, at + pat@.len())[i as int] != pat@[i as int]);
            return false;
        }
        i += 1;
    }
    assert(chars@.subrange(at as int, at + pat@.len()) == pat@);
    true
}

/// The first position at or after `from` at which `pat` stands in `chars`.
pub fn find_from(chars: &Vec<char>, pat: &Vec<char>, from: usize) -> (r: Option<usize>)
    requires
        from <= chars@.len(),
    ensures
        match r {
            Some(i) => {
                &&& from <= i
                &&& text::occurs_at(chars@, pat@, i as int)
                &&& forall|j: int| from <= j < i ==> !#[trigger] text::occurs_at(chars@, pat@, j)
            },
            None => forall|j: int| from <= j ==> !#[trigger] text::occurs_at(chars@, pat@, j),
        },
{
    let mut i: usize = from;
    let n: usize = chars.len();
    while i < n
        invariant
            from <= i <= n,
            n == chars@.len(),
            forall|j: int| from <= j < i ==> !#[trigger] text::occurs_at(chars@, pat@, j),
        decreases n - i,
    {
        if matches_at(chars, pat, i) {
            return Some(i);
        }
        i += 1;
    }
    if matches_at(chars, pat, n) {
        return Some(n);
    }
    None
}

/// Whether `pat` stands somewhere in `s`.
pub fn contains(s: &str, pat: &str) -> (r: bool)
    ensures
        r == text::has_text(s@, pat@),
{
    let chars = chars_of(s);
    let p = chars_of(pat);
    match find_from(&chars, &p, 0) {
        Some(i) => true,
        None => false,
    }
}

/// Whether `s` begins with `pat`.
pub fn starts_with(s: &str, pat: &str) -> (r: bool)
    ensures
        r == text::begins(s@, pat@),
{
    matches_at(&chars_of(s), &chars_of(pat), 0)
}

/// Whether `s` ends with `pat`.
pub fn ends_with(s: &str, pat: &str) -> (r: bool)
    ensures
        r == text::ends(s@, pat@),
{
    let chars = chars_of(s);
    let p = chars_of(pat);
    if p.len() > chars.len() {
        false
    } else {
        matches_at(&chars, &p, chars.len() - p.len())
    }
}

/// What follows `pat` in `s`, if `s` begins with it.
pub fn strip_prefix(s: &str, pat: &str) -> (r: Option<String>)
    ensures
        r is Some == text::begins(s@, pat@),
        r matches Some(rest) ==> rest@ == s@.skip(pat@.len() as int),
{
    let chars = chars_of(s);
    let p = chars_of(pat);
    if matches_at(&chars, &p, 0) {
        Some(text_range(&chars, p.len(), chars.len()))
    } else {
        None
    }
}

/// The `n` first characters of `s`, or all where it has fewer.
pub fn take_chars(s: &str, n: usize) -> (r: String)
    ensures
        r@ == s@.take(if n <= s@.len() { n as int } else { s@.len() as int }),
{
    let chars = chars_of(s);
    let end: usize = if n <= chars.len() {
        n
    } else {
        chars.len()
    };
    text_range(&chars, 0, end)
}

/// `c` with the letters A to Z made small.
fn lower_char(c: char) -> (r: char)
    ensures
        r == text::ascii_lower_char(c),
{
    match c {
        'A' => 'a',
        'B' => 'b',
        'C' => 'c',
        'D' => 'd',
        'E' => 'e',
        'F' => 'f',
        'G' => 'g',
        'H' => 'h',
        'I' => 'i',
        'J' => 'j',
        'K' => 'k',
        'L' => 'l',
        'M' => 'm',
        'N' => 'n',
        'O' => 'o',
        'P' => 'p',
        'Q' => 'q',
        'R' => 'r',
        'S' => 's',
        'T' => 't',
        'U' => 'u',
        'V' => 'v',
        'W' => 'w',
        'X' => 'x',
        'Y' => 'y',
        'Z' => 'z',
        other => other,
    }
}

/// `s` with the letters A to Z made small.
pub fn to_ascii_lowercase(s: &str) -> (r: String)
    ensures
        r@ == text::ascii_lower(s@),
{
    let chars = chars_of(s);
    let mut r = String::new();
    let mut i: usize = 0;
    while i < chars.len()
        invariant
            i <= chars@.len(),
            chars@ == s@,
            r@ == text::ascii_lower(s@.take(i as int)),
        decreases chars@.len() - i,
    {
        r.push(lower_char(chars[i]));
        i += 1;
        assert(text::ascii_lower(s@.take(i as int)) == text::ascii_lower(s@.take(i - 1)).push(
            text::ascii_lower_char(s@[i - 1]),
        ));
    }
    assert(s@.take(s@.len() as int) == s@);
    r
}

/// Whether two texts are the same but for the case of the letters A to Z.
pub fn eq_ignore_ascii_case(a: &str, b: &str) -> (r: bool)
    ensures
        r == (text::ascii_lower(a@) == text::ascii_lower(b@)),
{
    let x = to_ascii_lowercase(a);
    let y = to_ascii_lowercase(b);
    x == y
}

/// `s` with each occurrence of `from` replaced by `to`, left to right.
pub fn replace(s: &str, from: &str, to: &str) -> (r: String)
    requires
        from@.len() > 0,
    ensures
        r@ == text::replaced(s@, from@, to@),
{
    let chars = chars_of(s);
    let pat = chars_of(from);
    let n: usize = chars.len();
    let m: usize = pat.len();
    let mut r = String::new();
    let mut i: usize = 0;
    assert(s@.skip(0) == s@);
    while i < n
        invariant
            i <= n,
            n == chars@.len(),
            chars@ == s@,
            pat@ == from@,
            m == pat@.len(),
            m > 0,
            r@ + text::replaced(s@.skip(i as int), from@, to@) == text::replaced(s@, from@, to@),
        decreases n - i,
    {
        let ghost rest = s@.skip(i as int);
        if matches_at(&chars, &pat, i) {
            proof {
                assert(rest.subrange(0, m as int) == s@.subrange(i as int, i + m));
                assert(text::begins(rest, from@));
                assert(rest.skip(m as int) == s@.skip(i + m));
                assert(text::replaced(rest, from@, to@) == to@ + text::replaced(s@.skip(i + m), from@, to@));
                assert(r@ + (to@ + text::replaced(s@.skip(i + m), from@, to@)) == (r@ + to@) + text::replaced(
                    s@.skip(i + m),
                    from@,
                    to@,
                ));
            }
            r.append(to);
            i += m;
        } else {
            proof {
                if rest.len() >= m {
                    assert(rest.subrange(0, m as int) == s@.subrange(i as int, i + m));
                    assert(!text::begins(rest, from@));
                    assert(rest.skip(1) == s@.skip(i + 1));
                    assert(text::replaced(rest, from@, to@) == seq![s@[i as int]] + text::replaced(
                        s@.skip(i + 1),
                        from@,
                        to@,
                    ));
                } else {
                    assert(text::replaced(rest, from@, to@) == rest);
                    assert(s@.skip(i + 1).len() < m);
                    assert(text::replaced(s@.skip(i + 1), from@, to@) == s@.skip(i + 1));
                    assert(rest == seq![s@[i as int]] + s@.skip(i + 1));
                }
                assert(r@ + (seq![s@[i as int]] + text::replaced(s@.skip(i + 1), from@, to@)) == r@.push(
                    s@[i as int],
                ) + text::replaced(s@.skip(i + 1), from@, to@));
            }
            r.push(chars[i]);
            i += 1;
        }
    }
    assert(s@.skip(n as int).len() == 0);
    assert(text::replaced(s@.skip(n as int), from@, to@) == s@.skip(n as int));
    assert(r@ + s@.skip(n as int) == r@);
    r
}

proof fn lemma_word_len_split(s: Seq<char>, k: int)
    requires
        0 <= k <= s.len(),
        forall|j: int| 0 <= j < k ==> !text::is_white(#[trigger] s[j]),
        k < s.len() ==> text::is_white(s[k]),
    ensures
        text::word_len(s) == k,
    decreases k,
{
    if k > 0 {
        assert forall|j: int| 0 <= j < k - 1 implies !text::is_white(#[trigger] s.skip(1)[j]) by {
            assert(s.skip(1)[j] == s[j + 1]);
        }
        lemma_word_len_split(s.skip(1), k - 1);
    }
}

/// The maximal runs of characters that are not white space, in order.
pub fn split_whitespace(s: &str) -> (r: Vec<String>)
    ensures
        text::texts(r@) == text::words(s@),
{
    let chars = chars_of(s);
    let n: usize = chars.len();
    let mut r: Vec<String> = Vec::new();
    let mut i: usize = 0;
    assert(s@.skip(0) == s@);
    assert(text::texts(r@) + text::words(s@) == text::words(s@));
    while i < n
        invariant
            i <= n,
            n == chars@.len(),
            chars@ == s@,
            text::texts(r@) + text::words(s@.skip(i as int)) == text::words(s@),
        decreases n - i,
    {
        let ghost rest = s@.skip(i as int);
        if is_whitespace(chars[i]) {
            assert(rest.skip(1) == s@.skip(i + 1));
            i += 1;
        } else {
            let mut j: usize = i;
            while j < n && !is_whitespace(chars[j])
                invariant
                    i <= j <= n,
                    n == chars@.len(),
                    chars@ == s@,
                    rest == s@.skip(i as int),
                    forall|k: int| 0 <= k < j - i ==> !text::is_white(#[trigger] rest[k]),
                decreases n - j,
            {
                j += 1;
            }
            let word = text_range(&chars, i, j);
            proof {
                lemma_word_len_split(rest, j - i);
                assert(rest.take(j - i) == s@.subrange(i as int, j as int));
                assert(rest.skip(j - i) == s@.skip(j as int));
                assert(text::words(rest) == seq![word@] + text::words(s@.skip(j as int)));
                assert(text::texts(r@) + (seq![word@] + text::words(s@.skip(j as int))) == text::texts(r@).push(
                    word@,
                ) + text::words(s@.skip(j as int)));
                assert(text::texts(r@.push(word)) == text::texts(r@).push(word@));
            }
            r.push(word);
            i = j;
        }
    }
    assert(s@.skip(n as int).len() == 0);
    assert(text::texts(r@) + text::words(s@.skip(n as int)) == text::texts(r@));
    r
}

/// The lines of a text.
pub fn lines(s: &str) -> (r: Vec<String>)
    ensures
        text::texts(r@) == text::lines_of(s@),
{
    let chars = chars_of(s);
    let n: usize = chars.len();
    let mut r: Vec<String> = Vec::new();
    let mut i: usize = 0;
    assert(s@.skip(0) == s@);
    assert(text::texts(r@) + text::lines_of(s@) == text::lines_of(s@));
    while i < n
        invariant
            i <= n,
            n == chars@.len(),
            chars@ == s@,
            text::texts(r@) + text::lines_of(s@.skip(i as int)) == text::lines_of(s@),
        decreases n - i,
    {
        let ghost rest = s@.skip(i as int);
        let mut j: usize = i;
        while j < n && chars[j] != '\n'
            invariant
                i <= j <= n,
                n == chars@.len(),
                chars@ == s@,
                rest == s@.skip(i as int),
                forall|k: int| 0 <= k < j - i ==> rest[k] != '\n',
            decreases n - j,
        {
            j += 1;
        }
        proof {
            text::lemma_position(rest, '\n', j - i);
        }
        if j == n {
            let line = text_range(&chars, i, n);
            proof {
                assert(line@ == rest);
                assert(text::lines_of(rest) == seq![line@]);
                assert(text::texts(r@.push(line)) == text::texts(r@) + seq![line@]);
            }
            r.push(line);
            return r;
        }
        let end: usize = if j > i && chars[j - 1] == '\r' {
            j - 1
        } else {
            j
        };
        let line = text_range(&chars, i, end);
        proof {
            assert(rest.take(j - i) == s@.subrange(i as int, j as int));
            assert(s@.subrange(i as int, j as int).len() == j - i);
            if j > i {
                assert(rest.take(j - i).last() == s@[j - 1]);
                assert(rest.take(j - i).drop_last() == s@.subrange(i as int, j - 1));
            }
            assert(line@ == text::without_return(rest.take(j - i)));
            assert(rest.skip(j - i + 1) == s@.skip(j + 1));
            assert(text::lines_of(rest) == seq![line@] + text::lines_of(s@.skip(j + 1)));
            assert(text::texts(r@) + (seq![line@] + text::lines_of(s@.skip(j + 1)))
                == text::texts(r@).push(line@) + text::lines_of(s@.skip(j + 1)));
            assert(text::texts(r@.push(line)) == text::texts(r@).push(line@));
        }
        r.push(line);
        i = j + 1;
    }
    assert(s@.skip(n as int).len() == 0);
    assert(text::texts(r@) + text::lines_of(s@.skip(n as int)) == text::texts(r@));
    r
}

/// The texts joined with `sep` between each two of them.
pub fn join(parts: &Vec<String>, sep: &str) -> (r: String)
    ensures
        r@ == text::joined(text::texts(parts@), sep@),
{
    let mut r = String::new();
    let mut i: usize = 0;
    while i < parts.len()
        invariant
            i <= parts@.len(),
            r@ == text::joined(text::texts(parts@.take(i as int)), sep@),
        decreases parts@.len() - i,
    {
        let ghost before = text::texts(parts@.take(i as int));
        let ghost after = text::texts(parts@.take(i + 1));
        proof {
            assert(after.drop_last() == before);
            assert(after.last() == parts@[i as int]@);
            assert(after.len() == i + 1);
        }
        if i > 0 {
            r.append(sep);
            r.append(parts[i].as_str());
        } else {
            r = parts[i].clone();
        }
        i += 1;
    }
    assert(parts@.take(parts@.len() as int) == parts@);
    r
}

fn digit(d: u128) -> (r: char)
    requires
        d < 10,
    ensures
        r == text::digit_char(d as nat),
{
    match d {
        0 => '0',
        1 => '1',
        2 => '2',
        3 => '3',
        4 => '4',
        5 => '5',
        6 => '6',
        7 => '7',
        8 => '8',
        _ => '9',
    }
}

/// The decimal numeral of `n`.
pub fn decimal_text(n: u128) -> (r: String)
    ensures
        r@ == text::decimal(n as nat),
    decreases n,
{
    if n < 10 {
        let mut r = String::new();
        r.push(digit(n));
        assert(r@ == seq![text::digit_char(n as nat)]);
        r
    } else {
        let mut r = decimal_text(n / 10);
        r.push(digit(n % 10));
        r
    }
}

/// The decimal numeral of `n`, with a sign where it is negative.
pub fn decimal_int_text(n: i64) -> (r: String)
    ensures
        r@ == text::decimal_int(n as int),
{
    if n < 0 {
        let mut r = String::new();
        r.push('-');
        let magnitude: i128 = -(n as i128);
        r.append(decimal_text(magnitude as u128).as_str());
        assert(r@ == seq!['-'] + text::decimal((-n) as nat));
        r
    } else {
        decimal_text(n as u128)
    }
}

/// Whether a text of the list is `s`.
pub fn list_has(list: &Vec<String>, s: &str) -> (r: bool)
    ensures
        r == text::texts(list@).contains(s@),
{
    let mut i: usize = 0;
    while i < list.len()
        invariant
            i <= list@.len(),
            forall|j: int| 0 <= j < i ==> text::texts(list@)[j] != s@,
        decreases list@.len() - i,
    {
        if same_text(list[i].as_str(), s) {
            assert(text::texts(list@)[i as int] == s@);
            return true;
        }
        i += 1;
    }
    false
}

/// The value of decimal digits, where there is at least one and nothing else.
pub open spec fn digits_value(s: Seq<char>) -> Option<nat>
    decreases s.len(),
{
    if s.len() == 0 || !('0' <= s.last() <= '9') {
        None
    } else {
        let last = (s.last() as int - '0' as int) as nat;
        if s.len() == 1 {
            Some(last)
        } else {
            match digits_value(s.drop_last()) {
                Some(n) => Some(n * 10 + last),
                None => None,
            }
        }
    }
}

/// The whole number that a text holds: decimal digits, with or without a plus sign, whose value
/// is not greater than `max`.
pub open spec fn number_in(s: Seq<char>, max: nat) -> Option<nat> {
    let digits = if s.len() > 0 && s[0] == '+' {
        s.skip(1)
    } else {
        s
    };
    match digits_value(digits) {
        Some(n) => if n <= max {
            Some(n)
        } else {
            None
        },
        None => None,
    }
}

/// Digits that go on from others have a value that is not smaller.
proof fn lemma_digits_grow(s: Seq<char>, n: int)
    requires
        0 < n <= s.len(),
        digits_value(s) is Some,
    ensures
        digits_value(s.take(n)) is Some,
        digits_value(s.take(n))->0 <= digits_value(s)->0,
    decreases s.len(),
{
    if n < s.len() {
        lemma_digits_grow(s.drop_last(), n);
        assert(s.drop_last().take(n) == s.take(n));
    } else {
        assert(s.take(n) == s);
    }
}

fn digit_of(c: char) -> (r: Option<u64>)
    ensures
        r is Some == ('0' <= c <= '9'),
        r matches Some(d) ==> d == c as int - '0' as int && d < 10,
{
    match c {
        '0' => Some(0),
        '1' => Some(1),
        '2' => Some(2),
        '3' => Some(3),
        '4' => Some(4),
        '5' => Some(5),
        '6' => Some(6),
        '7' => Some(7),
        '8' => Some(8),
        '9' => Some(9),
        _ => None,
    }
}

/// The whole number that a text holds, where it is not greater than `max`.
pub fn parse_unsigned(s: &str, max: u64) -> (r: Option<u64>)
    ensures
        match number_in(s@, max as nat) {
            Some(n) => r matches Some(v) && v == n,
            None => r is None,
        },
{
    let chars = chars_of(s);
    let first: usize = if chars.len() > 0 && chars[0] == '+' {
        1
    } else {
        0
    };
    let ghost digits = s@.skip(first as int);
    assert(first == 0 ==> digits == s@);
    if first == chars.len() {
        return None;
    }
    let mut value: u64 = 0;
    let mut i: usize = first;
    while i < chars.len()
        invariant
            first <= i <= chars@.len(),
            first < chars@.len(),
            chars@ == s@,
            digits == s@.skip(first as int),
            value <= max,
            i == first ==> value == 0,
            i > first ==> digits_value(digits.take(i - first)) == Some(value as nat),
            number_in(s@, max as nat) == (match digits_value(digits) {
                Some(n) => if n <= max {
                    Some(n)
                } else {
                    None
                },
                None => None,
            }),
        decreases chars@.len() - i,
    {
        let ghost k = i - first;
        let ghost part = digits.take(k + 1);
        proof {
            assert(part.last() == chars@[i as int]);
            assert(part.drop_last() == digits.take(k));
        }
        let d: u64 = match digit_of(chars[i]) {
            Some(d) => d,
            None => {
                proof {
                    if digits_value(digits) is Some {
                        lemma_digits_grow(digits, k + 1);
                    }
                }
                return None;
            },
        };
        if d > max || value > (max - d) / 10 {
            proof {
                assert(digits_value(part)->0 > max);
                if digits_value(digits) is Some {
                    lemma_digits_grow(digits, k + 1);
                }
            }
            return None;
        }
        value = value * 10 + d;
        i += 1;
    }
    assert(digits.take(i - first) == digits);
    Some(value)
}

proof fn lemma_digits_of_decimal(n: nat)
    ensures
        digits_value(text::decimal(n)) == Some(n),
        text::decimal(n).len() > 0,
        '0' <= text::decimal(n)[0] <= '9',
    decreases n,
{
    let s = text::decimal(n);
    if n >= 10 {
        lemma_digits_of_decimal(n / 10);
        assert(s.drop_last() == text::decimal(n / 10));
        assert(s.last() as int == 48 + n % 10);
        assert(s[0] == text::decimal(n / 10)[0]);
    } else {
        assert(s.last() as int == 48 + n);
    }
}

/// A number that is written out is read back, with or without a plus before it, as long as it is no
/// larger than it may be; a text with anything but digits is no number.
pub proof fn law_numbers_are_read_back(n: nat, max: nat, s: Seq<char>, i: int)
    requires
        0 <= i < s.len(),
    ensures
        n <= max ==> number_in(text::decimal(n), max) == Some(n) && number_in(
            seq!['+'] + text::decimal(n),
            max,
        ) == Some(n),
        n > max ==> number_in(text::decimal(n), max) is None,
        !('0' <= s[i] <= '9') && !(i == 0 && s[i] == '+') ==> number_in(s, max) is None,
        number_in(Seq::<char>::empty(), max) is None,
{
    lemma_digits_of_decimal(n);
    let plus = seq!['+'] + text::decimal(n);
    assert(plus.skip(1) == text::decimal(n));
    if !('0' <= s[i] <= '9') && !(i == 0 && s[i] == '+') {
        if s[0] == '+' {
            assert(s.skip(1)[i - 1] == s[i]);
            lemma_only_digits(s.skip(1), i - 1);
        } else {
            lemma_only_digits(s, i);
        }
    }
}

proof fn lemma_only_digits(s: Seq<char>, i: int)
    requires
        0 <= i < s.len(),
        !('0' <= s[i] <= '9'),
    ensures
        digits_value(s) is None,
    decreases s.len(),
{
    if i < s.len() - 1 {
        assert(s.drop_last()[i] == s[i]);
        lemma_only_digits(s.drop_last(), i);
    }
}

} // verus!
