//! Text operations, stated over sequences of characters.
use vstd::prelude::*;

verus! {

/// `String::push` appends one character at the end.
pub assume_specification[ std::string::String::push ](s: &mut std::string::String, c: char)
    ensures
        final(s)@ == old(s)@.push(c),
;

/// The views of a sequence of strings.
pub open spec fn texts(v: Seq<String>) -> Seq<Seq<char>> {
    v.map_values(|s: String| s@)
}

/// The view of an optional string.
pub open spec fn opt_text(o: Option<String>) -> Option<Seq<char>> {
    match o {
        Some(s) => Some(s@),
        None => None,
    }
}

/// The view of an optional list of strings.
pub open spec fn opt_texts(o: Option<Vec<String>>) -> Option<Seq<Seq<char>>> {
    match o {
        Some(v) => Some(texts(v@)),
        None => None,
    }
}

/// The characters with the Unicode property `White_Space`.
pub open spec fn is_white(c: char) -> bool {
    let n = c as u32;
    ||| 0x9 <= n <= 0xd
    ||| n == 0x20
    ||| n == 0x85
    ||| n == 0xa0
    ||| n == 0x1680
    ||| 0x2000 <= n <= 0x200a
    ||| n == 0x2028
    ||| n == 0x2029
    ||| n == 0x202f
    ||| n == 0x205f
    ||| n == 0x3000
}

/// Whether `c` is dropped by a trim over `set` and, if `white`, over white space.
pub open spec fn in_class(c: char, white: bool, set: Seq<char>) -> bool {
    (white && is_white(c)) || set.contains(c)
}

/// `s` without its leading characters of the class.
pub open spec fn trim_start_class(s: Seq<char>, white: bool, set: Seq<char>) -> Seq<char>
    decreases s.len(),
{
    if s.len() > 0 && in_class(s[0], white, set) {
        trim_start_class(s.skip(1), white, set)
    } else {
        s
    }
}

/// `s` without its trailing characters of the class.
pub open spec fn trim_end_class(s: Seq<char>, white: bool, set: Seq<char>) -> Seq<char>
    decreases s.len(),
{
    if s.len() > 0 && in_class(s.last(), white, set) {
        trim_end_class(s.drop_last(), white, set)
    } else {
        s
    }
}

/// `s` without leading and trailing characters of the class.
pub open spec fn trim_class(s: Seq<char>, white: bool, set: Seq<char>) -> Seq<char> {
    trim_end_class(trim_start_class(s, white, set), white, set)
}

/// `s` without leading and trailing white space.
pub open spec fn trimmed(s: Seq<char>) -> Seq<char> {
    trim_class(s, true, Seq::<char>::empty())
}

/// Whether `s` holds nothing but white space.
pub open spec fn is_blank(s: Seq<char>) -> bool {
    forall|i: int| 0 <= i < s.len() ==> is_white(#[trigger] s[i])
}

/// Whether `pat` stands in `s` at position `i`.
pub open spec fn occurs_at(s: Seq<char>, pat: Seq<char>, i: int) -> bool {
    0 <= i && i + pat.len() <= s.len() && s.subrange(i, i + pat.len()) == pat
}

/// Whether `pat` stands somewhere in `s`.
pub open spec fn has_text(s: Seq<char>, pat: Seq<char>) -> bool {
    exists|i: int| occurs_at(s, pat, i)
}

/// Whether `s` begins with `pat`.
pub open spec fn begins(s: Seq<char>, pat: Seq<char>) -> bool {
    occurs_at(s, pat, 0)
}

/// Whether `s` ends with `pat`.
pub open spec fn ends(s: Seq<char>, pat: Seq<char>) -> bool {
    occurs_at(s, pat, s.len() - pat.len())
}

/// `c` with the letters A to Z made small.
pub open spec fn ascii_lower_char(c: char) -> char {
    if 'A' as u32 <= c as u32 <= 'Z' as u32 {
        ((c as u32 + 32) as u32) as char
    } else {
        c
    }
}

/// `s` with the letters A to Z made small.
pub open spec fn ascii_lower(s: Seq<char>) -> Seq<char> {
    s.map_values(|c: char| ascii_lower_char(c))
}

/// `s` with each occurrence of `from`, found left to right, replaced by `to`.
pub open spec fn replaced(s: Seq<char>, from: Seq<char>, to: Seq<char>) -> Seq<char>
    decreases s.len(),
{
    if from.len() == 0 || s.len() < from.len() {
        s
    } else if begins(s, from) {
        to + replaced(s.skip(from.len() as int), from, to)
    } else {
        seq![s[0]] + replaced(s.skip(1), from, to)
    }
}

/// How many characters at the start of `s` are not white space.
pub open spec fn word_len(s: Seq<char>) -> nat
    decreases s.len(),
{
    if s.len() == 0 || is_white(s[0]) {
        0
    } else {
        1 + word_len(s.skip(1))
    }
}

/// The maximal runs of characters that are not white space.
pub open spec fn words(s: Seq<char>) -> Seq<Seq<char>>
    decreases s.len(),
{
    if s.len() == 0 {
        Seq::empty()
    } else if is_white(s[0]) {
        words(s.skip(1))
    } else {
        let n = word_len(s);
        if 0 < n <= s.len() {
            seq![s.take(n as int)] + words(s.skip(n as int))
        } else {
            Seq::empty()
        }
    }
}

/// The position of the first `c`.
pub open spec fn position(s: Seq<char>, c: char) -> Option<int>
    decreases s.len(),
{
    if s.len() == 0 {
        None
    } else if s[0] == c {
        Some(0)
    } else {
        match position(s.skip(1), c) {
            Some(i) => Some(i + 1),
            None => None,
        }
    }
}

/// A line without the carriage return at its end.
pub open spec fn without_return(s: Seq<char>) -> Seq<char> {
    if s.len() > 0 && s.last() == '\r' {
        s.drop_last()
    } else {
        s
    }
}

/// The lines of a text. A line ends with a line feed, alone or behind a carriage return; the
/// last line may end with the text.
pub open spec fn lines_of(s: Seq<char>) -> Seq<Seq<char>>
    decreases s.len(),
{
    if s.len() == 0 {
        Seq::empty()
    } else {
        match position(s, '\n') {
            None => seq![s],
            Some(k) => if 0 <= k < s.len() {
                seq![without_return(s.take(k))] + lines_of(s.skip(k + 1))
            } else {
                seq![s]
            },
        }
    }
}

/// The texts joined with `sep` between each two of them.
pub open spec fn joined(parts: Seq<Seq<char>>, sep: Seq<char>) -> Seq<char>
    decreases parts.len(),
{
    if parts.len() == 0 {
        Seq::empty()
    } else if parts.len() == 1 {
        parts[0]
    } else {
        joined(parts.drop_last(), sep) + sep + parts.last()
    }
}

/// The texts with one more, unless it is empty or there already.
pub open spec fn with_new(list: Seq<Seq<char>>, t: Seq<char>) -> Seq<Seq<char>> {
    if t.len() == 0 || list.contains(t) {
        list
    } else {
        list.push(t)
    }
}

/// The decimal digit `d`.
pub open spec fn digit_char(d: nat) -> char {
    ((48 + d) as u32) as char
}

/// The decimal numeral of `n`.
pub open spec fn decimal(n: nat) -> Seq<char>
    decreases n,
{
    if n < 10 {
        seq![digit_char(n)]
    } else {
        decimal(n / 10).push(digit_char(n % 10))
    }
}

/// The decimal numeral of `n`, with a sign where it is negative.
pub open spec fn decimal_int(n: int) -> Seq<char> {
    if n < 0 {
        seq!['-'] + decimal((-n) as nat)
    } else {
        decimal(n as nat)
    }
}

/// The first `c` stands where no earlier character is `c`.
pub proof fn lemma_position(s: Seq<char>, c: char, i: int)
    requires
        0 <= i <= s.len(),
        forall|j: int| 0 <= j < i ==> s[j] != c,
    ensures
        i == s.len() ==> position(s, c) is None,
        i < s.len() && s[i] == c ==> position(s, c) == Some(i),
    decreases i,
{
    if i > 0 {
        assert forall|j: int| 0 <= j < i - 1 implies s.skip(1)[j] != c by {
            assert(s.skip(1)[j] == s[j + 1]);
        }
        lemma_position(s.skip(1), c, i - 1);
    }
}

/// Whether two texts are the same.
pub fn same_text(a: &str, b: &str) -> (r: bool)
    ensures
        r == (a@ == b@),
{
    a.to_owned() == b.to_owned()
}

/// The characters of `s`, in order.
pub fn chars_of(s: &str) -> (r: Vec<char>)
    ensures
        r@ == s@,
{
    let mut r: Vec<char> = Vec::new();
    for c in it: s.chars()
        invariant
            r@ == s@.take(it.index() as int),
            it.seq() == s@,
    {
        r.push(c);
    }
    assert(s@.take(s@.len() as int) == s@);
    r
}

/// The text of `chars[from..to]`.
pub fn text_range(chars: &Vec<char>, from: usize, to: usize) -> (r: String)
    requires
        from <= to <= chars@.len(),
    ensures
        r@ == chars@.subrange(from as int, to as int),
{
    let mut r = String::new();
    let mut i: usize = from;
    while i < to
        invariant
            from <= i <= to <= chars@.len(),
            r@ == chars@.subrange(from as int, i as int),
        decreases to - i,
    {
        r.push(chars[i]);
        i += 1;
        assert(chars@.subrange(from as int, i as int) == chars@.subrange(from as int, i - 1).push(
            chars@[i - 1],
        ));
    }
    r
}

/// Whether `c` has the Unicode property `White_Space`.
pub fn is_whitespace(c: char) -> (r: bool)
    ensures
        r == is_white(c),
{
    let n: u32 = c as u32;
    (0x9 <= n && n <= 0xd) || n == 0x20 || n == 0x85 || n == 0xa0 || n == 0x1680 || (0x2000 <= n
        && n <= 0x200a) || n == 0x2028 || n == 0x2029 || n == 0x202f || n == 0x205f || n == 0x3000
}

/// Whether `set` holds `c`.
fn holds_char(set: &Vec<char>, c: char) -> (r: bool)
    ensures
        r == set@.contains(c),
{
    let mut i: usize = 0;
    while i < set.len()
        invariant
            i <= set@.len(),
            forall|j: int| 0 <= j < i ==> set@[j] != c,
        decreases set@.len() - i,
    {
        if set[i] == c {
            assert(set@[i as int] == c);
            return true;
        }
        i += 1;
    }
    false
}

/// `s` without leading and trailing characters of the class.
pub fn trim_matches(s: &str, white: bool, set: &str) -> (r: String)
    ensures
        r@ == trim_class(s@, white, set@),
{
    let chars = chars_of(s);
    let set_chars = chars_of(set);
    let n: usize = chars.len();
    let mut i: usize = 0;
    assert(s@.subrange(0, n as int) == s@);
    while i < n && ((white && is_whitespace(chars[i])) || holds_char(&set_chars, chars[i]))
        invariant
            i <= n,
            n == chars@.len(),
            chars@ == s@,
            set_chars@ == set@,
            trim_start_class(s@.subrange(i as int, n as int), white, set@) == trim_start_class(
                s@,
                white,
                set@,
            ),
        decreases n - i,
    {
        assert(s@.subrange(i as int, n as int).skip(1) == s@.subrange(i + 1, n as int));
        i += 1;
    }
    let mut j: usize = n;
    while j > i && ((white && is_whitespace(chars[j - 1])) || holds_char(&set_chars, chars[j - 1]))
        invariant
            i <= j <= n,
            n == chars@.len(),
            chars@ == s@,
            set_chars@ == set@,
            trim_end_class(s@.subrange(i as int, j as int), white, set@) == trim_end_class(
                s@.subrange(i as int, n as int),
                white,
                set@,
            ),
        decreases j,
    {
        assert(s@.subrange(i as int, j as int).drop_last() == s@.subrange(i as int, j - 1));
        j -= 1;
    }
    text_range(&chars, i, j)
}

/// `s` without leading and trailing white space.
pub fn trim(s: &str) -> (r: String)
    ensures
        r@ == trimmed(s@),
{
    proof {
        reveal_strlit("");
    }
    assert(""@ == Seq::<char>::empty());
    trim_matches(s, true, "")
}

/// A text is blank exactly if nothing is left of it after trimming.
pub proof fn lemma_blank_trim(s: Seq<char>)
    ensures
        is_blank(s) <==> trimmed(s).len() == 0,
    decreases s.len(),
{
    let none = Seq::<char>::empty();
    let t = trim_start_class(s, true, none);
    if s.len() > 0 && is_white(s[0]) {
        lemma_blank_trim(s.skip(1));
        if is_blank(s.skip(1)) {
            assert forall|i: int| 0 <= i < s.len() implies is_white(#[trigger] s[i]) by {
                if i > 0 {
                    assert(s.skip(1)[i - 1] == s[i]);
                }
            }
        }
        if is_blank(s) {
            assert forall|i: int| 0 <= i < s.skip(1).len() implies is_white(
                #[trigger] s.skip(1)[i],
            ) by {
                assert(s[i + 1] == s.skip(1)[i]);
            }
        }
    } else if s.len() > 0 {
        assert(t == s);
        lemma_trim_end_keeps_head(s);
    }
}

proof fn lemma_trim_end_keeps_head(s: Seq<char>)
    requires
        s.len() > 0,
        !is_white(s[0]),
    ensures
        trim_end_class(s, true, Seq::<char>::empty()).len() > 0,
    decreases s.len(),
{
    if is_white(s.last()) {
        lemma_trim_end_keeps_head(s.drop_last());
    }
}

/// Whether nothing is left of `s` after trimming.
pub fn trims_to_empty(s: &str) -> (r: bool)
    ensures
        r == (trimmed(s@).len() == 0),
        r == is_blank(s@),
{
    proof {
        lemma_blank_trim(s@);
    }
    let t = trim(s);
    t.as_str().is_empty()
}

/// A text that begins with a letter is not blank.
pub proof fn lemma_letter_is_not_blank(s: Seq<char>)
    requires
        s.len() > 0,
        !is_white(s[0]),
    ensures
        !is_blank(s),
{
}

proof fn lemma_trim_start(s: Seq<char>, white: bool, set: Seq<char>) -> (n: int)
    ensures
        0 <= n <= s.len(),
        trim_start_class(s, white, set) == s.skip(n),
        forall|i: int| 0 <= i < n ==> in_class(#[trigger] s[i], white, set),
        n < s.len() ==> !in_class(s[n], white, set),
    decreases s.len(),
{
    if s.len() > 0 && in_class(s[0], white, set) {
        let rest = s.skip(1);
        let m = lemma_trim_start(rest, white, set);
        assert(rest.skip(m) == s.skip(m + 1));
        assert forall|i: int| 0 <= i < m + 1 implies in_class(#[trigger] s[i], white, set) by {
            if i > 0 {
                assert(rest[i - 1] == s[i]);
            }
        }
        m + 1
    } else {
        assert(s.skip(0) == s);
        0
    }
}

proof fn lemma_trim_end(s: Seq<char>, white: bool, set: Seq<char>) -> (n: int)
    ensures
        0 <= n <= s.len(),
        trim_end_class(s, white, set) == s.take(n),
        forall|i: int| n <= i < s.len() ==> in_class(#[trigger] s[i], white, set),
        n > 0 ==> !in_class(s[n - 1], white, set),
    decreases s.len(),
{
    if s.len() > 0 && in_class(s.last(), white, set) {
        let rest = s.drop_last();
        let m = lemma_trim_end(rest, white, set);
        assert(rest.take(m) == s.take(m));
        assert forall|i: int| m <= i < s.len() implies in_class(#[trigger] s[i], white, set) by {
            if i < rest.len() {
                assert(rest[i] == s[i]);
            }
        }
        m
    } else {
        assert(s.take(s.len() as int) == s);
        s.len() as int
    }
}

/// A trimmed text is what stands between the blanks at both ends: nothing but blanks is taken away,
/// it neither begins nor ends with one, and trimming once more changes nothing. A blank text, and
/// no other, leaves nothing.
pub proof fn law_trimming_takes_only_blanks_away(s: Seq<char>)
    ensures
        exists|i: int, j: int|
            0 <= i <= j <= s.len() && #[trigger] s.subrange(i, j) == trimmed(s) && is_blank(s.take(i))
                && is_blank(s.skip(j)),
        trimmed(s).len() > 0 ==> !is_white(trimmed(s)[0]) && !is_white(trimmed(s).last()),
        is_blank(s) <==> trimmed(s).len() == 0,
        trimmed(trimmed(s)) == trimmed(s),
{
    let none = Seq::<char>::empty();
    let n = lemma_trim_start(s, true, none);
    let front = s.skip(n);
    let m = lemma_trim_end(front, true, none);
    let t = front.take(m);
    assert(t == trimmed(s));
    assert(s.subrange(n, n + m) == t);
    assert forall|i: int| 0 <= i < s.take(n).len() implies is_white(#[trigger] s.take(n)[i]) by {
        assert(in_class(s[i], true, none));
    }
    assert forall|i: int| 0 <= i < s.skip(n + m).len() implies is_white(
        #[trigger] s.skip(n + m)[i],
    ) by {
        assert(front[m + i] == s[n + m + i]);
        assert(in_class(front[m + i], true, none));
    }
    if t.len() > 0 {
        if n < s.len() {
            assert(front[0] == s[n]);
            assert(t[0] == s[n]);
            assert(!in_class(s[n], true, none));
        }
        assert(t.last() == front[m - 1]);
        assert(!in_class(front[m - 1], true, none));
        assert(!in_class(t[0], true, none));
        assert(!in_class(t.last(), true, none));
        assert(trim_start_class(t, true, none) == t);
        assert(trim_end_class(t, true, none) == t);
        assert(s[n] == t[0]);
    } else {
        assert forall|i: int| 0 <= i < s.len() implies is_white(#[trigger] s[i]) by {
            if i < n {
                assert(in_class(s[i], true, none));
            } else {
                assert(front[i - n] == s[i]);
                assert(in_class(front[i - n], true, none));
            }
        }
    }
}

/// Small letters are made of the capital letters from A to Z, and every other character stays.
pub proof fn law_only_capitals_become_small(s: Seq<char>, i: int)
    requires
        0 <= i < s.len(),
    ensures
        ascii_lower(s).len() == s.len(),
        65 <= s[i] as u32 <= 90 ==> ascii_lower(s)[i] as u32 == s[i] as u32 + 32,
        s[i] as u32 >= 91 || 64 >= s[i] as u32 ==> ascii_lower(s)[i] == s[i],
        ascii_lower(ascii_lower(s)) == ascii_lower(s),
{
    let once = ascii_lower(s);
    assert forall|k: int| 0 <= k < s.len() implies ascii_lower(once)[k] == once[k] by {
        let c = s[k];
        assert(once[k] == ascii_lower_char(c));
    }
    assert(ascii_lower(once) == once);
}

/// Texts are joined with what is to stand between them, and nothing before the first or behind the
/// last.
pub proof fn law_joining_puts_texts_in_between(
    parts: Seq<Seq<char>>,
    last: Seq<char>,
    sep: Seq<char>,
)
    ensures
        joined(Seq::<Seq<char>>::empty(), sep).len() == 0,
        joined(seq![last], sep) == last,
        parts.len() > 0 ==> joined(parts.push(last), sep) == joined(parts, sep) + sep + last,
{
    let more = parts.push(last);
    assert(more.drop_last() == parts);
    assert(more.last() == last);
}

/// The digits of a number tell the number: its last digit is what is left of it by ten, and the
/// digits before it are those of a tenth of it.
pub proof fn law_digits_tell_the_number(n: nat, d: nat)
    requires
        d < 10,
    ensures
        n > 0 ==> decimal(n * 10 + d) == decimal(n) + decimal(d),
        decimal(d).len() == 1 && decimal(d)[0] as int == '0' as int + d,
        decimal_int(-(n as int) - 1) == seq!['-'] + decimal(n + 1),
        decimal_int(n as int) == decimal(n),
{
    if n > 0 {
        assert((n * 10 + d) / 10 == n && (n * 10 + d) % 10 == d) by (nonlinear_arith)
            requires
                d < 10,
        ;
        assert(decimal(n * 10 + d) == decimal(n).push(digit_char(d)));
        assert(decimal(n) + decimal(d) == decimal(n).push(digit_char(d)));
    }
}

proof fn lemma_word_len(s: Seq<char>)
    ensures
        word_len(s) <= s.len(),
        forall|i: int| 0 <= i < word_len(s) ==> !is_white(#[trigger] s[i]),
        word_len(s) < s.len() ==> is_white(s[word_len(s) as int]),
    decreases s.len(),
{
    if s.len() > 0 && !is_white(s[0]) {
        let rest = s.skip(1);
        lemma_word_len(rest);
        assert forall|i: int| 0 <= i < word_len(s) implies !is_white(#[trigger] s[i]) by {
            if i > 0 {
                assert(rest[i - 1] == s[i]);
            }
        }
        if word_len(s) < s.len() {
            assert(rest[word_len(rest) as int] == s[word_len(s) as int]);
        }
    }
}

/// Each word of a text is a piece of it without blanks, and a text that is not blank has a word.
pub proof fn law_words_have_no_blanks(s: Seq<char>)
    ensures
        forall|k: int|
            0 <= k < words(s).len() ==> (#[trigger] words(s)[k]).len() > 0 && forall|i: int|
                0 <= i < words(s)[k].len() ==> !is_white(#[trigger] words(s)[k][i]),
        words(s).len() == 0 <==> is_blank(s),
    decreases s.len(),
{
    if s.len() > 0 {
        if is_white(s[0]) {
            let rest = s.skip(1);
            law_words_have_no_blanks(rest);
            if is_blank(rest) {
                assert forall|i: int| 0 <= i < s.len() implies is_white(#[trigger] s[i]) by {
                    if i > 0 {
                        assert(rest[i - 1] == s[i]);
                    }
                }
            }
            if is_blank(s) {
                assert forall|i: int| 0 <= i < rest.len() implies is_white(#[trigger] rest[i]) by {
                    assert(rest[i] == s[i + 1]);
                }
            }
        } else {
            lemma_word_len(s);
            let n = word_len(s);
            assert(0 < n <= s.len());
            let rest = s.skip(n as int);
            law_words_have_no_blanks(rest);
            let all = words(s);
            assert(all == seq![s.take(n as int)] + words(rest));
            assert forall|k: int| 0 <= k < all.len() implies (#[trigger] all[k]).len() > 0
                && forall|i: int| 0 <= i < all[k].len() ==> !is_white(#[trigger] all[k][i]) by {
                if k > 0 {
                    assert(all[k] == words(rest)[k - 1]);
                }
            }
            assert(!is_white(s[0]));
            assert(!is_blank(s));
        }
    }
}

proof fn lemma_first_position(s: Seq<char>, c: char)
    ensures
        position(s, c) matches Some(k) ==> 0 <= k < s.len() && s[k] == c && forall|i: int|
            0 <= i < k ==> #[trigger] s[i] != c,
        position(s, c) is None ==> forall|i: int| 0 <= i < s.len() ==> #[trigger] s[i] != c,
    decreases s.len(),
{
    if s.len() > 0 && s[0] != c {
        let rest = s.skip(1);
        lemma_first_position(rest, c);
        if position(rest, c) is Some {
            let k = position(rest, c)->0;
            assert(rest[k] == s[k + 1]);
            assert forall|i: int| 0 <= i < k + 1 implies #[trigger] s[i] != c by {
                if i > 0 {
                    assert(rest[i - 1] == s[i]);
                }
            }
        } else {
            assert forall|i: int| 0 <= i < s.len() implies #[trigger] s[i] != c by {
                if i > 0 {
                    assert(rest[i - 1] == s[i]);
                }
            }
        }
    }
}

/// A line that is put before a text is its first line, without what ends it; no line holds a line
/// break.
pub proof fn law_lines_end_at_line_breaks(line: Seq<char>, rest: Seq<char>)
    requires
        forall|i: int| 0 <= i < line.len() ==> #[trigger] line[i] != '\n' && line[i] != '\r',
    ensures
        lines_of(line + seq!['\n'] + rest) == seq![line] + lines_of(rest),
        lines_of(line + seq!['\r', '\n'] + rest) == seq![line] + lines_of(rest),
        line.len() > 0 ==> lines_of(line) == seq![line],
{
    let a = line + seq!['\n'] + rest;
    lemma_first_position(a, '\n');
    assert(a[line.len() as int] == '\n');
    assert forall|i: int| 0 <= i < line.len() implies a[i] == line[i] by {}
    let k = position(a, '\n')->0;
    assert(k == line.len()) by {
        if k < line.len() {
            assert(a[k] == line[k]);
        }
    }
    assert(a.take(k) == line);
    assert(a.skip(k + 1) == rest);
    assert(without_return(line) == line);
    let b = line + seq!['\r', '\n'] + rest;
    lemma_first_position(b, '\n');
    assert(b[line.len() as int + 1] == '\n');
    assert(b[line.len() as int] == '\r');
    assert forall|i: int| 0 <= i < line.len() implies b[i] == line[i] by {}
    let m = position(b, '\n')->0;
    assert(m == line.len() + 1) by {
        if m < line.len() {
            assert(b[m] == line[m]);
        }
    }
    assert(b.take(m) == line.push('\r'));
    assert(line.push('\r').drop_last() == line);
    assert(without_return(b.take(m)) == line);
    assert(b.skip(m + 1) == rest);
    lemma_first_position(line, '\n');
}

} // verus!
