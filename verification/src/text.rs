//! Text as sequences of characters: the small vocabulary that every parser and every
//! message of the crate is stated in.
use vstd::prelude::*;

verus! {

// ---------------------------------------------------------------------------
// Characters
// ---------------------------------------------------------------------------

/// The characters of `text`, one by one.
pub fn to_chars(text: &str) -> (chars: Vec<char>)
    ensures
        chars@ == text@,
{
    let mut chars: Vec<char> = Vec::new();
    for c in iter: text.chars()
        invariant
            chars@.len() == iter.index(),
            iter.seq() == text@,
            forall|i: int| 0 <= i < chars@.len() ==> chars@[i] == text@[i],
    {
        chars.push(c);
    }
    chars
}

/// `String::push`: the character stands behind what the string held before.
pub assume_specification[ String::push ](text: &mut String, c: char)
    ensures
        final(text)@ == old(text)@.push(c),
;

/// The text made of `chars`, in their order.
pub fn from_chars(chars: &[char]) -> (text: String)
    ensures
        text@ == chars@,
{
    let mut text: String = String::new();
    let mut i: usize = 0;
    while i < chars.len()
        invariant
            i <= chars@.len(),
            text@ == chars@.take(i as int),
        decreases chars@.len() - i,
    {
        text.push(chars[i]);
        assert(chars@.take(i as int).push(chars@[i as int]) =~= chars@.take(i + 1));
        i += 1;
    }
    assert(chars@.take(chars@.len() as int) =~= chars@);
    text
}

/// The characters that carry Unicode's `White_Space` property.
pub open spec fn white(c: char) -> bool {
    ||| '\u{9}' <= c <= '\u{d}'
    ||| c == '\u{20}'
    ||| c == '\u{85}'
    ||| c == '\u{a0}'
    ||| c == '\u{1680}'
    ||| '\u{2000}' <= c <= '\u{200a}'
    ||| c == '\u{2028}'
    ||| c == '\u{2029}'
    ||| c == '\u{202f}'
    ||| c == '\u{205f}'
    ||| c == '\u{3000}'
}

/// Whether `c` is white space.
pub fn is_white(c: char) -> (b: bool)
    ensures
        b == white(c),
{
    ('\u{9}' <= c && c <= '\u{d}') || c == '\u{20}' || c == '\u{85}' || c == '\u{a0}' || c
        == '\u{1680}' || ('\u{2000}' <= c && c <= '\u{200a}') || c == '\u{2028}' || c
        == '\u{2029}' || c == '\u{202f}' || c == '\u{205f}' || c == '\u{3000}'
}

// ---------------------------------------------------------------------------
// Comparison and search
// ---------------------------------------------------------------------------

/// Whether the two texts are the same.
pub fn eq_str(a: &str, b: &str) -> (same: bool)
    ensures
        same == (a@ == b@),
{
    let x: String = a.to_owned();
    let y: String = b.to_owned();
    x == y
}

/// `part` stands in `whole` at position `at`.
pub open spec fn stands_at(whole: Seq<char>, part: Seq<char>, at: int) -> bool {
    &&& 0 <= at
    &&& at + part.len() <= whole.len()
    &&& whole.subrange(at, at + part.len()) == part
}

/// `part` stands somewhere in `whole`.
pub open spec fn occurs(whole: Seq<char>, part: Seq<char>) -> bool {
    exists|at: int| #[trigger] stands_at(whole, part, at)
}

/// `whole` begins with `part`.
pub open spec fn begins(whole: Seq<char>, part: Seq<char>) -> bool {
    stands_at(whole, part, 0)
}

/// Whether `part` stands in `whole` at position `at`.
pub fn part_at(whole: &Vec<char>, part: &Vec<char>, at: usize) -> (b: bool)
    requires
        at <= whole@.len(),
    ensures
        b == stands_at(whole@, part@, at as int),
{
    let size: usize = whole.len();
    if part.len() > size - at {
        return false;
    }
    let mut i: usize = 0;
    while i < part.len()
        invariant
            i <= part@.len(),
            size == whole@.len(),
            at + part@.len() <= size,
            forall|k: int| 0 <= k < i ==> whole@[at + k] == part@[k],
        decreases part@.len() - i,
    {
        if whole[at + i] != part[i] {
            assert(whole@.subrange(at as int, at + part@.len())[i as int] != part@[i as int]);
            return false;
        }
        i += 1;
    }
    assert(whole@.subrange(at as int, at + part@.len()) =~= part@);
    true
}

/// Whether `part` stands somewhere in `whole`.
pub fn contains(whole: &str, part: &str) -> (b: bool)
    ensures
        b == occurs(whole@, part@),
{
    let w: Vec<char> = to_chars(whole);
    let p: Vec<char> = to_chars(part);
    let mut at: usize = 0;
    while at < w.len()
        invariant
            w@ == whole@,
            p@ == part@,
            at <= w@.len(),
            forall|k: int| 0 <= k < at ==> !#[trigger] stands_at(whole@, part@, k),
        decreases w@.len() - at,
    {
        if part_at(&w, &p, at) {
            return true;
        }
        at += 1;
    }
    let last: bool = part_at(&w, &p, at);
    last
}

/// Whether `whole` begins with `part`.
pub fn starts_with(whole: &str, part: &str) -> (b: bool)
    ensures
        b == begins(whole@, part@),
{
    let w: Vec<char> = to_chars(whole);
    let p: Vec<char> = to_chars(part);
    part_at(&w, &p, 0)
}

/// The text between the positions `from` and `to`.
pub fn slice_text(chars: &Vec<char>, from: usize, to: usize) -> (text: String)
    requires
        from <= to <= chars@.len(),
    ensures
        text@ == chars@.subrange(from as int, to as int),
{
    from_chars(vstd::slice::slice_subrange(chars.as_slice(), from, to))
}

/// What follows `part` at the beginning of `whole`, if `whole` begins with it.
pub fn strip_prefix(whole: &str, part: &str) -> (rest: Option<String>)
    ensures
        match rest {
            Some(r) => begins(whole@, part@) && r@ == whole@.skip(part@.len() as int),
            None => !begins(whole@, part@),
        },
{
    let w: Vec<char> = to_chars(whole);
    let p: Vec<char> = to_chars(part);
    if part_at(&w, &p, 0) {
        Some(slice_text(&w, p.len(), w.len()))
    } else {
        None
    }
}

// ---------------------------------------------------------------------------
// Trimming
// ---------------------------------------------------------------------------

/// `s` without the white space that it begins with.
pub open spec fn trimmed_start(s: Seq<char>) -> Seq<char>
    decreases s.len(),
{
    if s.len() > 0 && white(s[0]) {
        trimmed_start(s.drop_first())
    } else {
        s
    }
}

/// `s` without the white space that it ends with.
pub open spec fn trimmed_end(s: Seq<char>) -> Seq<char>
    decreases s.len(),
{
    if s.len() > 0 && white(s.last()) {
        trimmed_end(s.drop_last())
    } else {
        s
    }
}

/// `s` without white space on either side.
pub open spec fn trimmed(s: Seq<char>) -> Seq<char> {
    trimmed_end(trimmed_start(s))
}

/// `text` without white space on either side.
pub fn trim(text: &str) -> (t: String)
    ensures
        t@ == trimmed(text@),
{
    let c: Vec<char> = to_chars(text);
    let mut from: usize = 0;
    assert(c@.skip(0) =~= c@);
    while from < c.len() && is_white(c[from])
        invariant
            from <= c@.len(),
            trimmed_start(c@.skip(from as int)) == trimmed_start(c@),
        ensures
            from <= c@.len(),
            trimmed_start(c@) == c@.skip(from as int),
        decreases c@.len() - from,
    {
        assert(c@.skip(from as int).drop_first() =~= c@.skip(from + 1));
        from += 1;
    }
    let mut to: usize = c.len();
    assert(c@.subrange(from as int, to as int) =~= c@.skip(from as int));
    while to > from && is_white(c[to - 1])
        invariant
            from <= to <= c@.len(),
            trimmed_end(c@.subrange(from as int, to as int)) == trimmed(c@),
        ensures
            from <= to <= c@.len(),
            trimmed(c@) == c@.subrange(from as int, to as int),
        decreases to,
    {
        assert(c@.subrange(from as int, to as int).drop_last() =~= c@.subrange(
            from as int,
            to - 1,
        ));
        to -= 1;
    }
    slice_text(&c, from, to)
}

// ---------------------------------------------------------------------------
// Lines and words
// ---------------------------------------------------------------------------

/// The contents of a list of strings.
pub open spec fn texts(list: Seq<String>) -> Seq<Seq<char>> {
    list.map_values(|s: String| s@)
}

/// The position of the first `c` in `s` from `from` on; the end of `s` if there is none.
pub open spec fn next_of(s: Seq<char>, c: char, from: int) -> int
    decreases s.len() - from,
{
    if from >= s.len() {
        s.len() as int
    } else if s[from] == c {
        from
    } else {
        next_of(s, c, from + 1)
    }
}

/// A line that a line feed ended, without the carriage return before it.
pub open spec fn without_cr(s: Seq<char>) -> Seq<char> {
    if s.len() > 0 && s.last() == '\r' {
        s.drop_last()
    } else {
        s
    }
}

/// The lines of `s` from position `from` on: a line ends at a line feed, which does not belong
/// to it, nor does one carriage return right before it; nothing follows a last line feed.
pub open spec fn lines_from(s: Seq<char>, from: int) -> Seq<Seq<char>>
    decreases s.len() - from,
    when 0 <= from
{
    if from >= s.len() {
        Seq::empty()
    } else {
        let end = next_of(s, '\n', from);
        if from <= end < s.len() {
            seq![without_cr(s.subrange(from, end))] + lines_from(s, end + 1)
        } else {
            seq![s.subrange(from, s.len() as int)]
        }
    }
}

/// The lines of `s`.
pub open spec fn line_list(s: Seq<char>) -> Seq<Seq<char>> {
    lines_from(s, 0)
}

/// The lines of `text`.
pub fn lines(text: &str) -> (list: Vec<String>)
    ensures
        texts(list@) == line_list(text@),
{
    let c: Vec<char> = to_chars(text);
    let mut list: Vec<String> = Vec::new();
    let mut from: usize = 0;
    assert(texts(list@) =~= Seq::empty());
    while from < c.len()
        invariant
            c@ == text@,
            from <= c@.len(),
            texts(list@) + lines_from(c@, from as int) =~= line_list(c@),
        decreases c@.len() - from,
    {
        let ghost before = texts(list@);
        let mut end: usize = from;
        while end < c.len() && c[end] != '\n'
            invariant
                from <= end <= c@.len(),
                next_of(c@, '\n', from as int) == next_of(c@, '\n', end as int),
            ensures
                from <= end <= c@.len(),
                next_of(c@, '\n', from as int) == end,
            decreases c@.len() - end,
        {
            end += 1;
        }
        if end < c.len() {
            let stop: usize = if end > from && c[end - 1] == '\r' {
                end - 1
            } else {
                end
            };
            list.push(slice_text(&c, from, stop));
            assert(c@.subrange(from as int, stop as int) =~= without_cr(
                c@.subrange(from as int, end as int),
            ));
            assert(texts(list@) =~= before.push(without_cr(c@.subrange(from as int, end as int))));
            from = end + 1;
        } else {
            list.push(slice_text(&c, from, end));
            assert(texts(list@) =~= before.push(c@.subrange(from as int, c@.len() as int)));
            from = end;
        }
    }
    list
}

/// The position of the first character of `s` from `from` on that is white (or not white, as
/// `wanted` says); the end of `s` if there is none.
pub open spec fn next_white(s: Seq<char>, wanted: bool, from: int) -> int
    decreases s.len() - from,
{
    if from >= s.len() {
        s.len() as int
    } else if white(s[from]) == wanted {
        from
    } else {
        next_white(s, wanted, from + 1)
    }
}

proof fn lemma_next_white(s: Seq<char>, wanted: bool, from: int)
    requires
        0 <= from <= s.len(),
    ensures
        from <= next_white(s, wanted, from) <= s.len(),
        next_white(s, wanted, from) < s.len() ==> white(s[next_white(s, wanted, from)]) == wanted,
        forall|i: int| from <= i < next_white(s, wanted, from) ==> white(s[i]) != wanted,
    decreases s.len() - from,
{
    if from < s.len() && white(s[from]) != wanted {
        lemma_next_white(s, wanted, from + 1);
    }
}

/// The words of `s` from position `from` on: the longest runs without white space.
pub open spec fn words_from(s: Seq<char>, from: int) -> Seq<Seq<char>>
    decreases s.len() - from,
    when 0 <= from
{
    let start = next_white(s, false, from);
    let end = next_white(s, true, start);
    if from <= start < end <= s.len() {
        seq![s.subrange(start, end)] + words_from(s, end)
    } else {
        Seq::empty()
    }
}

/// The words of `s`.
pub open spec fn word_list(s: Seq<char>) -> Seq<Seq<char>> {
    words_from(s, 0)
}

/// The first position from `from` on whose character is white (or not white, as `wanted` says).
fn find_white(c: &Vec<char>, wanted: bool, from: usize) -> (at: usize)
    requires
        from <= c@.len(),
    ensures
        at == next_white(c@, wanted, from as int),
        from <= at <= c@.len(),
{
    let mut at: usize = from;
    while at < c.len() && is_white(c[at]) != wanted
        invariant
            from <= at <= c@.len(),
            next_white(c@, wanted, from as int) == next_white(c@, wanted, at as int),
        ensures
            from <= at <= c@.len(),
            next_white(c@, wanted, from as int) == at,
        decreases c@.len() - at,
    {
        at += 1;
    }
    at
}

/// The words of `text`.
pub fn split_whitespace(text: &str) -> (list: Vec<String>)
    ensures
        texts(list@) == word_list(text@),
{
    let c: Vec<char> = to_chars(text);
    let mut list: Vec<String> = Vec::new();
    let mut from: usize = 0;
    assert(texts(list@) =~= Seq::empty());
    loop
        invariant
            c@ == text@,
            from <= c@.len(),
            texts(list@) + words_from(c@, from as int) =~= word_list(c@),
        decreases c@.len() - from,
    {
        let ghost before = texts(list@);
        let start: usize = find_white(&c, false, from);
        if start >= c.len() {
            return list;
        }
        let end: usize = find_white(&c, true, start);
        proof {
            lemma_next_white(c@, false, from as int);
            lemma_next_white(c@, true, start as int);
        }
        list.push(slice_text(&c, start, end));
        assert(texts(list@) =~= before.push(c@.subrange(start as int, end as int)));
        from = end;
    }
}

/// The parts one after the other, with `sep` between each two.
pub open spec fn joined(parts: Seq<Seq<char>>, sep: Seq<char>) -> Seq<char>
    decreases parts.len(),
{
    if parts.len() == 0 {
        Seq::empty()
    } else if parts.len() == 1 {
        parts[0]
    } else {
        joined(parts.drop_last(), sep) + sep + parts.last()
    }
}

/// The parts one after the other, with `sep` between each two.
pub fn join(parts: &Vec<String>, sep: &str) -> (whole: String)
    ensures
        whole@ == joined(texts(parts@), sep@),
{
    let mut whole: String = String::new();
    let mut i: usize = 0;
    let ghost all = texts(parts@);
    assert(whole@ =~= joined(all.take(0), sep@));
    while i < parts.len()
        invariant
            i <= parts@.len(),
            all == texts(parts@),
            whole@ == joined(all.take(i as int), sep@),
        decreases parts@.len() - i,
    {
        assert(all.take(i + 1).drop_last() =~= all.take(i as int));
        assert(all.take(i + 1).last() == parts@[i as int]@);
        if i > 0 {
            whole.append(sep);
        } else {
            assert(whole@ =~= Seq::empty());
        }
        whole.append(parts[i].as_str());
        assert(whole@ =~= joined(all.take(i + 1), sep@));
        i += 1;
    }
    assert(all.take(parts@.len() as int) =~= all);
    whole
}

// ---------------------------------------------------------------------------
// Case
// ---------------------------------------------------------------------------

/// The lower case form of an ASCII letter; any other character as it is.
pub open spec fn ascii_lower(c: char) -> char {
    if 'A' <= c <= 'Z' {
        (c as u32 + 32) as char
    } else {
        c
    }
}

/// `s` with its ASCII letters in lower case.
pub open spec fn ascii_lowered(s: Seq<char>) -> Seq<char> {
    s.map_values(|c: char| ascii_lower(c))
}

/// `text` with its ASCII letters in lower case.
pub fn to_ascii_lowercase(text: &str) -> (lower: String)
    ensures
        lower@ == ascii_lowered(text@),
{
    let c: Vec<char> = to_chars(text);
    let mut out: Vec<char> = Vec::new();
    let mut i: usize = 0;
    while i < c.len()
        invariant
            i <= c@.len(),
            out@.len() == i,
            forall|k: int| 0 <= k < i ==> out@[k] == ascii_lower(c@[k]),
        decreases c@.len() - i,
    {
        let x: char = c[i];
        if 'A' <= x && x <= 'Z' {
            let code: u8 = x as u8 + 32;
            out.push(code as char);
        } else {
            out.push(x);
        }
        i += 1;
    }
    assert(out@ =~= ascii_lowered(c@));
    from_chars(out.as_slice())
}

/// What `str::to_lowercase` makes of a text.
pub uninterp spec fn lowered(s: Seq<char>) -> Seq<char>;

/// `str::to_lowercase`: the lower case form of the text by Unicode's rules, which depends on
/// the text alone. Of a text that is all ASCII it changes the letters `A` to `Z` and nothing else.
#[verifier::external_body]
pub(crate) fn to_lowercase(text: &str) -> (lower: String)
    ensures
        lower@ == lowered(text@),
        vstd::utf8::is_ascii_chars(text@) ==> lower@ == ascii_lowered(text@),
{
    text.to_lowercase()
}

// ---------------------------------------------------------------------------
// Numbers
// ---------------------------------------------------------------------------

/// The character of a decimal digit.
pub open spec fn digit_char(d: int) -> char {
    (('0' as u32) + d) as char
}

/// `n` in decimal digits.
pub open spec fn decimal(n: nat) -> Seq<char>
    decreases n,
{
    if n < 10 {
        seq![digit_char(n as int)]
    } else {
        decimal(n / 10).push(digit_char((n % 10) as int))
    }
}

/// `n` in decimal digits, with a minus sign where it is negative.
pub open spec fn decimal_int(n: int) -> Seq<char> {
    if n < 0 {
        seq!['-'] + decimal((-n) as nat)
    } else {
        decimal(n as nat)
    }
}

/// The decimal digits of `n`.
fn digits_of(n: u64) -> (digits: Vec<char>)
    ensures
        digits@ == decimal(n as nat),
    decreases n,
{
    let d: char = (48u8 + (n % 10) as u8) as char;
    if n < 10 {
        let mut digits: Vec<char> = Vec::new();
        digits.push(d);
        assert(digits@ =~= decimal(n as nat));
        digits
    } else {
        let mut digits: Vec<char> = digits_of(n / 10);
        digits.push(d);
        digits
    }
}

/// `n` in decimal digits.
pub fn show_u64(n: u64) -> (text: String)
    ensures
        text@ == decimal(n as nat),
{
    let digits: Vec<char> = digits_of(n);
    from_chars(digits.as_slice())
}

/// `n` in decimal digits, with a minus sign where it is negative.
pub fn show_i64(n: i64) -> (text: String)
    ensures
        text@ == decimal_int(n as int),
{
    if n < 0 {
        let size: u64 = if n == i64::MIN {
            0x8000_0000_0000_0000
        } else {
            (-n) as u64
        };
        let mut text: String = "-".to_owned();
        text.append(show_u64(size).as_str());
        proof {
            reveal_strlit("-");
        }
        assert("-"@ =~= seq!['-']);
        text
    } else {
        show_u64(n as u64)
    }
}

/// The two texts, one behind the other.
pub fn concat2(a: &str, b: &str) -> (whole: String)
    ensures
        whole@ == a@ + b@,
{
    let mut whole: String = a.to_owned();
    whole.append(b);
    whole
}

/// The three texts, one behind the other.
pub fn concat3(a: &str, b: &str, c: &str) -> (whole: String)
    ensures
        whole@ == a@ + b@ + c@,
{
    let mut whole: String = a.to_owned();
    whole.append(b);
    whole.append(c);
    whole
}

/// A decimal digit.
pub open spec fn is_digit(c: char) -> bool {
    '0' <= c <= '9'
}

/// The value of a row of decimal digits.
pub open spec fn digits_value(s: Seq<char>) -> nat
    decreases s.len(),
{
    if s.len() == 0 {
        0
    } else {
        10 * digits_value(s.drop_last()) + (s.last() as nat - '0' as nat) as nat
    }
}

/// What stands behind an optional sign.
pub open spec fn unsigned_part(s: Seq<char>) -> Seq<char> {
    if s.len() > 0 && (s[0] == '-' || s[0] == '+') {
        s.skip(1)
    } else {
        s
    }
}

/// The integer that a text writes out: an optional sign, then decimal digits and nothing else.
pub open spec fn written_int(s: Seq<char>) -> Option<int> {
    let digits = unsigned_part(s);
    if digits.len() > 0 && forall|i: int| 0 <= i < digits.len() ==> is_digit(#[trigger] digits[i]) {
        Some(
            if s[0] == '-' {
                -(digits_value(digits) as int)
            } else {
                digits_value(digits) as int
            },
        )
    } else {
        None
    }
}

/// The integer that a text writes out, where it fits in 32 bits.
pub fn parse_i32(text: &str) -> (n: Option<i32>)
    ensures
        match n {
            Some(v) => written_int(text@) == Some(v as int),
            None => written_int(text@) matches Some(v) ==> !(i32::MIN <= v <= i32::MAX),
        },
{
    let c: Vec<char> = to_chars(text);
    let signed: bool = c.len() > 0 && (c[0] == '-' || c[0] == '+');
    let from: usize = if signed {
        1
    } else {
        0
    };
    let ghost digits = unsigned_part(text@);
    assert(digits =~= c@.skip(from as int));
    if c.len() == from {
        return None;
    }
    let limit: i64 = 2_147_483_648;
    let mut value: i64 = 0;
    let mut over: bool = false;
    let mut i: usize = from;
    while i < c.len()
        invariant
            from <= i <= c@.len(),
            digits == c@.skip(from as int),
            digits == unsigned_part(text@),
            limit == 2_147_483_648,
            0 <= value <= limit,
            !over ==> value == digits_value(digits.take(i - from)),
            over ==> digits_value(digits.take(i - from)) > limit,
            forall|k: int| 0 <= k < i - from ==> is_digit(#[trigger] digits[k]),
        decreases c@.len() - i,
    {
        let d: char = c[i];
        assert(d == digits[i - from]);
        if !('0' <= d && d <= '9') {
            assert(!is_digit(digits[i - from]));
            return None;
        }
        assert(digits.take(i - from + 1).drop_last() =~= digits.take(i - from));
        assert(digits.take(i - from + 1).last() == d);
        if !over {
            value = value * 10 + (d as u32 - 48) as i64;
            if value > limit {
                over = true;
                value = 0;
            }
        }
        i += 1;
    }
    assert(digits.take(digits.len() as int) =~= digits);
    if over {
        None
    } else if signed && c[0] == '-' {
        Some((-value) as i32)
    } else if value < limit {
        Some(value as i32)
    } else {
        None
    }
}

// ---------------------------------------------------------------------------
// Writing lines and reading them back
// ---------------------------------------------------------------------------

/// The lines one after the other, each ended by a line feed.
pub open spec fn ended_lines(list: Seq<Seq<char>>) -> Seq<char>
    decreases list.len(),
{
    if list.len() == 0 {
        Seq::empty()
    } else {
        ended_lines(list.drop_last()) + list.last() + seq!['\n']
    }
}

/// The text is within one line.
pub open spec fn one_line(s: Seq<char>) -> bool {
    forall|i: int| 0 <= i < s.len() ==> s[i] != '\n'
}

/// Each text is within one line.
pub open spec fn all_one_line(list: Seq<Seq<char>>) -> bool {
    forall|i: int| 0 <= i < list.len() ==> one_line(#[trigger] list[i])
}

/// The lines without the carriage returns at their ends.
pub open spec fn without_crs(list: Seq<Seq<char>>) -> Seq<Seq<char>> {
    list.map_values(|s: Seq<char>| without_cr(s))
}

pub(crate) proof fn lemma_next_of(s: Seq<char>, c: char, from: int)
    requires
        0 <= from <= s.len(),
    ensures
        from <= next_of(s, c, from) <= s.len(),
        next_of(s, c, from) < s.len() ==> s[next_of(s, c, from)] == c,
        forall|i: int| from <= i < next_of(s, c, from) ==> s[i] != c,
    decreases s.len() - from,
{
    if from < s.len() && s[from] != c {
        lemma_next_of(s, c, from + 1);
    }
}

proof fn lemma_next_of_shift(a: Seq<char>, b: Seq<char>, c: char, k: int)
    requires
        0 <= k <= b.len(),
    ensures
        next_of(a + b, c, a.len() + k) == a.len() + next_of(b, c, k),
    decreases b.len() - k,
{
    if k < b.len() && b[k] != c {
        assert((a + b)[a.len() + k] == b[k]);
        lemma_next_of_shift(a, b, c, k + 1);
    } else if k < b.len() {
        assert((a + b)[a.len() + k] == b[k]);
    }
}

proof fn lemma_lines_shift(a: Seq<char>, b: Seq<char>, k: int)
    requires
        0 <= k <= b.len(),
    ensures
        lines_from(a + b, a.len() + k) == lines_from(b, k),
    decreases b.len() - k,
{
    if k < b.len() {
        lemma_next_of_shift(a, b, '\n', k);
        lemma_next_of(b, '\n', k);
        let end = next_of(b, '\n', k);
        assert((a + b).subrange(a.len() + k, a.len() + end) =~= b.subrange(k, end));
        if end < b.len() {
            lemma_lines_shift(a, b, end + 1);
        } else {
            assert((a + b).subrange(a.len() + k, (a + b).len() as int) =~= b.subrange(
                k,
                b.len() as int,
            ));
        }
    }
}

pub(crate) proof fn lemma_first_line(x: Seq<char>, t: Seq<char>)
    requires
        one_line(x),
    ensures
        line_list(x + seq!['\n'] + t) == seq![without_cr(x)] + line_list(t),
{
    let s = x + seq!['\n'] + t;
    lemma_next_of(s, '\n', 0);
    let end = next_of(s, '\n', 0);
    assert(s[x.len() as int] == '\n');
    if end < x.len() {
        assert(s[end] == x[end]);
    }
    assert(end == x.len());
    assert(s.subrange(0, end) =~= x);
    let a = x + seq!['\n'];
    assert(s =~= a + t);
    lemma_lines_shift(a, t, 0);
}

/// Lines that were written one after the other are read back, but for one carriage return at the
/// end of each.
pub proof fn ended_lines_are_read_back(list: Seq<Seq<char>>, t: Seq<char>)
    requires
        all_one_line(list),
    ensures
        line_list(ended_lines(list) + t) == without_crs(list) + line_list(t),
    decreases list.len(),
{
    if list.len() == 0 {
        assert(ended_lines(list) + t =~= t);
        assert(without_crs(list) + line_list(t) =~= line_list(t));
    } else {
        let rest = list.drop_last();
        let x = list.last();
        assert(all_one_line(rest)) by {
            assert forall|i: int| 0 <= i < rest.len() implies one_line(#[trigger] rest[i]) by {
                assert(one_line(list[i]));
            }
        }
        assert(one_line(list[list.len() - 1]));
        let tail = x + seq!['\n'] + t;
        assert(ended_lines(list) + t =~= ended_lines(rest) + tail);
        ended_lines_are_read_back(rest, tail);
        lemma_first_line(x, t);
        assert(without_crs(list) =~= without_crs(rest).push(without_cr(x)));
        assert(without_crs(rest) + (seq![without_cr(x)] + line_list(t)) =~= without_crs(list)
            + line_list(t));
    }
}

/// Lines that are joined by line feeds are lines that are each ended by one, but for the last.
pub(crate) proof fn lemma_joined_lines(list: Seq<Seq<char>>)
    requires
        list.len() > 0,
    ensures
        joined(list, seq!['\n']) == ended_lines(list.drop_last()) + list.last(),
    decreases list.len(),
{
    if list.len() == 1 {
        assert(ended_lines(list.drop_last()) + list.last() =~= list[0]);
    } else {
        let rest = list.drop_last();
        lemma_joined_lines(rest);
        assert(joined(list, seq!['\n']) =~= ended_lines(rest) + list.last());
    }
}

/// Lines that are joined by line feeds and ended by one are read back, but for one carriage return
/// at the end of each.
pub proof fn written_lines_are_read_back(list: Seq<Seq<char>>)
    requires
        list.len() > 0,
        all_one_line(list),
    ensures
        line_list(joined(list, seq!['\n']) + seq!['\n']) == without_crs(list),
{
    lemma_joined_lines(list);
    assert(joined(list, seq!['\n']) + seq!['\n'] =~= ended_lines(list) + Seq::<char>::empty());
    ended_lines_are_read_back(list, Seq::empty());
    assert(without_crs(list) + line_list(Seq::<char>::empty()) =~= without_crs(list));
}

proof fn lemma_lines_are_lines(s: Seq<char>, from: int)
    requires
        0 <= from,
    ensures
        all_one_line(lines_from(s, from)),
    decreases s.len() - from,
{
    if from < s.len() {
        lemma_next_of(s, '\n', from);
        let end = next_of(s, '\n', from);
        let all = lines_from(s, from);
        if end < s.len() {
            lemma_lines_are_lines(s, end + 1);
            let first = without_cr(s.subrange(from, end));
            let rest = lines_from(s, end + 1);
            assert forall|i: int| 0 <= i < all.len() implies one_line(#[trigger] all[i]) by {
                if i > 0 {
                    assert(all[i] == rest[i - 1]);
                } else {
                    assert(all[0] == first);
                    assert forall|k: int| 0 <= k < first.len() implies first[k] != '\n' by {
                        assert(first[k] == s[from + k]);
                    }
                }
            }
        } else {
            let only = s.subrange(from, s.len() as int);
            assert(all =~= seq![only]);
            assert forall|k: int| 0 <= k < only.len() implies only[k] != '\n' by {
                assert(only[k] == s[from + k]);
            }
        }
    }
}

/// No line feed stands in a line.
pub proof fn lines_are_lines(s: Seq<char>)
    ensures
        all_one_line(line_list(s)),
{
    lemma_lines_are_lines(s, 0);
}

proof fn lemma_trimmed_white_end(s: Seq<char>)
    requires
        s.len() > 0,
        white(s.last()),
    ensures
        trimmed(s) == trimmed(s.drop_last()),
    decreases s.len(),
{
    if white(s[0]) {
        if s.len() > 1 {
            lemma_trimmed_white_end(s.drop_first());
            assert(s.drop_first().drop_last() =~= s.drop_last().drop_first());
        } else {
            assert(s.drop_first() =~= s.drop_last());
            assert(trimmed_start(s) =~= trimmed_start(s.drop_last()));
        }
    }
}

/// A carriage return at the end of a line is white space like any other.
pub proof fn trimming_ignores_cr(s: Seq<char>)
    ensures
        trimmed(without_cr(s)) == trimmed(s),
{
    if s.len() > 0 && s.last() == '\r' {
        lemma_trimmed_white_end(s);
    }
}

/// A text without white space on either side is not trimmed.
pub(crate) proof fn lemma_trimmed_same(s: Seq<char>)
    requires
        s.len() > 0 ==> !white(s[0]) && !white(s.last()),
    ensures
        trimmed(s) == s,
{
}

// ---------------------------------------------------------------------------
// Replacing, and bytes
// ---------------------------------------------------------------------------

/// The first position from `from` on at which `part` stands in `s`.
pub open spec fn found_from(s: Seq<char>, part: Seq<char>, from: int) -> Option<int>
    decreases s.len() - from + 1,
{
    if from < 0 || from + part.len() > s.len() {
        None
    } else if stands_at(s, part, from) {
        Some(from)
    } else {
        found_from(s, part, from + 1)
    }
}

/// The text with the first `old` in it replaced by `new`.
pub open spec fn replaced_once(s: Seq<char>, old_part: Seq<char>, new_part: Seq<char>) -> Seq<char> {
    match found_from(s, old_part, 0) {
        Some(p) => s.take(p) + new_part + s.skip(p + old_part.len()),
        None => s,
    }
}

/// The first position at which `part` stands in `s`.
pub fn find_part(s: &Vec<char>, part: &Vec<char>) -> (at: Option<usize>)
    ensures
        match at {
            Some(p) => found_from(s@, part@, 0) == Some(p as int) && p + part@.len() <= s@.len(),
            None => found_from(s@, part@, 0) is None,
        },
{
    if part.len() > s.len() {
        return None;
    }
    let last: usize = s.len() - part.len();
    let mut i: usize = 0;
    while i <= last
        invariant
            last == s@.len() - part@.len(),
            part@.len() <= s@.len(),
            i <= last + 1,
            found_from(s@, part@, 0) == found_from(s@, part@, i as int),
        decreases last + 1 - i,
    {
        if part_at(s, part, i) {
            return Some(i);
        }
        if i == last {
            return None;
        }
        i += 1;
    }
    None
}

/// The text with the first `old_part` in it replaced by `new_part`.
pub fn replace_once(text: &str, old_part: &str, new_part: &str) -> (whole: String)
    ensures
        whole@ == replaced_once(text@, old_part@, new_part@),
{
    let c: Vec<char> = to_chars(text);
    let p: Vec<char> = to_chars(old_part);
    let size: usize = c.len();
    match find_part(&c, &p) {
        Some(at) => {
            let head: String = slice_text(&c, 0, at);
            let tail: String = slice_text(&c, at + p.len(), size);
            assert(c@.take(at as int) =~= c@.subrange(0, at as int));
            assert(c@.skip(at + p@.len()) =~= c@.subrange(at + p@.len(), c@.len() as int));
            concat3(head.as_str(), new_part, tail.as_str())
        },
        None => text.to_owned(),
    }
}

/// The text behind every `part` that it begins with.
pub open spec fn stripped(s: Seq<char>, part: Seq<char>) -> Seq<char>
    decreases s.len(),
{
    if part.len() > 0 && begins(s, part) {
        stripped(s.skip(part.len() as int), part)
    } else {
        s
    }
}

/// The text behind every `part` that it begins with.
pub fn trim_start_matches(text: &str, part: &str) -> (rest: String)
    ensures
        rest@ == stripped(text@, part@),
{
    let c: Vec<char> = to_chars(text);
    let p: Vec<char> = to_chars(part);
    let size: usize = c.len();
    let mut from: usize = 0;
    assert(c@.skip(0) =~= c@);
    while p.len() > 0 && part_at(&c, &p, from)
        invariant
            from <= c@.len(),
            c@ == text@,
            p@ == part@,
            size == c@.len(),
            stripped(text@, part@) == stripped(c@.skip(from as int), part@),
        decreases c@.len() - from,
    {
        assert(c@.skip(from as int).subrange(0, p@.len() as int) =~= c@.subrange(
            from as int,
            from + p@.len(),
        ));
        assert(c@.skip(from as int).skip(p@.len() as int) =~= c@.skip(from + p@.len()));
        from += p.len();
    }
    assert(!(p@.len() > 0 && begins(c@.skip(from as int), p@))) by {
        if p@.len() > 0 && begins(c@.skip(from as int), p@) {
            assert(c@.skip(from as int).subrange(0, p@.len() as int) =~= c@.subrange(
                from as int,
                from + p@.len(),
            ));
        }
    }
    assert(c@.skip(from as int) =~= c@.subrange(from as int, c@.len() as int));
    slice_text(&c, from, size)
}

/// What `String::from_utf8_lossy` makes of bytes.
pub uninterp spec fn lossy_text(bytes: Seq<u8>) -> Seq<char>;

/// `String::from_utf8_lossy`: the text that the bytes stand for in UTF-8; where they stand for
/// none, a text that depends on the bytes alone.
#[verifier::external_body]
pub(crate) fn from_utf8_lossy(bytes: &[u8]) -> (text: String)
    ensures
        text@ == lossy_text(bytes@),
        vstd::utf8::valid_utf8(bytes@) ==> text@ == vstd::utf8::decode_utf8(bytes@),
{
    String::from_utf8_lossy(bytes).into_owned()
}

pub(crate) proof fn lemma_found_from(s: Seq<char>, part: Seq<char>, from: int)
    requires
        0 <= from,
    ensures
        found_from(s, part, from) matches Some(p) ==> p >= from && stands_at(s, part, p),
        forall|at: int|
            from <= at && #[trigger] stands_at(s, part, at) ==> (found_from(
                s,
                part,
                from,
            ) matches Some(p) && p <= at),
    decreases s.len() - from + 1,
{
    if from + part.len() <= s.len() && !stands_at(s, part, from) {
        lemma_found_from(s, part, from + 1);
    }
}


/// The white characters, by their numbers in Unicode: the control characters from tab to carriage
/// return, the blank, and those that Unicode counts among them besides.
pub proof fn white_characters_have_their_numbers(c: char)
    ensures
        white(c) <==> ({
            let n = c as u32;
            ||| 9 <= n <= 13
            ||| n == 32
            ||| n == 133
            ||| n == 160
            ||| n == 5760
            ||| 8192 <= n <= 8202
            ||| n == 8232
            ||| n == 8233
            ||| n == 8239
            ||| n == 8287
            ||| n == 12288
        }),
{
}

/// A part occurs in a text just where the text is something, then the part, then something.
pub proof fn parts_stand_between_the_rest(whole: Seq<char>, part: Seq<char>)
    ensures
        occurs(whole, part) <==> exists|a: Seq<char>, b: Seq<char>|
            #![trigger a + part + b]
            whole == a + part + b,
{
    if occurs(whole, part) {
        let at = choose|at: int| #[trigger] stands_at(whole, part, at);
        let a = whole.take(at);
        let b = whole.skip(at + part.len());
        assert(whole =~= a + part + b);
    }
    if exists|a: Seq<char>, b: Seq<char>| #![trigger a + part + b] whole == a + part + b {
        let (a, b) = choose|a: Seq<char>, b: Seq<char>|
            #![trigger a + part + b]
            whole == a + part + b;
        assert(whole.subrange(a.len() as int, a.len() as int + part.len()) =~= part);
        assert(stands_at(whole, part, a.len() as int));
    }
}

/// A text begins with what it was made to begin with, and is then that and the rest.
pub proof fn beginnings_are_followed_by_the_rest(whole: Seq<char>, part: Seq<char>, rest: Seq<char>)
    ensures
        begins(part + rest, part),
        begins(whole, part) ==> whole == part + whole.skip(part.len() as int),
{
    assert((part + rest).subrange(0, 0 + part.len() as int) =~= part);
    if begins(whole, part) {
        assert(whole =~= part + whole.skip(part.len() as int));
    }
}

proof fn lemma_trimmed_start(a: Seq<char>, s: Seq<char>)
    requires
        forall|i: int| 0 <= i < a.len() ==> white(#[trigger] a[i]),
        s.len() > 0 ==> !white(s[0]),
    ensures
        trimmed_start(a + s) == s,
    decreases a.len(),
{
    if a.len() == 0 {
        assert(a + s =~= s);
    } else {
        let t = a.drop_first();
        assert forall|i: int| 0 <= i < t.len() implies white(#[trigger] t[i]) by {
            assert(t[i] == a[i + 1]);
        }
        lemma_trimmed_start(t, s);
        assert((a + s)[0] == a[0]);
        assert((a + s).drop_first() =~= t + s);
    }
}

proof fn lemma_trimmed_end(s: Seq<char>, b: Seq<char>)
    requires
        forall|i: int| 0 <= i < b.len() ==> white(#[trigger] b[i]),
        s.len() > 0 ==> !white(s.last()),
    ensures
        trimmed_end(s + b) == s,
    decreases b.len(),
{
    if b.len() == 0 {
        assert(s + b =~= s);
    } else {
        let t = b.drop_last();
        assert forall|i: int| 0 <= i < t.len() implies white(#[trigger] t[i]) by {
            assert(t[i] == b[i]);
        }
        lemma_trimmed_end(s, t);
        assert((s + b).last() == b[b.len() - 1]);
        assert((s + b).drop_last() =~= s + t);
    }
}

/// Trimming takes off the white space around a text, all of it, and nothing of the text.
pub proof fn trimming_takes_off_white_space_only(a: Seq<char>, s: Seq<char>, b: Seq<char>)
    requires
        forall|i: int| 0 <= i < a.len() ==> white(#[trigger] a[i]),
        forall|i: int| 0 <= i < b.len() ==> white(#[trigger] b[i]),
        s.len() > 0 ==> !white(s[0]) && !white(s.last()),
    ensures
        trimmed(a + s + b) == s,
{
    if s.len() > 0 {
        assert(a + s + b =~= a + (s + b));
        lemma_trimmed_start(a, s + b);
        lemma_trimmed_end(s, b);
    } else {
        assert(a + s + b =~= (a + b) + Seq::<char>::empty());
        lemma_trimmed_start(a + b, Seq::empty());
        assert(s =~= Seq::<char>::empty());
    }
}

/// Replacing puts the new part where the old one stands first, and keeps what is before and after;
/// without the old part the text stays as it is.
pub proof fn replacing_keeps_the_rest(
    a: Seq<char>,
    old_part: Seq<char>,
    b: Seq<char>,
    new_part: Seq<char>,
)
    requires
        forall|at: int|
            0 <= at < a.len() ==> !(#[trigger] stands_at(a + old_part + b, old_part, at)),
    ensures
        replaced_once(a + old_part + b, old_part, new_part) == a + new_part + b,
        !occurs(a, old_part) ==> replaced_once(a, old_part, new_part) == a,
{
    let s = a + old_part + b;
    lemma_found_from(s, old_part, 0);
    assert(s.subrange(a.len() as int, a.len() as int + old_part.len()) =~= old_part);
    assert(stands_at(s, old_part, a.len() as int));
    assert(found_from(s, old_part, 0) == Some(a.len() as int));
    assert(s.take(a.len() as int) =~= a);
    assert(s.skip(a.len() as int + old_part.len()) =~= b);
    lemma_found_from(a, old_part, 0);
}

/// Parts that are joined stand one after the other, each two with the separator between them:
/// joining in two halves and putting the separator between the halves is the same.
pub proof fn joining_goes_by_halves(x: Seq<Seq<char>>, y: Seq<Seq<char>>, sep: Seq<char>)
    requires
        x.len() > 0,
        y.len() > 0,
    ensures
        joined(x + y, sep) == joined(x, sep) + sep + joined(y, sep),
        x.len() == 1 ==> joined(x, sep) == x[0],
        joined(Seq::<Seq<char>>::empty(), sep).len() == 0,
    decreases y.len(),
{
    let all = x + y;
    assert(all.last() == y.last());
    if y.len() == 1 {
        assert(all.drop_last() =~= x);
        assert(joined(all, sep) =~= joined(x, sep) + sep + joined(y, sep));
    } else {
        let rest = y.drop_last();
        assert(all.drop_last() =~= x + rest);
        joining_goes_by_halves(x, rest, sep);
        assert(joined(all, sep) =~= joined(x, sep) + sep + joined(y, sep));
    }
}

/// A text in lower case has the same length, its ASCII capitals thirty-two numbers further on, and
/// every other character as it was.
pub proof fn lower_case_changes_capitals_only(s: Seq<char>, i: int)
    requires
        0 <= i < s.len(),
    ensures
        ascii_lowered(s).len() == s.len(),
        65 <= s[i] as u32 <= 90 ==> ascii_lowered(s)[i] as u32 == s[i] as u32 + 32,
        !(65 <= s[i] as u32 <= 90) ==> ascii_lowered(s)[i] == s[i],
        ascii_lowered(ascii_lowered(s))[i] == ascii_lowered(s)[i],
{
}

proof fn lemma_decimal(n: nat)
    ensures
        decimal(n).len() > 0,
        forall|i: int| 0 <= i < decimal(n).len() ==> '0' <= #[trigger] decimal(n)[i] <= '9',
        digits_value(decimal(n)) == n,
        n > 0 ==> decimal(n)[0] != '0',
    decreases n,
{
    if n < 10 {
        let d = decimal(n);
        assert(d.drop_last() =~= Seq::<char>::empty());
        assert(digits_value(d) == 10 * digits_value(d.drop_last()) + (d.last() as nat - '0' as nat)
            as nat);
    } else {
        lemma_decimal(n / 10);
        let d = decimal(n);
        assert(d.drop_last() =~= decimal(n / 10));
        assert(d.last() as nat == 48 + n % 10);
        assert forall|i: int| 0 <= i < d.len() implies '0' <= #[trigger] d[i] <= '9' by {
            if i < d.len() - 1 {
                assert(d[i] == decimal(n / 10)[i]);
            }
        }
    }
}

/// A number in decimal digits is read back as that number; it has digits only, but for the minus
/// sign of a negative one, and none to spare.
pub proof fn decimals_are_read_back(n: int)
    ensures
        written_int(decimal_int(n)) == Some(n),
        n >= 0 ==> forall|i: int|
            0 <= i < decimal_int(n).len() ==> '0' <= #[trigger] decimal_int(n)[i] <= '9',
        n > 0 ==> decimal_int(n)[0] != '0',
        n < 0 ==> decimal_int(n)[0] == '-' && decimal_int(n)[1] != '0',
{
    if n < 0 {
        lemma_decimal((-n) as nat);
        assert(decimal_int(n).skip(1) =~= decimal((-n) as nat));
        let digits = unsigned_part(decimal_int(n));
        assert forall|i: int| 0 <= i < digits.len() implies is_digit(#[trigger] digits[i]) by {
            assert('0' <= decimal((-n) as nat)[i] <= '9');
        }
    } else {
        lemma_decimal(n as nat);
        let d = decimal(n as nat);
        assert('0' <= d[0] <= '9');
        assert forall|i: int| 0 <= i < d.len() implies is_digit(#[trigger] d[i]) by {
            assert('0' <= d[i] <= '9');
        }
    }
}

/// A number is read from digits alone, behind one sign at most: a plus sign changes nothing, a
/// minus sign the sign, and one digit more is ten times the number and the digit.
pub proof fn numbers_are_read_digit_by_digit(s: Seq<char>, c: char)
    requires
        s.len() > 0,
        forall|i: int| 0 <= i < s.len() ==> '0' <= #[trigger] s[i] <= '9',
    ensures
        written_int(s) is Some,
        written_int(seq!['+'] + s) == written_int(s),
        written_int(seq!['-'] + s) == Some(-(written_int(s)->0)),
        '0' <= c <= '9' ==> written_int(s.push(c)) == Some(
            10 * written_int(s)->0 + (c as u32 - 48),
        ),
        !('0' <= c <= '9') ==> written_int(s.push(c)) is None,
        written_int(Seq::<char>::empty()) is None,
{
    assert(is_digit(s[0]));
    assert(unsigned_part(s) == s);
    assert((seq!['+'] + s).skip(1) =~= s);
    assert((seq!['-'] + s).skip(1) =~= s);
    assert(forall|i: int| 0 <= i < s.len() ==> is_digit(#[trigger] s[i]));
    let t = s.push(c);
    assert(t[0] == s[0]);
    assert(unsigned_part(t) == t);
    assert(t.drop_last() =~= s);
    if '0' <= c <= '9' {
        assert forall|i: int| 0 <= i < t.len() implies is_digit(#[trigger] t[i]) by {
            if i < s.len() {
                assert(t[i] == s[i]);
            }
        }
    } else {
        assert(!is_digit(t[t.len() - 1]));
    }
}

/// What a text begins with is taken off as often as it stands there, and nothing else.
pub proof fn stripping_takes_off_the_beginning_only(part: Seq<char>, rest: Seq<char>)
    requires
        part.len() > 0,
    ensures
        stripped(part + rest, part) == stripped(rest, part),
        !begins(rest, part) ==> stripped(rest, part) == rest,
        !begins(stripped(rest, part), part),
    decreases rest.len(),
{
    assert((part + rest).subrange(0, 0 + part.len() as int) =~= part);
    assert((part + rest).skip(part.len() as int) =~= rest);
    if begins(rest, part) {
        stripping_takes_off_the_beginning_only(part, rest.skip(part.len() as int));
    }
}

proof fn lemma_next_white_shift(a: Seq<char>, b: Seq<char>, wanted: bool, k: int)
    requires
        0 <= k <= b.len(),
    ensures
        next_white(a + b, wanted, a.len() + k) == a.len() + next_white(b, wanted, k),
    decreases b.len() - k,
{
    if k < b.len() {
        assert((a + b)[a.len() + k] == b[k]);
        if white(b[k]) != wanted {
            lemma_next_white_shift(a, b, wanted, k + 1);
        }
    }
}

proof fn lemma_words_shift(a: Seq<char>, b: Seq<char>, k: int)
    requires
        0 <= k <= b.len(),
    ensures
        words_from(a + b, a.len() + k) == words_from(b, k),
    decreases b.len() - k,
{
    lemma_next_white_shift(a, b, false, k);
    lemma_next_white(b, false, k);
    let start = next_white(b, false, k);
    lemma_next_white_shift(a, b, true, start);
    lemma_next_white(b, true, start);
    let end = next_white(b, true, start);
    if start < end {
        assert((a + b).subrange(a.len() + start, a.len() + end) =~= b.subrange(start, end));
        lemma_words_shift(a, b, end);
    }
}

/// The words of a text stand between white space: white space before the first word counts for
/// nothing, and behind a word the words of the rest follow.
pub proof fn words_stand_between_white_space(w: Seq<char>, c: char, rest: Seq<char>)
    requires
        w.len() > 0,
        forall|i: int| 0 <= i < w.len() ==> !white(#[trigger] w[i]),
        white(c),
    ensures
        word_list(w) == seq![w],
        word_list(w + seq![c] + rest) == seq![w] + word_list(rest),
        word_list(seq![c] + rest) == word_list(rest),
        word_list(Seq::<char>::empty()).len() == 0,
{
    // a word alone
    lemma_next_white(w, false, 0);
    lemma_next_white(w, true, 0);
    let n = w.len() as int;
    assert(next_white(w, false, 0) == 0) by {
        assert(!white(w[0]));
    }
    assert(next_white(w, true, 0) == n) by {
        let e = next_white(w, true, 0);
        if e < n {
            assert(!white(w[e]));
        }
    }
    assert(w.subrange(0, n) =~= w);
    assert(words_from(w, n) =~= Seq::<Seq<char>>::empty());
    assert(word_list(w) =~= seq![w]);
    // white space first
    let one = seq![c];
    let s = one + rest;
    assert(s[0] == c);
    assert(next_white(s, false, 0) == next_white(s, false, 1));
    lemma_next_white(s, false, 1);
    lemma_words_shift(one, rest, 0);
    assert(words_from(s, 0) =~= words_from(s, 1));
    // a word, then the rest
    let t = w + s;
    assert(w + seq![c] + rest =~= t);
    assert(t[0] == w[0]);
    assert(next_white(t, false, 0) == 0);
    lemma_next_white(t, true, 0);
    let e = next_white(t, true, 0);
    assert(t[n] == c);
    if e < n {
        assert(t[e] == w[e]);
    }
    assert(e == n);
    assert(t.subrange(0, n) =~= w);
    lemma_words_shift(w, s, 0);
    assert(word_list(t) =~= seq![w] + word_list(rest));
}

} // verus!
