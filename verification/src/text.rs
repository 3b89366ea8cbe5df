//! Text as sequences of characters: trimming, splitting, joining, ordering
//! and decimal numerals, each with an exact meaning on `Seq<char>`.

use vstd::prelude::*;
use vstd::string::*;

verus! {

/// `String::push` appends the character to the end of the string.
pub assume_specification[ String::push ](s: &mut String, c: char)
    ensures
        final(s)@ == old(s)@.push(c),
;

// ---------------------------------------------------------------------------
// Meaning
// ---------------------------------------------------------------------------

/// Unicode's `White_Space` property.
pub open spec fn whitespace(c: char) -> bool {
    ||| 0x09 <= c as u32 <= 0x0d
    ||| c as u32 == 0x20
    ||| c as u32 == 0x85
    ||| c as u32 == 0xa0
    ||| c as u32 == 0x1680
    ||| 0x2000 <= c as u32 <= 0x200a
    ||| c as u32 == 0x2028
    ||| c as u32 == 0x2029
    ||| c as u32 == 0x202f
    ||| c as u32 == 0x205f
    ||| c as u32 == 0x3000
}

/// `s` without its leading white space.
pub open spec fn trim_start(s: Seq<char>) -> Seq<char>
    decreases s.len(),
{
    if s.len() > 0 && whitespace(s[0]) {
        trim_start(s.drop_first())
    } else {
        s
    }
}

/// `s` without its trailing white space.
pub open spec fn trim_end(s: Seq<char>) -> Seq<char>
    decreases s.len(),
{
    if s.len() > 0 && whitespace(s.last()) {
        trim_end(s.drop_last())
    } else {
        s
    }
}

/// `s` without leading and trailing white space.
pub open spec fn trimmed(s: Seq<char>) -> Seq<char> {
    trim_end(trim_start(s))
}

/// The index of the first `c` in `s`, or the length of `s` where it has none.
pub open spec fn first_index(s: Seq<char>, c: char) -> int
    decreases s.len(),
{
    if s.len() == 0 || s[0] == c {
        0
    } else {
        1 + first_index(s.drop_first(), c)
    }
}

/// What comes before the first `c`: all of `s` where it has none.
pub open spec fn before_first(s: Seq<char>, c: char) -> Seq<char> {
    s.take(first_index(s, c))
}

/// What comes after the first `c` of an `s` that has one.
pub open spec fn after_first(s: Seq<char>, c: char) -> Seq<char> {
    s.skip(first_index(s, c) + 1)
}

/// What comes after the last `c`: all of `s` where it has none.
pub open spec fn after_last(s: Seq<char>, c: char) -> Seq<char>
    decreases s.len(),
{
    if s.contains(c) {
        proof {
            lemma_first_index(s, c);
        }
        after_last(after_first(s, c), c)
    } else {
        s
    }
}

/// The two sides of the first `c`, where there is one.
pub open spec fn halves(s: Seq<char>, c: char) -> Option<(Seq<char>, Seq<char>)> {
    if s.contains(c) {
        Some((before_first(s, c), after_first(s, c)))
    } else {
        None
    }
}

/// The pieces of `s` between the `c`s: one more piece than there are `c`s.
pub open spec fn pieces(s: Seq<char>, c: char) -> Seq<Seq<char>>
    decreases s.len(),
{
    if s.contains(c) {
        proof {
            lemma_first_index(s, c);
        }
        seq![before_first(s, c)] + pieces(after_first(s, c), c)
    } else {
        seq![s]
    }
}

/// A line without the carriage return of a CRLF line ending.
pub open spec fn without_cr(line: Seq<char>) -> Seq<char> {
    if line.len() > 0 && line.last() == '\r' {
        line.drop_last()
    } else {
        line
    }
}

/// The lines of `s`.  A line ends with LF or CRLF, which is not part of it;
/// the ending of the last line is optional.
pub open spec fn lines_of(s: Seq<char>) -> Seq<Seq<char>>
    decreases s.len(),
{
    if s.len() == 0 {
        Seq::empty()
    } else if s.contains('\n') {
        proof {
            lemma_first_index(s, '\n');
        }
        seq![without_cr(before_first(s, '\n'))] + lines_of(after_first(s, '\n'))
    } else {
        seq![s]
    }
}

/// The lines, each ended by a line feed.
pub open spec fn terminated(lines: Seq<Seq<char>>) -> Seq<char>
    decreases lines.len(),
{
    if lines.len() == 0 {
        Seq::empty()
    } else {
        terminated(lines.drop_last()) + lines.last() + seq!['\n']
    }
}

/// Whether a text can be a line: it holds no line feed, and does not end in a
/// carriage return.
pub open spec fn is_line(s: Seq<char>) -> bool {
    !s.contains('\n') && without_cr(s) == s
}

/// What follows the prefix `p`, where `s` starts with it.
pub open spec fn stripped_prefix(s: Seq<char>, p: Seq<char>) -> Option<Seq<char>> {
    if p.is_prefix_of(s) {
        Some(s.skip(p.len() as int))
    } else {
        None
    }
}

/// What precedes the suffix `p`, where `s` ends with it.
pub open spec fn stripped_suffix(s: Seq<char>, p: Seq<char>) -> Option<Seq<char>> {
    if p.is_suffix_of(s) {
        Some(s.take(s.len() - p.len()))
    } else {
        None
    }
}

/// What comes before the first occurrence of `p`: all of `s` where it has none.
pub open spec fn before_text(s: Seq<char>, p: Seq<char>) -> Seq<char>
    decreases s.len(),
{
    if s.len() == 0 || p.is_prefix_of(s) {
        Seq::empty()
    } else {
        seq![s[0]] + before_text(s.drop_first(), p)
    }
}

/// Whether a word (a longest run without white space) starts at `i`.
pub open spec fn word_starts(s: Seq<char>, i: int) -> bool {
    !whitespace(s[i]) && (i == 0 || whitespace(s[i - 1]))
}

/// The number of words of `s`.
pub open spec fn word_count(s: Seq<char>) -> nat
    decreases s.len(),
{
    if s.len() == 0 {
        0
    } else {
        word_count(s.drop_last()) + if word_starts(s, s.len() - 1) { 1nat } else { 0 }
    }
}

/// The texts `parts`, with `sep` between each two.
pub open spec fn joined(parts: Seq<Seq<char>>, sep: Seq<char>) -> Seq<char>
    decreases parts.len(),
{
    if parts.len() == 0 {
        Seq::empty()
    } else if parts.len() == 1 {
        parts[0]
    } else {
        joined(parts.drop_last(), sep) + sep + parts.last()
    }
}

/// The texts that the strings of a vector hold.
pub open spec fn texts(v: Seq<String>) -> Seq<Seq<char>> {
    v.map_values(|s: String| s@)
}

/// The text that an optional string holds.
pub open spec fn text_opt(s: Option<String>) -> Option<Seq<char>> {
    match s {
        Some(s) => Some(s@),
        None => None,
    }
}

/// The text that an optional string slice holds.
pub open spec fn str_opt(s: Option<&str>) -> Option<Seq<char>> {
    match s {
        Some(s) => Some(s@),
        None => None,
    }
}

/// The character of a decimal digit.
pub open spec fn digit_char(d: int) -> char {
    (0x30 + d) as char
}

/// Whether `c` is one of the ten ASCII digits.
pub open spec fn is_digit(c: char) -> bool {
    '0' <= c && c <= '9'
}

/// The decimal numeral of a number that is not negative.
pub open spec fn numeral(n: nat) -> Seq<char>
    decreases n,
{
    if n < 10 {
        seq![digit_char(n as int)]
    } else {
        numeral(n / 10).push(digit_char((n % 10) as int))
    }
}

/// The decimal numeral of a number, with a minus sign where it is negative.
pub open spec fn decimal(n: int) -> Seq<char> {
    if n < 0 {
        seq!['-'] + numeral((-n) as nat)
    } else {
        numeral(n as nat)
    }
}

/// The number that a row of decimal digits stands for.
pub open spec fn digits_value(s: Seq<char>) -> nat
    decreases s.len(),
{
    if s.len() == 0 {
        0
    } else {
        digits_value(s.drop_last()) * 10 + (s.last() as u32 - 0x30) as nat
    }
}

/// Whether `s` is one or more decimal digits.
pub open spec fn all_digits(s: Seq<char>) -> bool {
    s.len() > 0 && forall|i: int| 0 <= i < s.len() ==> is_digit(#[trigger] s[i])
}

/// `s` without the plus sign that may stand before an unsigned number.
pub open spec fn unsigned_part(s: Seq<char>) -> Seq<char> {
    if s.len() > 0 && s[0] == '+' {
        s.drop_first()
    } else {
        s
    }
}

/// The number that `s` denotes: decimal digits, after an optional plus sign,
/// whose value is below 2^64.
pub open spec fn parsed_u64(s: Seq<char>) -> Option<u64> {
    let t = unsigned_part(s);
    if all_digits(t) && digits_value(t) <= u64::MAX {
        Some(digits_value(t) as u64)
    } else {
        None
    }
}

/// An ASCII letter in lower case; any other character as it is.
pub open spec fn lower(c: char) -> char {
    if 'A' <= c && c <= 'Z' {
        (c as u32 + 0x20) as char
    } else {
        c
    }
}

/// The order of texts: that of the first characters in which they differ,
/// and a proper prefix before what it is a prefix of.
pub open spec fn text_lt(a: Seq<char>, b: Seq<char>) -> bool
    decreases a.len(),
{
    if b.len() == 0 {
        false
    } else if a.len() == 0 {
        true
    } else if a[0] != b[0] {
        a[0] < b[0]
    } else {
        text_lt(a.drop_first(), b.drop_first())
    }
}

// ---------------------------------------------------------------------------
// Facts
// ---------------------------------------------------------------------------

/// `first_index` is the least index at which `c` stands.
pub proof fn lemma_first_index(s: Seq<char>, c: char)
    ensures
        0 <= first_index(s, c) <= s.len(),
        s.contains(c) <==> first_index(s, c) < s.len(),
        s.contains(c) ==> s[first_index(s, c)] == c,
        forall|j: int| 0 <= j < first_index(s, c) ==> s[j] != c,
    decreases s.len(),
{
    if s.len() == 0 || s[0] == c {
        if s.len() > 0 {
            assert(s.contains(s[0]));
        }
    } else {
        let t = s.drop_first();
        lemma_first_index(t, c);
        if s.contains(c) {
            let k = choose|k: int| 0 <= k < s.len() && s[k] == c;
            assert(t[k - 1] == c);
        }
        if t.contains(c) {
            let k = choose|k: int| 0 <= k < t.len() && t[k] == c;
            assert(s[k + 1] == c);
        }
        assert forall|j: int| 0 <= j < first_index(s, c) implies s[j] != c by {
            if j > 0 {
                assert(t[j - 1] != c);
            }
        }
    }
}

/// An index before which there is no `c`, and at which `c` stands or `s`
/// ends, is the first index.
pub proof fn lemma_first_index_is(s: Seq<char>, c: char, i: int)
    requires
        0 <= i <= s.len(),
        forall|j: int| 0 <= j < i ==> s[j] != c,
        i < s.len() ==> s[i] == c,
    ensures
        first_index(s, c) == i,
        s.contains(c) <==> i < s.len(),
{
    lemma_first_index(s, c);
    if first_index(s, c) < i {
        assert(s[first_index(s, c)] != c);
    }
}

/// A text has at least one piece.
pub proof fn lemma_pieces_len(s: Seq<char>, c: char)
    ensures
        pieces(s, c).len() > 0,
{
}

/// The pieces of two texts with a `c` between them are those of the one and of
/// the other.
pub proof fn lemma_pieces_apart(a: Seq<char>, c: char, b: Seq<char>)
    ensures
        pieces(a + seq![c] + b, c) == pieces(a, c) + pieces(b, c),
    decreases a.len(),
{
    let s = a + seq![c] + b;
    lemma_first_index(a, c);
    let i = first_index(a, c);
    assert forall|j: int| 0 <= j < i implies s[j] != c by {
        assert(s[j] == a[j]);
    }
    assert(s[i] == c);
    lemma_first_index_is(s, c, i);
    assert(s.take(i) =~= a.take(i));
    if a.contains(c) {
        let rest = after_first(a, c);
        assert(s.skip(i + 1) =~= rest + seq![c] + b);
        lemma_pieces_apart(rest, c, b);
        assert(pieces(s, c) =~= pieces(a, c) + pieces(b, c));
    } else {
        assert(a.take(i) =~= a);
        assert(s.skip(i + 1) =~= b);
    }
}

/// What was trimmed at the end does not end in white space, and is a prefix.
pub proof fn lemma_trim_end(s: Seq<char>)
    ensures
        trim_end(s).len() <= s.len(),
        trim_end(s) == s.take(trim_end(s).len() as int),
        trim_end(s).len() > 0 ==> !whitespace(trim_end(s).last()),
        trim_end(s).len() > 0 ==> trim_end(s)[0] == s[0],
        trim_end(trim_end(s)) == trim_end(s),
    decreases s.len(),
{
    if s.len() > 0 && whitespace(s.last()) {
        lemma_trim_end(s.drop_last());
        assert(s.drop_last().take(trim_end(s).len() as int) =~= s.take(trim_end(s).len() as int));
    } else {
        assert(s.take(s.len() as int) =~= s);
    }
}

/// What was trimmed at the start does not start with white space.
pub proof fn lemma_trim_start(s: Seq<char>)
    ensures
        trim_start(s).len() <= s.len(),
        trim_start(s) == s.skip(s.len() - trim_start(s).len()),
        trim_start(s).len() > 0 ==> !whitespace(trim_start(s)[0]),
    decreases s.len(),
{
    if s.len() > 0 && whitespace(s[0]) {
        lemma_trim_start(s.drop_first());
        assert(s.drop_first().skip(s.drop_first().len() - trim_start(s).len()) =~= s.skip(
            s.len() - trim_start(s).len(),
        ));
    } else {
        assert(s.skip(0) =~= s);
    }
}

/// A trimmed text neither starts nor ends with white space, and trimming it
/// again changes nothing.
pub proof fn lemma_trimmed(s: Seq<char>)
    ensures
        trimmed(s).len() > 0 ==> !whitespace(trimmed(s)[0]) && !whitespace(trimmed(s).last()),
        trimmed(trimmed(s)) == trimmed(s),
{
    lemma_trim_start(s);
    lemma_trim_end(trim_start(s));
}

/// A text that neither starts nor ends with white space is trimmed already.
pub proof fn lemma_trimmed_is(s: Seq<char>)
    requires
        s.len() > 0 ==> !whitespace(s[0]) && !whitespace(s.last()),
    ensures
        trimmed(s) == s,
{
}

/// White space around a text is trimmed away.
pub proof fn lemma_trimmed_padding(left: Seq<char>, s: Seq<char>, right: Seq<char>)
    requires
        forall|i: int| 0 <= i < left.len() ==> whitespace(#[trigger] left[i]),
        forall|i: int| 0 <= i < right.len() ==> whitespace(#[trigger] right[i]),
    ensures
        trimmed(left + s + right) == trimmed(s),
    decreases left.len() + right.len(),
{
    let all = left + s + right;
    if left.len() > 0 {
        assert(all[0] == left[0]);
        assert(all.drop_first() =~= left.drop_first() + s + right);
        assert forall|i: int| 0 <= i < left.drop_first().len() implies whitespace(
            #[trigger] left.drop_first()[i],
        ) by {
            assert(whitespace(left[i + 1]));
        }
        lemma_trimmed_padding(left.drop_first(), s, right);
    } else if right.len() > 0 {
        let less = left + s + right.drop_last();
        assert(all.drop_last() =~= less);
        assert forall|i: int| 0 <= i < right.drop_last().len() implies whitespace(
            #[trigger] right.drop_last()[i],
        ) by {
            assert(whitespace(right[i]));
        }
        lemma_trimmed_padding(left, s, right.drop_last());
        lemma_trimmed_last(all);
    } else {
        assert(all =~= s);
    }
}

/// A last character that is white space makes no difference to trimming.
proof fn lemma_trimmed_last(s: Seq<char>)
    requires
        s.len() > 0,
        whitespace(s.last()),
    ensures
        trimmed(s) == trimmed(s.drop_last()),
    decreases s.len(),
{
    if whitespace(s[0]) {
        if s.len() == 1 {
            assert(s.drop_first() =~= s.drop_last());
        } else {
            lemma_trimmed_last(s.drop_first());
            assert(s.drop_first().drop_last() =~= s.drop_last().drop_first());
        }
    }
}

/// A text that holds anything but white space is not trimmed away.
pub proof fn lemma_trimmed_keeps(s: Seq<char>, i: int)
    requires
        0 <= i < s.len(),
        !whitespace(s[i]),
    ensures
        trimmed(s).len() > 0,
    decreases s.len(),
{
    if whitespace(s[0]) {
        assert(s.drop_first()[i - 1] == s[i]);
        lemma_trimmed_keeps(s.drop_first(), i - 1);
    } else {
        lemma_trim_end_keeps(s, i);
    }
}

/// A text that holds anything but white space is not trimmed away at its end.
proof fn lemma_trim_end_keeps(s: Seq<char>, i: int)
    requires
        0 <= i < s.len(),
        !whitespace(s[i]),
    ensures
        trim_end(s).len() > 0,
    decreases s.len(),
{
    if whitespace(s.last()) {
        assert(s.drop_last()[i] == s[i]);
        lemma_trim_end_keeps(s.drop_last(), i);
    }
}

/// A white space character between two texts separates their words.
pub proof fn lemma_word_count_apart(a: Seq<char>, c: char, b: Seq<char>)
    requires
        whitespace(c),
    ensures
        word_count(a + seq![c] + b) == word_count(a) + word_count(b),
    decreases b.len(),
{
    let s = a + seq![c] + b;
    if b.len() == 0 {
        assert(s.drop_last() =~= a);
    } else {
        assert(s.drop_last() =~= a + seq![c] + b.drop_last());
        lemma_word_count_apart(a, c, b.drop_last());
        assert(s.last() == b.last());
        if b.len() > 1 {
            assert(s[s.len() - 2] == b[b.len() - 2]);
        } else {
            assert(s[s.len() - 2] == c);
        }
    }
}

/// A numeral is a row of digits that stands for its number.
pub proof fn lemma_numeral(n: nat)
    ensures
        all_digits(numeral(n)),
        digits_value(numeral(n)) == n,
    decreases n,
{
    let d = (n % 10) as int;
    let last = digit_char(d);
    assert(last as u32 == 0x30 + d);
    if n < 10 {
        assert(numeral(n).drop_last() =~= Seq::<char>::empty());
        assert(digits_value(numeral(n).drop_last()) == 0);
    } else {
        lemma_numeral(n / 10);
        assert(numeral(n).drop_last() =~= numeral(n / 10));
        assert forall|i: int| 0 <= i < numeral(n).len() implies is_digit(
            #[trigger] numeral(n)[i],
        ) by {
            if i < numeral(n / 10).len() {
                assert(numeral(n)[i] == numeral(n / 10)[i]);
            }
        }
    }
}

/// What comes before a pattern that first occurs behind `a`.
pub proof fn lemma_before_text(a: Seq<char>, b: Seq<char>, p: Seq<char>)
    requires
        b.len() == 0 || p.is_prefix_of(b),
        forall|i: int| 0 <= i < a.len() ==> !p.is_prefix_of(#[trigger] (a + b).skip(i)),
    ensures
        before_text(a + b, p) == a,
    decreases a.len(),
{
    let s = a + b;
    if a.len() == 0 {
        assert(s =~= b);
        assert(before_text(s, p) =~= a);
    } else {
        let rest = a.drop_first();
        assert(s.skip(0) =~= s);
        assert(!p.is_prefix_of(s.skip(0)));
        assert(s.drop_first() =~= rest + b);
        assert forall|i: int| 0 <= i < rest.len() implies !p.is_prefix_of(
            #[trigger] (rest + b).skip(i),
        ) by {
            assert((rest + b).skip(i) =~= s.skip(i + 1));
        }
        lemma_before_text(rest, b, p);
        assert(seq![s[0]] + rest =~= a);
    }
}

/// A first line can be split off.
proof fn lemma_terminated_first(lines: Seq<Seq<char>>)
    requires
        lines.len() > 0,
    ensures
        terminated(lines) == lines[0] + seq!['\n'] + terminated(lines.drop_first()),
    decreases lines.len(),
{
    if lines.len() == 1 {
        assert(lines.drop_last() =~= Seq::empty());
        assert(lines.drop_first() =~= Seq::empty());
        assert(terminated(lines) =~= lines[0] + seq!['\n'] + terminated(lines.drop_first()));
    } else {
        lemma_terminated_first(lines.drop_last());
        assert(lines.drop_last().drop_first() =~= lines.drop_first().drop_last());
        assert(lines.drop_last()[0] == lines[0]);
        assert(lines.drop_first().last() == lines.last());
        assert(terminated(lines) =~= lines[0] + seq!['\n'] + terminated(lines.drop_first()));
    }
}

/// What is written as lines is read as these lines.
pub proof fn lemma_lines_of_terminated(lines: Seq<Seq<char>>)
    requires
        forall|i: int| 0 <= i < lines.len() ==> is_line(#[trigger] lines[i]),
    ensures
        lines_of(terminated(lines)) == lines,
    decreases lines.len(),
{
    if lines.len() == 0 {
        assert(lines_of(terminated(lines)) =~= lines);
    } else {
        let rest = lines.drop_first();
        let text = terminated(lines);
        let n = lines[0].len() as int;
        lemma_terminated_first(lines);
        assert(is_line(lines[0]));
        assert forall|j: int| 0 <= j < n implies text[j] != '\n' by {
            assert(text[j] == lines[0][j]);
            assert(lines[0].contains(lines[0][j]));
        }
        assert(text[n] == '\n');
        lemma_first_index_is(text, '\n', n);
        assert(text.take(n) =~= lines[0]);
        assert(text.skip(n + 1) =~= terminated(rest));
        assert forall|i: int| 0 <= i < rest.len() implies is_line(#[trigger] rest[i]) by {
            assert(rest[i] == lines[i + 1]);
        }
        lemma_lines_of_terminated(rest);
        assert(seq![lines[0]] + rest =~= lines);
    }
}

/// No text comes before itself.
pub proof fn lemma_text_lt_irreflexive(a: Seq<char>)
    ensures
        !text_lt(a, a),
    decreases a.len(),
{
    if a.len() > 0 {
        lemma_text_lt_irreflexive(a.drop_first());
    }
}

/// The order of texts is transitive.
pub proof fn lemma_text_lt_transitive(a: Seq<char>, b: Seq<char>, c: Seq<char>)
    requires
        text_lt(a, b),
        text_lt(b, c),
    ensures
        text_lt(a, c),
    decreases a.len(),
{
    if a.len() > 0 && b.len() > 0 && c.len() > 0 && a[0] == b[0] && b[0] == c[0] {
        lemma_text_lt_transitive(a.drop_first(), b.drop_first(), c.drop_first());
    }
}

/// Of two different texts one comes before the other.
pub proof fn lemma_text_lt_total(a: Seq<char>, b: Seq<char>)
    ensures
        a == b || text_lt(a, b) || text_lt(b, a),
    decreases a.len(),
{
    if a.len() > 0 && b.len() > 0 && a[0] == b[0] {
        lemma_text_lt_total(a.drop_first(), b.drop_first());
        if a.drop_first() == b.drop_first() {
            assert(a =~= seq![a[0]] + a.drop_first());
            assert(b =~= seq![b[0]] + b.drop_first());
        }
    } else if a.len() == 0 && b.len() == 0 {
        assert(a =~= b);
    }
}

/// Two texts do not come each before the other.
pub proof fn lemma_text_lt_asymmetric(a: Seq<char>, b: Seq<char>)
    requires
        text_lt(a, b),
    ensures
        !text_lt(b, a),
        a != b,
{
    if text_lt(b, a) {
        lemma_text_lt_transitive(a, b, a);
    }
    lemma_text_lt_irreflexive(a);
}

// ---------------------------------------------------------------------------
// Functions
// ---------------------------------------------------------------------------

/// Whether `c` is white space.
pub fn is_whitespace(c: char) -> (r: bool)
    ensures
        r == whitespace(c),
{
    let n: u32 = c as u32;
    (0x09 <= n && n <= 0x0d) || n == 0x20 || n == 0x85 || n == 0xa0 || n == 0x1680 || (0x2000 <= n
        && n <= 0x200a) || n == 0x2028 || n == 0x2029 || n == 0x202f || n == 0x205f || n == 0x3000
}

/// The characters of `s`, in order.
pub fn chars_of(s: &str) -> (v: Vec<char>)
    ensures
        v@ == s@,
{
    let mut v: Vec<char> = Vec::new();
    for c in it: s.chars()
        invariant
            it.seq() == s@,
            v@ == s@.take(it.index() as int),
    {
        v.push(c);
        assert(s@.take(it.index() as int + 1) =~= s@.take(it.index() as int).push(c));
    }
    assert(s@.take(s@.len() as int) =~= s@);
    v
}

/// Whether `a` and `b` hold the same characters.
pub fn same(a: &str, b: &str) -> (r: bool)
    ensures
        r == (a@ == b@),
{
    a.to_owned() == b.to_owned()
}

/// `s` without leading and trailing white space.
pub fn trim<'a>(s: &'a str) -> (r: &'a str)
    ensures
        r@ == trimmed(s@),
{
    let v = chars_of(s);
    let n: usize = v.len();
    let mut i: usize = 0;
    assert(s@.skip(0) =~= s@);
    while i < n && is_whitespace(v[i])
        invariant
            n == v.len(),
            v@ == s@,
            i <= n,
            trim_start(s@) == trim_start(s@.skip(i as int)),
        decreases n - i,
    {
        assert(s@.skip(i as int).drop_first() =~= s@.skip(i + 1));
        i = i + 1;
    }
    let ghost t = s@.skip(i as int);
    assert(trim_start(s@) == t);
    let mut j: usize = n;
    assert(t.take(t.len() as int) =~= t);
    while j > i && is_whitespace(v[j - 1])
        invariant
            n == v.len(),
            v@ == s@,
            i <= j <= n,
            t == s@.skip(i as int),
            trim_end(t) == trim_end(t.take(j - i)),
        decreases j,
    {
        assert(t.take(j - i).drop_last() =~= t.take(j - i - 1));
        assert(t.take(j - i).last() == s@[j - 1]);
        j = j - 1;
    }
    proof {
        if j > i {
            assert(t.take(j - i).last() == s@[j - 1]);
        }
        assert(t.take(j - i) =~= s@.subrange(i as int, j as int));
    }
    s.substring_char(i, j)
}

/// The index of the first `c`, or the number of characters where there is none.
pub fn find(v: &Vec<char>, c: char) -> (i: usize)
    ensures
        i == first_index(v@, c),
        i <= v@.len(),
        i < v@.len() <==> v@.contains(c),
{
    let mut i: usize = 0;
    while i < v.len() && v[i] != c
        invariant
            i <= v.len(),
            forall|j: int| 0 <= j < i ==> v@[j] != c,
        decreases v.len() - i,
    {
        i = i + 1;
    }
    proof {
        lemma_first_index_is(v@, c, i as int);
    }
    i
}

/// What comes before the first `c`: all of `s` where it has none.
pub fn before<'a>(s: &'a str, c: char) -> (r: &'a str)
    ensures
        r@ == before_first(s@, c),
{
    let v = chars_of(s);
    let i: usize = find(&v, c);
    s.substring_char(0, i)
}

/// The two sides of the first `c`, where there is one.
pub fn split_once<'a>(s: &'a str, c: char) -> (r: Option<(&'a str, &'a str)>)
    ensures
        halves(s@, c) is None <==> r is None,
        r matches Some((a, b)) ==> halves(s@, c) == Some((a@, b@)),
{
    let v = chars_of(s);
    let i: usize = find(&v, c);
    if i < v.len() {
        Some((s.substring_char(0, i), s.substring_char(i + 1, v.len())))
    } else {
        None
    }
}

/// What comes after the last `c`: all of `s` where it has none.
pub fn after_last_char<'a>(s: &'a str, c: char) -> (r: &'a str)
    ensures
        r@ == after_last(s@, c),
{
    let v = chars_of(s);
    let n: usize = v.len();
    let mut start: usize = 0;
    let mut i: usize = 0;
    assert(s@.skip(0) =~= s@);
    while i < n
        invariant
            n == v.len(),
            v@ == s@,
            start <= i <= n,
            after_last(s@, c) == after_last(s@.skip(start as int), c),
            forall|j: int| start <= j < i ==> s@[j] != c,
        decreases n - i,
    {
        if v[i] == c {
            proof {
                let t = s@.skip(start as int);
                assert forall|j: int| 0 <= j < i - start implies t[j] != c by {
                    assert(s@[j + start] != c);
                }
                lemma_first_index_is(t, c, i - start);
                assert(t.skip(i - start + 1) =~= s@.skip(i + 1));
            }
            start = i + 1;
        }
        i = i + 1;
    }
    proof {
        let t = s@.skip(start as int);
        assert forall|j: int| 0 <= j < t.len() implies t[j] != c by {
            assert(s@[j + start] != c);
        }
        assert(!t.contains(c));
    }
    s.substring_char(start, n)
}

/// The pieces of `s` between the `c`s.
pub fn split<'a>(s: &'a str, c: char) -> (r: Vec<&'a str>)
    ensures
        r@.map_values(|p: &str| p@) == pieces(s@, c),
{
    let v = chars_of(s);
    let n: usize = v.len();
    let mut r: Vec<&'a str> = Vec::new();
    let mut start: usize = 0;
    let mut i: usize = 0;
    let ghost view = |p: &str| p@;
    assert(s@.skip(0) =~= s@);
    while i < n
        invariant
            n == v.len(),
            v@ == s@,
            start <= i <= n,
            view == (|p: &str| p@),
            pieces(s@, c) == r@.map_values(view) + pieces(s@.skip(start as int), c),
            forall|j: int| start <= j < i ==> s@[j] != c,
        decreases n - i,
    {
        if v[i] == c {
            let ghost t = s@.skip(start as int);
            let ghost done = r@.map_values(view);
            proof {
                assert forall|j: int| 0 <= j < i - start implies t[j] != c by {
                    assert(s@[j + start] != c);
                }
                lemma_first_index_is(t, c, i - start);
                assert(t.skip(i - start + 1) =~= s@.skip(i + 1));
                assert(t.take(i - start) =~= s@.subrange(start as int, i as int));
            }
            let p: &'a str = s.substring_char(start, i);
            r.push(p);
            start = i + 1;
            proof {
                assert(r@.map_values(view) =~= done.push(p@));
                assert(done + (seq![p@] + pieces(s@.skip(start as int), c)) =~= done.push(p@)
                    + pieces(s@.skip(start as int), c));
            }
        }
        i = i + 1;
    }
    let ghost done = r@.map_values(view);
    let p: &'a str = s.substring_char(start, n);
    r.push(p);
    proof {
        let t = s@.skip(start as int);
        assert forall|j: int| 0 <= j < t.len() implies t[j] != c by {
            assert(s@[j + start] != c);
        }
        assert(!t.contains(c));
        assert(p@ =~= t);
        assert(r@.map_values(view) =~= done.push(p@));
        assert(done + seq![t] =~= done.push(t));
    }
    r
}

/// The lines of `s`.
pub fn lines<'a>(s: &'a str) -> (r: Vec<&'a str>)
    ensures
        r@.map_values(|p: &str| p@) == lines_of(s@),
{
    let v = chars_of(s);
    let n: usize = v.len();
    let mut r: Vec<&'a str> = Vec::new();
    let mut start: usize = 0;
    let mut i: usize = 0;
    let ghost view = |p: &str| p@;
    assert(s@.skip(0) =~= s@);
    while i < n
        invariant
            n == v.len(),
            v@ == s@,
            start <= i <= n,
            view == (|p: &str| p@),
            lines_of(s@) == r@.map_values(view) + lines_of(s@.skip(start as int)),
            forall|j: int| start <= j < i ==> s@[j] != '\n',
        decreases n - i,
    {
        if v[i] == '\n' {
            let ghost t = s@.skip(start as int);
            let ghost done = r@.map_values(view);
            proof {
                assert forall|j: int| 0 <= j < i - start implies t[j] != '\n' by {
                    assert(s@[j + start] != '\n');
                }
                lemma_first_index_is(t, '\n', i - start);
                assert(t.skip(i - start + 1) =~= s@.skip(i + 1));
                assert(t.take(i - start) =~= s@.subrange(start as int, i as int));
            }
            let end: usize = if i > start && v[i - 1] == '\r' {
                i - 1
            } else {
                i
            };
            let p: &'a str = s.substring_char(start, end);
            assert(p@ =~= without_cr(t.take(i - start)));
            r.push(p);
            start = i + 1;
            proof {
                assert(r@.map_values(view) =~= done.push(p@));
                assert(done + (seq![p@] + lines_of(s@.skip(start as int))) =~= done.push(p@)
                    + lines_of(s@.skip(start as int)));
            }
        }
        i = i + 1;
    }
    let ghost done = r@.map_values(view);
    let ghost t = s@.skip(start as int);
    proof {
        assert forall|j: int| 0 <= j < t.len() implies t[j] != '\n' by {
            assert(s@[j + start] != '\n');
        }
        assert(!t.contains('\n'));
    }
    if start < n {
        let p: &'a str = s.substring_char(start, n);
        r.push(p);
        proof {
            assert(p@ =~= t);
            assert(r@.map_values(view) =~= done.push(p@));
            assert(done + seq![t] =~= done.push(t));
        }
    } else {
        assert(done + Seq::<Seq<char>>::empty() =~= done);
    }
    r
}

/// Whether `p` stands in `v` at index `i`.
fn stands_at(v: &Vec<char>, i: usize, p: &Vec<char>) -> (r: bool)
    requires
        i <= v@.len(),
    ensures
        r == p@.is_prefix_of(v@.skip(i as int)),
{
    if v.len() - i < p.len() {
        return false;
    }
    let mut k: usize = 0;
    while k < p.len()
        invariant
            i <= v@.len(),
            p.len() <= v.len() - i,
            k <= p.len(),
            forall|j: int| 0 <= j < k ==> v@[i + j] == p@[j],
        decreases p.len() - k,
    {
        if v[i + k] != p[k] {
            proof {
                assert(v@.skip(i as int)[k as int] != p@[k as int]);
                if p@.is_prefix_of(v@.skip(i as int)) {
                    assert(v@.skip(i as int).subrange(0, p@.len() as int)[k as int] == p@[k as int]);
                }
            }
            return false;
        }
        k = k + 1;
    }
    assert(v@.skip(i as int).subrange(0, p@.len() as int) =~= p@);
    true
}

/// Whether `s` starts with `p`.
pub fn starts_with(s: &str, p: &str) -> (r: bool)
    ensures
        r == p@.is_prefix_of(s@),
{
    let v = chars_of(s);
    let q = chars_of(p);
    assert(v@.skip(0) =~= v@);
    stands_at(&v, 0, &q)
}

/// What follows the prefix `p`, where `s` starts with it.
pub fn strip_prefix<'a>(s: &'a str, p: &str) -> (r: Option<&'a str>)
    ensures
        str_opt(r) == stripped_prefix(s@, p@),
{
    let v = chars_of(s);
    let q = chars_of(p);
    assert(v@.skip(0) =~= v@);
    if stands_at(&v, 0, &q) {
        Some(s.substring_char(q.len(), v.len()))
    } else {
        None
    }
}

/// What precedes the suffix `p`, where `s` ends with it.
pub fn strip_suffix<'a>(s: &'a str, p: &str) -> (r: Option<&'a str>)
    ensures
        str_opt(r) == stripped_suffix(s@, p@),
{
    let v = chars_of(s);
    let q = chars_of(p);
    if v.len() < q.len() {
        return None;
    }
    let k: usize = v.len() - q.len();
    let at_end = stands_at(&v, k, &q);
    proof {
        assert(v@.skip(k as int).subrange(0, q@.len() as int) =~= v@.subrange(
            k as int,
            v@.len() as int,
        ));
    }
    if at_end {
        Some(s.substring_char(0, k))
    } else {
        None
    }
}

/// What comes before the first occurrence of `p`: all of `s` where it has none.
pub fn before_pattern<'a>(s: &'a str, p: &str) -> (r: &'a str)
    ensures
        r@ == before_text(s@, p@),
{
    let v = chars_of(s);
    let q = chars_of(p);
    let n: usize = v.len();
    let mut i: usize = 0;
    assert(s@.skip(0) =~= s@);
    assert(s@.take(0) + before_text(s@, p@) =~= before_text(s@, p@));
    while i < n && !stands_at(&v, i, &q)
        invariant
            n == v.len(),
            v@ == s@,
            q@ == p@,
            i <= n,
            before_text(s@, p@) == s@.take(i as int) + before_text(s@.skip(i as int), p@),
        decreases n - i,
    {
        proof {
            let t = s@.skip(i as int);
            assert(t.drop_first() =~= s@.skip(i + 1));
            assert(s@.take(i as int) + (seq![t[0]] + before_text(t.drop_first(), p@)) =~= s@.take(
                i + 1,
            ) + before_text(s@.skip(i + 1), p@));
        }
        i = i + 1;
    }
    assert(s@.take(i as int) + Seq::<char>::empty() =~= s@.take(i as int));
    s.substring_char(0, i)
}

/// The number of words of `s`.
pub fn count_words(s: &str) -> (n: usize)
    ensures
        n == word_count(s@),
{
    let v = chars_of(s);
    let mut n: usize = 0;
    let mut i: usize = 0;
    while i < v.len()
        invariant
            v@ == s@,
            i <= v.len(),
            n <= i,
            n == word_count(s@.take(i as int)),
        decreases v.len() - i,
    {
        assert(s@.take(i + 1).drop_last() =~= s@.take(i as int));
        if !is_whitespace(v[i]) && (i == 0 || is_whitespace(v[i - 1])) {
            n = n + 1;
        }
        i = i + 1;
    }
    assert(s@.take(s@.len() as int) =~= s@);
    n
}

/// The strings `parts`, with `sep` between each two.
pub fn join(parts: &Vec<String>, sep: &str) -> (r: String)
    ensures
        r@ == joined(texts(parts@), sep@),
{
    let mut r = String::new();
    let mut i: usize = 0;
    while i < parts.len()
        invariant
            i <= parts.len(),
            r@ == joined(texts(parts@).take(i as int), sep@),
        decreases parts.len() - i,
    {
        let ghost before = r@;
        if i > 0 {
            r.append(sep);
        }
        r.append(parts[i].as_str());
        proof {
            let now = texts(parts@).take(i + 1);
            assert(now.drop_last() =~= texts(parts@).take(i as int));
            if i == 0 {
                assert(r@ =~= parts@[0]@);
            }
        }
        i = i + 1;
    }
    assert(texts(parts@).take(parts@.len() as int) =~= texts(parts@));
    r
}

/// The lines, each ended by a line feed.
pub fn write_lines(lines: &Vec<String>) -> (r: String)
    ensures
        r@ == terminated(texts(lines@)),
{
    let mut r = String::new();
    let mut i: usize = 0;
    assert(r@ =~= terminated(texts(lines@).take(0)));
    while i < lines.len()
        invariant
            i <= lines@.len(),
            r@ == terminated(texts(lines@).take(i as int)),
        decreases lines.len() - i,
    {
        let ghost was = r@;
        r.append(lines[i].as_str());
        r.push('\n');
        proof {
            let now = texts(lines@).take(i + 1);
            assert(now.drop_last() =~= texts(lines@).take(i as int));
            assert(now.last() == lines@[i as int]@);
            assert(r@ =~= was + lines@[i as int]@ + seq!['\n']);
        }
        i = i + 1;
    }
    assert(texts(lines@).take(i as int) =~= texts(lines@));
    r
}

/// The decimal numeral of a number that is not negative.
fn write_numeral(n: u128) -> (r: String)
    ensures
        r@ == numeral(n as nat),
    decreases n,
{
    let mut r = if n < 10 {
        String::new()
    } else {
        write_numeral(n / 10)
    };
    let d: u8 = (n % 10) as u8;
    r.push((0x30u8 + d) as char);
    r
}

/// The decimal numeral of a number.
pub fn to_decimal(n: i64) -> (r: String)
    ensures
        r@ == decimal(n as int),
{
    if n < 0 {
        let mut r = String::new();
        r.push('-');
        let m: String = write_numeral((-(n as i128)) as u128);
        r.append(m.as_str());
        assert(r@ =~= seq!['-'] + m@);
        r
    } else {
        write_numeral(n as u128)
    }
}

/// The decimal numeral of the opposite of a number.
pub fn to_decimal_negated(n: i64) -> (r: String)
    ensures
        r@ == decimal(-(n as int)),
{
    if n > 0 {
        let mut r = String::new();
        r.push('-');
        let m: String = write_numeral(n as u128);
        r.append(m.as_str());
        assert(r@ =~= seq!['-'] + m@);
        r
    } else {
        write_numeral((-(n as i128)) as u128)
    }
}

/// The decimal numeral of an unsigned number.
pub fn to_decimal_u64(n: u64) -> (r: String)
    ensures
        r@ == decimal(n as int),
{
    write_numeral(n as u128)
}

/// A longer row of digits does not stand for a smaller number.
proof fn lemma_digits_value_grows(s: Seq<char>, i: int)
    requires
        0 <= i <= s.len(),
        forall|k: int| 0 <= k < s.len() ==> is_digit(#[trigger] s[k]),
    ensures
        digits_value(s.take(i)) <= digits_value(s),
    decreases s.len(),
{
    if i == s.len() {
        assert(s.take(i) =~= s);
    } else {
        lemma_digits_value_grows(s.drop_last(), i);
        assert(s.drop_last().take(i) =~= s.take(i));
        assert(is_digit(s[s.len() - 1]));
    }
}

/// The number that `s` denotes, where it denotes one that fits.
pub fn parse_u64(s: &str) -> (r: Option<u64>)
    ensures
        r == parsed_u64(s@),
{
    let v = chars_of(s);
    let n: usize = v.len();
    let start: usize = if n > 0 && v[0] == '+' {
        1
    } else {
        0
    };
    let ghost t = unsigned_part(s@);
    assert(t =~= s@.skip(start as int));
    if start == n {
        return None;
    }
    let mut value: u64 = 0;
    let mut i: usize = start;
    while i < n
        invariant
            n == v.len(),
            v@ == s@,
            start <= i <= n,
            t == s@.skip(start as int),
            t == unsigned_part(s@),
            value == digits_value(t.take(i - start)),
            forall|k: int| 0 <= k < i - start ==> is_digit(#[trigger] t[k]),
        decreases n - i,
    {
        let c: char = v[i];
        assert(t[i - start] == c);
        if !('0' <= c && c <= '9') {
            return None;
        }
        let d: u64 = (c as u32 - 0x30) as u64;
        proof {
            assert(t.take(i - start + 1).drop_last() =~= t.take(i - start));
            if all_digits(t) {
                lemma_digits_value_grows(t, i - start + 1);
            }
        }
        if value > 1844674407370955161 || value * 10 > 18446744073709551615 - d {
            return None;
        }
        value = value * 10 + d;
        i = i + 1;
    }
    assert(t.take(n - start) =~= t);
    Some(value)
}

/// Whether `s` is `word`, be it in upper or lower case.
pub fn same_ignoring_case(s: &str, word: &str) -> (r: bool)
    ensures
        r == (s@.map_values(|c: char| lower(c)) == word@),
{
    let v = chars_of(s);
    let w = chars_of(word);
    let ghost low = s@.map_values(|c: char| lower(c));
    if v.len() != w.len() {
        return false;
    }
    let mut i: usize = 0;
    while i < v.len()
        invariant
            v@ == s@,
            w@ == word@,
            v.len() == w.len(),
            i <= v.len(),
            low == s@.map_values(|c: char| lower(c)),
            forall|j: int| 0 <= j < i ==> low[j] == w@[j],
        decreases v.len() - i,
    {
        let c: char = if 'A' <= v[i] && v[i] <= 'Z' {
            (v[i] as u8 + 0x20) as char
        } else {
            v[i]
        };
        assert(c == low[i as int]);
        if c != w[i] {
            return false;
        }
        i = i + 1;
    }
    assert(low =~= word@);
    true
}

/// Whether `a` comes before `b`.
pub fn lt(a: &str, b: &str) -> (r: bool)
    ensures
        r == text_lt(a@, b@),
{
    let v = chars_of(a);
    let w = chars_of(b);
    let mut i: usize = 0;
    assert(a@.skip(0) =~= a@);
    assert(b@.skip(0) =~= b@);
    while i < v.len() && i < w.len() && v[i] == w[i]
        invariant
            v@ == a@,
            w@ == b@,
            i <= v.len(),
            i <= w.len(),
            text_lt(a@, b@) == text_lt(a@.skip(i as int), b@.skip(i as int)),
        decreases v.len() - i,
    {
        assert(a@.skip(i as int).drop_first() =~= a@.skip(i + 1));
        assert(b@.skip(i as int).drop_first() =~= b@.skip(i + 1));
        i = i + 1;
    }
    if i >= w.len() {
        false
    } else if i >= v.len() {
        true
    } else {
        v[i] < w[i]
    }
}

// ---------------------------------------------------------------------------
// Texts within texts
// ---------------------------------------------------------------------------

/// Whether `part` stands somewhere in `s`.
pub open spec fn holds(s: Seq<char>, part: Seq<char>) -> bool {
    exists|k: int| 0 <= k <= s.len() - part.len() && #[trigger] s.subrange(k, k + part.len()) == part
}

/// What stands between two texts stands in the whole.
pub proof fn lemma_holds(a: Seq<char>, part: Seq<char>, b: Seq<char>)
    ensures
        holds(a + part + b, part),
{
    let s = a + part + b;
    let k = a.len() as int;
    assert(s.subrange(k, k + part.len()) =~= part);
}

/// What stands in a part stands in the whole.
pub proof fn lemma_holds_within(s: Seq<char>, middle: Seq<char>, part: Seq<char>)
    requires
        holds(s, middle),
        holds(middle, part),
    ensures
        holds(s, part),
{
    let k = choose|k: int|
        0 <= k <= s.len() - middle.len() && #[trigger] s.subrange(k, k + middle.len()) == middle;
    let j = choose|j: int|
        0 <= j <= middle.len() - part.len() && #[trigger] middle.subrange(j, j + part.len())
            == part;
    assert(s.subrange(k + j, k + j + part.len()) =~= middle.subrange(j, j + part.len()));
}

/// Texts that hold no separator are read back from what they are joined to.
pub proof fn lemma_pieces_of_joined(parts: Seq<Seq<char>>, c: char)
    requires
        parts.len() > 0,
        forall|i: int| 0 <= i < parts.len() ==> !(#[trigger] parts[i]).contains(c),
    ensures
        pieces(joined(parts, seq![c]), c) == parts,
    decreases parts.len(),
{
    assert(!parts[0].contains(c));
    if parts.len() == 1 {
        assert(parts =~= seq![parts[0]]);
    } else {
        let rest = parts.drop_last();
        assert forall|i: int| 0 <= i < rest.len() implies !(#[trigger] rest[i]).contains(c) by {
            assert(rest[i] == parts[i]);
        }
        lemma_pieces_of_joined(rest, c);
        lemma_pieces_apart(joined(rest, seq![c]), c, parts.last());
        assert(!parts[parts.len() - 1].contains(c));
        assert(parts =~= rest + seq![parts.last()]);
    }
}

/// What is joined holds each of the texts.
pub proof fn lemma_joined_holds(parts: Seq<Seq<char>>, sep: Seq<char>, i: int)
    requires
        0 <= i < parts.len(),
    ensures
        holds(joined(parts, sep), parts[i]),
    decreases parts.len(),
{
    let all = joined(parts, sep);
    let nothing = Seq::<char>::empty();
    if parts.len() == 1 {
        lemma_holds(nothing, parts[0], nothing);
        assert(nothing + parts[0] + nothing =~= parts[0]);
    } else {
        let rest = parts.drop_last();
        let head = joined(rest, sep);
        if i < rest.len() {
            lemma_joined_holds(rest, sep, i);
            assert(rest[i] == parts[i]);
            lemma_holds(nothing, head, sep + parts.last());
            assert(nothing + head + (sep + parts.last()) =~= all);
            lemma_holds_within(all, head, parts[i]);
        } else {
            lemma_holds(head + sep, parts.last(), nothing);
            assert(head + sep + parts.last() + nothing =~= all);
        }
    }
}

/// No piece holds the separator.
pub proof fn lemma_pieces_are_free(s: Seq<char>, c: char, i: int)
    requires
        0 <= i < pieces(s, c).len(),
    ensures
        !pieces(s, c)[i].contains(c),
    decreases s.len(),
{
    lemma_first_index(s, c);
    if s.contains(c) {
        let first = before_first(s, c);
        if i == 0 {
            assert forall|j: int| 0 <= j < first.len() implies first[j] != c by {
                assert(s[j] != c);
            }
            assert(pieces(s, c)[0] == first);
        } else {
            lemma_pieces_are_free(after_first(s, c), c, i - 1);
            assert(pieces(s, c)[i] == pieces(after_first(s, c), c)[i - 1]);
        }
    }
}

/// A first text can be split off from what texts are joined to.
proof fn lemma_joined_first(parts: Seq<Seq<char>>, sep: Seq<char>)
    requires
        parts.len() > 1,
    ensures
        joined(parts, sep) == parts[0] + sep + joined(parts.drop_first(), sep),
    decreases parts.len(),
{
    let rest = parts.drop_first();
    let most = parts.drop_last();
    if parts.len() == 2 {
        assert(joined(most, sep) == parts[0]);
        assert(joined(rest, sep) == parts[1]);
    } else {
        lemma_joined_first(most, sep);
        assert(most.drop_first() =~= rest.drop_last());
        assert(joined(parts, sep) =~= parts[0] + sep + joined(rest, sep));
    }
}

/// A text is what its pieces are joined to.
pub proof fn law_joined_pieces_are_the_text(s: Seq<char>, c: char)
    ensures
        joined(pieces(s, c), seq![c]) == s,
    decreases s.len(),
{
    if s.contains(c) {
        lemma_first_index(s, c);
        let rest = after_first(s, c);
        law_joined_pieces_are_the_text(rest, c);
        lemma_pieces_len(rest, c);
        lemma_joined_first(pieces(s, c), seq![c]);
        assert(pieces(s, c).drop_first() =~= pieces(rest, c));
        assert(before_first(s, c) + seq![c] + rest =~= s);
    }
}

/// What follows the last separator.
pub proof fn lemma_after_last(a: Seq<char>, c: char, b: Seq<char>)
    requires
        !b.contains(c),
    ensures
        after_last(a + seq![c] + b, c) == b,
        after_last(b, c) == b,
    decreases a.len(),
{
    let s = a + seq![c] + b;
    lemma_first_index(a, c);
    let i = first_index(a, c);
    assert forall|j: int| 0 <= j < i implies s[j] != c by {
        assert(s[j] == a[j]);
    }
    assert(s[i] == c);
    lemma_first_index_is(s, c, i);
    assert(after_last(s, c) == after_last(after_first(s, c), c));
    if a.contains(c) {
        let rest = after_first(a, c);
        assert(after_first(s, c) =~= rest + seq![c] + b);
        lemma_after_last(rest, c, b);
    } else {
        assert(after_first(s, c) =~= b);
        assert(after_last(b, c) == b);
    }
}

/// The two sides of a first separator.
pub proof fn lemma_halves(a: Seq<char>, c: char, b: Seq<char>)
    requires
        !a.contains(c),
    ensures
        halves(a + seq![c] + b, c) == Some((a, b)),
        before_first(a + seq![c] + b, c) == a,
        before_first(a, c) == a,
{
    let s = a + seq![c] + b;
    let n = a.len() as int;
    assert forall|j: int| 0 <= j < n implies s[j] != c && a[j] != c by {
        assert(a.contains(a[j]));
        assert(s[j] == a[j]);
    }
    assert(s[n] == c);
    lemma_first_index_is(s, c, n);
    lemma_first_index_is(a, c, n);
    assert(s.take(n) =~= a);
    assert(s.skip(n + 1) =~= b);
    assert(a.take(n) =~= a);
}

/// A numeral is read as the number it was written for, with or without a plus
/// sign.
pub proof fn law_numerals_are_read_back(n: u64)
    ensures
        parsed_u64(decimal(n as int)) == Some(n),
        parsed_u64(seq!['+'] + decimal(n as int)) == Some(n),
{
    let s = decimal(n as int);
    lemma_numeral(n as nat);
    assert(is_digit(s[0]));
    assert((seq!['+'] + s).drop_first() =~= s);
}

/// Different numbers have different numerals.
pub proof fn law_numerals_differ(m: int, n: int)
    ensures
        decimal(m) == decimal(n) ==> m == n,
        n < 0 ==> decimal(n)[0] == '-' && decimal(n).drop_first() == decimal(-n),
        0 <= n < 10 ==> decimal(n) == seq![(0x30 + n) as char],
{
    if m >= 0 {
        lemma_numeral(m as nat);
        assert(is_digit(numeral(m as nat)[0]));
    } else {
        lemma_numeral((-m) as nat);
        assert(decimal(m).drop_first() =~= numeral((-m) as nat));
    }
    if n >= 0 {
        lemma_numeral(n as nat);
        assert(is_digit(numeral(n as nat)[0]));
    } else {
        lemma_numeral((-n) as nat);
        assert(decimal(n).drop_first() =~= numeral((-n) as nat));
    }
}

/// A text that holds anything but digits behind its optional plus sign denotes
/// no number, nor does one without digits.
pub proof fn law_other_texts_are_no_numbers(s: Seq<char>, i: int)
    ensures
        0 < i < s.len() && !('0' <= s[i] && s[i] <= '9') ==> parsed_u64(s) is None,
        s.len() > 0 && s[0] != '+' && !('0' <= s[0] && s[0] <= '9') ==> parsed_u64(s) is None,
        s.len() == 0 ==> parsed_u64(s) is None,
        s == seq!['+'] ==> parsed_u64(s) is None,
{
    let t = unsigned_part(s);
    if 0 < i < s.len() {
        let k = i - (s.len() - t.len());
        assert(t[k] == s[i]);
    }
    if s.len() > 0 && s[0] != '+' {
        assert(t[0] == s[0]);
    }
}

/// A further digit makes a number ten times as large, and adds itself.
pub proof fn law_digits_count_by_tens(s: Seq<char>, d: int)
    requires
        0 <= d < 10,
    ensures
        digits_value(s.push((0x30 + d) as char)) == 10 * digits_value(s) + d,
{
    let c = (0x30 + d) as char;
    assert(c as u32 == 0x30 + d);
    assert(s.push(c).drop_last() =~= s);
}

/// A line may end in LF or in CRLF.
pub proof fn law_both_line_endings_end_a_line(line: Seq<char>, rest: Seq<char>)
    requires
        is_line(line),
    ensures
        lines_of(line + seq!['\n'] + rest) == seq![line] + lines_of(rest),
        lines_of(line + seq!['\r', '\n'] + rest) == seq![line] + lines_of(rest),
        line.len() > 0 ==> lines_of(line) == seq![line],
        lines_of(Seq::empty()).len() == 0,
{
    lemma_halves(line, '\n', rest);
    let s = line + seq!['\n'] + rest;
    assert(s[line.len() as int] == '\n');
    assert(s.contains('\n'));
    let carried = line.push('\r');
    assert forall|j: int| 0 <= j < carried.len() implies carried[j] != '\n' by {
        if j < line.len() {
            assert(line.contains(line[j]));
        }
    }
    lemma_halves(carried, '\n', rest);
    let t = carried + seq!['\n'] + rest;
    assert(t =~= line + seq!['\r', '\n'] + rest);
    assert(t[carried.len() as int] == '\n');
    assert(t.contains('\n'));
    assert(carried.drop_last() =~= line);
}

/// Texts are in the order of the first characters in which they differ, and
/// what goes on comes behind what does not.
pub proof fn law_first_difference_orders(p: Seq<char>, a: Seq<char>, b: Seq<char>)
    ensures
        a.len() > 0 && b.len() > 0 && a[0] < b[0] ==> text_lt(p + a, p + b) && !text_lt(
            p + b,
            p + a,
        ),
        b.len() > 0 ==> text_lt(p, p + b) && !text_lt(p + b, p),
    decreases p.len(),
{
    let nothing = Seq::<char>::empty();
    if p.len() == 0 {
        assert(p + a =~= a);
        assert(p + b =~= b);
    } else {
        let q = p.drop_first();
        law_first_difference_orders(q, a, b);
        assert((p + a).drop_first() =~= q + a);
        assert((p + b).drop_first() =~= q + b);
        assert((p + a)[0] == p[0] && (p + b)[0] == p[0]);
    }
}

/// A text without white space is one word, and white space none.
pub proof fn law_words_are_runs_without_white_space(s: Seq<char>)
    ensures
        s.len() > 0 && (forall|i: int| 0 <= i < s.len() ==> !whitespace(#[trigger] s[i]))
            ==> word_count(s) == 1,
        (forall|i: int| 0 <= i < s.len() ==> whitespace(#[trigger] s[i])) ==> word_count(s) == 0,
    decreases s.len(),
{
    if s.len() > 0 {
        let t = s.drop_last();
        law_words_are_runs_without_white_space(t);
        assert forall|i: int| 0 <= i < t.len() implies #[trigger] t[i] == s[i] by {}
        if t.len() > 0 {
            assert(s[s.len() - 2] == t[t.len() - 1]);
        }
    }
}

/// What a prefix or a suffix is stripped from is what stands beside it.
pub proof fn law_stripping_undoes_adding(p: Seq<char>, s: Seq<char>)
    ensures
        stripped_prefix(p + s, p) == Some(s),
        stripped_suffix(s + p, p) == Some(s),
        stripped_prefix(s, p) matches Some(rest) ==> p + rest == s,
        stripped_suffix(s, p) matches Some(rest) ==> rest + p == s,
{
    let a = p + s;
    let b = s + p;
    assert(a.subrange(0, p.len() as int) =~= p);
    assert(a.skip(p.len() as int) =~= s);
    assert(b.subrange(b.len() - p.len(), b.len() as int) =~= p);
    assert(b.take(b.len() - p.len()) =~= s);
    if p.is_prefix_of(s) {
        assert(p + s.skip(p.len() as int) =~= s);
    }
    if p.is_suffix_of(s) {
        assert(s.take(s.len() - p.len()) + p =~= s);
    }
}

/// Only the capital letters of ASCII are changed by lower case, each into the
/// letter 32 further on.
pub proof fn law_lower_case(c: char)
    ensures
        lower(lower(c)) == lower(c),
        'A' <= c && c <= 'Z' ==> lower(c) as u32 == c as u32 + 32,
        !('A' <= c && c <= 'Z') ==> lower(c) == c,
        !('A' <= lower(c) && lower(c) <= 'Z'),
{
}

/// The white space of ASCII is the space and the characters from tab to
/// carriage return.
pub proof fn law_white_space_of_ascii(c: char)
    requires
        (c as u32) < 128,
    ensures
        whitespace(c) <==> c == ' ' || c == '\t' || c == '\n' || c == '\r' || c as u32 == 11 || c as u32
            == 12,
{
}

/// A row of digits is read as the number that it stands for, be it with zeros in
/// front, unless that is too large.
pub proof fn law_rows_of_digits_are_read(s: Seq<char>)
    requires
        s.len() > 0,
        forall|i: int| 0 <= i < s.len() ==> '0' <= #[trigger] s[i] && s[i] <= '9',
    ensures
        digits_value(s) < 0x1_0000_0000_0000_0000 ==> (parsed_u64(s) matches Some(n) && n
            == digits_value(s)),
        digits_value(s) >= 0x1_0000_0000_0000_0000 ==> parsed_u64(s) is None,
{
    assert('0' <= s[0] && s[0] <= '9');
    assert(unsigned_part(s) == s);
    assert forall|i: int| 0 <= i < s.len() implies is_digit(#[trigger] s[i]) by {}
}

} // verus!
