//! Operations on text, stated over the sequence of its characters.

use vstd::prelude::*;

verus! {

/// Appending a character to a `String` puts it behind the characters already there.
pub assume_specification[ String::push ](s: &mut String, c: char)
    ensures
        final(s)@ == old(s)@.push(c),
;

/// The characters that carry the Unicode property `White_Space`.
pub open spec fn white_space(c: char) -> bool {
    ||| '\u{9}' <= c <= '\u{d}'
    ||| c == '\u{20}'
    ||| c == '\u{85}'
    ||| c == '\u{a0}'
    ||| c == '\u{1680}'
    ||| '\u{2000}' <= c <= '\u{200a}'
    ||| c == '\u{2028}'
    ||| c == '\u{2029}'
    ||| c == '\u{202f}'
    ||| c == '\u{205f}'
    ||| c == '\u{3000}'
}

/// How many characters at the front of `s` are all white space (`white`) or all not.
pub open spec fn leading_run(s: Seq<char>, white: bool) -> nat
    decreases s.len(),
{
    if s.len() > 0 && white_space(s[0]) == white {
        1 + leading_run(s.drop_first(), white)
    } else {
        0
    }
}

/// `s` without the white space at its end.
pub open spec fn trimmed_end(s: Seq<char>) -> Seq<char>
    decreases s.len(),
{
    if s.len() > 0 && white_space(s.last()) {
        trimmed_end(s.drop_last())
    } else {
        s
    }
}

/// `s` without the white space at its front.
pub open spec fn trimmed_start(s: Seq<char>) -> Seq<char> {
    s.skip(leading_run(s, true) as int)
}

/// `s` without the white space at either end.
pub open spec fn trimmed(s: Seq<char>) -> Seq<char> {
    trimmed_end(trimmed_start(s))
}

/// The first stretch of characters between white space, if there is any.
pub open spec fn leading_word(s: Seq<char>) -> Option<Seq<char>> {
    let rest = trimmed_start(s);
    if rest.len() == 0 {
        None
    } else {
        Some(rest.take(leading_run(rest, false) as int))
    }
}

/// `s` without one `c` at its end, where it ends in `c`.
pub open spec fn without_suffix(s: Seq<char>, c: char) -> Seq<char> {
    if s.len() > 0 && s.last() == c {
        s.drop_last()
    } else {
        s
    }
}

/// `c` in lower case where it is an ASCII letter, and itself where it is not.
pub open spec fn lower_char(c: char) -> char {
    if 'A' <= c <= 'Z' {
        ((c as u8) + 32) as char
    } else {
        c
    }
}

/// `s` with its ASCII letters in lower case.
pub open spec fn lowered(s: Seq<char>) -> Seq<char> {
    s.map_values(|c: char| lower_char(c))
}

/// The decimal digit of a number below ten.
pub open spec fn digit(n: nat) -> char {
    ((n as u8) + 48) as char
}

/// The decimal digits of `n`, without leading zeros.
pub open spec fn decimal(n: nat) -> Seq<char>
    decreases n,
{
    if n < 10 {
        seq![digit(n)]
    } else {
        decimal(n / 10).push(digit(n % 10))
    }
}

/// The number that a row of decimal digits writes down.
pub open spec fn decimal_value(s: Seq<char>) -> nat
    decreases s.len(),
{
    if s.len() == 0 {
        0
    } else {
        10 * decimal_value(s.drop_last()) + ((s.last() as u8) - 48) as nat
    }
}

/// The texts of a list of strings.
pub open spec fn texts(strings: Seq<String>) -> Seq<Seq<char>> {
    strings.map_values(|s: String| s@)
}

/// Reading the decimal digits of a number gives the number back.
pub proof fn law_decimal_reads_back(n: nat)
    ensures
        decimal_value(decimal(n)) == n,
        decimal(n).len() > 0,
    decreases n,
{
    if n < 10 {
        assert(decimal(n).drop_last() =~= Seq::<char>::empty());
        assert(decimal_value(Seq::<char>::empty()) == 0);
    } else {
        law_decimal_reads_back(n / 10);
        assert(decimal(n).drop_last() =~= decimal(n / 10));
    }
}

/// Different numbers are written with different digits.
pub proof fn law_decimal_injective(a: nat, b: nat)
    requires
        decimal(a) == decimal(b),
    ensures
        a == b,
{
    law_decimal_reads_back(a);
    law_decimal_reads_back(b);
}

/// Where a run ends is settled by its characters and the one behind it.
proof fn lemma_leading_run(s: Seq<char>, white: bool, n: nat)
    requires
        n <= s.len(),
        forall|i: int| 0 <= i < n ==> white_space(#[trigger] s[i]) == white,
        n < s.len() ==> white_space(s[n as int]) != white,
    ensures
        leading_run(s, white) == n,
    decreases n,
{
    if n > 0 {
        assert(white_space(s[0]) == white);
        let rest = s.drop_first();
        assert forall|i: int| 0 <= i < n - 1 implies white_space(#[trigger] rest[i]) == white by {
            assert(rest[i] == s[i + 1]);
        }
        lemma_leading_run(rest, white, (n - 1) as nat);
    }
}

/// Where trimming at the end stops is settled by the characters behind and the one before.
proof fn lemma_trimmed_end_is(s: Seq<char>, n: int)
    requires
        0 <= n <= s.len(),
        forall|i: int| n <= i < s.len() ==> white_space(#[trigger] s[i]),
        n > 0 ==> !white_space(s[n - 1]),
    ensures
        trimmed_end(s) == s.take(n),
    decreases s.len(),
{
    if n < s.len() {
        assert(white_space(s[s.len() - 1]));
        let rest = s.drop_last();
        assert forall|i: int| n <= i < rest.len() implies white_space(#[trigger] rest[i]) by {
            assert(rest[i] == s[i]);
        }
        lemma_trimmed_end_is(rest, n);
        assert(rest.take(n) =~= s.take(n));
    } else {
        assert(s.take(n) =~= s);
    }
}

/// White space is what Unicode lists under `White_Space`, by code point.
pub proof fn law_white_space(c: char)
    ensures
        white_space(c) <==> ({
            let code = c as u32;
            ||| 9 <= code <= 13
            ||| code == 0x20
            ||| code == 0x85
            ||| code == 0xa0
            ||| code == 0x1680
            ||| 0x2000 <= code <= 0x200a
            ||| code == 0x2028
            ||| code == 0x2029
            ||| code == 0x202f
            ||| code == 0x205f
            ||| code == 0x3000
        }),
{
}

/// A run goes on for as long as the characters are alike, and no longer.
proof fn lemma_run_ends(s: Seq<char>, white: bool)
    ensures
        leading_run(s, white) <= s.len(),
        forall|i: int|
            0 <= i < leading_run(s, white) ==> white_space(#[trigger] s[i]) == white,
        leading_run(s, white) < s.len() ==> white_space(s[leading_run(s, white) as int]) != white,
    decreases s.len(),
{
    if s.len() > 0 && white_space(s[0]) == white {
        let rest = s.drop_first();
        lemma_run_ends(rest, white);
        assert forall|i: int| 0 <= i < leading_run(s, white) implies white_space(#[trigger] s[i])
            == white by {
            if i > 0 {
                assert(rest[i - 1] == s[i]);
            }
        }
    }
}

/// Trimming at the end takes off white space and nothing else, and leaves none there.
pub proof fn law_trimmed_end(s: Seq<char>)
    ensures
        exists|end: int|
            0 <= end <= s.len() && #[trigger] s.take(end) == trimmed_end(s) && (forall|i: int|
                end <= i < s.len() ==> white_space(#[trigger] s[i])) && (end > 0 ==> !white_space(
                s[end - 1],
            )),
    decreases s.len(),
{
    if s.len() > 0 && white_space(s.last()) {
        let rest = s.drop_last();
        law_trimmed_end(rest);
        let end = choose|end: int|
            0 <= end <= rest.len() && #[trigger] rest.take(end) == trimmed_end(rest) && (forall|
                i: int,
            |
                end <= i < rest.len() ==> white_space(#[trigger] rest[i])) && (end > 0
                ==> !white_space(rest[end - 1]));
        assert(s.take(end) =~= rest.take(end));
        assert forall|i: int| end <= i < s.len() implies white_space(#[trigger] s[i]) by {
            if i < rest.len() {
                assert(rest[i] == s[i]);
            }
        }
        assert(end > 0 ==> rest[end - 1] == s[end - 1]);
    } else {
        assert(s.take(s.len() as int) =~= s);
    }
}

/// Trimming takes off white space at either end and nothing else, and leaves none at either end.
pub proof fn law_trimmed(s: Seq<char>)
    ensures
        exists|start: int, end: int|
            0 <= start <= end <= s.len() && #[trigger] s.subrange(start, end) == trimmed(s) && (
            forall|i: int|
                0 <= i < start || end <= i < s.len() ==> white_space(#[trigger] s[i])) && (start
                < end ==> !white_space(s[start]) && !white_space(s[end - 1])),
{
    let start = leading_run(s, true) as int;
    let rest = s.skip(start);
    lemma_run_ends(s, true);
    law_trimmed_end(rest);
    let n = choose|end: int|
        0 <= end <= rest.len() && #[trigger] rest.take(end) == trimmed_end(rest) && (forall|i: int|
            end <= i < rest.len() ==> white_space(#[trigger] rest[i])) && (end > 0 ==> !white_space(
            rest[end - 1],
        ));
    assert(s.subrange(start, start + n) =~= rest.take(n));
    assert forall|i: int| 0 <= i < start || start + n <= i < s.len() implies white_space(
        #[trigger] s[i],
    ) by {
        if i >= start {
            assert(rest[i - start] == s[i]);
        }
    }
    assert(n > 0 ==> rest[n - 1] == s[start + n - 1]);
}

/// A text has a first word exactly if not all of it is white space; the word is the characters from
/// the first that is not white space up to the next that is, or the end.
pub proof fn law_leading_word(s: Seq<char>)
    ensures
        leading_word(s) is None <==> forall|i: int| 0 <= i < s.len() ==> white_space(#[trigger] s[i]),
        leading_word(s) matches Some(word) ==> exists|start: int, end: int|
            0 <= start < end <= s.len() && #[trigger] s.subrange(start, end) == word && (forall|
                i: int,
            |
                0 <= i < start ==> white_space(#[trigger] s[i])) && (forall|i: int|
                start <= i < end ==> !white_space(#[trigger] s[i])) && (end < s.len()
                ==> white_space(s[end])),
{
    let start = leading_run(s, true) as int;
    let rest = s.skip(start);
    lemma_run_ends(s, true);
    lemma_run_ends(rest, false);
    let n = leading_run(rest, false) as int;
    if rest.len() > 0 {
        assert(rest[0] == s[start]);
        let end = start + n;
        assert(s.subrange(start, end) =~= rest.take(n));
        assert forall|i: int| start <= i < end implies !white_space(#[trigger] s[i]) by {
            assert(rest[i - start] == s[i]);
        }
        assert(end < s.len() ==> rest[n] == s[end]);
        assert(!white_space(s[start]));
    }
}

/// A word is the first of a text if only white space stands before it, none stands in it, and white
/// space or nothing stands behind it.
pub proof fn lemma_leading_word_is(s: Seq<char>, start: int, end: int)
    requires
        0 <= start < end <= s.len(),
        forall|i: int| 0 <= i < start ==> white_space(#[trigger] s[i]),
        forall|i: int| start <= i < end ==> !white_space(#[trigger] s[i]),
        end < s.len() ==> white_space(s[end]),
    ensures
        leading_word(s) == Some(s.subrange(start, end)),
{
    lemma_leading_run(s, true, start as nat);
    let rest = s.skip(start);
    assert forall|i: int| 0 <= i < end - start implies white_space(#[trigger] rest[i]) == false by {
        assert(rest[i] == s[start + i]);
    }
    assert(end < s.len() ==> rest[end - start] == s[end]);
    lemma_leading_run(rest, false, (end - start) as nat);
    assert(rest.take(end - start) =~= s.subrange(start, end));
}

/// Taking off a suffix undoes putting it there, once, and leaves any other text alone.
pub proof fn law_without_suffix(s: Seq<char>, c: char)
    ensures
        without_suffix(s.push(c), c) == s,
        s.len() == 0 || s.last() != c ==> without_suffix(s, c) == s,
{
    assert(s.push(c).drop_last() =~= s);
}

/// Lower case differs from the text in its ASCII capitals alone, each of which becomes the letter
/// 32 code points up.
pub proof fn law_lowered(s: Seq<char>)
    ensures
        lowered(s).len() == s.len(),
        forall|i: int|
            #![trigger lowered(s)[i]]
            0 <= i < s.len() ==> if 65 <= s[i] as u32 <= 90 {
                lowered(s)[i] as u32 == s[i] as u32 + 32
            } else {
                lowered(s)[i] == s[i]
            },
{
}

/// The digits of a number are those of its tens and behind them that of its ones. Digits have the
/// code points from 48 on.
pub proof fn law_decimal_digits(n: nat)
    ensures
        n < 10 ==> decimal(n).len() == 1 && decimal(n)[0] as u32 == 48 + n,
        n >= 10 ==> decimal(n).drop_last() == decimal(n / 10) && decimal(n).last() as u32 == 48 + n
            % 10,
{
    if n >= 10 {
        assert(decimal(n).drop_last() =~= decimal(n / 10));
    }
}

/// The texts of a list are those of its strings, one for one.
pub proof fn law_texts(strings: Seq<String>)
    ensures
        texts(strings).len() == strings.len(),
        forall|i: int| 0 <= i < strings.len() ==> #[trigger] texts(strings)[i] == strings[i]@,
{
}

/// The characters of `s`.
pub fn chars_of(s: &str) -> (r: Vec<char>)
    ensures
        r@ == s@,
{
    let mut chars: Vec<char> = Vec::new();
    for c in it: s.chars()
        invariant
            chars@ == it.seq().take(it.index()),
            it.seq() == s@,
    {
        chars.push(c);
    }
    chars
}

/// Whether `c` is white space.
pub fn is_white_space(c: char) -> (r: bool)
    ensures
        r == white_space(c),
{
    ('\u{9}' <= c && c <= '\u{d}') || c == '\u{20}' || c == '\u{85}' || c == '\u{a0}' || c
        == '\u{1680}' || ('\u{2000}' <= c && c <= '\u{200a}') || c == '\u{2028}' || c == '\u{2029}'
        || c == '\u{202f}' || c == '\u{205f}' || c == '\u{3000}'
}

/// Whether `a` and `b` hold the same characters.
pub fn same_text(a: &str, b: &str) -> (r: bool)
    ensures
        r == (a@ == b@),
{
    let x = chars_of(a);
    let y = chars_of(b);
    if x.len() != y.len() {
        return false;
    }
    let mut i: usize = 0;
    while i < x.len()
        invariant
            i <= x.len(),
            x.len() == y.len(),
            x@ == a@,
            y@ == b@,
            forall|j: int| 0 <= j < i ==> a@[j] == b@[j],
        decreases x.len() - i,
    {
        if x[i] != y[i] {
            assert(a@[i as int] != b@[i as int]);
            return false;
        }
        i += 1;
    }
    assert(a@ =~= b@);
    true
}

/// Whether `s` begins with the characters of `prefix`.
pub fn starts_with(s: &str, prefix: &str) -> (r: bool)
    ensures
        r == prefix@.is_prefix_of(s@),
{
    let x = chars_of(s);
    let y = chars_of(prefix);
    if x.len() < y.len() {
        return false;
    }
    let mut i: usize = 0;
    while i < y.len()
        invariant
            i <= y.len() <= x.len(),
            x@ == s@,
            y@ == prefix@,
            forall|j: int| 0 <= j < i ==> s@[j] == prefix@[j],
        decreases y.len() - i,
    {
        if x[i] != y[i] {
            assert(s@.subrange(0, prefix@.len() as int)[i as int] != prefix@[i as int]);
            return false;
        }
        i += 1;
    }
    assert(prefix@ =~= s@.subrange(0, prefix@.len() as int));
    true
}

/// The index from which on `chars` is no longer all white space (`white`) or all not.
fn run_end(chars: &Vec<char>, from: usize, white: bool) -> (end: usize)
    requires
        from <= chars.len(),
    ensures
        from <= end <= chars.len(),
        end - from == leading_run(chars@.skip(from as int), white),
{
    let mut end: usize = from;
    while end < chars.len() && is_white_space(chars[end]) == white
        invariant
            from <= end <= chars.len(),
            forall|i: int| from <= i < end ==> white_space(#[trigger] chars@[i]) == white,
        decreases chars.len() - end,
    {
        end += 1;
    }
    proof {
        let s = chars@.skip(from as int);
        assert forall|i: int| 0 <= i < end - from implies white_space(#[trigger] s[i])
            == white by {
            assert(s[i] == chars@[from + i]);
        }
        lemma_leading_run(s, white, (end - from) as nat);
    }
    end
}

/// The index behind the last character of `chars` at or after `from` that is not white space.
fn text_end(chars: &Vec<char>, from: usize) -> (end: usize)
    requires
        from <= chars.len(),
    ensures
        from <= end <= chars.len(),
        trimmed_end(chars@.skip(from as int)) == chars@.subrange(from as int, end as int),
{
    let mut end: usize = chars.len();
    while from < end && is_white_space(chars[end - 1])
        invariant
            from <= end <= chars.len(),
            forall|i: int| end <= i < chars.len() ==> white_space(#[trigger] chars@[i]),
        decreases end - from,
    {
        end -= 1;
    }
    proof {
        let s = chars@.skip(from as int);
        assert forall|i: int| end - from <= i < s.len() implies white_space(#[trigger] s[i]) by {
            assert(s[i] == chars@[from + i]);
        }
        lemma_trimmed_end_is(s, end - from);
        assert(s.take(end - from) =~= chars@.subrange(from as int, end as int));
    }
    end
}

/// `s` without the white space at its end.
pub fn trim_end(s: &str) -> (r: &str)
    ensures
        r@ == trimmed_end(s@),
{
    let chars = chars_of(s);
    let end = text_end(&chars, 0);
    assert(chars@.skip(0) =~= s@);
    s.substring_char(0, end)
}

/// `s` without the white space at either end.
pub fn trim(s: &str) -> (r: &str)
    ensures
        r@ == trimmed(s@),
{
    let chars = chars_of(s);
    let start = run_end(&chars, 0, true);
    assert(chars@.skip(0) =~= s@);
    let end = text_end(&chars, start);
    s.substring_char(start, end)
}

/// The first word of `s`, where words are separated by white space.
pub fn first_word(s: &str) -> (r: Option<&str>)
    ensures
        r is Some <==> leading_word(s@) is Some,
        r matches Some(word) ==> leading_word(s@) == Some(word@),
{
    let chars = chars_of(s);
    let start = run_end(&chars, 0, true);
    assert(chars@.skip(0) =~= s@);
    if start == chars.len() {
        return None;
    }
    let end = run_end(&chars, start, false);
    assert(s@.skip(start as int).take(end - start) =~= s@.subrange(start as int, end as int));
    Some(s.substring_char(start, end))
}

/// `s` without one `c` at its end, where it ends in `c`.
pub fn strip_suffix(s: &str, c: char) -> (r: &str)
    ensures
        r@ == without_suffix(s@, c),
{
    let len = s.unicode_len();
    if len > 0 && s.get_char(len - 1) == c {
        assert(s@.subrange(0, len - 1) =~= s@.drop_last());
        s.substring_char(0, len - 1)
    } else {
        s
    }
}

/// `c` in lower case where it is an ASCII letter.
fn lower(c: char) -> (r: char)
    ensures
        r == lower_char(c),
{
    if 'A' <= c && c <= 'Z' {
        (c as u8 + 32) as char
    } else {
        c
    }
}

/// `s` with its ASCII letters in lower case.
pub fn to_ascii_lowercase(s: &str) -> (r: String)
    ensures
        r@ == lowered(s@),
{
    let mut text = String::new();
    for c in it: s.chars()
        invariant
            it.seq() == s@,
            text@ =~= lowered(s@.take(it.index())),
    {
        text.push(lower(c));
    }
    assert(s@.take(s@.len() as int) =~= s@);
    text
}

/// Whether `a` and `b` are the same text but for the case of ASCII letters.
pub fn eq_ignore_ascii_case(a: &str, b: &str) -> (r: bool)
    ensures
        r == (lowered(a@) == lowered(b@)),
{
    same_text(to_ascii_lowercase(a).as_str(), to_ascii_lowercase(b).as_str())
}

/// Adds a string at the end of a list.
pub fn push_text(strings: &mut Vec<String>, text: String)
    ensures
        texts(final(strings)@) == texts(old(strings)@).push(text@),
        final(strings)@ == old(strings)@.push(text),
{
    strings.push(text);
    assert(texts(strings@) =~= texts(old(strings)@).push(text@));
}

/// A list of the same texts.
pub fn clone_strings(strings: &Vec<String>) -> (r: Vec<String>)
    ensures
        texts(r@) == texts(strings@),
{
    let mut all: Vec<String> = Vec::new();
    let mut i: usize = 0;
    while i < strings.len()
        invariant
            i <= strings.len(),
            texts(all@) =~= texts(strings@).take(i as int),
        decreases strings.len() - i,
    {
        push_text(&mut all, strings[i].clone());
        i += 1;
    }
    assert(texts(strings@).take(i as int) =~= texts(strings@));
    all
}

/// Whether two lists hold the same texts in the same order.
pub fn same_texts(a: &Vec<String>, b: &Vec<String>) -> (r: bool)
    ensures
        r == (texts(a@) == texts(b@)),
{
    assert(texts(a@).len() == a.len() && texts(b@).len() == b.len());
    if a.len() != b.len() {
        return false;
    }
    let mut i: usize = 0;
    while i < a.len()
        invariant
            i <= a.len(),
            a.len() == b.len(),
            forall|j: int| 0 <= j < i ==> #[trigger] texts(a@)[j] == texts(b@)[j],
        decreases a.len() - i,
    {
        if !same_text(a[i].as_str(), b[i].as_str()) {
            assert(texts(a@)[i as int] != texts(b@)[i as int]);
            return false;
        }
        i += 1;
    }
    assert(texts(a@) =~= texts(b@));
    true
}

/// Whether `text` is among `strings`.
pub fn contains_text(strings: &Vec<String>, text: &str) -> (r: bool)
    ensures
        r == texts(strings@).contains(text@),
{
    let mut i: usize = 0;
    while i < strings.len()
        invariant
            i <= strings.len(),
            forall|j: int| 0 <= j < i ==> #[trigger] texts(strings@)[j] != text@,
        decreases strings.len() - i,
    {
        if same_text(strings[i].as_str(), text) {
            assert(texts(strings@)[i as int] == text@);
            return true;
        }
        i += 1;
    }
    false
}

/// `n` in decimal.
pub fn to_decimal(n: u64) -> (r: String)
    ensures
        r@ == decimal(n as nat),
    decreases n,
{
    let last = ((n % 10) as u8 + 48) as char;
    let mut text = if n < 10 {
        String::new()
    } else {
        to_decimal(n / 10)
    };
    text.push(last);
    assert(n < 10 ==> text@ =~= seq![last]);
    text
}

} // verus!
