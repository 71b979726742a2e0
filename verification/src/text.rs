//! Text operations, stated over the characters a string holds.
use vstd::prelude::*;

verus! {

/// A character is white space: it has the Unicode property `White_Space`.
pub open spec fn whitespace_char(c: char) -> bool {
    ||| '\u{9}' <= c && c <= '\u{d}'
    ||| c == ' '
    ||| c == '\u{85}'
    ||| c == '\u{a0}'
    ||| c == '\u{1680}'
    ||| '\u{2000}' <= c && c <= '\u{200a}'
    ||| c == '\u{2028}'
    ||| c == '\u{2029}'
    ||| c == '\u{202f}'
    ||| c == '\u{205f}'
    ||| c == '\u{3000}'
}

fn is_whitespace(c: char) -> (b: bool)
    ensures
        b == whitespace_char(c),
{
    match c {
        '\u{9}'..='\u{d}' => true,
        ' ' => true,
        '\u{85}' => true,
        '\u{a0}' => true,
        '\u{1680}' => true,
        '\u{2000}'..='\u{200a}' => true,
        '\u{2028}' => true,
        '\u{2029}' => true,
        '\u{202f}' => true,
        '\u{205f}' => true,
        '\u{3000}' => true,
        _ => false,
    }
}

/// All characters of the text are ASCII characters.
pub open spec fn is_ascii_text(text: Seq<char>) -> bool {
    forall|i: int| 0 <= i < text.len() ==> #[trigger] text[i] <= '\u{7f}'
}

/// The text with its ASCII letters in lower case.
pub open spec fn ascii_lower_text(text: Seq<char>) -> Seq<char> {
    text.map_values(|c: char| ascii_lower(c))
}

/// The Unicode lower case of a text, as the standard library's `str::to_lowercase`
/// writes it.
pub uninterp spec fn unicode_lower_text(text: Seq<char>) -> Seq<char>;

/// A text in lower case.
pub open spec fn lowercase_text(text: Seq<char>) -> Seq<char> {
    if is_ascii_text(text) {
        ascii_lower_text(text)
    } else {
        unicode_lower_text(text)
    }
}

/// Calls `str::to_lowercase`: the Unicode lower case of the text. Of an ASCII text
/// that is the text with its ASCII letters in lower case; of any other it is named,
/// not spelled out.
#[verifier::external_body]
pub(crate) fn lowercase(text: &str) -> (lower: String)
    ensures
        lower@ == (if is_ascii_text(text@) {
            ascii_lower_text(text@)
        } else {
            unicode_lower_text(text@)
        }),
{
    text.to_lowercase()
}

/// `needle` stands in `text` at position `at`.
pub open spec fn occurs_at(text: Seq<char>, needle: Seq<char>, at: int) -> bool {
    &&& 0 <= at
    &&& at + needle.len() <= text.len()
    &&& text.subrange(at, at + needle.len()) == needle
}

/// `needle` stands somewhere in `text`.
pub open spec fn contains_text(text: Seq<char>, needle: Seq<char>) -> bool {
    exists|at: int| #[trigger] occurs_at(text, needle, at)
}

/// The text without its leading white space.
pub open spec fn trim_start(text: Seq<char>) -> Seq<char>
    decreases text.len(),
{
    if text.len() > 0 && whitespace_char(text[0]) {
        trim_start(text.drop_first())
    } else {
        text
    }
}

/// The text without its trailing white space.
pub open spec fn trim_end(text: Seq<char>) -> Seq<char>
    decreases text.len(),
{
    if text.len() > 0 && whitespace_char(text.last()) {
        trim_end(text.drop_last())
    } else {
        text
    }
}

/// The text without white space at either end.
pub open spec fn trimmed(text: Seq<char>) -> Seq<char> {
    trim_end(trim_start(text))
}

/// The characters before the first white space.
pub open spec fn leading_word(text: Seq<char>) -> Seq<char>
    decreases text.len(),
{
    if text.len() == 0 || whitespace_char(text[0]) {
        Seq::empty()
    } else {
        seq![text[0]] + leading_word(text.drop_first())
    }
}

/// The characters of a string.
pub fn chars_of(text: &str) -> (chars: Vec<char>)
    ensures
        chars@ == text@,
{
    let mut chars: Vec<char> = Vec::new();
    for c in it: text.chars()
        invariant
            chars@ == text@.take(it.index()),
            it.seq() == text@,
    {
        chars.push(c);
    }
    chars
}

/// Whether two texts are the same.
pub fn str_eq(a: &str, b: &str) -> (same: bool)
    ensures
        same == (a@ == b@),
{
    a.to_owned() == b.to_owned()
}

fn chars_occur_at(text: &Vec<char>, needle: &Vec<char>, at: usize) -> (found: bool)
    requires
        at + needle.len() <= text.len(),
    ensures
        found == occurs_at(text@, needle@, at as int),
{
    for i in 0..needle.len()
        invariant
            at + needle.len() <= text.len(),
            forall|j: int| 0 <= j < i ==> text@[at + j] == needle@[j],
    {
        if text[at + i] != needle[i] {
            return false;
        }
    }
    assert(text@.subrange(at as int, at + needle@.len()) =~= needle@);
    true
}

/// Whether `text` begins with `prefix`.
pub fn starts_with(text: &str, prefix: &str) -> (found: bool)
    ensures
        found == occurs_at(text@, prefix@, 0),
{
    let t = chars_of(text);
    let p = chars_of(prefix);
    if p.len() > t.len() {
        return false;
    }
    chars_occur_at(&t, &p, 0)
}

/// The first position at which `needle` stands in `text`.
pub fn find(text: &str, needle: &str) -> (at: Option<usize>)
    ensures
        at is Some <==> contains_text(text@, needle@),
        at matches Some(i) ==> occurs_at(text@, needle@, i as int) && forall|j: int|
            0 <= j < i ==> !occurs_at(text@, needle@, j),
{
    let t = chars_of(text);
    let n = chars_of(needle);
    if n.len() > t.len() {
        return None;
    }
    let last: usize = t.len() - n.len();
    let mut i: usize = 0;
    while i <= last
        invariant
            t@ == text@,
            n@ == needle@,
            last + n.len() == t.len(),
            i <= last + 1,
            forall|j: int| 0 <= j < i ==> !occurs_at(text@, needle@, j),
        decreases last + 1 - i,
    {
        if chars_occur_at(&t, &n, i) {
            return Some(i);
        }
        if i == last {
            return None;
        }
        i = i + 1;
    }
    None
}

/// Whether `needle` stands somewhere in `text`.
pub fn contains(text: &str, needle: &str) -> (found: bool)
    ensures
        found == contains_text(text@, needle@),
{
    find(text, needle).is_some()
}

/// The text without white space at either end.
pub fn trim(text: &str) -> (core: String)
    ensures
        core@ == trimmed(text@),
{
    let chars = chars_of(text);
    let mut lo: usize = 0;
    assert(text@.skip(0) =~= text@);
    while lo < chars.len() && is_whitespace(chars[lo])
        invariant
            chars@ == text@,
            lo <= chars.len(),
            trim_start(text@) == trim_start(text@.skip(lo as int)),
        decreases chars.len() - lo,
    {
        assert(text@.skip(lo as int).drop_first() =~= text@.skip(lo + 1));
        lo = lo + 1;
    }
    let ghost rest = text@.skip(lo as int);
    let mut hi: usize = chars.len();
    while lo < hi && is_whitespace(chars[hi - 1])
        invariant
            chars@ == text@,
            lo <= hi <= chars.len(),
            trim_end(rest) == trim_end(text@.subrange(lo as int, hi as int)),
        decreases hi,
    {
        assert(text@.subrange(lo as int, hi as int).drop_last() =~= text@.subrange(
            lo as int,
            hi - 1,
        ));
        hi = hi - 1;
    }
    text.substring_char(lo, hi).to_owned()
}

/// The first word of a text: what stands between its leading white space and
/// the white space after that. A text of white space alone has none.
pub open spec fn first_word_of(text: Seq<char>) -> Option<Seq<char>> {
    let word = leading_word(trim_start(text));
    if word.len() == 0 {
        None
    } else {
        Some(word)
    }
}

/// The first word of a text.
pub fn first_word(text: &str) -> (word: Option<String>)
    ensures
        word.deep_view() == first_word_of(text@),
{
    let chars = chars_of(text);
    let mut lo: usize = 0;
    assert(text@.skip(0) =~= text@);
    while lo < chars.len() && is_whitespace(chars[lo])
        invariant
            chars@ == text@,
            lo <= chars.len(),
            trim_start(text@) == trim_start(text@.skip(lo as int)),
        decreases chars.len() - lo,
    {
        assert(text@.skip(lo as int).drop_first() =~= text@.skip(lo + 1));
        lo = lo + 1;
    }
    let ghost rest = text@.skip(lo as int);
    let mut hi: usize = lo;
    while hi < chars.len() && !is_whitespace(chars[hi])
        invariant
            chars@ == text@,
            lo <= hi <= chars.len(),
            rest == text@.skip(lo as int),
            leading_word(rest) =~= text@.subrange(lo as int, hi as int) + leading_word(
                text@.skip(hi as int),
            ),
        decreases chars.len() - hi,
    {
        assert(text@.skip(hi as int).drop_first() =~= text@.skip(hi + 1));
        hi = hi + 1;
    }
    if lo == hi {
        None
    } else {
        Some(text.substring_char(lo, hi).to_owned())
    }
}

/// A decimal digit.
pub open spec fn is_digit(c: char) -> bool {
    '0' <= c <= '9'
}

/// The number that decimal digits write.
pub open spec fn digits_value(digits: Seq<char>) -> nat
    decreases digits.len(),
{
    if digits.len() == 0 {
        0
    } else {
        digits_value(digits.drop_last()) * 10 + (digits.last() as nat - '0' as nat) as nat
    }
}

/// The digits of a number text: what follows an optional plus sign.
pub open spec fn number_digits(text: Seq<char>) -> Seq<char> {
    if text.len() > 0 && text[0] == '+' {
        text.drop_first()
    } else {
        text
    }
}

/// The unsigned number of 64 bits that a text writes: an optional plus sign and
/// one or more decimal digits, within range.
pub open spec fn u64_of(text: Seq<char>) -> Option<u64> {
    let digits = number_digits(text);
    if digits.len() > 0 && (forall|i: int| 0 <= i < digits.len() ==> is_digit(#[trigger] digits[i]))
        && digits_value(digits) <= u64::MAX {
        Some(digits_value(digits) as u64)
    } else {
        None
    }
}

proof fn lemma_digits_grow(digits: Seq<char>, n: int)
    requires
        0 <= n <= digits.len(),
    ensures
        digits_value(digits.take(n)) <= digits_value(digits),
    decreases digits.len(),
{
    if n < digits.len() {
        lemma_digits_grow(digits.drop_last(), n);
        assert(digits.drop_last().take(n) =~= digits.take(n));
    } else {
        assert(digits.take(n) =~= digits);
    }
}

/// Reads an unsigned number of 64 bits.
pub fn parse_u64(text: &str) -> (number: Option<u64>)
    ensures
        number == u64_of(text@),
{
    let chars = chars_of(text);
    let start: usize = if chars.len() > 0 && chars[0] == '+' {
        1
    } else {
        0
    };
    let ghost digits = number_digits(text@);
    if start == chars.len() {
        return None;
    }
    let mut value: u64 = 0;
    let mut i: usize = start;
    while i < chars.len()
        invariant
            chars@ == text@,
            start <= i <= chars.len(),
            digits == text@.skip(start as int),
            digits == number_digits(text@),
            value == digits_value(digits.take(i - start)),
            forall|j: int| 0 <= j < i - start ==> is_digit(#[trigger] digits[j]),
        decreases chars.len() - i,
    {
        let c = chars[i];
        let ghost k = i - start;
        assert(digits[k] == c);
        if c < '0' || c > '9' {
            return None;
        }
        let d: u64 = (c as u32 - '0' as u32) as u64;
        assert(digits.take(k + 1).drop_last() =~= digits.take(k));
        proof {
            lemma_digits_grow(digits, k + 1);
        }
        if value > (u64::MAX - d) / 10 {
            return None;
        }
        value = value * 10 + d;
        i = i + 1;
    }
    assert(digits.take(digits.len() as int) =~= digits);
    Some(value)
}

/// The character of a decimal digit.
pub open spec fn digit_char(d: nat) -> char {
    (('0' as nat + d) as u32) as char
}

/// A number in decimal.
pub open spec fn decimal_text(n: nat) -> Seq<char>
    decreases n,
{
    if n < 10 {
        seq![digit_char(n)]
    } else {
        decimal_text(n / 10).push(digit_char(n % 10))
    }
}

/// Writes a number in decimal.
pub fn decimal(n: u128) -> (text: String)
    ensures
        text@ == decimal_text(n as nat),
    decreases n,
{
    let digit: &str = match n % 10 {
        0 => "0",
        1 => "1",
        2 => "2",
        3 => "3",
        4 => "4",
        5 => "5",
        6 => "6",
        7 => "7",
        8 => "8",
        _ => "9",
    };
    proof {
        reveal_strlit("0");
        reveal_strlit("1");
        reveal_strlit("2");
        reveal_strlit("3");
        reveal_strlit("4");
        reveal_strlit("5");
        reveal_strlit("6");
        reveal_strlit("7");
        reveal_strlit("8");
        reveal_strlit("9");
    }
    if n < 10 {
        digit.to_owned()
    } else {
        let mut text = decimal(n / 10);
        text.append(digit);
        text
    }
}

/// An ASCII letter in lower case; any other character as it is.
pub open spec fn ascii_lower(c: char) -> char {
    if 'A' <= c <= 'Z' {
        ((c as u32 + 32) as u32) as char
    } else {
        c
    }
}

/// Two texts differ at most in the case of ASCII letters.
pub open spec fn same_ignoring_ascii_case(a: Seq<char>, b: Seq<char>) -> bool {
    &&& a.len() == b.len()
    &&& forall|i: int| 0 <= i < a.len() ==> ascii_lower(#[trigger] a[i]) == ascii_lower(b[i])
}

fn lower_code(c: char) -> (code: u32)
    ensures
        code == ascii_lower(c) as u32,
{
    if 'A' <= c && c <= 'Z' {
        c as u32 + 32
    } else {
        c as u32
    }
}

/// Whether two texts differ at most in the case of ASCII letters.
pub fn eq_ignore_ascii_case(a: &str, b: &str) -> (same: bool)
    ensures
        same == same_ignoring_ascii_case(a@, b@),
{
    let x = chars_of(a);
    let y = chars_of(b);
    if x.len() != y.len() {
        return false;
    }
    for i in 0..x.len()
        invariant
            x@ == a@,
            y@ == b@,
            x.len() == y.len(),
            forall|j: int| 0 <= j < i ==> ascii_lower(#[trigger] a@[j]) == ascii_lower(b@[j]),
    {
        if lower_code(x[i]) != lower_code(y[i]) {
            return false;
        }
    }
    true
}

/// One text after another.
pub fn join(a: &str, b: &str) -> (both: String)
    ensures
        both@ == a@ + b@,
{
    let mut both = a.to_owned();
    both.append(b);
    both
}

/// The text without its first `n` characters.
pub fn skip_chars(text: &str, n: usize) -> (rest: String)
    requires
        n <= text@.len(),
    ensures
        rest@ == text@.skip(n as int),
{
    let all = text.unicode_len();
    text.substring_char(n, all).to_owned()
}

/// At most the first `n` characters of a text.
pub fn take_chars(text: &str, n: usize) -> (front: String)
    ensures
        front@ == (if n <= text@.len() {
            text@.take(n as int)
        } else {
            text@
        }),
{
    let all = text.unicode_len();
    let to: usize = if n <= all {
        n
    } else {
        all
    };
    text.substring_char(0, to).to_owned()
}

/// The text from the first place on at which `needle` stands.
pub open spec fn tail_at(text: Seq<char>, needle: Seq<char>) -> Option<Seq<char>>
    decreases text.len(),
{
    if occurs_at(text, needle, 0) {
        Some(text)
    } else if text.len() == 0 {
        None
    } else {
        tail_at(text.drop_first(), needle)
    }
}

proof fn lemma_tail_at(text: Seq<char>, needle: Seq<char>, at: int)
    requires
        occurs_at(text, needle, at),
        forall|j: int| 0 <= j < at ==> !occurs_at(text, needle, j),
    ensures
        tail_at(text, needle) == Some(text.skip(at)),
    decreases at,
{
    if at == 0 {
    } else {
        let rest = text.drop_first();
        assert forall|j: int| 0 <= j < text.len() implies occurs_at(rest, needle, j) == occurs_at(
            text,
            needle,
            j + 1,
        ) by {
            if j + 1 + needle.len() <= text.len() {
                assert(rest.subrange(j, j + needle.len()) =~= text.subrange(
                    j + 1,
                    j + 1 + needle.len(),
                ));
            }
        }
        lemma_tail_at(rest, needle, at - 1);
    }
}

proof fn lemma_no_tail(text: Seq<char>, needle: Seq<char>)
    requires
        !contains_text(text, needle),
    ensures
        tail_at(text, needle) is None,
    decreases text.len(),
{
    if text.len() > 0 {
        let rest = text.drop_first();
        assert forall|j: int| !occurs_at(rest, needle, j) by {
            if occurs_at(rest, needle, j) {
                assert(rest.subrange(j, j + needle.len()) =~= text.subrange(
                    j + 1,
                    j + 1 + needle.len(),
                ));
                assert(occurs_at(text, needle, j + 1));
            }
        }
        lemma_no_tail(rest, needle);
    }
}

/// The text from the first place on at which `needle` stands.
pub fn tail_from(text: &str, needle: &str) -> (tail: Option<String>)
    ensures
        tail.deep_view() == tail_at(text@, needle@),
{
    match find(text, needle) {
        Some(at) => {
            proof {
                lemma_tail_at(text@, needle@, at as int);
            }
            Some(skip_chars(text, at))
        },
        None => {
            proof {
                lemma_no_tail(text@, needle@);
            }
            None
        },
    }
}

// ── Laws ────────────────────────────────────────────────────────────────

/// A text is found where it was put.
pub proof fn law_parts_are_found(before: Seq<char>, needle: Seq<char>, after: Seq<char>)
    ensures
        occurs_at(before + needle + after, needle, before.len() as int),
        contains_text(before + needle + after, needle),
{
    let text = before + needle + after;
    let at = before.len() as int;
    assert(text.subrange(at, at + needle.len()) =~= needle);
    assert(occurs_at(text, needle, before.len() as int));
}

/// Where a text is found, it stands between what is before it and what is after it.
pub proof fn law_found_parts_stand_there(text: Seq<char>, needle: Seq<char>, at: int)
    requires
        occurs_at(text, needle, at),
    ensures
        0 <= at,
        at + needle.len() <= text.len(),
        text == text.take(at) + needle + text.skip(at + needle.len()),
{
    assert(text =~= text.take(at) + needle + text.skip(at + needle.len())) by {
        let part = text.subrange(at, at + needle.len());
        assert forall|i: int| at <= i < at + needle.len() implies text[i] == needle[i - at] by {
            assert(part[i - at] == text[i]);
        }
    }
}

proof fn lemma_leading_space_goes(front: Seq<char>, rest: Seq<char>)
    requires
        forall|i: int| 0 <= i < front.len() ==> whitespace_char(#[trigger] front[i]),
        rest.len() > 0 ==> !whitespace_char(rest[0]),
    ensures
        trim_start(front + rest) == rest,
    decreases front.len(),
{
    let all = front + rest;
    if front.len() == 0 {
        assert(all =~= rest);
    } else {
        assert(all[0] == front[0]);
        assert(all.drop_first() =~= front.drop_first() + rest);
        lemma_leading_space_goes(front.drop_first(), rest);
    }
}

proof fn lemma_trailing_space_goes(rest: Seq<char>, back: Seq<char>)
    requires
        forall|i: int| 0 <= i < back.len() ==> whitespace_char(#[trigger] back[i]),
        rest.len() > 0 ==> !whitespace_char(rest.last()),
    ensures
        trim_end(rest + back) == rest,
    decreases back.len(),
{
    let all = rest + back;
    if back.len() == 0 {
        assert(all =~= rest);
    } else {
        assert(all.last() == back.last());
        assert(all.drop_last() =~= rest + back.drop_last());
        lemma_trailing_space_goes(rest, back.drop_last());
    }
}

/// Trimming takes the white space from both ends of a text, and nothing else.
pub proof fn law_trimming_takes_the_space(front: Seq<char>, core: Seq<char>, back: Seq<char>)
    requires
        forall|i: int| 0 <= i < front.len() ==> whitespace_char(#[trigger] front[i]),
        forall|i: int| 0 <= i < back.len() ==> whitespace_char(#[trigger] back[i]),
        core.len() > 0,
        !whitespace_char(core[0]),
        !whitespace_char(core.last()),
    ensures
        trimmed(front + core + back) == core,
{
    assert(front + core + back =~= front + (core + back));
    lemma_leading_space_goes(front, core + back);
    lemma_trailing_space_goes(core, back);
}

/// Of a text of white space alone, nothing is left.
pub proof fn law_space_alone_is_nothing(text: Seq<char>)
    requires
        forall|i: int| 0 <= i < text.len() ==> whitespace_char(#[trigger] text[i]),
    ensures
        trimmed(text).len() == 0,
        first_word_of(text) is None,
{
    lemma_leading_space_goes(text, Seq::empty());
    assert(text + Seq::<char>::empty() =~= text);
}

/// The first word of a text stands between white space and white space.
pub proof fn law_first_word_stands_apart(front: Seq<char>, word: Seq<char>, rest: Seq<char>)
    requires
        forall|i: int| 0 <= i < front.len() ==> whitespace_char(#[trigger] front[i]),
        word.len() > 0,
        forall|i: int| 0 <= i < word.len() ==> !whitespace_char(#[trigger] word[i]),
        rest.len() > 0 ==> whitespace_char(rest[0]),
    ensures
        first_word_of(front + word + rest) == Some(word),
{
    assert(front + word + rest =~= front + (word + rest));
    lemma_leading_space_goes(front, word + rest);
    lemma_leading_word(word, rest);
}

proof fn lemma_leading_word(word: Seq<char>, rest: Seq<char>)
    requires
        forall|i: int| 0 <= i < word.len() ==> !whitespace_char(#[trigger] word[i]),
        rest.len() > 0 ==> whitespace_char(rest[0]),
    ensures
        leading_word(word + rest) == word,
    decreases word.len(),
{
    let all = word + rest;
    if word.len() == 0 {
        assert(all =~= rest);
    } else {
        assert(all[0] == word[0]);
        assert(all.drop_first() =~= word.drop_first() + rest);
        lemma_leading_word(word.drop_first(), rest);
        assert(seq![word[0]] + word.drop_first() =~= word);
    }
}

/// A text is cut at the first place at which another stands, and is not cut where it
/// stands nowhere.
pub proof fn law_text_is_cut_at_the_first_place(text: Seq<char>, needle: Seq<char>)
    ensures
        match tail_at(text, needle) {
            Some(tail) => exists|at: int|
                {
                    &&& #[trigger] occurs_at(text, needle, at)
                    &&& tail == text.skip(at)
                    &&& forall|j: int| 0 <= j < at ==> !occurs_at(text, needle, j)
                },
            None => !contains_text(text, needle),
        },
{
    if contains_text(text, needle) {
        let some = choose|at: int| occurs_at(text, needle, at);
        let at = first_place(text, needle, some);
        lemma_first_place(text, needle, some);
        lemma_tail_at(text, needle, at);
        assert(occurs_at(text, needle, at));
    } else {
        lemma_no_tail(text, needle);
    }
}

spec fn first_place(text: Seq<char>, needle: Seq<char>, at: int) -> int
    decreases at,
{
    if at > 0 && exists|j: int| 0 <= j < at && occurs_at(text, needle, j) {
        let j = choose|j: int| 0 <= j < at && occurs_at(text, needle, j);
        if 0 <= j < at {
            first_place(text, needle, j)
        } else {
            at
        }
    } else {
        at
    }
}

proof fn lemma_first_place(text: Seq<char>, needle: Seq<char>, at: int)
    requires
        occurs_at(text, needle, at),
    ensures
        ({
            let first = first_place(text, needle, at);
            occurs_at(text, needle, first) && forall|j: int|
                0 <= j < first ==> !occurs_at(text, needle, j)
        }),
    decreases at,
{
    if at > 0 && exists|j: int| 0 <= j < at && occurs_at(text, needle, j) {
        let j = choose|j: int| 0 <= j < at && occurs_at(text, needle, j);
        lemma_first_place(text, needle, j);
    }
}

/// A number in decimal is its digits: one below ten is the digit itself, and any other
/// has its last digit at the end.
pub proof fn law_decimal_is_made_of_digits(n: nat)
    ensures
        n < 10 ==> decimal_text(n).len() == 1 && decimal_text(n)[0] as int == 48 + n,
        n >= 10 ==> decimal_text(n).drop_last() == decimal_text(n / 10) && decimal_text(
            n,
        ).last() as int == 48 + n % 10,
        forall|i: int| 0 <= i < decimal_text(n).len() ==> is_digit(#[trigger] decimal_text(n)[i]),
        decimal_text(n).len() > 0,
        digits_value(decimal_text(n)) == n,
    decreases n,
{
    if n < 10 {
        let text = decimal_text(n);
        assert(text.drop_last() =~= Seq::empty());
        assert(text.last() == text[0]);
        assert(digits_value(Seq::empty()) == 0);
    } else {
        law_decimal_is_made_of_digits(n / 10);
        assert(decimal_text(n).drop_last() =~= decimal_text(n / 10));
    }
}

/// A number that was written in decimal is read as the same number, with a plus sign
/// before it or without.
pub proof fn law_decimal_is_read_back(n: u64)
    ensures
        u64_of(decimal_text(n as nat)) == Some(n),
        u64_of(seq!['+'] + decimal_text(n as nat)) == Some(n),
{
    law_decimal_is_made_of_digits(n as nat);
    let text = decimal_text(n as nat);
    assert(is_digit(text[0]));
    assert((seq!['+'] + text).drop_first() =~= text);
}

/// Only digits behind at most one plus sign are a number, and none that 64 bits do not
/// hold.
pub proof fn law_other_texts_are_no_numbers(text: Seq<char>)
    ensures
        text.len() == 0 ==> u64_of(text) is None,
        text == seq!['+'] ==> u64_of(text) is None,
        forall|i: int|
            0 <= i < text.len() && !(text[i] == '+' && i == 0) && !('0' <= #[trigger] text[i]
                <= '9') ==> u64_of(text) is None,
        u64_of(text) is None && text.len() > 0 && (forall|i: int|
            0 <= i < text.len() ==> '0' <= #[trigger] text[i] <= '9') ==> digits_value(text)
            > u64::MAX,
{
    let digits = number_digits(text);
    assert forall|i: int|
        0 <= i < text.len() && !(text[i] == '+' && i == 0) && !('0' <= #[trigger] text[i]
            <= '9') implies u64_of(text) is None by {
        if text[0] == '+' {
            assert(digits[i - 1] == text[i]);
            assert(!is_digit(digits[i - 1]));
        } else {
            assert(!is_digit(digits[i]));
        }
    }
    if text.len() > 0 && (forall|i: int| 0 <= i < text.len() ==> '0' <= #[trigger] text[i] <= '9')
    {
        assert('0' <= text[0] <= '9');
    }
}

/// Where case is ignored, only the 26 letters of ASCII count as the same in both
/// cases.
pub proof fn law_only_ascii_letters_change(c: char)
    ensures
        65 <= c as int <= 90 ==> ascii_lower(c) as int == c as int + 32,
        !(65 <= c as int <= 90) ==> ascii_lower(c) == c,
{
}

/// A text of ASCII characters has the same length in lower case, its capital letters
/// have become small ones, and all else is as it was.
pub proof fn law_ascii_text_is_lowered(text: Seq<char>)
    requires
        forall|i: int| 0 <= i < text.len() ==> #[trigger] text[i] as int <= 127,
    ensures
        lowercase_text(text).len() == text.len(),
        forall|i: int|
            0 <= i < text.len() ==> (#[trigger] lowercase_text(text)[i]) as int == (if 65
                <= text[i] as int <= 90 {
                text[i] as int + 32
            } else {
                text[i] as int
            }),
{
    assert(is_ascii_text(text));
    assert forall|i: int| 0 <= i < text.len() implies (#[trigger] lowercase_text(text)[i]) as int
        == (if 65 <= text[i] as int <= 90 {
        text[i] as int + 32
    } else {
        text[i] as int
    }) by {
        law_only_ascii_letters_change(text[i]);
    }
}

} // verus!
