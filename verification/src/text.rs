//! Text as sequences of characters: searching, splitting, joining, trimming, and decimal numbers.
use vstd::prelude::*;

verus! {

/// `String::push` puts one character at the end of the text.
pub assume_specification[ std::string::String::push ](text: &mut std::string::String, ch: char)
    ensures
        final(text)@ == old(text)@.push(ch),
;

/// The characters with the `White_Space` property of the Unicode Character Database.
pub open spec fn white_space(c: char) -> bool {
    let code = c as u32;
    ||| 9 <= code <= 13
    ||| code == 32
    ||| code == 0x85
    ||| code == 0xA0
    ||| code == 0x1680
    ||| 0x2000 <= code <= 0x200A
    ||| code == 0x2028
    ||| code == 0x2029
    ||| code == 0x202F
    ||| code == 0x205F
    ||| code == 0x3000
}

/// `char::is_whitespace` answers whether a character has Unicode's `White_Space` property, which
/// [`white_space`] lists.
pub assume_specification[ char::is_whitespace ](c: char) -> (r: bool)
    ensures
        r == white_space(c),
;

/// What `str::to_lowercase` gives: the lowercase equivalent by Unicode's `Lowercase` mapping.
pub uninterp spec fn lowercased(text: Seq<char>) -> Seq<char>;

/// `str::to_lowercase`, whose mapping is Unicode's; [`lowercased`] names it.
#[verifier::external_body]
pub(crate) fn to_lowercase(text: &str) -> (r: String)
    ensures
        r@ == lowercased(text@),
{
    text.to_lowercase()
}

/// The contents of an optional text.
pub open spec fn maybe_text(text: Option<String>) -> Option<Seq<char>> {
    match text {
        Some(s) => Some(s@),
        None => None,
    }
}

/// The characters of a text.
pub fn chars_of(text: &str) -> (r: Vec<char>)
    ensures
        r@ == text@,
{
    let mut out: Vec<char> = Vec::new();
    let n: usize = text.unicode_len();
    let mut i: usize = 0;
    while i < n
        invariant
            n == text@.len(),
            i <= n,
            out@ == text@.take(i as int),
        decreases n - i,
    {
        out.push(text.get_char(i));
        i += 1;
        assert(out@ =~= text@.take(i as int));
    }
    assert(text@.take(text@.len() as int) == text@);
    out
}

/// A text of characters.
pub fn from_chars(chars: &Vec<char>) -> (r: String)
    ensures
        r@ == chars@,
{
    let mut out: String = String::new();
    let mut i: usize = 0;
    while i < chars.len()
        invariant
            i <= chars.len(),
            out@ == chars@.take(i as int),
        decreases chars.len() - i,
    {
        out.push(chars[i]);
        i += 1;
        assert(out@ =~= chars@.take(i as int));
    }
    assert(chars@.take(chars@.len() as int) == chars@);
    out
}

/// The characters from `from` up to, not including, `to`.
pub fn slice(chars: &Vec<char>, from: usize, to: usize) -> (r: Vec<char>)
    requires
        from <= to <= chars.len(),
    ensures
        r@ == chars@.subrange(from as int, to as int),
{
    let mut out: Vec<char> = Vec::new();
    let mut i: usize = from;
    while i < to
        invariant
            from <= i <= to <= chars.len(),
            out@ == chars@.subrange(from as int, i as int),
        decreases to - i,
    {
        out.push(chars[i]);
        i += 1;
        assert(out@ =~= chars@.subrange(from as int, i as int));
    }
    out
}

/// Whether two texts are the same.
pub fn same_chars(a: &Vec<char>, b: &Vec<char>) -> (r: bool)
    ensures
        r == (a@ == b@),
{
    if a.len() != b.len() {
        return false;
    }
    let mut i: usize = 0;
    while i < a.len()
        invariant
            i <= a.len(),
            a.len() == b.len(),
            forall|j: int| 0 <= j < i ==> a[j] == b[j],
        decreases a.len() - i,
    {
        if a[i] != b[i] {
            return false;
        }
        i += 1;
    }
    assert(a@ =~= b@);
    true
}

/// Whether two texts are the same.
pub fn same_text(a: &str, b: &str) -> (r: bool)
    ensures
        r == (a@ == b@),
{
    same_chars(&chars_of(a), &chars_of(b))
}

/// `needle` stands in `text` at `at`.
pub open spec fn occurs_at(text: Seq<char>, needle: Seq<char>, at: int) -> bool {
    0 <= at && at + needle.len() <= text.len() && text.subrange(at, at + needle.len()) == needle
}

/// `at` is the first place, from `from` on, where `needle` stands in `text`.
pub open spec fn first_occurrence(text: Seq<char>, needle: Seq<char>, from: int, at: int) -> bool {
    &&& from <= at
    &&& occurs_at(text, needle, at)
    &&& forall|i: int| from <= i < at ==> !#[trigger] occurs_at(text, needle, i)
}

/// The first place, from `from` on, where `needle` stands in `text`, if it does.
pub open spec fn located(text: Seq<char>, needle: Seq<char>, from: int) -> Option<int> {
    if exists|at: int| first_occurrence(text, needle, from, at) {
        Some(choose|at: int| first_occurrence(text, needle, from, at))
    } else {
        None
    }
}

/// What [`located`] gives where there is a first place.
pub proof fn located_is(text: Seq<char>, needle: Seq<char>, from: int, at: int)
    requires
        first_occurrence(text, needle, from, at),
    ensures
        located(text, needle, from) == Some(at),
{
    let c = choose|c: int| first_occurrence(text, needle, from, c);
    assert(first_occurrence(text, needle, from, c));
    if c < at {
        assert(occurs_at(text, needle, c));
    } else if at < c {
        assert(occurs_at(text, needle, at));
    }
}

/// What [`located`] gives where the needle stands nowhere.
pub proof fn located_is_none(text: Seq<char>, needle: Seq<char>, from: int)
    requires
        forall|i: int| from <= i ==> !#[trigger] occurs_at(text, needle, i),
    ensures
        located(text, needle, from) is None,
{
    if exists|at: int| first_occurrence(text, needle, from, at) {
        let at = choose|at: int| first_occurrence(text, needle, from, at);
        assert(occurs_at(text, needle, at));
    }
}

fn stands_at(text: &Vec<char>, needle: &Vec<char>, at: usize) -> (r: bool)
    requires
        at <= text.len(),
    ensures
        r == occurs_at(text@, needle@, at as int),
{
    if needle.len() > text.len() - at {
        return false;
    }
    let mut i: usize = 0;
    while i < needle.len()
        invariant
            i <= needle.len(),
            at + needle.len() <= text.len(),
            forall|j: int| 0 <= j < i ==> text[at + j] == needle[j],
        decreases needle.len() - i,
    {
        if text[at + i] != needle[i] {
            proof {
                let sub = text@.subrange(at as int, at + needle@.len());
                assert(sub[i as int] != needle@[i as int]);
            }
            return false;
        }
        i += 1;
    }
    assert(text@.subrange(at as int, at + needle@.len()) =~= needle@);
    true
}

/// The first place, from `from` on, where `needle` stands in `text`, if it does.
pub fn find(text: &Vec<char>, needle: &Vec<char>, from: usize) -> (r: Option<usize>)
    requires
        from <= text.len(),
    ensures
        match r {
            Some(at) => located(text@, needle@, from as int) == Some(at as int) && occurs_at(
                text@,
                needle@,
                at as int,
            ) && from <= at && at + needle.len() <= text.len(),
            None => located(text@, needle@, from as int) is None,
        },
{
    let mut i: usize = from;
    loop
        invariant
            from <= i <= text.len(),
            forall|j: int| from <= j < i ==> !#[trigger] occurs_at(text@, needle@, j),
        decreases text.len() - i,
    {
        if stands_at(text, needle, i) {
            proof {
                assert(first_occurrence(text@, needle@, from as int, i as int));
                located_is(text@, needle@, from as int, i as int);
            }
            return Some(i);
        }
        if i == text.len() {
            proof {
                assert forall|j: int| from <= j implies !#[trigger] occurs_at(text@, needle@, j) by {
                    if j > i {
                        assert(!(j + needle@.len() <= text@.len()));
                    }
                }
                located_is_none(text@, needle@, from as int);
            }
            return None;
        }
        i += 1;
    }
}

/// A single character as a text.
pub fn one_char(c: char) -> (r: Vec<char>)
    ensures
        r@ == seq![c],
{
    let mut out: Vec<char> = Vec::new();
    out.push(c);
    assert(out@ =~= seq![c]);
    out
}

/// Whether `needle` stands somewhere in `text`.
pub fn contains(text: &str, needle: &str) -> (r: bool)
    ensures
        r == exists|at: int| occurs_at(text@, needle@, at),
{
    let chars: Vec<char> = chars_of(text);
    let wanted: Vec<char> = chars_of(needle);
    let found: Option<usize> = find(&chars, &wanted, 0);
    proof {
        if found is Some {
            assert(occurs_at(text@, needle@, found->0 as int));
        } else if exists|at: int| occurs_at(text@, needle@, at) {
            let at = choose|at: int| occurs_at(text@, needle@, at);
            some_occurrence_is_first(text@, needle@, at);
            let first = choose|i: int| first_occurrence(text@, needle@, 0, i);
            located_is(text@, needle@, 0, first);
        }
    }
    found.is_some()
}

/// Where a needle stands somewhere, it stands somewhere first.
pub proof fn some_occurrence_is_first(text: Seq<char>, needle: Seq<char>, at: int)
    requires
        occurs_at(text, needle, at),
    ensures
        exists|i: int| first_occurrence(text, needle, 0, i),
    decreases at,
{
    if forall|i: int| 0 <= i < at ==> !#[trigger] occurs_at(text, needle, i) {
        assert(first_occurrence(text, needle, 0, at));
    } else {
        let i = choose|i: int| 0 <= i < at && #[trigger] occurs_at(text, needle, i);
        some_occurrence_is_first(text, needle, i);
    }
}

/// The parts of a text between separators; a text without one is its own only part.
pub open spec fn parts(text: Seq<char>, separator: char) -> Seq<Seq<char>>
    decreases text.len(),
{
    if text.len() == 0 {
        seq![Seq::empty()]
    } else if text.last() == separator {
        parts(text.drop_last(), separator).push(Seq::empty())
    } else {
        let before = parts(text.drop_last(), separator);
        before.update(before.len() - 1, before.last().push(text.last()))
    }
}

/// Parts put together with a separator between them.
pub open spec fn joined(pieces: Seq<Seq<char>>, separator: Seq<char>) -> Seq<char>
    decreases pieces.len(),
{
    if pieces.len() == 0 {
        Seq::empty()
    } else if pieces.len() == 1 {
        pieces[0]
    } else {
        joined(pieces.drop_last(), separator) + separator + pieces.last()
    }
}

/// Splitting always gives a part.
pub proof fn parts_are_some(text: Seq<char>, separator: char)
    ensures
        parts(text, separator).len() >= 1,
    decreases text.len(),
{
    if text.len() > 0 {
        parts_are_some(text.drop_last(), separator);
    }
}

/// No part holds the separator, and putting the parts together with it between them gives the text
/// back.
pub proof fn joining_undoes_splitting(text: Seq<char>, separator: char)
    ensures
        joined(parts(text, separator), seq![separator]) == text,
        forall|i: int|
            0 <= i < parts(text, separator).len() ==> !(#[trigger] parts(
                text,
                separator,
            )[i]).contains(separator),
    decreases text.len(),
{
    let all = parts(text, separator);
    if text.len() == 0 {
        assert(all[0].len() == 0);
        assert(joined(all, seq![separator]) =~= text);
    } else {
        let rest = text.drop_last();
        let before = parts(rest, separator);
        joining_undoes_splitting(rest, separator);
        parts_are_some(rest, separator);
        assert(text =~= rest.push(text.last()));
        if text.last() == separator {
            assert(all.drop_last() =~= before);
            assert(joined(all, seq![separator]) =~= rest + seq![separator] + Seq::<char>::empty());
            assert forall|i: int| 0 <= i < all.len() implies !(#[trigger] all[i]).contains(
                separator,
            ) by {
                if i < before.len() {
                    assert(all[i] == before[i]);
                }
            }
        } else {
            assert forall|i: int| 0 <= i < all.len() implies !(#[trigger] all[i]).contains(
                separator,
            ) by {
                if i < before.len() - 1 {
                    assert(all[i] == before[i]);
                } else {
                    assert(!before[i].contains(separator));
                    let grown = before[i].push(text.last());
                    if grown.contains(separator) {
                        let k = choose|k: int| 0 <= k < grown.len() && grown[k] == separator;
                        if k < before[i].len() {
                            assert(before[i][k] == separator);
                        }
                    }
                }
            }
            assert(all.drop_last() =~= before.drop_last());
            if before.len() == 1 {
                assert(joined(all, seq![separator]) =~= text);
            } else {
                assert(joined(all, seq![separator]) =~= joined(before, seq![separator]).push(
                    text.last(),
                ));
            }
        }
    }
}

/// The views of a list of texts.
pub open spec fn texts(items: Seq<String>) -> Seq<Seq<char>> {
    items.map_values(|s: String| s@)
}

/// Splits a text at every separator.
pub fn split(text: &str, separator: char) -> (r: Vec<String>)
    ensures
        texts(r@) == parts(text@, separator),
{
    let chars: Vec<char> = chars_of(text);
    let mut out: Vec<String> = Vec::new();
    let mut current: String = String::new();
    let mut i: usize = 0;
    assert(text@.take(0) =~= Seq::empty());
    assert(texts(out@).push(current@) =~= parts(text@.take(0), separator));
    while i < chars.len()
        invariant
            chars@ == text@,
            i <= chars.len(),
            texts(out@).push(current@) == parts(text@.take(i as int), separator),
        decreases chars.len() - i,
    {
        let c: char = chars[i];
        let ghost now = text@.take(i + 1);
        let ghost before = parts(text@.take(i as int), separator);
        proof {
            assert(now.drop_last() =~= text@.take(i as int));
            assert(now.last() == c);
        }
        if c == separator {
            let ghost seen = out@;
            out.push(current);
            current = String::new();
            assert(texts(out@) =~= texts(seen).push(before.last()));
            assert(texts(out@).push(current@) =~= parts(now, separator));
        } else {
            let ghost was = current@;
            current.push(c);
            assert(before.last() == was);
            assert(texts(out@).push(current@) =~= parts(now, separator));
        }
        i += 1;
    }
    assert(text@.take(text@.len() as int) == text@);
    let ghost seen = out@;
    let ghost last = current@;
    out.push(current);
    assert(texts(out@) =~= texts(seen).push(last));
    out
}

/// Puts texts together with a separator between them.
pub fn join(pieces: &Vec<String>, separator: &str) -> (r: String)
    ensures
        r@ == joined(texts(pieces@), separator@),
{
    let mut out: String = String::new();
    let mut i: usize = 0;
    assert(texts(pieces@.take(0)) =~= Seq::empty());
    while i < pieces.len()
        invariant
            i <= pieces.len(),
            out@ == joined(texts(pieces@.take(i as int)), separator@),
        decreases pieces.len() - i,
    {
        let ghost so_far = texts(pieces@.take(i as int));
        let ghost now = texts(pieces@.take(i + 1));
        assert(now.drop_last() =~= so_far);
        assert(now.last() == pieces[i as int]@);
        if i > 0 {
            out.append(separator);
        }
        out.append(pieces[i].as_str());
        i += 1;
        assert(out@ =~= joined(now, separator@));
    }
    assert(pieces@.take(pieces@.len() as int) == pieces@);
    out
}

/// `trimmed` is `text` without the white space at its two ends.
pub open spec fn trims_to(text: Seq<char>, trimmed: Seq<char>) -> bool {
    exists|from: int, to: int| #[trigger]
        trim_range(text, from, to) && trimmed == text.subrange(from, to)
}

/// What lies outside `from..to` is white space, and the range neither begins nor ends with any.
pub open spec fn trim_range(text: Seq<char>, from: int, to: int) -> bool {
    &&& 0 <= from <= to <= text.len()
    &&& forall|i: int| 0 <= i < from ==> white_space(#[trigger] text[i])
    &&& forall|i: int| to <= i < text.len() ==> white_space(#[trigger] text[i])
    &&& from < to ==> !white_space(text[from]) && !white_space(text[to - 1])
}

/// A text without the white space at its two ends.
pub open spec fn trimmed(text: Seq<char>) -> Seq<char> {
    choose|t: Seq<char>| trims_to(text, t)
}

/// There is only one way to trim a text.
pub proof fn trimming_is_one(text: Seq<char>, a: Seq<char>, b: Seq<char>)
    requires
        trims_to(text, a),
        trims_to(text, b),
    ensures
        a == b,
{
    let (f1, t1) = choose|from: int, to: int| #[trigger]
        trim_range(text, from, to) && a == text.subrange(from, to);
    let (f2, t2) = choose|from: int, to: int| #[trigger]
        trim_range(text, from, to) && b == text.subrange(from, to);
    if f1 < t1 {
        assert(!white_space(text[f1]) && !white_space(text[t1 - 1]));
    }
    if f2 < t2 {
        assert(!white_space(text[f2]) && !white_space(text[t2 - 1]));
    }
    if f1 < t1 && f2 < t2 {
        assert(f1 == f2 && t1 == t2);
    } else {
        assert(a =~= Seq::empty());
        assert(b =~= Seq::empty());
    }
}

/// Trims the white space at the two ends of a text.
pub fn trim(text: &str) -> (r: String)
    ensures
        r@ == trimmed(text@),
        trims_to(text@, r@),
{
    let chars: Vec<char> = chars_of(text);
    let mut from: usize = 0;
    while from < chars.len() && chars[from].is_whitespace()
        invariant
            from <= chars.len(),
            forall|i: int| 0 <= i < from ==> white_space(#[trigger] chars[i]),
        decreases chars.len() - from,
    {
        from += 1;
    }
    let mut to: usize = chars.len();
    while to > from && chars[to - 1].is_whitespace()
        invariant
            from <= to <= chars.len(),
            forall|i: int| to <= i < chars.len() ==> white_space(#[trigger] chars[i]),
        decreases to,
    {
        to -= 1;
    }
    proof {
        assert(trim_range(text@, from as int, to as int));
        let kept = text@.subrange(from as int, to as int);
        assert(trims_to(text@, kept));
        let t = choose|t: Seq<char>| trims_to(text@, t);
        trimming_is_one(text@, kept, t);
    }
    from_chars(&slice(&chars, from, to))
}

/// The character of a digit.
pub open spec fn digit(n: int) -> char {
    (('0' as int) + n) as char
}

/// The decimal digits of a number, without leading zeros.
pub open spec fn decimal(n: nat) -> Seq<char>
    decreases n,
{
    if n < 10 {
        seq![digit(n as int)]
    } else {
        decimal(n / 10).push(digit((n % 10) as int))
    }
}

/// The decimal text of a whole number: a minus sign before the digits of a negative one.
pub open spec fn signed_decimal(n: int) -> Seq<char> {
    if n < 0 {
        seq!['-'] + decimal((-n) as nat)
    } else {
        decimal(n as nat)
    }
}

/// The character of a digit.
pub fn digit_char(n: u64) -> (r: char)
    requires
        n < 10,
    ensures
        r == digit(n as int),
{
    (48u8 + n as u8) as char
}

/// The decimal text of a number.
pub fn format_decimal(n: u64) -> (r: String)
    ensures
        r@ == decimal(n as nat),
    decreases n,
{
    if n < 10 {
        let mut out: String = String::new();
        out.push(digit_char(n));
        assert(out@ =~= decimal(n as nat));
        out
    } else {
        let mut out: String = format_decimal(n / 10);
        out.push(digit_char(n % 10));
        out
    }
}

/// The decimal text of a whole number.
pub fn format_signed(n: i64) -> (r: String)
    ensures
        r@ == signed_decimal(n as int),
{
    if n < 0 {
        let size: u64 = (-(n as i128)) as u64;
        let mut out: String = String::new();
        out.push('-');
        let digits: String = format_decimal(size);
        out.append(digits.as_str());
        assert(out@ =~= signed_decimal(n as int));
        out
    } else {
        format_decimal(n as u64)
    }
}

/// `c` is a decimal digit.
pub open spec fn is_digit(c: char) -> bool {
    '0' <= c <= '9'
}

/// The number a run of digits stands for.
pub open spec fn digits_value(digits: Seq<char>) -> nat
    decreases digits.len(),
{
    if digits.len() == 0 {
        0
    } else {
        digits_value(digits.drop_last()) * 10 + ((digits.last() as int) - ('0' as int)) as nat
    }
}

/// Every character is a digit, and there is one.
pub open spec fn all_digits(text: Seq<char>) -> bool {
    text.len() > 0 && forall|i: int| 0 <= i < text.len() ==> is_digit(#[trigger] text[i])
}

/// The number a text stands for: digits, with a plus sign allowed before them and a minus sign where
/// `signed`. Nothing else is a number.
pub open spec fn parsed(text: Seq<char>, signed: bool) -> Option<int> {
    if all_digits(text) {
        Some(digits_value(text) as int)
    } else if text.len() > 1 && text[0] == '+' && all_digits(text.drop_first()) {
        Some(digits_value(text.drop_first()) as int)
    } else if signed && text.len() > 1 && text[0] == '-' && all_digits(text.drop_first()) {
        Some(-(digits_value(text.drop_first()) as int))
    } else {
        None
    }
}

/// The number a run of digits stands for, unless it is larger than `most`.
pub fn parse_digits(chars: &Vec<char>, from: usize, most: u64) -> (r: Option<u64>)
    requires
        from <= chars.len(),
        most < 0x1999_9999_9999_9999,
    ensures
        ({
            let digits = chars@.subrange(from as int, chars@.len() as int);
            r == (if all_digits(digits) && digits_value(digits) <= most {
                Some(digits_value(digits) as u64)
            } else {
                None
            })
        }),
{
    let ghost digits = chars@.subrange(from as int, chars@.len() as int);
    if from == chars.len() {
        return None;
    }
    let mut value: u64 = 0;
    let mut over: bool = false;
    let mut i: usize = from;
    assert(digits.take(0) =~= Seq::empty());
    while i < chars.len()
        invariant
            from <= i <= chars.len(),
            digits == chars@.subrange(from as int, chars@.len() as int),
            most < 0x1999_9999_9999_9999,
            forall|j: int| 0 <= j < i - from ==> is_digit(#[trigger] digits[j]),
            over ==> digits_value(digits.take(i - from)) > most,
            !over ==> value == digits_value(digits.take(i - from)) && value <= most,
        decreases chars.len() - i,
    {
        let c: char = chars[i];
        let ghost k = i - from;
        assert(digits[k] == c);
        if !('0' <= c && c <= '9') {
            assert(!is_digit(digits[k]));
            return None;
        }
        proof {
            assert(digits.take(k + 1).drop_last() =~= digits.take(k));
            assert(digits.take(k + 1).last() == c);
        }
        let d: u64 = (c as u32 - '0' as u32) as u64;
        if !over {
            value = value * 10 + d;
            if value > most {
                over = true;
            }
        }
        i += 1;
    }
    assert(digits.take(digits.len() as int) =~= digits);
    if over {
        None
    } else {
        Some(value)
    }
}

/// The whole number from `least` to `most` that a text stands for, if it does.
pub fn parse_number(chars: &Vec<char>, signed: bool, least: i64, most: i64) -> (r: Option<i64>)
    requires
        -0x1_0000_0000 <= least <= 0,
        0 <= most <= 0x1_0000_0000,
        !signed ==> least == 0,
    ensures
        r == (match parsed(chars@, signed) {
            Some(n) => if least <= n <= most {
                Some(n as i64)
            } else {
                None
            },
            None => None,
        }),
{
    if chars.len() == 0 {
        return None;
    }
    proof {
        assert(chars@.subrange(0, chars@.len() as int) =~= chars@);
        assert(chars@.subrange(1, chars@.len() as int) =~= chars@.drop_first());
    }
    let first: char = chars[0];
    if first == '+' {
        assert(!is_digit(chars@[0]));
        return match parse_digits(chars, 1, most as u64) {
            Some(n) => Some(n as i64),
            None => None,
        };
    }
    if signed && first == '-' {
        assert(!is_digit(chars@[0]));
        return match parse_digits(chars, 1, (-least) as u64) {
            Some(n) => Some(-(n as i64)),
            None => None,
        };
    }
    match parse_digits(chars, 0, most as u64) {
        Some(n) => Some(n as i64),
        None => None,
    }
}

/// The decimal text of a number stands for that number.
pub proof fn decimal_digits_stand_for_the_number(n: nat)
    ensures
        all_digits(decimal(n)),
        digits_value(decimal(n)) == n,
        decimal(n).len() >= 1,
    decreases n,
{
    if n < 10 {
        let d = decimal(n);
        assert(d.drop_last() =~= Seq::empty());
        assert(digits_value(d.drop_last()) == 0);
        assert(is_digit(d[0]));
    } else {
        decimal_digits_stand_for_the_number(n / 10);
        let d = decimal(n);
        assert(d.drop_last() =~= decimal(n / 10));
        assert forall|i: int| 0 <= i < d.len() implies is_digit(#[trigger] d[i]) by {
            if i < d.len() - 1 {
                assert(d[i] == decimal(n / 10)[i]);
            }
        }
    }
}

/// Reading the decimal text of a whole number gives the number back.
pub proof fn reading_undoes_writing(n: int)
    ensures
        parsed(signed_decimal(n), true) == Some(n),
        n >= 0 ==> parsed(signed_decimal(n), false) == Some(n),
{
    if n < 0 {
        decimal_digits_stand_for_the_number((-n) as nat);
        let text = signed_decimal(n);
        assert(text.drop_first() =~= decimal((-n) as nat));
        assert(text[0] == '-');
        assert(!is_digit(text[0]));
    } else {
        decimal_digits_stand_for_the_number(n as nat);
    }
}

/// A run of digits counts ones, tens, hundreds and so on from its end: what stands before another run
/// counts ten times more for every digit of that.
pub proof fn digits_count_by_place(first: Seq<char>, second: Seq<char>)
    ensures
        digits_value(first + second) == digits_value(first) * vstd::arithmetic::power::pow(
            10,
            second.len(),
        ) + digits_value(second),
    decreases second.len(),
{
    vstd::arithmetic::power::lemma_pow0(10);
    if second.len() == 0 {
        assert(first + second =~= first);
    } else {
        let rest = second.drop_last();
        digits_count_by_place(first, rest);
        assert((first + second).drop_last() =~= first + rest);
        assert((first + second).last() == second.last());
        vstd::arithmetic::power::lemma_pow_adds(10, rest.len(), 1);
        vstd::arithmetic::power::lemma_pow1(10);
        let (v, p) = (digits_value(first) as int, vstd::arithmetic::power::pow(10, rest.len()));
        assert(v * (p * 10) == (v * p) * 10) by (nonlinear_arith);
    }
}

/// A number is written without a zero in front, one character longer for every ten times.
pub proof fn a_number_is_written_without_leading_zeros(n: nat, d: nat)
    requires
        n > 0,
        d < 10,
    ensures
        decimal(n)[0] != '0',
        decimal(d).len() == 1,
        decimal(0) == seq!['0'],
        decimal(10 * n + d).len() == decimal(n).len() + 1,
        decimal(10 * n + d) == decimal(n) + decimal(d),
    decreases n,
{
    decimal_digits_stand_for_the_number(n);
    assert((10 * n + d) / 10 == n && (10 * n + d) % 10 == d);
    assert(decimal(10 * n + d) =~= decimal(n) + decimal(d));
    assert(decimal(0) =~= seq!['0']);
    if n >= 10 {
        a_number_is_written_without_leading_zeros(n / 10, d);
        decimal_digits_stand_for_the_number(n / 10);
    }
}

/// A plus sign changes nothing, and a minus sign turns the number round where signs are read; a text
/// with anything but digits behind its sign is no number.
pub proof fn a_sign_stands_before_digits(digits: Seq<char>, signed: bool)
    requires
        all_digits(digits),
    ensures
        parsed(digits, signed) == Some(digits_value(digits) as int),
        parsed(seq!['+'] + digits, signed) == parsed(digits, signed),
        parsed(seq!['-'] + digits, true) == Some(-(digits_value(digits) as int)),
        parsed(seq!['-'] + digits, false) is None,
        parsed(Seq::empty(), signed) is None,
        parsed(seq!['+'], signed) is None,
        parsed(seq!['-'], signed) is None,
        parsed(seq!['+'] + (seq!['+'] + digits), signed) is None,
        parsed(digits.push(' '), signed) is None,
        parsed(seq![' '] + digits, signed) is None,
{
    let plus = seq!['+'] + digits;
    let minus = seq!['-'] + digits;
    assert(plus.drop_first() =~= digits);
    assert(minus.drop_first() =~= digits);
    assert(plus[0] == '+' && !is_digit(plus[0]));
    assert(minus[0] == '-' && !is_digit(minus[0]));
    assert(!is_digit(seq!['+'][0]) && !is_digit(seq!['-'][0]));
    let twice = seq!['+'] + plus;
    assert(twice.drop_first() =~= plus);
    assert(!is_digit(twice[0]));
    let behind = digits.push(' ');
    assert(!is_digit(behind[behind.len() - 1]));
    assert(behind[0] == digits[0] && is_digit(digits[0]));
    let before = seq![' '] + digits;
    assert(before[0] == ' ' && !is_digit(before[0]));
}

/// Texts put together with a separator none of them holds are parted into just those texts again.
pub proof fn splitting_undoes_joining(pieces: Seq<Seq<char>>, separator: char)
    requires
        pieces.len() > 0,
        forall|i: int| 0 <= i < pieces.len() ==> !(#[trigger] pieces[i]).contains(separator),
    ensures
        parts(joined(pieces, seq![separator]), separator) == pieces,
    decreases pieces.len(),
{
    if pieces.len() == 1 {
        assert(!pieces[0].contains(separator));
        a_piece_is_one_part(Seq::empty(), pieces[0], separator);
        assert(Seq::<char>::empty() + pieces[0] =~= pieces[0]);
        assert(parts(Seq::empty(), separator) =~= seq![Seq::<char>::empty()]);
        assert(parts(pieces[0], separator) =~= pieces);
    } else {
        let rest = pieces.drop_last();
        let last = pieces.last();
        assert forall|i: int| 0 <= i < rest.len() implies !(#[trigger] rest[i]).contains(
            separator,
        ) by {
            assert(rest[i] == pieces[i]);
        }
        splitting_undoes_joining(rest, separator);
        assert(!pieces[pieces.len() - 1].contains(separator));
        let before = joined(rest, seq![separator]) + seq![separator];
        assert(before.drop_last() =~= joined(rest, seq![separator]));
        assert(parts(before, separator) =~= rest.push(Seq::empty()));
        a_piece_is_one_part(before, last, separator);
        assert(parts(before + last, separator) =~= pieces);
    }
}

proof fn a_piece_is_one_part(before: Seq<char>, piece: Seq<char>, separator: char)
    requires
        !piece.contains(separator),
    ensures
        parts(before, separator).len() > 0,
        parts(before + piece, separator) == parts(before, separator).update(
            parts(before, separator).len() - 1,
            parts(before, separator).last() + piece,
        ),
    decreases piece.len(),
{
    let all = parts(before, separator);
    parts_are_some(before, separator);
    if piece.len() == 0 {
        assert(before + piece =~= before);
        assert(all.last() + piece =~= all.last());
        assert(all.update(all.len() - 1, all.last() + piece) =~= all);
    } else {
        let rest = piece.drop_last();
        assert(!rest.contains(separator)) by {
            if rest.contains(separator) {
                let i = choose|i: int| 0 <= i < rest.len() && rest[i] == separator;
                assert(piece[i] == separator);
            }
        }
        a_piece_is_one_part(before, rest, separator);
        assert((before + piece).drop_last() =~= before + rest);
        assert((before + piece).last() == piece.last());
        assert(piece[piece.len() - 1] != separator);
        assert((all.last() + rest).push(piece.last()) =~= all.last() + piece);
        assert(parts(before + piece, separator) =~= all.update(
            all.len() - 1,
            all.last() + piece,
        ));
    }
}

/// Trimming leaves a text that neither begins nor ends with white space, takes white space alone
/// away, and has nothing left to do the second time.
pub proof fn trimming_takes_white_space_alone(text: Seq<char>, before: Seq<char>, behind: Seq<char>)
    requires
        forall|i: int| 0 <= i < before.len() ==> white_space(#[trigger] before[i]),
        forall|i: int| 0 <= i < behind.len() ==> white_space(#[trigger] behind[i]),
        text.len() > 0 ==> !white_space(text[0]) && !white_space(text.last()),
    ensures
        trimmed(before + text + behind) == text,
        trimmed(text) == text,
{
    let whole = before + text + behind;
    let (from, to) = (before.len() as int, (before.len() + text.len()) as int);
    assert forall|i: int| 0 <= i < from implies white_space(#[trigger] whole[i]) by {
        assert(whole[i] == before[i]);
    }
    assert forall|i: int| to <= i < whole.len() implies white_space(#[trigger] whole[i]) by {
        assert(whole[i] == behind[i - to]);
    }
    assert(trim_range(whole, from, to));
    assert(whole.subrange(from, to) =~= text);
    assert(trims_to(whole, text));
    trimming_is_one(whole, text, trimmed(whole));
    assert(trim_range(text, 0, text.len() as int));
    assert(text.subrange(0, text.len() as int) =~= text);
    assert(trims_to(text, text));
    trimming_is_one(text, text, trimmed(text));
}

} // verus!
