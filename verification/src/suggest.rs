//! Suggestions for misspelt commands in a configuration.
use vstd::prelude::*;

use crate::binding::WmCmd;
use crate::geometry::lesser;
use crate::text::{
    chars_of, find, from_chars, join, joined, located, lowercased, maybe_text, one_char, parts,
    same_chars, slice, split, texts, to_lowercase, trim, trimmed,
};

verus! {

/// The least number of insertions, removals and replacements of one character that turn `a` into
/// `b`.
pub open spec fn edit_distance(a: Seq<char>, b: Seq<char>) -> nat
    decreases a.len() + b.len(),
{
    if a.len() == 0 {
        b.len()
    } else if b.len() == 0 {
        a.len()
    } else {
        let removed = edit_distance(a.drop_last(), b) + 1;
        let inserted = edit_distance(a, b.drop_last()) + 1;
        let kept = edit_distance(a.drop_last(), b.drop_last()) + (if a.last() == b.last() {
            0nat
        } else {
            1nat
        });
        lesser(lesser(removed as int, inserted as int), kept as int) as nat
    }
}

/// A distance is never more than the longer of the two texts.
pub proof fn distance_is_at_most_the_longer(a: Seq<char>, b: Seq<char>)
    ensures
        edit_distance(a, b) <= a.len() || edit_distance(a, b) <= b.len(),
    decreases a.len() + b.len(),
{
    if a.len() > 0 && b.len() > 0 {
        distance_is_at_most_the_longer(a.drop_last(), b.drop_last());
    }
}

/// Distances do not depend on which of the two texts is asked.
pub proof fn distance_is_symmetric(a: Seq<char>, b: Seq<char>)
    ensures
        edit_distance(a, b) == edit_distance(b, a),
    decreases a.len() + b.len(),
{
    if a.len() > 0 && b.len() > 0 {
        distance_is_symmetric(a.drop_last(), b);
        distance_is_symmetric(a, b.drop_last());
        distance_is_symmetric(a.drop_last(), b.drop_last());
    }
}

/// Two texts have no distance exactly when they are the same.
pub proof fn distance_is_zero_only_between_equals(a: Seq<char>, b: Seq<char>)
    ensures
        edit_distance(a, b) == 0 <==> a == b,
    decreases a.len() + b.len(),
{
    if a.len() == 0 {
        if b.len() == 0 {
            assert(a =~= b);
        }
    } else if b.len() > 0 {
        distance_is_zero_only_between_equals(a.drop_last(), b.drop_last());
        if a.drop_last() == b.drop_last() && a.last() == b.last() {
            assert(a =~= a.drop_last().push(a.last()));
            assert(b =~= b.drop_last().push(b.last()));
        }
    }
}

/// The row of distances from the first `i` characters of `a` to every beginning of `b`.
pub open spec fn distance_row(a: Seq<char>, b: Seq<char>, i: int, row: Seq<usize>) -> bool {
    row.len() == b.len() + 1 && forall|j: int|
        0 <= j <= b.len() ==> #[trigger] row[j] == edit_distance(a.take(i), b.take(j))
}

/// The edit distance between two texts.
pub fn levenshtein(a: &str, b: &str) -> (r: usize)
    requires
        a@.len() < usize::MAX,
        b@.len() < usize::MAX,
    ensures
        r == edit_distance(a@, b@),
{
    let a_chars: Vec<char> = chars_of(a);
    let b_chars: Vec<char> = chars_of(b);
    let n: usize = a_chars.len();
    let m: usize = b_chars.len();
    let mut row: Vec<usize> = Vec::new();
    let mut j: usize = 0;
    while j <= m
        invariant
            m == b@.len(),
            m < usize::MAX,
            j <= m + 1,
            row.len() == j,
            forall|k: int|
                0 <= k < j ==> #[trigger] row[k] == edit_distance(a@.take(0), b@.take(k)),
        decreases m + 1 - j,
    {
        row.push(j);
        j += 1;
    }
    let mut i: usize = 0;
    while i < n
        invariant
            a_chars@ == a@,
            b_chars@ == b@,
            n == a@.len(),
            m == b@.len(),
            n < usize::MAX,
            m < usize::MAX,
            i <= n,
            distance_row(a@, b@, i as int, row@),
        decreases n - i,
    {
        let mut next: Vec<usize> = Vec::new();
        next.push(i + 1);
        let mut k: usize = 1;
        proof {
            assert(a@.take(i + 1).len() == i + 1);
            assert(next[0] == edit_distance(a@.take(i + 1), b@.take(0)));
        }
        while k <= m
            invariant
                a_chars@ == a@,
                b_chars@ == b@,
                n == a@.len(),
                m == b@.len(),
                n < usize::MAX,
                m < usize::MAX,
                i < n,
                1 <= k <= m + 1,
                distance_row(a@, b@, i as int, row@),
                next.len() == k,
                forall|c: int|
                    0 <= c < k ==> #[trigger] next[c] == edit_distance(
                        a@.take(i + 1),
                        b@.take(c),
                    ),
            decreases m + 1 - k,
        {
            let ghost long = a@.take(i + 1);
            let ghost wide = b@.take(k as int);
            proof {
                assert(long.drop_last() =~= a@.take(i as int));
                assert(wide.drop_last() =~= b@.take(k - 1));
                assert(long.last() == a@[i as int]);
                assert(wide.last() == b@[k - 1]);
                distance_is_at_most_the_longer(long.drop_last(), wide);
                distance_is_at_most_the_longer(long, wide.drop_last());
                distance_is_at_most_the_longer(long.drop_last(), wide.drop_last());
            }
            let cost: usize = if a_chars[i] == b_chars[k - 1] {
                0
            } else {
                1
            };
            let removed: usize = row[k] + 1;
            let inserted: usize = next[k - 1] + 1;
            let kept: usize = row[k - 1] + cost;
            let mut least: usize = removed;
            if inserted < least {
                least = inserted;
            }
            if kept < least {
                least = kept;
            }
            next.push(least);
            k += 1;
        }
        row = next;
        i += 1;
    }
    proof {
        assert(a@.take(n as int) =~= a@);
        assert(b@.take(m as int) =~= b@);
    }
    row[m]
}

/// The tokens between backticks, in order, from `from` on.
pub open spec fn ticked(text: Seq<char>, from: int) -> Seq<Seq<char>>
    decreases text.len() - from,
{
    if from < 0 || from > text.len() {
        Seq::empty()
    } else {
        match located(text, seq!['`'], from) {
            Some(open) => if open < from || open >= text.len() {
                Seq::empty()
            } else {
                match located(text, seq!['`'], open + 1) {
                    Some(close) => if close <= open {
                        Seq::empty()
                    } else {
                        seq![text.subrange(open + 1, close)] + ticked(text, close + 1)
                    },
                    None => Seq::empty(),
                }
            },
            None => Seq::empty(),
        }
    }
}

/// The tokens that are not `unknown`, each once, in the order they first come.
pub open spec fn other_tokens(tokens: Seq<Seq<char>>, unknown: Seq<char>) -> Seq<Seq<char>>
    decreases tokens.len(),
{
    if tokens.len() == 0 {
        Seq::empty()
    } else {
        let before = other_tokens(tokens.drop_last(), unknown);
        if tokens.last() == unknown || before.contains(tokens.last()) {
            before
        } else {
            before.push(tokens.last())
        }
    }
}

/// What follows `needle`, up to the next backtick, if both are there.
pub open spec fn token_after(text: Seq<char>, needle: Seq<char>) -> Option<Seq<char>> {
    match located(text, needle, 0) {
        Some(start) => match located(text, seq!['`'], start + needle.len()) {
            Some(end) => Some(text.subrange(start + needle.len(), end)),
            None => None,
        },
        None => None,
    }
}

/// What stands between the two backticks that follow the word "unknown", if they are there.
pub open spec fn token_after_unknown(text: Seq<char>) -> Option<Seq<char>> {
    match located(text, "unknown"@, 0) {
        Some(start) => match located(text, seq!['`'], start) {
            Some(open) => match located(text, seq!['`'], open + 1) {
                Some(end) => Some(text.subrange(open + 1, end)),
                None => None,
            },
            None => None,
        },
        None => None,
    }
}

/// The unknown token of an error message: the one after "unknown variant", with every other token of
/// the message after "||" where there are any; else the one quoted after "unknown".
pub open spec fn unknown_token(err: Seq<char>) -> Option<Seq<char>> {
    match token_after(err, "unknown variant `"@) {
        Some(unknown) => {
            let others = other_tokens(ticked(err, 0), unknown);
            if others.len() == 0 {
                Some(unknown)
            } else {
                Some(unknown + "||"@ + joined(others, ","@))
            }
        },
        None => token_after_unknown(err),
    }
}

/// The views of a list of character lists.
pub open spec fn char_texts(items: Seq<Vec<char>>) -> Seq<Seq<char>> {
    items.map_values(|v: Vec<char>| v@)
}

fn among(items: &Vec<Vec<char>>, token: &Vec<char>) -> (r: bool)
    ensures
        r == char_texts(items@).contains(token@),
{
    let mut i: usize = 0;
    while i < items.len()
        invariant
            i <= items.len(),
            forall|j: int| 0 <= j < i ==> (#[trigger] items[j])@ != token@,
        decreases items.len() - i,
    {
        if same_chars(&items[i], token) {
            assert(char_texts(items@)[i as int] == token@);
            return true;
        }
        i += 1;
    }
    proof {
        if char_texts(items@).contains(token@) {
            let k = choose|k: int|
                0 <= k < char_texts(items@).len() && char_texts(items@)[k] == token@;
            assert(items[k]@ == token@);
        }
    }
    false
}

fn ticked_tokens(err: &Vec<char>) -> (r: Vec<Vec<char>>)
    ensures
        char_texts(r@) == ticked(err@, 0),
{
    let tick: Vec<char> = one_char('`');
    let mut out: Vec<Vec<char>> = Vec::new();
    let mut from: usize = 0;
    assert(char_texts(out@) + ticked(err@, 0) =~= ticked(err@, 0));
    loop
        invariant
            from <= err.len(),
            tick@ == seq!['`'],
            char_texts(out@) + ticked(err@, from as int) == ticked(err@, 0),
        decreases err.len() - from,
    {
        match find(err, &tick, from) {
            None => {
                assert(char_texts(out@) + Seq::<Seq<char>>::empty() =~= char_texts(out@));
                return out;
            },
            Some(open) => {
                match find(err, &tick, open + 1) {
                    None => {
                        assert(char_texts(out@) + Seq::<Seq<char>>::empty() =~= char_texts(out@));
                        return out;
                    },
                    Some(close) => {
                        let ghost before = out@;
                        let token: Vec<char> = slice(err, open + 1, close);
                        let ghost taken = token@;
                        out.push(token);
                        proof {
                            assert(char_texts(out@) =~= char_texts(before).push(taken));
                            assert(char_texts(before).push(taken) + ticked(err@, close + 1)
                                =~= char_texts(before) + (seq![taken] + ticked(err@, close + 1)));
                        }
                        from = close + 1;
                    },
                }
            },
        }
    }
}

fn others_than(tokens: &Vec<Vec<char>>, unknown: &Vec<char>) -> (r: Vec<Vec<char>>)
    ensures
        char_texts(r@) == other_tokens(char_texts(tokens@), unknown@),
{
    let mut out: Vec<Vec<char>> = Vec::new();
    let mut i: usize = 0;
    assert(char_texts(tokens@.take(0)) =~= Seq::empty());
    assert(char_texts(out@) =~= Seq::empty());
    while i < tokens.len()
        invariant
            i <= tokens.len(),
            char_texts(out@) == other_tokens(char_texts(tokens@.take(i as int)), unknown@),
        decreases tokens.len() - i,
    {
        let ghost now = char_texts(tokens@.take(i + 1));
        proof {
            assert(now.drop_last() =~= char_texts(tokens@.take(i as int)));
            assert(now.last() == tokens[i as int]@);
        }
        if !same_chars(&tokens[i], unknown) && !among(&out, &tokens[i]) {
            let ghost before = out@;
            let token: Vec<char> = slice(&tokens[i], 0, tokens[i].len());
            assert(token@ =~= tokens[i as int]@);
            out.push(token);
            assert(char_texts(out@) =~= char_texts(before).push(tokens[i as int]@));
        }
        i += 1;
    }
    assert(tokens@.take(tokens@.len() as int) =~= tokens@);
    out
}

fn as_strings(tokens: &Vec<Vec<char>>) -> (r: Vec<String>)
    ensures
        texts(r@) == char_texts(tokens@),
{
    let mut out: Vec<String> = Vec::new();
    let mut i: usize = 0;
    while i < tokens.len()
        invariant
            i <= tokens.len(),
            out.len() == i,
            forall|j: int| 0 <= j < i ==> (#[trigger] out[j])@ == tokens[j]@,
        decreases tokens.len() - i,
    {
        out.push(from_chars(&tokens[i]));
        i += 1;
    }
    assert(texts(out@) =~= char_texts(tokens@));
    out
}

/// Extracts the unknown token from an error message, and the tokens that were expected where the
/// message lists them: "token", or "token||first,second".
pub fn extract_unknown_variant(err: &str) -> (r: Option<String>)
    ensures
        maybe_text(r) == unknown_token(err@),
{
    let chars: Vec<char> = chars_of(err);
    let tick: Vec<char> = one_char('`');
    let needle: Vec<char> = chars_of("unknown variant `");
    if let Some(start) = find(&chars, &needle, 0) {
        let begin: usize = start + needle.len();
        if let Some(end) = find(&chars, &tick, begin) {
            let unknown: Vec<char> = slice(&chars, begin, end);
            let tokens: Vec<Vec<char>> = ticked_tokens(&chars);
            let others: Vec<Vec<char>> = others_than(&tokens, &unknown);
            let mut out: String = from_chars(&unknown);
            assert(char_texts(others@).len() == others@.len());
            if others.len() > 0 {
                out.append("||");
                let listed: String = join(&as_strings(&others), ",");
                out.append(listed.as_str());
            }
            return Some(out);
        }
    }
    let word: Vec<char> = chars_of("unknown");
    if let Some(start) = find(&chars, &word, 0) {
        if let Some(open) = find(&chars, &tick, start) {
            if let Some(end) = find(&chars, &tick, open + 1) {
                return Some(from_chars(&slice(&chars, open + 1, end)));
            }
        }
    }
    None
}

/// A misspelt token, and the candidates that came with it where any did.
pub struct Misspelt {
    pub token: String,
    pub candidates: Option<Vec<String>>,
}

/// The non-empty parts, trimmed, in order.
pub open spec fn trimmed_parts(pieces: Seq<Seq<char>>) -> Seq<Seq<char>>
    decreases pieces.len(),
{
    if pieces.len() == 0 {
        Seq::empty()
    } else {
        let before = trimmed_parts(pieces.drop_last());
        if trimmed(pieces.last()).len() == 0 {
            before
        } else {
            before.push(trimmed(pieces.last()))
        }
    }
}

/// Takes "token||first,second" apart; a text without "||" is a token on its own.
pub fn take_apart(unknown: &str) -> (r: Misspelt)
    ensures
        match located(unknown@, "||"@, 0) {
            Some(at) => r.token@ == unknown@.take(at) && r.candidates is Some && texts(
                (r.candidates->0)@,
            ) == trimmed_parts(parts(unknown@.skip(at + 2), ',')),
            None => r.token@ == unknown@ && r.candidates is None,
        },
{
    let chars: Vec<char> = chars_of(unknown);
    let bars: Vec<char> = chars_of("||");
    proof {
        reveal_strlit("||");
    }
    match find(&chars, &bars, 0) {
        None => Misspelt { token: from_chars(&chars), candidates: None },
        Some(at) => {
            let token: String = from_chars(&slice(&chars, 0, at));
            assert(token@ =~= unknown@.take(at as int));
            let rest: String = from_chars(&slice(&chars, at + 2, chars.len()));
            assert(rest@ =~= unknown@.skip(at + 2));
            let pieces: Vec<String> = split(rest.as_str(), ',');
            let mut candidates: Vec<String> = Vec::new();
            let mut i: usize = 0;
            assert(texts(pieces@.take(0)) =~= Seq::empty());
            assert(texts(candidates@) =~= Seq::empty());
            while i < pieces.len()
                invariant
                    i <= pieces.len(),
                    texts(candidates@) == trimmed_parts(texts(pieces@.take(i as int))),
                decreases pieces.len() - i,
            {
                let ghost now = texts(pieces@.take(i + 1));
                proof {
                    assert(now.drop_last() =~= texts(pieces@.take(i as int)));
                    assert(now.last() == pieces[i as int]@);
                }
                let piece: String = trim(pieces[i].as_str());
                if piece.as_str().unicode_len() > 0 {
                    let ghost before = candidates@;
                    let ghost kept = piece@;
                    candidates.push(piece);
                    assert(texts(candidates@) =~= texts(before).push(kept));
                }
                i += 1;
            }
            assert(pieces@.take(pieces@.len() as int) =~= pieces@);
            Misspelt { token, candidates: Some(candidates) }
        },
    }
}

/// The first of the candidates nearest to `token` stands at `i`; `lowered` are the candidates in
/// lower case.
pub open spec fn nearest_candidate(token: Seq<char>, lowered: Seq<Seq<char>>, i: int) -> bool {
    &&& 0 <= i < lowered.len()
    &&& forall|j: int|
        0 <= j < lowered.len() ==> edit_distance(token, lowered[i]) <= #[trigger] edit_distance(
            token,
            lowered[j],
        )
    &&& forall|j: int|
        0 <= j < i ==> edit_distance(token, lowered[i]) < #[trigger] edit_distance(
            token,
            lowered[j],
        )
}

/// A candidate is near enough: within three edits, or half its own length in bytes.
pub open spec fn near_enough(distance: nat, candidate: Seq<char>) -> bool {
    distance <= 3 || distance <= vstd::utf8::encode_utf8(candidate).len() / 2
}

/// The suggestion for `token` among `candidates`, whose lower case is `lowered`.
pub open spec fn suggestion(
    token: Seq<char>,
    candidates: Seq<Seq<char>>,
    lowered: Seq<Seq<char>>,
) -> Option<Seq<char>> {
    if lowered.len() == 0 {
        None
    } else {
        let i = choose|i: int| nearest_candidate(token, lowered, i);
        if near_enough(edit_distance(token, lowered[i]), candidates[i]) {
            Some(candidates[i])
        } else {
            None
        }
    }
}

/// Every text of a list can be measured.
pub open spec fn measurable(items: Seq<Seq<char>>) -> bool {
    forall|i: int| 0 <= i < items.len() ==> (#[trigger] items[i]).len() < usize::MAX
}

/// The nearest candidate to `token`, the first of several, if it is near enough.
pub fn nearest(token: &str, candidates: &Vec<String>, lowered: &Vec<String>) -> (r: Option<String>)
    requires
        candidates.len() == lowered.len(),
        token@.len() < usize::MAX,
        measurable(texts(lowered@)),
    ensures
        maybe_text(r) == suggestion(token@, texts(candidates@), texts(lowered@)),
{
    let mut best: Option<(usize, usize)> = None;
    let mut i: usize = 0;
    while i < candidates.len()
        invariant
            i <= candidates.len(),
            candidates.len() == lowered.len(),
            token@.len() < usize::MAX,
            measurable(texts(lowered@)),
            match best {
                Some((at, distance)) => at < i && distance == edit_distance(
                    token@,
                    texts(lowered@)[at as int],
                ) && (forall|j: int|
                    0 <= j < i ==> distance <= #[trigger] edit_distance(
                        token@,
                        texts(lowered@)[j],
                    )) && (forall|j: int|
                    0 <= j < at ==> distance < #[trigger] edit_distance(
                        token@,
                        texts(lowered@)[j],
                    )),
                None => i == 0,
            },
        decreases candidates.len() - i,
    {
        assert(texts(lowered@)[i as int] == lowered[i as int]@);
        let distance: usize = levenshtein(token, lowered[i].as_str());
        let better: bool = match best {
            Some((_, least)) => distance < least,
            None => true,
        };
        if better {
            best = Some((i, distance));
        }
        i += 1;
    }
    match best {
        None => {
            assert(texts(lowered@).len() == 0);
            None
        },
        Some((at, distance)) => {
            proof {
                let low = texts(lowered@);
                assert(nearest_candidate(token@, low, at as int));
                let c = choose|c: int| nearest_candidate(token@, low, c);
                assert(edit_distance(token@, low[c]) <= edit_distance(token@, low[at as int]));
                assert(edit_distance(token@, low[at as int]) <= edit_distance(token@, low[c]));
                assert(c == at);
                assert(texts(candidates@)[at as int] == candidates[at as int]@);
            }
            let half: usize = candidates[at].as_str().as_bytes().len() / 2;
            let threshold: usize = if half > 3 {
                half
            } else {
                3
            };
            if distance <= threshold {
                Some(candidates[at].clone())
            } else {
                None
            }
        },
    }
}

/// Every text of a list in lower case.
pub open spec fn lowercased_all(items: Seq<Seq<char>>) -> Seq<Seq<char>> {
    items.map_values(|s: Seq<char>| lowercased(s))
}

fn lower_all(items: &Vec<String>) -> (r: Vec<String>)
    ensures
        texts(r@) == lowercased_all(texts(items@)),
{
    let mut out: Vec<String> = Vec::new();
    let mut i: usize = 0;
    while i < items.len()
        invariant
            i <= items.len(),
            out.len() == i,
            forall|j: int| 0 <= j < i ==> (#[trigger] out[j])@ == lowercased(items[j]@),
        decreases items.len() - i,
    {
        out.push(to_lowercase(items[i].as_str()));
        i += 1;
    }
    assert(texts(out@) =~= lowercased_all(texts(items@)));
    out
}

fn fits(text: &str) -> (r: bool)
    ensures
        r == (text@.len() < usize::MAX),
{
    text.unicode_len() < usize::MAX
}

fn all_fit(items: &Vec<String>) -> (r: bool)
    ensures
        r == measurable(texts(items@)),
{
    let mut i: usize = 0;
    while i < items.len()
        invariant
            i <= items.len(),
            forall|j: int| 0 <= j < i ==> (#[trigger] texts(items@)[j]).len() < usize::MAX,
        decreases items.len() - i,
    {
        assert(texts(items@)[i as int] == items[i as int]@);
        if !fits(items[i].as_str()) {
            return false;
        }
        i += 1;
    }
    true
}

/// What a misspelt text is compared with: the candidates it came with, else the built-in commands.
pub open spec fn candidates_for(unknown: Seq<char>) -> Seq<Seq<char>> {
    match located(unknown, "||"@, 0) {
        Some(at) => trimmed_parts(parts(unknown.skip(at + 2), ',')),
        None => crate::binding::builtin_names(),
    }
}

/// The token a misspelt text is compared by, in lower case.
pub open spec fn token_of(unknown: Seq<char>) -> Seq<char> {
    match located(unknown, "||"@, 0) {
        Some(at) => lowercased(unknown.take(at)),
        None => lowercased(unknown),
    }
}

/// The command `unknown` was probably meant to be. A text as long as the address space cannot be
/// measured and is meant to be none.
pub open spec fn meant(unknown: Seq<char>) -> Option<Seq<char>> {
    let token = token_of(unknown);
    let lowered = lowercased_all(candidates_for(unknown));
    if token.len() < usize::MAX && measurable(lowered) {
        suggestion(token, candidates_for(unknown), lowered)
    } else {
        None
    }
}

/// The command a misspelt one was probably meant to be: the nearest, ignoring case, of the candidates
/// that came with it, else of the built-in commands, if it is near enough.
pub fn suggest_similar_command(unknown: &str) -> (r: Option<String>)
    ensures
        maybe_text(r) == meant(unknown@),
{
    let misspelt: Misspelt = take_apart(unknown);
    let token: String = to_lowercase(misspelt.token.as_str());
    let candidates: Vec<String> = match misspelt.candidates {
        Some(listed) => listed,
        None => WmCmd::snake_case_variants(),
    };
    let lowered: Vec<String> = lower_all(&candidates);
    proof {
        assert(texts(lowered@).len() == lowered@.len());
        assert(texts(candidates@).len() == candidates@.len());
    }
    if !fits(token.as_str()) || !all_fit(&lowered) {
        return None;
    }
    nearest(token.as_str(), &candidates, &lowered)
}

/// A candidate spelt exactly like the token is always suggested, and nothing else is.
pub proof fn an_exact_candidate_is_suggested(
    token: Seq<char>,
    candidates: Seq<Seq<char>>,
    lowered: Seq<Seq<char>>,
    at: int,
)
    requires
        candidates.len() == lowered.len(),
        0 <= at < lowered.len(),
        lowered[at] == token,
        forall|j: int| 0 <= j < at ==> #[trigger] lowered[j] != token,
    ensures
        suggestion(token, candidates, lowered) == Some(candidates[at]),
{
    distance_is_zero_only_between_equals(token, token);
    assert forall|j: int| 0 <= j < at implies edit_distance(token, lowered[at])
        < #[trigger] edit_distance(token, lowered[j]) by {
        distance_is_zero_only_between_equals(token, lowered[j]);
    }
    assert(nearest_candidate(token, lowered, at));
    let c = choose|c: int| nearest_candidate(token, lowered, c);
    assert(edit_distance(token, lowered[c]) <= edit_distance(token, lowered[at]));
    distance_is_zero_only_between_equals(token, lowered[c]);
    if c < at {
        assert(lowered[c] != token);
    }
    if at < c {
        assert(edit_distance(token, lowered[c]) < edit_distance(token, lowered[at]));
    }
}

/// One more character is one more edit at the most, and none where both texts end with it; and the
/// least number of edits is reached by one of the three.
pub proof fn a_distance_grows_edit_by_edit(a: Seq<char>, b: Seq<char>, x: char, y: char)
    ensures
        edit_distance(a.push(x), b) <= edit_distance(a, b) + 1,
        edit_distance(a, b.push(y)) <= edit_distance(a, b) + 1,
        edit_distance(a.push(x), b.push(y)) <= edit_distance(a, b) + 1,
        edit_distance(a.push(x), b.push(x)) <= edit_distance(a, b),
        ({
            let d = edit_distance(a.push(x), b.push(y));
            ||| d == edit_distance(a, b.push(y)) + 1
            ||| d == edit_distance(a.push(x), b) + 1
            ||| x == y && d == edit_distance(a, b)
            ||| x != y && d == edit_distance(a, b) + 1
        }),
        edit_distance(a, Seq::empty()) == a.len(),
        edit_distance(Seq::empty(), b) == b.len(),
{
    assert(a.push(x).drop_last() =~= a);
    assert(b.push(y).drop_last() =~= b);
    assert(b.push(x).drop_last() =~= b);
}

/// Texts of different lengths are at least as far apart as their lengths.
pub proof fn a_distance_spans_the_lengths(a: Seq<char>, b: Seq<char>)
    ensures
        edit_distance(a, b) >= a.len() - b.len(),
        edit_distance(a, b) >= b.len() - a.len(),
    decreases a.len() + b.len(),
{
    if a.len() > 0 && b.len() > 0 {
        a_distance_spans_the_lengths(a.drop_last(), b);
        a_distance_spans_the_lengths(a, b.drop_last());
        a_distance_spans_the_lengths(a.drop_last(), b.drop_last());
    }
}

proof fn the_first_tick_is_located(text: Seq<char>, from: int, at: int)
    requires
        0 <= from <= at < text.len(),
        text[at] == '`',
        forall|i: int| from <= i < at ==> #[trigger] text[i] != '`',
    ensures
        located(text, seq!['`'], from) == Some(at),
{
    let tick = seq!['`'];
    assert(text.subrange(at, at + 1) =~= tick);
    assert(crate::text::occurs_at(text, tick, at));
    assert forall|i: int| from <= i < at implies !#[trigger] crate::text::occurs_at(
        text,
        tick,
        i,
    ) by {
        if crate::text::occurs_at(text, tick, i) {
            assert(text.subrange(i, i + 1)[0] == tick[0]);
            assert(text[i] != '`');
        }
    }
    assert(crate::text::first_occurrence(text, tick, from, at));
    crate::text::located_is(text, tick, from, at);
}

proof fn no_tick_is_located(text: Seq<char>, from: int)
    requires
        0 <= from,
        forall|i: int| from <= i < text.len() ==> #[trigger] text[i] != '`',
    ensures
        located(text, seq!['`'], from) is None,
{
    let tick = seq!['`'];
    assert forall|i: int| from <= i implies !#[trigger] crate::text::occurs_at(text, tick, i) by {
        if crate::text::occurs_at(text, tick, i) {
            assert(text.subrange(i, i + 1)[0] == tick[0]);
            assert(text[i] != '`');
        }
    }
    crate::text::located_is_none(text, tick, from);
}

/// The first token stands between the first two backticks, and the others are those behind the second;
/// a text with fewer than two has none.
pub proof fn a_token_stands_between_two_ticks(text: Seq<char>, from: int, open: int, close: int)
    requires
        0 <= from <= open < close <= text.len(),
        open < text.len(),
        text[open] == '`',
        forall|i: int| from <= i < open ==> #[trigger] text[i] != '`',
        forall|i: int| open < i < close ==> #[trigger] text[i] != '`',
        close < text.len() ==> text[close] == '`',
    ensures
        close < text.len() ==> ticked(text, from) == seq![text.subrange(open + 1, close)] + ticked(
            text,
            close + 1,
        ),
        close == text.len() ==> ticked(text, from).len() == 0,
{
    the_first_tick_is_located(text, from, open);
    if close < text.len() {
        the_first_tick_is_located(text, open + 1, close);
    } else {
        no_tick_is_located(text, open + 1);
    }
}

/// A text without a backtick has no token.
pub proof fn a_text_without_ticks_has_no_token(text: Seq<char>, from: int)
    requires
        0 <= from <= text.len(),
        forall|i: int| from <= i < text.len() ==> #[trigger] text[i] != '`',
    ensures
        ticked(text, from).len() == 0,
{
    no_tick_is_located(text, from);
}

/// The other tokens are all but the unknown one, each once, and in the order they first come.
pub proof fn the_other_tokens_come_once(
    tokens: Seq<Seq<char>>,
    unknown: Seq<char>,
    token: Seq<char>,
)
    ensures
        other_tokens(tokens, unknown).contains(token) <==> tokens.contains(token) && token
            != unknown,
        other_tokens(tokens, unknown).no_duplicates(),
        other_tokens(tokens.push(token), unknown).take(other_tokens(tokens, unknown).len() as int)
            == other_tokens(tokens, unknown),
    decreases tokens.len(),
{
    let all = other_tokens(tokens, unknown);
    assert(tokens.push(token).drop_last() =~= tokens);
    assert(other_tokens(tokens.push(token), unknown).take(all.len() as int) =~= all);
    if tokens.len() > 0 {
        let rest = tokens.drop_last();
        let last = tokens.last();
        the_other_tokens_come_once(rest, unknown, token);
        the_other_tokens_come_once(rest, unknown, last);
        let before = other_tokens(rest, unknown);
        assert(tokens.contains(token) <==> rest.contains(token) || token == last) by {
            if rest.contains(token) {
                let i = choose|i: int| 0 <= i < rest.len() && rest[i] == token;
                assert(tokens[i] == token);
            }
            assert(tokens[tokens.len() - 1] == last);
            if tokens.contains(token) && token != last {
                let i = choose|i: int| 0 <= i < tokens.len() && tokens[i] == token;
                assert(rest[i] == token);
            }
        }
        assert(before.push(last).contains(token) <==> before.contains(token) || token == last) by {
            if before.contains(token) {
                let i = choose|i: int| 0 <= i < before.len() && before[i] == token;
                assert(before.push(last)[i] == token);
            }
            assert(before.push(last)[before.len() as int] == last);
        }
    }
}

/// What follows the needle goes up to the next backtick.
pub proof fn a_token_follows_its_needle(
    text: Seq<char>,
    needle: Seq<char>,
    start: int,
    end: int,
)
    requires
        crate::text::first_occurrence(text, needle, 0, start),
        start + needle.len() <= end <= text.len(),
        forall|i: int| start + needle.len() <= i < end ==> #[trigger] text[i] != '`',
        end < text.len() ==> text[end] == '`',
    ensures
        end < text.len() ==> token_after(text, needle) == Some(
            text.subrange(start + needle.len(), end),
        ),
        end == text.len() ==> token_after(text, needle) is None,
{
    crate::text::located_is(text, needle, 0, start);
    if end < text.len() {
        the_first_tick_is_located(text, start + needle.len(), end);
    } else {
        no_tick_is_located(text, start + needle.len());
    }
}

/// The token quoted behind the word "unknown" stands between the next two backticks.
pub proof fn a_token_is_quoted_behind_unknown(text: Seq<char>, start: int, open: int, close: int)
    requires
        crate::text::first_occurrence(text, "unknown"@, 0, start),
        start <= open < close < text.len(),
        text[open] == '`' && text[close] == '`',
        forall|i: int| start <= i < open ==> #[trigger] text[i] != '`',
        forall|i: int| open < i < close ==> #[trigger] text[i] != '`',
    ensures
        token_after_unknown(text) == Some(text.subrange(open + 1, close)),
{
    crate::text::located_is(text, "unknown"@, 0, start);
    the_first_tick_is_located(text, start, open);
    the_first_tick_is_located(text, open + 1, close);
}

/// An unknown variant is believed before any other word of the message; the tokens expected, where the
/// message quotes any, stand behind two bars with commas between them.
pub proof fn an_unknown_variant_is_believed_first(err: Seq<char>)
    ensures
        token_after(err, "unknown variant `"@) is None ==> unknown_token(err)
            == token_after_unknown(err),
        token_after(err, "unknown variant `"@) matches Some(unknown) ==> {
            let others = other_tokens(ticked(err, 0), unknown);
            &&& unknown_token(err) is Some
            &&& (unknown_token(err)->0).take(unknown.len() as int) == unknown
            &&& others.len() == 0 ==> unknown_token(err) == Some(unknown)
            &&& others.len() > 0 ==> (unknown_token(err)->0).skip(unknown.len() as int) == "||"@
                + joined(others, ","@)
        },
{
    if let Some(unknown) = token_after(err, "unknown variant `"@) {
        let whole = unknown_token(err)->0;
        assert(whole.take(unknown.len() as int) =~= unknown);
        let others = other_tokens(ticked(err, 0), unknown);
        if others.len() > 0 {
            assert(whole.skip(unknown.len() as int) =~= "||"@ + joined(others, ","@));
        }
    }
}

/// The candidates are the parts that hold more than white space, trimmed, in order.
pub proof fn a_candidate_is_a_trimmed_part(
    pieces: Seq<Seq<char>>,
    more: Seq<Seq<char>>,
    k: int,
    i: int,
)
    ensures
        trimmed_parts(pieces + more) == trimmed_parts(pieces) + trimmed_parts(more),
        0 <= k < trimmed_parts(pieces).len() ==> trimmed_parts(pieces)[k].len() > 0 && exists|j: int|
            0 <= j < pieces.len() && trimmed(#[trigger] pieces[j]) == trimmed_parts(pieces)[k],
        0 <= i < pieces.len() && trimmed(pieces[i]).len() > 0 ==> trimmed_parts(pieces).contains(
            trimmed(pieces[i]),
        ),
    decreases pieces.len() + more.len(),
{
    if more.len() == 0 {
        assert(pieces + more =~= pieces);
        assert(trimmed_parts(pieces) + trimmed_parts(more) =~= trimmed_parts(pieces));
    } else {
        a_candidate_is_a_trimmed_part(pieces, more.drop_last(), k, i);
        assert((pieces + more).drop_last() =~= pieces + more.drop_last());
        assert((pieces + more).last() == more.last());
        assert(trimmed_parts(pieces + more) =~= trimmed_parts(pieces) + trimmed_parts(more));
    }
    if pieces.len() > 0 {
        let rest = pieces.drop_last();
        a_candidate_is_a_trimmed_part(rest, Seq::empty(), k, i);
        let before = trimmed_parts(rest);
        let all = trimmed_parts(pieces);
        if 0 <= k < before.len() {
            assert(all[k] == before[k]);
            let j = choose|j: int|
                0 <= j < rest.len() && trimmed(#[trigger] rest[j]) == before[k];
            assert(pieces[j] == rest[j]);
        } else if 0 <= k < all.len() {
            assert(trimmed(pieces[pieces.len() - 1]) == all[k]);
        }
        if 0 <= i < rest.len() && trimmed(pieces[i]).len() > 0 {
            assert(rest[i] == pieces[i]);
            let p = choose|p: int| 0 <= p < before.len() && before[p] == trimmed(pieces[i]);
            assert(all[p] == before[p]);
        } else if i == rest.len() && trimmed(pieces[i]).len() > 0 {
            assert(all[before.len() as int] == trimmed(pieces[i]));
        }
    }
}

proof fn some_candidate_is_nearest(token: Seq<char>, lowered: Seq<Seq<char>>, n: int)
    requires
        0 < n <= lowered.len(),
    ensures
        exists|i: int| nearest_candidate(token, lowered.take(n), i),
    decreases n,
{
    let now = lowered.take(n);
    if n == 1 {
        assert(nearest_candidate(token, now, 0));
    } else {
        let before = lowered.take(n - 1);
        some_candidate_is_nearest(token, lowered, n - 1);
        let b = choose|i: int| nearest_candidate(token, before, i);
        assert(nearest_candidate(token, before, b));
        assert forall|j: int| 0 <= j < n - 1 implies now[j] == #[trigger] before[j] by {}
        if edit_distance(token, now[n - 1]) < edit_distance(token, now[b]) {
            assert forall|j: int| 0 <= j < n - 1 implies edit_distance(token, now[n - 1])
                < #[trigger] edit_distance(token, now[j]) by {
                assert(edit_distance(token, before[b]) <= edit_distance(token, before[j]));
            }
            assert forall|j: int| 0 <= j < n implies edit_distance(token, now[n - 1])
                <= #[trigger] edit_distance(token, now[j]) by {
                if j < n - 1 {
                    assert(edit_distance(token, before[b]) <= edit_distance(token, before[j]));
                }
            }
            assert(nearest_candidate(token, now, n - 1));
        } else {
            assert forall|j: int| 0 <= j < n implies edit_distance(token, now[b])
                <= #[trigger] edit_distance(token, now[j]) by {
                if j < n - 1 {
                    assert(edit_distance(token, before[b]) <= edit_distance(token, before[j]));
                }
            }
            assert forall|j: int| 0 <= j < b implies edit_distance(token, now[b])
                < #[trigger] edit_distance(token, now[j]) by {
                assert(edit_distance(token, before[b]) < edit_distance(token, before[j]));
            }
            assert(nearest_candidate(token, now, b));
        }
    }
}

/// What is suggested is one of the candidates, no other is nearer, and it is within three edits or half
/// its own length; a candidate within three edits always has something suggested.
pub proof fn a_suggestion_is_a_near_candidate(
    token: Seq<char>,
    candidates: Seq<Seq<char>>,
    lowered: Seq<Seq<char>>,
    j: int,
)
    requires
        candidates.len() == lowered.len(),
    ensures
        candidates.len() == 0 ==> suggestion(token, candidates, lowered) is None,
        suggestion(token, candidates, lowered) matches Some(found) ==> exists|i: int|
            {
                &&& 0 <= i < candidates.len()
                &&& #[trigger] candidates[i] == found
                &&& edit_distance(token, lowered[i]) <= 3 || 2 * edit_distance(token, lowered[i])
                    <= vstd::utf8::encode_utf8(found).len()
                &&& 0 <= j < lowered.len() ==> edit_distance(token, lowered[i]) <= edit_distance(
                    token,
                    lowered[j],
                )
            },
        0 <= j < lowered.len() && edit_distance(token, lowered[j]) <= 3 ==> suggestion(
            token,
            candidates,
            lowered,
        ) is Some,
{
    if lowered.len() > 0 {
        some_candidate_is_nearest(token, lowered, lowered.len() as int);
        assert(lowered.take(lowered.len() as int) =~= lowered);
        let i = choose|i: int| nearest_candidate(token, lowered, i);
        assert(nearest_candidate(token, lowered, i));
        if 0 <= j < lowered.len() {
            assert(edit_distance(token, lowered[i]) <= edit_distance(token, lowered[j]));
        }
        assert(candidates[i] == candidates[i]);
    }
}

/// Nothing is suggested where no candidate is within three edits or half its own length.
pub proof fn nothing_far_is_suggested(
    token: Seq<char>,
    candidates: Seq<Seq<char>>,
    lowered: Seq<Seq<char>>,
)
    requires
        candidates.len() == lowered.len(),
        forall|i: int|
            0 <= i < candidates.len() ==> edit_distance(token, #[trigger] lowered[i]) > 3 && 2
                * edit_distance(token, lowered[i]) > vstd::utf8::encode_utf8(candidates[i]).len(),
    ensures
        suggestion(token, candidates, lowered) is None,
{
    if lowered.len() > 0 {
        some_candidate_is_nearest(token, lowered, lowered.len() as int);
        assert(lowered.take(lowered.len() as int) =~= lowered);
        let i = choose|i: int| nearest_candidate(token, lowered, i);
        assert(nearest_candidate(token, lowered, i));
        assert(edit_distance(token, lowered[i]) > 3);
    }
}

/// A misspelt text that came with candidates is compared with those, and one that came alone with the
/// built-in commands; what is compared is the text in front of the bars, in lower case.
pub proof fn a_text_is_compared_with_what_it_came_with(
    token: Seq<char>,
    listed: Seq<char>,
    alone: Seq<char>,
)
    requires
        forall|i: int| 0 <= i < token.len() ==> #[trigger] token[i] != '|',
        forall|i: int| 0 <= i < alone.len() ==> #[trigger] alone[i] != '|',
    ensures
        token_of(token + "||"@ + listed) == lowercased(token),
        candidates_for(token + "||"@ + listed) == trimmed_parts(parts(listed, ',')),
        token_of(alone) == lowercased(alone),
        candidates_for(alone) == crate::binding::builtin_names(),
{
    reveal_strlit("||");
    let bars = "||"@;
    let text = token + bars + listed;
    let at = token.len() as int;
    assert(text.subrange(at, at + 2) =~= bars);
    assert(crate::text::occurs_at(text, bars, at));
    assert forall|i: int| 0 <= i < at implies !#[trigger] crate::text::occurs_at(text, bars, i) by {
        if crate::text::occurs_at(text, bars, i) {
            assert(text.subrange(i, i + 2)[0] == bars[0]);
            assert(text[i] == token[i]);
        }
    }
    assert(crate::text::first_occurrence(text, bars, 0, at));
    crate::text::located_is(text, bars, 0, at);
    assert(text.take(at) =~= token);
    assert(text.skip(at + 2) =~= listed);
    assert forall|i: int| 0 <= i implies !#[trigger] crate::text::occurs_at(alone, bars, i) by {
        if crate::text::occurs_at(alone, bars, i) {
            assert(alone.subrange(i, i + 2)[0] == bars[0]);
            assert(alone[i] != '|');
        }
    }
    crate::text::located_is_none(alone, bars, 0);
}

/// Taking a text apart gives back what was put together.
pub proof fn taking_apart_undoes_putting_together(
    token: Seq<char>,
    listed: Seq<char>,
    text: &str,
    apart: Misspelt,
)
    requires
        forall|i: int| 0 <= i < token.len() ==> #[trigger] token[i] != '|',
        text@ == token + "||"@ + listed,
        call_ensures(take_apart, (text,), apart),
    ensures
        apart.token@ == token,
        apart.candidates is Some,
        texts((apart.candidates->0)@) == trimmed_parts(parts(listed, ',')),
{
    reveal_strlit("||");
    let bars = "||"@;
    let whole = text@;
    let at = token.len() as int;
    assert(whole.subrange(at, at + 2) =~= bars);
    assert(crate::text::occurs_at(whole, bars, at));
    assert forall|i: int| 0 <= i < at implies !#[trigger] crate::text::occurs_at(whole, bars, i) by {
        if crate::text::occurs_at(whole, bars, i) {
            assert(whole.subrange(i, i + 2)[0] == bars[0]);
            assert(whole[i] == token[i]);
        }
    }
    assert(crate::text::first_occurrence(whole, bars, 0, at));
    crate::text::located_is(whole, bars, 0, at);
    assert(whole.take(at) =~= token);
    assert(whole.skip(at + 2) =~= listed);
}

/// What is meant is found among the lower case of the candidates, whatever the case of the text.
pub proof fn case_does_not_matter(a: Seq<char>, b: Seq<char>)
    requires
        forall|i: int| 0 <= i < a.len() ==> #[trigger] a[i] != '|',
        forall|i: int| 0 <= i < b.len() ==> #[trigger] b[i] != '|',
        lowercased(a) == lowercased(b),
    ensures
        meant(a) == meant(b),
        meant(a) matches Some(found) ==> crate::binding::builtin_names().contains(found),
{
    a_text_is_compared_with_what_it_came_with(a, Seq::empty(), a);
    a_text_is_compared_with_what_it_came_with(b, Seq::empty(), b);
    let names = crate::binding::builtin_names();
    a_suggestion_is_a_near_candidate(token_of(a), names, lowercased_all(names), 0);
}

/// The nearest candidate, the first of several, is suggested exactly when it is within three edits or
/// half its own length.
pub proof fn the_first_of_the_nearest_is_suggested(
    token: Seq<char>,
    candidates: Seq<Seq<char>>,
    lowered: Seq<Seq<char>>,
    at: int,
)
    requires
        candidates.len() == lowered.len(),
        0 <= at < lowered.len(),
        forall|j: int|
            0 <= j < lowered.len() ==> edit_distance(token, lowered[at]) <= edit_distance(
                token,
                #[trigger] lowered[j],
            ),
        forall|j: int|
            0 <= j < at ==> edit_distance(token, lowered[at]) < edit_distance(
                token,
                #[trigger] lowered[j],
            ),
    ensures
        ({
            let edits = edit_distance(token, lowered[at]);
            let near = edits <= 3 || 2 * edits <= vstd::utf8::encode_utf8(candidates[at]).len();
            &&& near ==> suggestion(token, candidates, lowered) == Some(candidates[at])
            &&& !near ==> suggestion(token, candidates, lowered) is None
        }),
{
    assert(nearest_candidate(token, lowered, at));
    let c = choose|c: int| nearest_candidate(token, lowered, c);
    assert(nearest_candidate(token, lowered, c));
    assert(edit_distance(token, lowered[c]) <= edit_distance(token, lowered[at]));
    assert(edit_distance(token, lowered[at]) <= edit_distance(token, lowered[c]));
    if c < at {
        assert(edit_distance(token, lowered[at]) < edit_distance(token, lowered[c]));
    } else if at < c {
        assert(edit_distance(token, lowered[c]) < edit_distance(token, lowered[at]));
    }
}

} // verus!
