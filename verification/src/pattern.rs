//! Byte-pattern signatures: their textual form and the search for them.
use crate::text::{hex_digit, split_tokens};
use crate::text::{
    hex_digit_value, hex_value, is_white, lemma_word_len, lemma_word_len_is, tokens, upper_digit,
    word_len,
};
use vstd::prelude::*;

verus! {

// ---------------------------------------------------------------------------
// The textual form
// ---------------------------------------------------------------------------

/// The byte that a token writes in hexadecimal: digits of either case, as many as one
/// likes, after an optional plus sign, with a value of at most 255.
pub open spec fn token_byte(token: Seq<char>) -> Option<u8> {
    let digits = if token.len() > 1 && token[0] == '+' {
        token.drop_first()
    } else {
        token
    };
    match hex_value(digits) {
        Some(v) => if digits.len() > 0 && v <= 255 {
            Some(v as u8)
        } else {
            None
        },
        None => None,
    }
}

/// A token that stands for any byte.
pub open spec fn is_wildcard(token: Seq<char>) -> bool {
    token == seq!['?', '?'] || token == seq!['?']
}

/// What a token contributes to a pattern: a wildcard, a byte, or nothing at all.
pub open spec fn token_entry(token: Seq<char>) -> Option<Option<u8>> {
    if is_wildcard(token) {
        Some(None)
    } else {
        match token_byte(token) {
            Some(b) => Some(Some(b)),
            None => None,
        }
    }
}

/// The entries of a sequence of tokens, in order; tokens that are neither a wildcard
/// nor a byte are left out.
pub open spec fn token_entries(words: Seq<Seq<char>>) -> Seq<Option<u8>>
    decreases words.len(),
{
    if words.len() == 0 {
        Seq::empty()
    } else {
        match token_entry(words.last()) {
            Some(entry) => token_entries(words.drop_last()).push(entry),
            None => token_entries(words.drop_last()),
        }
    }
}

/// The pattern that a signature text writes.
pub open spec fn sig_pattern(sig: Seq<char>) -> Seq<Option<u8>> {
    token_entries(tokens(sig))
}

proof fn lemma_hex_value_grows(s: Seq<char>, i: int)
    requires
        0 <= i <= s.len(),
        hex_value(s.take(i)) matches Some(v) ==> v > 255,
    ensures
        hex_value(s) matches Some(v) ==> v > 255,
    decreases s.len() - i,
{
    if i == s.len() {
        assert(s.take(i) =~= s);
    } else {
        assert(s.take(i + 1).drop_last() =~= s.take(i));
        lemma_hex_value_grows(s, i + 1);
    }
}

/// Reads a byte written in hexadecimal.
pub fn parse_byte(token: &[char]) -> (r: Option<u8>)
    ensures
        r == token_byte(token@),
{
    let signed: bool = token.len() > 1 && token[0] == '+';
    let start: usize = if signed {
        1
    } else {
        0
    };
    let ghost digits = if signed {
        token@.drop_first()
    } else {
        token@
    };
    if token.len() == 0 {
        return None;
    }
    let mut value: u32 = 0;
    let mut i: usize = start;
    assert(digits.take(0) =~= Seq::<char>::empty());
    while i < token.len()
        invariant
            start <= i <= token@.len(),
            start <= 1,
            token@.len() > start,
            digits.len() == token@.len() - start,
            forall|k: int| 0 <= k < digits.len() ==> digits[k] == #[trigger] token@[k + start],
            digits == (if token@.len() > 1 && token@[0] == '+' {
                token@.drop_first()
            } else {
                token@
            }),
            value <= 255,
            hex_value(digits.take(i - start)) == Some(value as nat),
        decreases token@.len() - i,
    {
        proof {
            let k = i - start;
            assert(digits.take(k + 1).drop_last() =~= digits.take(k));
            assert(digits.take(k + 1).last() == digits[k]);
            assert(digits[k] == token@[k + start]);
        }
        match hex_digit(token[i]) {
            Some(d) => {
                value = value * 16 + d as u32;
                i += 1;
                if value > 255 {
                    proof {
                        lemma_hex_value_grows(digits, i - start);
                    }
                    return None;
                }
            },
            None => {
                proof {
                    lemma_hex_value_grows(digits, i - start + 1);
                }
                return None;
            },
        }
    }
    assert(digits.take(i - start) =~= digits);
    Some(value as u8)
}

/// Tests for a wildcard token.
pub fn wildcard(token: &[char]) -> (r: bool)
    ensures
        r == is_wildcard(token@),
{
    let r: bool = (token.len() == 2 && token[0] == '?' && token[1] == '?') || (token.len() == 1
        && token[0] == '?');
    proof {
        if r {
            if token@.len() == 2 {
                assert(token@ =~= seq!['?', '?']);
            } else {
                assert(token@ =~= seq!['?']);
            }
        }
    }
    r
}

/// Reads a signature: hexadecimal bytes and wildcards (`??` or `?`), separated by white
/// space. Tokens of any other form are skipped.
pub fn parse_sig(sig_str: &str) -> (pattern: Vec<Option<u8>>)
    ensures
        pattern@ == sig_pattern(sig_str@),
{
    let words: Vec<Vec<char>> = split_tokens(sig_str);
    let ghost all = tokens(sig_str@);
    let mut pattern: Vec<Option<u8>> = Vec::new();
    let mut i: usize = 0;
    assert(all.take(0) =~= Seq::<Seq<char>>::empty());
    while i < words.len()
        invariant
            i <= words@.len(),
            all == tokens(sig_str@),
            words@.len() == all.len(),
            forall|k: int| 0 <= k < words@.len() ==> (#[trigger] words@[k])@ == all[k],
            pattern@ == token_entries(all.take(i as int)),
        decreases words@.len() - i,
    {
        assert(all.take(i + 1).drop_last() =~= all.take(i as int));
        assert(all.take(i + 1).last() == words@[i as int]@);
        if wildcard(words[i].as_slice()) {
            pattern.push(None);
        } else if let Some(val) = parse_byte(words[i].as_slice()) {
            pattern.push(Some(val));
        }
        i += 1;
    }
    assert(all.take(i as int) =~= all);
    pattern
}

// ---------------------------------------------------------------------------
// The search
// ---------------------------------------------------------------------------

/// The pattern matches `data` at offset `i`: it fits there, and every entry that is not
/// a wildcard equals the byte under it.
pub open spec fn matches_at(data: Seq<u8>, pattern: Seq<Option<u8>>, i: int) -> bool {
    &&& 0 <= i
    &&& i + pattern.len() <= data.len()
    &&& forall|j: int|
        #![trigger pattern[j]]
        0 <= j < pattern.len() ==> (pattern[j] matches Some(b) ==> data[i + j] == b)
}

/// `i` is the lowest offset at which the pattern matches.
pub open spec fn is_first_match(data: Seq<u8>, pattern: Seq<Option<u8>>, i: int) -> bool {
    &&& matches_at(data, pattern, i)
    &&& forall|k: int| 0 <= k < i ==> !#[trigger] matches_at(data, pattern, k)
}

/// The lowest offset at which a non-empty pattern matches, if it matches anywhere.
pub open spec fn first_match(data: Seq<u8>, pattern: Seq<Option<u8>>) -> Option<int> {
    if pattern.len() > 0 && exists|i: int| is_first_match(data, pattern, i) {
        Some(choose|i: int| is_first_match(data, pattern, i))
    } else {
        None
    }
}

/// There is one lowest match, and there is one as soon as there is a match.
pub proof fn lemma_first_match(data: Seq<u8>, pattern: Seq<Option<u8>>, i: int)
    requires
        pattern.len() > 0,
        is_first_match(data, pattern, i),
    ensures
        first_match(data, pattern) == Some(i),
{
    let j = choose|j: int| is_first_match(data, pattern, j);
    assert(is_first_match(data, pattern, j));
    if j < i {
        assert(!matches_at(data, pattern, j));
    }
    if i < j {
        assert(!matches_at(data, pattern, i));
    }
}

/// A non-empty pattern that matches at `i` has a first match, at `i` or before it.
pub proof fn lemma_match_is_found(data: Seq<u8>, pattern: Seq<Option<u8>>, i: int)
    requires
        pattern.len() > 0,
        matches_at(data, pattern, i),
    ensures
        first_match(data, pattern) matches Some(f) && f <= i && is_first_match(data, pattern, f),
    decreases i,
{
    if is_first_match(data, pattern, i) {
        lemma_first_match(data, pattern, i);
    } else {
        let k = choose|k: int| 0 <= k < i && #[trigger] matches_at(data, pattern, k);
        lemma_match_is_found(data, pattern, k);
    }
}

/// Tests whether the pattern matches `data` at offset `i`.
fn check_at(data: &[u8], pattern: &[Option<u8>], i: usize) -> (r: bool)
    requires
        i + pattern@.len() <= data@.len(),
    ensures
        r == matches_at(data@, pattern@, i as int),
{
    let mut j: usize = 0;
    while j < pattern.len()
        invariant
            j <= pattern@.len(),
            i + pattern@.len() <= data.len(),
            forall|k: int|
                #![trigger pattern@[k]]
                0 <= k < j ==> (pattern@[k] matches Some(b) ==> data@[i + k] == b),
        decreases pattern@.len() - j,
    {
        if let Some(b) = pattern[j] {
            if data[i + j] != b {
                assert(pattern@[j as int] == Some(b));
                return false;
            }
        }
        j += 1;
    }
    true
}

/// Finds the lowest offset of `data` at which the pattern matches. An empty pattern is
/// never found.
pub fn scan_pattern(data: &[u8], pattern: &[Option<u8>]) -> (r: Option<usize>)
    ensures
        match r {
            Some(i) => first_match(data@, pattern@) == Some(i as int) && is_first_match(
                data@,
                pattern@,
                i as int,
            ),
            None => first_match(data@, pattern@) is None,
        },
        r matches Some(i) ==> i + pattern@.len() <= data@.len() && forall|j: int|
            #![trigger pattern@[j]]
            0 <= j < pattern@.len() ==> pattern@[j] is None || pattern@[j] == Some(data@[i + j]),
{
    if pattern.len() == 0 || data.len() < pattern.len() {
        proof {
            if pattern@.len() > 0 {
                assert forall|i: int| !is_first_match(data@, pattern@, i) by {}
            }
        }
        return None;
    }
    let last: usize = data.len() - pattern.len();
    let mut i: usize = 0;
    while i <= last
        invariant
            pattern@.len() > 0,
            last + pattern@.len() == data.len(),
            i <= last + 1,
            forall|k: int| 0 <= k < i ==> !#[trigger] matches_at(data@, pattern@, k),
        decreases last + 1 - i,
    {
        if check_at(data, pattern, i) {
            proof {
                lemma_first_match(data@, pattern@, i as int);
            }
            return Some(i);
        }
        i += 1;
    }
    assert forall|k: int| !is_first_match(data@, pattern@, k) by {
        if 0 <= k < i {
            assert(!matches_at(data@, pattern@, k));
        }
    }
    None
}

// ---------------------------------------------------------------------------
// Laws
// ---------------------------------------------------------------------------

/// `loose` is `tight` with some entries replaced by wildcards.
pub open spec fn loosens(loose: Seq<Option<u8>>, tight: Seq<Option<u8>>) -> bool {
    &&& loose.len() == tight.len()
    &&& forall|j: int|
        0 <= j < loose.len() ==> (#[trigger] loose[j]) is None || loose[j] == tight[j]
}

/// Replacing bytes by wildcards loses no match: wherever the tight pattern matches the
/// loose one does, so the loose one is found there or earlier.
pub proof fn law_wildcards_keep_matches(
    data: Seq<u8>,
    loose: Seq<Option<u8>>,
    tight: Seq<Option<u8>>,
    i: int,
)
    requires
        loosens(loose, tight),
        matches_at(data, tight, i),
    ensures
        matches_at(data, loose, i),
        loose.len() > 0 ==> (first_match(data, loose) matches Some(f) && f <= i),
{
    assert(matches_at(data, loose, i)) by {
        assert forall|j: int| #![trigger loose[j]] 0 <= j < loose.len() implies (
        loose[j] matches Some(b) ==> data[i + j] == b) by {
            assert(tight[j] == tight[j]);
        }
    }
    if loose.len() > 0 {
        lemma_match_is_found(data, loose, i);
    }
}

/// A shorter signature that begins like a longer one is found wherever the longer one
/// is found, or earlier.
pub proof fn law_prefix_matches_no_later(data: Seq<u8>, pattern: Seq<Option<u8>>, n: int, i: int)
    requires
        0 < n <= pattern.len(),
        first_match(data, pattern) == Some(i),
    ensures
        first_match(data, pattern.take(n)) matches Some(f) && f <= i,
{
    let k = choose|k: int| is_first_match(data, pattern, k);
    assert(is_first_match(data, pattern, k));
    lemma_first_match(data, pattern, k);
    let short = pattern.take(n);
    assert forall|j: int| #![trigger short[j]] 0 <= j < short.len() implies (
    short[j] matches Some(b) ==> data[i + j] == b) by {
        assert(short[j] == pattern[j]);
    }
    assert(matches_at(data, short, i));
    lemma_match_is_found(data, short, i);
}

proof fn lemma_word_len_extend(a: Seq<char>, w: char, b: Seq<char>)
    requires
        is_white(w),
    ensures
        word_len(a + seq![w] + b) == word_len(a),
{
    let all = a + seq![w] + b;
    let n = word_len(a) as int;
    lemma_word_len(a);
    assert forall|i: int| 0 <= i < n implies !is_white(#[trigger] all[i]) by {
        assert(all[i] == a[i]);
    }
    if n < a.len() {
        assert(all[n] == a[n]);
    } else {
        assert(all[n] == w);
    }
    lemma_word_len_is(all, n);
}

/// The tokens of two texts with white space between them are those of the one and then of
/// the other.
pub proof fn lemma_tokens_concat(a: Seq<char>, w: char, b: Seq<char>)
    requires
        is_white(w),
    ensures
        tokens(a + seq![w] + b) == tokens(a) + tokens(b),
    decreases a.len(),
{
    let all = a + seq![w] + b;
    if a.len() == 0 {
        assert(all[0] == w);
        assert(all.drop_first() =~= b);
        assert(tokens(a) + tokens(b) =~= tokens(b));
    } else if is_white(a[0]) {
        assert(all[0] == a[0]);
        assert(all.drop_first() =~= a.drop_first() + seq![w] + b);
        lemma_tokens_concat(a.drop_first(), w, b);
    } else {
        lemma_word_len(a);
        lemma_word_len_extend(a, w, b);
        let n = word_len(a) as int;
        assert(n > 0);
        assert(all[0] == a[0]);
        assert(all.take(n) =~= a.take(n));
        assert(all.skip(n) =~= a.skip(n) + seq![w] + b);
        lemma_tokens_concat(a.skip(n), w, b);
        assert(seq![a.take(n)] + (tokens(a.skip(n)) + tokens(b)) =~= (seq![a.take(n)] + tokens(
            a.skip(n),
        )) + tokens(b));
    }
}

proof fn lemma_entries_concat(a: Seq<Seq<char>>, b: Seq<Seq<char>>)
    ensures
        token_entries(a + b) == token_entries(a) + token_entries(b),
    decreases b.len(),
{
    if b.len() == 0 {
        assert(a + b =~= a);
        assert(token_entries(a) + token_entries(b) =~= token_entries(a));
    } else {
        assert((a + b).drop_last() =~= a + b.drop_last());
        assert((a + b).last() == b.last());
        lemma_entries_concat(a, b.drop_last());
        match token_entry(b.last()) {
            Some(e) => {
                assert((token_entries(a) + token_entries(b.drop_last())).push(e) =~= token_entries(
                    a,
                ) + token_entries(b.drop_last()).push(e));
            },
            None => {},
        }
    }
}

/// Two signatures written one after the other, with white space between them, make the
/// concatenation of their patterns.
pub proof fn law_signatures_concatenate(a: Seq<char>, w: char, b: Seq<char>)
    requires
        is_white(w),
    ensures
        sig_pattern(a + seq![w] + b) == sig_pattern(a) + sig_pattern(b),
{
    lemma_tokens_concat(a, w, b);
    lemma_entries_concat(tokens(a), tokens(b));
}

/// The texts one after the other, with single spaces between them.
pub open spec fn spaced(words: Seq<Seq<char>>) -> Seq<char>
    decreases words.len(),
{
    if words.len() == 0 {
        Seq::empty()
    } else if words.len() == 1 {
        words[0]
    } else {
        spaced(words.drop_last()) + seq![' '] + words.last()
    }
}

/// The token spells the entry: one or two question marks for a wildcard, or two
/// hexadecimal digits of either case for a byte.
pub open spec fn spells(token: Seq<char>, entry: Option<u8>) -> bool {
    match entry {
        None => is_wildcard(token),
        Some(b) => {
            &&& token.len() == 2
            &&& hex_digit_value(token[0]) == Some((b as int / 16) as nat)
            &&& hex_digit_value(token[1]) == Some((b as int % 16) as nat)
        },
    }
}

/// A text without white space is its own only token.
proof fn lemma_one_token(t: Seq<char>)
    requires
        t.len() > 0,
        forall|i: int| 0 <= i < t.len() ==> !is_white(#[trigger] t[i]),
    ensures
        tokens(t) == seq![t],
        sig_pattern(t) == token_entries(seq![t]),
{
    let n = t.len() as int;
    assert(!is_white(t[0]));
    lemma_word_len_is(t, n);
    assert(t.take(n) =~= t);
    assert(t.skip(n) =~= Seq::<char>::empty());
    reveal_with_fuel(tokens, 2);
    assert(tokens(t) =~= seq![t]);
}

/// A token that spells an entry is read as that entry.
pub proof fn lemma_spelled_entry(t: Seq<char>, entry: Option<u8>)
    requires
        spells(t, entry),
    ensures
        token_entry(t) == Some(entry),
        tokens(t) == seq![t],
        sig_pattern(t) == seq![entry],
{
    assert(seq!['?', '?'][0] == '?' && seq!['?', '?'][1] == '?' && seq!['?'][0] == '?');
    lemma_one_token(t);
    if let Some(b) = entry {
        let high = t.drop_last();
        assert(high.drop_last() =~= Seq::<char>::empty());
        assert(high.last() == t[0]);
        assert(t.last() == t[1]);
        assert(hex_value(Seq::<char>::empty()) == Some(0nat));
        assert(hex_value(high) == Some((b as int / 16) as nat));
        assert(hex_value(t) == Some(b as nat));
        assert(token_byte(t) == Some(b));
    }
    let words = seq![t];
    assert(words.drop_last() =~= Seq::<Seq<char>>::empty());
    assert(words.last() == t);
    reveal_with_fuel(token_entries, 2);
    assert(token_entries(words) =~= seq![entry]);
}

/// A signature reads back from its spelling: tokens with single spaces between them, each
/// of which spells an entry in either case, make exactly those entries, and none is
/// skipped.
pub proof fn law_spelled_signatures_read_back(words: Seq<Seq<char>>, pattern: Seq<Option<u8>>)
    requires
        words.len() == pattern.len(),
        forall|i: int| 0 <= i < words.len() ==> spells(#[trigger] words[i], pattern[i]),
    ensures
        tokens(spaced(words)) == words,
        sig_pattern(spaced(words)) == pattern,
    decreases words.len(),
{
    if words.len() == 0 {
        assert(tokens(Seq::<char>::empty()) =~= words);
        assert(sig_pattern(spaced(words)) =~= pattern);
    } else {
        let n = words.len() - 1;
        assert(spells(words[n], pattern[n]));
        lemma_spelled_entry(words[n], pattern[n]);
        if n == 0 {
            assert(words =~= seq![words[0]]);
            assert(pattern =~= seq![pattern[0]]);
        } else {
            let head = words.drop_last();
            assert forall|i: int| 0 <= i < head.len() implies spells(
                #[trigger] head[i],
                pattern.drop_last()[i],
            ) by {
                assert(head[i] == words[i]);
            }
            law_spelled_signatures_read_back(head, pattern.drop_last());
            lemma_tokens_concat(spaced(head), ' ', words.last());
            law_signatures_concatenate(spaced(head), ' ', words.last());
            assert(head + seq![words.last()] =~= words);
            assert(pattern.drop_last() + seq![pattern.last()] =~= pattern);
        }
    }
}

/// The usual spelling of one entry: `??`, or two upper-case hexadecimal digits.
pub open spec fn entry_text(entry: Option<u8>) -> Seq<char> {
    match entry {
        None => seq!['?', '?'],
        Some(b) => seq![upper_digit(b as int / 16), upper_digit(b as int % 16)],
    }
}

/// The usual spelling of a pattern: its entries, with single spaces between them.
pub open spec fn pattern_text(pattern: Seq<Option<u8>>) -> Seq<char> {
    spaced(Seq::new(pattern.len(), |i: int| entry_text(pattern[i])))
}

/// Every pattern can be written down: reading its usual spelling gives it back.
pub proof fn law_signature_text_round_trip(pattern: Seq<Option<u8>>)
    ensures
        sig_pattern(pattern_text(pattern)) == pattern,
{
    let words = Seq::new(pattern.len(), |i: int| entry_text(pattern[i]));
    assert forall|i: int| 0 <= i < words.len() implies spells(#[trigger] words[i], pattern[i]) by {
        assert(words[i] == entry_text(pattern[i]));
    }
    law_spelled_signatures_read_back(words, pattern);
}

/// Where the search finds a pattern, every entry up to the last one is a wildcard or equals
/// the byte under it; and at every lower offset some entry disagrees.
pub proof fn law_found_bytes_agree(data: Seq<u8>, pattern: Seq<Option<u8>>, i: int, k: int)
    requires
        first_match(data, pattern) == Some(i),
    ensures
        pattern.len() > 0,
        0 <= i,
        i + pattern.len() <= data.len(),
        forall|j: int|
            #![trigger pattern[j]]
            0 <= j < pattern.len() ==> pattern[j] is None || pattern[j] == Some(data[i + j]),
        0 <= k < i ==> exists|j: int|
            #![trigger pattern[j]]
            0 <= j < pattern.len() && pattern[j] is Some && pattern[j] != Some(data[k + j]),
{
    let f = choose|f: int| is_first_match(data, pattern, f);
    assert(is_first_match(data, pattern, f));
    if 0 <= k < i {
        assert(!matches_at(data, pattern, k));
    }
}

/// The lowest offset at which every entry of a pattern agrees with the byte under it is
/// the one that the search finds.
pub proof fn law_lowest_agreement_is_found(data: Seq<u8>, pattern: Seq<Option<u8>>, i: int)
    requires
        pattern.len() > 0,
        0 <= i,
        i + pattern.len() <= data.len(),
        forall|j: int|
            #![trigger pattern[j]]
            0 <= j < pattern.len() ==> pattern[j] is None || pattern[j] == Some(data[i + j]),
        forall|k: int|
            #![trigger data[k]]
            0 <= k < i ==> exists|j: int|
                #![trigger pattern[j]]
                0 <= j < pattern.len() && pattern[j] is Some && pattern[j] != Some(data[k + j]),
    ensures
        first_match(data, pattern) == Some(i),
{
    assert forall|k: int| 0 <= k < i implies !#[trigger] matches_at(data, pattern, k) by {
        let _ = data[k];
    }
    lemma_first_match(data, pattern, i);
}

/// Where the search finds nothing, some entry disagrees at every offset at which the
/// pattern fits.
pub proof fn law_nothing_found_nothing_agrees(data: Seq<u8>, pattern: Seq<Option<u8>>, k: int)
    requires
        pattern.len() > 0,
        first_match(data, pattern) is None,
        0 <= k,
        k + pattern.len() <= data.len(),
    ensures
        exists|j: int|
            #![trigger pattern[j]]
            0 <= j < pattern.len() && pattern[j] is Some && pattern[j] != Some(data[k + j]),
{
    if matches_at(data, pattern, k) {
        lemma_match_is_found(data, pattern, k);
    }
}

/// A signature without wildcards is found only where its bytes stand, all of them.
pub proof fn law_plain_signature_is_found_verbatim(data: Seq<u8>, bytes: Seq<u8>, i: int)
    requires
        first_match(data, Seq::new(bytes.len(), |j: int| Some(bytes[j]))) == Some(i),
    ensures
        0 <= i,
        i + bytes.len() <= data.len(),
        data.subrange(i, i + bytes.len()) == bytes,
{
    let pattern = Seq::new(bytes.len(), |j: int| Some(bytes[j]));
    law_found_bytes_agree(data, pattern, i, 0);
    assert forall|j: int| 0 <= j < bytes.len() implies data[i + j] == bytes[j] by {
        assert(pattern[j] == Some(bytes[j]));
    }
    assert(data.subrange(i, i + bytes.len()) =~= bytes);
}

/// A signature that was put into the code is found there, or at a lower offset.
pub proof fn law_planted_signature_is_found(
    before: Seq<u8>,
    bytes: Seq<u8>,
    after: Seq<u8>,
    pattern: Seq<Option<u8>>,
)
    requires
        bytes.len() > 0,
        pattern.len() == bytes.len(),
        forall|j: int|
            #![trigger pattern[j]]
            0 <= j < bytes.len() ==> pattern[j] is None || pattern[j] == Some(bytes[j]),
    ensures
        first_match(before + bytes + after, pattern) matches Some(i) && i <= before.len(),
{
    let data = before + bytes + after;
    let at = before.len() as int;
    assert forall|j: int| #![trigger pattern[j]] 0 <= j < pattern.len() implies (
    pattern[j] matches Some(b) ==> data[at + j] == b) by {
        assert(data[at + j] == bytes[j]);
    }
    lemma_match_is_found(data, pattern, at);
}

proof fn lemma_appended(a: Seq<char>, w: char, t: Seq<char>)
    requires
        is_white(w),
    ensures
        sig_pattern(a + seq![w] + t) == sig_pattern(a) + sig_pattern(t),
{
    law_signatures_concatenate(a, w, t);
}

/// Two hexadecimal digits of either case behind white space add their byte to a signature,
/// however long it is; one or two question marks add a wildcard.
pub proof fn law_each_token_adds_its_entry(a: Seq<char>, w: char, high: char, low: char)
    requires
        is_white(w),
    ensures
        hex_digit_value(high) is Some && hex_digit_value(low) is Some ==> sig_pattern(
            a + seq![w] + seq![high, low],
        ) == sig_pattern(a).push(
            Some((16 * hex_digit_value(high)->0 + hex_digit_value(low)->0) as u8),
        ),
        sig_pattern(a + seq![w] + seq!['?', '?']) == sig_pattern(a).push(None),
        sig_pattern(a + seq![w] + seq!['?']) == sig_pattern(a).push(None),
        sig_pattern(a + seq![w]) == sig_pattern(a),
        sig_pattern(Seq::empty()) == Seq::<Option<u8>>::empty(),
{
    let pair = seq![high, low];
    if hex_digit_value(high) is Some && hex_digit_value(low) is Some {
        let b = (16 * hex_digit_value(high)->0 + hex_digit_value(low)->0) as u8;
        lemma_spelled_entry(pair, Some(b));
        lemma_appended(a, w, pair);
        assert(sig_pattern(a) + seq![Some(b)] =~= sig_pattern(a).push(Some(b)));
    }
    lemma_spelled_entry(seq!['?', '?'], None);
    lemma_appended(a, w, seq!['?', '?']);
    lemma_spelled_entry(seq!['?'], None);
    lemma_appended(a, w, seq!['?']);
    assert(sig_pattern(a) + seq![None::<u8>] =~= sig_pattern(a).push(None));
    assert(tokens(Seq::<char>::empty()) =~= Seq::<Seq<char>>::empty());
    assert(sig_pattern(Seq::<char>::empty()) =~= Seq::<Option<u8>>::empty());
    lemma_appended(a, w, Seq::empty());
    assert(a + seq![w] + Seq::<char>::empty() =~= a + seq![w]);
    assert(sig_pattern(a) + Seq::<Option<u8>>::empty() =~= sig_pattern(a));
}

proof fn lemma_not_hexadecimal(t: Seq<char>, k: int)
    requires
        0 <= k < t.len(),
        hex_digit_value(t[k]) is None,
    ensures
        hex_value(t) is None,
    decreases t.len(),
{
    if k < t.len() - 1 {
        assert(t.drop_last()[k] == t[k]);
        lemma_not_hexadecimal(t.drop_last(), k);
    }
}

proof fn lemma_hexadecimal_value(t: Seq<char>)
    requires
        forall|k: int| 0 <= k < t.len() ==> hex_digit_value(#[trigger] t[k]) is Some,
    ensures
        hex_value(t) is Some,
        hex_value(seq!['0'] + t) == hex_value(t),
        t.len() >= 3 && t[0] != '0' ==> hex_value(t)->0 > 255,
    decreases t.len(),
{
    let z = seq!['0'] + t;
    if t.len() == 0 {
        assert(z.drop_last() =~= Seq::<char>::empty());
        assert(hex_value(Seq::<char>::empty()) == Some(0nat));
        assert(z.last() == '0');
    } else {
        let head = t.drop_last();
        assert forall|k: int| 0 <= k < head.len() implies hex_digit_value(
            #[trigger] head[k],
        ) is Some by {
            assert(head[k] == t[k]);
        }
        assert(hex_digit_value(t[t.len() - 1]) is Some);
        lemma_hexadecimal_value(head);
        assert(z.drop_last() =~= seq!['0'] + head);
        assert(z.last() == t.last());
        if t.len() == 3 && t[0] != '0' {
            let one = head.drop_last();
            assert(one.drop_last() =~= Seq::<char>::empty());
            assert(hex_value(Seq::<char>::empty()) == Some(0nat));
            assert(one.last() == t[0]);
            assert(hex_digit_value(t[0]) is Some);
            assert(hex_value(one) == Some(hex_digit_value(t[0])->0));
            assert(hex_digit_value(t[0])->0 >= 1);
            assert(hex_value(head)->0 >= 16);
        } else if t.len() > 3 {
            assert(head[0] == t[0]);
        }
    }
}

/// Zeros before the digits of a byte, and a plus sign before them, make no difference; but
/// three digits or more that do not begin with a zero are no byte.
pub proof fn law_leading_zeros_do_not_matter(t: Seq<char>)
    requires
        t.len() > 0,
        forall|k: int| 0 <= k < t.len() ==> hex_digit_value(#[trigger] t[k]) is Some,
    ensures
        token_byte(seq!['0'] + t) == token_byte(t),
        token_byte(seq!['+'] + t) == token_byte(t),
        t.len() >= 3 && t[0] != '0' ==> token_byte(t) is None,
        t.len() == 1 ==> token_byte(t) == Some(hex_digit_value(t[0])->0 as u8),
        t.len() == 2 ==> token_byte(t) == Some(
            (16 * hex_digit_value(t[0])->0 + hex_digit_value(t[1])->0) as u8,
        ),
{
    lemma_hexadecimal_value(t);
    assert(hex_digit_value(t[0]) is Some);
    assert((seq!['+'] + t).drop_first() =~= t);
    if t.len() <= 2 {
        let one = seq![t[0]];
        assert(one.drop_last() =~= Seq::<char>::empty());
        assert(hex_value(Seq::<char>::empty()) == Some(0nat));
        assert(hex_value(one) == Some(hex_digit_value(t[0])->0));
        if t.len() == 2 {
            assert(t.drop_last() =~= one);
            assert(hex_digit_value(t[1]) is Some);
        } else {
            assert(t =~= one);
        }
    }
}

/// A token with a character that is neither a hexadecimal digit, nor a question mark, nor a
/// plus sign at its front adds nothing to a signature.
pub proof fn law_other_tokens_are_skipped(a: Seq<char>, w: char, t: Seq<char>, k: int)
    requires
        is_white(w),
        forall|i: int| 0 <= i < t.len() ==> !is_white(#[trigger] t[i]),
        0 <= k < t.len(),
        hex_digit_value(t[k]) is None,
        t[k] != '?',
        k > 0 || t[k] != '+' || t.len() == 1,
    ensures
        sig_pattern(a + seq![w] + t) == sig_pattern(a),
{
    lemma_one_token(t);
    lemma_appended(a, w, t);
    assert(!is_wildcard(t)) by {
        assert(seq!['?', '?'][0] == '?' && seq!['?', '?'][1] == '?' && seq!['?'][0] == '?');
    }
    lemma_not_hexadecimal(t, k);
    if t.len() > 1 && t[0] == '+' {
        assert(t.drop_first()[k - 1] == t[k]);
        lemma_not_hexadecimal(t.drop_first(), k - 1);
    }
    assert(token_entry(t) is None);
    assert(seq![t].drop_last() =~= Seq::<Seq<char>>::empty());
    assert(token_entries(seq![t]) =~= Seq::<Option<u8>>::empty()) by {
        reveal_with_fuel(token_entries, 2);
        assert(seq![t].last() == t);
    }
    assert(sig_pattern(a) + Seq::<Option<u8>>::empty() =~= sig_pattern(a));
}

/// The tokens of a text are its words: white space parts them, a text without white space is
/// one of them, of any length, and nothing else is taken away or added.
pub proof fn law_tokens_are_the_words(a: Seq<char>, w: char, b: Seq<char>, t: Seq<char>)
    requires
        is_white(w),
        t.len() > 0,
        forall|i: int| 0 <= i < t.len() ==> !is_white(#[trigger] t[i]),
    ensures
        tokens(Seq::empty()) == Seq::<Seq<char>>::empty(),
        tokens(t) == seq![t],
        tokens(a + seq![w] + b) == tokens(a) + tokens(b),
{
    lemma_one_token(t);
    lemma_tokens_concat(a, w, b);
}

/// A word that is one or two question marks adds a wildcard to a signature; one that writes a
/// byte, in any number of digits, adds that byte; and every other word adds nothing, also
/// where it holds question marks.
pub proof fn law_each_word_adds_what_it_writes(a: Seq<char>, w: char, t: Seq<char>)
    requires
        is_white(w),
        t.len() > 0,
        forall|i: int| 0 <= i < t.len() ==> !is_white(#[trigger] t[i]),
    ensures
        t == seq!['?'] || t == seq!['?', '?'] ==> sig_pattern(a + seq![w] + t) == sig_pattern(
            a,
        ).push(None),
        t != seq!['?'] && t != seq!['?', '?'] && t.contains('?') ==> sig_pattern(a + seq![w] + t)
            == sig_pattern(a),
        !t.contains('?') ==> sig_pattern(a + seq![w] + t) == (match token_byte(t) {
            Some(b) => sig_pattern(a).push(Some(b)),
            None => sig_pattern(a),
        }),
        sig_pattern(seq![w] + t) == sig_pattern(t),
{
    lemma_one_token(t);
    lemma_appended(a, w, t);
    lemma_appended(Seq::empty(), w, t);
    assert(Seq::<char>::empty() + seq![w] + t =~= seq![w] + t);
    assert(tokens(Seq::<char>::empty()) =~= Seq::<Seq<char>>::empty());
    assert(sig_pattern(Seq::<char>::empty()) =~= Seq::<Option<u8>>::empty());
    assert(Seq::<Option<u8>>::empty() + sig_pattern(t) =~= sig_pattern(t));
    let words = seq![t];
    assert(words.drop_last() =~= Seq::<Seq<char>>::empty());
    assert(words.last() == t);
    reveal_with_fuel(token_entries, 2);
    assert(sig_pattern(t) =~= match token_entry(t) {
        Some(entry) => seq![entry],
        None => Seq::empty(),
    });
    assert(sig_pattern(a) + seq![None::<u8>] =~= sig_pattern(a).push(None));
    assert(sig_pattern(a) + Seq::<Option<u8>>::empty() =~= sig_pattern(a));
    if let Some(b) = token_byte(t) {
        assert(sig_pattern(a) + seq![Some(b)] =~= sig_pattern(a).push(Some(b)));
    }
    if t.contains('?') {
        let k = choose|k: int| 0 <= k < t.len() && t[k] == '?';
        lemma_not_hexadecimal(t, k);
        if t.len() > 1 && t[0] == '+' {
            assert(t.drop_first()[k - 1] == t[k]);
            lemma_not_hexadecimal(t.drop_first(), k - 1);
        }
    } else {
        assert(seq!['?', '?'][0] == '?' && seq!['?'][0] == '?');
        if is_wildcard(t) {
            assert(t.contains(t[0]));
        }
    }
}

} // verus!
