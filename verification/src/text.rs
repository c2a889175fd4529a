//! Character and text primitives shared by the parsers.
//!
//! Executable functions work on `Vec<char>`; their contracts are stated over
//! `Seq<char>`.

use vstd::prelude::*;

verus! {

// ---------------------------------------------------------------------------
// Characters
// ---------------------------------------------------------------------------

/// The characters with the Unicode `White_Space` property.
pub open spec fn is_whitespace(c: char) -> bool {
    let n = c as u32;
    ||| (0x09 <= n && n <= 0x0D)
    ||| n == 0x20
    ||| n == 0x85
    ||| n == 0xA0
    ||| n == 0x1680
    ||| (0x2000 <= n && n <= 0x200A)
    ||| n == 0x2028
    ||| n == 0x2029
    ||| n == 0x202F
    ||| n == 0x205F
    ||| n == 0x3000
}

/// Whether `c` has the Unicode `White_Space` property.
pub fn char_is_whitespace(c: char) -> (b: bool)
    ensures
        b == is_whitespace(c),
{
    let n: u32 = c as u32;
    (0x09 <= n && n <= 0x0D) || n == 0x20 || n == 0x85 || n == 0xA0 || n == 0x1680 || (0x2000 <= n
        && n <= 0x200A) || n == 0x2028 || n == 0x2029 || n == 0x202F || n == 0x205F || n == 0x3000
}

/// The ASCII decimal digits.
pub open spec fn is_digit(c: char) -> bool {
    '0' <= c && c <= '9'
}

/// Whether `c` is an ASCII decimal digit.
pub fn char_is_digit(c: char) -> (b: bool)
    ensures
        b == is_digit(c),
{
    '0' <= c && c <= '9'
}

/// The number that a decimal digit stands for.
pub open spec fn digit_value(c: char) -> int {
    c as int - '0' as int
}

/// The number that a decimal digit stands for.
pub fn digit_of(c: char) -> (d: u8)
    requires
        is_digit(c),
    ensures
        d as int == digit_value(c),
        d < 10,
{
    let x: u32 = c as u32;
    (x - 48) as u8
}

/// The decimal digit that stands for `d`.
pub open spec fn digit_char(d: int) -> char {
    (d + '0' as int) as char
}

/// The decimal digit that stands for `d`.
pub fn char_of_digit(d: u8) -> (c: char)
    requires
        d < 10,
    ensures
        c == digit_char(d as int),
        is_digit(c),
        digit_value(c) == d as int,
{
    let x: u8 = 48 + d;
    x as char
}

/// The ASCII capital letters.
pub open spec fn is_ascii_upper(c: char) -> bool {
    'A' <= c && c <= 'Z'
}

/// The ASCII small letters.
pub open spec fn is_ascii_lower(c: char) -> bool {
    'a' <= c && c <= 'z'
}

/// ASCII letters and digits.
pub open spec fn is_ascii_alphanumeric(c: char) -> bool {
    is_ascii_upper(c) || is_ascii_lower(c) || is_digit(c)
}

/// Whether `c` is an ASCII letter or digit.
pub fn char_is_ascii_alphanumeric(c: char) -> (b: bool)
    ensures
        b == is_ascii_alphanumeric(c),
{
    ('A' <= c && c <= 'Z') || ('a' <= c && c <= 'z') || ('0' <= c && c <= '9')
}

/// ASCII lower case of one character; every other character is unchanged.
pub open spec fn to_lower(c: char) -> char {
    if is_ascii_upper(c) {
        ((c as u32) + 32) as char
    } else {
        c
    }
}

/// The ASCII lower case of `c`.
pub fn char_to_lower(c: char) -> (r: char)
    ensures
        r == to_lower(c),
{
    if 'A' <= c && c <= 'Z' {
        let x: u8 = c as u8;
        (x + 32) as char
    } else {
        c
    }
}

/// ASCII lower case of a text, character by character.
pub open spec fn lower(s: Seq<char>) -> Seq<char> {
    Seq::new(s.len(), |i: int| to_lower(s[i]))
}

/// Equality up to ASCII case.
pub open spec fn eq_ignore_case(a: Seq<char>, b: Seq<char>) -> bool {
    lower(a) == lower(b)
}

/// The ASCII lower case of a text.
pub fn to_lower_vec(s: &Vec<char>) -> (r: Vec<char>)
    ensures
        r@ == lower(s@),
{
    let mut r: Vec<char> = Vec::new();
    let mut i: usize = 0;
    while i < s.len()
        invariant
            i <= s.len(),
            r@ == lower(s@.take(i as int)),
        decreases s.len() - i,
    {
        r.push(char_to_lower(s[i]));
        i += 1;
    }
    r
}

/// Whether two texts hold the same characters.
pub fn vec_eq(a: &Vec<char>, b: &Vec<char>) -> (r: bool)
    ensures
        r == (a@ == b@),
{
    if a.len() != b.len() {
        return false;
    }
    let mut i: usize = 0;
    while i < a.len()
        invariant
            i <= a.len(),
            a.len() == b.len(),
            a@.take(i as int) == b@.take(i as int),
        decreases a.len() - i,
    {
        if a[i] != b[i] {
            return false;
        }
        i += 1;
    }
    assert(a@.take(a.len() as int) =~= a@);
    assert(b@.take(b.len() as int) =~= b@);
    true
}

/// Whether two texts hold the same characters up to ASCII case.
pub fn vec_eq_ignore_case(a: &Vec<char>, b: &Vec<char>) -> (r: bool)
    ensures
        r == eq_ignore_case(a@, b@),
{
    let la = to_lower_vec(a);
    let lb = to_lower_vec(b);
    vec_eq(&la, &lb)
}

/// Whether the characters of `v` are those of `word`.
pub fn equals_str(v: &Vec<char>, word: &str) -> (r: bool)
    ensures
        r == (v@ == word@),
{
    let w = chars_of(word);
    vec_eq(v, &w)
}

/// Whether the characters of `v` are those of `word`, up to ASCII case.
pub fn equals_str_ignore_case(v: &Vec<char>, word: &str) -> (r: bool)
    ensures
        r == eq_ignore_case(v@, word@),
{
    let w = chars_of(word);
    vec_eq_ignore_case(v, &w)
}

// ---------------------------------------------------------------------------
// Conversions between strings and character vectors
// ---------------------------------------------------------------------------

/// The characters of a string slice, in order.
pub fn chars_of(s: &str) -> (v: Vec<char>)
    ensures
        v@ == s@,
{
    let mut v: Vec<char> = Vec::new();
    for c in it: s.chars()
        invariant
            v@ == it.seq().take(it.index() as int),
            it.seq() == s@,
    {
        v.push(c);
    }
    v
}

/// `String::push`: appends one character to the string.
#[verifier::external_body]
fn push_char(s: &mut String, c: char)
    ensures
        final(s)@ == old(s)@.push(c),
{
    s.push(c)
}

/// Appends the characters of `v` to `s`.
pub fn append_chars(s: &mut String, v: &Vec<char>)
    ensures
        final(s)@ == old(s)@ + v@,
{
    let mut i: usize = 0;
    while i < v.len()
        invariant
            i <= v.len(),
            s@ == old(s)@ + v@.take(i as int),
        decreases v.len() - i,
    {
        push_char(s, v[i]);
        i += 1;
    }
}

/// The string made of the characters of `v`.
pub fn string_of(v: &Vec<char>) -> (s: String)
    ensures
        s@ == v@,
{
    let mut s = String::new();
    append_chars(&mut s, v);
    s
}

/// A copy of the characters `a..b` of `v`.
pub fn subvec(v: &Vec<char>, a: usize, b: usize) -> (r: Vec<char>)
    requires
        a <= b <= v.len(),
    ensures
        r@ == v@.subrange(a as int, b as int),
{
    let mut r: Vec<char> = Vec::new();
    let mut i: usize = a;
    while i < b
        invariant
            a <= i <= b <= v.len(),
            r@ == v@.subrange(a as int, i as int),
        decreases b - i,
    {
        r.push(v[i]);
        i += 1;
    }
    r
}

// ---------------------------------------------------------------------------
// Trimming
// ---------------------------------------------------------------------------

/// `s` without its leading whitespace.
pub open spec fn trim_start(s: Seq<char>) -> Seq<char>
    decreases s.len(),
{
    if s.len() > 0 && is_whitespace(s[0]) {
        trim_start(s.drop_first())
    } else {
        s
    }
}

/// `s` without its trailing whitespace.
pub open spec fn trim_end(s: Seq<char>) -> Seq<char>
    decreases s.len(),
{
    if s.len() > 0 && is_whitespace(s.last()) {
        trim_end(s.drop_last())
    } else {
        s
    }
}

/// `s` without leading and trailing whitespace.
pub open spec fn trim(s: Seq<char>) -> Seq<char> {
    trim_end(trim_start(s))
}

/// Leading whitespace may be skipped before the start is trimmed.
pub proof fn lemma_trim_start_skips(s: Seq<char>, k: int)
    requires
        0 <= k <= s.len(),
        forall|i: int| 0 <= i < k ==> is_whitespace(#[trigger] s[i]),
    ensures
        trim_start(s) == trim_start(s.skip(k)),
    decreases k,
{
    if k > 0 {
        lemma_trim_start_skips(s.drop_first(), k - 1);
        assert(s.drop_first().skip(k - 1) =~= s.skip(k));
    } else {
        assert(s.skip(0) =~= s);
    }
}

/// Trailing whitespace may be cut before the end is trimmed.
pub proof fn lemma_trim_end_skips(s: Seq<char>, k: int)
    requires
        0 <= k <= s.len(),
        forall|i: int| k <= i < s.len() ==> is_whitespace(#[trigger] s[i]),
    ensures
        trim_end(s) == trim_end(s.take(k)),
    decreases s.len() - k,
{
    if k < s.len() {
        lemma_trim_end_skips(s.drop_last(), k);
        assert(s.drop_last().take(k) =~= s.take(k));
    } else {
        assert(s.take(k) =~= s);
    }
}

/// The text without leading and trailing whitespace.
pub fn trim_vec(s: &Vec<char>) -> (r: Vec<char>)
    ensures
        r@ == trim(s@),
{
    let mut a: usize = 0;
    while a < s.len() && char_is_whitespace(s[a])
        invariant
            a <= s.len(),
            forall|i: int| 0 <= i < a ==> is_whitespace(#[trigger] s@[i]),
        decreases s.len() - a,
    {
        a += 1;
    }
    let mut b: usize = s.len();
    while b > a && char_is_whitespace(s[b - 1])
        invariant
            a <= b <= s.len(),
            forall|i: int| b <= i < s.len() ==> is_whitespace(#[trigger] s@[i]),
        decreases b,
    {
        b -= 1;
    }
    let r = subvec(s, a, b);
    proof {
        lemma_trim_start_skips(s@, a as int);
        let t = s@.skip(a as int);
        assert forall|i: int| b - a <= i < t.len() implies is_whitespace(#[trigger] t[i]) by {}
        lemma_trim_end_skips(t, b - a);
        let u = t.take(b - a);
    }
    r
}

// ---------------------------------------------------------------------------
// Searching
// ---------------------------------------------------------------------------

/// The views of a sequence of character vectors.
pub open spec fn views(vs: Seq<Vec<char>>) -> Seq<Seq<char>> {
    Seq::new(vs.len(), |i: int| vs[i]@)
}


/// The index of the first `c` in `s`, or -1 where there is none.
pub open spec fn index_of(s: Seq<char>, c: char) -> int
    decreases s.len(),
{
    if s.len() == 0 {
        -1
    } else if s[0] == c {
        0
    } else {
        let r = index_of(s.drop_first(), c);
        if r < 0 {
            -1
        } else {
            r + 1
        }
    }
}

/// The index of a character is that of its first occurrence.
pub proof fn lemma_index_of(s: Seq<char>, c: char)
    ensures
        -1 <= index_of(s, c) < s.len(),
        index_of(s, c) >= 0 ==> s[index_of(s, c)] == c,
        forall|i: int| 0 <= i < s.len() && (index_of(s, c) < 0 || i < index_of(s, c)) ==> s[i] != c,
    decreases s.len(),
{
    if s.len() > 0 && s[0] != c {
        lemma_index_of(s.drop_first(), c);
        assert forall|i: int| 0 <= i < s.len() && (index_of(s, c) < 0 || i < index_of(s, c)) implies s[i]
            != c by {
            if i > 0 {
                assert(s[i] == s.drop_first()[i - 1]);
            }
        }
    }
}

/// The first `c` of `s` is at `k`, given that none stands before `k`.
pub proof fn lemma_index_of_at(s: Seq<char>, c: char, k: int)
    requires
        0 <= k <= s.len(),
        forall|i: int| 0 <= i < k ==> s[i] != c,
        k < s.len() ==> s[k] == c,
    ensures
        index_of(s, c) == (if k < s.len() { k } else { -1 }),
{
    lemma_index_of(s, c);
}

/// Finds the first `c` in `s[from..]`.
pub fn find_char(s: &Vec<char>, from: usize, c: char) -> (r: Option<usize>)
    requires
        from <= s.len(),
    ensures
        match r {
            Some(i) => from <= i < s.len() && index_of(s@.skip(from as int), c) == i - from,
            None => index_of(s@.skip(from as int), c) == -1,
        },
{
    let mut i: usize = from;
    while i < s.len()
        invariant
            from <= i <= s.len(),
            forall|j: int| from <= j < i ==> s@[j] != c,
        decreases s.len() - i,
    {
        if s[i] == c {
            proof {
                lemma_index_of_at(s@.skip(from as int), c, i - from);
            }
            return Some(i);
        }
        i += 1;
    }
    proof {
        lemma_index_of_at(s@.skip(from as int), c, s.len() - from);
    }
    None
}

/// `s` holds the character `c`.
pub open spec fn has_char(s: Seq<char>, c: char) -> bool {
    exists|i: int| 0 <= i < s.len() && s[i] == c
}

/// `p` stands at the start of `s`.
pub open spec fn starts_with(s: Seq<char>, p: Seq<char>) -> bool {
    p.len() <= s.len() && s.take(p.len() as int) == p
}

/// `p` stands at the end of `s`.
pub open spec fn ends_with(s: Seq<char>, p: Seq<char>) -> bool {
    p.len() <= s.len() && s.skip(s.len() - p.len()) == p
}

/// `p` stands in `s` at index `i`.
pub open spec fn matches_at(s: Seq<char>, p: Seq<char>, i: int) -> bool {
    0 <= i && i + p.len() <= s.len() && s.subrange(i, i + p.len()) == p
}

/// Whether `p` stands in `s` at index `i`.
pub fn vec_matches_at(s: &Vec<char>, p: &Vec<char>, i: usize) -> (r: bool)
    ensures
        r == matches_at(s@, p@, i as int),
{
    if i > s.len() || p.len() > s.len() - i {
        return false;
    }
    let mut j: usize = 0;
    while j < p.len()
        invariant
            j <= p.len(),
            i + p.len() <= s.len(),
            forall|k: int| 0 <= k < j ==> s@[i + k] == p@[k],
        decreases p.len() - j,
    {
        if s[i + j] != p[j] {
            return false;
        }
        j += 1;
    }
    assert(s@.subrange(i as int, i + p.len()) =~= p@);
    true
}

/// Whether `p` stands at the start of `s`.
pub fn vec_starts_with(s: &Vec<char>, p: &Vec<char>) -> (r: bool)
    ensures
        r == starts_with(s@, p@),
{
    let r = vec_matches_at(s, p, 0);
    r
}

/// The index of the first occurrence of `p` in `s`, or -1 where there is none.
pub open spec fn find(s: Seq<char>, p: Seq<char>) -> int
    decreases s.len(),
{
    if starts_with(s, p) {
        0
    } else if s.len() == 0 {
        -1
    } else {
        let r = find(s.drop_first(), p);
        if r < 0 {
            -1
        } else {
            r + 1
        }
    }
}

/// What `find` gives is an occurrence, and the first.
pub proof fn lemma_find(s: Seq<char>, p: Seq<char>)
    ensures
        -1 <= find(s, p) <= s.len(),
        find(s, p) >= 0 ==> matches_at(s, p, find(s, p)),
        forall|i: int| 0 <= i && (find(s, p) < 0 || i < find(s, p)) ==> !matches_at(s, p, i),
    decreases s.len(),
{
    if starts_with(s, p) {
    } else if s.len() == 0 {
        assert forall|i: int| 0 <= i implies !matches_at(s, p, i) by {}
    } else {
        let t = s.drop_first();
        lemma_find(t, p);
        let r = find(t, p);
        if r >= 0 {
            assert(s.subrange(r + 1, r + 1 + p.len()) =~= t.subrange(r, r + p.len()));
        }
        assert forall|i: int| 0 <= i && (find(s, p) < 0 || i < find(s, p)) implies !matches_at(
            s,
            p,
            i,
        ) by {
            if matches_at(s, p, i) {
                if i != 0 {
                    assert(s.subrange(i, i + p.len()) =~= t.subrange(i - 1, i - 1 + p.len()));
                    assert(matches_at(t, p, i - 1));
                }
            }
        }
    }
}

/// The first occurrence of `p` in `s` is at `k`, given that none starts before `k`.
pub proof fn lemma_find_at(s: Seq<char>, p: Seq<char>, k: int)
    requires
        0 <= k,
        forall|i: int| 0 <= i < k ==> !matches_at(s, p, i),
        matches_at(s, p, k) || k + p.len() > s.len(),
    ensures
        find(s, p) == (if matches_at(s, p, k) { k } else { -1 }),
{
    lemma_find(s, p);
}

/// `s` holds `p` somewhere.
pub open spec fn contains(s: Seq<char>, p: Seq<char>) -> bool {
    find(s, p) >= 0
}

/// Finds the first occurrence of `p` in `s`.
pub fn find_sub(s: &Vec<char>, p: &Vec<char>) -> (r: Option<usize>)
    ensures
        match r {
            Some(i) => find(s@, p@) == i && i + p.len() <= s.len(),
            None => find(s@, p@) == -1,
        },
{
    if p.len() > s.len() {
        proof {
            lemma_find_at(s@, p@, 0);
        }
        return None;
    }
    let last: usize = s.len() - p.len();
    let mut i: usize = 0;
    loop
        invariant
            i <= last,
            last == s.len() - p.len(),
            forall|j: int| 0 <= j < i ==> !matches_at(s@, p@, j),
        decreases last - i,
    {
        if vec_matches_at(s, p, i) {
            proof {
                lemma_find_at(s@, p@, i as int);
            }
            return Some(i);
        }
        if i == last {
            proof {
                lemma_find_at(s@, p@, i + 1);
            }
            return None;
        }
        i += 1;
    }
}

// ---------------------------------------------------------------------------
// Splitting
// ---------------------------------------------------------------------------

/// The pieces of `s` between the occurrences of `c`: one more than there are
/// occurrences, empty pieces included.
pub open spec fn split_on(s: Seq<char>, c: char) -> Seq<Seq<char>>
    decreases s.len(),
{
    let i = index_of(s, c);
    if 0 <= i < s.len() {
        seq![s.take(i)] + split_on(s.skip(i + 1), c)
    } else {
        seq![s]
    }
}

/// Splits a text at each occurrence of `c`.
pub fn split_on_char(s: &Vec<char>, c: char) -> (r: Vec<Vec<char>>)
    ensures
        views(r@) == split_on(s@, c),
{
    let mut parts: Vec<Vec<char>> = Vec::new();
    let mut start: usize = 0;
    assert(s@.skip(0) =~= s@);
    loop
        invariant
            start <= s.len(),
            split_on(s@, c) == views(parts@) + split_on(s@.skip(start as int), c),
        decreases s.len() - start,
    {
        let ghost rest = s@.skip(start as int);
        match find_char(s, start, c) {
            Some(i) => {
                let piece = subvec(s, start, i);
                proof {
                    assert(rest.take(i - start) =~= piece@);
                    assert(rest.skip(i - start + 1) =~= s@.skip(i + 1));
                }
                parts.push(piece);
                start = i + 1;
            },
            None => {
                let piece = subvec(s, start, s.len());
                parts.push(piece);
                return parts;
            },
        }
    }
}

/// The number of characters before the first whitespace of `s`.
pub open spec fn word_len(s: Seq<char>) -> int
    decreases s.len(),
{
    if s.len() > 0 && !is_whitespace(s[0]) {
        1 + word_len(s.drop_first())
    } else {
        0
    }
}

/// The characters of the first word are no whitespace, and whitespace or the end follows them.
pub proof fn lemma_word_len(s: Seq<char>)
    ensures
        0 <= word_len(s) <= s.len(),
        forall|i: int| 0 <= i < word_len(s) ==> !is_whitespace(#[trigger] s[i]),
        word_len(s) < s.len() ==> is_whitespace(s[word_len(s)]),
    decreases s.len(),
{
    if s.len() > 0 && !is_whitespace(s[0]) {
        lemma_word_len(s.drop_first());
        assert forall|i: int| 0 <= i < word_len(s) implies !is_whitespace(#[trigger] s[i]) by {
            if i > 0 {
                assert(s[i] == s.drop_first()[i - 1]);
            }
        }
    }
}

/// The first word has the length `k`, given that whitespace or the end stands at `k` and none before.
pub proof fn lemma_word_len_at(s: Seq<char>, k: int)
    requires
        0 <= k <= s.len(),
        forall|i: int| 0 <= i < k ==> !is_whitespace(#[trigger] s[i]),
        k < s.len() ==> is_whitespace(s[k]),
    ensures
        word_len(s) == k,
{
    lemma_word_len(s);
}

/// A text without its leading whitespace is a tail of the text and starts with no whitespace.
pub proof fn lemma_trim_start(s: Seq<char>)
    ensures
        trim_start(s).len() <= s.len(),
        trim_start(s) == s.skip(s.len() - trim_start(s).len()),
        trim_start(s).len() > 0 ==> !is_whitespace(trim_start(s)[0]),
        forall|i: int| 0 <= i < s.len() - trim_start(s).len() ==> is_whitespace(#[trigger] s[i]),
    decreases s.len(),
{
    if s.len() > 0 && is_whitespace(s[0]) {
        let t = s.drop_first();
        lemma_trim_start(t);
        assert forall|i: int| 0 <= i < s.len() - trim_start(s).len() implies is_whitespace(
            #[trigger] s[i],
        ) by {
            if i > 0 {
                assert(s[i] == t[i - 1]);
            }
        }
    }
}

/// A text without its trailing whitespace is a head of the text and ends with no whitespace.
pub proof fn lemma_trim_end(s: Seq<char>)
    ensures
        trim_end(s).len() <= s.len(),
        trim_end(s) == s.take(trim_end(s).len() as int),
        trim_end(s).len() > 0 ==> !is_whitespace(trim_end(s).last()),
    decreases s.len(),
{
    if s.len() > 0 && is_whitespace(s.last()) {
        let t = s.drop_last();
        lemma_trim_end(t);
    }
}

/// The words of `s`: its maximal runs of characters that are not whitespace.
pub open spec fn words(s: Seq<char>) -> Seq<Seq<char>>
    decreases s.len(),
{
    let t = trim_start(s);
    if t.len() == 0 {
        Seq::empty()
    } else {
        let n = word_len(t);
        if 0 < n <= t.len() && t.len() <= s.len() {
            seq![t.take(n)] + words(t.skip(n))
        } else {
            Seq::empty()
        }
    }
}

/// Splits a text into its words.
pub fn split_words(s: &Vec<char>) -> (r: Vec<Vec<char>>)
    ensures
        views(r@) == words(s@),
{
    let mut parts: Vec<Vec<char>> = Vec::new();
    let mut i: usize = 0;
    assert(s@.skip(0) =~= s@);
    loop
        invariant
            i <= s.len(),
            words(s@) == views(parts@) + words(s@.skip(i as int)),
        decreases s.len() - i,
    {
        let ghost rest = s@.skip(i as int);
        let mut a: usize = i;
        while a < s.len() && char_is_whitespace(s[a])
            invariant
                i <= a <= s.len(),
                forall|j: int| i <= j < a ==> is_whitespace(#[trigger] s@[j]),
            decreases s.len() - a,
        {
            a += 1;
        }
        proof {
            assert forall|j: int| 0 <= j < a - i implies is_whitespace(#[trigger] rest[j]) by {}
            lemma_trim_start_skips(rest, a - i);
            assert(rest.skip(a - i) =~= s@.skip(a as int));
            let t = s@.skip(a as int);
        }
        if a == s.len() {
            return parts;
        }
        let mut b: usize = a;
        while b < s.len() && !char_is_whitespace(s[b])
            invariant
                a <= b <= s.len(),
                forall|j: int| a <= j < b ==> !is_whitespace(#[trigger] s@[j]),
            decreases s.len() - b,
        {
            b += 1;
        }
        let piece = subvec(s, a, b);
        proof {
            let t = s@.skip(a as int);
            assert forall|j: int| 0 <= j < b - a implies !is_whitespace(#[trigger] t[j]) by {}
            lemma_word_len_at(t, b - a);
            assert(t.take(b - a) =~= piece@);
            assert(t.skip(b - a) =~= s@.skip(b as int));
        }
        parts.push(piece);
        i = b;
    }
}

// ---------------------------------------------------------------------------
// Decimal numbers
// ---------------------------------------------------------------------------

/// Every character of `s` is a decimal digit.
pub open spec fn all_digits(s: Seq<char>) -> bool {
    forall|i: int| 0 <= i < s.len() ==> is_digit(#[trigger] s[i])
}

/// The number that the digits of `s` write in base ten.
pub open spec fn digits_value(s: Seq<char>) -> nat
    decreases s.len(),
{
    if s.len() == 0 {
        0
    } else {
        (digits_value(s.drop_last()) * 10 + digit_value(s.last())) as nat
    }
}

/// The shortest decimal writing of `n`.
pub open spec fn decimal(n: nat) -> Seq<char>
    decreases n,
{
    if n < 10 {
        seq![digit_char(n as int)]
    } else {
        decimal(n / 10).push(digit_char((n % 10) as int))
    }
}

/// The decimal writing of an integer, with `-` before a negative one.
pub open spec fn int_text(v: int) -> Seq<char> {
    if v < 0 {
        seq!['-'] + decimal((-v) as nat)
    } else {
        decimal(v as nat)
    }
}

/// What an unsigned decimal literal stands for: an optional `+`, then one
/// digit or more.
pub open spec fn unsigned_literal(s: Seq<char>) -> Option<nat> {
    let d = if s.len() > 0 && s[0] == '+' {
        s.drop_first()
    } else {
        s
    };
    if d.len() > 0 && all_digits(d) {
        Some(digits_value(d))
    } else {
        None
    }
}

/// What a signed decimal literal stands for: an optional `+` or `-`, then
/// one digit or more.
pub open spec fn signed_literal(s: Seq<char>) -> Option<int> {
    if s.len() > 0 && s[0] == '-' {
        let d = s.drop_first();
        if d.len() > 0 && all_digits(d) {
            Some(-(digits_value(d) as int))
        } else {
            None
        }
    } else {
        match unsigned_literal(s) {
            Some(v) => Some(v as int),
            None => None,
        }
    }
}

/// The literal of an unsigned 32-bit number, where `s` is one.
pub open spec fn u32_literal(s: Seq<char>) -> Option<u32> {
    match unsigned_literal(s) {
        Some(v) => if v <= u32::MAX {
            Some(v as u32)
        } else {
            None
        },
        None => None,
    }
}

/// The literal of a signed 64-bit number, where `s` is one.
pub open spec fn i64_literal(s: Seq<char>) -> Option<i64> {
    match signed_literal(s) {
        Some(v) => if i64::MIN <= v <= i64::MAX {
            Some(v as i64)
        } else {
            None
        },
        None => None,
    }
}

/// The start of a number written in digits is worth no more than the number.
pub proof fn lemma_digits_value_prefix(s: Seq<char>, k: int)
    requires
        0 <= k <= s.len(),
        all_digits(s),
    ensures
        digits_value(s.take(k)) <= digits_value(s),
    decreases s.len() - k,
{
    if k < s.len() {
        lemma_digits_value_prefix(s.drop_last(), k);
        assert(s.drop_last().take(k) =~= s.take(k));
    } else {
        assert(s.take(k) =~= s);
    }
}

/// The decimal writing of a number is made of digits, and writes the number.
pub proof fn lemma_decimal(n: nat)
    ensures
        decimal(n).len() >= 1,
        all_digits(decimal(n)),
        digits_value(decimal(n)) == n,
    decreases n,
{
    if n < 10 {
        let s = decimal(n);
        assert(digits_value(s.drop_last()) == 0);
    } else {
        lemma_decimal(n / 10);
        let s = decimal(n);
        assert(s.drop_last() =~= decimal(n / 10));
    }
}

/// Reading the decimal writing of an integer gives the integer back.
pub proof fn lemma_int_text_roundtrip(v: int)
    ensures
        signed_literal(int_text(v)) == Some(v),
{
    if v < 0 {
        lemma_decimal((-v) as nat);
        assert(int_text(v).drop_first() =~= decimal((-v) as nat));
    } else {
        lemma_decimal(v as nat);
    }
}

/// Appends the decimal writing of `n` to `out`.
pub fn push_decimal(out: &mut Vec<char>, n: u64)
    ensures
        final(out)@ == old(out)@ + decimal(n as nat),
    decreases n,
{
    if n >= 10 {
        push_decimal(out, n / 10);
    }
    out.push(char_of_digit((n % 10) as u8));
}

/// The decimal writing of `n`.
pub fn decimal_chars(n: u64) -> (r: Vec<char>)
    ensures
        r@ == decimal(n as nat),
{
    let mut r: Vec<char> = Vec::new();
    push_decimal(&mut r, n);
    r
}

/// The decimal writing of `v`.
pub fn int_chars(v: i64) -> (r: Vec<char>)
    ensures
        r@ == int_text(v as int),
{
    let mut r: Vec<char> = Vec::new();
    if v < 0 {
        r.push('-');
        let m: u64 = ((-(v + 1)) as u64) + 1;
        push_decimal(&mut r, m);
    } else {
        push_decimal(&mut r, v as u64);
    }
    r
}

/// Reads the digits `s[from..]` as a number no greater than `limit`.
pub fn parse_digits(s: &Vec<char>, from: usize, limit: u64) -> (r: Option<u64>)
    requires
        from <= s.len(),
    ensures
        ({
            let d = s@.skip(from as int);
            r == if d.len() > 0 && all_digits(d) && digits_value(d) <= limit {
                Some(digits_value(d) as u64)
            } else {
                None
            }
        }),
{
    let ghost d = s@.skip(from as int);
    if from == s.len() {
        return None;
    }
    let mut acc: u64 = 0;
    let mut i: usize = from;
    while i < s.len()
        invariant
            from <= i <= s.len(),
            d == s@.skip(from as int),
            all_digits(d.take(i - from)),
            acc == digits_value(d.take(i - from)),
            acc <= limit,
        decreases s.len() - i,
    {
        let c = s[i];
        assert(d[i - from] == c);
        if !char_is_digit(c) {
            return None;
        }
        let ghost p = d.take(i - from + 1);
        proof {
            assert(p.drop_last() =~= d.take(i - from));
            assert forall|j: int| 0 <= j < p.len() implies is_digit(#[trigger] p[j]) by {}
        }
        let next: u128 = (acc as u128) * 10 + (digit_of(c) as u128);
        if next > limit as u128 {
            proof {
                if all_digits(d) {
                    lemma_digits_value_prefix(d, i - from + 1);
                }
            }
            return None;
        }
        acc = next as u64;
        i += 1;
    }
    assert(d.take(i - from) =~= d);
    Some(acc)
}

/// Reads an unsigned decimal literal that fits in 32 bits.
pub fn parse_u32(s: &Vec<char>) -> (r: Option<u32>)
    ensures
        r == u32_literal(s@),
{
    let from: usize = if s.len() > 0 && s[0] == '+' {
        1
    } else {
        0
    };
    proof {
        if from != 1 {
            assert(s@.skip(0) =~= s@);
        }
    }
    match parse_digits(s, from, 0xFFFF_FFFF) {
        Some(v) => Some(v as u32),
        None => None,
    }
}

/// Reads a signed decimal literal that fits in 64 bits.
pub fn parse_i64(s: &Vec<char>) -> (r: Option<i64>)
    ensures
        r == i64_literal(s@),
{
    if s.len() > 0 && s[0] == '-' {
        match parse_digits(s, 1, 0x8000_0000_0000_0000) {
            Some(v) => {
                if v == 0x8000_0000_0000_0000 {
                    Some(i64::MIN)
                } else {
                    Some(-(v as i64))
                }
            },
            None => None,
        }
    } else {
        let from: usize = if s.len() > 0 && s[0] == '+' {
            1
        } else {
            0
        };
        proof {
            if from != 1 {
                assert(s@.skip(0) =~= s@);
            }
        }
        match parse_digits(s, from, 0x7FFF_FFFF_FFFF_FFFF) {
            Some(v) => Some(v as i64),
            None => None,
        }
    }
}

// ---------------------------------------------------------------------------
// Lines and replacement
// ---------------------------------------------------------------------------

/// `l` without a carriage return at its end.
pub open spec fn strip_cr(l: Seq<char>) -> Seq<char> {
    if l.len() > 0 && l.last() == '\r' {
        l.drop_last()
    } else {
        l
    }
}

/// The lines of `s`. A line ends at a line feed, which is dropped together
/// with a carriage return before it; the last line needs no line feed, and
/// an empty text has no line.
pub open spec fn lines(s: Seq<char>) -> Seq<Seq<char>>
    decreases s.len(),
{
    if s.len() == 0 {
        Seq::empty()
    } else {
        let i = index_of(s, '\n');
        if 0 <= i < s.len() {
            seq![strip_cr(s.take(i))] + lines(s.skip(i + 1))
        } else {
            seq![s]
        }
    }
}

/// Splits `s[from..]` into its lines.
pub fn split_lines(s: &Vec<char>, from: usize) -> (r: Vec<Vec<char>>)
    requires
        from <= s.len(),
    ensures
        views(r@) == lines(s@.skip(from as int)),
{
    let mut parts: Vec<Vec<char>> = Vec::new();
    let mut start: usize = from;
    let ghost all = lines(s@.skip(from as int));
    loop
        invariant
            from <= start <= s.len(),
            all == lines(s@.skip(from as int)),
            all == views(parts@) + lines(s@.skip(start as int)),
        decreases s.len() - start,
    {
        let ghost rest = s@.skip(start as int);
        if start == s.len() {
            return parts;
        }
        match find_char(s, start, '\n') {
            Some(i) => {
                let end: usize = if i > start && s[i - 1] == '\r' {
                    i - 1
                } else {
                    i
                };
                let piece = subvec(s, start, end);
                proof {
                    let raw = rest.take(i - start);
                    assert(strip_cr(raw) =~= piece@);
                    assert(rest.skip(i - start + 1) =~= s@.skip(i + 1));
                }
                parts.push(piece);
                start = i + 1;
            },
            None => {
                let piece = subvec(s, start, s.len());
                parts.push(piece);
                return parts;
            },
        }
    }
}

/// `s` with each occurrence of `from` replaced by `to`, the occurrences
/// taken from the left and not overlapping. An empty `from` replaces
/// nothing.
pub open spec fn replace(s: Seq<char>, from: Seq<char>, to: Seq<char>) -> Seq<char>
    decreases s.len(),
{
    if from.len() == 0 || s.len() == 0 {
        s
    } else if starts_with(s, from) {
        to + replace(s.skip(from.len() as int), from, to)
    } else {
        seq![s[0]] + replace(s.drop_first(), from, to)
    }
}

/// Replaces each occurrence of `from` in `s` by `to`.
pub fn replace_all(s: &Vec<char>, from: &Vec<char>, to: &Vec<char>) -> (r: Vec<char>)
    ensures
        r@ == replace(s@, from@, to@),
{
    if from.len() == 0 {
        let r = subvec(s, 0, s.len());
        return r;
    }
    let mut out: Vec<char> = Vec::new();
    let mut i: usize = 0;
    assert(s@.skip(0) =~= s@);
    while i < s.len()
        invariant
            i <= s.len(),
            from.len() > 0,
            replace(s@, from@, to@) == out@ + replace(s@.skip(i as int), from@, to@),
        decreases s.len() - i,
    {
        let ghost rest = s@.skip(i as int);
        let ghost before = out@;
        let found = vec_matches_at(s, from, i);
        proof {
            if from.len() <= rest.len() {
                assert(rest.take(from.len() as int) =~= s@.subrange(i as int, i + from.len()));
            }
        }
        if found {
            let mut j: usize = 0;
            while j < to.len()
                invariant
                    j <= to.len(),
                    out@ == before + to@.take(j as int),
                decreases to.len() - j,
            {
                out.push(to[j]);
                j += 1;
            }
            proof {
                assert(rest.skip(from.len() as int) =~= s@.skip(i + from.len()));
            }
            i += from.len();
        } else {
            proof {
                assert(rest.drop_first() =~= s@.skip(i + 1));
            }
            out.push(s[i]);
            i += 1;
        }
    }
    out
}

// ---------------------------------------------------------------------------
// Joining
// ---------------------------------------------------------------------------

/// The texts of `parts`, with `sep` between each two.
pub open spec fn join(parts: Seq<Seq<char>>, sep: Seq<char>) -> Seq<char>
    decreases parts.len(),
{
    if parts.len() == 0 {
        Seq::empty()
    } else if parts.len() == 1 {
        parts[0]
    } else {
        join(parts.drop_last(), sep) + sep + parts.last()
    }
}

/// The views of a sequence of strings.
pub open spec fn string_views(vs: Seq<String>) -> Seq<Seq<char>> {
    Seq::new(vs.len(), |i: int| vs[i]@)
}

/// The views of a sequence of strings with one more string.
pub proof fn lemma_string_views_push(vs: Seq<String>, v: String)
    ensures
        string_views(vs.push(v)) == string_views(vs).push(v@),
{
}

/// Appends the strings of `parts` to `m`, with `sep` between each two.
pub fn push_joined(m: &mut String, parts: &Vec<String>, sep: &str)
    ensures
        final(m)@ == old(m)@ + join(string_views(parts@), sep@),
{
    let ghost all = string_views(parts@);
    let ghost start = m@;
    let mut i: usize = 0;
    while i < parts.len()
        invariant
            i <= parts.len(),
            all == string_views(parts@),
            m@ == start + join(all.take(i as int), sep@),
        decreases parts.len() - i,
    {
        let ghost after = all.take(i + 1);
        assert(after.drop_last() =~= all.take(i as int));
        if i > 0 {
            m.append(sep);
        }
        m.append(parts[i].as_str());
        i += 1;
    }
    assert(all.take(parts.len() as int) =~= all);
}

} // verus!
