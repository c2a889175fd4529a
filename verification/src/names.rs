//! Names of databases and tables.

use vstd::prelude::*;
use crate::text::{
    char_is_ascii_alphanumeric, char_to_lower, chars_of, is_ascii_alphanumeric, string_of, subvec,
    to_lower, trim, trim_vec, vec_eq,
};

verus! {

/// What a character of a name becomes: an ASCII letter its lower case, a
/// digit and `_` themselves, any other character `_`.
pub open spec fn sanitize_char(c: char) -> char {
    let l = to_lower(c);
    if is_ascii_alphanumeric(l) || l == '_' {
        l
    } else {
        '_'
    }
}

/// `s` with each run of `_` shortened to one.
pub open spec fn squeeze(s: Seq<char>) -> Seq<char>
    decreases s.len(),
{
    if s.len() == 0 {
        Seq::empty()
    } else {
        let rest = squeeze(s.drop_last());
        if s.last() == '_' && rest.len() > 0 && rest.last() == '_' {
            rest
        } else {
            rest.push(s.last())
        }
    }
}

/// `s` without the `_` at its start.
pub open spec fn strip_start(s: Seq<char>) -> Seq<char>
    decreases s.len(),
{
    if s.len() > 0 && s[0] == '_' {
        strip_start(s.drop_first())
    } else {
        s
    }
}

/// `s` without the `_` at its end.
pub open spec fn strip_end(s: Seq<char>) -> Seq<char>
    decreases s.len(),
{
    if s.len() > 0 && s.last() == '_' {
        strip_end(s.drop_last())
    } else {
        s
    }
}

/// The name in the form that a channel may bear: trimmed, in lower case,
/// every character that is no ASCII letter, digit or `_` replaced by `_`,
/// runs of `_` shortened to one, and no `_` at either end.
pub open spec fn sanitized(s: Seq<char>) -> Seq<char> {
    let t = trim(s);
    strip_end(strip_start(squeeze(Seq::new(t.len(), |i: int| sanitize_char(t[i])))))
}

proof fn lemma_strip_start_skips(s: Seq<char>, k: int)
    requires
        0 <= k <= s.len(),
        forall|i: int| 0 <= i < k ==> s[i] == '_',
    ensures
        strip_start(s) == strip_start(s.skip(k)),
    decreases k,
{
    if k > 0 {
        lemma_strip_start_skips(s.drop_first(), k - 1);
        assert(s.drop_first().skip(k - 1) =~= s.skip(k));
    } else {
        assert(s.skip(0) =~= s);
    }
}

proof fn lemma_strip_end_skips(s: Seq<char>, k: int)
    requires
        0 <= k <= s.len(),
        forall|i: int| k <= i < s.len() ==> s[i] == '_',
    ensures
        strip_end(s) == strip_end(s.take(k)),
    decreases s.len() - k,
{
    if k < s.len() {
        lemma_strip_end_skips(s.drop_last(), k);
        assert(s.drop_last().take(k) =~= s.take(k));
    } else {
        assert(s.take(k) =~= s);
    }
}

/// Puts a name into the form that a channel may bear, and says whether
/// that changed the trimmed name.
pub fn sanitize_channel_name(s: &str) -> (r: (String, bool))
    ensures
        r.0@ == sanitized(s@),
        r.1 == (trim(s@) != sanitized(s@)),
{
    let trimmed = trim_vec(&chars_of(s));
    let ghost mapped = Seq::new(trimmed@.len(), |i: int| sanitize_char(trimmed@[i]));
    let mut squeezed: Vec<char> = Vec::new();
    let mut i: usize = 0;
    while i < trimmed.len()
        invariant
            i <= trimmed.len(),
            mapped == Seq::new(trimmed@.len(), |i: int| sanitize_char(trimmed@[i])),
            squeezed@ == squeeze(mapped.take(i as int)),
        decreases trimmed.len() - i,
    {
        let l = char_to_lower(trimmed[i]);
        let c = if char_is_ascii_alphanumeric(l) || l == '_' {
            l
        } else {
            '_'
        };
        let ghost done = mapped.take(i + 1);
        assert(done.drop_last() =~= mapped.take(i as int));
        if !(c == '_' && squeezed.len() > 0 && squeezed[squeezed.len() - 1] == '_') {
            squeezed.push(c);
        }
        i += 1;
    }
    assert(mapped.take(trimmed.len() as int) =~= mapped);
    let mut a: usize = 0;
    while a < squeezed.len() && squeezed[a] == '_'
        invariant
            a <= squeezed.len(),
            forall|j: int| 0 <= j < a ==> squeezed@[j] == '_',
        decreases squeezed.len() - a,
    {
        a += 1;
    }
    let mut b: usize = squeezed.len();
    while b > a && squeezed[b - 1] == '_'
        invariant
            a <= b <= squeezed.len(),
            forall|j: int| b <= j < squeezed.len() ==> squeezed@[j] == '_',
        decreases b,
    {
        b -= 1;
    }
    let name = subvec(&squeezed, a, b);
    proof {
        lemma_strip_start_skips(squeezed@, a as int);
        let t = squeezed@.skip(a as int);
        assert(strip_start(t) == t);
        assert forall|j: int| b - a <= j < t.len() implies t[j] == '_' by {}
        lemma_strip_end_skips(t, b - a);
        let u = t.take(b - a);
        assert(u =~= name@);
        assert(strip_end(u) == u);
    }
    let changed = !vec_eq(&trimmed, &name);
    (string_of(&name), changed)
}

} // verus!
