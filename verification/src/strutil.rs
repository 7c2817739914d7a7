//! Verified string helpers.
//!
//! Target labels, directory paths and search queries are all plain
//! strings; the helpers here give the rest of the crate exact,
//! character-level contracts for the few operations it needs: substring
//! search, suffix extraction, trimming, line splitting and lexicographic
//! comparison.  Lowercasing is the one operation left to the standard
//! library, under a named, uninterpreted result.

use vstd::prelude::*;

verus! {

/// `n` occurs in `h` starting at position `i`.
pub open spec fn seq_contains_at(h: Seq<char>, n: Seq<char>, i: int) -> bool {
    0 <= i && i + n.len() <= h.len() && h.subrange(i, i + n.len() as int) == n
}

/// `n` occurs somewhere in `h`.
pub open spec fn seq_contains(h: Seq<char>, n: Seq<char>) -> bool {
    exists|i: int| seq_contains_at(h, n, i)
}

/// Whether `h[i..]` starts with `n`, comparing character by character.
fn matches_at(h: &str, n: &str, i: usize) -> (r: bool)
    requires
        i + n@.len() <= h@.len(),
    ensures
        r == seq_contains_at(h@, n@, i as int),
{
    let h_len = h.unicode_len();
    let n_len = n.unicode_len();
    let mut j: usize = 0;
    while j < n_len
        invariant
            0 <= j <= n@.len(),
            i + n@.len() <= h@.len(),
            h_len == h@.len(),
            n_len == n@.len(),
            forall|k: int| 0 <= k < j ==> h@[i + k] == n@[k],
        decreases n@.len() - j,
    {
        if h.get_char(i + j) != n.get_char(j) {
            assert(h@.subrange(i as int, i + n@.len() as int)[j as int] != n@[j as int]);
            return false;
        }
        j = j + 1;
    }
    assert(h@.subrange(i as int, i + n@.len() as int) =~= n@);
    true
}

/// Substring search: whether `n` occurs anywhere in `h`.
pub fn str_contains(h: &str, n: &str) -> (r: bool)
    ensures
        r == seq_contains(h@, n@),
{
    let h_len = h.unicode_len();
    let n_len = n.unicode_len();
    if n_len > h_len {
        assert(forall|i: int| !seq_contains_at(h@, n@, i));
        return false;
    }
    if n_len == 0 {
        proof {
            assert(h@.subrange(0, 0) =~= n@);
            assert(seq_contains_at(h@, n@, 0));
        }
        return true;
    }
    let mut i: usize = 0;
    while i <= h_len - n_len
        invariant
            0 <= i <= h@.len() - n@.len() + 1,
            h_len == h@.len(),
            n_len == n@.len(),
            1 <= n_len <= h_len,
            forall|k: int| 0 <= k < i ==> !seq_contains_at(h@, n@, k),
        decreases h@.len() - n@.len() - i + 1,
    {
        if matches_at(h, n, i) {
            return true;
        }
        i = i + 1;
    }
    assert(forall|k: int| k >= i ==> !seq_contains_at(h@, n@, k));
    false
}

/// What `str::to_lowercase` returns for a given sequence of characters.
/// The full Unicode mapping is not written out here; contracts that speak
/// of lowercased text go through this name.
pub uninterp spec fn lower_of(s: Seq<char>) -> Seq<char>;

/// Relies on str::to_lowercase: the result is a function of the
/// characters alone, and an empty string stays empty.
#[verifier::external_body]
pub(crate) fn to_lower(s: &str) -> (r: String)
    ensures
        r@ == lower_of(s@),
        s@.len() == 0 ==> r@.len() == 0,
{
    s.to_lowercase()
}

/// The position of the last occurrence of `sep` at or before `hi`, if any.
pub open spec fn last_match_before(s: Seq<char>, sep: Seq<char>, hi: int) -> Option<int>
    decreases hi + 1,
{
    if hi < 0 {
        None
    } else if seq_contains_at(s, sep, hi) {
        Some(hi)
    } else {
        last_match_before(s, sep, hi - 1)
    }
}

/// Everything after the last occurrence of `sep`, or all of `s` when `sep`
/// does not occur.
pub open spec fn tail_after_last(s: Seq<char>, sep: Seq<char>) -> Seq<char> {
    match last_match_before(s, sep, s.len() - sep.len()) {
        Some(i) => s.subrange(i + sep.len() as int, s.len() as int),
        None => s,
    }
}

/// The suffix of `s` that follows the last occurrence of `sep`.
pub fn str_tail_after_last(s: &str, sep: &str) -> (r: String)
    requires
        sep@.len() > 0,
    ensures
        r@ == tail_after_last(s@, sep@),
{
    let s_len = s.unicode_len();
    let sep_len = sep.unicode_len();
    if sep_len > s_len {
        return s.to_owned();
    }
    let mut hi: usize = s_len - sep_len;
    loop
        invariant
            0 <= hi <= s@.len() - sep@.len(),
            s_len == s@.len(),
            sep_len == sep@.len(),
            sep_len <= s_len,
            last_match_before(s@, sep@, s@.len() - sep@.len()) == last_match_before(
                s@,
                sep@,
                hi as int,
            ),
        decreases hi,
    {
        if matches_at(s, sep, hi) {
            let r = s.substring_char(hi + sep_len, s_len);
            return r.to_owned();
        }
        if hi == 0 {
            proof {
                assert(last_match_before(s@, sep@, -1) == None::<int>);
                assert(last_match_before(s@, sep@, 0) == None::<int>);
            }
            return s.to_owned();
        }
        hi = hi - 1;
    }
}

/// The characters `str::trim` strips: the Unicode white-space set.
pub open spec fn is_space_char(ch: char) -> bool {
    ||| ch == ' '
    ||| ch == '\t'
    ||| ch == '\n'
    ||| ch == '\r'
    ||| ch == '\u{000B}'
    ||| ch == '\u{000C}'
    ||| ch == '\u{0085}'
    ||| ch == '\u{00A0}'
    ||| ch == '\u{1680}'
    ||| ('\u{2000}' <= ch && ch <= '\u{200A}')
    ||| ch == '\u{2028}'
    ||| ch == '\u{2029}'
    ||| ch == '\u{202F}'
    ||| ch == '\u{205F}'
    ||| ch == '\u{3000}'
}

fn is_space(ch: char) -> (r: bool)
    ensures
        r == is_space_char(ch),
{
    ch == ' ' || ch == '\t' || ch == '\n' || ch == '\r' || ch == '\u{000B}' || ch == '\u{000C}'
        || ch == '\u{0085}' || ch == '\u{00A0}' || ch == '\u{1680}' || ('\u{2000}' <= ch && ch
        <= '\u{200A}') || ch == '\u{2028}' || ch == '\u{2029}' || ch == '\u{202F}' || ch
        == '\u{205F}' || ch == '\u{3000}'
}

/// `s` without leading white space.
pub open spec fn trim_start_spec(s: Seq<char>) -> Seq<char>
    decreases s.len(),
{
    if s.len() > 0 && is_space_char(s[0]) {
        trim_start_spec(s.subrange(1, s.len() as int))
    } else {
        s
    }
}

/// `s` without trailing white space.
pub open spec fn trim_end_spec(s: Seq<char>) -> Seq<char>
    decreases s.len(),
{
    if s.len() > 0 && is_space_char(s[s.len() - 1]) {
        trim_end_spec(s.subrange(0, s.len() - 1))
    } else {
        s
    }
}

/// `s` without leading and trailing white space.
pub open spec fn trim_spec(s: Seq<char>) -> Seq<char> {
    trim_end_spec(trim_start_spec(s))
}

proof fn lemma_trim_start_range(s: Seq<char>, a: int)
    requires
        0 <= a <= s.len(),
        forall|k: int| 0 <= k < a ==> is_space_char(s[k]),
        a < s.len() ==> !is_space_char(s[a]),
    ensures
        trim_start_spec(s) == s.subrange(a, s.len() as int),
    decreases a,
{
    if a == 0 {
        if s.len() > 0 {
            assert(!is_space_char(s[0]));
        }
        assert(s.subrange(0, s.len() as int) =~= s);
    } else {
        let rest = s.subrange(1, s.len() as int);
        assert(is_space_char(s[0]));
        assert(forall|k: int| 0 <= k < a - 1 ==> rest[k] == s[k + 1]);
        lemma_trim_start_range(rest, a - 1);
        assert(rest.subrange(a - 1, rest.len() as int) =~= s.subrange(a, s.len() as int));
    }
}

proof fn lemma_trim_end_range(s: Seq<char>, b: int)
    requires
        0 <= b <= s.len(),
        forall|k: int| b <= k < s.len() ==> is_space_char(s[k]),
        b > 0 ==> !is_space_char(s[b - 1]),
    ensures
        trim_end_spec(s) == s.subrange(0, b),
    decreases s.len() - b,
{
    if b == s.len() {
        if s.len() > 0 {
            assert(!is_space_char(s[s.len() - 1]));
        }
        assert(s.subrange(0, s.len() as int) =~= s);
    } else {
        let rest = s.subrange(0, s.len() - 1);
        assert(is_space_char(s[s.len() - 1]));
        lemma_trim_end_range(rest, b);
        assert(rest.subrange(0, b) =~= s.subrange(0, b));
    }
}

/// `s` with leading and trailing white space removed, exactly as
/// `trim_spec` describes.
pub fn str_trim(s: &str) -> (r: String)
    ensures
        r@ == trim_spec(s@),
{
    let len = s.unicode_len();
    let mut a: usize = 0;
    while a < len && is_space(s.get_char(a))
        invariant
            0 <= a <= s@.len(),
            len == s@.len(),
            forall|k: int| 0 <= k < a ==> is_space_char(s@[k]),
        decreases s@.len() - a,
    {
        a = a + 1;
    }
    proof {
        lemma_trim_start_range(s@, a as int);
    }
    let ghost started = s@.subrange(a as int, s@.len() as int);
    let mut b: usize = len;
    while b > a && is_space(s.get_char(b - 1))
        invariant
            a <= b <= s@.len(),
            len == s@.len(),
            forall|k: int| b <= k < s@.len() ==> is_space_char(s@[k]),
        decreases b,
    {
        b = b - 1;
    }
    proof {
        assert(forall|k: int| a <= k < started.len() + a ==> started[k - a] == s@[k]);
        if b > a {
            assert(!is_space_char(started[b - a - 1]));
        }
        lemma_trim_end_range(started, b - a);
        assert(started.subrange(0, b - a) =~= s@.subrange(a as int, b as int));
    }
    let r = s.substring_char(a, b);
    r.to_owned()
}

/// The pieces of `s` between occurrences of `c`: splitting the empty
/// sequence gives one empty piece, and every separator starts a new piece.
pub open spec fn split_char_spec(s: Seq<char>, c: char) -> Seq<Seq<char>>
    decreases s.len(),
{
    if s.len() == 0 {
        seq![Seq::<char>::empty()]
    } else if s[0] == c {
        seq![Seq::<char>::empty()] + split_char_spec(s.subrange(1, s.len() as int), c)
    } else {
        let rest = split_char_spec(s.subrange(1, s.len() as int), c);
        seq![seq![s[0]] + rest[0]] + rest.subrange(1, rest.len() as int)
    }
}

proof fn lemma_split_char_len(s: Seq<char>, c: char)
    ensures
        split_char_spec(s, c).len() >= 1,
    decreases s.len(),
{
    if s.len() > 0 {
        lemma_split_char_len(s.subrange(1, s.len() as int), c);
    }
}

/// `first` extended onto the first piece of `pieces`.
spec fn graft(first: Seq<char>, pieces: Seq<Seq<char>>) -> Seq<Seq<char>>
    recommends
        pieces.len() >= 1,
{
    seq![first + pieces[0]] + pieces.subrange(1, pieces.len() as int)
}

/// Split `s` at every occurrence of `c`, keeping empty pieces, as
/// `split_char_spec` describes.
pub fn str_split_char(s: &str, c: char) -> (r: Vec<String>)
    ensures
        r@.len() == split_char_spec(s@, c).len(),
        forall|i: int| 0 <= i < r@.len() ==> r@[i]@ == split_char_spec(s@, c)[i],
{
    let len = s.unicode_len();
    let mut pieces: Vec<String> = Vec::new();
    let mut cur = String::new();
    let mut i: usize = 0;
    proof {
        assert(s@.subrange(0, s@.len() as int) =~= s@);
        lemma_split_char_len(s@, c);
        assert(pieces@.map_values(|p: String| p@) + graft(cur@, split_char_spec(s@, c))
            =~~= split_char_spec(s@, c));
    }
    while i < len
        invariant
            0 <= i <= s@.len(),
            len == s@.len(),
            split_char_spec(s@, c) == pieces@.map_values(|p: String| p@) + graft(
                cur@,
                split_char_spec(s@.subrange(i as int, s@.len() as int), c),
            ),
        decreases s@.len() - i,
    {
        let ghost rem = s@.subrange(i as int, s@.len() as int);
        let ghost rem2 = s@.subrange(i + 1, s@.len() as int);
        proof {
            assert(rem.len() > 0);
            assert(rem[0] == s@[i as int]);
            assert(rem.subrange(1, rem.len() as int) =~= rem2);
            lemma_split_char_len(rem2, c);
        }
        let ch = s.get_char(i);
        if ch == c {
            let ghost pieces0 = pieces@;
            let ghost cur0 = cur@;
            pieces.push(cur);
            cur = String::new();
            proof {
                assert(split_char_spec(rem, c) == seq![Seq::<char>::empty()] + split_char_spec(
                    rem2,
                    c,
                ));
                assert(pieces@.map_values(|p: String| p@) + graft(
                    cur@,
                    split_char_spec(rem2, c),
                ) =~~= pieces0.map_values(|p: String| p@) + graft(cur0, split_char_spec(rem, c)));
            }
        } else {
            let ghost rest = split_char_spec(rem2, c);
            let ghost cur0 = cur@;
            cur.append(s.substring_char(i, i + 1));
            proof {
                assert(s@.subrange(i as int, i + 1) =~= seq![ch]);
                assert(cur@ =~= cur0.push(ch));
                assert(split_char_spec(rem, c) == seq![seq![rem[0]] + rest[0]] + rest.subrange(
                    1,
                    rest.len() as int,
                ));
                assert(pieces@.map_values(|p: String| p@) + graft(cur@, rest)
                    =~~= pieces@.map_values(|p: String| p@) + graft(cur0, split_char_spec(rem, c)));
            }
        }
        i = i + 1;
    }
    let ghost pieces0 = pieces@;
    let ghost cur0 = cur@;
    proof {
        let rem = s@.subrange(i as int, s@.len() as int);
        assert(rem =~= Seq::<char>::empty());
        assert(split_char_spec(rem, c) == seq![Seq::<char>::empty()]);
        assert(graft(cur0, split_char_spec(rem, c)) =~~= seq![cur0]);
        assert(split_char_spec(s@, c) =~~= pieces0.map_values(|p: String| p@) + seq![cur0]);
    }
    pieces.push(cur);
    proof {
        assert(pieces@.map_values(|p: String| p@) =~~= pieces0.map_values(|p: String| p@) + seq![
            cur0
        ]);
    }
    pieces
}

/// The piece of `s` before the first occurrence of `c`: all of `s` when
/// `c` does not occur.
pub open spec fn head_before_first(s: Seq<char>, c: char) -> Seq<char>
    decreases s.len(),
{
    if s.len() == 0 {
        s
    } else if s[0] == c {
        Seq::<char>::empty()
    } else {
        seq![s[0]] + head_before_first(s.subrange(1, s.len() as int), c)
    }
}

proof fn lemma_head_before_first_range(s: Seq<char>, c: char, i: int)
    requires
        0 <= i <= s.len(),
        forall|k: int| 0 <= k < i ==> s[k] != c,
        i < s.len() ==> s[i] == c,
    ensures
        head_before_first(s, c) == s.subrange(0, i),
    decreases i,
{
    if s.len() == 0 {
        assert(s.subrange(0, 0) =~= s);
    } else if i == 0 {
        if s[0] == c {
            assert(s.subrange(0, 0) =~= Seq::<char>::empty());
        } else {
            assert(i < s.len() ==> s[i] == c);
            assert(s.subrange(0, 0) =~= Seq::<char>::empty());
        }
    } else {
        let rest = s.subrange(1, s.len() as int);
        lemma_head_before_first_range(rest, c, i - 1);
        assert(rest.subrange(0, i - 1) =~= s.subrange(1, i));
        assert(seq![s[0]] + s.subrange(1, i) =~= s.subrange(0, i));
    }
}

/// The prefix of `s` up to, and not including, the first occurrence of
/// `c`, as `head_before_first` describes.
pub fn str_head_before_first(s: &str, c: char) -> (r: String)
    ensures
        r@ == head_before_first(s@, c),
{
    let len = s.unicode_len();
    let mut i: usize = 0;
    while i < len && s.get_char(i) != c
        invariant
            0 <= i <= s@.len(),
            len == s@.len(),
            forall|k: int| 0 <= k < i ==> s@[k] != c,
        decreases s@.len() - i,
    {
        i = i + 1;
    }
    proof {
        lemma_head_before_first_range(s@, c, i as int);
    }
    let r = s.substring_char(0, i);
    r.to_owned()
}

/// `prefix` is an initial run of whole path components of `path`, with
/// `/` separating components.
pub open spec fn path_prefix_of(prefix: Seq<char>, path: Seq<char>) -> bool {
    &&& prefix.len() <= path.len()
    &&& path.subrange(0, prefix.len() as int) == prefix
    &&& (prefix.len() == path.len() || path[prefix.len() as int] == '/' || (prefix.len() > 0
        && prefix[prefix.len() - 1] == '/'))
}

/// Whether `path` starts with `prefix` on a component boundary.
pub fn str_path_prefix_of(prefix: &str, path: &str) -> (r: bool)
    ensures
        r == path_prefix_of(prefix@, path@),
{
    let prefix_len = prefix.unicode_len();
    let path_len = path.unicode_len();
    if prefix_len > path_len {
        return false;
    }
    if !matches_at(path, prefix, 0) {
        return false;
    }
    if prefix_len == path_len {
        return true;
    }
    if path.get_char(prefix_len) == '/' {
        return true;
    }
    if prefix_len > 0 && prefix.get_char(prefix_len - 1) == '/' {
        return true;
    }
    false
}

/// Lexicographic order on character sequences, by code point.
pub open spec fn lex_le(a: Seq<char>, b: Seq<char>) -> bool
    decreases a.len(),
{
    if a.len() == 0 {
        true
    } else if b.len() == 0 {
        false
    } else if (a[0] as u32) == (b[0] as u32) {
        lex_le(a.subrange(1, a.len() as int), b.subrange(1, b.len() as int))
    } else {
        (a[0] as u32) < (b[0] as u32)
    }
}

/// The lexicographic order is reflexive.
pub proof fn lemma_lex_refl(a: Seq<char>)
    ensures
        lex_le(a, a),
    decreases a.len(),
{
    if a.len() > 0 {
        lemma_lex_refl(a.subrange(1, a.len() as int));
    }
}

/// The lexicographic order is total.
pub proof fn lemma_lex_total(a: Seq<char>, b: Seq<char>)
    ensures
        lex_le(a, b) || lex_le(b, a),
    decreases a.len(),
{
    if a.len() > 0 && b.len() > 0 && (a[0] as u32) == (b[0] as u32) {
        lemma_lex_total(a.subrange(1, a.len() as int), b.subrange(1, b.len() as int));
    }
}

/// The lexicographic order is transitive.
pub proof fn lemma_lex_trans(a: Seq<char>, b: Seq<char>, c: Seq<char>)
    requires
        lex_le(a, b),
        lex_le(b, c),
    ensures
        lex_le(a, c),
    decreases a.len(),
{
    if a.len() > 0 {
        if b.len() > 0 && c.len() > 0 && (a[0] as u32) == (b[0] as u32) && (b[0] as u32) == (
        c[0] as u32) {
            lemma_lex_trans(
                a.subrange(1, a.len() as int),
                b.subrange(1, b.len() as int),
                c.subrange(1, c.len() as int),
            );
        }
    }
}

/// Compare two strings in the lexicographic order of their characters.
pub fn str_le(a: &str, b: &str) -> (r: bool)
    ensures
        r == lex_le(a@, b@),
{
    let a_len = a.unicode_len();
    let b_len = b.unicode_len();
    let mut i: usize = 0;
    proof {
        assert(a@.subrange(0, a@.len() as int) =~= a@);
        assert(b@.subrange(0, b@.len() as int) =~= b@);
    }
    loop
        invariant
            0 <= i <= a@.len(),
            i <= b@.len(),
            a_len == a@.len(),
            b_len == b@.len(),
            lex_le(a@, b@) == lex_le(
                a@.subrange(i as int, a@.len() as int),
                b@.subrange(i as int, b@.len() as int),
            ),
        decreases a@.len() - i,
    {
        let ghost ar = a@.subrange(i as int, a@.len() as int);
        let ghost br = b@.subrange(i as int, b@.len() as int);
        if i >= a_len {
            proof {
                assert(ar =~= Seq::<char>::empty());
            }
            return true;
        }
        if i >= b_len {
            proof {
                assert(br =~= Seq::<char>::empty());
            }
            return false;
        }
        let ca = a.get_char(i);
        let cb = b.get_char(i);
        if (ca as u32) != (cb as u32) {
            proof {
                assert(ar[0] == ca && br[0] == cb);
            }
            return (ca as u32) < (cb as u32);
        }
        proof {
            assert(ar[0] == ca && br[0] == cb);
            assert(ar.subrange(1, ar.len() as int) =~= a@.subrange(i + 1, a@.len() as int));
            assert(br.subrange(1, br.len() as int) =~= b@.subrange(i + 1, b@.len() as int));
        }
        i = i + 1;
    }
}

} // verus!
