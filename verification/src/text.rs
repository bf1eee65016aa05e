//! Small text operations whose results are stated over sequences of
//! characters.

use vstd::prelude::*;

verus! {

/// Whether two string slices hold the same characters.
pub fn text_eq(a: &str, b: &str) -> (r: bool)
    ensures
        r == (a@ == b@),
{
    a.to_owned() == b.to_owned()
}

/// The concatenation of two string slices.
pub fn join(a: &str, b: &str) -> (r: String)
    ensures
        r@ == a@ + b@,
{
    a.to_owned().concat(b)
}

/// Whether `text` ends with `suffix`.
pub fn ends_with(text: &str, suffix: &str) -> (r: bool)
    ensures
        r == suffix@.is_suffix_of(text@),
{
    let n = text.unicode_len();
    let m = suffix.unicode_len();
    if m > n {
        false
    } else {
        text_eq(text.substring_char(n - m, n), suffix)
    }
}

/// Whether `pattern` occurs somewhere in `text`.
pub open spec fn occurs_in(pattern: Seq<char>, text: Seq<char>) -> bool {
    exists|at: int|
        0 <= at <= text.len() - pattern.len() && #[trigger] text.subrange(
            at,
            at + pattern.len(),
        ) == pattern
}

/// Whether `text` holds `pattern` somewhere.
pub fn contains(text: &str, pattern: &str) -> (r: bool)
    ensures
        r == occurs_in(pattern@, text@),
{
    let n = text.unicode_len();
    let m = pattern.unicode_len();
    if m > n {
        return false;
    }
    let last = n - m;
    let mut at: usize = 0;
    while at < last
        invariant
            n == text@.len(),
            m == pattern@.len(),
            last == n - m,
            at <= last,
            forall|earlier: int|
                0 <= earlier < at ==> #[trigger] text@.subrange(earlier, earlier + m) != pattern@,
        decreases last - at,
    {
        if text_eq(text.substring_char(at, at + m), pattern) {
            return true;
        }
        at += 1;
    }
    let found = text_eq(text.substring_char(last, n), pattern);
    proof {
        if found {
            assert(text@.subrange(last as int, last + m) == pattern@);
        } else {
            assert forall|at: int| 0 <= at <= n - m implies #[trigger] text@.subrange(at, at + m)
                != pattern@ by {}
        }
    }
    found
}

/// `text` with every occurrence of the non-empty `pattern` replaced by
/// `with`, scanning from the left and never looking back into a
/// replacement. An empty pattern leaves the text unchanged.
pub open spec fn substitute(text: Seq<char>, pattern: Seq<char>, with: Seq<char>) -> Seq<char>
    decreases text.len(),
{
    if pattern.len() == 0 || text.len() < pattern.len() {
        text
    } else if pattern.is_prefix_of(text) {
        with + substitute(text.skip(pattern.len() as int), pattern, with)
    } else {
        seq![text[0]] + substitute(text.skip(1), pattern, with)
    }
}

/// Replaces every occurrence of `pattern` in `text` by `with`.
pub fn replace_all(text: &str, pattern: &str, with: &str) -> (r: String)
    ensures
        r@ == substitute(text@, pattern@, with@),
{
    let n = text.unicode_len();
    let m = pattern.unicode_len();
    if m == 0 || n < m {
        return text.to_owned();
    }
    let mut out = String::new();
    let mut i: usize = 0;
    assert(text@.skip(0) == text@);
    while i <= n - m
        invariant
            n == text@.len(),
            m == pattern@.len(),
            0 < m <= n,
            i <= n,
            substitute(text@, pattern@, with@) == out@ + substitute(
                text@.skip(i as int),
                pattern@,
                with@,
            ),
        decreases n - i,
    {
        let ghost rest = text@.skip(i as int);
        if text_eq(text.substring_char(i, i + m), pattern) {
            assert(pattern@.is_prefix_of(rest)) by {
                assert(rest.subrange(0, m as int) == text@.subrange(i as int, i + m));
            }
            assert(rest.skip(m as int) == text@.skip(i + m));
            out.append(with);
            i += m;
        } else {
            assert(!pattern@.is_prefix_of(rest)) by {
                assert(rest.subrange(0, m as int) == text@.subrange(i as int, i + m));
            }
            assert(rest.skip(1) == text@.skip(i + 1));
            assert(seq![rest[0]] == text@.subrange(i as int, i + 1));
            out.append(text.substring_char(i, i + 1));
            i += 1;
        }
    }
    assert(text@.skip(i as int) == text@.subrange(i as int, n as int));
    out.append(text.substring_char(i, n));
    out
}

/// Whether `a` stands before `b` in lexical order: at the first place
/// where they differ `a` has the smaller character, or `a` ends there
/// and `b` goes on.
pub open spec fn lex_less(a: Seq<char>, b: Seq<char>) -> bool
    decreases a.len(),
{
    if b.len() == 0 {
        false
    } else if a.len() == 0 {
        true
    } else if a[0] != b[0] {
        (a[0] as int) < (b[0] as int)
    } else {
        lex_less(a.skip(1), b.skip(1))
    }
}

/// No text stands before itself.
pub proof fn lemma_lex_irreflexive(a: Seq<char>)
    ensures
        !lex_less(a, a),
    decreases a.len(),
{
    if a.len() > 0 {
        lemma_lex_irreflexive(a.skip(1));
    }
}

/// What stands before a text stands before all that the text stands
/// before.
pub proof fn lemma_lex_transitive(a: Seq<char>, b: Seq<char>, c: Seq<char>)
    requires
        lex_less(a, b),
        lex_less(b, c),
    ensures
        lex_less(a, c),
    decreases a.len(),
{
    if a.len() > 0 && b.len() > 0 && c.len() > 0 && a[0] == b[0] && b[0] == c[0] {
        lemma_lex_transitive(a.skip(1), b.skip(1), c.skip(1));
    }
}

/// Of two different texts one stands before the other.
pub proof fn lemma_lex_total(a: Seq<char>, b: Seq<char>)
    requires
        a != b,
    ensures
        lex_less(a, b) || lex_less(b, a),
    decreases a.len(),
{
    if a.len() > 0 && b.len() > 0 && a[0] == b[0] {
        assert(a.skip(1) != b.skip(1)) by {
            if a.skip(1) == b.skip(1) {
                assert(a =~= seq![a[0]] + a.skip(1));
                assert(b =~= seq![b[0]] + b.skip(1));
            }
        }
        lemma_lex_total(a.skip(1), b.skip(1));
    } else if a.len() == 0 && b.len() == 0 {
        assert(a =~= b);
    } else if a.len() > 0 && b.len() > 0 {
        assert((a[0] as int) != (b[0] as int));
    }
}

/// Whether `a` stands before `b` in lexical order.
pub fn less(a: &str, b: &str) -> (r: bool)
    ensures
        r == lex_less(a@, b@),
{
    let n = a.unicode_len();
    let m = b.unicode_len();
    let mut i: usize = 0;
    assert(a@.skip(0) == a@ && b@.skip(0) == b@);
    while i < n && i < m
        invariant
            n == a@.len(),
            m == b@.len(),
            i <= n,
            i <= m,
            lex_less(a@, b@) == lex_less(a@.skip(i as int), b@.skip(i as int)),
        decreases n - i,
    {
        let x = a.get_char(i);
        let y = b.get_char(i);
        assert(a@.skip(i as int)[0] == x && b@.skip(i as int)[0] == y);
        if x != y {
            return (x as u32) < (y as u32);
        }
        assert(a@.skip(i as int).skip(1) == a@.skip(i + 1));
        assert(b@.skip(i as int).skip(1) == b@.skip(i + 1));
        i += 1;
    }
    i < m
}

/// The lower-case form of a text, as the standard library computes it.
pub uninterp spec fn lowercase(text: Seq<char>) -> Seq<char>;

/// Calls `str::to_lowercase`. The contract only gives the result its name:
/// the lower-case form depends on the text alone.
#[verifier::external_body]
pub(crate) fn to_lowercase(text: &str) -> (r: String)
    ensures
        r@ == lowercase(text@),
{
    text.to_lowercase()
}

/// The texts of a list of strings.
pub open spec fn texts(strings: Seq<String>) -> Seq<Seq<char>> {
    Seq::new(strings.len(), |i: int| strings[i]@)
}

/// The texts of a list of optional strings.
pub open spec fn optional_texts(strings: Seq<Option<String>>) -> Seq<Option<Seq<char>>> {
    Seq::new(
        strings.len(),
        |i: int|
            match strings[i] {
                Some(text) => Some(text@),
                None => None,
            },
    )
}

/// What the first group of a regular expression captures at each of its
/// matches in a text, one after the other and without overlap: the
/// captured text, or nothing where the group took no part in the match.
/// Where the pattern is none, it is the message of the error.
pub uninterp spec fn all_captures(pattern: Seq<char>, text: Seq<char>) -> Result<
    Seq<Option<Seq<char>>>,
    Seq<char>,
>;

/// Calls `regex::Regex::new` and `Regex::captures_iter`, and
/// `Captures::get` for the first group of each match. The contract only
/// gives the result its name.
#[verifier::external_body]
pub(crate) fn capture_all(pattern: &str, text: &str) -> (r: Result<Vec<Option<String>>, String>)
    ensures
        match r {
            Ok(found) => all_captures(pattern@, text@) == Ok::<
                Seq<Option<Seq<char>>>,
                Seq<char>,
            >(optional_texts(found@)),
            Err(message) => all_captures(pattern@, text@) == Err::<
                Seq<Option<Seq<char>>>,
                Seq<char>,
            >(message@),
        },
{
    match regex::Regex::new(pattern) {
        Ok(regex) => Ok(
            regex.captures_iter(text).map(
                |captures| captures.get(1).map(|group| group.as_str().to_owned()),
            ).collect(),
        ),
        Err(error) => Err(error.to_string()),
    }
}

/// Those of the first `count` optional texts that are there, in order.
pub open spec fn present(found: Seq<Option<Seq<char>>>, count: nat) -> Seq<Seq<char>>
    decreases count,
{
    if 0 < count <= found.len() {
        match found[count - 1] {
            Some(text) => present(found, (count - 1) as nat).push(text),
            None => present(found, (count - 1) as nat),
        }
    } else {
        Seq::empty()
    }
}

/// Adds those of the optional texts that are there to a list, in order.
pub fn append_present(list: &mut Vec<String>, found: &Vec<Option<String>>)
    ensures
        texts(final(list)@) == texts(old(list)@) + present(optional_texts(found@), found@.len()),
{
    let mut i: usize = 0;
    assert(texts(list@) =~= texts(old(list)@) + present(optional_texts(found@), 0));
    while i < found.len()
        invariant
            i <= found@.len(),
            texts(list@) == texts(old(list)@) + present(optional_texts(found@), i as nat),
        decreases found@.len() - i,
    {
        let ghost before = texts(list@);
        match &found[i] {
            Some(text) => {
                list.push(text.clone());
                assert(texts(list@) =~= before.push(text@));
            },
            None => {},
        }
        i += 1;
        assert(texts(list@) =~= texts(old(list)@) + present(optional_texts(found@), i as nat));
    }
}

} // verus!
