//! String predicates over character sequences.
//!
//! A string is modelled by its view, a `Seq<char>`. The comparisons the
//! matching rules are built from are stated here over such sequences and
//! computed on `&str`.

use vstd::prelude::*;
use vstd::std_specs::iter::IteratorSpec;
use vstd::string::StrSliceExecFns;
use vstd::string::StringSliceAdditionalSpecFns;

verus! {

/// The characters of an optional text.
pub open spec fn text_of(text: Option<String>) -> Option<Seq<char>> {
    match text {
        Some(s) => Some(s@),
        None => None,
    }
}

/// The characters of an optional string slice.
pub open spec fn slice_of(text: Option<&str>) -> Option<Seq<char>> {
    match text {
        Some(s) => Some(s@),
        None => None,
    }
}

/// The characters of each text of a list.
pub open spec fn texts_of(texts: Seq<String>) -> Seq<Seq<char>> {
    Seq::new(texts.len(), |i: int| texts[i]@)
}

/// `prefix` is an initial segment of `s`.
pub open spec fn starts_with(s: Seq<char>, prefix: Seq<char>) -> bool {
    prefix.len() <= s.len() && s.subrange(0, prefix.len() as int) == prefix
}

/// `suffix` is a final segment of `s`.
pub open spec fn ends_with(s: Seq<char>, suffix: Seq<char>) -> bool {
    suffix.len() <= s.len() && s.subrange(s.len() - suffix.len(), s.len() as int) == suffix
}

/// `s` without its last `n` characters.
pub open spec fn without_last(s: Seq<char>, n: nat) -> Seq<char>
    recommends
        n <= s.len(),
{
    s.subrange(0, s.len() - n)
}

/// The lower-case form of an ASCII capital letter; every other character is
/// left as it is.
pub open spec fn ascii_lower(c: char) -> char {
    if 'A' <= c && c <= 'Z' {
        ((c as u32) + 32) as char
    } else {
        c
    }
}

/// Two sequences agree character by character once ASCII capitals are folded
/// to lower case.
pub open spec fn eq_ignoring_ascii_case(a: Seq<char>, b: Seq<char>) -> bool {
    a.len() == b.len() && forall|i: int|
        0 <= i < a.len() ==> ascii_lower(#[trigger] a[i]) == ascii_lower(b[i])
}

/// Whether `c` is white space: the value of `char::is_whitespace`, which goes
/// by the Unicode property `White_Space`.
pub uninterp spec fn white_space(c: char) -> bool;

/// `s` without the white space at its beginning.
pub open spec fn trim_start(s: Seq<char>) -> Seq<char>
    decreases s.len(),
{
    if s.len() > 0 && white_space(s[0]) {
        trim_start(s.drop_first())
    } else {
        s
    }
}

/// `s` without the white space at its end.
pub open spec fn trim_end(s: Seq<char>) -> Seq<char>
    decreases s.len(),
{
    if s.len() > 0 && white_space(s.last()) {
        trim_end(s.drop_last())
    } else {
        s
    }
}

/// `s` without the white space at its beginning and at its end.
pub open spec fn trimmed(s: Seq<char>) -> Seq<char> {
    trim_end(trim_start(s))
}

/// The words of `s`: its longest runs of characters that are not white space,
/// from left to right.
pub open spec fn words(s: Seq<char>) -> Seq<Seq<char>>
    decreases s.len(),
{
    if s.len() == 0 {
        Seq::empty()
    } else {
        let before = words(s.drop_last());
        if white_space(s.last()) {
            before
        } else if s.len() >= 2 && !white_space(s[s.len() - 2]) {
            before.drop_last().push(before.last().push(s.last()))
        } else {
            before.push(seq![s.last()])
        }
    }
}

/// The lower-case form of `s`: the value of `str::to_lowercase`, which goes
/// by the Unicode property `Lowercase` and may change the number of
/// characters.
pub uninterp spec fn lowercase(s: Seq<char>) -> Seq<char>;

/// A copy of an optional text.
pub fn copy_text(text: &Option<String>) -> (r: Option<String>)
    ensures
        text_of(r) == text_of(*text),
{
    match text {
        Some(s) => Some(s.clone()),
        None => None,
    }
}

/// A copy of a list of texts.
pub fn copy_texts(texts: &Vec<String>) -> (r: Vec<String>)
    ensures
        texts_of(r@) == texts_of(texts@),
{
    let mut out: Vec<String> = Vec::new();
    let mut i: usize = 0;
    while i < texts.len()
        invariant
            i <= texts@.len(),
            out@.len() == i,
            forall|k: int| 0 <= k < i ==> (#[trigger] out@[k])@ == texts@[k]@,
        decreases texts@.len() - i,
    {
        out.push(texts[i].clone());
        i += 1;
    }
    assert(texts_of(out@) =~= texts_of(texts@));
    out
}

/// An optional text, borrowed.
pub fn borrow_text(text: &Option<String>) -> (r: Option<&str>)
    ensures
        slice_of(r) == text_of(*text),
{
    match text {
        Some(s) => Some(s.as_str()),
        None => None,
    }
}

/// Whether two strings hold the same characters.
pub fn same_text(a: &str, b: &str) -> (r: bool)
    ensures
        r == (a@ == b@),
{
    let x = a.as_bytes();
    let y = b.as_bytes();
    proof {
        vstd::utf8::encode_utf8_decode_utf8(a@);
        vstd::utf8::encode_utf8_decode_utf8(b@);
    }
    if x.len() != y.len() {
        return false;
    }
    let mut i: usize = 0;
    while i < x.len()
        invariant
            x@ == a.spec_bytes(),
            y@ == b.spec_bytes(),
            x.len() == y.len(),
            i <= x.len(),
            forall|k: int| 0 <= k < i ==> x@[k] == y@[k],
        decreases x.len() - i,
    {
        if x[i] != y[i] {
            return false;
        }
        i += 1;
    }
    assert(x@ =~= y@);
    true
}

/// Whether `s` begins with `prefix`.
pub fn has_prefix(s: &str, prefix: &str) -> (r: bool)
    ensures
        r == starts_with(s@, prefix@),
{
    let n = prefix.unicode_len();
    if n > s.unicode_len() {
        return false;
    }
    same_text(s.substring_char(0, n), prefix)
}

/// Whether `s` ends with `suffix`.
pub fn has_suffix(s: &str, suffix: &str) -> (r: bool)
    ensures
        r == ends_with(s@, suffix@),
{
    let n = suffix.unicode_len();
    let m = s.unicode_len();
    if n > m {
        return false;
    }
    same_text(s.substring_char(m - n, m), suffix)
}

/// `s` without its last `n` characters.
pub fn drop_last_chars(s: &str, n: usize) -> (r: &str)
    requires
        n <= s@.len(),
    ensures
        r@ == without_last(s@, n as nat),
{
    let m = s.unicode_len();
    s.substring_char(0, m - n)
}

/// Whether two characters are the same once ASCII capitals are folded to
/// lower case.
pub fn same_char_ignoring_ascii_case(c: char, d: char) -> (r: bool)
    ensures
        r == (ascii_lower(c) == ascii_lower(d)),
{
    let x = c as u32;
    let y = d as u32;
    let lx: u32 = if 65 <= x && x <= 90 { x + 32 } else { x };
    let ly: u32 = if 65 <= y && y <= 90 { y + 32 } else { y };
    assert(ascii_lower(c) as u32 == lx);
    assert(ascii_lower(d) as u32 == ly);
    lx == ly
}

/// Whether two strings are the same once ASCII capitals are folded to lower
/// case.
pub fn eq_ignore_ascii_case(a: &str, b: &str) -> (r: bool)
    ensures
        r == eq_ignoring_ascii_case(a@, b@),
{
    let n = a.unicode_len();
    if n != b.unicode_len() {
        return false;
    }
    let mut x = a.chars();
    let mut y = b.chars();
    let mut i: usize = 0;
    loop
        invariant
            n == a@.len(),
            n == b@.len(),
            i <= n,
            x.remaining() == a@.skip(i as int),
            y.remaining() == b@.skip(i as int),
            x.obeys_prophetic_iter_laws(),
            y.obeys_prophetic_iter_laws(),
            x.decrease() is Some,
            forall|k: int| 0 <= k < i ==> ascii_lower(#[trigger] a@[k]) == ascii_lower(b@[k]),
        ensures
            i == n,
            forall|k: int| 0 <= k < n ==> ascii_lower(#[trigger] a@[k]) == ascii_lower(b@[k]),
        decreases x.decrease()->0,
    {
        match x.next() {
            Some(c) => {
                match y.next() {
                    Some(d) => {
                        if !same_char_ignoring_ascii_case(c, d) {
                            assert(a@[i as int] == c && b@[i as int] == d);
                            return false;
                        }
                    },
                    None => {
                        return false;
                    },
                }
                i += 1;
            },
            None => {
                break ;
            },
        }
    }
    true
}

/// `char::is_whitespace`: whether `c` has the Unicode property
/// `White_Space`. The contract gives the answer a name and says no more.
#[verifier::external_body]
pub(crate) fn is_whitespace(c: char) -> (r: bool)
    ensures
        r == white_space(c),
{
    c.is_whitespace()
}

/// When the first `i` characters of `s` are white space and the next one, if
/// there is one, is not, trimming the start leaves the rest.
pub proof fn lemma_trim_start(s: Seq<char>, i: int)
    requires
        0 <= i <= s.len(),
        forall|k: int| 0 <= k < i ==> white_space(#[trigger] s[k]),
        i < s.len() ==> !white_space(s[i]),
    ensures
        trim_start(s) == s.skip(i),
    decreases i,
{
    if i == 0 {
        assert(s.skip(0) =~= s);
    } else {
        let t = s.drop_first();
        assert forall|k: int| 0 <= k < i - 1 implies white_space(#[trigger] t[k]) by {
            assert(t[k] == s[k + 1]);
        }
        lemma_trim_start(t, i - 1);
        assert(t.skip(i - 1) =~= s.skip(i));
    }
}

/// When the characters of `s` from `j` on are white space and the one before,
/// if there is one, is not, trimming the end leaves the first `j`.
pub proof fn lemma_trim_end(s: Seq<char>, j: int)
    requires
        0 <= j <= s.len(),
        forall|k: int| j <= k < s.len() ==> white_space(#[trigger] s[k]),
        0 < j ==> !white_space(s[j - 1]),
    ensures
        trim_end(s) == s.take(j),
    decreases s.len() - j,
{
    if j == s.len() {
        assert(s.take(j) =~= s);
    } else {
        let t = s.drop_last();
        assert(white_space(s[s.len() - 1]));
        assert forall|k: int| j <= k < t.len() implies white_space(#[trigger] t[k]) by {
            assert(t[k] == s[k]);
        }
        lemma_trim_end(t, j);
        assert(t.take(j) =~= s.take(j));
    }
}

/// `s` without the white space at its beginning and at its end.
pub fn trim(s: &str) -> (r: &str)
    ensures
        r@ == trimmed(s@),
{
    let n = s.unicode_len();
    let mut it = s.chars();
    let mut seen: usize = 0;
    let mut start: usize = 0;
    let mut end: usize = 0;
    let mut found = false;
    loop
        invariant
            n == s@.len(),
            seen <= n,
            it.remaining() == s@.skip(seen as int),
            it.obeys_prophetic_iter_laws(),
            it.decrease() is Some,
            found ==> start < end <= seen && !white_space(s@[start as int]) && !white_space(
                s@[end - 1],
            ),
            found ==> forall|k: int| 0 <= k < start ==> white_space(#[trigger] s@[k]),
            found ==> forall|k: int| end <= k < seen ==> white_space(#[trigger] s@[k]),
            !found ==> forall|k: int| 0 <= k < seen ==> white_space(#[trigger] s@[k]),
        ensures
            seen == n,
            found ==> start < end <= n && !white_space(s@[start as int]) && !white_space(
                s@[end - 1],
            ),
            found ==> forall|k: int| 0 <= k < start ==> white_space(#[trigger] s@[k]),
            found ==> forall|k: int| end <= k < n ==> white_space(#[trigger] s@[k]),
            !found ==> forall|k: int| 0 <= k < n ==> white_space(#[trigger] s@[k]),
        decreases it.decrease()->0,
    {
        match it.next() {
            Some(c) => {
                if !is_whitespace(c) {
                    if !found {
                        start = seen;
                        found = true;
                    }
                    end = seen + 1;
                }
                seen += 1;
            },
            None => {
                break ;
            },
        }
    }
    if found {
        proof {
            lemma_trim_start(s@, start as int);
            let t = s@.skip(start as int);
            assert forall|k: int| end - start <= k < t.len() implies white_space(
                #[trigger] t[k],
            ) by {
                assert(t[k] == s@[k + start]);
            }
            assert(t[end - start - 1] == s@[end - 1]);
            lemma_trim_end(t, end - start);
            assert(t.take(end - start) =~= s@.subrange(start as int, end as int));
        }
        s.substring_char(start, end)
    } else {
        proof {
            lemma_trim_start(s@, n as int);
            assert(s@.skip(n as int) =~= Seq::<char>::empty());
            assert(s@.subrange(0, 0) =~= Seq::<char>::empty());
        }
        s.substring_char(0, 0)
    }
}

/// `str::to_lowercase`: the lower-case form of `s` as a new `String`. The
/// contract gives the result a name and says no more.
#[verifier::external_body]
pub(crate) fn to_lowercase(s: &str) -> (r: String)
    ensures
        r@ == lowercase(s@),
{
    s.to_lowercase()
}

/// The words of `s`, from left to right.
pub fn split_words(s: &str) -> (r: Vec<&str>)
    ensures
        r@.len() == words(s@).len(),
        forall|i: int| 0 <= i < r@.len() ==> (#[trigger] r@[i])@ == words(s@)[i],
{
    let n = s.unicode_len();
    let mut out: Vec<&str> = Vec::new();
    let ghost mut done: Seq<Seq<char>> = Seq::empty();
    let mut it = s.chars();
    let mut seen: usize = 0;
    let mut start: usize = 0;
    let mut open = false;
    assert(s@.take(0) =~= Seq::<char>::empty());
    loop
        invariant
            n == s@.len(),
            seen <= n,
            it.remaining() == s@.skip(seen as int),
            it.obeys_prophetic_iter_laws(),
            it.decrease() is Some,
            out@.len() == done.len(),
            forall|i: int| 0 <= i < out@.len() ==> (#[trigger] out@[i])@ == done[i],
            open ==> start < seen && !white_space(s@[seen - 1]) && words(s@.take(seen as int))
                == done.push(s@.subrange(start as int, seen as int)),
            !open ==> (seen == 0 || white_space(s@[seen - 1])) && words(s@.take(seen as int))
                == done,
        ensures
            seen == n,
            out@.len() == done.len(),
            forall|i: int| 0 <= i < out@.len() ==> (#[trigger] out@[i])@ == done[i],
            open ==> start < seen && words(s@.take(seen as int)) == done.push(
                s@.subrange(start as int, seen as int),
            ),
            !open ==> words(s@.take(seen as int)) == done,
        decreases it.decrease()->0,
    {
        match it.next() {
            Some(c) => {
                let ghost prefix = s@.take(seen as int);
                let ghost next = s@.take(seen + 1);
                assert(next.drop_last() =~= prefix);
                assert(next.last() == c);
                if is_whitespace(c) {
                    if open {
                        out.push(s.substring_char(start, seen));
                        proof {
                            done = done.push(s@.subrange(start as int, seen as int));
                        }
                        open = false;
                    }
                } else {
                    if open {
                        proof {
                            assert(next[next.len() - 2] == s@[seen - 1]);
                            let word = s@.subrange(start as int, seen as int);
                            assert(done.push(word).drop_last() =~= done);
                            assert(word.push(c) =~= s@.subrange(start as int, seen + 1));
                        }
                    } else {
                        proof {
                            if next.len() >= 2 {
                                assert(next[next.len() - 2] == s@[seen - 1]);
                            }
                            assert(seq![c] =~= s@.subrange(seen as int, seen + 1));
                        }
                        start = seen;
                        open = true;
                    }
                }
                seen += 1;
            },
            None => {
                break ;
            },
        }
    }
    assert(s@.take(n as int) =~= s@);
    if open {
        out.push(s.substring_char(start, seen));
        proof {
            done = done.push(s@.subrange(start as int, seen as int));
        }
    }
    out
}

} // verus!
