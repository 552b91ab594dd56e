//! Character-level text helpers: whitespace, trimming, substring search,
//! prefix and separator splitting, and word splitting, each stated over
//! `Seq<char>`.

use vstd::prelude::*;
use vstd::string::*;

verus! {

/// Converts a string slice into its characters.
pub fn chars_of(s: &str) -> (r: Vec<char>)
    ensures
        r@ == s@,
{
    let mut out: Vec<char> = Vec::new();
    for c in it: s.chars()
        invariant
            it.seq() == s@,
            out@ == it.history(),
    {
        out.push(c);
    }
    assert(out@ =~= s@);
    out
}

/// The characters with the Unicode `White_Space` property.
pub open spec fn is_white(c: char) -> bool {
    let u = c as u32;
    (0x9 <= u && u <= 0xD) || u == 0x20 || u == 0x85 || u == 0xA0 || u == 0x1680 || (0x2000 <= u
        && u <= 0x200A) || u == 0x2028 || u == 0x2029 || u == 0x202F || u == 0x205F || u == 0x3000
}

/// Whether `c` is whitespace in the Unicode sense.
pub fn is_white_space(c: char) -> (r: bool)
    ensures
        r == is_white(c),
{
    let u = c as u32;
    (0x9 <= u && u <= 0xD) || u == 0x20 || u == 0x85 || u == 0xA0 || u == 0x1680 || (0x2000 <= u
        && u <= 0x200A) || u == 0x2028 || u == 0x2029 || u == 0x202F || u == 0x205F || u == 0x3000
}

/// Which characters trimming removes from the ends of a text.
#[derive(Clone, Copy, Debug, PartialEq, Eq, Structural)]
pub enum Trim {
    /// Whitespace.
    Space,
    /// Double quotes.
    Quote,
    /// Double quotes and whitespace, in any mix.
    QuoteOrSpace,
}

/// A character that trimming with `set` removes.
pub open spec fn trims(c: char, set: Trim) -> bool {
    match set {
        Trim::Space => is_white(c),
        Trim::Quote => c == '"',
        Trim::QuoteOrSpace => c == '"' || is_white(c),
    }
}

fn trims_char(c: char, set: Trim) -> (r: bool)
    ensures
        r == trims(c, set),
{
    match set {
        Trim::Space => is_white_space(c),
        Trim::Quote => c == '"',
        Trim::QuoteOrSpace => c == '"' || is_white_space(c),
    }
}

/// The first position at or after `i` that trimming keeps (or the end).
pub open spec fn trim_front(s: Seq<char>, set: Trim, i: int) -> int
    decreases s.len() - i,
{
    if 0 <= i < s.len() && trims(s[i], set) {
        trim_front(s, set, i + 1)
    } else {
        i
    }
}

/// The end of the kept part when the characters before `j` are examined from the back.
pub open spec fn trim_back(s: Seq<char>, set: Trim, j: int) -> int
    decreases j,
{
    if 0 < j <= s.len() && trims(s[j - 1], set) {
        trim_back(s, set, j - 1)
    } else {
        j
    }
}

/// `s` without its leading and trailing trimmed characters.
pub open spec fn trimmed(s: Seq<char>, set: Trim) -> Seq<char> {
    let a = trim_front(s, set, 0);
    if a < s.len() {
        s.subrange(a, trim_back(s, set, s.len() as int))
    } else {
        Seq::empty()
    }
}

/// `s` without leading and trailing whitespace.
pub open spec fn trim(s: Seq<char>) -> Seq<char> {
    trimmed(s, Trim::Space)
}

/// `s` without leading and trailing double quotes.
pub open spec fn trim_quotes(s: Seq<char>) -> Seq<char> {
    trimmed(s, Trim::Quote)
}

/// The bounds of the kept part of `s`.
fn trim_bounds(s: &Vec<char>, set: Trim) -> (r: (usize, usize))
    ensures
        r.0 <= r.1 <= s.len(),
        s@.subrange(r.0 as int, r.1 as int) == trimmed(s@, set),
{
    let n = s.len();
    let mut a: usize = 0;
    while a < n && trims_char(s[a], set)
        invariant
            a <= n,
            n == s.len(),
            trim_front(s@, set, 0) == trim_front(s@, set, a as int),
        decreases n - a,
    {
        a += 1;
    }
    if a == n {
        assert(s@.subrange(0, 0) =~= Seq::<char>::empty());
        return (0, 0);
    }
    let mut b: usize = n;
    while b > a + 1 && trims_char(s[b - 1], set)
        invariant
            a + 1 <= b <= n,
            n == s.len(),
            trim_front(s@, set, 0) == a,
            !trims(s@[a as int], set),
            trim_back(s@, set, n as int) == trim_back(s@, set, b as int),
        decreases b,
    {
        b -= 1;
    }
    (a, b)
}

/// `s` without the characters that trimming removes at either end.
pub fn trim_str(s: &str, set: Trim) -> (r: &str)
    ensures
        r@ == trimmed(s@, set),
{
    let v = chars_of(s);
    let (a, b) = trim_bounds(&v, set);
    s.substring_char(a, b)
}

/// A text made of whitespace alone trims to nothing.
pub proof fn lemma_all_white_trims_empty(s: Seq<char>)
    requires
        forall|i: int| 0 <= i < s.len() ==> is_white(#[trigger] s[i]),
    ensures
        trim(s).len() == 0,
{
    lemma_trim_front_skips_white(s, 0);
}

proof fn lemma_trim_front_skips_white(s: Seq<char>, i: int)
    requires
        0 <= i <= s.len(),
        forall|k: int| 0 <= k < s.len() ==> is_white(#[trigger] s[k]),
    ensures
        trim_front(s, Trim::Space, i) == s.len(),
    decreases s.len() - i,
{
    if i < s.len() {
        lemma_trim_front_skips_white(s, i + 1);
    }
}

/// `t` occurs in `h` starting at position `i`.
pub open spec fn occurs_at(h: Seq<char>, t: Seq<char>, i: int) -> bool {
    0 <= i && i + t.len() <= h.len() && h.subrange(i, i + t.len()) == t
}

/// `t` is a substring of `h`.
pub open spec fn contains(h: Seq<char>, t: Seq<char>) -> bool {
    exists|i: int| occurs_at(h, t, i)
}

/// The first position at or after `i` where `t` occurs in `h`.
pub open spec fn find_from(h: Seq<char>, t: Seq<char>, i: int) -> Option<int>
    decreases h.len() + 1 - i,
{
    if i < 0 || i + t.len() > h.len() {
        None
    } else if occurs_at(h, t, i) {
        Some(i)
    } else {
        find_from(h, t, i + 1)
    }
}

/// What `find_from` returns is the earliest occurrence from `i` on.
pub proof fn lemma_find_from(h: Seq<char>, t: Seq<char>, i: int)
    requires
        0 <= i,
    ensures
        find_from(h, t, i) matches Some(k) ==> i <= k && occurs_at(h, t, k) && forall|j: int|
            i <= j < k ==> !occurs_at(h, t, j),
        find_from(h, t, i) is None ==> forall|j: int| i <= j ==> !occurs_at(h, t, j),
    decreases h.len() + 1 - i,
{
    if i + t.len() > h.len() {
    } else if occurs_at(h, t, i) {
    } else {
        lemma_find_from(h, t, i + 1);
    }
}

/// The first occurrence of `t[a..b]` in `h`.
fn find_range(h: &Vec<char>, t: &Vec<char>, a: usize, b: usize) -> (r: Option<usize>)
    requires
        a <= b <= t.len(),
    ensures
        r matches Some(k) ==> find_from(h@, t@.subrange(a as int, b as int), 0) == Some(k as int),
        r is None ==> find_from(h@, t@.subrange(a as int, b as int), 0) is None,
{
    let ghost p = t@.subrange(a as int, b as int);
    let m = b - a;
    let n = h.len();
    if m > n {
        return None;
    }
    let mut i: usize = 0;
    while i <= n - m
        invariant
            m <= n,
            n == h.len(),
            m == p.len(),
            a <= b <= t.len(),
            p == t@.subrange(a as int, b as int),
            i <= n - m + 1,
            find_from(h@, p, 0) == find_from(h@, p, i as int),
        decreases n - i,
    {
        let mut j: usize = 0;
        while j < m && h[i + j] == t[a + j]
            invariant
                j <= m,
                i + m <= n,
                m <= n,
                n == h.len(),
                m == p.len(),
                a <= b <= t.len(),
                p == t@.subrange(a as int, b as int),
                forall|k: int| 0 <= k < j ==> h@[i + k] == p[k],
            decreases m - j,
        {
            j += 1;
        }
        if j == m {
            assert(h@.subrange(i as int, i + m) =~= p);
            return Some(i);
        }
        assert(h@.subrange(i as int, i + m)[j as int] != p[j as int]);
        i += 1;
    }
    None
}

/// Whether `t` occurs in `h`.
pub fn contains_chars(h: &Vec<char>, t: &Vec<char>) -> (r: bool)
    ensures
        r == contains(h@, t@),
{
    let r = find_range(h, t, 0, t.len());
    assert(t@.subrange(0, t@.len() as int) =~= t@);
    proof {
        lemma_find_from(h@, t@, 0);
    }
    r.is_some()
}

/// `s[a..b]` is one whitespace-separated word of `s`: a maximal run of
/// non-whitespace characters.
pub open spec fn is_word_at(s: Seq<char>, a: int, b: int) -> bool {
    &&& 0 <= a < b <= s.len()
    &&& forall|k: int| a <= k < b ==> !is_white(#[trigger] s[k])
    &&& (a == 0 || is_white(s[a - 1]))
    &&& (b == s.len() || is_white(s[b]))
}

/// Every whitespace-separated word of `needle` is a substring of `hay`.
pub open spec fn all_words_occur(needle: Seq<char>, hay: Seq<char>) -> bool {
    forall|a: int, b: int| #[trigger]
        is_word_at(needle, a, b) ==> contains(hay, needle.subrange(a, b))
}

/// Words are independent: two search strings joined by a space match
/// exactly when each matches, so the order of the words does not matter.
pub proof fn lemma_words_of_join(a: Seq<char>, b: Seq<char>, hay: Seq<char>)
    ensures
        all_words_occur(a + seq![' '] + b, hay) <==> all_words_occur(a, hay) && all_words_occur(b, hay),
        all_words_occur(a + seq![' '] + b, hay) <==> all_words_occur(b + seq![' '] + a, hay),
{
    lemma_words_of_join_one_way(a, b, hay);
    lemma_words_of_join_one_way(b, a, hay);
}

proof fn lemma_words_of_join_one_way(a: Seq<char>, b: Seq<char>, hay: Seq<char>)
    ensures
        all_words_occur(a + seq![' '] + b, hay) <==> all_words_occur(a, hay) && all_words_occur(b, hay),
{
    let c = a + seq![' '] + b;
    let n = a.len() as int;
    assert(c[n] == ' ');
    assert(is_white(' '));
    if all_words_occur(a, hay) && all_words_occur(b, hay) {
        assert forall|x: int, y: int| #[trigger] is_word_at(c, x, y) implies contains(hay, c.subrange(x, y)) by {
            if y <= n {
                assert forall|k: int| x <= k < y implies !is_white(#[trigger] a[k]) by {
                    assert(c[k] == a[k]);
                }
                if x > 0 {
                    assert(c[x - 1] == a[x - 1]);
                }
                if y < n {
                    assert(c[y] == a[y]);
                }
                assert(is_word_at(a, x, y));
                assert(c.subrange(x, y) =~= a.subrange(x, y));
            } else {
                if x <= n {
                    assert(!is_white(c[n]));
                }
                let x2 = x - n - 1;
                let y2 = y - n - 1;
                assert forall|k: int| x2 <= k < y2 implies !is_white(#[trigger] b[k]) by {
                    assert(c[k + n + 1] == b[k]);
                }
                if x2 > 0 {
                    assert(c[x - 1] == b[x2 - 1]);
                }
                if y2 < b.len() {
                    assert(c[y] == b[y2]);
                }
                assert(is_word_at(b, x2, y2));
                assert(c.subrange(x, y) =~= b.subrange(x2, y2));
            }
        }
    }
    if all_words_occur(c, hay) {
        assert forall|x: int, y: int| #[trigger] is_word_at(a, x, y) implies contains(hay, a.subrange(x, y)) by {
            assert forall|k: int| x <= k < y implies !is_white(#[trigger] c[k]) by {
                assert(c[k] == a[k]);
            }
            if x > 0 {
                assert(c[x - 1] == a[x - 1]);
            }
            if y < n {
                assert(c[y] == a[y]);
            }
            assert(is_word_at(c, x, y));
            assert(c.subrange(x, y) =~= a.subrange(x, y));
        }
        assert forall|x: int, y: int| #[trigger] is_word_at(b, x, y) implies contains(hay, b.subrange(x, y)) by {
            let x1 = x + n + 1;
            let y1 = y + n + 1;
            assert forall|k: int| x1 <= k < y1 implies !is_white(#[trigger] c[k]) by {
                assert(c[k] == b[k - n - 1]);
            }
            if x > 0 {
                assert(c[x1 - 1] == b[x - 1]);
            }
            if y < b.len() {
                assert(c[y1] == b[y]);
            }
            assert(is_word_at(c, x1, y1));
            assert(c.subrange(x1, y1) =~= b.subrange(x, y));
        }
    }
}

/// Whether every whitespace-separated word of `needle` occurs in `hay`.
pub fn words_occur(needle: &Vec<char>, hay: &Vec<char>) -> (r: bool)
    ensures
        r == all_words_occur(needle@, hay@),
{
    let n = needle.len();
    let mut i: usize = 0;
    while i < n
        invariant
            i <= n,
            n == needle.len(),
            i == 0 || i == n || is_white(needle@[i - 1]) || is_white(needle@[i as int]),
            forall|a: int, b: int| #[trigger]
                is_word_at(needle@, a, b) && b <= i ==> contains(hay@, needle@.subrange(a, b)),
        decreases n - i,
    {
        if is_white_space(needle[i]) {
            i += 1;
        } else {
            let mut j: usize = i;
            while j < n && !is_white_space(needle[j])
                invariant
                    i <= j <= n,
                    n == needle.len(),
                    forall|k: int| i <= k < j ==> !is_white(#[trigger] needle@[k]),
                decreases n - j,
            {
                j += 1;
            }
            let found = find_range(hay, needle, i, j);
            proof {
                lemma_find_from(hay@, needle@.subrange(i as int, j as int), 0);
                assert(is_word_at(needle@, i as int, j as int));
                assert forall|a: int, b: int| #[trigger]
                    is_word_at(needle@, a, b) && b <= j && !(b <= i) implies a == i && b == j by {
                    if a > i {
                        assert(!is_white(needle@[a - 1]));
                    }
                    if a < i {
                        assert(!is_white(needle@[i - 1]));
                        assert(!is_white(needle@[i as int]));
                    }
                    if b < j {
                        assert(!is_white(needle@[b]));
                    }
                }
            }
            if found.is_none() {
                return false;
            }
            i = j;
        }
    }
    true
}

/// The parts of `s` before and after the first occurrence of `sep`.
pub open spec fn split_once(s: Seq<char>, sep: Seq<char>) -> Option<(Seq<char>, Seq<char>)> {
    match find_from(s, sep, 0) {
        Some(i) => Some((s.subrange(0, i), s.subrange(i + sep.len(), s.len() as int))),
        None => None,
    }
}

/// The parts of `s` before and after the first occurrence of `sep`.
pub fn split_once_str<'a>(s: &'a str, sep: &str) -> (r: Option<(&'a str, &'a str)>)
    ensures
        r matches Some(x) ==> split_once(s@, sep@) == Some((x.0@, x.1@)),
        r is None ==> split_once(s@, sep@) is None,
{
    let sv = chars_of(s);
    let pv = chars_of(sep);
    let found = find_range(&sv, &pv, 0, pv.len());
    assert(pv@.subrange(0, pv@.len() as int) =~= pv@);
    proof {
        lemma_find_from(sv@, pv@, 0);
    }
    match found {
        Some(i) => {
            assert(occurs_at(sv@, pv@, i as int));
            assert(i + pv@.len() <= sv@.len());
            assert(i + pv.len() <= sv.len());
            Some((s.substring_char(0, i), s.substring_char(i + pv.len(), sv.len())))
        },
        None => None,
    }
}

/// `a` equals `b` up to ASCII case, `b` being given in lower case.
pub open spec fn same_letter(a: char, b: char) -> bool {
    a == b || ('a' <= b && b <= 'z' && (a as u32) + 32 == (b as u32))
}

fn same_letter_exec(a: char, b: char) -> (r: bool)
    ensures
        r == same_letter(a, b),
{
    a == b || ('a' <= b && b <= 'z' && (a as u32) + 32 == (b as u32))
}

/// `p` (in lower case) occurs in `s` at position `i`, ignoring ASCII case.
pub open spec fn occurs_nocase_at(s: Seq<char>, p: Seq<char>, i: int) -> bool {
    &&& 0 <= i
    &&& i + p.len() <= s.len()
    &&& forall|k: int| 0 <= k < p.len() ==> same_letter(#[trigger] s[i + k], p[k])
}

/// The first position at or after `i` where `p` occurs in `s`, ignoring ASCII case.
pub open spec fn find_nocase_from(s: Seq<char>, p: Seq<char>, i: int) -> Option<int>
    decreases s.len() + 1 - i,
{
    if i < 0 || i + p.len() > s.len() {
        None
    } else if occurs_nocase_at(s, p, i) {
        Some(i)
    } else {
        find_nocase_from(s, p, i + 1)
    }
}

/// `s` without its prefix `p`, when it starts with `p` up to ASCII case.
pub open spec fn strip_prefix_nocase(s: Seq<char>, p: Seq<char>) -> Option<Seq<char>> {
    if occurs_nocase_at(s, p, 0) {
        Some(s.subrange(p.len() as int, s.len() as int))
    } else {
        None
    }
}

/// The parts of `s` around the first occurrence of `sep`, found up to ASCII case.
pub open spec fn split_once_nocase(s: Seq<char>, sep: Seq<char>) -> Option<(Seq<char>, Seq<char>)> {
    match find_nocase_from(s, sep, 0) {
        Some(i) => Some((s.subrange(0, i), s.subrange(i + sep.len(), s.len() as int))),
        None => None,
    }
}

fn occurs_nocase_exec(s: &Vec<char>, p: &Vec<char>, i: usize) -> (r: bool)
    requires
        i + p.len() <= s.len(),
    ensures
        r == occurs_nocase_at(s@, p@, i as int),
{
    let mut k: usize = 0;
    while k < p.len()
        invariant
            k <= p@.len(),
            i + p.len() <= s.len(),
            forall|j: int| 0 <= j < k ==> same_letter(#[trigger] s@[i + j], p@[j]),
        decreases p@.len() - k,
    {
        if !same_letter_exec(s[i + k], p[k]) {
            return false;
        }
        k += 1;
    }
    true
}

fn find_nocase(s: &Vec<char>, p: &Vec<char>) -> (r: Option<usize>)
    ensures
        r matches Some(k) ==> find_nocase_from(s@, p@, 0) == Some(k as int),
        r is None ==> find_nocase_from(s@, p@, 0) is None,
{
    let m = p.len();
    let n = s.len();
    if m > n {
        return None;
    }
    let mut i: usize = 0;
    while i <= n - m
        invariant
            m <= n,
            n == s.len(),
            m == p.len(),
            i <= n - m + 1,
            find_nocase_from(s@, p@, 0) == find_nocase_from(s@, p@, i as int),
        decreases n - i,
    {
        if occurs_nocase_exec(s, p, i) {
            return Some(i);
        }
        i += 1;
    }
    None
}

/// `s` without its prefix `p`, when it starts with `p` up to ASCII case.
pub fn strip_prefix_nocase_str<'a>(s: &'a str, p: &str) -> (r: Option<&'a str>)
    ensures
        r matches Some(x) ==> strip_prefix_nocase(s@, p@) == Some(x@),
        r is None ==> strip_prefix_nocase(s@, p@) is None,
{
    let sv = chars_of(s);
    let pv = chars_of(p);
    if pv.len() > sv.len() {
        return None;
    }
    if occurs_nocase_exec(&sv, &pv, 0) {
        Some(s.substring_char(pv.len(), sv.len()))
    } else {
        None
    }
}

/// The parts of `s` around the first occurrence of `sep`, found up to ASCII case.
pub fn split_once_nocase_str<'a>(s: &'a str, sep: &str) -> (r: Option<(&'a str, &'a str)>)
    ensures
        r matches Some(x) ==> split_once_nocase(s@, sep@) == Some((x.0@, x.1@)),
        r is None ==> split_once_nocase(s@, sep@) is None,
{
    let sv = chars_of(s);
    let pv = chars_of(sep);
    match find_nocase(&sv, &pv) {
        Some(i) => {
            proof {
                lemma_find_nocase_from(sv@, pv@, 0);
            }
            assert(i + pv@.len() <= sv@.len());
            assert(i + pv.len() <= sv.len());
            Some((s.substring_char(0, i), s.substring_char(i + pv.len(), sv.len())))
        },
        None => None,
    }
}

proof fn lemma_find_nocase_from(s: Seq<char>, p: Seq<char>, i: int)
    requires
        0 <= i,
    ensures
        find_nocase_from(s, p, i) matches Some(k) ==> i <= k && k + p.len() <= s.len(),
    decreases s.len() + 1 - i,
{
    if i + p.len() <= s.len() && !occurs_nocase_at(s, p, i) {
        lemma_find_nocase_from(s, p, i + 1);
    }
}

/// Whether two strings hold the same characters.
pub fn same_text(a: &str, b: &str) -> (r: bool)
    ensures
        r == (a@ == b@),
{
    let av = chars_of(a);
    let bv = chars_of(b);
    if av.len() != bv.len() {
        return false;
    }
    let mut i: usize = 0;
    while i < av.len()
        invariant
            i <= av.len(),
            av.len() == bv.len(),
            av@ == a@,
            bv@ == b@,
            forall|k: int| 0 <= k < i ==> av@[k] == bv@[k],
        decreases av.len() - i,
    {
        if av[i] != bv[i] {
            assert(av@[i as int] != bv@[i as int]);
            return false;
        }
        i += 1;
    }
    assert(av@ =~= bv@);
    true
}

/// What `str::to_lowercase` makes of a string.
pub uninterp spec fn lower_of(s: Seq<char>) -> Seq<char>;

/// Relies on `str::to_lowercase`: the Unicode lowercase mapping, which
/// depends on the characters alone.
#[verifier::external_body]
pub(crate) fn lowercase(s: &str) -> (r: String)
    ensures
        r@ == lower_of(s@),
{
    s.to_lowercase()
}

/// Relies on `String::push`: appends one character.
#[verifier::external_body]
pub(crate) fn push_char(s: &mut String, c: char)
    ensures
        final(s)@ == old(s)@.push(c),
{
    s.push(c)
}

/// Relies on `String::pop`: removes the last character, if there is one.
#[verifier::external_body]
pub(crate) fn pop_char(s: &mut String)
    ensures
        old(s)@.len() == 0 ==> final(s)@ == old(s)@,
        old(s)@.len() > 0 ==> final(s)@ == old(s)@.drop_last(),
{
    s.pop();
}

} // verus!
