//! Text as sequences of characters: the small vocabulary of splitting, joining, trimming, searching
//! and number formatting that the other modules state their contracts in.

use vstd::prelude::*;

verus! {

broadcast use vstd::seq_lib::group_seq_properties;

// ── trusted: the parts of std's strings that carry no specification of their own ────────────────

/// `String::push` of std: appends one character at the end.
pub assume_specification[ String::push ](s: &mut String, c: char)
    ensures
        final(s)@ == old(s)@.push(c),
;

/// What `str::to_lowercase` of std gives for a text (Unicode lower-casing; not spelled out here).
pub uninterp spec fn lowercase(s: Seq<char>) -> Seq<char>;

/// Calls `str::to_lowercase` of std. Claimed: the result is the `lowercase` of the argument.
#[verifier::external_body]
pub(crate) fn to_lowercase(s: &str) -> (r: String)
    ensures
        r@ == lowercase(s@),
{
    s.to_lowercase()
}

/// What `char::is_alphanumeric` of std answers (the Unicode classes; not spelled out here).
pub uninterp spec fn alphanumeric(c: char) -> bool;

/// Calls `char::is_alphanumeric` of std. Claimed: the result is `alphanumeric` of the argument.
#[verifier::external_body]
pub(crate) fn is_alphanumeric(c: char) -> (r: bool)
    ensures
        r == alphanumeric(c),
{
    c.is_alphanumeric()
}

// ── views of lists of texts ─────────────────────────────────────────────────────────────────────

/// The texts that a list of strings holds.
pub open spec fn texts(v: Seq<String>) -> Seq<Seq<char>> {
    Seq::new(v.len(), |i: int| v[i]@)
}

pub(crate) proof fn lemma_texts_push(v: Seq<String>, s: String)
    ensures
        texts(v.push(s)) == texts(v).push(s@),
{
    assert(texts(v.push(s)) =~= texts(v).push(s@));
}

/// Character-wise equality of two texts.
pub fn same_text(a: &str, b: &str) -> (r: bool)
    ensures
        r == (a@ == b@),
{
    let x: String = a.to_owned();
    let y: String = b.to_owned();
    x == y
}

/// Whether a list holds a text.
pub fn list_has(v: &Vec<String>, s: &str) -> (r: bool)
    ensures
        r == texts(v@).contains(s@),
{
    let mut i: usize = 0;
    while i < v.len()
        invariant
            i <= v@.len(),
            forall|j: int| 0 <= j < i ==> v@[j]@ != s@,
        decreases v@.len() - i,
    {
        if same_text(v[i].as_str(), s) {
            proof {
                assert(texts(v@)[i as int] == s@);
            }
            return true;
        }
        i = i + 1;
    }
    proof {
        assert forall|j: int| 0 <= j < texts(v@).len() implies texts(v@)[j] != s@ by {}
    }
    false
}

/// The index of the first string with this text.
pub fn find_text(v: &Vec<String>, s: &str) -> (r: Option<usize>)
    ensures
        match r {
            Some(i) => i < v@.len() && v@[i as int]@ == s@ && forall|j: int|
                0 <= j < i ==> v@[j]@ != s@,
            None => !texts(v@).contains(s@),
        },
        r is Some <==> texts(v@).contains(s@),
{
    let mut i: usize = 0;
    while i < v.len()
        invariant
            i <= v@.len(),
            forall|j: int| 0 <= j < i ==> v@[j]@ != s@,
        decreases v@.len() - i,
    {
        if same_text(v[i].as_str(), s) {
            proof {
                assert(texts(v@)[i as int] == s@);
            }
            return Some(i);
        }
        i = i + 1;
    }
    proof {
        assert forall|j: int| 0 <= j < texts(v@).len() implies texts(v@)[j] != s@ by {}
    }
    None
}

/// A copy of a list of strings.
pub fn copy_texts(v: &Vec<String>) -> (r: Vec<String>)
    ensures
        r@ == v@,
{
    let mut out: Vec<String> = Vec::new();
    let mut i: usize = 0;
    while i < v.len()
        invariant
            i <= v@.len(),
            out@ == v@.take(i as int),
        decreases v@.len() - i,
    {
        out.push(v[i].clone());
        proof {
            assert(v@.take(i as int).push(v@[i as int]) =~= v@.take(i as int + 1));
        }
        i = i + 1;
    }
    proof {
        assert(v@.take(v@.len() as int) =~= v@);
    }
    out
}

/// The characters of a text, in order.
pub fn chars_of(s: &str) -> (v: Vec<char>)
    ensures
        v@ == s@,
{
    let mut v: Vec<char> = Vec::new();
    for c in it: s.chars()
        invariant
            it.seq() == s@,
            v@ == s@.take(it.index() as int),
    {
        proof {
            assert(s@.take(it.index() as int).push(c) =~= s@.take(it.index() as int + 1));
        }
        v.push(c);
    }
    proof {
        assert(s@.take(s@.len() as int) =~= s@);
    }
    v
}

/// The text made of `v[from..to]`.
pub fn string_of(v: &[char], from: usize, to: usize) -> (s: String)
    requires
        from <= to <= v@.len(),
    ensures
        s@ == v@.subrange(from as int, to as int),
{
    let mut s = String::new();
    let mut i: usize = from;
    while i < to
        invariant
            from <= i <= to <= v@.len(),
            s@ == v@.subrange(from as int, i as int),
        decreases to - i,
    {
        s.push(v[i]);
        proof {
            assert(v@.subrange(from as int, i as int).push(v@[i as int]) =~= v@.subrange(
                from as int,
                i as int + 1,
            ));
        }
        i = i + 1;
    }
    s
}

// ── white space and trimming ────────────────────────────────────────────────────────────────────

/// The characters with Unicode's White_Space property.
pub open spec fn is_space(c: char) -> bool {
    ||| '\u{9}' <= c <= '\u{d}'
    ||| c == ' '
    ||| c == '\u{85}'
    ||| c == '\u{a0}'
    ||| c == '\u{1680}'
    ||| '\u{2000}' <= c <= '\u{200a}'
    ||| c == '\u{2028}'
    ||| c == '\u{2029}'
    ||| c == '\u{202f}'
    ||| c == '\u{205f}'
    ||| c == '\u{3000}'
}

/// Whether `c` is white space.
pub fn space(c: char) -> (r: bool)
    ensures
        r == is_space(c),
{
    ('\u{9}' <= c && c <= '\u{d}') || c == ' ' || c == '\u{85}' || c == '\u{a0}' || c == '\u{1680}'
        || ('\u{2000}' <= c && c <= '\u{200a}') || c == '\u{2028}' || c == '\u{2029}' || c
        == '\u{202f}' || c == '\u{205f}' || c == '\u{3000}'
}

/// `s` without its leading white space.
pub open spec fn trim_front(s: Seq<char>) -> Seq<char>
    decreases s.len(),
{
    if s.len() > 0 && is_space(s[0]) {
        trim_front(s.drop_first())
    } else {
        s
    }
}

/// `s` without its trailing white space.
pub open spec fn trim_back(s: Seq<char>) -> Seq<char>
    decreases s.len(),
{
    if s.len() > 0 && is_space(s.last()) {
        trim_back(s.drop_last())
    } else {
        s
    }
}

/// `s` without white space at either end.
pub open spec fn trimmed(s: Seq<char>) -> Seq<char> {
    trim_back(trim_front(s))
}

/// The index of the first character of `v[from..]` that is not white space, or the length.
pub(crate) fn skip_space(v: &[char], from: usize) -> (r: usize)
    requires
        from <= v@.len(),
    ensures
        from <= r <= v@.len(),
        v@.skip(r as int) == trim_front(v@.skip(from as int)),
{
    let mut i: usize = from;
    while i < v.len() && space(v[i])
        invariant
            from <= i <= v@.len(),
            trim_front(v@.skip(i as int)) == trim_front(v@.skip(from as int)),
        decreases v@.len() - i,
    {
        proof {
            assert(v@.skip(i as int).drop_first() =~= v@.skip(i as int + 1));
        }
        i = i + 1;
    }
    i
}

/// The end of `v[from..to]` once its trailing white space is dropped.
pub(crate) fn back_space(v: &[char], from: usize, to: usize) -> (r: usize)
    requires
        from <= to <= v@.len(),
    ensures
        from <= r <= to,
        v@.subrange(from as int, r as int) == trim_back(v@.subrange(from as int, to as int)),
{
    let mut j: usize = to;
    while j > from && space(v[j - 1])
        invariant
            from <= j <= to <= v@.len(),
            trim_back(v@.subrange(from as int, j as int)) == trim_back(
                v@.subrange(from as int, to as int),
            ),
        decreases j,
    {
        proof {
            assert(v@.subrange(from as int, j as int).drop_last() =~= v@.subrange(
                from as int,
                j as int - 1,
            ));
        }
        j = j - 1;
    }
    j
}

/// The text without white space at either end.
pub fn trim(s: &str) -> (r: String)
    ensures
        r@ == trimmed(s@),
{
    let v = chars_of(s);
    let i = skip_space(&v, 0);
    proof {
        assert(v@.skip(0) =~= v@);
        assert(v@.skip(i as int) =~= v@.subrange(i as int, v@.len() as int));
    }
    let j = back_space(&v, i, v.len());
    string_of(&v, i, j)
}

/// A trimmed text neither begins nor ends with white space.
pub proof fn law_trimmed_has_no_outer_space(s: Seq<char>)
    ensures
        trimmed(s).len() > 0 ==> !is_space(trimmed(s)[0]) && !is_space(trimmed(s).last()),
        trimmed(trimmed(s)) == trimmed(s),
{
    lemma_trim_front_clean(s);
    lemma_trim_back_clean(trim_front(s));
}

proof fn lemma_trim_front_clean(s: Seq<char>)
    ensures
        trim_front(s).len() > 0 ==> !is_space(trim_front(s)[0]),
    decreases s.len(),
{
    if s.len() > 0 && is_space(s[0]) {
        lemma_trim_front_clean(s.drop_first());
    }
}

proof fn lemma_trim_back_clean(s: Seq<char>)
    ensures
        trim_back(s).len() > 0 ==> !is_space(trim_back(s).last()) && trim_back(s)[0] == s[0],
        trim_back(s).len() <= s.len(),
    decreases s.len(),
{
    if s.len() > 0 && is_space(s.last()) {
        lemma_trim_back_clean(s.drop_last());
    }
}

// ── splitting and joining ───────────────────────────────────────────────────────────────────────

/// `s` cut at every character of `seps`: always one piece more than there are separators.
pub open spec fn split_on(s: Seq<char>, seps: Seq<char>) -> Seq<Seq<char>>
    decreases s.len(),
{
    if s.len() == 0 {
        seq![Seq::<char>::empty()]
    } else {
        let before = split_on(s.drop_last(), seps);
        if seps.contains(s.last()) {
            before.push(Seq::<char>::empty())
        } else {
            before.update(before.len() - 1, before.last().push(s.last()))
        }
    }
}

/// The members of `ss` that hold at least one character, in order.
pub open spec fn nonempty(ss: Seq<Seq<char>>) -> Seq<Seq<char>>
    decreases ss.len(),
{
    if ss.len() == 0 {
        Seq::empty()
    } else if ss.last().len() == 0 {
        nonempty(ss.drop_last())
    } else {
        nonempty(ss.drop_last()).push(ss.last())
    }
}

/// Each member of `ss` without white space at its ends.
pub open spec fn all_trimmed(ss: Seq<Seq<char>>) -> Seq<Seq<char>> {
    Seq::new(ss.len(), |i: int| trimmed(ss[i]))
}

/// The members of `ss` with `sep` between each two.
pub open spec fn joined(ss: Seq<Seq<char>>, sep: Seq<char>) -> Seq<char>
    decreases ss.len(),
{
    if ss.len() == 0 {
        Seq::empty()
    } else if ss.len() == 1 {
        ss[0]
    } else {
        joined(ss.drop_last(), sep) + sep + ss.last()
    }
}

fn holds_char(seps: &[char], c: char) -> (r: bool)
    ensures
        r == seps@.contains(c),
{
    let mut i: usize = 0;
    while i < seps.len()
        invariant
            i <= seps@.len(),
            forall|j: int| 0 <= j < i ==> seps@[j] != c,
        decreases seps@.len() - i,
    {
        if seps[i] == c {
            return true;
        }
        i = i + 1;
    }
    false
}

/// `s` cut at every character of `seps`.
pub fn split_chars(s: &str, seps: &[char]) -> (r: Vec<String>)
    ensures
        texts(r@) == split_on(s@, seps@),
        r@.len() > 0,
{
    let v = chars_of(s);
    let mut out: Vec<String> = Vec::new();
    let mut cur = String::new();
    let mut i: usize = 0;
    proof {
        assert(texts(out@).push(cur@) =~= split_on(s@.take(0), seps@));
    }
    while i < v.len()
        invariant
            i <= v@.len(),
            v@ == s@,
            texts(out@).push(cur@) == split_on(s@.take(i as int), seps@),
        decreases v@.len() - i,
    {
        let c = v[i];
        proof {
            assert(s@.take(i as int + 1).drop_last() =~= s@.take(i as int));
        }
        if holds_char(seps, c) {
            proof {
                lemma_texts_push(out@, cur);
            }
            out.push(cur);
            cur = String::new();
            proof {
                assert(texts(out@).push(cur@) =~= split_on(s@.take(i as int + 1), seps@));
            }
        } else {
            let ghost before = cur@;
            cur.push(c);
            proof {
                assert(texts(out@).push(cur@) =~= split_on(s@.take(i as int + 1), seps@));
            }
        }
        i = i + 1;
    }
    proof {
        assert(s@.take(v@.len() as int) =~= s@);
        lemma_texts_push(out@, cur);
    }
    out.push(cur);
    out
}

/// The members of `v` that are not empty, in order.
pub fn drop_empty(v: Vec<String>) -> (r: Vec<String>)
    ensures
        texts(r@) == nonempty(texts(v@)),
{
    let mut out: Vec<String> = Vec::new();
    let mut i: usize = 0;
    proof {
        assert(texts(out@) =~= nonempty(texts(v@).take(0)));
    }
    while i < v.len()
        invariant
            i <= v@.len(),
            texts(out@) == nonempty(texts(v@).take(i as int)),
        decreases v@.len() - i,
    {
        proof {
            assert(texts(v@).take(i as int + 1).drop_last() =~= texts(v@).take(i as int));
        }
        if !v[i].as_str().is_empty() {
            let c = v[i].clone();
            proof {
                lemma_texts_push(out@, c);
            }
            out.push(c);
        }
        i = i + 1;
    }
    proof {
        assert(texts(v@).take(v@.len() as int) =~= texts(v@));
    }
    out
}

/// Each member of `v` without white space at its ends.
pub fn trim_all(v: &Vec<String>) -> (r: Vec<String>)
    ensures
        texts(r@) == all_trimmed(texts(v@)),
{
    let mut out: Vec<String> = Vec::new();
    let mut i: usize = 0;
    while i < v.len()
        invariant
            i <= v@.len(),
            out@.len() == i,
            forall|j: int| 0 <= j < i ==> out@[j]@ == trimmed(v@[j]@),
        decreases v@.len() - i,
    {
        out.push(trim(v[i].as_str()));
        i = i + 1;
    }
    proof {
        assert(texts(out@) =~= all_trimmed(texts(v@)));
    }
    out
}

/// The members of `v` with `sep` between each two.
pub fn join(v: &Vec<String>, sep: &str) -> (r: String)
    ensures
        r@ == joined(texts(v@), sep@),
{
    if v.len() == 0 {
        return String::new();
    }
    let mut out = v[0].clone();
    let mut i: usize = 1;
    proof {
        assert(texts(v@).take(1)[0] == v@[0]@);
    }
    while i < v.len()
        invariant
            1 <= i <= v@.len(),
            out@ == joined(texts(v@).take(i as int), sep@),
        decreases v@.len() - i,
    {
        out.append(sep);
        out.append(v[i].as_str());
        proof {
            assert(texts(v@).take(i as int + 1).drop_last() =~= texts(v@).take(i as int));
            assert(texts(v@).take(i as int + 1).last() == v@[i as int]@);
        }
        i = i + 1;
    }
    proof {
        assert(texts(v@).take(v@.len() as int) =~= texts(v@));
    }
    out
}

// ── searching ───────────────────────────────────────────────────────────────────────────────────

/// `needle` stands in `hay` at index `i`.
pub open spec fn occurs_at(hay: Seq<char>, needle: Seq<char>, i: int) -> bool {
    0 <= i && i + needle.len() <= hay.len() && hay.subrange(i, i + needle.len()) == needle
}

/// The first index from `from` on at which `needle` stands in `hay`.
pub open spec fn find_at(hay: Seq<char>, needle: Seq<char>, from: int) -> Option<int>
    decreases hay.len() - from + 1,
{
    if from + needle.len() > hay.len() {
        None
    } else if occurs_at(hay, needle, from) {
        Some(from)
    } else {
        find_at(hay, needle, from + 1)
    }
}

/// `needle` stands somewhere in `hay`.
pub open spec fn has_text(hay: Seq<char>, needle: Seq<char>) -> bool {
    exists|i: int| occurs_at(hay, needle, i)
}

/// `s` begins with `p`.
pub open spec fn begins_with(s: Seq<char>, p: Seq<char>) -> bool {
    p.len() <= s.len() && s.take(p.len() as int) == p
}

/// `s` ends with `p`.
pub open spec fn finishes_with(s: Seq<char>, p: Seq<char>) -> bool {
    p.len() <= s.len() && s.skip(s.len() - p.len()) == p
}

pub(crate) proof fn lemma_find_at(hay: Seq<char>, needle: Seq<char>, from: int)
    requires
        0 <= from,
    ensures
        match find_at(hay, needle, from) {
            Some(i) => from <= i && occurs_at(hay, needle, i) && forall|j: int|
                from <= j < i ==> !occurs_at(hay, needle, j),
            None => forall|j: int| from <= j ==> !occurs_at(hay, needle, j),
        },
    decreases hay.len() - from + 1,
{
    if from + needle.len() <= hay.len() && !occurs_at(hay, needle, from) {
        lemma_find_at(hay, needle, from + 1);
    }
}

/// Whether `needle` stands in `hay` at index `i`.
pub(crate) fn matches_at(hay: &[char], needle: &[char], i: usize) -> (r: bool)
    requires
        i <= hay@.len(),
    ensures
        r == occurs_at(hay@, needle@, i as int),
{
    if needle.len() > hay.len() - i {
        return false;
    }
    let total: usize = hay.len();
    let mut k: usize = 0;
    while k < needle.len()
        invariant
            k <= needle@.len(),
            total == hay@.len(),
            i + needle@.len() <= total,
            forall|j: int| 0 <= j < k ==> hay@[i + j] == needle@[j],
        decreases needle@.len() - k,
    {
        if hay[i + k] != needle[k] {
            proof {
                assert(hay@.subrange(i as int, i + needle@.len())[k as int] != needle@[k as int]);
            }
            return false;
        }
        k = k + 1;
    }
    proof {
        assert(hay@.subrange(i as int, i + needle@.len()) =~= needle@);
    }
    true
}

/// The first index from `from` on at which `needle` stands in `hay`.
pub(crate) fn find_from(hay: &[char], needle: &[char], from: usize) -> (r: Option<usize>)
    requires
        from <= hay@.len(),
    ensures
        match r {
            Some(i) => find_at(hay@, needle@, from as int) == Some(i as int) && i + needle@.len()
                <= hay@.len() && from <= i,
            None => find_at(hay@, needle@, from as int) is None,
        },
{
    let mut i: usize = from;
    while i <= hay.len() && needle.len() <= hay.len() - i
        invariant
            from <= i <= hay@.len() + 1,
            find_at(hay@, needle@, from as int) == find_at(hay@, needle@, i as int),
        decreases hay@.len() + 1 - i,
    {
        if matches_at(hay, needle, i) {
            return Some(i);
        }
        if i == hay.len() {
            proof {
                assert(hay@.subrange(i as int, i + needle@.len()) =~= needle@);
            }
            return None;
        }
        i = i + 1;
    }
    None
}

/// Whether `needle` stands somewhere in `hay`.
pub fn contains_text(hay: &str, needle: &str) -> (r: bool)
    ensures
        r == has_text(hay@, needle@),
{
    let h = chars_of(hay);
    let n = chars_of(needle);
    proof {
        lemma_find_at(hay@, needle@, 0);
    }
    let r = find_from(&h, &n, 0);
    proof {
        if let Some(i) = r {
            assert(occurs_at(hay@, needle@, i as int));
        } else {
            assert forall|j: int| !occurs_at(hay@, needle@, j) by {
                if j >= 0 {
                }
            }
        }
    }
    r.is_some()
}

/// Whether `s` begins with `p`.
pub fn starts_with(s: &str, p: &str) -> (r: bool)
    ensures
        r == begins_with(s@, p@),
{
    let h = chars_of(s);
    let n = chars_of(p);
    proof {
        if p@.len() <= s@.len() {
            assert(s@.subrange(0, p@.len() as int) =~= s@.take(p@.len() as int));
        }
    }
    matches_at(&h, &n, 0)
}

/// `s` cut at the first place where `sep` stands, which is left out.
pub open spec fn split_first(s: Seq<char>, sep: Seq<char>) -> Option<(Seq<char>, Seq<char>)> {
    match find_at(s, sep, 0) {
        Some(i) => Some((s.take(i), s.skip(i + sep.len()))),
        None => None,
    }
}

/// `s` cut at the first place where `sep` stands, which is left out.
pub fn split_once(s: &str, sep: &str) -> (r: Option<(String, String)>)
    ensures
        match r {
            Some((a, b)) => split_first(s@, sep@) == Some((a@, b@)),
            None => split_first(s@, sep@) is None,
        },
{
    let v = chars_of(s);
    let n = chars_of(sep);
    match find_from(&v, &n, 0) {
        Some(i) => {
            let total: usize = v.len();
            let a = string_of(&v, 0, i);
            let b = string_of(&v, i + n.len(), total);
            proof {
                assert(a@ =~= s@.take(i as int));
                assert(b@ =~= s@.skip(i + sep@.len()));
            }
            Some((a, b))
        },
        None => None,
    }
}

// ── numbers ─────────────────────────────────────────────────────────────────────────────────────

/// The lower-case digit for a value below sixteen.
pub open spec fn digit(d: nat) -> char {
    if d < 10 {
        (48 + d) as char
    } else {
        (87 + d) as char
    }
}

/// `n` written in base ten.
pub open spec fn decimal(n: nat) -> Seq<char>
    decreases n,
{
    if n < 10 {
        seq![digit(n)]
    } else {
        decimal(n / 10).push(digit(n % 10))
    }
}

/// `n` written in base ten, with a minus sign where it is negative.
pub open spec fn decimal_int(n: int) -> Seq<char> {
    if n < 0 {
        seq!['-'] + decimal((-n) as nat)
    } else {
        decimal(n as nat)
    }
}

/// The low `width` base-sixteen digits of `n`.
pub open spec fn hex_digits(n: nat, width: nat) -> Seq<char>
    decreases width,
{
    if width == 0 {
        Seq::empty()
    } else {
        hex_digits(n / 16, (width - 1) as nat).push(digit(n % 16))
    }
}

/// `n` in base ten, filled up with a leading zero to two digits.
pub open spec fn two_digits(n: nat) -> Seq<char> {
    if n < 10 {
        seq!['0', digit(n)]
    } else {
        decimal(n)
    }
}

fn digit_char(d: u8) -> (c: char)
    requires
        d < 16,
    ensures
        c == digit(d as nat),
{
    if d < 10 {
        (48 + d) as char
    } else {
        (87 + d) as char
    }
}

/// `n` written in base ten.
pub fn show_u64(n: u64) -> (s: String)
    ensures
        s@ == decimal(n as nat),
    decreases n,
{
    if n < 10 {
        let mut s = String::new();
        s.push(digit_char(n as u8));
        proof {
            assert(s@ =~= decimal(n as nat));
        }
        s
    } else {
        let mut s = show_u64(n / 10);
        s.push(digit_char((n % 10) as u8));
        s
    }
}

/// `n` written in base ten.
pub fn show_i64(n: i64) -> (s: String)
    ensures
        s@ == decimal_int(n as int),
{
    if n < 0 {
        let mut s = String::new();
        s.push('-');
        let m: u64 = if n == i64::MIN {
            9223372036854775808u64
        } else {
            (-n) as u64
        };
        s.append(show_u64(m).as_str());
        proof {
            assert(s@ =~= decimal_int(n as int));
        }
        s
    } else {
        show_u64(n as u64)
    }
}

/// `n` as four base-sixteen digits.
pub fn show_hex4(n: u16) -> (s: String)
    ensures
        s@ == hex_digits(n as nat, 4),
{
    let mut s = String::new();
    s.push(digit_char((n / 4096) as u8));
    s.push(digit_char((n / 256 % 16) as u8));
    s.push(digit_char((n / 16 % 16) as u8));
    s.push(digit_char((n % 16) as u8));
    proof {
        reveal_with_fuel(hex_digits, 5);
        assert(s@ =~= hex_digits(n as nat, 4));
    }
    s
}

/// `n` in base ten, filled up with a leading zero to two digits.
pub fn show_two_digits(n: u64) -> (s: String)
    ensures
        s@ == two_digits(n as nat),
{
    if n < 10 {
        let mut s = String::new();
        s.push('0');
        s.push(digit_char(n as u8));
        proof {
            assert(s@ =~= two_digits(n as nat));
        }
        s
    } else {
        show_u64(n)
    }
}

/// The value of a digit in base `radix` (ten or sixteen, either case).
pub open spec fn digit_value(c: char, radix: nat) -> Option<nat> {
    if '0' <= c <= '9' {
        Some((c as nat - 48) as nat)
    } else if radix == 16 && 'a' <= c <= 'f' {
        Some((c as nat - 87) as nat)
    } else if radix == 16 && 'A' <= c <= 'F' {
        Some((c as nat - 55) as nat)
    } else {
        None
    }
}

/// The value of a run of digits, or `None` where a character is no digit.
pub open spec fn digits_value(s: Seq<char>, radix: nat) -> Option<nat>
    decreases s.len(),
{
    if s.len() == 0 {
        Some(0)
    } else {
        match (digits_value(s.drop_last(), radix), digit_value(s.last(), radix)) {
            (Some(a), Some(d)) => Some(a * radix + d),
            _ => None,
        }
    }
}

/// The number that `s` spells in base `radix`: an optional plus sign, then at least one digit, and a
/// value of at most `max`.
pub open spec fn number(s: Seq<char>, radix: nat, max: nat) -> Option<nat> {
    let body = if s.len() > 0 && s[0] == '+' {
        s.skip(1)
    } else {
        s
    };
    if body.len() == 0 {
        None
    } else {
        match digits_value(body, radix) {
            Some(n) if n <= max => Some(n),
            _ => None,
        }
    }
}

fn digit_of(c: char, radix: u64) -> (r: Option<u64>)
    requires
        radix == 10 || radix == 16,
    ensures
        match r {
            Some(d) => digit_value(c, radix as nat) == Some(d as nat) && d < radix,
            None => digit_value(c, radix as nat) is None,
        },
{
    if '0' <= c && c <= '9' {
        Some((c as u32 - 48) as u64)
    } else if radix == 16 && 'a' <= c && c <= 'f' {
        Some((c as u32 - 87) as u64)
    } else if radix == 16 && 'A' <= c && c <= 'F' {
        Some((c as u32 - 55) as u64)
    } else {
        None
    }
}

/// The number that `s` spells in base `radix`, if it spells one of at most `max`.
pub fn parse_number(s: &str, radix: u64, max: u64) -> (r: Option<u64>)
    requires
        radix == 10 || radix == 16,
    ensures
        match r {
            Some(n) => number(s@, radix as nat, max as nat) == Some(n as nat),
            None => number(s@, radix as nat, max as nat) is None,
        },
{
    let v = chars_of(s);
    let from: usize = if v.len() > 0 && v[0] == '+' {
        1
    } else {
        0
    };
    let ghost body = v@.skip(from as int);
    proof {
        assert(v@.skip(0) =~= v@);
    }
    if from == v.len() {
        return None;
    }
    let mut acc: u64 = 0;
    let mut over: bool = false;
    let mut i: usize = from;
    while i < v.len()
        invariant
            from <= i <= v@.len(),
            from <= 1,
            body == v@.skip(from as int),
            radix == 10 || radix == 16,
            acc <= max,
            !over ==> digits_value(body.take(i - from), radix as nat) == Some(acc as nat),
            over ==> match digits_value(body.take(i - from), radix as nat) {
                Some(n) => n > max,
                None => true,
            },
        decreases v@.len() - i,
    {
        let c = v[i];
        proof {
            assert(body.take(i - from + 1).drop_last() =~= body.take(i - from));
            assert(body.take(i - from + 1).last() == c);
        }
        match digit_of(c, radix) {
            None => {
                over = true;
            },
            Some(d) => {
                proof {
                    assert(acc * radix <= max * 16) by (nonlinear_arith)
                        requires
                            acc <= max,
                            radix <= 16,
                    ;
                    if over {
                        match digits_value(body.take(i - from), radix as nat) {
                            Some(n) => {
                                assert(n * (radix as nat) >= n) by (nonlinear_arith)
                                    requires
                                        radix >= 10,
                                ;
                            },
                            None => {},
                        }
                    }
                }
                if !over {
                    let next: u128 = (acc as u128) * (radix as u128) + (d as u128);
                    if next > max as u128 {
                        over = true;
                    } else {
                        acc = next as u64;
                    }
                }
            },
        }
        i = i + 1;
    }
    proof {
        assert(body.take(v@.len() - from) =~= body);
    }
    if over {
        None
    } else {
        Some(acc)
    }
}

/// The base-ten spelling of a number is read back as that number.
pub proof fn law_decimal_reads_back(n: nat, max: nat)
    requires
        n <= max,
    ensures
        number(decimal(n), 10, max) == Some(n),
{
    lemma_decimal_digits(n);
}

/// A base-ten spelling is never empty, and holds digits alone.
pub proof fn lemma_decimal_digits(n: nat)
    ensures
        decimal(n).len() > 0,
        forall|i: int| 0 <= i < decimal(n).len() ==> '0' <= #[trigger] decimal(n)[i] <= '9',
        digits_value(decimal(n), 10) == Some(n),
    decreases n,
{
    if n < 10 {
        assert(decimal(n).drop_last() =~= Seq::<char>::empty());
    } else {
        lemma_decimal_digits(n / 10);
        assert(decimal(n).drop_last() =~= decimal(n / 10));
    }
}

} // verus!
