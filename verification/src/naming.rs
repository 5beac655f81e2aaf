//! Names and short readouts: the stem of a focused program, free names for profiles and glyphs, an
//! uptime, the symbols of a rhythm.

use vstd::prelude::*;

use crate::text::{
    chars_of, decimal, decimal_int, finishes_with, join, joined, law_decimal_reads_back,
    lemma_texts_push, list_has, same_text, show_i64, show_two_digits, show_u64, string_of, texts, trim,
    trimmed, two_digits,
};

verus! {

// ── the stem of a program ───────────────────────────────────────────────────────────────────────

/// `s` behind its last path separator.
pub open spec fn file_part(s: Seq<char>) -> Seq<char>
    decreases s.len(),
{
    if s.len() == 0 || s.last() == '\\' || s.last() == '/' {
        Seq::empty()
    } else {
        file_part(s.drop_last()).push(s.last())
    }
}

/// `s` without `suffix` at its end, however often it stands there.
pub open spec fn without_all(s: Seq<char>, suffix: Seq<char>) -> Seq<char>
    decreases s.len(),
{
    if suffix.len() > 0 && finishes_with(s, suffix) {
        without_all(s.take(s.len() - suffix.len()), suffix)
    } else {
        s
    }
}

/// `s` without the first of `suffixes`, from index `from` on, that it ends with.
pub open spec fn without_one(s: Seq<char>, suffixes: Seq<Seq<char>>, from: nat) -> Seq<char>
    decreases suffixes.len() - from,
{
    if from >= suffixes.len() {
        s
    } else if finishes_with(s, suffixes[from as int]) {
        s.take(s.len() - suffixes[from as int].len())
    } else {
        without_one(s, suffixes, from + 1)
    }
}

/// The configurations that a packaged program is tagged with.
pub open spec fn config_tags() -> Seq<Seq<char>> {
    seq!["-Shipping"@, "-Development"@, "-Test"@, "-DebugGame"@]
}

/// The platforms that a packaged program is tagged with.
pub open spec fn platform_tags() -> Seq<Seq<char>> {
    seq!["-Win64"@, "-Win32"@, "-WinGDK"@, "-WinArm64"@, "-Linux"@, "-Mac"@]
}

/// The bare name of a program: its file name without extension, then without one configuration tag,
/// then without one platform tag. Nothing else is cut.
pub open spec fn stem(focused: Seq<char>) -> Seq<char> {
    let base = without_all(without_all(file_part(focused), ".exe"@), ".EXE"@);
    trimmed(without_one(without_one(base, config_tags(), 0), platform_tags(), 0))
}

fn ends_at(v: &[char], n: usize, suffix: &[char]) -> (r: bool)
    requires
        n <= v@.len(),
    ensures
        r == finishes_with(v@.take(n as int), suffix@),
{
    if suffix.len() > n {
        return false;
    }
    let from: usize = n - suffix.len();
    let r = crate::text::matches_at(v, suffix, from);
    proof {
        assert(v@.take(n as int).skip(from as int) =~= v@.subrange(
            from as int,
            from + suffix@.len(),
        ));
    }
    r
}

fn drop_all(v: &[char], n: usize, suffix: &str) -> (r: usize)
    requires
        n <= v@.len(),
    ensures
        r <= n,
        v@.take(r as int) == without_all(v@.take(n as int), suffix@),
{
    let s = chars_of(suffix);
    let mut k: usize = n;
    while s.len() > 0 && ends_at(v, k, &s)
        invariant
            k <= n <= v@.len(),
            s@ == suffix@,
            without_all(v@.take(k as int), suffix@) == without_all(v@.take(n as int), suffix@),
        decreases k,
    {
        proof {
            assert(v@.take(k as int).take(k - s@.len()) =~= v@.take(k - s@.len()));
        }
        k = k - s.len();
    }
    k
}

/// `s` without `suffix` at its end, however often it stands there.
pub fn strip_all(s: &str, suffix: &str) -> (r: String)
    ensures
        r@ == without_all(s@, suffix@),
{
    let v = chars_of(s);
    proof {
        assert(v@.take(v@.len() as int) =~= v@);
    }
    let n = drop_all(&v, v.len(), suffix);
    let r = string_of(&v, 0, n);
    proof {
        assert(r@ =~= v@.take(n as int));
    }
    r
}

fn drop_one(v: &[char], n: usize, suffixes: &[&'static str]) -> (r: usize)
    requires
        n <= v@.len(),
    ensures
        r <= n,
        v@.take(r as int) == without_one(
            v@.take(n as int),
            Seq::new(suffixes@.len(), |i: int| suffixes@[i]@),
            0,
        ),
{
    let ghost all = Seq::new(suffixes@.len(), |i: int| suffixes@[i]@);
    let mut i: usize = 0;
    while i < suffixes.len()
        invariant
            i <= suffixes@.len(),
            n <= v@.len(),
            all == Seq::new(suffixes@.len(), |i: int| suffixes@[i]@),
            without_one(v@.take(n as int), all, 0) == without_one(v@.take(n as int), all, i as nat),
        decreases suffixes@.len() - i,
    {
        let s = chars_of(suffixes[i]);
        if ends_at(v, n, &s) {
            proof {
                assert(v@.take(n as int).take(n - s@.len()) =~= v@.take(n - s@.len()));
            }
            return n - s.len();
        }
        i = i + 1;
    }
    n
}

fn file_chars(v: &[char]) -> (r: usize)
    ensures
        r <= v@.len(),
        v@.skip(r as int) == file_part(v@),
{
    let mut i: usize = v.len();
    let ghost all = file_part(v@);
    proof {
        assert(v@.take(v@.len() as int) =~= v@);
        assert(all + v@.skip(v@.len() as int) =~= all);
    }
    while i > 0 && v[i - 1] != '\\' && v[i - 1] != '/'
        invariant
            i <= v@.len(),
            all == file_part(v@.take(i as int)) + v@.skip(i as int),
        decreases i,
    {
        proof {
            let t = v@.take(i as int);
            assert(t.last() == v@[i - 1]);
            assert(t.drop_last() =~= v@.take(i - 1));
            assert(file_part(t.drop_last()).push(t.last()) + v@.skip(i as int) =~= file_part(
                v@.take(i - 1),
            ) + v@.skip(i - 1));
        }
        i = i - 1;
    }
    proof {
        if i > 0 {
            assert(v@.take(i as int).last() == v@[i - 1]);
        }
        assert(file_part(v@.take(i as int)) + v@.skip(i as int) =~= v@.skip(i as int));
    }
    i
}

fn rest_of(v: &[char], from: usize) -> (r: Vec<char>)
    requires
        from <= v@.len(),
    ensures
        r@ == v@.skip(from as int),
{
    let mut out: Vec<char> = Vec::new();
    let mut i: usize = from;
    while i < v.len()
        invariant
            from <= i <= v@.len(),
            out@ == v@.subrange(from as int, i as int),
        decreases v@.len() - i,
    {
        out.push(v[i]);
        proof {
            assert(v@.subrange(from as int, i as int).push(v@[i as int]) =~= v@.subrange(
                from as int,
                i as int + 1,
            ));
        }
        i = i + 1;
    }
    proof {
        assert(v@.subrange(from as int, v@.len() as int) =~= v@.skip(from as int));
    }
    out
}

/// The bare name of a program.
pub fn app_stem(focused: &str) -> (r: String)
    ensures
        r@ == stem(focused@),
{
    let all = chars_of(focused);
    let from = file_chars(&all);
    let v = rest_of(&all, from);
    proof {
        assert(v@.take(v@.len() as int) =~= v@);
    }
    let n0 = drop_all(&v, v.len(), ".exe");
    let n1 = drop_all(&v, n0, ".EXE");
    let configs: [&'static str; 4] = ["-Shipping", "-Development", "-Test", "-DebugGame"];
    let n2 = drop_one(&v, n1, &configs);
    let platforms: [&'static str; 6] = [
        "-Win64",
        "-Win32",
        "-WinGDK",
        "-WinArm64",
        "-Linux",
        "-Mac",
    ];
    let n3 = drop_one(&v, n2, &platforms);
    proof {
        assert(Seq::new(configs@.len(), |i: int| configs@[i]@) =~= config_tags());
        assert(Seq::new(platforms@.len(), |i: int| platforms@[i]@) =~= platform_tags());
    }
    let s = string_of(&v, 0, n3);
    proof {
        assert(s@ =~= v@.take(n3 as int));
    }
    trim(s.as_str())
}

// ── a free profile name ─────────────────────────────────────────────────────────────────────────

/// Nothing says what a profile could be called: no program is focused, no effect is shown and no DPI
/// is set.
pub open spec fn is_nameless(focused: Seq<char>, dpi: int, effect: Seq<char>) -> bool {
    !(stem(focused).len() > 0 && stem(focused) != "—"@) && effect.len() == 0 && dpi <= 0
}

/// The name that a captured profile is offered: the focused program's, else what its DPI and effect
/// say, else "profile" with a number.
pub open spec fn seed_name(focused: Seq<char>, dpi: int, effect: Seq<char>) -> Seq<char> {
    if stem(focused).len() > 0 && stem(focused) != "—"@ {
        stem(focused)
    } else if effect.len() > 0 {
        decimal_int(dpi) + " "@ + effect
    } else if dpi > 0 {
        decimal_int(dpi) + " dpi"@
    } else {
        "profile"@
    }
}

/// The `n`th name to try: the seed, then the seed with 2, 3 and so on behind it. One that is always
/// numbered has 1 behind it at first.
pub open spec fn nth_name(root: Seq<char>, numbered: bool, n: nat) -> Seq<char> {
    if n == 0 && !numbered {
        root
    } else {
        root + " "@ + decimal(n + 1)
    }
}

/// The search for a name that no profile has.
pub struct NameSearch {
    pub root: String,
    /// Whether the first name has a number too.
    pub numbered: bool,
    /// How many names were found taken.
    pub tried: u64,
}

/// Starts the search for a name.
pub fn refresh_profile_suggestion(focused: &str, dpi: i32, effect: &str) -> (r: NameSearch)
    ensures
        r.root@ == seed_name(focused@, dpi as int, effect@),
        r.numbered == is_nameless(focused@, dpi as int, effect@),
        r.tried == 0,
{
    let base = app_stem(focused);
    if !base.as_str().is_empty() && !same_text(base.as_str(), "—") {
        return NameSearch { root: base, numbered: false, tried: 0 };
    }
    if effect.is_empty() && dpi <= 0 {
        return NameSearch { root: "profile".to_owned(), numbered: true, tried: 0 };
    }
    let mut root = show_i64(dpi as i64);
    if !effect.is_empty() {
        root.append(" ");
        root.append(effect);
    } else {
        root.append(" dpi");
    }
    NameSearch { root, numbered: false, tried: 0 }
}

impl NameSearch {
    /// The name to try now.
    pub fn candidate(&self) -> (r: String)
        requires
            self.tried < u64::MAX,
        ensures
            r@ == nth_name(self.root@, self.numbered, self.tried as nat),
    {
        if self.tried == 0 && !self.numbered {
            self.root.clone()
        } else {
            let mut s = self.root.clone();
            s.append(" ");
            s.append(show_u64(self.tried + 1).as_str());
            s
        }
    }

    /// Takes in whether the name is taken; the name once one is free.
    pub fn step(&mut self, taken: bool) -> (r: Option<String>)
        requires
            old(self).tried < u64::MAX,
        ensures
            final(self).root == old(self).root,
            final(self).numbered == old(self).numbered,
            taken ==> r is None && final(self).tried == old(self).tried + 1,
            !taken ==> final(self).tried == old(self).tried && (r matches Some(s) && s@ == nth_name(
                old(self).root@,
                old(self).numbered,
                old(self).tried as nat,
            )),
    {
        if taken {
            self.tried = self.tried + 1;
            None
        } else {
            Some(self.candidate())
        }
    }
}

/// No name is tried twice.
pub proof fn law_names_tried_differ(root: Seq<char>, numbered: bool, m: nat, n: nat)
    requires
        m != n,
    ensures
        nth_name(root, numbered, m) != nth_name(root, numbered, n),
{
    let max = m + n + 1;
    law_decimal_reads_back(m + 1, max);
    law_decimal_reads_back(n + 1, max);
    reveal_strlit(" ");
    crate::text::lemma_decimal_digits(m + 1);
    crate::text::lemma_decimal_digits(n + 1);
    let a = nth_name(root, numbered, m);
    let b = nth_name(root, numbered, n);
    if (m == 0 || n == 0) && !numbered {
        assert(a.len() != b.len());
    } else {
        let from = root.len() + 1;
        assert(a.skip(from as int) =~= decimal(m + 1));
        assert(b.skip(from as int) =~= decimal(n + 1));
    }
}

// ── a free glyph name ───────────────────────────────────────────────────────────────────────────

/// The `i`th automatic name of a glyph.
pub open spec fn glyph_name(i: nat) -> Seq<char> {
    "glyph_"@ + decimal(i)
}

/// `i` is the least number, from one on, whose automatic name is not in use.
pub open spec fn first_free_glyph(names: Seq<Seq<char>>, i: nat) -> bool {
    &&& i >= 1
    &&& !names.contains(glyph_name(i))
    &&& forall|j: nat| 1 <= j < i ==> names.contains(#[trigger] glyph_name(j))
}

/// Automatic names of different numbers differ.
pub proof fn lemma_glyph_names_differ(i: nat, j: nat)
    requires
        glyph_name(i) == glyph_name(j),
    ensures
        i == j,
{
    law_decimal_reads_back(i, i + j);
    law_decimal_reads_back(j, i + j);
    let n = "glyph_"@.len();
    assert(glyph_name(i).skip(n as int) =~= decimal(i));
    assert(glyph_name(j).skip(n as int) =~= decimal(j));
}

/// One of the first `names.len() + 1` automatic names is free.
pub proof fn law_some_glyph_name_is_free(names: Seq<Seq<char>>)
    ensures
        exists|i: nat| 1 <= i <= names.len() + 1 && !names.contains(#[trigger] glyph_name(i)),
{
    let n = names.len() + 1;
    if forall|i: nat| 1 <= i <= n ==> names.contains(#[trigger] glyph_name(i)) {
        let at = |i: int| choose|q: int| 0 <= q < names.len() && names[q] == glyph_name(i as nat);
        let all = vstd::set_lib::set_int_range(1, n as int + 1);
        let holes = vstd::set_lib::set_int_range(0, names.len() as int);
        vstd::set_lib::lemma_int_range(1, n as int + 1);
        vstd::set_lib::lemma_int_range(0, names.len() as int);
        let image = all.map(at);
        assert forall|i: int| all.contains(i) implies 0 <= #[trigger] at(i) < names.len()
            && names[at(i)] == glyph_name(i as nat) by {
            assert(names.contains(glyph_name(i as nat)));
        }
        assert(image.subset_of(holes)) by {
            assert forall|q: int| image.contains(q) implies holes.contains(q) by {
                let i = choose|i: int| all.contains(i) && at(i) == q;
                assert(0 <= at(i) < names.len());
            }
        }
        assert forall|x: int, y: int|
            all.contains(x) && all.contains(y) && #[trigger] at(x) == #[trigger] at(y) implies x
            == y by {
            assert(glyph_name(x as nat) == glyph_name(y as nat));
            lemma_glyph_names_differ(x as nat, y as nat);
        }
        vstd::set_lib::lemma_map_size(all, image, at);
        vstd::set_lib::lemma_len_subset(image, holes);
    }
}

/// The first automatic name that no glyph has.
pub fn free_glyph_name(names: &Vec<String>) -> (r: String)
    requires
        names@.len() < usize::MAX,
    ensures
        exists|i: nat| first_free_glyph(texts(names@), i) && r@ == #[trigger] glyph_name(i),
{
    let n: usize = names.len();
    let mut i: usize = 1;
    while i <= n
        invariant
            1 <= i <= n + 1,
            n == names@.len(),
            n < usize::MAX,
            forall|j: nat| 1 <= j < i ==> texts(names@).contains(#[trigger] glyph_name(j)),
        decreases n + 1 - i,
    {
        let mut s = "glyph_".to_owned();
        s.append(show_u64(i as u64).as_str());
        if !list_has(names, s.as_str()) {
            proof {
                assert(first_free_glyph(texts(names@), i as nat));
                assert(s@ == glyph_name(i as nat));
            }
            return s;
        }
        i = i + 1;
    }
    let mut s = "glyph_".to_owned();
    s.append(show_u64(i as u64).as_str());
    proof {
        law_some_glyph_name_is_free(texts(names@));
        let k = choose|k: nat|
            1 <= k <= texts(names@).len() + 1 && !texts(names@).contains(#[trigger] glyph_name(k));
        assert(k == i);
        assert(first_free_glyph(texts(names@), i as nat));
        assert(s@ == glyph_name(i as nat));
    }
    s
}

// ── an uptime ───────────────────────────────────────────────────────────────────────────────────

/// A time in milliseconds in its two largest units: days and hours, hours and minutes, minutes and
/// seconds, or seconds alone.
pub open spec fn uptime(ms: nat) -> Seq<char> {
    let s = ms / 1000;
    let (d, h, m, sec) = (s / 86400, s % 86400 / 3600, s % 3600 / 60, s % 60);
    if d > 0 {
        decimal(d) + "d "@ + two_digits(h) + "h"@
    } else if h > 0 {
        decimal(h) + "h "@ + two_digits(m) + "m"@
    } else if m > 0 {
        decimal(m) + "m "@ + two_digits(sec) + "s"@
    } else {
        decimal(sec) + "s"@
    }
}

fn two_units(a: u64, x: &str, b: u64, y: &str) -> (r: String)
    ensures
        r@ == decimal(a as nat) + x@ + two_digits(b as nat) + y@,
{
    let mut s = show_u64(a);
    s.append(x);
    s.append(show_two_digits(b).as_str());
    s.append(y);
    s
}

/// A time in milliseconds in its two largest units.
pub fn fmt_uptime(ms: u64) -> (r: String)
    ensures
        r@ == uptime(ms as nat),
{
    let s: u64 = ms / 1000;
    let d: u64 = s / 86400;
    let h: u64 = s % 86400 / 3600;
    let m: u64 = s % 3600 / 60;
    let sec: u64 = s % 60;
    if d > 0 {
        two_units(d, "d ", h, "h")
    } else if h > 0 {
        two_units(h, "h ", m, "m")
    } else if m > 0 {
        two_units(m, "m ", sec, "s")
    } else {
        let mut t = show_u64(sec);
        t.append("s");
        t
    }
}

// ── the symbols of a rhythm ─────────────────────────────────────────────────────────────────────

/// One beat of a rhythm.
#[derive(Clone, Copy, Debug, PartialEq, Eq, Structural)]
pub enum Beat {
    Tap,
    Hold,
}

/// The symbol of a beat.
pub open spec fn beat_symbol(b: Beat) -> Seq<char> {
    match b {
        Beat::Tap => "●"@,
        Beat::Hold => "▬"@,
    }
}

/// The symbols of a rhythm of so many taps and a hold.
pub open spec fn rhythm(taps: nat) -> Seq<char> {
    joined(Seq::new(taps, |i: int| "●"@).push("▬"@), " "@)
}

/// The symbols of a rhythm of so many taps and a hold.
pub fn rhythm_symbols(taps: u8) -> (r: String)
    ensures
        r@ == rhythm(taps as nat),
{
    let mut v: Vec<String> = Vec::new();
    let mut i: u8 = 0;
    proof {
        assert(texts(v@) =~= Seq::new(0nat, |i: int| "●"@));
    }
    while i < taps
        invariant
            i <= taps,
            texts(v@) == Seq::new(i as nat, |i: int| "●"@),
        decreases taps - i,
    {
        let s: String = "●".to_owned();
        proof {
            lemma_texts_push(v@, s);
            assert(Seq::new(i as nat, |i: int| "●"@).push("●"@) =~= Seq::new(
                (i + 1) as nat,
                |i: int| "●"@,
            ));
        }
        v.push(s);
        i = i + 1;
    }
    let s: String = "▬".to_owned();
    proof {
        lemma_texts_push(v@, s);
    }
    v.push(s);
    join(&v, " ")
}

/// The symbols of a phrase; one that does not end in a hold is a toggle and is marked so.
pub open spec fn phrase(beats: Seq<Beat>) -> Seq<Seq<char>> {
    let own = Seq::new(beats.len(), |i: int| beat_symbol(beats[i]));
    if beats.len() > 0 && beats.last() == Beat::Hold {
        own
    } else {
        own.push("↔"@)
    }
}

/// The symbols of a phrase.
pub fn phrase_symbols(beats: &Vec<Beat>) -> (r: String)
    ensures
        r@ == joined(phrase(beats@), " "@),
{
    let mut v: Vec<String> = Vec::new();
    let mut i: usize = 0;
    while i < beats.len()
        invariant
            i <= beats@.len(),
            v@.len() == i,
            forall|j: int| 0 <= j < i ==> (#[trigger] v@[j])@ == beat_symbol(beats@[j]),
        decreases beats@.len() - i,
    {
        v.push(
            match beats[i] {
                Beat::Tap => "●".to_owned(),
                Beat::Hold => "▬".to_owned(),
            },
        );
        i = i + 1;
    }
    let n: usize = beats.len();
    let held = n > 0 && beats[n - 1] == Beat::Hold;
    proof {
        assert(texts(v@) =~= Seq::new(beats@.len(), |i: int| beat_symbol(beats@[i])));
    }
    if !held {
        let s: String = "↔".to_owned();
        proof {
            lemma_texts_push(v@, s);
        }
        v.push(s);
    }
    join(&v, " ")
}

/// The activation rhythm as the panel shows it: as written, and in symbols. A rhythm that cannot be
/// read counts as a plain hold.
pub fn sync_activation_view(pattern: &str, parsed: &Option<Vec<Beat>>) -> (r: (String, String))
    ensures
        r.0@ == pattern@,
        r.1@ == joined(
            phrase(
                match *parsed {
                    Some(b) => b@,
                    None => seq![Beat::Hold],
                },
            ),
            " "@,
        ),
{
    let display = match parsed {
        Some(b) => phrase_symbols(b),
        None => {
            let mut hold: Vec<Beat> = Vec::new();
            hold.push(Beat::Hold);
            proof {
                assert(hold@ =~= seq![Beat::Hold]);
            }
            phrase_symbols(&hold)
        },
    };
    (pattern.to_owned(), display)
}

// ── laws ────────────────────────────────────────────────────────────────────────────────────────

/// The rhythm of so many taps and a hold is the phrase of those beats.
pub proof fn law_rhythm_is_phrase(taps: nat)
    ensures
        rhythm(taps) == joined(phrase(Seq::new(taps, |i: int| Beat::Tap).push(Beat::Hold)), " "@),
{
    let beats = Seq::new(taps, |i: int| Beat::Tap).push(Beat::Hold);
    assert(phrase(beats) =~= Seq::new(taps, |i: int| "●"@).push("▬"@));
}

} // verus!
