//! What the source text of a macro gives away without being run: the questions that it asks and the
//! options that it declares.

use vstd::prelude::*;

use crate::text::{
    alphanumeric, chars_of, find_at, find_from, has_text, is_alphanumeric, join, joined,
    lemma_find_at, lemma_texts_push, occurs_at, skip_space, string_of, texts, trim, trim_front,
    trimmed,
};

verus! {

// ── questions ───────────────────────────────────────────────────────────────────────────────────

/// The letters that may stand before a string literal.
pub open spec fn is_prefix_letter(c: char) -> bool {
    c == 'f' || c == 'F' || c == 'r' || c == 'R' || c == 'b' || c == 'B' || c == 'u' || c == 'U'
}

/// `s` without the prefix letters in front of it.
pub open spec fn after_prefix(s: Seq<char>) -> Seq<char>
    decreases s.len(),
{
    if s.len() > 0 && is_prefix_letter(s[0]) {
        after_prefix(s.drop_first())
    } else {
        s
    }
}

/// `s` up to the first `c`, or all of it.
pub open spec fn up_to(s: Seq<char>, c: char) -> Seq<char>
    decreases s.len(),
{
    if s.len() == 0 || s[0] == c {
        Seq::empty()
    } else {
        seq![s[0]] + up_to(s.drop_first(), c)
    }
}

/// The text of the string literal that an argument list begins with; nothing where it begins with
/// none.
pub open spec fn first_literal(s: Seq<char>) -> Seq<char> {
    let t = after_prefix(trim_front(s));
    if t.len() > 0 && (t[0] == '"' || t[0] == '\'') {
        up_to(t.skip(1), t[0])
    } else {
        Seq::empty()
    }
}

/// The character may be part of a name.
pub open spec fn extends_name(c: char) -> bool {
    alphanumeric(c) || c == '_'
}

/// An `ask(` at `at` is a call of its own: no longer name ends there.
pub open spec fn is_call(src: Seq<char>, at: int) -> bool {
    !(at > 0 && extends_name(src[at - 1]))
}

/// From `from` on: whether the source calls `ask`, and the questions of those calls that have a
/// literal one, in order.
pub open spec fn asks_from(src: Seq<char>, from: int) -> (bool, Seq<Seq<char>>)
    decreases src.len() - from,
    when 0 <= from <= src.len()
    via asks_from_decreases
{
    match find_at(src, "ask("@, from) {
        None => (false, Seq::empty()),
        Some(at) => {
            let rest = asks_from(src, at + 4);
            if !is_call(src, at) {
                rest
            } else {
                let q = first_literal(src.skip(at + 4));
                (
                    true,
                    if q.len() > 0 {
                        seq![q] + rest.1
                    } else {
                        rest.1
                    },
                )
            }
        },
    }
}

#[via_fn]
proof fn asks_from_decreases(src: Seq<char>, from: int) {
    reveal_strlit("ask(");
    lemma_find_at(src, "ask("@, from);
}

/// What the panel says of a source: nothing where it never asks; its questions; or that they are
/// computed.
pub open spec fn questions(src: Seq<char>) -> Option<Seq<char>> {
    let (any, qs) = asks_from(src, 0);
    if !any {
        None
    } else if qs.len() == 0 {
        Some("(question set at run time)"@)
    } else {
        Some(joined(qs, " · "@))
    }
}

fn skip_prefix(v: &[char], from: usize) -> (r: usize)
    requires
        from <= v@.len(),
    ensures
        from <= r <= v@.len(),
        v@.skip(r as int) == after_prefix(v@.skip(from as int)),
{
    let mut i: usize = from;
    while i < v.len() && (v[i] == 'f' || v[i] == 'F' || v[i] == 'r' || v[i] == 'R' || v[i] == 'b'
        || v[i] == 'B' || v[i] == 'u' || v[i] == 'U')
        invariant
            from <= i <= v@.len(),
            after_prefix(v@.skip(i as int)) == after_prefix(v@.skip(from as int)),
        decreases v@.len() - i,
    {
        proof {
            assert(v@.skip(i as int).drop_first() =~= v@.skip(i as int + 1));
        }
        i = i + 1;
    }
    i
}

fn take_up_to(v: &[char], from: usize, c: char) -> (r: String)
    requires
        from <= v@.len(),
    ensures
        r@ == up_to(v@.skip(from as int), c),
{
    let mut i: usize = from;
    let ghost all = up_to(v@.skip(from as int), c);
    proof {
        assert(v@.subrange(from as int, from as int) + all =~= all);
    }
    while i < v.len() && v[i] != c
        invariant
            from <= i <= v@.len(),
            all == v@.subrange(from as int, i as int) + up_to(v@.skip(i as int), c),
        decreases v@.len() - i,
    {
        proof {
            let rest = v@.skip(i as int);
            assert(rest[0] == v@[i as int]);
            assert(rest.drop_first() =~= v@.skip(i as int + 1));
            assert(v@.subrange(from as int, i as int) + (seq![rest[0]] + up_to(
                rest.drop_first(),
                c,
            )) =~= v@.subrange(from as int, i as int + 1) + up_to(v@.skip(i as int + 1), c));
        }
        i = i + 1;
    }
    proof {
        assert(up_to(v@.skip(i as int), c) =~= Seq::<char>::empty());
        assert(v@.subrange(from as int, i as int) + Seq::<char>::empty() =~= v@.subrange(
            from as int,
            i as int,
        ));
    }
    string_of(v, from, i)
}

fn literal_at(v: &[char], from: usize) -> (r: String)
    requires
        from <= v@.len(),
    ensures
        r@ == first_literal(v@.skip(from as int)),
{
    let a = skip_space(v, from);
    let b = skip_prefix(v, a);
    if b < v.len() && (v[b] == '"' || v[b] == '\'') {
        proof {
            assert(v@.skip(b as int)[0] == v@[b as int]);
            assert(v@.skip(b as int).skip(1) =~= v@.skip(b as int + 1));
        }
        take_up_to(v, b + 1, v[b])
    } else {
        String::new()
    }
}

/// What the panel says of a source: its questions, where it asks any.
pub fn beacon_questions(src: &str) -> (r: Option<String>)
    ensures
        match r {
            Some(s) => questions(src@) == Some(s@),
            None => questions(src@) is None,
        },
{
    let v = chars_of(src);
    let needle = chars_of("ask(");
    proof {
        reveal_strlit("ask(");
    }
    let mut any = false;
    let mut found: Vec<String> = Vec::new();
    let mut from: usize = 0;
    let mut more = true;
    let ghost all = asks_from(src@, 0);
    proof {
        assert(texts(found@) + all.1 =~= all.1);
    }
    while more
        invariant
            v@ == src@,
            needle@ == "ask("@,
            needle@.len() == 4,
            from <= v@.len(),
            all == asks_from(src@, 0),
            more ==> all.0 == (any || asks_from(src@, from as int).0),
            more ==> all.1 == texts(found@) + asks_from(src@, from as int).1,
            !more ==> all.0 == any && all.1 == texts(found@),
        decreases v@.len() - from + (if more { 1int } else { 0int }),
    {
        proof {
            lemma_find_at(src@, "ask("@, from as int);
        }
        match find_from(&v, &needle, from) {
            None => {
                proof {
                    assert(texts(found@) + Seq::<Seq<char>>::empty() =~= texts(found@));
                }
                more = false;
            },
            Some(at) => {
                let total: usize = v.len();
                let next: usize = at + 4;
                let longer = at > 0 && (is_alphanumeric(v[at - 1]) || v[at - 1] == '_');
                if !longer {
                    any = true;
                    let q = literal_at(&v, next);
                    let ghost rest = asks_from(src@, next as int).1;
                    if !q.as_str().is_empty() {
                        proof {
                            lemma_texts_push(found@, q);
                            assert(texts(found@) + (seq![q@] + rest) =~= texts(found@).push(q@)
                                + rest);
                        }
                        found.push(q);
                    }
                }
                from = next;
            },
        }
    }
    proof {
        assert(texts(found@).len() == found@.len());
    }
    if !any {
        None
    } else if found.len() == 0 {
        Some("(question set at run time)".to_owned())
    } else {
        Some(join(&found, " · "))
    }
}

/// A macro on disk that asks something.
pub struct BeaconMacro {
    pub name: String,
    pub asks: String,
}

/// The indices of those of the first `k` macros, name and source of each, that ask something.
pub open spec fn asking(macros: Seq<(String, String)>, k: nat) -> Seq<int>
    decreases k,
{
    if k == 0 || k > macros.len() {
        Seq::empty()
    } else {
        let before = asking(macros, (k - 1) as nat);
        if questions(macros[k - 1].1@) is Some {
            before.push(k - 1)
        } else {
            before
        }
    }
}

/// The macros that ask something, with what they ask.
pub fn refresh_beacon_macros(macros: &Vec<(String, String)>) -> (r: Vec<BeaconMacro>)
    ensures
        r@.len() == asking(macros@, macros@.len()).len(),
        forall|i: int|
            0 <= i < r@.len() ==> {
                let at = asking(macros@, macros@.len())[i];
                (#[trigger] r@[i]).name@ == macros@[at].0@ && questions(macros@[at].1@) == Some(
                    r@[i].asks@,
                )
            },
{
    let mut out: Vec<BeaconMacro> = Vec::new();
    let mut i: usize = 0;
    while i < macros.len()
        invariant
            i <= macros@.len(),
            out@.len() == asking(macros@, i as nat).len(),
            forall|j: int|
                0 <= j < out@.len() ==> {
                    let at = asking(macros@, i as nat)[j];
                    (#[trigger] out@[j]).name@ == macros@[at].0@ && questions(macros@[at].1@)
                        == Some(out@[j].asks@)
                },
        decreases macros@.len() - i,
    {
        let ghost before = out@;
        match beacon_questions(macros[i].1.as_str()) {
            Some(asks) => {
                out.push(BeaconMacro { name: macros[i].0.clone(), asks });
                proof {
                    assert forall|j: int| 0 <= j < out@.len() implies ({
                        let at = asking(macros@, i as nat + 1)[j];
                        (#[trigger] out@[j]).name@ == macros@[at].0@ && questions(macros@[at].1@)
                            == Some(out@[j].asks@)
                    }) by {
                        if j < before.len() {
                            assert(out@[j] == before[j]);
                        }
                    }
                }
            },
            None => {},
        }
        i = i + 1;
    }
    out
}

/// The source asks through the host: it holds `neuron.ask`.
pub fn has_ask(src: &str) -> (r: bool)
    ensures
        r == has_text(src@, "neuron.ask"@),
{
    crate::text::contains_text(src, "neuron.ask")
}

// ── options ─────────────────────────────────────────────────────────────────────────────────────

/// The end of the bracketed list that `s` begins with, from index `i` on at the given depth; the end
/// of `s` where it is not closed.
pub open spec fn bracket_end(s: Seq<char>, i: int, depth: nat) -> int
    decreases s.len() - i,
{
    if i >= s.len() {
        s.len() as int
    } else if s[i] == '[' {
        bracket_end(s, i + 1, depth + 1)
    } else if s[i] == ']' {
        if depth <= 1 {
            i + 1
        } else {
            bracket_end(s, i + 1, (depth - 1) as nat)
        }
    } else {
        bracket_end(s, i + 1, depth)
    }
}

/// How often `needle` stands in `s` from `from` on, counted without overlap.
pub open spec fn count_from(s: Seq<char>, needle: Seq<char>, from: int) -> nat
    decreases s.len() - from,
    when needle.len() > 0 && 0 <= from
    via count_from_decreases
{
    match find_at(s, needle, from) {
        Some(at) => 1 + count_from(s, needle, at + needle.len()),
        None => 0,
    }
}

#[via_fn]
proof fn count_from_decreases(s: Seq<char>, needle: Seq<char>, from: int) {
    lemma_find_at(s, needle, from);
}

/// The list literal that declares the options: from the first bracket behind `NEURON_OPTIONS` to the
/// one that closes it.
pub open spec fn options_list(src: Seq<char>) -> Option<Seq<char>> {
    match find_at(src, "NEURON_OPTIONS"@, 0) {
        None => None,
        Some(start) => match find_at(src, seq!['['], start) {
            None => None,
            Some(lb) => Some(src.skip(lb).take(bracket_end(src.skip(lb), 0, 0))),
        },
    }
}

/// How many options a source declares: one for each "key" in the list, in either quotes.
pub open spec fn option_count(src: Seq<char>) -> nat {
    match options_list(src) {
        None => 0,
        Some(list) => count_from(list, "\"key\""@, 0) + count_from(list, "'key'"@, 0),
    }
}

fn list_end(v: &[char], from: usize) -> (r: usize)
    requires
        from <= v@.len(),
    ensures
        from <= r <= v@.len(),
        r - from == bracket_end(v@.skip(from as int), 0, 0),
{
    let ghost s = v@.skip(from as int);
    let mut depth: usize = 0;
    let mut i: usize = from;
    while i < v.len()
        invariant
            from <= i <= v@.len(),
            s == v@.skip(from as int),
            depth <= i - from,
            bracket_end(s, 0, 0) == bracket_end(s, i - from, depth as nat),
        decreases v@.len() - i,
    {
        proof {
            assert(s[i - from] == v@[i as int]);
        }
        if v[i] == '[' {
            depth = depth + 1;
        } else if v[i] == ']' {
            if depth <= 1 {
                return i + 1;
            }
            depth = depth - 1;
        }
        i = i + 1;
    }
    i
}

fn count_matches(v: &[char], needle: &[char]) -> (r: usize)
    requires
        needle@.len() > 0,
    ensures
        r == count_from(v@, needle@, 0),
        r <= v@.len(),
{
    let mut n: usize = 0;
    let mut from: usize = 0;
    let mut more = true;
    while more
        invariant
            needle@.len() > 0,
            from <= v@.len(),
            n <= from,
            more ==> count_from(v@, needle@, 0) == n + count_from(v@, needle@, from as int),
            !more ==> count_from(v@, needle@, 0) == n,
        decreases v@.len() - from + (if more { 1int } else { 0int }),
    {
        let total: usize = v.len();
        match find_from(v, needle, from) {
            Some(at) => {
                from = at + needle.len();
                n = n + 1;
            },
            None => {
                more = false;
            },
        }
    }
    n
}

fn list_of(v: &[char], from: usize, to: usize) -> (r: Vec<char>)
    requires
        from <= to <= v@.len(),
    ensures
        r@ == v@.subrange(from as int, to as int),
{
    let mut out: Vec<char> = Vec::new();
    let mut i: usize = from;
    while i < to
        invariant
            from <= i <= to <= v@.len(),
            out@ == v@.subrange(from as int, i as int),
        decreases to - i,
    {
        out.push(v[i]);
        proof {
            assert(v@.subrange(from as int, i as int).push(v@[i as int]) =~= v@.subrange(
                from as int,
                i as int + 1,
            ));
        }
        i = i + 1;
    }
    out
}

/// How many options a source declares.
pub fn option_count_from_source(src: &str) -> (r: i32)
    requires
        2 * src@.len() <= i32::MAX,
    ensures
        r == option_count(src@),
{
    let v = chars_of(src);
    let name = chars_of("NEURON_OPTIONS");
    let start = match find_from(&v, &name, 0) {
        Some(i) => i,
        None => {
            return 0;
        },
    };
    let open: [char; 1] = ['['];
    proof {
        assert(open@ =~= seq!['[']);
    }
    let lb = match find_from(&v, &open, start) {
        Some(i) => i,
        None => {
            return 0;
        },
    };
    let end = list_end(&v, lb);
    let list = list_of(&v, lb, end);
    proof {
        assert(list@ =~= src@.skip(lb as int).take(end - lb));
        reveal_strlit("\"key\"");
        reveal_strlit("'key'");
    }
    let double = chars_of("\"key\"");
    let single = chars_of("'key'");
    let a: usize = count_matches(&list, &double);
    let b: usize = count_matches(&list, &single);
    (a + b) as i32
}

// ── errors ──────────────────────────────────────────────────────────────────────────────────────

/// The first line of a text, trimmed.
pub open spec fn line_one(s: Seq<char>) -> Seq<char> {
    trimmed(up_to(s, '\n'))
}

/// The first line of a text, trimmed.
pub fn first_line(s: &str) -> (r: String)
    ensures
        r@ == line_one(s@),
{
    let v = chars_of(s);
    proof {
        assert(v@.skip(0) =~= v@);
    }
    let line = take_up_to(&v, 0, '\n');
    trim(line.as_str())
}

// ── laws ────────────────────────────────────────────────────────────────────────────────────────

/// A source without the text `ask(` asks nothing.
pub proof fn law_no_ask_no_beacon(src: Seq<char>)
    requires
        !has_text(src, "ask("@),
    ensures
        questions(src) is None,
{
    lemma_find_at(src, "ask("@, 0);
    if find_at(src, "ask("@, 0) is Some {
        assert(occurs_at(src, "ask("@, find_at(src, "ask("@, 0)->0));
    }
}

/// A source that does not name its options declares none, whatever keys it holds elsewhere.
pub proof fn law_unnamed_options_count_zero(src: Seq<char>)
    requires
        !has_text(src, "NEURON_OPTIONS"@),
    ensures
        option_count(src) == 0,
{
    lemma_find_at(src, "NEURON_OPTIONS"@, 0);
    if find_at(src, "NEURON_OPTIONS"@, 0) is Some {
        assert(occurs_at(src, "NEURON_OPTIONS"@, find_at(src, "NEURON_OPTIONS"@, 0)->0));
    }
}

} // verus!
