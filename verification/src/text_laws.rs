//! What cutting, joining, trimming and writing numbers have to do with one another.

use vstd::prelude::*;

use crate::canvas::lemma_split_appends;
use crate::text::{
    all_trimmed, contains_text, decimal, digit, digit_value, digits_value, find_at, find_text,
    has_text, hex_digits, is_space, join, joined, law_decimal_reads_back,
    law_trimmed_has_no_outer_space, lemma_decimal_digits, lemma_find_at, list_has, nonempty, number,
    occurs_at, parse_number, same_text, show_hex4, show_i64, show_two_digits, show_u64, split_chars,
    split_first, split_on, split_once, starts_with, texts, trim, trim_all, trim_back, trim_front,
    trimmed, two_digits,
};

verus! {

// ── trimming ────────────────────────────────────────────────────────────────────────────────────

/// Blanks around a text do not count once it is trimmed.
pub proof fn law_blanks_around_do_not_count(s: Seq<char>)
    ensures
        trimmed(seq![' '] + s) == trimmed(s),
        trimmed(s.push(' ')) == trimmed(s),
{
    assert((seq![' '] + s).drop_first() =~= s);
    lemma_blank_behind(s);
}

proof fn lemma_blank_behind(s: Seq<char>)
    ensures
        trimmed(s.push(' ')) == trimmed(s),
    decreases s.len(),
{
    let p = s.push(' ');
    if s.len() == 0 {
        assert(p.drop_first() =~= s);
    } else if is_space(s[0]) {
        assert(p.drop_first() =~= s.drop_first().push(' '));
        lemma_blank_behind(s.drop_first());
    } else {
        assert(p[0] == s[0]);
        assert(trim_front(p) == p);
        assert(p.drop_last() =~= s);
    }
}

/// A text that neither begins nor ends with white space is trimmed already.
pub proof fn law_clean_text_is_trimmed(s: Seq<char>)
    requires
        s.len() > 0 ==> !is_space(s[0]) && !is_space(s.last()),
    ensures
        trimmed(s) == s,
{
}

/// Trimming takes white space off both ends and nothing else.
pub proof fn law_trimming_takes_white_space_alone(s: Seq<char>) -> (r: (int, int))
    ensures
        0 <= r.0 <= r.1 <= s.len(),
        trimmed(s) == s.subrange(r.0, r.1),
        forall|i: int| 0 <= i < r.0 ==> is_space(#[trigger] s[i]),
        forall|i: int| r.1 <= i < s.len() ==> is_space(#[trigger] s[i]),
{
    let a = lemma_front_cut(s);
    let t = trim_front(s);
    let b = lemma_back_cut(t);
    assert(t.take(b) =~= s.subrange(a, a + b));
    assert forall|i: int| a + b <= i < s.len() implies is_space(#[trigger] s[i]) by {
        assert(s[i] == t[i - a]);
    }
    (a, a + b)
}

proof fn lemma_front_cut(s: Seq<char>) -> (a: int)
    ensures
        0 <= a <= s.len(),
        trim_front(s) == s.skip(a),
        forall|i: int| 0 <= i < a ==> is_space(#[trigger] s[i]),
    decreases s.len(),
{
    if s.len() > 0 && is_space(s[0]) {
        let a = lemma_front_cut(s.drop_first());
        assert(s.drop_first().skip(a) =~= s.skip(a + 1));
        assert forall|i: int| 0 <= i < a + 1 implies is_space(#[trigger] s[i]) by {
            if i > 0 {
                assert(s[i] == s.drop_first()[i - 1]);
            }
        }
        a + 1
    } else {
        assert(s.skip(0) =~= s);
        0
    }
}

proof fn lemma_back_cut(s: Seq<char>) -> (b: int)
    ensures
        0 <= b <= s.len(),
        trim_back(s) == s.take(b),
        forall|i: int| b <= i < s.len() ==> is_space(#[trigger] s[i]),
    decreases s.len(),
{
    if s.len() > 0 && is_space(s.last()) {
        let b = lemma_back_cut(s.drop_last());
        assert(s.drop_last().take(b) =~= s.take(b));
        assert forall|i: int| b <= i < s.len() implies is_space(#[trigger] s[i]) by {
            if i < s.len() - 1 {
                assert(s[i] == s.drop_last()[i]);
            }
        }
        b
    } else {
        assert(s.take(s.len() as int) =~= s);
        s.len() as int
    }
}

/// A tab, a line's end and a blank are white space; letters, digits and the signs of a source are not.
pub proof fn law_white_space(c: char)
    ensures
        is_space(' ') && is_space('\t') && is_space('\n') && is_space('\r'),
        '!' <= c <= '~' ==> !is_space(c),
{
}

// ── cutting and joining ─────────────────────────────────────────────────────────────────────────

/// No character of `s` is one of `seps`.
pub open spec fn free_of(s: Seq<char>, seps: Seq<char>) -> bool {
    forall|i: int| 0 <= i < s.len() ==> !seps.contains(#[trigger] s[i])
}

/// What was joined with a separator is cut apart again into what was joined.
pub proof fn law_joined_is_cut_apart(ss: Seq<Seq<char>>, sep: char, seps: Seq<char>)
    requires
        ss.len() > 0,
        seps.contains(sep),
        forall|i: int| 0 <= i < ss.len() ==> free_of(#[trigger] ss[i], seps),
    ensures
        split_on(joined(ss, seq![sep]), seps) == ss,
    decreases ss.len(),
{
    let none = Seq::<char>::empty();
    let last = ss.last();
    assert(free_of(ss[ss.len() - 1], seps));
    if ss.len() == 1 {
        lemma_split_appends(none, last, seps);
        assert(none + last =~= last);
        assert(split_on(none, seps) =~= seq![none]);
        assert(split_on(last, seps) =~= ss);
    } else {
        let front = ss.drop_last();
        assert forall|i: int| 0 <= i < front.len() implies free_of(#[trigger] front[i], seps) by {
            assert(front[i] == ss[i]);
        }
        law_joined_is_cut_apart(front, sep, seps);
        let a = joined(front, seq![sep]);
        assert((a + seq![sep]).drop_last() =~= a);
        assert(split_on(a + seq![sep], seps) == front.push(none));
        lemma_split_appends(a + seq![sep], last, seps);
        assert(none + last =~= last);
        assert(split_on(a + seq![sep] + last, seps) =~= ss);
    }
}

/// Pieces that are neither empty nor padded are kept as they are, all of them, in order.
pub proof fn law_good_pieces_are_kept(ss: Seq<Seq<char>>)
    requires
        forall|i: int|
            0 <= i < ss.len() ==> (#[trigger] ss[i]).len() > 0 && trimmed(ss[i]) == ss[i],
    ensures
        nonempty(all_trimmed(ss)) == ss,
    decreases ss.len(),
{
    assert(all_trimmed(ss) =~= ss);
    lemma_none_empty(ss);
}

proof fn lemma_none_empty(ss: Seq<Seq<char>>)
    requires
        forall|i: int| 0 <= i < ss.len() ==> (#[trigger] ss[i]).len() > 0,
    ensures
        nonempty(ss) == ss,
    decreases ss.len(),
{
    if ss.len() > 0 {
        let front = ss.drop_last();
        assert forall|i: int| 0 <= i < front.len() implies (#[trigger] front[i]).len() > 0 by {
            assert(front[i] == ss[i]);
        }
        lemma_none_empty(front);
        assert(ss[ss.len() - 1].len() > 0);
        assert(front.push(ss.last()) =~= ss);
    }
}

/// A text is cut at the first place of a separator: what stands before it, and what stands behind it.
pub proof fn law_cut_at_the_first_place(a: Seq<char>, sep: Seq<char>, b: Seq<char>)
    requires
        forall|j: int| 0 <= j < a.len() ==> !occurs_at(a + sep + b, sep, j),
    ensures
        split_first(a + sep + b, sep) == Some((a, b)),
{
    let s = a + sep + b;
    assert(s.subrange(a.len() as int, (a.len() + sep.len()) as int) =~= sep);
    assert(occurs_at(s, sep, a.len() as int));
    lemma_find_at(s, sep, 0);
    assert(s.take(a.len() as int) =~= a);
    assert(s.skip((a.len() + sep.len()) as int) =~= b);
}

/// A text is cut at the first of its characters that is the separator.
pub proof fn law_cut_at_the_first_character(a: Seq<char>, c: char, b: Seq<char>)
    requires
        !a.contains(c),
    ensures
        split_first(a + seq![c] + b, seq![c]) == Some((a, b)),
{
    let s = a + seq![c] + b;
    assert forall|j: int| 0 <= j < a.len() implies !occurs_at(s, seq![c], j) by {
        if occurs_at(s, seq![c], j) {
            assert(s.subrange(j, j + 1)[0] == c);
            assert(s[j] == a[j]);
            assert(a.contains(a[j]));
        }
    }
    law_cut_at_the_first_place(a, seq![c], b);
}

/// What was cut in two fits together again, and where nothing was cut the separator stands nowhere.
pub proof fn law_cut_fits_together(s: Seq<char>, sep: Seq<char>)
    ensures
        match split_first(s, sep) {
            Some((a, b)) => a + sep + b == s,
            None => forall|i: int| !occurs_at(s, sep, i),
        },
{
    lemma_find_at(s, sep, 0);
    match find_at(s, sep, 0) {
        Some(i) => {
            assert(s.take(i) + sep + s.skip(i + sep.len()) =~= s) by {
                assert(s =~= s.take(i) + s.subrange(i, i + sep.len()) + s.skip(i + sep.len()));
            }
        },
        None => {},
    }
}

/// What is joined begins with its first member, a separator and the rest joined.
pub proof fn law_joined_from_the_front(s: Seq<char>, ss: Seq<Seq<char>>, sep: Seq<char>)
    requires
        ss.len() > 0,
    ensures
        joined(seq![s] + ss, sep) == s + sep + joined(ss, sep),
    decreases ss.len(),
{
    let all = seq![s] + ss;
    if ss.len() == 1 {
        assert(all.drop_last() =~= seq![s]);
        assert(joined(seq![s], sep) == s);
    } else {
        law_joined_from_the_front(s, ss.drop_last(), sep);
        assert(all.drop_last() =~= seq![s] + ss.drop_last());
        assert(all.last() == ss.last());
        assert(joined(all, sep) =~= s + sep + joined(ss, sep));
    }
}

/// One member alone is joined to itself, and nothing to nothing.
pub proof fn law_joined_of_one(s: Seq<char>, sep: Seq<char>)
    ensures
        joined(seq![s], sep) == s,
        joined(Seq::<Seq<char>>::empty(), sep) == Seq::<char>::empty(),
{
}

// ── numbers ─────────────────────────────────────────────────────────────────────────────────────

/// A number that is written down ends in the digit of its ones, behind its tens written down.
pub proof fn law_decimal_is_positional(tens: nat, ones: nat)
    requires
        ones < 10,
    ensures
        decimal(ones) == seq![digit(ones)],
        tens > 0 ==> decimal(tens * 10 + ones) == decimal(tens).push(digit(ones)),
        digit(ones) as int == '0' as int + ones,
{
    assert((tens * 10 + ones) / 10 == tens);
    assert((tens * 10 + ones) % 10 == ones);
}

/// Two numbers that are written alike are the same.
pub proof fn law_decimals_tell_numbers_apart(m: nat, n: nat)
    requires
        decimal(m) == decimal(n),
    ensures
        m == n,
{
    lemma_decimal_digits(m);
    lemma_decimal_digits(n);
}

/// A plus sign before a number does not change it; nothing and a lone sign are no numbers.
pub proof fn law_sign_before_a_number(n: nat, max: nat)
    requires
        n <= max,
    ensures
        number(seq!['+'] + decimal(n), 10, max) == Some(n),
        number(Seq::<char>::empty(), 10, max) is None,
        number(seq!['+'], 10, max) is None,
        number(seq!['-'] + decimal(n), 10, max) is None,
{
    lemma_decimal_digits(n);
    assert((seq!['+'] + decimal(n)).skip(1) =~= decimal(n));
    assert(seq!['+'].skip(1) =~= Seq::<char>::empty());
    let m = seq!['-'] + decimal(n);
    lemma_bad_digit(m, 10, 0);
}

proof fn lemma_bad_digit(s: Seq<char>, radix: nat, i: int)
    requires
        0 <= i < s.len(),
        digit_value(s[i], radix) is None,
    ensures
        digits_value(s, radix) is None,
    decreases s.len(),
{
    if i < s.len() - 1 {
        assert(s.drop_last()[i] == s[i]);
        lemma_bad_digit(s.drop_last(), radix, i);
    }
}

/// A number above the bound is none, however it is written.
pub proof fn law_number_above_the_bound_is_none(n: nat, max: nat)
    requires
        n > max,
    ensures
        number(decimal(n), 10, max) is None,
{
    lemma_decimal_digits(n);
}

/// A text with any character that is no digit spells no number, but for one sign in front.
pub proof fn law_no_number_with_other_characters(s: Seq<char>, i: int, radix: nat, max: nat)
    requires
        radix == 10 || radix == 16,
        0 <= i < s.len(),
        i > 0 || s[0] != '+',
        digit_value(s[i], radix) is None,
    ensures
        number(s, radix, max) is None,
{
    if s[0] == '+' {
        assert(s.skip(1)[i - 1] == s[i]);
        lemma_bad_digit(s.skip(1), radix, i - 1);
    } else {
        lemma_bad_digit(s, radix, i);
    }
}

/// Four digits in base sixteen spell the number that they were written for.
pub proof fn law_four_hex_digits_read_back(n: nat)
    requires
        n <= 0xFFFF,
    ensures
        hex_digits(n, 4).len() == 4,
        number(hex_digits(n, 4), 16, 0xFFFF) == Some(n),
{
    reveal_with_fuel(hex_digits, 5);
    reveal_with_fuel(digits_value, 5);
    let h = hex_digits(n, 4);
    let d3 = n % 16;
    let d2 = (n / 16) % 16;
    let d1 = (n / 16 / 16) % 16;
    let d0 = (n / 16 / 16 / 16) % 16;
    assert(h =~= seq![digit(d0), digit(d1), digit(d2), digit(d3)]);
    lemma_hex_digit(d0);
    lemma_hex_digit(d1);
    lemma_hex_digit(d2);
    lemma_hex_digit(d3);
    assert(h.drop_last() =~= seq![digit(d0), digit(d1), digit(d2)]);
    assert(h.drop_last().drop_last() =~= seq![digit(d0), digit(d1)]);
    assert(h.drop_last().drop_last().drop_last() =~= seq![digit(d0)]);
    assert(h.drop_last().drop_last().drop_last().drop_last() =~= Seq::<char>::empty());
    assert(digits_value(h, 16) == Some((((0 * 16 + d0) * 16 + d1) * 16 + d2) * 16 + d3));
    assert(h[0] != '+');
}

proof fn lemma_hex_digit(d: nat)
    requires
        d < 16,
    ensures
        digit_value(digit(d), 16) == Some(d),
        digit(d) != '+',
{
}

/// Upper and lower case spell the same digit in base sixteen, and letters spell none in base ten.
pub proof fn law_digits_of_either_case(d: nat)
    requires
        10 <= d < 16,
    ensures
        digit_value((87 + d) as char, 16) == Some(d),
        digit_value((55 + d) as char, 16) == Some(d),
        digit_value((87 + d) as char, 10) is None,
        digit_value((55 + d) as char, 10) is None,
{
}

/// Two places hold what is written for a number below a hundred.
pub proof fn law_two_places(n: nat)
    requires
        n < 100,
    ensures
        two_digits(n).len() == 2,
        digits_value(two_digits(n), 10) == Some(n),
{
    reveal_with_fuel(decimal, 3);
    lemma_decimal_digits(n);
    if n < 10 {
        reveal_with_fuel(digits_value, 3);
        assert(two_digits(n).drop_last() =~= seq!['0']);
        assert(seq!['0'].drop_last() =~= Seq::<char>::empty());
    }
}

// ── the operations themselves ───────────────────────────────────────────────────────────────────

/// A number that is shown is read back, in either base.
pub proof fn law_shown_numbers_are_read_back(n: u64, s: String, t: &str, r: Option<u64>, m: u16, h: String, g: &str, q: Option<u64>)
    requires
        call_ensures(show_u64, (n,), s),
        t@ == s@,
        call_ensures(parse_number, (t, 10, u64::MAX), r),
        call_ensures(show_hex4, (m,), h),
        g@ == h@,
        call_ensures(parse_number, (g, 16, 0xFFFF), q),
    ensures
        r == Some(n),
        h@.len() == 4 && q == Some(m as u64),
{
    law_decimal_reads_back(n as nat, u64::MAX as nat);
    law_four_hex_digits_read_back(m as nat);
}

/// A negative number is shown with its sign, a number below ten in two places with a zero.
pub proof fn law_signs_and_places_are_shown(n: u64, a: i64, b: i64, s: String, p: String, q: String, two: String)
    requires
        n > 0 && n <= i64::MAX,
        a == n && b == -n,
        call_ensures(show_u64, (n,), s),
        call_ensures(show_i64, (a,), p),
        call_ensures(show_i64, (b,), q),
        call_ensures(show_two_digits, (n,), two),
    ensures
        p@ == s@,
        q@ == seq!['-'] + s@,
        n < 10 ==> two@ == seq!['0'] + s@,
        10 <= n < 100 ==> two@ == s@,
{
    if n < 100 {
        reveal_with_fuel(decimal, 3);
        assert(n < 10 ==> two@ =~= seq!['0'] + s@);
        assert(10 <= n ==> two@ =~= s@);
    }
}

/// A text is found in a list at its first place, and nowhere where it is not.
pub proof fn law_text_is_found_first(v: &Vec<String>, s: &str, r: Option<usize>, has: bool, i: int)
    requires
        call_ensures(find_text, (v, s), r),
        call_ensures(list_has, (v, s), has),
        0 <= i < v@.len(),
    ensures
        v@[i]@ == s@ ==> has && (r matches Some(k) && k <= i),
        r matches Some(k) ==> k < v@.len() && v@[k as int]@ == s@,
        has <==> r is Some,
{
    assert(texts(v@)[i] == v@[i]@);
}

/// A text holds each of its parts, and begins with its front; no text holds a longer one.
pub proof fn law_parts_are_held(a: Seq<char>, b: Seq<char>, c: Seq<char>, hay: &str, needle: &str, front: &str, r: bool, s: bool, same: bool)
    requires
        hay@ == a + b + c,
        needle@ == b,
        front@ == a,
        call_ensures(contains_text, (hay, needle), r),
        call_ensures(starts_with, (hay, front), s),
        call_ensures(same_text, (hay, needle), same),
    ensures
        r && s,
        same <==> a.len() == 0 && c.len() == 0,
{
    assert(hay@.subrange(a.len() as int, a.len() as int + b.len()) =~= b);
    assert(occurs_at(hay@, b, a.len() as int));
    assert(hay@.take(a.len() as int) =~= a);
    if a.len() == 0 && c.len() == 0 {
        assert(hay@ =~= b);
    }
    if same {
        assert(hay@.len() == b.len());
    }
}

/// No text holds one that is longer.
pub proof fn law_longer_text_is_not_held(hay: &str, needle: &str, r: bool, s: bool)
    requires
        needle@.len() > hay@.len(),
        call_ensures(contains_text, (hay, needle), r),
        call_ensures(starts_with, (hay, needle), s),
    ensures
        !r && !s,
{
}

/// What is joined is cut apart again, and what is cut apart fits together.
pub proof fn law_join_and_cut(v: &Vec<String>, sep: char, seps: &[char], s: String, t: &str, u: &str, r: Vec<String>)
    requires
        v@.len() > 0,
        u@ == seq![sep],
        seps@ == seq![sep],
        forall|i: int| 0 <= i < v@.len() ==> free_of((#[trigger] v@[i])@, seq![sep]),
        call_ensures(join, (v, u), s),
        t@ == s@,
        call_ensures(split_chars, (t, seps), r),
    ensures
        texts(r@) == texts(v@),
{
    assert(seps@[0] == sep);
    assert forall|i: int| 0 <= i < texts(v@).len() implies free_of(#[trigger] texts(v@)[i], seps@) by {
        assert(texts(v@)[i] == v@[i]@);
    }
    law_joined_is_cut_apart(texts(v@), sep, seps@);
}

/// A text is cut at the first place of its separator, and the parts fit together.
pub proof fn law_cut_once(s: &str, sep: &str, r: Option<(String, String)>)
    requires
        call_ensures(split_once, (s, sep), r),
    ensures
        r matches Some((a, b)) ==> s@ == a@ + sep@ + b@,
        r is None <==> !has_text(s@, sep@),
{
    law_cut_fits_together(s@, sep@);
    if let Some((a, b)) = r {
        assert(s@.subrange(a@.len() as int, a@.len() as int + sep@.len()) =~= sep@);
        assert(occurs_at(s@, sep@, a@.len() as int));
    }
}

/// Trimming takes the white space off the ends and nothing else; each of a list is trimmed for itself, and
/// the empty ones can be left out.
pub proof fn law_trims(s: &str, r: String, v: &Vec<String>, w: Vec<String>, i: int)
    requires
        call_ensures(trim, (s,), r),
        call_ensures(trim_all, (v,), w),
        0 <= i < v@.len(),
    ensures
        s@.len() > 0 && !is_space(s@[0]) && !is_space(s@.last()) ==> r@ == s@,
        r@.len() > 0 ==> !is_space(r@[0]) && !is_space(r@.last()),
        w@.len() == v@.len() && w@[i]@ == trimmed(v@[i]@),
{
    if s@.len() > 0 && !is_space(s@[0]) && !is_space(s@.last()) {
        law_clean_text_is_trimmed(s@);
    }
    law_trimmed_has_no_outer_space(s@);
    assert(texts(w@).len() == w@.len() && texts(v@).len() == v@.len());
    assert(texts(w@)[i] == w@[i]@);
    assert(texts(v@)[i] == v@[i]@);
}

} // verus!
