//! What the workshop of the macros, its sources and its bench have to do with one another.

use vstd::prelude::*;

use crate::canvas::{add_block, body_rows, node_count, rows};
use crate::constructor::Editor;
use crate::macros::{edited, find_parent, rebuilt, segments, MacroNode};
use crate::shared::{install, Shared};
use crate::source_scan::{
    after_prefix, asking, asks_from, beacon_questions, bracket_end, count_from, first_line,
    first_literal, has_ask, is_call, line_one, option_count_from_source, options_list, questions,
    refresh_beacon_macros, up_to, BeaconMacro,
};
use crate::text::{
    alphanumeric, decimal, find_at, has_text, lemma_find_at, occurs_at, texts, trim_front, trimmed,
};
use crate::text_laws::{law_joined_from_the_front, law_joined_of_one};
use crate::textmap::TextMap;
use crate::workshop::{
    catalog_request, collect_macro_ids, delete_macro_id, in_state, law_unbound_means_nothing_fires,
    macro_check, macro_deleted, macro_file, macro_ids, macro_loaded, macro_save, macro_saved,
    macro_test_name, macro_trigger_map, macros_reloaded, parse_error_text, refresh_macro_blocks,
    refresh_macro_catalog, register_failed, reopened_macro, run_diagnostics, steps_ids, triggers_of,
    Action, BeaconGate, BeaconTest, Bench, BenchSummary, BlocksStep, CatalogStep, CheckReport,
    MacroCard, MacroFile, ParseError, Rule, SaveStep,
};

verus! {

// ── macros and what fires them ──────────────────────────────────────────────────────────────────

/// A rule on a macro names it alone; a sequence names what its steps name, one after the other; any other
/// action names none. What was collected before stays in front.
pub proof fn law_macros_of_an_action(a: &Action, out: &mut Vec<String>, id: String)
    requires
        call_ensures(collect_macro_ids, (a, out), ()),
    ensures
        *a == Action::Macro(id) ==> texts(final(out)@) == texts(old(out)@).push(id@),
        *a == Action::Other ==> texts(final(out)@) == texts(old(out)@),
        texts(old(out)@) == texts(final(out)@).take(old(out)@.len() as int),
{
    assert(texts(old(out)@).len() == old(out)@.len());
}

/// The macros of a longer sequence are those of the shorter one and those of its last step.
pub proof fn law_macros_of_a_sequence(a: Vec<Action>, b: Vec<Action>, last: Action)
    requires
        b@ == a@.push(last),
    ensures
        macro_ids(Action::Sequence(b)) == macro_ids(Action::Sequence(a)) + macro_ids(last),
{
    reveal_with_fuel(steps_ids, 2);
    lemma_steps_prefix(a@, last, a@.len());
    assert(b@[b@.len() - 1] == last);
}

proof fn lemma_steps_prefix(a: Seq<Action>, last: Action, k: nat)
    requires
        k <= a.len(),
    ensures
        steps_ids(a.push(last), k) == steps_ids(a, k),
    decreases k,
{
    reveal_with_fuel(steps_ids, 2);
    if k > 0 {
        lemma_steps_prefix(a, last, (k - 1) as nat);
        assert(a.push(last)[k - 1] == a[k - 1]);
    }
}

/// A rule whose action names a macro is among what fires it, by its trigger.
pub proof fn law_rule_fires_its_macro(rules: Seq<Rule>, id: Seq<char>, k: nat, i: int)
    requires
        k <= rules.len(),
        0 <= i < k,
        macro_ids(rules[i].action).contains(id),
    ensures
        triggers_of(rules, id, k).contains(rules[i].trigger@),
    decreases k,
{
    let before = triggers_of(rules, id, (k - 1) as nat);
    let all = triggers_of(rules, id, k);
    let t = rules[i].trigger@;
    if i < k - 1 {
        law_rule_fires_its_macro(rules, id, (k - 1) as nat, i);
        let x = choose|x: int| 0 <= x < before.len() && before[x] == t;
        assert(all[x] == t);
    } else if !before.contains(t) {
        assert(all[before.len() as int] == t);
    }
}

/// What fires a macro is the trigger of a rule that names it.
pub proof fn law_only_rules_fire(rules: Seq<Rule>, id: Seq<char>, k: nat, x: int)
    requires
        k <= rules.len(),
        0 <= x < triggers_of(rules, id, k).len(),
    ensures
        exists|i: int|
            0 <= i < k && (#[trigger] rules[i]).trigger@ == triggers_of(rules, id, k)[x] && macro_ids(
                rules[i].action,
            ).contains(id),
    decreases k,
{
    let before = triggers_of(rules, id, (k - 1) as nat);
    if x < before.len() {
        law_only_rules_fire(rules, id, (k - 1) as nat, x);
        let i = choose|i: int|
            0 <= i < k - 1 && (#[trigger] rules[i]).trigger@ == before[x] && macro_ids(
                rules[i].action,
            ).contains(id);
        assert(rules[i].trigger@ == triggers_of(rules, id, k)[x]);
    } else {
        assert(rules[k - 1].trigger@ == triggers_of(rules, id, k)[x]);
    }
}

/// The trigger of a rule on a macro is found under the macro's name; a macro that no rule names has none.
pub proof fn law_triggers_are_found(rules: &Vec<Rule>, r: TextMap<Vec<String>>, i: int, id: String, other: Seq<char>)
    requires
        call_ensures(macro_trigger_map, (rules,), r),
        0 <= i < rules@.len(),
        rules@[i].action == Action::Macro(id),
        forall|j: int| 0 <= j < rules@.len() ==> !macro_ids((#[trigger] rules@[j]).action).contains(other),
    ensures
        r@.contains_key(id@),
        texts(r@[id@]@).contains(rules@[i].trigger@),
        !r@.contains_key(other),
{
    assert(macro_ids(rules@[i].action) =~= seq![id@]);
    assert(macro_ids(rules@[i].action)[0] == id@);
    law_rule_fires_its_macro(rules@, id@, rules@.len(), i);
    assert(triggers_of(rules@, id@, rules@.len()).len() > 0);
    assert(r@.contains_key(id@));
    law_unbound_means_nothing_fires(rules@, other, rules@.len());
    assert(!r@.contains_key(other));
}

/// A card shows its own file: its name, its steps and options, and all that fires it.
pub proof fn law_card_shows_its_macro(files: &Vec<MacroFile>, triggers: &TextMap<Vec<String>>, r: Vec<MacroCard>, i: int)
    requires
        triggers.wf(),
        forall|j: int| 0 <= j < files@.len() ==> 2 * (#[trigger] files@[j]).source@.len() <= i32::MAX,
        call_ensures(refresh_macro_catalog, (files, triggers), r),
        0 <= i < files@.len(),
    ensures
        r@.len() == files@.len(),
        r@[i].name@ == files@[i].id@,
        files@[i].parsed matches Some((s, n)) ==> r@[i].summary@ == s@ && r@[i].steps == n,
        files@[i].parsed is None ==> r@[i].summary@ == "couldn't read steps (syntax error?)"@ && r@[i].steps
            == 0,
        !triggers@.contains_key(files@[i].id@) ==> r@[i].trigger@ == "(unbound)"@,
        triggers@.contains_key(files@[i].id@) && triggers@[files@[i].id@]@.len() == 1 ==> r@[i].trigger@
            == triggers@[files@[i].id@]@[0]@,
        triggers@.contains_key(files@[i].id@) && triggers@[files@[i].id@]@.len() == 2 ==> r@[i].trigger@
            == triggers@[files@[i].id@]@[0]@ + "  ·  "@ + triggers@[files@[i].id@]@[1]@,
{
    assert(r@[i].name@ == files@[i].id@);
    if triggers@.contains_key(files@[i].id@) {
        let v = triggers@[files@[i].id@]@;
        let ls = texts(v);
        assert(ls.len() == v.len());
        if v.len() == 1 {
            assert(ls =~= seq![v[0]@]);
            law_joined_of_one(v[0]@, "  ·  "@);
        }
        if v.len() == 2 {
            assert(ls =~= seq![v[0]@] + seq![v[1]@]);
            law_joined_from_the_front(v[0]@, seq![v[1]@], "  ·  "@);
            law_joined_of_one(v[1]@, "  ·  "@);
        }
    }
}

/// The catalog is built by one at a time, and not at all for nothing.
pub proof fn law_catalog_is_built_once(n: usize, m: usize, a: &mut bool, b: &mut bool, r: CatalogStep, s: CatalogStep)
    requires
        call_ensures(catalog_request, (n, a), r),
        *old(b) == *final(a),
        call_ensures(catalog_request, (m, b), s),
    ensures
        r == CatalogStep::Empty <==> n == 0,
        n > 0 && !*old(a) ==> r == CatalogStep::Build,
        n > 0 && m > 0 ==> s == CatalogStep::Running,
        n == 0 ==> *final(a) == *old(a),
{
}

// ── what a source asks ──────────────────────────────────────────────────────────────────────────

/// A literal is what stands between its quotes, behind white space and the letters of a prefix.
pub proof fn law_literal_is_between_its_quotes(q: char, text: Seq<char>, rest: Seq<char>)
    requires
        q == '"' || q == '\'',
        forall|i: int| 0 <= i < text.len() ==> text[i] != q,
    ensures
        first_literal(seq![q] + text + seq![q] + rest) == text,
        first_literal(seq!['f'] + (seq![q] + text + seq![q] + rest)) == text,
{
    let s = seq![q] + text + seq![q] + rest;
    let f = seq!['f'] + s;
    assert(s[0] == q);
    lemma_no_blank(s);
    assert(after_prefix(s) == s);
    assert(s.skip(1) =~= text + seq![q] + rest);
    lemma_up_to(text, q, rest);
    lemma_no_blank(f);
    assert(f.drop_first() =~= s);
    assert(after_prefix(f) == after_prefix(s));
}

proof fn lemma_no_blank(s: Seq<char>)
    requires
        s.len() > 0,
        s[0] == '"' || s[0] == '\'' || s[0] == 'f',
    ensures
        trim_front(s) == s,
{
    reveal_with_fuel(trim_front, 2);
}

proof fn lemma_up_to(text: Seq<char>, q: char, rest: Seq<char>)
    requires
        forall|i: int| 0 <= i < text.len() ==> text[i] != q,
    ensures
        up_to(text + seq![q] + rest, q) == text,
    decreases text.len(),
{
    let s = text + seq![q] + rest;
    if text.len() > 0 {
        let t = text.drop_first();
        assert(s[0] == text[0] && text[0] != q);
        assert(s.drop_first() =~= t + seq![q] + rest);
        assert forall|i: int| 0 <= i < t.len() implies t[i] != q by {
            assert(t[i] == text[i + 1]);
        }
        lemma_up_to(t, q, rest);
        assert(seq![text[0]] + t =~= text);
    } else {
        assert(s[0] == q);
    }
}

/// What is no literal is none.
pub proof fn law_no_quotes_no_literal(c: char, rest: Seq<char>)
    requires
        c == 'x' || c == ')' || c == '1',
    ensures
        first_literal(seq![c] + rest).len() == 0,
{
    let s = seq![c] + rest;
    assert(s[0] == c);
    reveal_with_fuel(trim_front, 2);
    reveal_with_fuel(after_prefix, 2);
}

/// A message is its first line, without the white space around it.
pub proof fn law_first_line_ends_the_message(s: &str, r: String, line: Seq<char>, rest: Seq<char>)
    requires
        call_ensures(first_line, (s,), r),
        s@ == line + seq!['\n'] + rest,
        forall|i: int| 0 <= i < line.len() ==> line[i] != '\n',
    ensures
        r@ == trimmed(line),
{
    lemma_up_to(line, '\n', rest);
}

/// A message of one line is kept.
pub proof fn law_single_line_is_kept(s: &str, r: String)
    requires
        call_ensures(first_line, (s,), r),
        forall|i: int| 0 <= i < s@.len() ==> s@[i] != '\n',
    ensures
        r@ == trimmed(s@),
{
    lemma_up_to_end(s@, '\n');
}

proof fn lemma_up_to_end(s: Seq<char>, q: char)
    requires
        forall|i: int| 0 <= i < s.len() ==> s[i] != q,
    ensures
        up_to(s, q) == s,
    decreases s.len(),
{
    if s.len() > 0 {
        let t = s.drop_first();
        assert forall|i: int| 0 <= i < t.len() implies t[i] != q by {
            assert(t[i] == s[i + 1]);
        }
        lemma_up_to_end(t, q);
        assert(seq![s[0]] + t =~= s);
    }
}

/// Questions that are only set at run time are told as such.
pub proof fn law_unknown_question_is_told(src: &str, r: Option<String>)
    requires
        call_ensures(beacon_questions, (src,), r),
        asks_from(src@, 0).0,
        asks_from(src@, 0).1.len() == 0,
    ensures
        r matches Some(s) && s@ == "(question set at run time)"@,
{
}

/// A call with a literal question is told by its question.
pub proof fn law_one_question_is_told(src: &str, r: Option<String>, at: int)
    requires
        call_ensures(beacon_questions, (src,), r),
        find_at(src@, "ask("@, 0) == Some(at),
        find_at(src@, "ask("@, at + 4) is None,
        0 <= at <= src@.len() - 4,
        at == 0 || (!alphanumeric(src@[at - 1]) && src@[at - 1] != '_'),
        first_literal(src@.skip(at + 4)).len() > 0,
    ensures
        r matches Some(s) && s@ == first_literal(src@.skip(at + 4)),
{
    reveal_with_fuel(asks_from, 3);
    let q = first_literal(src@.skip(at + 4));
    assert(is_call(src@, at));
    assert(asks_from(src@, at + 4) == (false, Seq::<Seq<char>>::empty()));
    assert(asks_from(src@, 0).1 =~= seq![q]);
    law_joined_of_one(q, " · "@);
}

/// A longer name that ends in the word does not ask.
pub proof fn law_longer_name_does_not_ask(src: &str, r: Option<String>, at: int)
    requires
        call_ensures(beacon_questions, (src,), r),
        find_at(src@, "ask("@, 0) == Some(at),
        find_at(src@, "ask("@, at + 4) is None,
        0 < at <= src@.len() - 4,
        src@[at - 1] == '_' || alphanumeric(src@[at - 1]),
    ensures
        r is None,
{
    reveal_with_fuel(asks_from, 3);
    assert(!is_call(src@, at));
    assert(asks_from(src@, at + 4) == (false, Seq::<Seq<char>>::empty()));
}

/// Every macro that asks is listed, by its name and its questions.
pub proof fn law_asking_macros_are_listed(macros: Seq<(String, String)>, k: nat, i: int)
    requires
        k <= macros.len(),
        0 <= i < k,
    ensures
        questions(macros[i].1@) is Some <==> asking(macros, k).contains(i),
{
    lemma_asking(macros, k, i);
}

proof fn lemma_asking(macros: Seq<(String, String)>, k: nat, i: int)
    requires
        k <= macros.len(),
        0 <= i < macros.len(),
    ensures
        asking(macros, k).contains(i) <==> i < k && questions(macros[i].1@) is Some,
    decreases k,
{
    if k > 0 {
        lemma_asking(macros, (k - 1) as nat, i);
        let before = asking(macros, (k - 1) as nat);
        let all = asking(macros, k);
        if before.contains(i) {
            let x = choose|x: int| 0 <= x < before.len() && before[x] == i;
            assert(all[x] == i);
        }
        if i == k - 1 && questions(macros[i].1@) is Some {
            assert(all[before.len() as int] == i);
        }
        if all.contains(i) {
            let x = choose|x: int| 0 <= x < all.len() && all[x] == i;
            if x < before.len() {
                assert(before[x] == i);
            }
        }
    }
}

/// The list of options ends at the bracket that closes it; brackets within it do not end it.
pub proof fn law_list_ends_at_its_bracket(inner: Seq<char>, rest: Seq<char>)
    requires
        forall|i: int| 0 <= i < inner.len() ==> inner[i] != '[' && inner[i] != ']',
    ensures
        bracket_end(seq!['['] + inner + seq![']'] + rest, 0, 0) == inner.len() + 2,
        bracket_end(inner + seq![']'] + rest, 0, 2) == bracket_end(
            inner + seq![']'] + rest,
            inner.len() as int + 1,
            1,
        ),
{
    let s = seq!['['] + inner + seq![']'] + rest;
    assert(s[0] == '[');
    assert(bracket_end(s, 0, 0) == bracket_end(s, 1, 1));
    assert(s =~= seq!['['] + (inner + seq![']'] + rest));
    lemma_bracket(s, 1, inner.len() as int + 1, 1);
    assert(s[inner.len() as int + 1] == ']');
    let t = inner + seq![']'] + rest;
    lemma_bracket(t, 0, inner.len() as int, 2);
    assert(t[inner.len() as int] == ']');
}

proof fn lemma_bracket(s: Seq<char>, i: int, j: int, d: nat)
    requires
        0 <= i <= j < s.len(),
        forall|x: int| i <= x < j ==> s[x] != '[' && s[x] != ']',
    ensures
        bracket_end(s, i, d) == bracket_end(s, j, d),
    decreases j - i,
{
    if i < j {
        lemma_bracket(s, i + 1, j, d);
    }
}

/// A name in front of a list counts once more; a list without it counts none.
pub proof fn law_names_are_counted(name: Seq<char>, rest: Seq<char>)
    requires
        name.len() > 0,
    ensures
        count_from(name + rest, name, 0) == 1 + count_from(rest, name, 0),
        !has_text(rest, name) ==> count_from(rest, name, 0) == 0,
        has_text(rest, name) ==> count_from(rest, name, 0) > 0,
{
    let s = name + rest;
    assert(s.subrange(0, name.len() as int) =~= name);
    assert(occurs_at(s, name, 0));
    assert(find_at(s, name, 0) == Some(0int));
    lemma_count_shift(name, rest, name, 0);
    lemma_find_at(rest, name, 0);
    assert(count_from(s, name, 0) == 1 + count_from(s, name, name.len() as int));
}

proof fn lemma_count_shift(front: Seq<char>, rest: Seq<char>, name: Seq<char>, from: int)
    requires
        name.len() > 0,
        0 <= from,
    ensures
        count_from(front + rest, name, front.len() + from) == count_from(rest, name, from),
    decreases rest.len() - from + 1,
{
    lemma_find_shift(front, rest, name, from);
    lemma_find_at(rest, name, from);
    if let Some(at) = find_at(rest, name, from) {
        lemma_count_shift(front, rest, name, at + name.len());
        assert(front.len() + at + name.len() == front.len() + (at + name.len()));
    }
}

proof fn lemma_find_shift(front: Seq<char>, rest: Seq<char>, name: Seq<char>, from: int)
    requires
        0 <= from,
    ensures
        match find_at(rest, name, from) {
            Some(at) => find_at(front + rest, name, front.len() + from) == Some(front.len() + at),
            None => find_at(front + rest, name, front.len() + from) is None,
        },
    decreases rest.len() - from + 1,
{
    let s = front + rest;
    if from + name.len() <= rest.len() {
        assert(s.subrange(front.len() + from, front.len() + from + name.len()) =~= rest.subrange(
            from,
            from + name.len(),
        ));
        assert(occurs_at(s, name, front.len() + from) == occurs_at(rest, name, from));
        if !occurs_at(rest, name, from) {
            lemma_find_shift(front, rest, name, from + 1);
        }
    }
}

/// Options are counted by either quote, and there are none without a list of them.
pub proof fn law_options_are_counted(src: &str, r: i32, list: Seq<char>)
    requires
        2 * src@.len() <= i32::MAX,
        call_ensures(option_count_from_source, (src,), r),
    ensures
        options_list(src@) is None ==> r == 0,
        options_list(src@) == Some(list) && !has_text(list, "'key'"@) ==> r == count_from(list, "\"key\""@, 0),
        options_list(src@) == Some(list) && !has_text(list, "\"key\""@) ==> r == count_from(list, "'key'"@, 0),
{
    reveal_strlit("'key'");
    reveal_strlit("\"key\"");
    law_names_are_counted("'key'"@, list);
    law_names_are_counted("\"key\""@, list);
}

// ── the workshop's answers ──────────────────────────────────────────────────────────────────────

/// A checked source lists its definitions in order; a wrong one tells where it is wrong.
pub proof fn law_check_lists_definitions(result: &Result<Vec<String>, String>, r: CheckReport, i: int)
    requires
        call_ensures(macro_check, (result,), r),
    ensures
        *result matches Ok(defs) ==> r.lines@.len() == defs@.len() && (0 <= i < defs@.len() ==> r.lines@[i]@
            == "def "@ + defs@[i]@) && (0 <= i < defs@.len() && (defs@[i]@ == "macro"@ || defs@[i]@ == "main"@)
            ==> r.status@ == "syntax ok — has a macro(ctx) entry. Save to register, Test to run."@) && (defs@.len()
            == 0 ==> r.status@ == "syntax ok — but no `def macro(ctx):` entry point yet"@),
        *result matches Err(e) ==> r.lines@.len() == 0 && r.status@ == "syntax error: "@ + line_one(e@),
{
    if let Ok(defs) = *result {
        assert(texts(r.lines@).len() == r.lines@.len());
        assert(texts(defs@).len() == defs@.len());
        if 0 <= i < defs@.len() {
            assert(texts(r.lines@)[i] == r.lines@[i]@);
            assert(texts(defs@)[i] == defs@[i]@);
        }
    }
}

/// An error of the syntax tells its line; one of the host tells that the blocks could not be read.
pub proof fn law_parse_error_is_told(line: u32, msg: String, e: &ParseError, r: String)
    requires
        call_ensures(parse_error_text, (e,), r),
    ensures
        *e == (ParseError::Syntax { line, msg }) ==> r@ == "line "@ + decimal(line as nat) + ": "@ + line_one(
            msg@,
        ),
        *e == (ParseError::Host { msg }) ==> r@ == "couldn't read the blocks: "@ + line_one(msg@),
{
}

/// A macro is saved under its trimmed name, never without one and never while another save runs.
pub proof fn law_save_needs_a_name(name: &str, busy: bool, r: SaveStep)
    requires
        call_ensures(macro_save, (name, busy), r),
    ensures
        trimmed(name@).len() == 0 ==> (r matches SaveStep::Refused(Some(s)) && s@ == "name the macro first"@),
        trimmed(name@).len() > 0 && busy ==> r == SaveStep::Refused(None),
        trimmed(name@).len() > 0 && !busy ==> (r matches SaveStep::Register { name: n, status } && n@
            == trimmed(name@) && status@ == "registering '"@ + trimmed(name@) + "'…"@),
{
}

/// What is told of a save, a registration, a deletion and a reload.
pub proof fn law_answers_are_told(
    name: &str,
    error: &Option<String>,
    n: usize,
    saved: String,
    deleted: String,
    loaded: String,
    reloaded: String,
    failed: String,
)
    requires
        call_ensures(macro_saved, (name, error), saved),
        call_ensures(macro_deleted, (name, error), deleted),
        call_ensures(macro_loaded, (name,), loaded),
        call_ensures(macros_reloaded, (n,), reloaded),
        call_ensures(register_failed, (name,), failed),
    ensures
        *error is None ==> saved@ == "saved + registered '"@ + name@ + "' — bind it as a python macro"@
            && deleted@ == "deleted macro "@ + name@,
        *error matches Some(e) ==> saved@ == "save failed: "@ + line_one(e@) && deleted@ == "delete failed: "@
            + e@,
        loaded@ == "loaded '"@ + name@ + "' — edit it, then save"@,
        reloaded@ == "reloaded "@ + decimal(n as nat) + " macro(s) from disk"@,
        failed@ == "register failed: "@ + line_one(name@),
{
}

/// A macro without a name is tested under a name of its own and never deleted or opened again.
pub proof fn law_nameless_macro(name: &str, on_disk: bool, t: String, d: Option<String>, o: Option<String>)
    requires
        call_ensures(macro_test_name, (name,), t),
        call_ensures(delete_macro_id, (name,), d),
        call_ensures(reopened_macro, (name, on_disk), o),
    ensures
        trimmed(name@).len() == 0 ==> t@ == "__test__"@ && d is None && o is None,
        trimmed(name@).len() > 0 ==> t@ == trimmed(name@) && (d matches Some(n) && n@ == trimmed(name@)),
        trimmed(name@).len() > 0 && on_disk ==> (o matches Some(n) && n@ == trimmed(name@)),
        !on_disk ==> o is None,
{
}

/// One beacon waits at a time: a second test is refused until the first is answered.
pub proof fn law_one_beacon_waits(
    a: &mut BeaconGate,
    b: &mut BeaconGate,
    c: &mut BeaconGate,
    d: &mut BeaconGate,
    id: &str,
    r: BeaconTest,
    s: BeaconTest,
    t: BeaconTest,
)
    requires
        trimmed(id@).len() > 0,
        !old(a).waiting,
        call_ensures(BeaconGate::test_beacon, (a, id), r),
        *old(b) == *final(a),
        call_ensures(BeaconGate::test_beacon, (b, id), s),
        *old(c) == *final(b),
        call_ensures(BeaconGate::answered, (c,), ()),
        *old(d) == *final(c),
        call_ensures(BeaconGate::test_beacon, (d, id), t),
    ensures
        r matches BeaconTest::Fire { id: n, status } && n@ == trimmed(id@) && status@ == "mock-firing '"@
            + trimmed(id@) + "' — its beacon will appear; answer it (nothing real runs)"@,
        s is Refused,
        t is Fire,
{
}

/// A beacon that was fired goes on waiting only where it was dispatched.
pub proof fn law_beacon_waits_where_dispatched(g: &mut BeaconGate, what: &str, result: &str, r: String)
    requires
        old(g).waiting,
        call_ensures(BeaconGate::fired, (g, what, result), r),
    ensures
        final(g).waiting <==> has_text(result@, "dispatched"@),
        r@ == what@ + " · "@ + result@,
{
}

/// A source that does not ask has no asks to test; one that asks is tested under its name.
pub proof fn law_asks_are_tested(g: &mut BeaconGate, name: &str, source: &str, r: BeaconTest, asks: bool)
    requires
        call_ensures(BeaconGate::test_asks, (g, name, source), r),
        call_ensures(has_ask, (source,), asks),
        !old(g).waiting,
    ensures
        asks ==> (r matches BeaconTest::Fire { id, .. } && (trimmed(name@).len() == 0 ==> id@ == "draft"@) && (
        trimmed(name@).len() > 0 ==> id@ == trimmed(name@))) && final(g).waiting,
        !asks ==> r is Refused && !final(g).waiting,
{
}

/// What each station ended in is counted once.
pub proof fn law_stations_are_counted(states: Seq<Seq<char>>, last: Seq<char>, state: Seq<char>)
    ensures
        in_state(states.push(last), state, states.len() + 1) == in_state(states, state, states.len()) + (
        if last == state {
            1nat
        } else {
            0
        }),
        in_state(Seq::<Seq<char>>::empty(), state, 0) == 0,
{
    lemma_in_state(states, last, state, states.len());
}

proof fn lemma_in_state(states: Seq<Seq<char>>, last: Seq<char>, state: Seq<char>, k: nat)
    requires
        k <= states.len(),
    ensures
        in_state(states.push(last), state, k) == in_state(states, state, k),
    decreases k,
{
    if k > 0 {
        lemma_in_state(states, last, state, (k - 1) as nat);
        assert(states.push(last)[k - 1] == states[k - 1]);
    }
}

/// Where every station passed, all are passed and none failed or was skipped, in each place of the summary.
pub proof fn law_all_passed(states: &Vec<String>, r: BenchSummary, b: &mut Bench)
    requires
        call_ensures(run_diagnostics, (states,), r),
        call_ensures(Bench::ended, (b, states), ()),
    ensures
        (forall|i: int| 0 <= i < states@.len() ==> (#[trigger] states@[i])@ == "pass"@) ==> r.pass
            == states@.len() && r.fail == 0 && r.skip == 0,
        (forall|i: int| 0 <= i < states@.len() ==> (#[trigger] states@[i])@ == "fail"@) ==> r.fail
            == states@.len() && r.pass == 0 && r.skip == 0,
        (forall|i: int| 0 <= i < states@.len() ==> (#[trigger] states@[i])@ == "skip"@) ==> r.skip
            == states@.len() && r.pass == 0 && r.fail == 0,
        final(b).pass == r.pass && final(b).fail == r.fail && final(b).skip == r.skip && final(b).summary@
            == r.summary@ && !final(b).running,
        r.summary@ == decimal(r.pass as nat) + " passed · "@ + decimal(r.fail as nat) + " failed · "@
            + decimal(r.skip as nat) + " skipped"@,
{
    reveal_strlit("pass");
    reveal_strlit("fail");
    reveal_strlit("skip");
    assert("pass"@[0] == 'p' && "fail"@[0] == 'f' && "skip"@[0] == 's');
    let t = texts(states@);
    lemma_uniform(t, "pass"@, t.len());
    lemma_uniform(t, "fail"@, t.len());
    lemma_uniform(t, "skip"@, t.len());
}

proof fn lemma_uniform(t: Seq<Seq<char>>, s: Seq<char>, k: nat)
    requires
        k <= t.len(),
    ensures
        (forall|i: int| 0 <= i < t.len() ==> #[trigger] t[i] == s) ==> forall|o: Seq<char>|
            #[trigger] in_state(t, o, k) == (if o == s {
                k
            } else {
                0
            }),
    decreases k,
{
    if k > 0 {
        lemma_uniform(t, s, (k - 1) as nat);
        if forall|i: int| 0 <= i < t.len() ==> #[trigger] t[i] == s {
            assert forall|o: Seq<char>| #[trigger] in_state(t, o, k) == (if o == s {
                k
            } else {
                0
            }) by {
                assert(t[k - 1] == s);
                assert(in_state(t, o, (k - 1) as nat) == (if o == s {
                    (k - 1) as nat
                } else {
                    0
                }));
            }
        }
    }
}

/// The bench runs once at a time.
pub proof fn law_bench_runs_once(a: &mut Bench, b: &mut Bench, r: bool, s: bool)
    requires
        call_ensures(Bench::begin, (a,), r),
        *old(b) == *final(a),
        call_ensures(Bench::begin, (b,), s),
    ensures
        r <==> !old(a).running,
        !s,
        r ==> final(a).summary@ == "probing…"@,
        final(b).summary@ == final(a).summary@,
{
}

// ── the editor ──────────────────────────────────────────────────────────────────────────────────

/// An empty source clears the blocks; any other is parsed, by one at a time.
pub proof fn law_source_is_parsed_once(source: &str, r: BlocksStep, s: BlocksStep)
    requires
        call_ensures(refresh_macro_blocks, (source, false), r),
        call_ensures(refresh_macro_blocks, (source, true), s),
    ensures
        trimmed(source@).len() == 0 ==> r == BlocksStep::Clear && s == BlocksStep::Clear,
        trimmed(source@).len() > 0 ==> r == BlocksStep::Parse && s == BlocksStep::Wait,
{
}

/// A source that went in is the one that is shown; it is dirty where the code is in view.
pub proof fn law_source_is_shown(e: &mut Editor, source: String, asks: bool, s: &str)
    requires
        call_ensures(Editor::regenerate_source_only, (e, source), ()),
        s@ == source@,
        call_ensures(has_ask, (s,), asks),
    ensures
        final(e).source == source,
        final(e).has_ask == asks,
        old(e).code_view ==> final(e).source_dirty,
        !old(e).code_view ==> final(e).source_dirty == old(e).source_dirty,
        final(e).blocks == old(e).blocks,
{
}

/// A saved macro is loaded as it was saved, under its name; a missing one changes nothing.
pub proof fn law_saved_macro_is_loaded(e: &mut Editor, id: &str, saved: Option<String>, parse: bool)
    requires
        call_ensures(Editor::load_macro_into_editor, (e, id, saved), parse),
    ensures
        saved matches Some(src) ==> parse && final(e).name@ == id@ && final(e).source == src && final(
            e).has_ask == has_text(src@, "neuron.ask"@) && final(e).status@ == "loaded '"@ + id@
            + "' — edit it, then save"@,
        saved is None ==> !parse && *final(e) == *old(e),
{
}

/// A parse that failed keeps the steps and the blocks, and says why; one that went well takes the steps.
pub proof fn law_failed_parse_keeps_the_steps(
    e: &mut Editor,
    tree: &mut Vec<MacroNode>,
    result: Result<Vec<MacroNode>, ParseError>,
    sources: &Vec<String>,
)
    requires
        call_ensures(Editor::blocks_parsed, (e, tree, result, sources), ()),
    ensures
        !final(e).parsing,
        result matches Ok(nodes) ==> *final(tree) == nodes && final(e).parse_error@.len() == 0,
        result is Err ==> *final(tree) == *old(tree) && final(e).blocks == old(e).blocks,
        result matches Err(ParseError::Syntax { line, msg }) ==> final(e).parse_error@ == "line "@ + decimal(
            line as nat,
        ) + ": "@ + line_one(msg@),
{
}

/// An import that was parsed is the one that is applied; one that went well is gone, and without one there
/// is nothing to apply.
pub proof fn law_import_is_applied_once<I, L, F>(
    a: &mut Shared<I, L, F>,
    b: &mut Shared<I, L, F>,
    i: I,
    r: Result<&I, &'static str>,
    s: Result<&I, &'static str>,
)
    requires
        call_ensures(Shared::<I, L, F>::parse_import, (a, Some(i)), ()),
        call_ensures(Shared::<I, L, F>::apply_import, (&*final(a),), r),
        *old(b) == *final(a),
        call_ensures(Shared::<I, L, F>::import_applied, (b, true), ()),
        call_ensures(Shared::<I, L, F>::apply_import, (&*final(b),), s),
    ensures
        r matches Ok(x) && *x == i,
        s matches Err(e) && e@ == "nothing parsed"@,
        final(b).macro_tree == old(a).macro_tree && final(b).editor == old(a).editor && final(b).light == old(
            a).light && final(b).saver == old(a).saver,
{
}

/// An import that failed can be tried again.
pub proof fn law_failed_import_is_kept<I, L, F>(a: &mut Shared<I, L, F>)
    requires
        call_ensures(Shared::<I, L, F>::import_applied, (a, false), ()),
    ensures
        *final(a) == *old(a),
{
}

// ── texts by their names ────────────────────────────────────────────────────────────────────────

/// What was put under a name is found there, what was taken away is not, and other names keep theirs.
pub proof fn law_named_values<V>(
    a: &mut TextMap<V>,
    b: &mut TextMap<V>,
    key: &str,
    other: &str,
    v: V,
    got: Option<&V>,
    there: bool,
    gone: Option<V>,
    after: bool,
    before: bool,
    kept: bool,
)
    requires
        old(a).wf(),
        call_ensures(TextMap::<V>::contains, (&*old(a), other), before),
        call_ensures(TextMap::<V>::insert, (a, key, v), ()),
        call_ensures(TextMap::<V>::get, (&*final(a), key), got),
        call_ensures(TextMap::<V>::contains, (&*final(a), other), there),
        *old(b) == *final(a),
        call_ensures(TextMap::<V>::remove, (b, key), gone),
        call_ensures(TextMap::<V>::contains, (&*final(b), key), after),
        call_ensures(TextMap::<V>::contains, (&*final(b), other), kept),
        key@ != other@,
    ensures
        got matches Some(x) && *x == v,
        gone == Some(v),
        !after,
        there == before && kept == before,
{
}

/// Every macro with questions is listed in its order, by its name and its questions.
pub proof fn law_beacon_macros_are_listed(macros: &Vec<(String, String)>, r: Vec<BeaconMacro>, i: int, q: Option<String>)
    requires
        call_ensures(refresh_beacon_macros, (macros,), r),
        0 <= i < r@.len(),
    ensures
        exists|a: int|
            0 <= a < macros@.len() && (#[trigger] macros@[a]).0@ == r@[i].name@ && questions(macros@[a].1@) == Some(
                r@[i].asks@,
            ),
        r@.len() <= macros@.len(),
{
    lemma_asking_within(macros@, macros@.len());
    let a = asking(macros@, macros@.len())[i];
    assert(macros@[a].0@ == r@[i].name@);
}

proof fn lemma_asking_within(macros: Seq<(String, String)>, k: nat)
    requires
        k <= macros.len(),
    ensures
        asking(macros, k).len() <= k,
        forall|i: int| 0 <= i < asking(macros, k).len() ==> 0 <= #[trigger] asking(macros, k)[i] < k,
    decreases k,
{
    if k > 0 {
        lemma_asking_within(macros, (k - 1) as nat);
        let before = asking(macros, (k - 1) as nat);
        let all = asking(macros, k);
        assert forall|i: int| 0 <= i < all.len() implies 0 <= #[trigger] all[i] < k by {
            if i < before.len() {
                assert(all[i] == before[i]);
            }
        }
    }
}

/// A file's entry has its own name and source, and its steps where they could be read.
pub proof fn law_file_is_entered(id: &str, source: &str, r: MacroFile, summary: String, nodes: &Vec<MacroNode>, s: MacroFile)
    requires
        node_count(nodes@) <= i32::MAX,
        call_ensures(macro_file, (id, source, None::<(String, &Vec<MacroNode>)>), r),
        call_ensures(macro_file, (id, source, Some((summary, nodes))), s),
    ensures
        r.id@ == id@ && r.source@ == source@ && r.parsed is None,
        s.id@ == id@ && s.source@ == source@ && (s.parsed matches Some((t, n)) && t@ == summary@ && n == node_count(
            nodes@,
        )),
{
}

/// A tree that is shown anew leaves its name and status, and shows its source.
pub proof fn law_tree_is_shown_anew(e: &mut Editor, tree: &[MacroNode], source: String, sources: &Vec<String>)
    requires
        call_ensures(Editor::regenerate_from_tree, (e, tree, source, sources), ()),
    ensures
        final(e).source == source,
        final(e).has_ask == has_text(source@, "neuron.ask"@),
        old(e).code_view ==> final(e).source_dirty,
        !old(e).code_view ==> final(e).source_dirty == old(e).source_dirty,
        final(e).name == old(e).name && final(e).status == old(e).status && final(e).code_view == old(e).code_view,
        tree@.len() == 0 ==> final(e).blocks@.len() == 1,
        final(e).blocks@.len() > 0 && final(e).blocks@.last()@.row == "add"@ && final(
            e).blocks@.last()@.path.len() == 0 && final(e).blocks@.last()@.depth == 0,
{
    reveal_strlit("");
    let v = rows(final(e).blocks@);
    assert(v.len() == final(e).blocks@.len());
    assert(v.last() == add_block(""@, 0));
    if tree@.len() == 0 {
        assert(body_rows(tree@, 0, 0, ""@, texts(sources@)).len() == 0);
    }
}

/// Asking for the blocks of an empty source clears them and the tree; of any other leaves both until they
/// are parsed.
pub proof fn law_blocks_of_an_empty_source(
    e: &mut Editor,
    tree: &mut Vec<MacroNode>,
    source: &str,
    r: BlocksStep,
    n: &mut Editor,
)
    requires
        call_ensures(Editor::refresh_macro_blocks, (e, tree, source), r),
        call_ensures(Editor::note_macro_source, (n, source), ()),
    ensures
        trimmed(source@).len() == 0 ==> r == BlocksStep::Clear && final(tree)@.len() == 0 && final(e).blocks@.len()
            == 1 && final(e).parse_error@.len() == 0 && !final(e).parsing,
        trimmed(source@).len() > 0 ==> *final(tree) == *old(tree) && final(e).blocks == old(e).blocks && final(
            e).parsing && (r == BlocksStep::Wait <==> old(e).parsing),
        final(e).source == old(e).source && final(e).name == old(e).name,
        final(n).has_ask == has_text(source@, "neuron.ask"@) && final(n).source == old(n).source && final(
            n).blocks == old(n).blocks,
{
    if trimmed(source@).len() == 0 {
        assert(rows(final(e).blocks@).len() == final(e).blocks@.len());
    }
}

/// What is shared begins empty: no import, no layers, no steps, and a place to add the first.
pub proof fn law_shared_begins_empty<I, L, F>(r: Shared<I, L, F>)
    requires
        call_ensures(install::<I, L, F>, (), r),
    ensures
        r.pending_import is None && r.light.layers@.len() == 0 && r.macro_tree@.len() == 0,
        r.editor.blocks@.len() == 1 && r.editor.source@.len() == 0 && !r.editor.parsing && !r.editor.has_ask,
        !r.saver.ready && r.saver.pending is None,
        r.in_step(),
{
    assert(rows(r.editor.blocks@).len() == r.editor.blocks@.len());
}

/// The shared editor shows a source, a tree and a parse as an editor does, and leaves the lighting and the
/// import alone.
pub proof fn law_shared_editor_leaves_the_rest<I, L, F>(
    a: &mut Shared<I, L, F>,
    b: &mut Shared<I, L, F>,
    c: &mut Shared<I, L, F>,
    d: &mut Shared<I, L, F>,
    source: String,
    sources: &Vec<String>,
    text: &str,
    r: BlocksStep,
    e: ParseError,
)
    requires
        call_ensures(Shared::<I, L, F>::show_source, (a, source), ()),
        call_ensures(Shared::<I, L, F>::show_tree, (b, source, sources), ()),
        call_ensures(Shared::<I, L, F>::refresh_macro_blocks, (c, text), r),
        call_ensures(
            Shared::<I, L, F>::blocks_parsed,
            (d, Err::<Vec<MacroNode>, ParseError>(e), sources),
            (),
        ),
    ensures
        final(a).editor.source == source && final(b).editor.source == source,
        final(a).macro_tree == old(a).macro_tree && final(b).macro_tree == old(b).macro_tree && final(
            d).macro_tree == old(d).macro_tree,
        final(a).editor.blocks == old(a).editor.blocks && final(d).editor.blocks == old(d).editor.blocks,
        trimmed(text@).len() == 0 ==> final(c).macro_tree@.len() == 0 && r == BlocksStep::Clear,
        trimmed(text@).len() > 0 ==> final(c).macro_tree == old(c).macro_tree,
        !final(d).editor.parsing,
        final(a).light == old(a).light && final(b).light == old(b).light && final(c).light == old(c).light
            && final(d).light == old(d).light,
        final(a).saver == old(a).saver && final(b).saver == old(b).saver && final(c).saver == old(c).saver
            && final(d).saver == old(d).saver,
        final(a).pending_import == old(a).pending_import && final(d).pending_import == old(d).pending_import,
{
}

/// An edit by path reaches a step where there is one, and shows nothing anew; where there is none nothing
/// changes.
pub proof fn law_shared_edit_reaches_its_step<I, L, F>(
    s: &mut Shared<I, L, F>,
    path: &str,
    value: String,
    done: bool,
)
    requires
        call_ensures(Shared::<I, L, F>::edit_step, (s, path, value), done),
    ensures
        done <==> find_parent(old(s).macro_tree@, segments(path@)) is Some,
        !done ==> *final(s) == *old(s),
        final(s).editor == old(s).editor && final(s).light == old(s).light && final(s).saver == old(s).saver,
        find_parent(old(s).macro_tree@, segments(path@)) matches Some((b, k)) ==> (exists|new: MacroNode|
            edited(b[k as int], new, value@) && #[trigger] rebuilt(
                old(s).macro_tree@,
                final(s).macro_tree@,
                segments(path@),
                b.update(k as int, new),
            )),
{
}

/// A preview says that it is one; a shown tree knows whether its source asks.
pub proof fn law_preview_says_so<I, L, F>(g: &mut BeaconGate, name: &str, source: &str, r: BeaconTest, s: &mut Shared<I, L, F>, text: String, sources: &Vec<String>, b: Bench)
    requires
        call_ensures(BeaconGate::test_asks, (g, name, source), r),
        call_ensures(Shared::<I, L, F>::show_tree, (s, text, sources), ()),
        call_ensures(Bench::new, (), b),
    ensures
        r matches BeaconTest::Fire { status, .. } ==> status@
            == "previewing your asks — answer the beacon at your cursor (nothing real runs)"@,
        !has_text(source@, "neuron.ask"@) ==> (r matches BeaconTest::Refused(t) && t@
            == "add a neuron.ask(\"…\") (the 'ask' chip), then Test asks previews its beacon"@),
        final(s).editor.has_ask == has_text(text@, "neuron.ask"@),
        old(s).editor.code_view ==> final(s).editor.source_dirty,
        final(s).editor.name == old(s).editor.name && final(s).editor.status == old(s).editor.status && final(
            s).editor.parsing == old(s).editor.parsing && final(s).editor.parse_error == old(
            s).editor.parse_error && final(s).editor.code_view == old(s).editor.code_view,
        !b.running && b.pass == 0 && b.fail == 0 && b.skip == 0,
{
}

/// Showing and editing leave the import, and what the editor is called and says, as they were.
pub proof fn law_shared_keeps_names_and_imports<I, L, F>(a: &mut Shared<I, L, F>, b: &mut Shared<I, L, F>, c: &mut Shared<I, L, F>, source: String, path: &str, value: String, done: bool, text: &str, r: BlocksStep)
    requires
        call_ensures(Shared::<I, L, F>::show_source, (a, source), ()),
        call_ensures(Shared::<I, L, F>::edit_step, (b, path, value), done),
        call_ensures(Shared::<I, L, F>::refresh_macro_blocks, (c, text), r),
    ensures
        final(a).editor.name == old(a).editor.name && final(a).editor.status == old(a).editor.status && final(
            a).editor.parsing == old(a).editor.parsing && final(a).editor.parse_error == old(
            a).editor.parse_error && final(a).editor.code_view == old(a).editor.code_view,
        final(a).editor.has_ask == has_text(source@, "neuron.ask"@),
        old(a).editor.code_view ==> final(a).editor.source_dirty,
        final(b).pending_import == old(b).pending_import,
        final(c).pending_import == old(c).pending_import && final(c).editor.source == old(c).editor.source && final(
            c).editor.name == old(c).editor.name && final(c).editor.status == old(c).editor.status,
{
}

/// What is found under a name is the entry of that name.
pub proof fn law_entry_is_found_by_its_name<V>(m: &TextMap<V>, key: &str, r: Option<usize>, got: Option<&V>, fresh: TextMap<V>, none: Option<usize>)
    requires
        m.wf(),
        call_ensures(TextMap::<V>::find, (m, key), r),
        call_ensures(TextMap::<V>::get, (m, key), got),
        call_ensures(TextMap::<V>::new, (), fresh),
        call_ensures(TextMap::<V>::find, (&fresh, key), none),
    ensures
        r matches Some(i) ==> i < m.entries@.len() && m.entries@[i as int].0@ == key@ && (got matches Some(v) && *v
            == m.entries@[i as int].1),
        r is None <==> got is None,
        none is None,
{
}

} // verus!
