//! What an edit of a step's field does to what the step holds and shows.

use vstd::prelude::*;

use crate::canvas::{
    add_block, add_row, canvas_fits, count_fits, count_macro_nodes, field_text, flatten_macro,
    height, lanes, lanes_count, lanes_height, lanes_shown, lemma_child_found, lemma_child_segments,
    macro_value, node_count, node_lanes, own_values, rows, shown, step_height, step_shown,
    MacroBlock,
};
use crate::canvas_laws::value_text;
use crate::macros::{
    add_step, arm_body, child_path, chord_parts, chord_separators, default_node, delete_step,
    edit_node_value, edit_step, edited, exchange, exchanged, find_body, find_parent, fresh,
    index_of, is_raw, is_str, key_parts, kind_of, known_kind, lane_body, law_change_is_found,
    lowered, macro_kind, macro_verb, move_step, path_of_child, path_segments, rebuilt, segments,
    split_keys, verb_of, Added, MacroNode, Value,
};
use crate::text::{
    all_trimmed, decimal, joined, lowercase, nonempty, occurs_at, split_first, split_on, texts,
    trimmed,
};
use crate::text_laws::{
    free_of, law_blanks_around_do_not_count, law_cut_at_the_first_character,
    law_cut_at_the_first_place, law_cut_fits_together, law_good_pieces_are_kept,
    law_joined_is_cut_apart,
};

verus! {

// ── what the step holds after an edit ───────────────────────────────────────────────────────────

/// The step's field is a text: what is typed there is meant literally.
pub open spec fn takes_text(node: MacroNode) -> bool {
    node is Type || node is Copy || node is Notify || node is Open || node is Focus || node is Ask
}

/// The step's field is one expression: what is typed there is source.
pub open spec fn takes_source(node: MacroNode) -> bool {
    node is Scroll || node is Wait || node is If || node is RepeatWhile || node is RepeatN
}

/// A text that was typed is the one thing that the step holds, letter for letter.
pub proof fn law_typed_text_is_held(node: MacroNode, new: MacroNode, v: Seq<char>)
    requires
        takes_text(node),
        edited(node, new, v),
    ensures
        takes_text(new),
        own_values(new).len() == 1,
        is_str(own_values(new)[0], v),
{
}

/// Source that was typed is the one thing that the step holds, but for the blanks around it.
pub proof fn law_typed_source_is_held(node: MacroNode, new: MacroNode, v: Seq<char>)
    requires
        takes_source(node),
        edited(node, new, v),
    ensures
        takes_source(new),
        own_values(new).len() == 1,
        is_raw(own_values(new)[0], trimmed(v)),
{
}

/// Of two edits the later one counts, whatever the earlier one said: the step holds the same as if it
/// had been edited once.
pub proof fn law_later_edit_counts(
    node: MacroNode,
    mid: MacroNode,
    twice: MacroNode,
    once: MacroNode,
    v: Seq<char>,
    w: Seq<char>,
)
    requires
        takes_text(node) || takes_source(node),
        edited(node, mid, v),
        edited(mid, twice, w),
        edited(node, once, w),
    ensures
        own_values(twice).len() == 1 && own_values(once).len() == 1,
        takes_text(node) ==> is_str(own_values(twice)[0], w) && is_str(own_values(once)[0], w),
        takes_source(node) ==> is_raw(own_values(twice)[0], trimmed(w)) && is_raw(
            own_values(once)[0],
            trimmed(w),
        ),
{
}

/// Edits to different texts leave different steps: none is lost.
pub proof fn law_different_edits_differ(
    node: MacroNode,
    a: MacroNode,
    b: MacroNode,
    v: Seq<char>,
    w: Seq<char>,
)
    requires
        edited(node, a, v),
        edited(node, b, w),
        takes_text(node) || node is Raw ==> v != w,
        takes_source(node) ==> trimmed(v) != trimmed(w),
        takes_text(node) || takes_source(node) || node is Raw,
    ensures
        a != b,
{
}

/// An edit changes the step's field alone: the kind, the lanes and every setting beside the field stay.
pub proof fn law_edit_keeps_the_rest(node: MacroNode, new: MacroNode, v: Seq<char>)
    requires
        edited(node, new, v),
    ensures
        kind_of(new) == kind_of(node),
        forall|arm: Seq<char>| #[trigger] arm_body(new, arm) == arm_body(node, arm),
        node matches MacroNode::Type { as_ghost, speed, .. } ==> (new matches MacroNode::Type {
            as_ghost: g,
            speed: s,
            ..
        } && g == as_ghost && s == speed),
        node matches MacroNode::Open { capture, .. } ==> (new matches MacroNode::Open {
            capture: c,
            ..
        } && c == capture),
        node matches MacroNode::Ask { description, .. } ==> (new matches MacroNode::Ask {
            description: d,
            ..
        } && d == description),
        node is Paste || node is Stop || node is Try ==> new == node,
{
}

/// Keys, buttons and code are held as they were typed, the first two in lower case.
pub proof fn law_typed_names_are_held(node: MacroNode, new: MacroNode, v: Seq<char>)
    requires
        edited(node, new, v),
    ensures
        node is KeyPress ==> (new matches MacroNode::KeyPress { name } && name@ == lowercase(
            trimmed(v),
        )),
        node is Click ==> (new matches MacroNode::Click { button } && button@ == lowercase(
            trimmed(v),
        )),
        node is Raw ==> (new matches MacroNode::Raw { code } && code@ == v),
{
}

/// A part that cannot be told apart leaves the other part as it was: one coordinate alone is the first,
/// one expression alone is what is walked or assigned.
pub proof fn law_one_part_leaves_the_other(node: MacroNode, new: MacroNode, v: Seq<char>)
    requires
        edited(node, new, v),
    ensures
        node matches MacroNode::MoveTo { y, .. } ==> (!v.contains(',') ==> (
        new matches MacroNode::MoveTo { x, y: y1 } && is_raw(x, trimmed(v)) && y1 == y)),
        node matches MacroNode::SetVar { name, .. } ==> (!v.contains('=') ==> (
        new matches MacroNode::SetVar { name: n, value } && n == name && is_raw(value, trimmed(v)))),
        node matches MacroNode::ForEach { var, .. } ==> (!v.contains(' ') ==> (
        new matches MacroNode::ForEach { var: w, source, .. } && w == var && is_raw(
            source,
            trimmed(v),
        ))),
{
    reveal_strlit(",");
    reveal_strlit("=");
    reveal_strlit(" in ");
    if !v.contains(',') {
        lemma_not_cut(v, ","@, ',');
    }
    if !v.contains('=') {
        lemma_not_cut(v, "="@, '=');
    }
    if !v.contains(' ') {
        lemma_not_cut(v, " in "@, ' ');
    }
}

proof fn lemma_not_cut(v: Seq<char>, sep: Seq<char>, c: char)
    requires
        sep.len() > 0,
        sep[0] == c,
        !v.contains(c),
    ensures
        split_first(v, sep) is None,
{
    law_cut_fits_together(v, sep);
    match split_first(v, sep) {
        Some((a, b)) => {
            assert((a + sep + b)[a.len() as int] == c);
        },
        None => {},
    }
}

// ── what is shown, typed back ───────────────────────────────────────────────────────────────────

/// The coordinates that a step shows, typed back as they stand, are the coordinates of the step: the
/// first before the comma, the second behind it.
pub proof fn law_shown_coordinates_type_back(
    node: MacroNode,
    new: MacroNode,
    a: Seq<char>,
    b: Seq<char>,
)
    requires
        node is MoveTo,
        !a.contains(','),
        edited(node, new, field_text(node, seq![a, b])),
    ensures
        field_text(node, seq![a, b]) == a + ", "@ + b,
        new matches MacroNode::MoveTo { x, y } && is_raw(x, trimmed(a)) && is_raw(y, trimmed(b)),
{
    reveal_strlit(", ");
    reveal_strlit(",");
    assert(","@ =~= seq![',']);
    assert(a + ", "@ + b =~= a + seq![','] + (seq![' '] + b));
    law_cut_at_the_first_character(a, ',', seq![' '] + b);
    law_blanks_around_do_not_count(b);
}

/// The variable and the list that a loop shows, typed back as they stand, are those of the loop.
pub proof fn law_shown_loop_types_back(node: MacroNode, new: MacroNode, a: Seq<char>)
    requires
        node is ForEach,
        node matches MacroNode::ForEach { var, .. } && !var@.contains(' '),
        edited(node, new, field_text(node, seq![a])),
    ensures
        node matches MacroNode::ForEach { var, .. } && (new matches MacroNode::ForEach {
            var: w,
            source,
            ..
        } && w@ == trimmed(var@) && is_raw(source, trimmed(a))),
{
    let name = match node {
        MacroNode::ForEach { var, .. } => var@,
        _ => a,
    };
    let v = name + " in "@ + a;
    reveal_strlit(" in ");
    assert forall|j: int| 0 <= j < name.len() implies !occurs_at(v, " in "@, j) by {
        if occurs_at(v, " in "@, j) {
            assert(v.subrange(j, j + 4)[0] == ' ');
            assert(v[j] == name[j]);
            assert(name.contains(name[j]));
        }
    }
    law_cut_at_the_first_place(name, " in "@, a);
}

/// The name and the value that an assignment shows, typed back as they stand, are those of the
/// assignment.
pub proof fn law_shown_assignment_types_back(node: MacroNode, new: MacroNode, a: Seq<char>)
    requires
        node is SetVar,
        node matches MacroNode::SetVar { name, .. } && !name@.contains('='),
        edited(node, new, field_text(node, seq![a])),
    ensures
        node matches MacroNode::SetVar { name, .. } && (new matches MacroNode::SetVar {
            name: n,
            value,
        } && n@ == trimmed(name@) && is_raw(value, trimmed(a))),
{
    let name = match node {
        MacroNode::SetVar { name, .. } => name@,
        _ => a,
    };
    let v = name + " = "@ + a;
    reveal_strlit(" = ");
    reveal_strlit("=");
    assert("="@ =~= seq!['=']);
    assert(v =~= name.push(' ') + seq!['='] + (seq![' '] + a));
    assert(!name.push(' ').contains('=')) by {
        assert forall|i: int| 0 <= i < name.push(' ').len() implies name.push(' ')[i] != '=' by {
            if i < name.len() {
                assert(name.contains(name[i]));
            }
        }
    }
    law_cut_at_the_first_character(name.push(' '), '=', seq![' '] + a);
    law_blanks_around_do_not_count(a);
    law_blanks_around_do_not_count(name);
}

/// The keys that a chord shows, typed back as they stand, are the keys of the chord, in order.
pub proof fn law_shown_chord_types_back(node: MacroNode, new: MacroNode, t: Seq<Seq<char>>)
    requires
        node matches MacroNode::Press { keys } && forall|i: int|
            0 <= i < keys@.len() ==> (#[trigger] keys@[i])@.len() > 0 && free_of(
                keys@[i]@,
                chord_separators(),
            ) && trimmed(keys@[i]@) == keys@[i]@,
        edited(node, new, field_text(node, t)),
    ensures
        node matches MacroNode::Press { keys } && (new matches MacroNode::Press { keys: typed }
            && typed@.len() == keys@.len() && forall|i: int|
            0 <= i < keys@.len() ==> (#[trigger] typed@[i])@ == lowercase(keys@[i]@)),
{
    let keys = match node {
        MacroNode::Press { keys } => texts(keys@),
        _ => Seq::empty(),
    };
    let seps = chord_separators();
    let shown = joined(keys, "+"@);
    reveal_strlit("+");
    assert("+"@ =~= seq!['+']);
    assert(seps[0] == '+');
    assert(seps.contains('+'));
    if keys.len() == 0 {
        let none = Seq::<char>::empty();
        assert(split_on(shown, seps) =~= seq![none]);
        assert(all_trimmed(seq![none]) =~= seq![none]);
        assert(trimmed(none) == none);
        assert(seq![none].drop_last() =~= Seq::<Seq<char>>::empty());
        assert(nonempty(seq![none]) == nonempty(Seq::<Seq<char>>::empty()));
        assert(chord_parts(shown) =~= keys);
    } else {
        assert forall|i: int| 0 <= i < keys.len() implies free_of(#[trigger] keys[i], seps)
            && keys[i].len() > 0 && trimmed(keys[i]) == keys[i] by {
            match node {
                MacroNode::Press { keys: k } => {
                    assert(keys[i] == k@[i]@);
                },
                _ => {},
            }
        }
        law_joined_is_cut_apart(keys, '+', seps);
        law_good_pieces_are_kept(keys);
        assert(chord_parts(shown) == keys);
    }
    match (node, new) {
        (MacroNode::Press { keys: k }, MacroNode::Press { keys: typed }) => {
            assert(texts(typed@) == lowered(keys));
            assert(texts(typed@).len() == keys.len());
            assert forall|i: int| 0 <= i < k@.len() implies (#[trigger] typed@[i])@ == lowercase(
                k@[i]@,
            ) by {
                assert(texts(typed@)[i] == lowered(keys)[i]);
            }
        },
        _ => {},
    }
}

/// Plus signs, commas and blanks all part the keys of a chord.
pub proof fn law_chord_is_parted(keys: Seq<Seq<char>>, sep: char)
    requires
        sep == '+' || sep == ',' || sep == ' ',
        keys.len() > 0,
        forall|i: int|
            0 <= i < keys.len() ==> (#[trigger] keys[i]).len() > 0 && !keys[i].contains('+')
                && !keys[i].contains(',') && !keys[i].contains(' ') && trimmed(keys[i]) == keys[i],
    ensures
        chord_parts(joined(keys, seq![sep])) == keys,
{
    let seps = chord_separators();
    assert(seps[0] == '+' && seps[1] == ',' && seps[2] == ' ');
    assert(seps.contains(sep));
    assert forall|i: int| 0 <= i < keys.len() implies free_of(#[trigger] keys[i], seps) by {
        assert forall|j: int| 0 <= j < keys[i].len() implies !seps.contains(
            #[trigger] keys[i][j],
        ) by {
            assert(keys[i].contains(keys[i][j]));
        }
    }
    law_joined_is_cut_apart(keys, sep, seps);
    law_good_pieces_are_kept(keys);
}

/// What was typed is what is shown, where the source of a verbatim expression is that expression: the
/// field reads as it was left, but for blanks.
pub proof fn law_field_reads_as_typed(
    node: MacroNode,
    new: MacroNode,
    v: Seq<char>,
    src: spec_fn(Value) -> Seq<char>,
)
    requires
        edited(node, new, v),
        forall|e: Value| #[trigger] src(e) == (match e {
            Value::Raw { src: s } => s@,
            _ => src(e),
        }),
    ensures
        takes_source(node) ==> value_text(new, src) == trimmed(v),
        node is Raw ==> value_text(new, src) == v,
        node is KeyPress || node is Click ==> value_text(new, src) == lowercase(trimmed(v)),
        takes_text(node) ==> (exists|e: Value| is_str(e, v) && value_text(new, src) == #[trigger] src(e)),
{
    if takes_source(node) {
        let e = own_values(new)[0];
        assert(src(e) == trimmed(v));
    }
    if takes_text(node) {
        let e = own_values(new)[0];
        assert(is_str(e, v) && value_text(new, src) == src(e));
    }
}

/// A step with one expression shows that expression and nothing else.
pub proof fn law_single_expression_is_shown(node: MacroNode, t: Seq<char>)
    requires
        takes_text(node) || takes_source(node),
    ensures
        own_values(node).len() == 1,
        field_text(node, seq![t]) == t,
{
}

/// The expression that a step shows is the one that it holds.
pub proof fn law_shown_expression_is_held(node: MacroNode)
    ensures
        node matches MacroNode::Type { text, .. } ==> own_values(node) == seq![text],
        node matches MacroNode::Copy { text } ==> own_values(node) == seq![text],
        node matches MacroNode::Notify { text } ==> own_values(node) == seq![text],
        node matches MacroNode::Open { command, .. } ==> own_values(node) == seq![command],
        node matches MacroNode::Focus { window } ==> own_values(node) == seq![window],
        node matches MacroNode::Scroll { amount } ==> own_values(node) == seq![amount],
        node matches MacroNode::Wait { ms } ==> own_values(node) == seq![ms],
        node matches MacroNode::Ask { question, .. } ==> own_values(node) == seq![question],
        node matches MacroNode::If { cond, .. } ==> own_values(node) == seq![cond],
        node matches MacroNode::RepeatWhile { cond, .. } ==> own_values(node) == seq![cond],
        node matches MacroNode::RepeatN { count, .. } ==> own_values(node) == seq![count],
        node matches MacroNode::MoveTo { x, y } ==> own_values(node) == seq![x, y],
        node matches MacroNode::ForEach { source, .. } ==> own_values(node) == seq![source],
        node matches MacroNode::SetVar { value, .. } ==> own_values(node) == seq![value],
        node is Press || node is KeyPress || node is Click || node is Paste || node is Stop
            || node is Try || node is Raw ==> own_values(node).len() == 0,
{
}

// ── kinds and lanes ─────────────────────────────────────────────────────────────────────────────

/// How long a tag is, and how it begins.
spec fn mark(s: Seq<char>) -> (nat, char, char) {
    (s.len(), s[0], s[1])
}

/// Steps of different sorts have different tags.
pub proof fn law_tags_tell_steps_apart(a: MacroNode, b: MacroNode)
    requires
        kind_of(a) == kind_of(b),
    ensures
        a is Type <==> b is Type,
        a is Press <==> b is Press,
        a is KeyPress <==> b is KeyPress,
        a is Click <==> b is Click,
        a is Scroll <==> b is Scroll,
        a is MoveTo <==> b is MoveTo,
        a is Copy <==> b is Copy,
        a is Paste <==> b is Paste,
        a is Open <==> b is Open,
        a is Focus <==> b is Focus,
        a is Wait <==> b is Wait,
        a is Notify <==> b is Notify,
        a is Ask <==> b is Ask,
        a is If <==> b is If,
        a is RepeatN <==> b is RepeatN,
        a is RepeatWhile <==> b is RepeatWhile,
        a is ForEach <==> b is ForEach,
        a is SetVar <==> b is SetVar,
        a is Stop <==> b is Stop,
        a is Try <==> b is Try,
        a is Raw <==> b is Raw,
{
    reveal_strlit("type");
    reveal_strlit("press");
    reveal_strlit("key_press");
    reveal_strlit("click");
    reveal_strlit("scroll");
    reveal_strlit("move_to");
    reveal_strlit("copy");
    reveal_strlit("paste");
    reveal_strlit("open");
    reveal_strlit("focus");
    reveal_strlit("wait");
    reveal_strlit("notify");
    reveal_strlit("ask");
    reveal_strlit("if");
    reveal_strlit("repeat_n");
    reveal_strlit("repeat_while");
    reveal_strlit("for_each");
    reveal_strlit("set_var");
    reveal_strlit("stop");
    reveal_strlit("try");
    reveal_strlit("raw");
    assert(mark("type"@) == (4nat, 't', 'y'));
    assert(mark("press"@) == (5nat, 'p', 'r'));
    assert(mark("key_press"@) == (9nat, 'k', 'e'));
    assert(mark("click"@) == (5nat, 'c', 'l'));
    assert(mark("scroll"@) == (6nat, 's', 'c'));
    assert(mark("move_to"@) == (7nat, 'm', 'o'));
    assert(mark("copy"@) == (4nat, 'c', 'o'));
    assert(mark("paste"@) == (5nat, 'p', 'a'));
    assert(mark("open"@) == (4nat, 'o', 'p'));
    assert(mark("focus"@) == (5nat, 'f', 'o'));
    assert(mark("wait"@) == (4nat, 'w', 'a'));
    assert(mark("notify"@) == (6nat, 'n', 'o'));
    assert(mark("ask"@) == (3nat, 'a', 's'));
    assert(mark("if"@) == (2nat, 'i', 'f'));
    assert(mark("repeat_n"@) == (8nat, 'r', 'e'));
    assert(mark("repeat_while"@) == (12nat, 'r', 'e'));
    assert(mark("for_each"@) == (8nat, 'f', 'o'));
    assert(mark("set_var"@) == (7nat, 's', 'e'));
    assert(mark("stop"@) == (4nat, 's', 't'));
    assert(mark("try"@) == (3nat, 't', 'r'));
    assert(mark("raw"@) == (3nat, 'r', 'a'));
    assert(mark(kind_of(a)) == mark(kind_of(b)));
}

/// The verb of a tag of one word is that word, but for code. A tag of two words shows the first, the
/// second where the first is shared, or both.
pub proof fn law_verbs_are_words_of_their_tags(k: Seq<char>)
    requires
        known_kind(k),
    ensures
        !k.contains('_') ==> verb_of(k) == (if k == "raw"@ {
            "code"@
        } else {
            k
        }),
        k == "key_press"@ || k == "move_to"@ || k == "repeat_n"@ || k == "set_var"@ ==> (split_first(
            k,
            "_"@,
        ) matches Some((a, _)) && verb_of(k) == a),
        k == "repeat_while"@ ==> (split_first(k, "_"@) matches Some((_, b)) && verb_of(k) == b),
        k == "for_each"@ ==> (split_first(k, "_"@) matches Some((a, b)) && verb_of(k) == a + " "@ + b),
{
    reveal_strlit("type");
    reveal_strlit("press");
    reveal_strlit("key_press");
    reveal_strlit("click");
    reveal_strlit("scroll");
    reveal_strlit("move_to");
    reveal_strlit("copy");
    reveal_strlit("paste");
    reveal_strlit("open");
    reveal_strlit("focus");
    reveal_strlit("wait");
    reveal_strlit("notify");
    reveal_strlit("ask");
    reveal_strlit("if");
    reveal_strlit("repeat_n");
    reveal_strlit("repeat_while");
    reveal_strlit("for_each");
    reveal_strlit("set_var");
    reveal_strlit("stop");
    reveal_strlit("try");
    reveal_strlit("raw");
    reveal_strlit("key");
    reveal_strlit("move");
    reveal_strlit("repeat");
    reveal_strlit("n");
    reveal_strlit("while");
    reveal_strlit("for");
    reveal_strlit("each");
    reveal_strlit("for each");
    reveal_strlit("set");
    reveal_strlit("var");
    reveal_strlit("code");
    reveal_strlit("_");
    reveal_strlit(" ");
    reveal_strlit("to");
    assert("_"@ =~= seq!['_']);
    assert("key_press"@ =~= "key"@ + seq!['_'] + "press"@);
    assert("key_press"@[3] == '_');
    law_cut_at_the_first_character("key"@, '_', "press"@);
    assert("move_to"@ =~= "move"@ + seq!['_'] + "to"@);
    assert("move_to"@[4] == '_');
    law_cut_at_the_first_character("move"@, '_', "to"@);
    assert("repeat_n"@ =~= "repeat"@ + seq!['_'] + "n"@);
    assert("repeat_n"@[6] == '_');
    law_cut_at_the_first_character("repeat"@, '_', "n"@);
    assert("set_var"@ =~= "set"@ + seq!['_'] + "var"@);
    assert("set_var"@[3] == '_');
    law_cut_at_the_first_character("set"@, '_', "var"@);
    assert("repeat_while"@ =~= "repeat"@ + seq!['_'] + "while"@);
    assert("repeat_while"@[6] == '_');
    law_cut_at_the_first_character("repeat"@, '_', "while"@);
    assert("for_each"@ =~= "for"@ + seq!['_'] + "each"@);
    assert("for_each"@[3] == '_');
    law_cut_at_the_first_character("for"@, '_', "each"@);
    assert("for each"@ =~= "for"@ + " "@ + "each"@);
    assert(mark("type"@) == (4nat, 't', 'y'));
    assert(mark("press"@) == (5nat, 'p', 'r'));
    assert(mark("key_press"@) == (9nat, 'k', 'e'));
    assert(mark("click"@) == (5nat, 'c', 'l'));
    assert(mark("scroll"@) == (6nat, 's', 'c'));
    assert(mark("move_to"@) == (7nat, 'm', 'o'));
    assert(mark("copy"@) == (4nat, 'c', 'o'));
    assert(mark("paste"@) == (5nat, 'p', 'a'));
    assert(mark("open"@) == (4nat, 'o', 'p'));
    assert(mark("focus"@) == (5nat, 'f', 'o'));
    assert(mark("wait"@) == (4nat, 'w', 'a'));
    assert(mark("notify"@) == (6nat, 'n', 'o'));
    assert(mark("ask"@) == (3nat, 'a', 's'));
    assert(mark("if"@) == (2nat, 'i', 'f'));
    assert(mark("repeat_n"@) == (8nat, 'r', 'e'));
    assert(mark("repeat_while"@) == (12nat, 'r', 'e'));
    assert(mark("for_each"@) == (8nat, 'f', 'o'));
    assert(mark("set_var"@) == (7nat, 's', 'e'));
    assert(mark("stop"@) == (4nat, 's', 't'));
    assert(mark("try"@) == (3nat, 't', 'r'));
    assert(mark("raw"@) == (3nat, 'r', 'a'));
}

/// A step that was just made holds nothing yet: its texts and its lanes are empty.
pub proof fn law_fresh_step_is_empty(kind: Seq<char>, node: MacroNode)
    requires
        fresh(kind, node),
    ensures
        known_kind(kind),
        takes_text(node) ==> is_str(own_values(node)[0], Seq::<char>::empty()),
        node is If || node is RepeatWhile ==> own_values(node)[0] == (Value::Bool { b: true }),
        node is Scroll || node is RepeatN ==> own_values(node)[0] == (Value::Int { n: 1 }),
        node is Wait ==> own_values(node)[0] == (Value::Int { n: 500 }),
        node is MoveTo ==> own_values(node) == seq![Value::Int { n: 0 }, Value::Int { n: 0 }],
        node is ForEach || node is SetVar ==> is_str(own_values(node)[0], Seq::<char>::empty()),
        forall|k: int| 0 <= k < lanes(node).len() ==> (#[trigger] lanes(node)[k]).1.len() == 0,
        node is Ask || node is If || node is Try ==> lanes(node).len() == 2,
        node is RepeatN || node is RepeatWhile || node is ForEach ==> lanes(node).len() == 1,
{
}

/// The lanes of a step, by name: the bodies that run on either answer, in a loop, or on an error.
pub proof fn law_lanes_by_name(node: MacroNode)
    ensures
        node matches MacroNode::Ask { yes, no, .. } ==> arm_body(node, "yes"@) == Some(yes)
            && arm_body(node, "no"@) == Some(no),
        node matches MacroNode::If { then_, else_, .. } ==> arm_body(node, "then"@) == Some(then_)
            && arm_body(node, "else"@) == Some(else_),
        node matches MacroNode::RepeatN { body, .. } ==> arm_body(node, "body"@) == Some(body),
        node matches MacroNode::RepeatWhile { body, .. } ==> arm_body(node, "body"@) == Some(body),
        node matches MacroNode::ForEach { body, .. } ==> arm_body(node, "body"@) == Some(body),
        node matches MacroNode::Try { body, except_ } ==> arm_body(node, "body"@) == Some(body)
            && arm_body(node, "error"@) == Some(except_),
        lanes(node).len() == 2 ==> lanes(node)[0].0 == (if node is Ask {
            "yes"@
        } else if node is If {
            "then"@
        } else {
            "body"@
        }) && lanes(node)[1].0 == (if node is Ask {
            "no"@
        } else if node is If {
            "else"@
        } else {
            "error"@
        }),
{
    reveal_strlit("yes");
    reveal_strlit("no");
    reveal_strlit("then");
    reveal_strlit("else");
    reveal_strlit("body");
    reveal_strlit("error");
    assert("then"@[0] != "else"@[0]);
    assert("yes"@.len() != "no"@.len());
    assert("body"@.len() != "error"@.len());
}

// ── adding, deleting and moving steps ───────────────────────────────────────────────────────────

/// A step that was added is found at the end of its body, under the path that comes with it, and every
/// step before it is still found where it was.
pub proof fn law_added_step_is_found(
    tree: Seq<MacroNode>,
    new: Seq<MacroNode>,
    ctx: Seq<char>,
    b: Seq<MacroNode>,
    node: MacroNode,
    i: nat,
)
    requires
        find_body(tree, segments(ctx)) == Some(b),
        rebuilt(tree, new, segments(ctx), b.push(node)),
        b.len() < usize::MAX,
        i <= b.len(),
    ensures
        find_parent(new, segments(child_path(ctx, i))) matches Some((c, k)) && k == i && c.len()
            == b.len() + 1 && c[k as int] == (if i == b.len() {
            node
        } else {
            b[i as int]
        }),
{
    law_change_is_found(tree, new, segments(ctx), b.push(node));
    lemma_child_segments(ctx, i);
    lemma_child_found(new, segments(ctx), b.push(node), i, ""@);
}

/// After a step is deleted its body holds one step less; those behind it move up by one, those before it
/// stay.
pub proof fn law_deletion_closes_up(b: Seq<MacroNode>, k: int, i: int)
    requires
        0 <= k < b.len(),
        0 <= i < b.len() - 1,
    ensures
        b.remove(k).len() == b.len() - 1,
        b.remove(k)[i] == (if i < k {
            b[i]
        } else {
            b[i + 1]
        }),
{
}

/// A step that is moved changes places with its neighbour; no other step moves.
pub proof fn law_move_swaps_neighbours(b: Seq<MacroNode>, k: int, dir: int, i: int)
    requires
        0 <= k < b.len(),
        0 <= k + dir < b.len(),
        0 <= i < b.len(),
    ensures
        exchanged(b, k, k + dir).len() == b.len(),
        exchanged(b, k, k + dir)[k + dir] == b[k],
        exchanged(b, k, k + dir)[k] == b[k + dir],
        i != k && i != k + dir ==> exchanged(b, k, k + dir)[i] == b[i],
{
}

// ── the functions themselves ────────────────────────────────────────────────────────────────────

/// After an edit the step holds what was typed: a text letter for letter, source without the blanks
/// around it.
pub proof fn law_edited_step_holds_what_was_typed(node: &mut MacroNode, v: String)
    requires
        call_ensures(edit_node_value, (node, v), ()),
    ensures
        kind_of(*final(node)) == kind_of(*old(node)),
        takes_text(*old(node)) ==> own_values(*final(node)).len() == 1 && is_str(
            own_values(*final(node))[0],
            v@,
        ),
        takes_source(*old(node)) ==> own_values(*final(node)).len() == 1 && is_raw(
            own_values(*final(node))[0],
            trimmed(v@),
        ),
        *old(node) is Raw ==> (*final(node) matches MacroNode::Raw { code } && code@ == v@),
{
    if takes_text(*old(node)) {
        law_typed_text_is_held(*old(node), *final(node), v@);
    }
    if takes_source(*old(node)) {
        law_typed_source_is_held(*old(node), *final(node), v@);
    }
    law_edit_keeps_the_rest(*old(node), *final(node), v@);
}

/// A field shows the parts of its step in the order in which they are typed: the first coordinate before
/// the second, the variable before its list, the name before its value.
pub proof fn law_field_shows_its_parts(node: &MacroNode, sources: &Vec<String>, at: usize, r: String)
    requires
        call_ensures(macro_value, (node, sources, at), r),
        at + own_values(*node).len() <= sources@.len(),
    ensures
        *node is MoveTo ==> r@ == sources@[at as int]@ + ", "@ + sources@[at + 1]@,
        *node matches MacroNode::ForEach { var, .. } ==> r@ == var@ + " in "@ + sources@[at as int]@,
        *node matches MacroNode::SetVar { name, .. } ==> r@ == name@ + " = "@ + sources@[at as int]@,
        takes_text(*node) || takes_source(*node) ==> r@ == sources@[at as int]@,
        *node matches MacroNode::KeyPress { name } ==> r@ == name@,
        *node matches MacroNode::Click { button } ==> r@ == button@,
        *node matches MacroNode::Raw { code } ==> r@ == code@,
        *node is Paste || *node is Stop || *node is Try ==> r@.len() == 0,
{
    let t = texts(sources@).skip(at as int);
    if own_values(*node).len() > 0 {
        assert(t[0] == sources@[at as int]@);
    }
    if own_values(*node).len() > 1 {
        assert(t[1] == sources@[at + 1]@);
    }
}

/// Coordinates that are shown and typed back as they stand are those of the step.
pub proof fn law_coordinates_shown_and_typed_back(
    node: &mut MacroNode,
    sources: &Vec<String>,
    at: usize,
    shown: String,
)
    requires
        *old(node) is MoveTo,
        at + 2 <= sources@.len(),
        !sources@[at as int]@.contains(','),
        call_ensures(macro_value, (&*old(node), sources, at), shown),
        call_ensures(edit_node_value, (node, shown), ()),
    ensures
        *final(node) matches MacroNode::MoveTo { x, y } && is_raw(x, trimmed(sources@[at as int]@))
            && is_raw(y, trimmed(sources@[at + 1]@)),
{
    let t = texts(sources@).skip(at as int);
    let a = sources@[at as int]@;
    let b = sources@[at + 1]@;
    assert(t[0] == a && t[1] == b);
    law_shown_coordinates_type_back(*old(node), *final(node), a, b);
}

/// A fresh step is of the kind that was asked for, and only known kinds can be asked for.
pub proof fn law_fresh_step_is_of_its_kind(kind: &str, r: Option<MacroNode>)
    requires
        call_ensures(default_node, (kind,), r),
    ensures
        r is Some <==> known_kind(kind@),
        r matches Some(node) ==> kind_of(node) == kind@ && fresh(kind@, node),
        kind@ == "notify"@ ==> (r matches Some(n) && n is Notify),
        kind@ == "wait"@ ==> (r matches Some(n) && own_values(n) == seq![Value::Int { n: 500 }]),
        kind@ == "click"@ ==> (r matches Some(MacroNode::Click { button }) && button@ == "left"@),
{
    reveal_strlit("notify");
    reveal_strlit("wait");
    reveal_strlit("click");
    match r {
        Some(node) => {
            law_fresh_step_is_empty(kind@, node);
            lemma_kinds_of(node);
        },
        None => {},
    }
}

/// Which step a tag names, where the tag is one of three.
proof fn lemma_kinds_of(n: MacroNode)
    ensures
        kind_of(n) == "notify"@ ==> n is Notify,
        kind_of(n) == "wait"@ ==> n is Wait,
        kind_of(n) == "click"@ ==> n is Click,
{
    let s = match n {
        MacroNode::Raw { code } => code,
        MacroNode::KeyPress { name } => name,
        MacroNode::Click { button } => button,
        _ => arbitrary(),
    };
    let v = Value::Raw { src: s };
    law_tags_tell_steps_apart(n, n);
    if kind_of(n) == "notify"@ {
        law_tags_tell_steps_apart(n, MacroNode::Notify { text: v });
    }
    if kind_of(n) == "wait"@ {
        law_tags_tell_steps_apart(n, MacroNode::Wait { ms: v });
    }
    if kind_of(n) == "click"@ {
        law_tags_tell_steps_apart(n, MacroNode::Click { button: s });
    }
}

/// An edit by path reaches the step of that path: it is there afterwards with what was typed, among the
/// same neighbours.
pub proof fn law_edit_by_path_reaches_its_step(
    tree: &mut Vec<MacroNode>,
    path: &str,
    value: String,
    done: bool,
)
    requires
        call_ensures(edit_step, (tree, path, value), done),
    ensures
        !done ==> *final(tree) == *old(tree),
        done <==> find_parent(old(tree)@, segments(path@)) is Some,
        find_parent(old(tree)@, segments(path@)) matches Some((b, k)) ==> (find_parent(
            final(tree)@,
            segments(path@),
        ) matches Some((c, j)) && j == k && c.len() == b.len() && (takes_text(b[k as int])
            ==> own_values(c[k as int]).len() == 1 && is_str(own_values(c[k as int])[0], value@)) && (
        takes_source(b[k as int]) ==> own_values(c[k as int]).len() == 1 && is_raw(
            own_values(c[k as int])[0],
            trimmed(value@),
        )) && forall|i: int| 0 <= i < b.len() && i != k ==> #[trigger] c[i] == b[i]),
{
    let segs = segments(path@);
    match find_parent(old(tree)@, segs) {
        Some((b, k)) => {
            let new = choose|new: MacroNode|
                edited(b[k as int], new, value@) && #[trigger] rebuilt(
                    old(tree)@,
                    final(tree)@,
                    segs,
                    b.update(k as int, new),
                );
            lemma_parent_index(old(tree)@, segs);
            law_change_is_found(old(tree)@, final(tree)@, segs, b.update(k as int, new));
            if takes_text(b[k as int]) {
                law_typed_text_is_held(b[k as int], new, value@);
            }
            if takes_source(b[k as int]) {
                law_typed_source_is_held(b[k as int], new, value@);
            }
        },
        None => {},
    }
}

proof fn lemma_parent_index(tree: Seq<MacroNode>, segs: Seq<Seq<char>>)
    ensures
        find_parent(tree, segs) matches Some((b, k)) ==> k < b.len(),
    decreases segs.len(),
{
    if segs.len() >= 2 {
        match index_of(segs[0]) {
            Some(idx) => {
                if idx < tree.len() {
                    match arm_body(tree[idx as int], segs[1]) {
                        Some(l) => lemma_parent_index(l@, segs.skip(2)),
                        None => {},
                    }
                }
            },
            None => {},
        }
    }
}

/// A step that is deleted by path is gone: its body is one shorter and closes up behind it.
pub proof fn law_delete_by_path_removes_its_step(tree: &mut Vec<MacroNode>, path: &str, done: bool)
    requires
        call_ensures(delete_step, (tree, path), done),
    ensures
        done <==> find_parent(old(tree)@, segments(path@)) is Some,
        !done ==> *final(tree) == *old(tree),
        find_parent(old(tree)@, segments(path@)) matches Some((b, k)) ==> (k + 1 < b.len() ==> (
        find_parent(final(tree)@, segments(path@)) matches Some((c, j)) && j == k && c.len() + 1
            == b.len() && c[k as int] == b[k as int + 1])),
{
    let segs = segments(path@);
    match find_parent(old(tree)@, segs) {
        Some((b, k)) => {
            lemma_parent_index(old(tree)@, segs);
            law_change_is_found(old(tree)@, final(tree)@, segs, b.remove(k as int));
        },
        None => {},
    }
}

/// A step that is moved by path changes places with its neighbour, and stays where there is none.
pub proof fn law_move_by_path_swaps_neighbours(
    tree: &mut Vec<MacroNode>,
    path: &str,
    dir: i32,
    done: bool,
)
    requires
        call_ensures(move_step, (tree, path, dir), done),
    ensures
        find_parent(old(tree)@, segments(path@)) matches Some((b, k)) ==> (done <==> 0 <= k + dir
            < b.len()) && (done ==> (find_parent(final(tree)@, segments(path@)) matches Some((c, j)) && j
            == k && c.len() == b.len() && c[k as int] == b[k + dir] && c[k + dir] == b[k as int])),
        find_parent(old(tree)@, segments(path@)) is None ==> !done && *final(tree) == *old(tree),
{
    let segs = segments(path@);
    match find_parent(old(tree)@, segs) {
        Some((b, k)) => {
            lemma_parent_index(old(tree)@, segs);
            if done {
                law_change_is_found(
                    old(tree)@,
                    final(tree)@,
                    segs,
                    exchanged(b, k as int, k + dir),
                );
            }
        },
        None => {},
    }
}

/// A step that is added comes last in the body that its context names, fresh and of the kind asked for.
pub proof fn law_add_by_context_appends(
    tree: &mut Vec<MacroNode>,
    ctx: &str,
    kind: &str,
    r: Option<Added>,
)
    requires
        call_ensures(add_step, (tree, ctx, kind), r),
    ensures
        r is Some <==> known_kind(kind@) && find_body(old(tree)@, segments(ctx@)) is Some,
        r is None ==> *final(tree) == *old(tree),
        r matches Some(added) ==> (find_body(old(tree)@, segments(ctx@)) matches Some(b) && (find_body(
            final(tree)@,
            segments(ctx@),
        ) matches Some(c) && c.len() == b.len() + 1 && c.drop_last() == b && fresh(kind@, c.last())
            && added.path@ == child_path(ctx@, b.len()))),
        r matches Some(added) ==> (added.focus <==> kind@ != "raw"@),
{
    let segs = segments(ctx@);
    match (r, find_body(old(tree)@, segs)) {
        (Some(added), Some(b)) => {
            let node = choose|node: MacroNode| #[trigger]
                fresh(kind@, node) && rebuilt(old(tree)@, final(tree)@, segs, b.push(node));
            law_change_is_found(old(tree)@, final(tree)@, segs, b.push(node));
            assert(b.push(node).drop_last() =~= b);
        },
        _ => {},
    }
}

/// A path written for a child is that of its body and its number, parted by a dot.
pub proof fn law_child_paths(ctx: &str, i: usize, r: String)
    requires
        call_ensures(path_of_child, (ctx, i), r),
    ensures
        segments(r@) == segments(ctx@).push(decimal(i as nat)),
{
    lemma_child_segments(ctx@, i as nat);
}

// ── steps, their lanes and their values ─────────────────────────────────────────────────────────

/// A text is held as a text, a source as a source, each as it was given.
pub proof fn law_values_hold_what_was_given(s: &str, text: Value, source: Value, empty: Value)
    requires
        call_ensures(Value::str, (s,), text),
        call_ensures(Value::raw, (s,), source),
        call_ensures(Value::empty_str, (), empty),
    ensures
        text matches Value::Str { s: t } && t@ == s@,
        source matches Value::Raw { src: t } && t@ == s@,
        empty matches Value::Str { s: t } && t@.len() == 0,
{
}

/// A chord's keys are read as they are typed, and lowered only where they are pressed.
pub proof fn law_chord_keys_are_read(v: &str, parts: Vec<String>, lowered_parts: Vec<String>, i: int)
    requires
        call_ensures(key_parts, (v,), parts),
        call_ensures(split_keys, (v,), lowered_parts),
        0 <= i < parts@.len(),
    ensures
        lowered_parts@.len() == parts@.len(),
        lowered_parts@[i]@ == lowercase(parts@[i]@),
        parts@[i]@.len() > 0,
        texts(parts@) == chord_parts(v@),
{
    let t = texts(parts@);
    let l = texts(lowered_parts@);
    assert(t.len() == parts@.len() && l.len() == lowered_parts@.len());
    assert(t[i] == parts@[i]@);
    assert(l[i] == lowered_parts@[i]@);
    lemma_kept_are_something(all_trimmed(split_on(v@, chord_separators())), i);
}

proof fn lemma_kept_are_something(ss: Seq<Seq<char>>, i: int)
    requires
        0 <= i < nonempty(ss).len(),
    ensures
        nonempty(ss)[i].len() > 0,
    decreases ss.len(),
{
    if ss.len() > 0 {
        let before = nonempty(ss.drop_last());
        if i < before.len() {
            lemma_kept_are_something(ss.drop_last(), i);
        }
    }
}

/// A step's tag is the same however it is asked for, and its verb is a verb of that tag.
pub proof fn law_tag_and_verb_of_a_step(node: &MacroNode, kind: &'static str, verb: &'static str)
    requires
        call_ensures(macro_kind, (node,), kind),
        call_ensures(macro_verb, (kind,), verb),
    ensures
        verb@ == verb_of(kind@),
        *node is Type ==> kind@ == "type"@,
        *node is Press ==> kind@ == "press"@,
        *node is KeyPress ==> kind@ == "key_press"@,
        *node is Click ==> kind@ == "click"@,
        *node is Scroll ==> kind@ == "scroll"@,
        *node is MoveTo ==> kind@ == "move_to"@,
        *node is Copy ==> kind@ == "copy"@,
        *node is Paste ==> kind@ == "paste"@,
        *node is Open ==> kind@ == "open"@,
        *node is Focus ==> kind@ == "focus"@,
        *node is Wait ==> kind@ == "wait"@,
        *node is Notify ==> kind@ == "notify"@,
        *node is Ask ==> kind@ == "ask"@,
        *node is If ==> kind@ == "if"@,
        *node is RepeatN ==> kind@ == "repeat_n"@,
        *node is RepeatWhile ==> kind@ == "repeat_while"@,
        *node is ForEach ==> kind@ == "for_each"@,
        *node is SetVar ==> kind@ == "set_var"@,
        *node is Stop ==> kind@ == "stop"@,
        *node is Try ==> kind@ == "try"@,
        *node is Raw ==> kind@ == "raw"@,
{
}

/// The lanes of a step are found by their names, and lead to its own steps.
pub proof fn law_lanes_lead_to_their_steps(node: &MacroNode, a: Option<&Vec<MacroNode>>, b: Option<&Vec<MacroNode>>, c: Option<&Vec<MacroNode>>)
    requires
        call_ensures(lane_body, (node, "yes"), a),
        call_ensures(lane_body, (node, "no"), b),
        call_ensures(lane_body, (node, "else"), c),
    ensures
        *node matches MacroNode::Ask { yes, no, .. } ==> (a matches Some(x) && *x == yes) && (b matches Some(x)
            && *x == no) && c is None,
        *node matches MacroNode::If { else_, .. } ==> (c matches Some(x) && *x == else_) && a is None && b is None,
        *node is Type ==> a is None && b is None && c is None,
{
    reveal_strlit("yes");
    reveal_strlit("no");
    reveal_strlit("then");
    reveal_strlit("else");
    assert("yes"@.len() == 3 && "no"@.len() == 2 && "then"@.len() == 4 && "else"@.len() == 4);
    assert("then"@[0] != "else"@[0]);
}

/// The lanes are listed in the order in which they are shown, each with its own steps.
pub proof fn law_lanes_are_listed(node: &MacroNode, r: Vec<(&'static str, &'static str, &[MacroNode])>)
    requires
        call_ensures(node_lanes, (node,), r),
    ensures
        *node matches MacroNode::Ask { yes, no, .. } ==> r@.len() == 2 && r@[0].0@ == "yes"@ && r@[0].2@ == yes@
            && r@[1].0@ == "no"@ && r@[1].2@ == no@,
        *node matches MacroNode::If { then_, else_, .. } ==> r@.len() == 2 && r@[0].0@ == "then"@ && r@[0].2@
            == then_@ && r@[1].0@ == "else"@ && r@[1].2@ == else_@,
        *node matches MacroNode::Try { body, except_ } ==> r@.len() == 2 && r@[0].0@ == "body"@ && r@[0].2@
            == body@ && r@[1].0@ == "error"@ && r@[1].2@ == except_@,
        *node matches MacroNode::RepeatN { body, .. } ==> r@.len() == 1 && r@[0].0@ == "body"@ && r@[0].2@
            == body@,
        *node is Wait ==> r@.len() == 0,
{
    let l = lanes(*node);
    if r@.len() > 0 {
        assert(r@[0].0@ == l[0].0 && r@[0].2@ == l[0].1);
    }
    if r@.len() > 1 {
        assert(r@[1].0@ == l[1].0 && r@[1].2@ == l[1].1);
    }
}

/// Two items of a list change places, and no other moves.
pub proof fn law_exchange_swaps_two<T>(v: &mut Vec<T>, w: &mut Vec<T>, i: usize, j: usize, k: int)
    requires
        i < old(v)@.len(),
        j < old(v)@.len(),
        call_ensures(exchange::<T>, (v, i, j), ()),
        *old(w) == *final(v),
        call_ensures(exchange::<T>, (w, i, j), ()),
        0 <= k < old(v)@.len(),
    ensures
        final(v)@.len() == old(v)@.len(),
        final(v)@[i as int] == old(v)@[j as int] && final(v)@[j as int] == old(v)@[i as int],
        k != i && k != j ==> final(v)@[k] == old(v)@[k],
        final(w)@ == old(v)@,
{
    assert(final(w)@ =~= old(v)@);
}

/// A path is its segments between dots.
pub proof fn law_path_is_cut_at_its_dots(path: &str, r: Vec<String>, ss: Seq<Seq<char>>)
    requires
        call_ensures(path_segments, (path,), r),
        ss.len() > 0,
        path@ == joined(ss, seq!['.']),
        forall|i: int| 0 <= i < ss.len() ==> (#[trigger] ss[i]).len() > 0 && free_of(ss[i], seq!['.']),
    ensures
        texts(r@) == ss,
{
    assert(seq!['.'][0] == '.');
    law_joined_is_cut_apart(ss, '.', seq!['.']);
    lemma_all_kept(ss);
}

proof fn lemma_all_kept(ss: Seq<Seq<char>>)
    requires
        forall|i: int| 0 <= i < ss.len() ==> (#[trigger] ss[i]).len() > 0,
    ensures
        nonempty(ss) == ss,
    decreases ss.len(),
{
    if ss.len() > 0 {
        let front = ss.drop_last();
        assert forall|i: int| 0 <= i < front.len() implies (#[trigger] front[i]).len() > 0 by {
            assert(front[i] == ss[i]);
        }
        lemma_all_kept(front);
        assert(ss[ss.len() - 1].len() > 0);
        assert(front.push(ss.last()) =~= ss);
    }
}

/// The place where a step can be added is drawn in its context.
pub proof fn law_place_to_add_is_drawn(ctx: &str, depth: i32, r: MacroBlock)
    requires
        call_ensures(add_row, (ctx, depth), r),
    ensures
        r@.row == "add"@ && r@.path == ctx@ && r@.depth == depth,
        r@.kind.len() == 0 && r@.verb.len() == 0 && r@.value.len() == 0 && !r@.last,
{
}

/// The steps are counted with those in their lanes.
pub proof fn law_steps_are_counted(a: &[MacroNode], b: &[MacroNode], last: MacroNode, m: i32, n: i32)
    requires
        b@ == a@.push(last),
        node_count(b@) <= i32::MAX,
        node_count(a@) <= i32::MAX,
        call_ensures(count_macro_nodes, (a,), m),
        call_ensures(count_macro_nodes, (b,), n),
    ensures
        last is Wait || last is Type || last is Stop || last is Raw ==> n == m + 1,
        last matches MacroNode::RepeatN { body, .. } ==> n == m + 1 + node_count(body@),
        last matches MacroNode::If { then_, else_, .. } ==> n == m + 1 + node_count(then_@) + node_count(else_@),
        last matches MacroNode::Ask { yes, no, .. } ==> n == m + 1 + node_count(yes@) + node_count(no@),
        node_count(Seq::<MacroNode>::empty()) == 0,
{
    assert(b@.drop_last() =~= a@);
    assert(b@.last() == last);
    lemma_lanes_counted(last);
}

proof fn lemma_lanes_counted(node: MacroNode)
    ensures
        lanes_count(node, 0) == 0,
        lanes(node).len() == 1 ==> lanes_count(node, 1) == node_count(lanes(node)[0].1),
        lanes(node).len() == 2 ==> lanes_count(node, 2) == node_count(lanes(node)[0].1) + node_count(
            lanes(node)[1].1,
        ),
{
    reveal_with_fuel(lanes_count, 2);
    assert(lanes_count(node, 0) == 0);
    if lanes(node).len() >= 1 {
        assert(lanes_count(node, 1) == lanes_count(node, 0) + node_count(lanes(node)[0].1));
    }
    if lanes(node).len() >= 2 {
        assert(lanes_count(node, 2) == lanes_count(node, 1) + node_count(lanes(node)[1].1));
    }
}

/// Flattening adds the rows behind those that are there, and ends with the place to add one more.
pub proof fn law_flattened_rows_come_behind(
    nodes: &[MacroNode],
    depth: i32,
    prefix: &str,
    sources: &Vec<String>,
    out: &mut Vec<MacroBlock>,
    i: int,
)
    requires
        call_ensures(flatten_macro, (nodes, depth, prefix, sources, out), ()),
        0 <= i < old(out)@.len(),
    ensures
        final(out)@.len() > old(out)@.len(),
        final(out)@[i] == old(out)@[i],
        rows(final(out)@).last() == add_block(prefix@, depth as int),
{
    assert(rows(final(out)@).len() == final(out)@.len());
    assert(rows(old(out)@).len() == old(out)@.len());
}

/// A step is as high as the highest of its lanes and one more; a list is as high as its highest step, and
/// fits where twice that is counted.
pub proof fn law_heights(nodes: &[MacroNode], i: int, l: int, fits: bool, counts: bool)
    requires
        call_ensures(canvas_fits, (nodes,), fits),
        call_ensures(count_fits, (nodes,), counts),
        0 <= i < nodes@.len(),
        0 <= l < lanes(nodes@[i]).len(),
    ensures
        height(nodes@) >= 1 + height(lanes(nodes@[i])[l].1),
        fits ==> height(nodes@) + height(nodes@) <= i32::MAX,
        !fits ==> height(nodes@) + height(nodes@) > i32::MAX,
        counts <==> node_count(nodes@) <= i32::MAX,
{
    lemma_lane_height(nodes@[i], lanes(nodes@[i]).len(), l);
    lemma_step_height(nodes@, i);
}

proof fn lemma_lane_height(node: MacroNode, k: nat, l: int)
    requires
        k <= lanes(node).len(),
        0 <= l < k,
    ensures
        lanes_height(node, k) >= 1 + height(lanes(node)[l].1),
    decreases k,
{
    reveal_with_fuel(lanes_height, 2);
    if l < k - 1 {
        lemma_lane_height(node, (k - 1) as nat, l);
    }
}

proof fn lemma_step_height(nodes: Seq<MacroNode>, i: int)
    requires
        0 <= i < nodes.len(),
    ensures
        height(nodes) >= step_height(nodes[i]),
    decreases nodes.len(),
{
    reveal_with_fuel(height, 2);
    if i < nodes.len() - 1 {
        lemma_step_height(nodes.drop_last(), i);
        assert(nodes.drop_last()[i] == nodes[i]);
    } else {
        assert(nodes.last() == nodes[i]);
    }
}

/// A step shows its own values first, then those of its lanes, in their order.
pub proof fn law_lanes_are_shown_in_order(node: MacroNode, a: Seq<MacroNode>)
    ensures
        lanes(node).len() == 0 ==> step_shown(node) == own_values(node),
        lanes(node).len() == 1 ==> step_shown(node) == own_values(node) + shown(lanes(node)[0].1),
        lanes(node).len() == 2 ==> step_shown(node) == own_values(node) + (shown(lanes(node)[0].1) + shown(
            lanes(node)[1].1,
        )),
        shown(a.push(node)) == shown(a) + step_shown(node),
{
    reveal_with_fuel(lanes_shown, 2);
    assert(lanes_shown(node, 0) =~= Seq::<Value>::empty());
    if lanes(node).len() >= 1 {
        assert(lanes_shown(node, 1) =~= shown(lanes(node)[0].1));
    }
    if lanes(node).len() >= 2 {
        assert(lanes_shown(node, 2) == lanes_shown(node, 1) + shown(lanes(node)[1].1));
    }
    assert(step_shown(node) =~= own_values(node) + lanes_shown(node, lanes(node).len()));
    if lanes(node).len() == 0 {
        assert(step_shown(node) =~= own_values(node));
    }
    reveal_with_fuel(shown, 2);
    assert(a.push(node).drop_last() =~= a);
}

} // verus!
