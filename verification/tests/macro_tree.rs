use neuron_app::canvas::{
    canvas_fits, count_fits, count_macro_nodes, emit_body, flatten_macro, node_lanes, shown_values,
    MacroBlock,
};
use neuron_app::macros::{
    add_step, body_at_context, default_node, delete_step, edit_node_value, edit_step, exchange,
    key_parts, lane_body, macro_kind, macro_verb, move_step, node_arm_body, node_at_path,
    parent_body_and_index, path_of_child, path_segments, split_keys, MacroNode, Value,
};

/// The source text of an expression.
fn source_of(v: &Value) -> String {
    match v {
        Value::Str { s } => format!("\"{s}\""),
        Value::Int { n } => n.to_string(),
        Value::Bool { b } => if *b { "True".to_string() } else { "False".to_string() },
        Value::Ctx { field } => format!("ctx.{field}"),
        Value::Bin { op, left, right } => {
            format!("({} {op} {})", source_of(left), source_of(right))
        }
        Value::Raw { src } => src.clone(),
    }
}

fn flat(nodes: &[MacroNode]) -> Vec<MacroBlock> {
    let sources: Vec<String> = shown_values(nodes).into_iter().map(source_of).collect();
    let mut out = Vec::new();
    flatten_macro(nodes, 0, "", &sources, &mut out);
    out
}

/// [type "hi", ask{yes:[notify], no:[open]}, press ctrl+c].
fn fixture() -> Vec<MacroNode> {
    vec![
        MacroNode::Type { text: Value::str("hi"), as_ghost: false, speed: None },
        MacroNode::Ask {
            question: Value::str("go?"),
            description: Value::empty_str(),
            yes: vec![MacroNode::Notify { text: Value::str("yes") }],
            no: vec![MacroNode::Open { command: Value::str("notepad"), capture: None }],
        },
        MacroNode::Press { keys: vec!["ctrl".into(), "c".into()] },
    ]
}

#[test]
fn node_at_path_resolves_root_and_branches() {
    let mut t = fixture();
    assert!(matches!(node_at_path(&mut t, "0"), Some(MacroNode::Type { .. })));
    assert!(matches!(node_at_path(&mut t, "1"), Some(MacroNode::Ask { .. })));
    assert!(matches!(node_at_path(&mut t, "1.yes.0"), Some(MacroNode::Notify { .. })));
    assert!(matches!(node_at_path(&mut t, "1.no.0"), Some(MacroNode::Open { .. })));
    assert!(matches!(node_at_path(&mut t, "2"), Some(MacroNode::Press { .. })));
}

#[test]
fn node_at_path_rejects_bad_paths() {
    let mut t = fixture();
    assert!(node_at_path(&mut t, "").is_none());
    assert!(node_at_path(&mut t, "9").is_none());
    assert!(node_at_path(&mut t, "0.yes.0").is_none());
    assert!(node_at_path(&mut t, "1.maybe.0").is_none());
    assert!(node_at_path(&mut t, "1.yes.5").is_none());
}

#[test]
fn nested_ask_path_recurses() {
    let mut t = vec![
        MacroNode::Notify { text: Value::str("a") },
        MacroNode::Ask {
            question: Value::str("outer"),
            description: Value::empty_str(),
            yes: vec![MacroNode::Ask {
                question: Value::str("inner"),
                description: Value::empty_str(),
                yes: vec![],
                no: vec![MacroNode::Open { command: Value::str("x"), capture: None }],
            }],
            no: vec![],
        },
    ];
    assert!(matches!(node_at_path(&mut t, "1.yes.0.no.0"), Some(MacroNode::Open { .. })));
}

#[test]
fn flow_arm_paths_resolve_for_every_kind() {
    let mut t = vec![
        MacroNode::If {
            cond: Value::Bool { b: true },
            then_: vec![MacroNode::Notify { text: Value::str("t") }],
            else_: vec![MacroNode::Notify { text: Value::str("e") }],
        },
        MacroNode::ForEach {
            var: "line".into(),
            source: Value::empty_str(),
            body: vec![MacroNode::Notify { text: Value::str("b") }],
        },
        MacroNode::Try {
            body: vec![MacroNode::Notify { text: Value::str("ok") }],
            except_: vec![MacroNode::Notify { text: Value::str("err") }],
        },
    ];
    assert!(matches!(node_at_path(&mut t, "0.then.0"), Some(MacroNode::Notify { .. })));
    assert!(matches!(node_at_path(&mut t, "0.else.0"), Some(MacroNode::Notify { .. })));
    assert!(matches!(node_at_path(&mut t, "1.body.0"), Some(MacroNode::Notify { .. })));
    assert!(matches!(node_at_path(&mut t, "2.body.0"), Some(MacroNode::Notify { .. })));
    assert!(matches!(node_at_path(&mut t, "2.error.0"), Some(MacroNode::Notify { .. })));
    // an `if` has no `body`
    assert!(node_at_path(&mut t, "0.body.0").is_none());
}

#[test]
fn body_at_context_targets_the_right_body() {
    let mut t = fixture();
    assert_eq!(body_at_context(&mut t, "").map(|b| b.len()), Some(3));
    assert_eq!(body_at_context(&mut t, "1.yes").map(|b| b.len()), Some(1));
    assert_eq!(body_at_context(&mut t, "1.no").map(|b| b.len()), Some(1));
    assert!(body_at_context(&mut t, "0.yes").is_none());
}

#[test]
fn default_node_covers_every_kind() {
    for kind in [
        "type",
        "press",
        "key_press",
        "click",
        "scroll",
        "move_to",
        "copy",
        "paste",
        "open",
        "focus",
        "wait",
        "notify",
        "ask",
        "if",
        "repeat_n",
        "repeat_while",
        "for_each",
        "set_var",
        "stop",
        "try",
        "raw",
    ] {
        assert!(default_node(kind).is_some(), "kind '{kind}' must default");
    }
    assert!(default_node("bogus").is_none());
    let MacroNode::Ask { yes, no, question, .. } = default_node("ask").unwrap() else {
        panic!("ask");
    };
    assert!(yes.is_empty() && no.is_empty() && question == Value::empty_str());
    let MacroNode::If { then_, else_, .. } = default_node("if").unwrap() else {
        panic!("if");
    };
    assert!(then_.is_empty() && else_.is_empty());
    let MacroNode::Try { body, except_ } = default_node("try").unwrap() else {
        panic!("try");
    };
    assert!(body.is_empty() && except_.is_empty());
}

#[test]
fn edit_step_sets_each_param() {
    let mut t = fixture();
    edit_node_value(node_at_path(&mut t, "0").unwrap(), "bye".into());
    assert_eq!(
        node_at_path(&mut t, "0"),
        Some(&mut MacroNode::Type { text: Value::str("bye"), as_ghost: false, speed: None })
    );
    edit_node_value(node_at_path(&mut t, "1").unwrap(), "ready?".into());
    if let Some(MacroNode::Ask { question, .. }) = node_at_path(&mut t, "1") {
        assert_eq!(*question, Value::str("ready?"));
    } else {
        panic!("ask");
    }
    edit_node_value(node_at_path(&mut t, "2").unwrap(), "Ctrl + Shift, s".into());
    if let Some(MacroNode::Press { keys }) = node_at_path(&mut t, "2") {
        assert_eq!(*keys, vec!["ctrl", "shift", "s"]);
    } else {
        panic!("press");
    }
}

#[test]
fn edit_step_expr_params_become_raw() {
    let mut t = vec![
        MacroNode::If { cond: Value::Bool { b: true }, then_: vec![], else_: vec![] },
        MacroNode::RepeatN { count: Value::Int { n: 1 }, body: vec![] },
        MacroNode::ForEach { var: "x".into(), source: Value::empty_str(), body: vec![] },
        MacroNode::SetVar { name: "x".into(), value: Value::empty_str() },
    ];
    edit_node_value(node_at_path(&mut t, "0").unwrap(), "ctx.app == \"a\"".into());
    assert!(matches!(
        node_at_path(&mut t, "0"),
        Some(MacroNode::If { cond: Value::Raw { .. }, .. })
    ));
    edit_node_value(node_at_path(&mut t, "1").unwrap(), "len(ctx.selection)".into());
    assert!(matches!(
        node_at_path(&mut t, "1"),
        Some(MacroNode::RepeatN { count: Value::Raw { .. }, .. })
    ));
    edit_node_value(
        node_at_path(&mut t, "2").unwrap(),
        "line in ctx.selection.splitlines()".into(),
    );
    if let Some(MacroNode::ForEach { var, source, .. }) = node_at_path(&mut t, "2") {
        assert_eq!(var, "line");
        assert_eq!(*source, Value::raw("ctx.selection.splitlines()"));
    } else {
        panic!("for_each");
    }
    edit_node_value(node_at_path(&mut t, "3").unwrap(), "n = 1 + 2".into());
    if let Some(MacroNode::SetVar { name, value }) = node_at_path(&mut t, "3") {
        assert_eq!(name, "n");
        assert_eq!(*value, Value::raw("1 + 2"));
    } else {
        panic!("set_var");
    }
}

#[test]
fn delete_step_removes_and_takes_branches() {
    let mut t = fixture();
    let (body, idx) = parent_body_and_index(&mut t, "1").unwrap();
    body.remove(idx);
    assert_eq!(t.len(), 2);
    assert!(matches!(t[0], MacroNode::Type { .. }));
    assert!(matches!(t[1], MacroNode::Press { .. }));
    let mut t2 = fixture();
    let (body, idx) = parent_body_and_index(&mut t2, "1.no.0").unwrap();
    body.remove(idx);
    let MacroNode::Ask { no, .. } = &t2[1] else {
        panic!("ask");
    };
    assert!(no.is_empty());
}

#[test]
fn move_step_reorders_within_its_body_and_clamps() {
    let mut t = fixture();
    let (body, idx) = parent_body_and_index(&mut t, "0").unwrap();
    let target = idx as i32 + 1;
    assert!(target >= 0 && (target as usize) < body.len());
    body.swap(idx, target as usize);
    assert!(matches!(t[0], MacroNode::Ask { .. }));
    assert!(matches!(t[1], MacroNode::Type { .. }));
    let mut t2 = fixture();
    let (body, idx) = parent_body_and_index(&mut t2, "0").unwrap();
    let target = idx as i32 - 1;
    assert!(target < 0, "moving the head up must be rejected (clamp)");
    let _ = body;
    assert!(matches!(t2[0], MacroNode::Type { .. }));
}

#[test]
fn flatten_emits_steps_lanes_and_add_points() {
    let out = flat(&fixture());
    let rows: Vec<(String, String, String)> = out
        .iter()
        .map(|b| (b.row.to_string(), b.path.to_string(), b.kind.to_string()))
        .collect();
    assert_eq!(rows[0], ("step".into(), "0".into(), "type".into()));
    assert_eq!(rows[1], ("step".into(), "1".into(), "ask".into()));
    assert_eq!(rows[2], ("lane".into(), "1".into(), "yes".into()));
    assert_eq!(rows[3], ("step".into(), "1.yes.0".into(), "notify".into()));
    assert_eq!(rows[4], ("add".into(), "1.yes".into(), "".into()));
    assert_eq!(rows[5], ("lane".into(), "1".into(), "no".into()));
    assert_eq!(rows[6], ("step".into(), "1.no.0".into(), "open".into()));
    assert_eq!(rows[7], ("add".into(), "1.no".into(), "".into()));
    assert_eq!(rows[8], ("step".into(), "2".into(), "press".into()));
    let last = rows.last().unwrap();
    assert_eq!(last, &("add".into(), "".into(), "".into()));
}

#[test]
fn flatten_exposes_all_flow_lanes() {
    let t = vec![
        MacroNode::If { cond: Value::Bool { b: true }, then_: vec![], else_: vec![] },
        MacroNode::ForEach { var: "x".into(), source: Value::empty_str(), body: vec![] },
        MacroNode::Try { body: vec![], except_: vec![] },
    ];
    let out = flat(&t);
    let lanes: Vec<(String, String)> = out
        .iter()
        .filter(|b| b.row == "lane")
        .map(|b| (b.path.to_string(), b.kind.to_string()))
        .collect();
    assert_eq!(
        lanes,
        vec![
            ("0".into(), "then".into()),
            ("0".into(), "else".into()),
            ("1".into(), "body".into()),
            ("2".into(), "body".into()),
            ("2".into(), "error".into()),
        ]
    );
    let adds: Vec<String> =
        out.iter().filter(|b| b.row == "add").map(|b| b.path.to_string()).collect();
    assert!(adds.contains(&"0.then".to_string()));
    assert!(adds.contains(&"2.error".to_string()));
}

#[test]
fn flatten_empty_tree_is_just_the_root_add() {
    let out = flat(&[]);
    assert_eq!(out.len(), 1, "empty macro = the lone root +add invitation");
    assert_eq!(out[0].row, "add");
    assert_eq!(out[0].path, "");
}

#[test]
fn flatten_step_verb_and_value_are_plain_language() {
    let out = flat(&fixture());
    let step0 = &out[0];
    assert_eq!(step0.verb, "type");
    assert_eq!(step0.value, "\"hi\"");
    let hk = out.iter().find(|b| b.kind == "press").unwrap();
    assert_eq!(hk.verb, "press");
    assert_eq!(hk.value, "ctrl+c");
}

#[test]
fn flatten_renders_value_expressions() {
    let t = vec![MacroNode::Notify {
        text: Value::Bin {
            op: "+".into(),
            left: Box::new(Value::str("got ")),
            right: Box::new(Value::Ctx { field: "app".into() }),
        },
    }];
    let out = flat(&t);
    assert_eq!(out[0].value, "(\"got \" + ctx.app)");
}

#[test]
fn rows_lead_back_to_their_steps() {
    let mut t = fixture();
    for b in flat(&fixture()) {
        if b.row == "step" {
            let node = node_at_path(&mut t, &b.path).unwrap();
            assert_eq!(macro_kind(node), b.kind);
        }
        if b.row == "add" {
            assert!(body_at_context(&mut t, &b.path).is_some());
        }
    }
}

#[test]
fn an_added_step_is_found_and_deletes_again() {
    let mut t = fixture();
    let added = add_step(&mut t, "1.yes", "wait").unwrap();
    assert_eq!(added.path, "1.yes.1");
    assert!(added.focus);
    assert!(matches!(node_at_path(&mut t, "1.yes.1"), Some(MacroNode::Wait { .. })));
    assert!(delete_step(&mut t, "1.yes.1"));
    assert_eq!(t, fixture());
    // a verbatim step has no field to focus
    assert!(!add_step(&mut t, "", "raw").unwrap().focus);
    assert!(add_step(&mut t, "", "bogus").is_none());
    assert!(add_step(&mut t, "0.yes", "wait").is_none());
}

#[test]
fn a_step_moves_there_and_back() {
    let mut t = fixture();
    assert!(move_step(&mut t, "0", 1));
    assert!(matches!(t[0], MacroNode::Ask { .. }));
    assert!(move_step(&mut t, "1", -1));
    assert_eq!(t, fixture());
    assert!(!move_step(&mut t, "0", -1));
    assert!(!move_step(&mut t, "2", 1));
    assert!(!move_step(&mut t, "7", 1));
    assert_eq!(t, fixture());
}

#[test]
fn an_edit_changes_one_step_alone() {
    let mut t = fixture();
    assert!(edit_step(&mut t, "1.no.0", "calc".into()));
    assert_eq!(
        node_at_path(&mut t, "1.no.0"),
        Some(&mut MacroNode::Open { command: Value::str("calc"), capture: None })
    );
    assert_eq!(t[0], fixture()[0]);
    assert_eq!(t[2], fixture()[2]);
    // the later of two edits stays
    assert!(edit_step(&mut t, "0", "a".into()));
    assert!(edit_step(&mut t, "0", "b".into()));
    assert_eq!(t[0], MacroNode::Type { text: Value::str("b"), as_ghost: false, speed: None });
    assert!(!edit_step(&mut t, "9", "c".into()));
}

#[test]
fn coordinates_are_edited_as_a_pair() {
    let mut n = MacroNode::MoveTo { x: Value::Int { n: 1 }, y: Value::Int { n: 2 } };
    edit_node_value(&mut n, "10, 20".into());
    assert_eq!(n, MacroNode::MoveTo { x: Value::raw("10"), y: Value::raw("20") });
}

#[test]
fn kinds_have_verbs() {
    assert_eq!(macro_verb("key_press"), "key");
    assert_eq!(macro_verb("for_each"), "for each");
    assert_eq!(macro_verb("raw"), "code");
    assert_eq!(macro_verb("wait"), "wait");
    assert_eq!(macro_verb("bogus"), "");
    for kind in ["type", "move_to", "repeat_n", "stop"] {
        assert_eq!(macro_kind(&default_node(kind).unwrap()), kind);
    }
}

#[test]
fn lanes_are_the_arms_of_a_step() {
    let mut t = fixture();
    let names: Vec<&str> = node_lanes(&t[1]).iter().map(|l| l.0).collect();
    assert_eq!(names, vec!["yes", "no"]);
    assert_eq!(lane_body(&t[1], "no").map(|b| b.len()), Some(1));
    assert!(lane_body(&t[0], "yes").is_none());
    assert_eq!(node_arm_body(&mut t[1], "yes").map(|b| b.len()), Some(1));
    assert_eq!(count_macro_nodes(&t), 5);
}

/// What a step shows in its field.
fn field_of(t: &mut Vec<MacroNode>, path: &str) -> String {
    match node_at_path(t, path) {
        Some(MacroNode::Type { text, .. }) | Some(MacroNode::Notify { text }) => source_of(text),
        Some(MacroNode::Ask { question, .. }) => source_of(question),
        Some(MacroNode::Open { command, .. }) => source_of(command),
        Some(MacroNode::Press { keys }) => keys.join("+"),
        other => panic!("no step of the fixture: {other:?}"),
    }
}

#[test]
fn a_step_row_shows_the_step_of_its_path() {
    let mut t = fixture();
    let rows = flat(&t);
    let steps: Vec<&MacroBlock> = rows.iter().filter(|r| r.row == "step").collect();
    let shown: Vec<&str> = steps.iter().map(|r| r.value.as_str()).collect();
    assert_eq!(shown, vec!["\"hi\"", "\"go?\"", "\"yes\"", "\"notepad\"", "ctrl+c"]);
    for r in steps {
        assert_eq!(field_of(&mut t, &r.path), r.value);
    }
}

#[test]
fn no_two_rows_of_one_sort_share_a_place() {
    let rows = flat(&fixture());
    for (i, a) in rows.iter().enumerate() {
        for b in rows.iter().skip(i + 1) {
            if a.row == b.row && a.path == b.path {
                assert_eq!(a.row, "lane");
                assert_ne!(a.kind, b.kind);
            }
        }
    }
}

#[test]
fn rows_are_as_many_as_the_tree_asks_for() {
    let t = fixture();
    let rows = flat(&t);
    let count = |sort: &str| rows.iter().filter(|r| r.row == sort).count();
    assert_eq!(count("step"), 5);
    assert_eq!(count_macro_nodes(&t), 5);
    assert_eq!(count("lane"), 2);
    assert_eq!(count("add"), 3);
    for (i, lane) in rows.iter().enumerate().filter(|(_, r)| r.row == "lane") {
        let body = format!("{}.{}", lane.path, lane.kind);
        let close = rows.iter().position(|r| r.row == "add" && r.path == body).unwrap();
        assert!(i < close);
        assert_eq!(rows[close].depth, lane.depth + 1);
    }
    assert!(rows.iter().all(|r| r.depth >= 0));
    let last: Vec<&str> = rows.iter().filter(|r| r.last).map(|r| r.path.as_str()).collect();
    assert_eq!(last, vec!["1.yes.0", "1.no.0", "2"]);
}

#[test]
fn a_body_is_emitted_behind_what_is_there() {
    let mut t = fixture();
    let sources: Vec<String> = vec!["skipped".to_string(), "\"notepad\"".to_string()];
    let mut out = flat(&t);
    let before = out.len();
    let body = lane_body(&t[1], "no").unwrap();
    assert_eq!(emit_body(body, 2, "1.no", &sources, 1, &mut out), 2);
    assert_eq!(out[..before], flat(&t)[..]);
    assert_eq!(out.len(), before + 1);
    let row = &out[before];
    assert_eq!((row.row.as_str(), row.path.as_str(), row.depth), ("step", "1.no.0", 2));
    assert_eq!((row.kind.as_str(), row.value.as_str(), row.last), ("open", "\"notepad\"", true));
    assert!(matches!(node_at_path(&mut t, &row.path), Some(MacroNode::Open { .. })));
}

#[test]
fn a_whole_tree_is_emitted_without_its_own_insert_point() {
    let mut t = fixture();
    let sources: Vec<String> = shown_values(&t).into_iter().map(source_of).collect();
    let mut rows: Vec<MacroBlock> = Vec::new();
    assert_eq!(emit_body(&t, 0, "", &sources, 0, &mut rows), 4);
    let all = flat(&t);
    assert_eq!(rows[..], all[..all.len() - 1]);
    let count = |sort: &str| rows.iter().filter(|r| r.row == sort).count();
    assert_eq!((count("step"), count("lane"), count("add")), (5, 2, 2));
    for r in &rows {
        match r.row.as_str() {
            "step" => assert_eq!(macro_kind(node_at_path(&mut t, &r.path).unwrap()), r.kind),
            "add" => assert!(body_at_context(&mut t, &r.path).is_some()),
            _ => assert!(!r.last),
        }
    }
}

/// Whether a later step of the same body follows the row.
fn goes_on(rows: &[MacroBlock], a: usize) -> bool {
    rows[a + 1..]
        .iter()
        .take_while(|r| r.depth >= rows[a].depth)
        .any(|r| r.row == "step" && r.depth == rows[a].depth)
}

#[test]
fn the_final_step_of_each_body_is_marked() {
    let nested = vec![MacroNode::Try { body: fixture(), except_: fixture() }, fixture().remove(0)];
    for tree in [fixture(), nested] {
        let rows = flat(&tree);
        for (i, r) in rows.iter().enumerate() {
            assert_eq!(r.last, r.row == "step" && !goes_on(&rows, i));
        }
    }
}

#[test]
fn an_ordinary_tree_fits() {
    assert!(canvas_fits(&fixture()));
    assert!(count_fits(&fixture()));
    assert!(canvas_fits(&[]));
    let mut deep = fixture();
    for _ in 0..40 {
        deep = vec![MacroNode::RepeatWhile { cond: Value::raw("x"), body: deep }];
    }
    assert!(canvas_fits(&deep) && count_fits(&deep));
    assert_eq!(flat(&deep).iter().map(|r| r.depth).max(), Some(82));
}

#[test]
fn chords_split_and_lower() {
    assert_eq!(key_parts("Ctrl+ C"), vec!["Ctrl", "C"]);
    assert_eq!(split_keys("CTRL,,ÄPFEL"), vec!["ctrl", "äpfel"]);
    assert!(split_keys(" + ").is_empty());
}

#[test]
fn paths_are_written_and_read() {
    assert_eq!(path_of_child("", 3), "3");
    assert_eq!(path_of_child("1.yes", 0), "1.yes.0");
    assert_eq!(path_segments("1.yes.0"), vec!["1", "yes", "0"]);
    assert!(path_segments("").is_empty());
}

#[test]
fn two_items_change_places() {
    let mut v = vec![1, 2, 3];
    exchange(&mut v, 0, 2);
    assert_eq!(v, vec![3, 2, 1]);
    exchange(&mut v, 1, 1);
    assert_eq!(v, vec![3, 2, 1]);
}
