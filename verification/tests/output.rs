use lavish::output::{Brackets, Code, List, Scope, Writer};

#[test]
fn test_scope() {
    let mut w = Writer::new(String::new());
    {
        let mut s = Scope::new(&mut w);
        s.line("fn sample() {");
        {
            let mut s = s.scope();
            s.line("let a = {");
            {
                let mut s = s.scope();
                let val = 7;
                s.line(&format!("let tmp = {val};", val = val));
                s.line("// a blank line follows");
                s.lf();
                s.line("tmp + 3");
            }
            s.line("};");
        }
        s.line("}");
    }

    let s = w.into_inner();
    assert_eq!(
        s,
        r#"fn sample() {
    let a = {
        let tmp = 7;
        // a blank line follows

        tmp + 3
    };
}
"#,
    );
}

#[test]
fn write_indents_every_line_it_starts() {
    let mut w = Writer::new(String::from("x\n"));
    {
        let mut s = Scope::new(&mut w);
        let mut inner = s.scope();
        inner.write("a\nb\n\nc");
        inner.write("d");
        inner.lf();
    }
    assert_eq!(w.into_inner(), "x\n    a\n    b\n\n    cd\n");
}

#[test]
fn brackets_pairs() {
    assert_eq!(Brackets::Round.pair(), ("(", ")"));
    assert_eq!(Brackets::Squares.pair(), ("[", "]"));
    assert_eq!(Brackets::Curly.pair(), ("{", "}"));
    assert_eq!(Brackets::Angle.pair(), ("<", ">"));
    assert_eq!(Brackets::Bare.pair(), ("", ""));
    assert_eq!(Brackets::Angle.open(), "<");
    assert_eq!(Brackets::Angle.close(), ">");
}

#[test]
fn list_writes_brackets_and_separators() {
    let mut w = Scope::writer();
    {
        let mut s = Scope::new(&mut w);
        {
            let mut l = List::new(&mut s, ", ", Brackets::Round);
            l.item("a");
            l.item("b");
            l.item("c");
            l.finish();
        }
        s.lf();
        {
            let l = List::new(&mut s, ", ", Brackets::Round);
            l.finish();
        }
        s.lf();
        {
            let mut l = List::new(&mut s, ", ", Brackets::Angle);
            l.omit_empty();
            l.finish();
        }
        s.lf();
        s.in_list(Brackets::Squares, false, &vec![String::from("x")]);
        s.in_list(Brackets::Angle, true, &vec![]);
        s.in_list(Brackets::Curly, false, &vec![]);
        s.lf();
    }
    assert_eq!(w.into_inner(), "(a, b, c)\n()\n\n[x]{}\n");
}

#[test]
fn block_after_text_and_at_line_start() {
    let mut w = Scope::writer();
    {
        let mut s = Scope::new(&mut w);
        s.write("impl X");
        s.in_block(&vec![
            Code::Line(String::from("a;")),
            Code::Block(String::from(";"), vec![Code::Line(String::from("b"))]),
        ]);
        s.in_terminated_block(",", &vec![]);
    }
    assert_eq!(w.into_inner(), "impl X {\n    a;\n    {\n        b\n    };\n}\n{\n},\n");
}

#[test]
fn parent_keeps_its_line_state_over_a_child() {
    let mut w = Scope::writer();
    {
        let mut s = Scope::new(&mut w);
        let mut outer = s.scope();
        assert!(outer.fresh_line());
        outer.write("a");
        assert!(!outer.fresh_line());
        outer.in_scope(&vec![Code::Write(String::from("b"))]);
        outer.write("c");
        outer.lf();
    }
    assert_eq!(w.into_inner(), "    a        bc\n");
}

#[test]
fn fmt_runs_a_body_at_depth_zero() {
    let mut w = Writer::new(String::from("// head\n"));
    Scope::fmt(
        &mut w,
        &vec![
            Code::Write(String::from("fn f")),
            Code::List(Brackets::Round, false, vec![]),
            Code::Block(String::new(), vec![Code::Scoped(vec![Code::Line(String::from("x"))])]),
        ],
    );
    assert_eq!(w.into_inner(), "// head\nfn f() {\n        x\n}\n");
}

fn nesting() -> Vec<Code> {
    vec![
        Code::Write("fn f".to_string()),
        Code::List(Brackets::Angle, true, vec![]),
        Code::List(Brackets::Round, false, vec!["a: u8".to_string(), "b: u8".to_string()]),
        Code::Block(
            String::new(),
            vec![
                Code::Line("let x = a;".to_string()),
                Code::Write("let y = ".to_string()),
                Code::List(Brackets::Squares, false, vec!["x".to_string(), "b".to_string()]),
                Code::Line(";".to_string()),
                Code::Line(String::new()),
                Code::Write("loop".to_string()),
                Code::Block(
                    ";".to_string(),
                    vec![Code::Scoped(vec![Code::Line("deep".to_string())]), Code::Line("z".to_string())],
                ),
            ],
        ),
    ]
}

#[test]
fn nested_output_has_balanced_brackets() {
    let mut w = Scope::writer();
    Scope::fmt(&mut w, &nesting());
    let out = w.into_inner();
    let mut stack: Vec<char> = Vec::new();
    for c in out.chars() {
        match c {
            '(' | '[' | '{' | '<' => stack.push(c),
            ')' => assert_eq!(stack.pop(), Some('(')),
            ']' => assert_eq!(stack.pop(), Some('[')),
            '}' => assert_eq!(stack.pop(), Some('{')),
            '>' => assert_eq!(stack.pop(), Some('<')),
            _ => {}
        }
    }
    assert!(stack.is_empty());
}

#[test]
fn nested_output_is_indented_by_depth() {
    let mut w = Scope::writer();
    Scope::fmt(&mut w, &nesting());
    let out = w.into_inner();
    assert_eq!(
        out,
        "fn f(a: u8, b: u8) {\n    let x = a;\n    let y = [x, b];\n\n    loop {\n            deep\n        z\n    };\n}\n"
    );
    let mut depth = 0usize;
    for line in out.lines() {
        if line.is_empty() {
            continue;
        }
        let lead = line.len() - line.trim_start_matches(' ').len();
        let closes = line.trim_start().starts_with('}');
        if closes {
            depth -= 1;
        }
        assert!(lead == 4 * depth || lead == 4 * (depth + 1), "line {:?}", line);
        assert_eq!(lead % 4, 0);
        if line.ends_with('{') {
            depth += 1;
        }
    }
    assert_eq!(depth, 0);
}
