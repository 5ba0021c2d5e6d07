//! End-to-end compilation of a representative description tree.

use platformtree::compile::compile;
use platformtree::node::{AttrValue, Tree};
use platformtree::program::{Handle, HandleType, StmtKind};

/// The classic blink description: a clock, two LED pins, a wide timer, and
/// a single task consuming all three handles.
fn blink_tree() -> Tree {
    let mut t = Tree::new();
    let mcu = t.add_root("mcu".to_string(), Some("tiva_c".to_string())).unwrap();
    let clock = t.add_child(mcu, "clock".to_string(), None).unwrap();
    assert!(t.set_attr(clock, "source".to_string(), AttrValue::Str("MOSC".to_string())));
    assert!(t.set_attr(clock, "source_frequency".to_string(), AttrValue::Int(16_000_000)));
    let gpio = t.add_child(mcu, "gpio".to_string(), None).unwrap();
    let porta = t.add_child(gpio, "PortA".to_string(), None).unwrap();
    let led1 = t.add_child(porta, "1".to_string(), Some("led1".to_string())).unwrap();
    assert!(t.set_attr(led1, "direction".to_string(), AttrValue::Str("out".to_string())));
    let portf = t.add_child(gpio, "PortF".to_string(), None).unwrap();
    let led2 = t.add_child(portf, "2".to_string(), Some("led2".to_string())).unwrap();
    assert!(t.set_attr(led2, "direction".to_string(), AttrValue::Str("out".to_string())));
    let timer_grp = t.add_child(mcu, "timer".to_string(), None).unwrap();
    let timer = t.add_child(timer_grp, "w0".to_string(), Some("timer".to_string())).unwrap();
    assert!(t.set_attr(timer, "prescale".to_string(), AttrValue::Int(80)));
    assert!(t.set_attr(timer, "mode".to_string(), AttrValue::Str("periodic".to_string())));
    let os = t.add_root("os".to_string(), None).unwrap();
    let task = t.add_child(os, "single_task".to_string(), None).unwrap();
    assert!(t.set_attr(task, "loop".to_string(), AttrValue::Str("run".to_string())));
    let args = t.add_child(task, "args".to_string(), None).unwrap();
    assert!(t.set_attr(args, "timer".to_string(), AttrValue::Ref("timer".to_string())));
    assert!(t.set_attr(args, "led1".to_string(), AttrValue::Ref("led1".to_string())));
    assert!(t.set_attr(args, "led2".to_string(), AttrValue::Ref("led2".to_string())));
    t
}

#[test]
fn blink_compiles_in_dependency_order() {
    let t = blink_tree();
    let program = compile(&t).expect("blink tree must compile");
    // clock first, then the pins and the timer, the task last
    assert_eq!(program.stmts.len(), 5);
    assert!(matches!(program.stmts[0].kind, StmtKind::ClockInit { .. }));
    assert!(matches!(program.stmts[1].kind, StmtKind::PinInit { .. }));
    assert!(matches!(program.stmts[2].kind, StmtKind::PinInit { .. }));
    assert!(matches!(program.stmts[3].kind, StmtKind::TimerInit { .. }));
    assert!(matches!(program.stmts[4].kind, StmtKind::TaskRun { .. }));
    match &program.stmts[0].kind {
        StmtKind::ClockInit { source, frequency } => {
            assert_eq!(source, "MOSC");
            assert_eq!(*frequency, 16_000_000);
        },
        other => panic!("unexpected first statement {:?}", other),
    }
    match &program.stmts[1].kind {
        StmtKind::PinInit { name, port, index, output, function } => {
            assert_eq!(name, "led1");
            assert_eq!(port, "PortA");
            assert_eq!(*index, 1);
            assert!(*output);
            assert_eq!(*function, 0);
        },
        other => panic!("unexpected pin statement {:?}", other),
    }
    match &program.stmts[3].kind {
        StmtKind::TimerInit { name, slot, prescale, periodic } => {
            assert_eq!(name, "timer");
            assert_eq!(slot, "w0");
            assert_eq!(*prescale, 80);
            assert!(*periodic);
        },
        other => panic!("unexpected timer statement {:?}", other),
    }
    match &program.stmts[4].kind {
        StmtKind::TaskRun { entry, args } => {
            assert_eq!(entry, "run");
            assert_eq!(
                args,
                &vec![
                    ("timer".to_string(), "timer".to_string()),
                    ("led1".to_string(), "led1".to_string()),
                    ("led2".to_string(), "led2".to_string()),
                ]
            );
        },
        other => panic!("unexpected task statement {:?}", other),
    }
}

#[test]
fn blink_handle_table() {
    let t = blink_tree();
    let program = compile(&t).expect("blink tree must compile");
    // arguments named after their referents bind no extra aliases
    let names: Vec<&str> = program.handles.iter().map(|h| h.name.as_str()).collect();
    assert_eq!(names, vec!["led1", "led2", "timer"]);
    assert_eq!(program.handles[0].typ, HandleType::Pin);
    assert_eq!(program.handles[1].typ, HandleType::Pin);
    assert_eq!(program.handles[2].typ, HandleType::Timer);
}

#[test]
fn statements_respect_every_dependency_edge() {
    // the order invariant, checked concretely: a dependency's statement
    // stands strictly before its dependent's
    let t = blink_tree();
    let program = compile(&t).expect("blink tree must compile");
    let pos = |name: &str| -> usize {
        program
            .stmts
            .iter()
            .position(|s| match &s.kind {
                StmtKind::ClockInit { .. } => name == "clock",
                StmtKind::PinInit { name: n, .. } => n == name,
                StmtKind::TimerInit { name: n, .. } => n == name,
                StmtKind::UartInit { name: n, .. } => n == name,
                StmtKind::TaskRun { .. } => name == "task",
            })
            .unwrap()
    };
    // pins and the timer depend on the clock
    assert!(pos("clock") < pos("led1"));
    assert!(pos("clock") < pos("led2"));
    assert!(pos("clock") < pos("timer"));
    // the task depends on everything its args reference
    assert!(pos("led1") < pos("task"));
    assert!(pos("led2") < pos("task"));
    assert!(pos("timer") < pos("task"));
}

#[test]
fn compiling_twice_is_byte_identical() {
    // determinism: two runs over the same tree agree exactly, statement
    // order and handle table included
    let t = blink_tree();
    let p1 = compile(&t).expect("first run");
    let p2 = compile(&t).expect("second run");
    assert_eq!(p1, p2);
    let rendered1 = format!("{:?}", p1);
    let rendered2 = format!("{:?}", p2);
    assert_eq!(rendered1, rendered2);
}

#[test]
fn task_alias_under_new_name() {
    // a reference bound under a fresh argument name produces an alias
    // handle of the referent's resolved type
    let mut t = Tree::new();
    let mcu = t.add_root("mcu".to_string(), Some("soc".to_string())).unwrap();
    let clock = t.add_child(mcu, "clock".to_string(), None).unwrap();
    assert!(t.set_attr(clock, "source".to_string(), AttrValue::Str("PIOSC".to_string())));
    assert!(t.set_attr(clock, "source_frequency".to_string(), AttrValue::Int(16_000_000)));
    let gpio = t.add_child(mcu, "gpio".to_string(), None).unwrap();
    let porta = t.add_child(gpio, "PortA".to_string(), None).unwrap();
    let p = t.add_child(porta, "3".to_string(), Some("p".to_string())).unwrap();
    assert!(t.set_attr(p, "direction".to_string(), AttrValue::Str("in".to_string())));
    let os = t.add_root("os".to_string(), None).unwrap();
    let task = t.add_child(os, "single_task".to_string(), None).unwrap();
    assert!(t.set_attr(task, "loop".to_string(), AttrValue::Str("run".to_string())));
    let args = t.add_child(task, "args".to_string(), None).unwrap();
    assert!(t.set_attr(args, "x".to_string(), AttrValue::Ref("p".to_string())));
    let program = compile(&t).expect("tree must compile");
    let alias: Vec<&Handle> = program.handles.iter().filter(|h| h.name == "x").collect();
    assert_eq!(alias.len(), 1);
    assert_eq!(alias[0].typ, HandleType::Pin);
    assert_eq!(alias[0].node, task);
}

#[test]
fn unknown_root_kind_fails() {
    let mut t = Tree::new();
    t.add_root("mystery".to_string(), None).unwrap();
    let diags = compile(&t).expect_err("an unclassified node must fail");
    assert!(diags.iter().any(|d| matches!(
        d.detail,
        platformtree::diag::ErrorDetail::NoMaterializer
    )));
}
