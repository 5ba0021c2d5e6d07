//! Diagnostic behaviour: structural errors, range checks, unresolved
//! references and dependency cycles.

use platformtree::compile::compile;
use platformtree::diag::{Diagnostic, ErrorDetail, ErrorKind, Severity};
use platformtree::node::{AttrValue, Tree};

/// A minimal mcu tree with one pin node built by `pin` before compilation.
fn pin_tree(pin_path: &str, pin_name: Option<&str>, direction: Option<AttrValue>) -> Tree {
    let mut t = Tree::new();
    let mcu = t.add_root("mcu".to_string(), Some("soc".to_string())).unwrap();
    let clock = t.add_child(mcu, "clock".to_string(), None).unwrap();
    assert!(t.set_attr(clock, "source".to_string(), AttrValue::Str("MOSC".to_string())));
    assert!(t.set_attr(clock, "source_frequency".to_string(), AttrValue::Int(16_000_000)));
    let gpio = t.add_child(mcu, "gpio".to_string(), None).unwrap();
    let porta = t.add_child(gpio, "PortA".to_string(), None).unwrap();
    let pin = t
        .add_child(porta, pin_path.to_string(), pin_name.map(|s| s.to_string()))
        .unwrap();
    if let Some(d) = direction {
        assert!(t.set_attr(pin, "direction".to_string(), d));
    }
    t
}

fn find_kind<'a>(diags: &'a [Diagnostic], kind: ErrorKind) -> Vec<&'a Diagnostic> {
    diags.iter().filter(|d| d.kind == kind).collect()
}

#[test]
fn pin_missing_direction_is_structural_error() {
    // a pin with no `direction` attribute fails verification, naming the
    // node's path and the missing key; compilation fails overall
    let t = pin_tree("1", Some("led1"), None);
    let diags = compile(&t).expect_err("missing direction must fail");
    let structural = find_kind(&diags, ErrorKind::StructuralError);
    assert_eq!(structural.len(), 1);
    assert_eq!(structural[0].path, "mcu/gpio/PortA/1");
    match &structural[0].detail {
        ErrorDetail::MissingAttr { key } => assert_eq!(key, "direction"),
        other => panic!("unexpected detail {:?}", other),
    }
    assert_eq!(structural[0].message(), "missing attribute `direction`");
}

#[test]
fn pin_index_out_of_range_is_type_mismatch() {
    // index 9 on an 8-pin port is refused, citing the index and the range
    let t = pin_tree("9", Some("led1"), Some(AttrValue::Str("out".to_string())));
    let diags = compile(&t).expect_err("index 9 must fail");
    let mismatch = find_kind(&diags, ErrorKind::TypeMismatchError);
    assert_eq!(mismatch.len(), 1);
    assert_eq!(
        mismatch[0].detail,
        ErrorDetail::IndexOutOfRange { index: 9, lo: 0, hi: 7 }
    );
    assert_eq!(mismatch[0].message(), "index 9 outside 0..7");
}

#[test]
fn pin_index_seven_is_accepted() {
    let t = pin_tree("7", Some("led1"), Some(AttrValue::Str("out".to_string())));
    assert!(compile(&t).is_ok());
}

#[test]
fn pin_unknown_direction_is_type_mismatch() {
    let t = pin_tree("1", Some("led1"), Some(AttrValue::Str("sideways".to_string())));
    let diags = compile(&t).expect_err("bad direction must fail");
    assert!(diags.iter().any(|d| d.detail
        == ErrorDetail::UnknownValue {
            key: "direction".to_string(),
            value: "sideways".to_string()
        }));
}

#[test]
fn pin_direction_wrong_type_is_type_mismatch() {
    let t = pin_tree("1", Some("led1"), Some(AttrValue::Int(1)));
    let diags = compile(&t).expect_err("integer direction must fail");
    assert!(diags.iter().any(|d| d.detail
        == ErrorDetail::WrongAttrType { key: "direction".to_string() }));
}

#[test]
fn pin_without_name_is_structural_error() {
    let t = pin_tree("1", None, Some(AttrValue::Str("out".to_string())));
    let diags = compile(&t).expect_err("unnamed pin must fail");
    assert!(diags.iter().any(|d| d.detail == ErrorDetail::MissingName));
}

#[test]
fn pin_non_numeric_slot_is_refused() {
    let t = pin_tree("first", Some("led1"), Some(AttrValue::Str("out".to_string())));
    let diags = compile(&t).expect_err("non-numeric slot must fail");
    assert!(diags.iter().any(|d| d.detail == ErrorDetail::BadIndex));
}

#[test]
fn verify_reports_several_problems_in_one_run() {
    // recoverable diagnostics accumulate: one run surfaces them all
    let mut t = Tree::new();
    let mcu = t.add_root("mcu".to_string(), None).unwrap();
    let gpio = t.add_child(mcu, "gpio".to_string(), None).unwrap();
    let porta = t.add_child(gpio, "PortA".to_string(), None).unwrap();
    let bad1 = t.add_child(porta, "9".to_string(), Some("a".to_string())).unwrap();
    assert!(t.set_attr(bad1, "direction".to_string(), AttrValue::Str("out".to_string())));
    let bad2 = t.add_child(porta, "2".to_string(), Some("b".to_string())).unwrap();
    let _ = bad2;
    let diags = compile(&t).expect_err("both pins must be reported");
    assert!(diags.iter().any(|d| matches!(d.detail, ErrorDetail::IndexOutOfRange { .. })));
    assert!(diags.iter().any(|d| matches!(d.detail, ErrorDetail::MissingAttr { .. })));
}

#[test]
fn unresolved_reference_fails_with_reference_error() {
    // a task naming an undeclared handle fails with a reference error that
    // names the missing handle
    let mut t = Tree::new();
    let os = t.add_root("os".to_string(), None).unwrap();
    let task = t.add_child(os, "single_task".to_string(), None).unwrap();
    assert!(t.set_attr(task, "loop".to_string(), AttrValue::Str("run".to_string())));
    let args = t.add_child(task, "args".to_string(), None).unwrap();
    assert!(t.set_attr(args, "x".to_string(), AttrValue::Ref("p".to_string())));
    let diags = compile(&t).expect_err("unresolved reference must fail");
    let refs = find_kind(&diags, ErrorKind::ReferenceError);
    assert_eq!(refs.len(), 1);
    assert_eq!(refs[0].detail, ErrorDetail::UnresolvedRef { name: "p".to_string() });
}

#[test]
fn mutual_task_references_are_a_fatal_cycle() {
    // two tasks referencing each other form a dependency cycle: compilation
    // fails fatally and produces no program
    let mut t = Tree::new();
    let os = t.add_root("os".to_string(), None).unwrap();
    let ta = t.add_child(os, "first".to_string(), Some("alpha".to_string())).unwrap();
    assert!(t.set_attr(ta, "loop".to_string(), AttrValue::Str("run_a".to_string())));
    let aa = t.add_child(ta, "args".to_string(), None).unwrap();
    assert!(t.set_attr(aa, "other".to_string(), AttrValue::Ref("beta".to_string())));
    let tb = t.add_child(os, "second".to_string(), Some("beta".to_string())).unwrap();
    assert!(t.set_attr(tb, "loop".to_string(), AttrValue::Str("run_b".to_string())));
    let ab = t.add_child(tb, "args".to_string(), None).unwrap();
    assert!(t.set_attr(ab, "other".to_string(), AttrValue::Ref("alpha".to_string())));
    let diags = compile(&t).expect_err("a cycle must abort compilation");
    let cyc = find_kind(&diags, ErrorKind::DependencyCycleError);
    assert_eq!(cyc.len(), 1);
    assert_eq!(cyc[0].severity, Severity::Fatal);
    match &cyc[0].detail {
        ErrorDetail::Cycle { paths } => {
            // a closed walk: the first node repeated at the end
            assert!(paths.len() >= 3);
            assert_eq!(paths.first(), paths.last());
            assert!(paths.iter().any(|p| p == "os/first"));
            assert!(paths.iter().any(|p| p == "os/second"));
        },
        other => panic!("unexpected detail {:?}", other),
    }
}

#[test]
fn clock_requires_known_source() {
    let mut t = Tree::new();
    let mcu = t.add_root("mcu".to_string(), None).unwrap();
    let clock = t.add_child(mcu, "clock".to_string(), None).unwrap();
    assert!(t.set_attr(clock, "source".to_string(), AttrValue::Str("XTAL9000".to_string())));
    assert!(t.set_attr(clock, "source_frequency".to_string(), AttrValue::Int(1)));
    let diags = compile(&t).expect_err("unknown clock source must fail");
    assert!(diags.iter().any(|d| d.detail
        == ErrorDetail::UnknownValue {
            key: "source".to_string(),
            value: "XTAL9000".to_string()
        }));
}

#[test]
fn timer_prescale_must_fit_the_register() {
    let mut t = Tree::new();
    let mcu = t.add_root("mcu".to_string(), None).unwrap();
    let grp = t.add_child(mcu, "timer".to_string(), None).unwrap();
    let timer = t.add_child(grp, "w0".to_string(), Some("timer".to_string())).unwrap();
    assert!(t.set_attr(timer, "prescale".to_string(), AttrValue::Int(70_000)));
    assert!(t.set_attr(timer, "mode".to_string(), AttrValue::Str("periodic".to_string())));
    let diags = compile(&t).expect_err("oversized prescale must fail");
    assert!(diags.iter().any(|d| d.detail
        == ErrorDetail::ValueTooLarge { key: "prescale".to_string(), max: 65535 }));
}

#[test]
fn container_attributes_are_refused() {
    let mut t = Tree::new();
    let mcu = t.add_root("mcu".to_string(), None).unwrap();
    let gpio = t.add_child(mcu, "gpio".to_string(), None).unwrap();
    assert!(t.set_attr(gpio, "speed".to_string(), AttrValue::Int(1)));
    let diags = compile(&t).expect_err("attributes on a container must fail");
    assert!(diags.iter().any(|d| d.detail == ErrorDetail::UnexpectedAttrs && d.path == "mcu/gpio"));
}

#[test]
fn duplicate_handle_names_are_refused() {
    let mut t = Tree::new();
    let mcu = t.add_root("mcu".to_string(), None).unwrap();
    let gpio = t.add_child(mcu, "gpio".to_string(), None).unwrap();
    let porta = t.add_child(gpio, "PortA".to_string(), None).unwrap();
    let p1 = t.add_child(porta, "1".to_string(), Some("led".to_string())).unwrap();
    assert!(t.set_attr(p1, "direction".to_string(), AttrValue::Str("out".to_string())));
    let p2 = t.add_child(porta, "2".to_string(), Some("led".to_string())).unwrap();
    assert!(t.set_attr(p2, "direction".to_string(), AttrValue::Str("out".to_string())));
    let diags = compile(&t).expect_err("two handles named alike must fail");
    assert!(diags.iter().any(|d| d.detail
        == ErrorDetail::DuplicateHandle { name: "led".to_string() }));
}
