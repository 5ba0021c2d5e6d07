//! Diagnostics: source-located errors collected during compilation.
//!
//! Recoverable diagnostics accumulate so one run surfaces as many problems
//! as possible; a fatal diagnostic aborts the build phase.  Compilation as a
//! whole succeeds only when no error (recoverable or fatal) was recorded.

use vstd::prelude::*;
use vstd::string::StringExecFns;

verus! {

/// How bad a diagnostic is.  Only a `Warning` leaves the compilation result
/// intact; a `Recoverable` error lets other subtrees continue but fails the
/// run, and a `Fatal` error aborts the build phase at once.
#[derive(Clone, Copy, PartialEq, Eq, Structural, Debug)]
pub enum Severity {
    Warning,
    Recoverable,
    Fatal,
}

/// The error taxonomy.
#[derive(Clone, Copy, PartialEq, Eq, Structural, Debug)]
pub enum ErrorKind {
    /// Missing/unexpected attribute or wrong node shape.
    StructuralError,
    /// Attribute present but of the wrong kind or out of range.
    TypeMismatchError,
    /// A `&name` reference resolves to no bound handle at build time.
    ReferenceError,
    /// The dependency graph contains a cycle.
    DependencyCycleError,
    /// A driver-registration bug (double bind, impossible schedule).
    InternalContractError,
}

/// What exactly went wrong, carrying the data a renderer needs.
#[derive(Debug, PartialEq)]
pub enum ErrorDetail {
    /// A required attribute is absent.
    MissingAttr { key: String },
    /// A node that must produce a handle has no name.
    MissingName,
    /// An attribute is present but its value has the wrong type.
    WrongAttrType { key: String },
    /// An attribute value is not one of the accepted words.
    UnknownValue { key: String, value: String },
    /// A numeric slot lies outside the accepted range.
    IndexOutOfRange { index: u32, lo: u32, hi: u32 },
    /// A slot that must be numeric is not.
    BadIndex,
    /// Attributes appear on a purely structural node.
    UnexpectedAttrs,
    /// An integer attribute exceeds the largest accepted value.
    ValueTooLarge { key: String, max: u32 },
    /// A `&name` reference resolves to no bound handle.
    UnresolvedRef { name: String },
    /// A closed walk of node paths, each depending on the next.
    Cycle { paths: Vec<String> },
    /// A materializer was bound twice.
    DoubleBind,
    /// A node reached the build phase with no bound materializer.
    NoMaterializer,
    /// A handle name was bound twice.
    DuplicateHandle { name: String },
}

/// One reported problem: severity, taxonomy kind, the owning node's
/// slash-joined path, and the structured detail.
#[derive(Debug, PartialEq)]
pub struct Diagnostic {
    pub severity: Severity,
    pub kind: ErrorKind,
    pub path: String,
    pub detail: ErrorDetail,
}

impl Diagnostic {
    /// Anything but a warning fails the compilation.
    pub open spec fn is_error(self) -> bool {
        self.severity != Severity::Warning
    }

    pub open spec fn is_fatal(self) -> bool {
        self.severity == Severity::Fatal
    }
}

/// Some diagnostic in the list is an error.
pub open spec fn spec_any_error(ds: Seq<Diagnostic>) -> bool {
    exists|i: int| 0 <= i < ds.len() && ds[i].is_error()
}

// Shape descriptors: each pins one diagnostic down to its severity, kind,
// path and structured detail, comparing strings by their character views.
// Contracts of the verify/build handlers are stated over these.

pub open spec fn is_missing_attr(d: Diagnostic, path: Seq<char>, key: Seq<char>) -> bool {
    &&& d.severity == Severity::Recoverable
    &&& d.kind == ErrorKind::StructuralError
    &&& d.path@ == path
    &&& d.detail matches ErrorDetail::MissingAttr { key: k } && k@ == key
}

pub open spec fn is_missing_name(d: Diagnostic, path: Seq<char>) -> bool {
    &&& d.severity == Severity::Recoverable
    &&& d.kind == ErrorKind::StructuralError
    &&& d.path@ == path
    &&& d.detail is MissingName
}

pub open spec fn is_wrong_attr_type(d: Diagnostic, path: Seq<char>, key: Seq<char>) -> bool {
    &&& d.severity == Severity::Recoverable
    &&& d.kind == ErrorKind::TypeMismatchError
    &&& d.path@ == path
    &&& d.detail matches ErrorDetail::WrongAttrType { key: k } && k@ == key
}

pub open spec fn is_unknown_value(
    d: Diagnostic,
    path: Seq<char>,
    key: Seq<char>,
    value: Seq<char>,
) -> bool {
    &&& d.severity == Severity::Recoverable
    &&& d.kind == ErrorKind::TypeMismatchError
    &&& d.path@ == path
    &&& d.detail matches ErrorDetail::UnknownValue { key: k, value: v } && k@ == key && v@ == value
}

pub open spec fn is_index_out_of_range(
    d: Diagnostic,
    path: Seq<char>,
    index: u32,
    lo: u32,
    hi: u32,
) -> bool {
    &&& d.severity == Severity::Recoverable
    &&& d.kind == ErrorKind::TypeMismatchError
    &&& d.path@ == path
    &&& d.detail == (ErrorDetail::IndexOutOfRange { index, lo, hi })
}

pub open spec fn is_bad_index(d: Diagnostic, path: Seq<char>) -> bool {
    &&& d.severity == Severity::Recoverable
    &&& d.kind == ErrorKind::TypeMismatchError
    &&& d.path@ == path
    &&& d.detail is BadIndex
}

pub open spec fn is_unexpected_attrs(d: Diagnostic, path: Seq<char>) -> bool {
    &&& d.severity == Severity::Recoverable
    &&& d.kind == ErrorKind::StructuralError
    &&& d.path@ == path
    &&& d.detail is UnexpectedAttrs
}

pub open spec fn is_value_too_large(d: Diagnostic, path: Seq<char>, key: Seq<char>, max: u32) -> bool {
    &&& d.severity == Severity::Recoverable
    &&& d.kind == ErrorKind::TypeMismatchError
    &&& d.path@ == path
    &&& d.detail matches ErrorDetail::ValueTooLarge { key: k, max: m } && k@ == key && m == max
}

pub open spec fn is_unresolved_ref(d: Diagnostic, path: Seq<char>, name: Seq<char>) -> bool {
    &&& d.severity == Severity::Recoverable
    &&& d.kind == ErrorKind::ReferenceError
    &&& d.path@ == path
    &&& d.detail matches ErrorDetail::UnresolvedRef { name: n } && n@ == name
}

pub open spec fn is_double_bind(d: Diagnostic, path: Seq<char>) -> bool {
    &&& d.severity == Severity::Fatal
    &&& d.kind == ErrorKind::InternalContractError
    &&& d.path@ == path
    &&& d.detail is DoubleBind
}

pub open spec fn is_no_materializer(d: Diagnostic, path: Seq<char>) -> bool {
    &&& d.severity == Severity::Recoverable
    &&& d.kind == ErrorKind::StructuralError
    &&& d.path@ == path
    &&& d.detail is NoMaterializer
}

pub open spec fn is_duplicate_handle(d: Diagnostic, path: Seq<char>, name: Seq<char>) -> bool {
    &&& d.severity == Severity::Recoverable
    &&& d.kind == ErrorKind::StructuralError
    &&& d.path@ == path
    &&& d.detail matches ErrorDetail::DuplicateHandle { name: n } && n@ == name
}


/// Decimal rendering of one digit.
pub open spec fn spec_digit_str(d: int) -> Seq<char> {
    if d == 0 {
        "0"@
    } else if d == 1 {
        "1"@
    } else if d == 2 {
        "2"@
    } else if d == 3 {
        "3"@
    } else if d == 4 {
        "4"@
    } else if d == 5 {
        "5"@
    } else if d == 6 {
        "6"@
    } else if d == 7 {
        "7"@
    } else if d == 8 {
        "8"@
    } else {
        "9"@
    }
}

/// Decimal rendering of a nonnegative number.
pub open spec fn spec_decimal(n: int) -> Seq<char>
    decreases n,
{
    if n < 10 {
        spec_digit_str(n)
    } else {
        spec_decimal(n / 10) + spec_digit_str(n % 10)
    }
}

/// Render a number in decimal.
pub fn decimal_string(n: u32) -> (r: String)
    ensures
        r@ == spec_decimal(n as int),
    decreases n,
{
    if n < 10 {
        let d: &str = if n == 0 {
            "0"
        } else if n == 1 {
            "1"
        } else if n == 2 {
            "2"
        } else if n == 3 {
            "3"
        } else if n == 4 {
            "4"
        } else if n == 5 {
            "5"
        } else if n == 6 {
            "6"
        } else if n == 7 {
            "7"
        } else if n == 8 {
            "8"
        } else {
            "9"
        };
        d.to_owned()
    } else {
        let mut s = decimal_string(n / 10);
        let d: &str = match n % 10 {
            0 => "0",
            1 => "1",
            2 => "2",
            3 => "3",
            4 => "4",
            5 => "5",
            6 => "6",
            7 => "7",
            8 => "8",
            _ => "9",
        };
        proof {
            assert(spec_digit_str((n % 10) as int) == d@);
        }
        s.append(d);
        s
    }
}

/// The cycle paths joined with arrows.
pub open spec fn spec_join_paths(ps: Seq<String>) -> Seq<char>
    decreases ps.len(),
{
    if ps.len() == 0 {
        Seq::<char>::empty()
    } else if ps.len() == 1 {
        ps[0]@
    } else {
        spec_join_paths(ps.drop_last()) + " -> "@ + ps.last()@
    }
}

/// The human-readable message of a diagnostic's detail.
pub open spec fn spec_message(d: ErrorDetail) -> Seq<char> {
    match d {
        ErrorDetail::MissingAttr { key } => "missing attribute `"@ + key@ + "`"@,
        ErrorDetail::MissingName => "node must have a name"@,
        ErrorDetail::WrongAttrType { key } => "attribute `"@ + key@ + "` has the wrong type"@,
        ErrorDetail::UnknownValue { key, value } => "unknown value `"@ + value@
            + "` for attribute `"@ + key@ + "`"@,
        ErrorDetail::IndexOutOfRange { index, lo, hi } => "index "@ + spec_decimal(index as int)
            + " outside "@ + spec_decimal(lo as int) + ".."@ + spec_decimal(hi as int),
        ErrorDetail::BadIndex => "slot is not a number"@,
        ErrorDetail::UnexpectedAttrs => "structural node carries attributes"@,
        ErrorDetail::ValueTooLarge { key, max } => "attribute `"@ + key@ + "` exceeds "@
            + spec_decimal(max as int),
        ErrorDetail::UnresolvedRef { name } => "no handle named `"@ + name@ + "`"@,
        ErrorDetail::Cycle { paths } => "dependency cycle: "@ + spec_join_paths(paths@),
        ErrorDetail::DoubleBind => "materializer bound twice"@,
        ErrorDetail::NoMaterializer => "no materializer bound"@,
        ErrorDetail::DuplicateHandle { name } => "handle `"@ + name@ + "` is already bound"@,
    }
}

impl Diagnostic {
    /// Render this diagnostic's message; together with `severity` and
    /// `path` it forms the reported triple.
    pub fn message(&self) -> (r: String)
        ensures
            r@ == spec_message(self.detail),
    {
        match &self.detail {
            ErrorDetail::MissingAttr { key } => {
                let mut s = "missing attribute `".to_owned();
                s.append(key.as_str());
                s.append("`");
                s
            },
            ErrorDetail::MissingName => "node must have a name".to_owned(),
            ErrorDetail::WrongAttrType { key } => {
                let mut s = "attribute `".to_owned();
                s.append(key.as_str());
                s.append("` has the wrong type");
                s
            },
            ErrorDetail::UnknownValue { key, value } => {
                let mut s = "unknown value `".to_owned();
                s.append(value.as_str());
                s.append("` for attribute `");
                s.append(key.as_str());
                s.append("`");
                s
            },
            ErrorDetail::IndexOutOfRange { index, lo, hi } => {
                let mut s = "index ".to_owned();
                s.append(decimal_string(*index).as_str());
                s.append(" outside ");
                s.append(decimal_string(*lo).as_str());
                s.append("..");
                s.append(decimal_string(*hi).as_str());
                s
            },
            ErrorDetail::BadIndex => "slot is not a number".to_owned(),
            ErrorDetail::UnexpectedAttrs => "structural node carries attributes".to_owned(),
            ErrorDetail::ValueTooLarge { key, max } => {
                let mut s = "attribute `".to_owned();
                s.append(key.as_str());
                s.append("` exceeds ");
                s.append(decimal_string(*max).as_str());
                s
            },
            ErrorDetail::UnresolvedRef { name } => {
                let mut s = "no handle named `".to_owned();
                s.append(name.as_str());
                s.append("`");
                s
            },
            ErrorDetail::Cycle { paths } => {
                let mut s = "dependency cycle: ".to_owned();
                let ghost base = "dependency cycle: "@;
                let n = paths.len();
                let mut i: usize = 0;
                while i < n
                    invariant
                        n == paths@.len(),
                        i <= n,
                        s@ == base + spec_join_paths(paths@.take(i as int)),
                    decreases n - i,
                {
                    if i > 0 {
                        s.append(" -> ");
                    }
                    s.append(paths[i].as_str());
                    proof {
                        assert(paths@.take(i + 1).drop_last() =~= paths@.take(i as int));
                        assert(paths@.take(i + 1).last() == paths@[i as int]);
                        if i == 0 {
                            assert(spec_join_paths(paths@.take(1)) =~= paths@[0]@);
                        }
                    }
                    i += 1;
                }
                proof {
                    assert(paths@.take(n as int) =~= paths@);
                }
                s
            },
            ErrorDetail::DoubleBind => "materializer bound twice".to_owned(),
            ErrorDetail::NoMaterializer => "no materializer bound".to_owned(),
            ErrorDetail::DuplicateHandle { name } => {
                let mut s = "handle `".to_owned();
                s.append(name.as_str());
                s.append("` is already bound");
                s
            },
        }
    }
}

/// True when some diagnostic in the list is an error.
pub fn any_error(ds: &Vec<Diagnostic>) -> (r: bool)
    ensures
        r == spec_any_error(ds@),
{
    let n = ds.len();
    let mut i: usize = 0;
    while i < n
        invariant
            n == ds@.len(),
            i <= n,
            forall|k: int| 0 <= k < i ==> !(#[trigger] ds@[k]).is_error(),
        decreases n - i,
    {
        let e = match ds[i].severity {
            Severity::Warning => false,
            Severity::Recoverable => true,
            Severity::Fatal => true,
        };
        if e {
            assert(ds@[i as int].is_error());
            return true;
        }
        i += 1;
    }
    false
}

} // verus!
