//! Evaluation errors and their texts.

use vstd::prelude::*;

use crate::path::GeometryError;
use crate::text::{decimal, joined, numeral};

verus! {

/// Fail-closed errors from prop resolution or expression evaluation.
#[derive(Debug, PartialEq, Eq)]
pub enum EvalError {
    UnknownProp { name: String },
    MissingProp { name: String },
    MissingCue { name: String },
    BadGeometry { at: usize, reason: GeometryError },
    InvalidProp { name: String },
    BadExpr { at: usize, referenced: usize },
    TypeMismatch { at: usize, op: &'static str },
    DivisionByZero { at: usize },
    BadInterpolate { at: usize },
    TemplateTooLong { at: usize },
    BuiltinDomain { at: usize, op: &'static str },
    NonFinite { at: usize, op: &'static str },
    /// Unit context read outside per-unit evaluation.
    UnitOutsidePerUnit { at: usize },
    /// Bounds read before layout.
    BoundsOutsidePostLayout { at: usize },
    Project3DOutsidePostLayout { at: usize },
    ViewportUnavailable { at: usize },
    MissingBoundsTarget { key: String },
    MissingProject3DTarget { scene_key: String, anchor_key: String },
}

/// An evaluation error by its contents.
pub enum Fault {
    UnknownProp(Seq<char>),
    MissingProp(Seq<char>),
    MissingCue(Seq<char>),
    BadGeometry(int, GeometryError),
    InvalidProp(Seq<char>),
    BadExpr(int, int),
    TypeMismatch(int, Seq<char>),
    DivisionByZero(int),
    BadInterpolate(int),
    TemplateTooLong(int),
    BuiltinDomain(int, Seq<char>),
    NonFinite(int, Seq<char>),
    UnitOutsidePerUnit(int),
    BoundsOutsidePostLayout(int),
    Project3DOutsidePostLayout(int),
    ViewportUnavailable(int),
    MissingBoundsTarget(Seq<char>),
    MissingProject3DTarget(Seq<char>, Seq<char>),
}

impl View for EvalError {
    type V = Fault;

    open spec fn view(&self) -> Fault {
        match *self {
            EvalError::UnknownProp { name } => Fault::UnknownProp(name@),
            EvalError::MissingProp { name } => Fault::MissingProp(name@),
            EvalError::MissingCue { name } => Fault::MissingCue(name@),
            EvalError::BadGeometry { at, reason } => Fault::BadGeometry(at as int, reason),
            EvalError::InvalidProp { name } => Fault::InvalidProp(name@),
            EvalError::BadExpr { at, referenced } => Fault::BadExpr(at as int, referenced as int),
            EvalError::TypeMismatch { at, op } => Fault::TypeMismatch(at as int, op@),
            EvalError::DivisionByZero { at } => Fault::DivisionByZero(at as int),
            EvalError::BadInterpolate { at } => Fault::BadInterpolate(at as int),
            EvalError::TemplateTooLong { at } => Fault::TemplateTooLong(at as int),
            EvalError::BuiltinDomain { at, op } => Fault::BuiltinDomain(at as int, op@),
            EvalError::NonFinite { at, op } => Fault::NonFinite(at as int, op@),
            EvalError::UnitOutsidePerUnit { at } => Fault::UnitOutsidePerUnit(at as int),
            EvalError::BoundsOutsidePostLayout { at } => Fault::BoundsOutsidePostLayout(at as int),
            EvalError::Project3DOutsidePostLayout { at } => Fault::Project3DOutsidePostLayout(
                at as int,
            ),
            EvalError::ViewportUnavailable { at } => Fault::ViewportUnavailable(at as int),
            EvalError::MissingBoundsTarget { key } => Fault::MissingBoundsTarget(key@),
            EvalError::MissingProject3DTarget { scene_key, anchor_key } =>
                Fault::MissingProject3DTarget(scene_key@, anchor_key@),
        }
    }
}


/// An error about one expression.
pub open spec fn at_expression(at: usize, what: Seq<char>) -> Seq<char> {
    "expression "@ + numeral(at as nat) + what
}

fn about_expression(at: usize, what: &str) -> (r: String)
    ensures
        r@ == at_expression(at, what@),
{
    joined(joined("expression ".to_owned(), decimal(at as u64).as_str()), what)
}

impl EvalError {
    /// What the error reads as.
    pub open spec fn text(self) -> Seq<char> {
        match self {
            EvalError::UnknownProp { name } => "unknown prop `"@ + name@ + "`"@,
            EvalError::MissingProp { name } => "required prop `"@ + name@ + "` is missing"@,
            EvalError::MissingCue { name } => "cue signal `"@ + name@ + "` is not resolved"@,
            EvalError::InvalidProp { name } => "prop `"@ + name@
                + "` does not match its control schema"@,
            EvalError::BadGeometry { at, reason } => at_expression(at, ": invalid geometry: "@)
                + reason.text(),
            EvalError::BadExpr { at, referenced } => at_expression(
                at,
                " references unavailable expression "@,
            ) + numeral(referenced as nat),
            EvalError::TypeMismatch { at, op } => at_expression(at, ": type mismatch in "@) + op@,
            EvalError::DivisionByZero { at } => at_expression(at, ": division by zero"@),
            EvalError::BadInterpolate { at } => at_expression(at, ": invalid interpolate"@),
            EvalError::TemplateTooLong { at } => at_expression(
                at,
                ": template output exceeds its byte budget"@,
            ),
            EvalError::BuiltinDomain { at, op } => at_expression(at, ": invalid input for "@) + op@,
            EvalError::NonFinite { at, op } => at_expression(at, ": "@) + op@
                + " produced a non-finite value"@,
            EvalError::UnitOutsidePerUnit { at } => at_expression(
                at,
                ": ctx.unit.* is only defined inside a Text per-unit style"@,
            ),
            EvalError::ViewportUnavailable { at } => at_expression(
                at,
                ": ctx.viewport.* needs a render viewport, but none was supplied to the evaluator"@,
            ),
            EvalError::BoundsOutsidePostLayout { at } => at_expression(
                at,
                ": bounds(...) is only defined after layout"@,
            ),
            EvalError::Project3DOutsidePostLayout { at } => at_expression(
                at,
                ": project3d(...) is only defined after Scene3D projection"@,
            ),
            EvalError::MissingBoundsTarget { key } => "bounds target `"@ + key@
                + "` is not a node in this scene"@,
            EvalError::MissingProject3DTarget { scene_key, anchor_key } => "project3d target `"@
                + scene_key@ + "` / `"@ + anchor_key@ + "` is not projected in this frame"@,
        }
    }

    /// What the error reads as.
    pub fn message(&self) -> (r: String)
        ensures
            r@ == self.text(),
    {
        match self {
            EvalError::UnknownProp { name } => {
                joined(joined("unknown prop `".to_owned(), name.as_str()), "`")
            },
            EvalError::MissingProp { name } => {
                joined(joined("required prop `".to_owned(), name.as_str()), "` is missing")
            },
            EvalError::MissingCue { name } => {
                joined(joined("cue signal `".to_owned(), name.as_str()), "` is not resolved")
            },
            EvalError::InvalidProp { name } => {
                joined(
                    joined("prop `".to_owned(), name.as_str()),
                    "` does not match its control schema",
                )
            },
            EvalError::BadGeometry { at, reason } => {
                joined(about_expression(*at, ": invalid geometry: "), reason.message().as_str())
            },
            EvalError::BadExpr { at, referenced } => {
                joined(
                    about_expression(*at, " references unavailable expression "),
                    decimal(*referenced as u64).as_str(),
                )
            },
            EvalError::TypeMismatch { at, op } => {
                joined(about_expression(*at, ": type mismatch in "), op)
            },
            EvalError::DivisionByZero { at } => about_expression(*at, ": division by zero"),
            EvalError::BadInterpolate { at } => about_expression(*at, ": invalid interpolate"),
            EvalError::TemplateTooLong { at } => {
                about_expression(*at, ": template output exceeds its byte budget")
            },
            EvalError::BuiltinDomain { at, op } => {
                joined(about_expression(*at, ": invalid input for "), op)
            },
            EvalError::NonFinite { at, op } => {
                joined(joined(about_expression(*at, ": "), op), " produced a non-finite value")
            },
            EvalError::UnitOutsidePerUnit { at } => {
                about_expression(*at, ": ctx.unit.* is only defined inside a Text per-unit style")
            },
            EvalError::ViewportUnavailable { at } => {
                about_expression(
                    *at,
                    ": ctx.viewport.* needs a render viewport, but none was supplied to the evaluator",
                )
            },
            EvalError::BoundsOutsidePostLayout { at } => {
                about_expression(*at, ": bounds(...) is only defined after layout")
            },
            EvalError::Project3DOutsidePostLayout { at } => {
                about_expression(*at, ": project3d(...) is only defined after Scene3D projection")
            },
            EvalError::MissingBoundsTarget { key } => {
                joined(
                    joined("bounds target `".to_owned(), key.as_str()),
                    "` is not a node in this scene",
                )
            },
            EvalError::MissingProject3DTarget { scene_key, anchor_key } => {
                joined(
                    joined(
                        joined(
                            joined("project3d target `".to_owned(), scene_key.as_str()),
                            "` / `",
                        ),
                        anchor_key.as_str(),
                    ),
                    "` is not projected in this frame",
                )
            },
        }
    }
}

} // verus!
