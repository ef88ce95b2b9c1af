//! Failures of building a frame's layout, and their texts.

use vstd::prelude::*;

use crate::faults::{EvalError, Fault};
use crate::findings::{findings, ValidationError};
use crate::scalar::Scalar;
use crate::text::{decimal, joined, numeral, said3, said5};
use crate::value::{css_token, number_written, MotionValue};

verus! {

/// Fail-closed failures from evaluating a scene or building its layout.
#[derive(Debug, PartialEq, Eq)]
pub enum LayoutError {
    InvalidArtifact(Vec<ValidationError>),
    Eval(EvalError),
    BadNode { at: usize },
    UnsupportedNode { node: String, capability: String },
    BadViewport,
    BadStyle { node: String, declarations: String, reason: String },
    BadPaint { node: String, reason: String },
    BadMask { node: String, reason: String },
    BadScene3D { node: String, reason: String },
    BadFormula { node: String, reason: String },
    /// A paint surface that platform mathematics would decide.
    NondeterministicSurface { node: String, surface: String },
    /// A node consumes scene coordinates but does not lie at the scene origin.
    PostLayoutOffOrigin { node: String, x: Scalar, y: Scalar },
    /// Camera parameters that make no sense for this frame.
    BadCamera { reason: String },
}

/// A layout failure by its contents.
pub enum LayoutFault {
    InvalidArtifact(Seq<(Seq<char>, Seq<char>)>),
    Eval(Fault),
    BadNode(int),
    UnsupportedNode(Seq<char>, Seq<char>),
    BadViewport,
    BadStyle(Seq<char>, Seq<char>, Seq<char>),
    BadPaint(Seq<char>, Seq<char>),
    BadMask(Seq<char>, Seq<char>),
    BadScene3D(Seq<char>, Seq<char>),
    BadFormula(Seq<char>, Seq<char>),
    NondeterministicSurface(Seq<char>, Seq<char>),
    PostLayoutOffOrigin(Seq<char>, Scalar, Scalar),
    BadCamera(Seq<char>),
}

impl View for LayoutError {
    type V = LayoutFault;

    open spec fn view(&self) -> LayoutFault {
        match *self {
            LayoutError::InvalidArtifact(errors) => LayoutFault::InvalidArtifact(
                findings(errors@),
            ),
            LayoutError::Eval(e) => LayoutFault::Eval(e@),
            LayoutError::BadNode { at } => LayoutFault::BadNode(at as int),
            LayoutError::UnsupportedNode { node, capability } => LayoutFault::UnsupportedNode(
                node@,
                capability@,
            ),
            LayoutError::BadViewport => LayoutFault::BadViewport,
            LayoutError::BadStyle { node, declarations, reason } => LayoutFault::BadStyle(
                node@,
                declarations@,
                reason@,
            ),
            LayoutError::BadPaint { node, reason } => LayoutFault::BadPaint(node@, reason@),
            LayoutError::BadMask { node, reason } => LayoutFault::BadMask(node@, reason@),
            LayoutError::BadScene3D { node, reason } => LayoutFault::BadScene3D(node@, reason@),
            LayoutError::BadFormula { node, reason } => LayoutFault::BadFormula(node@, reason@),
            LayoutError::NondeterministicSurface { node, surface } =>
                LayoutFault::NondeterministicSurface(node@, surface@),
            LayoutError::PostLayoutOffOrigin { node, x, y } => LayoutFault::PostLayoutOffOrigin(
                node@,
                x,
                y,
            ),
            LayoutError::BadCamera { reason } => LayoutFault::BadCamera(reason@),
        }
    }
}

/// A result by its contents, where the value is its own.
pub open spec fn plain<T>(r: Result<T, LayoutError>) -> Result<T, LayoutFault> {
    match r {
        Ok(v) => Ok(v),
        Err(e) => Err(e@),
    }
}

/// A result by its contents.
pub open spec fn laid<T: View>(r: Result<T, LayoutError>) -> Result<T::V, LayoutFault> {
    match r {
        Ok(v) => Ok(v@),
        Err(e) => Err(e@),
    }
}

/// A text in quotes with its control characters escaped, as `Debug` writes it.
pub uninterp spec fn debug_text(s: Seq<char>) -> Seq<char>;

/// Writes a text through `Debug` of `str` in the standard library: in quotes, with special
/// characters escaped. Claims that the result is a function of the text alone; which characters are
/// escaped, and how, is not stated.
#[verifier::external_body]
fn write_debug(s: &str) -> (r: String)
    ensures
        r@ == debug_text(s@),
{
    format!("{s:?}")
}

/// The text of an error, given the texts of its two coordinates.
pub open spec fn layout_text(e: LayoutError, x: Seq<char>, y: Seq<char>) -> Seq<char> {
    match e {
        LayoutError::InvalidArtifact(errors) => "invalid Scene Artifact ("@ + numeral(
            errors@.len(),
        ) + " error(s))"@,
        LayoutError::UnsupportedNode { node, capability } => "node `"@ + node@ + "` requires `"@
            + capability@ + "`, which this ProgramRecording producer does not execute"@,
        LayoutError::Eval(e) => "eval: "@ + e.text(),
        LayoutError::BadNode { at } => "node "@ + numeral(at as nat) + ": out of range"@,
        LayoutError::BadViewport => "viewport must have non-zero size"@,
        LayoutError::BadStyle { node, declarations, reason } => "node `"@ + node@ + "`: bad CSS "@
            + debug_text(declarations@) + " ("@ + reason@ + ")"@,
        LayoutError::BadPaint { node, reason } => "node `"@ + node@ + "`: bad paint ("@ + reason@
            + ")"@,
        LayoutError::BadMask { node, reason } => "node `"@ + node@ + "`: bad mask ("@ + reason@
            + ")"@,
        LayoutError::BadScene3D { node, reason } => "node `"@ + node@ + "`: bad Scene3D frame ("@
            + reason@ + ")"@,
        LayoutError::BadFormula { node, reason } => "node `"@ + node@ + "`: bad MathFormula ("@
            + reason@ + ")"@,
        LayoutError::NondeterministicSurface { node, surface } => "node `"@ + node@ + "` uses `"@
            + surface@ + "`, which is outside the deterministic paint surface"@,
        LayoutError::PostLayoutOffOrigin { node, .. } => "node `"@ + node@
            + "` draws post-layout geometry (bounds/anchor/connect/project3d) but sits at ("@ + x
            + ", "@ + y
            + ") instead of the scene origin, so those scene coordinates would be painted offset by that amount; make it an absolute overlay (`position: absolute; left: 0; top: 0`)"@,
        LayoutError::BadCamera { reason } => "camera: "@ + reason@,
    }
}

/// Whether `out` is what an error reads as; the host writes coordinates.
pub open spec fn layout_written<F: Fn(&MotionValue) -> String>(
    host: F,
    e: LayoutError,
    out: Seq<char>,
) -> bool {
    match e {
        LayoutError::PostLayoutOffOrigin { node, x, y } => exists|a: Seq<char>, b: Seq<char>|
            #![trigger number_written(host, x, a), number_written(host, y, b)]
            number_written(host, x, a) && number_written(host, y, b) && out == layout_text(e, a, b),
        _ => out == layout_text(e, Seq::empty(), Seq::empty()),
    }
}

impl LayoutError {
    /// What the error reads as.
    pub fn message<F: Fn(&MotionValue) -> String>(&self, host: &F) -> (r: String)
        requires
            forall|v: MotionValue| call_requires(*host, (&v,)),
        ensures
            layout_written(*host, *self, r@),
    {
        match self {
            LayoutError::InvalidArtifact(errors) => {
                said3(
                    "invalid Scene Artifact (",
                    decimal(errors.len() as u64).as_str(),
                    " error(s))",
                )
            },
            LayoutError::UnsupportedNode { node, capability } => {
                said5(
                    "node `",
                    node.as_str(),
                    "` requires `",
                    capability.as_str(),
                    "`, which this ProgramRecording producer does not execute",
                )
            },
            LayoutError::Eval(e) => joined("eval: ".to_owned(), e.message().as_str()),
            LayoutError::BadNode { at } => {
                said3("node ", decimal(*at as u64).as_str(), ": out of range")
            },
            LayoutError::BadViewport => "viewport must have non-zero size".to_owned(),
            LayoutError::BadStyle { node, declarations, reason } => {
                let head = said3("node `", node.as_str(), "`: bad CSS ");
                let body = joined(head, write_debug(declarations.as_str()).as_str());
                joined(joined(joined(body, " ("), reason.as_str()), ")")
            },
            LayoutError::BadPaint { node, reason } => {
                said5("node `", node.as_str(), "`: bad paint (", reason.as_str(), ")")
            },
            LayoutError::BadMask { node, reason } => {
                said5("node `", node.as_str(), "`: bad mask (", reason.as_str(), ")")
            },
            LayoutError::BadScene3D { node, reason } => {
                said5("node `", node.as_str(), "`: bad Scene3D frame (", reason.as_str(), ")")
            },
            LayoutError::BadFormula { node, reason } => {
                said5("node `", node.as_str(), "`: bad MathFormula (", reason.as_str(), ")")
            },
            LayoutError::NondeterministicSurface { node, surface } => {
                said5(
                    "node `",
                    node.as_str(),
                    "` uses `",
                    surface.as_str(),
                    "`, which is outside the deterministic paint surface",
                )
            },
            LayoutError::PostLayoutOffOrigin { node, x, y } => {
                let a = css_token(&MotionValue::Number(*x), host);
                let b = css_token(&MotionValue::Number(*y), host);
                let head = said5(
                    "node `",
                    node.as_str(),
                    "` draws post-layout geometry (bounds/anchor/connect/project3d) but sits at (",
                    a.as_str(),
                    ", ",
                );
                let r = joined(
                    joined(head, b.as_str()),
                    ") instead of the scene origin, so those scene coordinates would be painted offset by that amount; make it an absolute overlay (`position: absolute; left: 0; top: 0`)",
                );
                assert(number_written(*host, *x, a@) && number_written(*host, *y, b@));
                r
            },
            LayoutError::BadCamera { reason } => joined("camera: ".to_owned(), reason.as_str()),
        }
    }
}

} // verus!
