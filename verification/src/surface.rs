//! Admission of a scene: its validation, and the paint surfaces that every platform paints alike.

use std::sync::Arc;

use vstd::prelude::*;

use crate::artifact::{SceneArtifact, SceneNode, StyleBinding, StyleValue};
use crate::backgrounds::{background_admitted, gradient_background_source};
use crate::findings::{findings, ValidationError};
use crate::layout_error::{plain, LayoutError, LayoutFault};
use crate::table::same_text;
use crate::text::{holds, holds_text, joined};
use crate::value::{MotionValue, Value};

verus! {

/// Style properties that are kept out.
pub open spec fn denied_style(property: Seq<char>) -> bool {
    property == "transform"@ || property == "skew"@ || property == "border-image"@ || property
        == "offset"@ || property == "offset-path"@ || property == "clip-path"@ || property
        == "mask"@ || property == "mask-image"@
}

fn is_denied_style(property: &str) -> (r: bool)
    ensures
        r == denied_style(property@),
{
    same_text(property, "transform") || same_text(property, "skew") || same_text(
        property,
        "border-image",
    ) || same_text(property, "offset") || same_text(property, "offset-path") || same_text(
        property,
        "clip-path",
    ) || same_text(property, "mask") || same_text(property, "mask-image")
}

/// Class names that are kept out.
pub open spec fn denied_class(name: Seq<char>) -> bool {
    holds(name, "transform"@) || holds(name, "translate-"@) || holds(name, "rotate-"@) || holds(
        name,
        "scale-"@,
    ) || holds(name, "skew-"@) || holds(name, "blur"@) || holds(name, "backdrop-"@) || holds(
        name,
        "filter"@,
    ) || holds(name, "clip-"@) || holds(name, "mask-"@)
}

fn is_denied_class(name: &str) -> (r: bool)
    ensures
        r == denied_class(name@),
{
    holds_text(name, "transform") || holds_text(name, "translate-") || holds_text(name, "rotate-")
        || holds_text(name, "scale-") || holds_text(name, "skew-") || holds_text(name, "blur")
        || holds_text(name, "backdrop-") || holds_text(name, "filter") || holds_text(name, "clip-")
        || holds_text(name, "mask-")
}

/// Texts that a style expression can take, where they are finitely many.
pub type Variants = Option<Vec<String>>;

/// Whether every text that a background style can take may be painted.
pub open spec fn binding_admitted(style: StyleBinding, variants: Variants) -> bool {
    match style.value {
        StyleValue::Static { value } => match value@ {
            Value::Str(s) => background_admitted(style.property@, s),
            Value::Enum(s) => background_admitted(style.property@, s),
            _ => false,
        },
        StyleValue::Expr { .. } => variants matches Some(texts) && forall|i: int|
            0 <= i < texts@.len() ==> background_admitted(
                style.property@,
                (#[trigger] texts@[i])@,
            ),
    }
}

fn gradient_background_binding(style: &StyleBinding, variants: &Variants) -> (r: bool)
    ensures
        r == binding_admitted(*style, *variants),
{
    match &style.value {
        StyleValue::Static { value } => match value {
            MotionValue::Str(s) => gradient_background_source(style.property.as_str(), s.as_str()),
            MotionValue::Enum(s) => gradient_background_source(style.property.as_str(), s.as_str()),
            _ => false,
        },
        StyleValue::Expr { .. } => match variants {
            None => false,
            Some(texts) => {
                let mut i: usize = 0;
                while i < texts.len()
                    invariant
                        *variants == Some(*texts),
                        style.value is Expr,
                        i <= texts@.len(),
                        forall|k: int|
                            0 <= k < i ==> background_admitted(
                                style.property@,
                                (#[trigger] texts@[k])@,
                            ),
                    decreases texts@.len() - i,
                {
                    if !gradient_background_source(style.property.as_str(), texts[i].as_str()) {
                        assert(!background_admitted(style.property@, (*variants)->0@[i as int]@));
                        return false;
                    }
                    i = i + 1;
                }
                true
            },
        },
    }
}

pub open spec fn is_background(property: Seq<char>) -> bool {
    property == "background"@ || property == "background-image"@
}

/// Whether a style is kept out.
pub open spec fn style_refused(style: StyleBinding, variants: Variants) -> bool {
    (is_background(style.property@) && !binding_admitted(style, variants)) || denied_style(
        style.property@,
    )
}

/// The first refused style from `i` on.
pub open spec fn refused_style(node: SceneNode, variants: Seq<Variants>, i: int) -> Option<Seq<char>>
    decreases node.styles@.len() - i,
{
    if i < 0 || i >= node.styles@.len() {
        None
    } else if style_refused(node.styles@[i], variants[i]) {
        Some(node.styles@[i].property@)
    } else {
        refused_style(node, variants, i + 1)
    }
}

/// The first refused class name from `i` on.
pub open spec fn refused_class(node: SceneNode, i: int) -> Option<Seq<char>>
    decreases node.class_names@.len() - i,
{
    if i < 0 || i >= node.class_names@.len() {
        None
    } else if denied_class(node.class_names@[i]@) {
        Some("className:"@ + node.class_names@[i]@)
    } else {
        refused_class(node, i + 1)
    }
}

/// What is refused of a node: its first refused style, else its first refused class name.
pub open spec fn refused(node: SceneNode, variants: Seq<Variants>) -> Option<Seq<char>> {
    match refused_style(node, variants, 0) {
        Some(s) => Some(s),
        None => refused_class(node, 0),
    }
}

/// The outcome of admitting the nodes from `i` on.
pub open spec fn admission_from(
    nodes: Seq<SceneNode>,
    variants: Seq<Vec<Variants>>,
    i: int,
) -> Result<(), LayoutFault>
    decreases nodes.len() - i,
{
    if i < 0 || i >= nodes.len() {
        Ok(())
    } else {
        match refused(nodes[i], variants[i]@) {
            Some(surface) => Err(LayoutFault::NondeterministicSurface(nodes[i].key@, surface)),
            None => admission_from(nodes, variants, i + 1),
        }
    }
}

fn find_refused(node: &SceneNode, variants: &Vec<Variants>) -> (r: Option<String>)
    requires
        variants@.len() == node.styles@.len(),
    ensures
        match r {
            Some(s) => refused(*node, variants@) == Some(s@),
            None => refused(*node, variants@) is None,
        },
{
    let mut i: usize = 0;
    while i < node.styles.len()
        invariant
            i <= node.styles@.len(),
            variants@.len() == node.styles@.len(),
            refused_style(*node, variants@, 0) == refused_style(*node, variants@, i as int),
        decreases node.styles@.len() - i,
    {
        let style = &node.styles[i];
        let property = style.property.as_str();
        if (same_text(property, "background") || same_text(property, "background-image"))
            && !gradient_background_binding(style, &variants[i]) {
            return Some(style.property.clone());
        }
        if is_denied_style(property) {
            return Some(style.property.clone());
        }
        i = i + 1;
    }
    let mut k: usize = 0;
    while k < node.class_names.len()
        invariant
            k <= node.class_names@.len(),
            refused_style(*node, variants@, 0) is None,
            refused_class(*node, 0) == refused_class(*node, k as int),
        decreases node.class_names@.len() - k,
    {
        let name = node.class_names[k].as_str();
        if is_denied_class(name) {
            return Some(joined("className:".to_owned(), name));
        }
        k = k + 1;
    }
    None
}

/// Whether the texts of expressions are given for every style of every node.
pub open spec fn covers(nodes: Seq<SceneNode>, variants: Seq<Vec<Variants>>) -> bool {
    variants.len() == nodes.len() && forall|i: int|
        0 <= i < nodes.len() ==> (#[trigger] variants[i])@.len() == nodes[i].styles@.len()
}

/// Admits paint surfaces only where no platform-dependent mathematics decides them. `variants` holds,
/// for each style of each node, the texts that its expression can take.
pub fn admit_deterministic_surface(artifact: &SceneArtifact, variants: &Vec<Vec<Variants>>) -> (r:
    Result<(), LayoutError>)
    requires
        covers(artifact.nodes@, variants@),
    ensures
        plain(r) == admission_from(artifact.nodes@, variants@, 0),
{
    let mut i: usize = 0;
    while i < artifact.nodes.len()
        invariant
            i <= artifact.nodes@.len(),
            covers(artifact.nodes@, variants@),
            admission_from(artifact.nodes@, variants@, 0) == admission_from(
                artifact.nodes@,
                variants@,
                i as int,
            ),
        decreases artifact.nodes@.len() - i,
    {
        assert(variants@[i as int]@.len() == artifact.nodes@[i as int].styles@.len());
        match find_refused(&artifact.nodes[i], &variants[i]) {
            Some(surface) => {
                return Err(
                    LayoutError::NondeterministicSurface {
                        node: artifact.nodes[i].key.clone(),
                        surface,
                    },
                );
            },
            None => {},
        }
        i = i + 1;
    }
    Ok(())
}

/// A scene whose validation and surface admission have succeeded.
pub struct PreparedScene {
    artifact: Arc<SceneArtifact>,
}

impl PreparedScene {
    /// The prepared scene.
    pub closed spec fn scene(self) -> SceneArtifact {
        *self.artifact
    }

    pub fn artifact(&self) -> (r: &SceneArtifact)
        ensures
            *r == self.scene(),
    {
        &self.artifact
    }
}

/// The outcome of preparing a scene.
pub open spec fn preparation(
    artifact: SceneArtifact,
    errors: Seq<ValidationError>,
    variants: Seq<Vec<Variants>>,
) -> Result<(), LayoutFault> {
    if errors.len() > 0 {
        Err(LayoutFault::InvalidArtifact(findings(errors)))
    } else {
        admission_from(artifact.nodes@, variants, 0)
    }
}

/// Prepares a scene that is shared: `errors` are the findings of its validation.
pub fn prepare(
    artifact: &Arc<SceneArtifact>,
    errors: Vec<ValidationError>,
    variants: &Vec<Vec<Variants>>,
) -> (r: Result<PreparedScene, LayoutError>)
    requires
        covers(artifact.nodes@, variants@),
    ensures
        match r {
            Ok(p) => p.scene() == **artifact && preparation(**artifact, errors@, variants@) is Ok,
            Err(e) => preparation(**artifact, errors@, variants@) == Err::<(), LayoutFault>(e@),
        },
{
    if errors.len() > 0 {
        return Err(LayoutError::InvalidArtifact(errors));
    }
    match admit_deterministic_surface(artifact, variants) {
        Ok(_) => Ok(PreparedScene { artifact: Arc::clone(artifact) }),
        Err(e) => Err(e),
    }
}

/// Prepares a scene for frames: `errors` are the findings of its validation.
pub fn prepare_owned(
    artifact: SceneArtifact,
    errors: Vec<ValidationError>,
    variants: &Vec<Vec<Variants>>,
) -> (r: Result<PreparedScene, LayoutError>)
    requires
        covers(artifact.nodes@, variants@),
    ensures
        match r {
            Ok(p) => p.scene() == artifact && preparation(artifact, errors@, variants@) is Ok,
            Err(e) => preparation(artifact, errors@, variants@) == Err::<(), LayoutFault>(e@),
        },
{
    prepare(&Arc::new(artifact), errors, variants)
}

proof fn admitted_nodes_are_clean(
    nodes: Seq<SceneNode>,
    variants: Seq<Vec<Variants>>,
    i: int,
    k: int,
)
    requires
        admission_from(nodes, variants, i) is Ok,
        0 <= i <= k < nodes.len(),
    ensures
        refused(nodes[k], variants[k]@) is None,
    decreases nodes.len() - i,
{
    if i < k {
        admitted_nodes_are_clean(nodes, variants, i + 1, k);
    }
}

proof fn clean_styles(node: SceneNode, variants: Seq<Variants>, i: int, k: int)
    requires
        refused_style(node, variants, i) is None,
        0 <= i <= k < node.styles@.len(),
    ensures
        !style_refused(node.styles@[k], variants[k]),
    decreases node.styles@.len() - i,
{
    if i < k {
        clean_styles(node, variants, i + 1, k);
    }
}

/// A prepared scene has no denied style on any node.
pub proof fn prepared_scenes_have_no_denied_style(
    artifact: SceneArtifact,
    errors: Seq<ValidationError>,
    variants: Seq<Vec<Variants>>,
    at: int,
    k: int,
)
    requires
        preparation(artifact, errors, variants) is Ok,
        0 <= at < artifact.nodes@.len(),
        0 <= k < artifact.nodes@[at].styles@.len(),
    ensures
        !denied_style(artifact.nodes@[at].styles@[k].property@),
{
    admitted_nodes_are_clean(artifact.nodes@, variants, 0, at);
    clean_styles(artifact.nodes@[at], variants[at]@, 0, k);
}

} // verus!
