//! Opening and closing the groups of a painted node, and the material owners around it.

use vstd::prelude::*;

use crate::emitter::{
    closing_balances, grew, grew_more, grew_nothing, grew_one, path_label, path_text, texts,
    EmitError, Emitter, Open, Recorded,
};
use crate::recording::{
    Affine, BlendMode, Command, FillRule, FilterOp, Homography, Paint, PathRef, Rect,
};
use crate::scalar::{num, Scalar, ONE, ZERO};
use crate::shell::{
    blend_group, blend_of, box_clip, clip_for, drawable_ops, filters_read, shell_painted, CssBlend,
    CssFilter, Shell,
};
use crate::table::{find, lookup, same_text, Entry};
use crate::text::joined;

verus! {

/// 1e-6
pub const ROTATION_EPSILON: u64 = 0x3eb0_c6f7_a0b5_ed8d;

/// 1e-9
pub const AFFINE_EPSILON: u64 = 0x3e11_2e0b_e826_d695;

/// Least number whose distance to 1.0 is at most 1e-9.
pub const UNIT_LOW: u64 = 0x3fef_ffff_ff76_8fa1;

/// Greatest number whose distance to 1.0 is at most 1e-9.
pub const UNIT_HIGH: u64 = 0x3ff0_0000_0044_b82f;

/// The greatest finite single-precision number.
pub const SINGLE_MAX: u64 = 0x47ef_ffff_e000_0000;

/// An error by its contents.
pub enum Failure {
    RootLayout(Seq<char>),
    Scene(Seq<char>),
    BadStyle(Seq<char>, Seq<char>),
    Program(Seq<char>),
}

impl View for EmitError {
    type V = Failure;

    open spec fn view(&self) -> Failure {
        match *self {
            EmitError::RootLayout(m) => Failure::RootLayout(m@),
            EmitError::Scene(m) => Failure::Scene(m@),
            EmitError::BadStyle { node, reason } => Failure::BadStyle(node@, reason@),
            EmitError::Program(m) => Failure::Program(m@),
        }
    }
}

/// `before 'name' after`
pub open spec fn quoted(before: Seq<char>, name: Seq<char>, after: Seq<char>) -> Seq<char> {
    before + "'"@ + name + "'"@ + after
}

pub fn quote(before: &str, name: &str, after: &str) -> (r: String)
    ensures
        r@ == quoted(before@, name@, after@),
{
    joined(joined(joined(joined(before.to_owned(), "'"), name), "'"), after)
}

/// What the cursor's inverse times a node's absolute transform is.
#[derive(Clone, Copy, Debug, PartialEq, Eq, Structural)]
pub enum RelativeStep {
    /// The cursor's transform has no inverse.
    Singular,
    /// The product is the identity.
    Identity,
    Moved(Affine),
}

pub open spec fn same_affine_spec(a: Affine, b: Affine) -> bool {
    a.a.eq_spec(b.a) && a.b.eq_spec(b.b) && a.c.eq_spec(b.c) && a.d.eq_spec(b.d) && a.x.eq_spec(b.x)
        && a.y.eq_spec(b.y)
}

/// Numeric equality of two transforms.
pub fn same_affine(a: &Affine, b: &Affine) -> (r: bool)
    ensures
        r == same_affine_spec(*a, *b),
{
    a.a.eq_value(b.a) && a.b.eq_value(b.b) && a.c.eq_value(b.c) && a.d.eq_value(b.d)
        && a.x.eq_value(b.x) && a.y.eq_value(b.y)
}

#[derive(Clone, Copy, Debug, PartialEq, Eq, Structural)]
pub enum GlassOwnerKind {
    Independent,
    Field,
}

/// A temporally prepared material and the surface or field that owns it.
pub struct MaterialProgram {
    pub owner_kind: GlassOwnerKind,
    pub owner_id: String,
    pub program: usize,
}

/// The marker that separates a material from its foreground.
pub struct ForegroundProgram {
    pub owner_id: String,
    pub surface_id: String,
    pub program: usize,
}

/// A glass surface of the frame.
pub struct SurfaceEntry {
    pub node_key: String,
    pub surface_id: String,
    pub field_id: Option<String>,
}

/// A glass field of the frame; its owner transform is absent where it is not affine.
pub struct FieldEntry {
    pub field_id: String,
    pub owner: Option<Affine>,
}

/// The glass owners of one frame.
pub struct GlassOwners {
    pub surfaces: Vec<SurfaceEntry>,
    pub fields: Vec<FieldEntry>,
    /// By surface or field identifier.
    pub materials: Vec<Entry<MaterialProgram>>,
    /// By node key.
    pub foregrounds: Vec<Entry<ForegroundProgram>>,
    /// Field of each node that belongs to one, by node key.
    pub node_fields: Vec<Entry<String>>,
}

/// A resolved clip; the path is absent where it has no verbs.
#[derive(Clone, Copy, Debug, PartialEq, Eq, Structural)]
pub struct ClipContent {
    pub path: Option<PathRef>,
    pub fill_rule: FillRule,
}

/// What a mask samples.
pub enum MaskSource {
    Paint(Paint),
    Image(u32),
    /// The subtree of the node with this key.
    Subtree(String),
}

pub struct MaskContent {
    pub source: MaskSource,
    pub mode: u8,
    pub rect: Rect,
}

/// A plane of a 3D rendering context. `projection` is the host's homography from the border box to
/// the projected quad.
#[derive(Clone, Copy, Debug)]
pub struct Css3dPlane {
    pub hidden: bool,
    pub project: bool,
    pub projection: PlaneProjection,
}

#[derive(Clone, Copy, Debug)]
pub enum PlaneProjection {
    /// The node's 2D layout transform has no inverse.
    NonInvertible,
    /// The quad is degenerate or crosses the projection plane.
    Degenerate,
    Matrix(Homography),
}

/// 2.5D extras of a layer. `layer` is the host's homography for the two rotations, with the reason
/// where the perspective length could not be resolved.
pub struct LayerFx {
    pub rotate_x_deg: Scalar,
    pub rotate_y_deg: Scalar,
    pub contact_shadow: Scalar,
    pub contact: u32,
    pub layer: Result<Option<Homography>, String>,
}

/// What one node looks like once layout has resolved it.
pub struct NodeFacts {
    /// Whether the node was found and laid out.
    pub laid_out: bool,
    pub invisible: bool,
    /// Absolute transform.
    pub transform: Affine,
    pub backdrop_filters: Vec<CssFilter>,
    pub filters: Vec<CssFilter>,
    pub opacity: Scalar,
    pub blend: CssBlend,
    pub border_box: Rect,
    pub shell: Shell,
    pub clips_overflow: bool,
    /// Padding box and the radii of its clip.
    pub inner: Rect,
    pub inner_radii: crate::recording::Corners,
    pub has_shape_mask: bool,
}

/// A node of the paint order.
pub struct NodePaint {
    pub node_id: u64,
    pub path: Vec<usize>,
    pub facts: NodeFacts,
}

pub struct NodeKey {
    pub id: u64,
    pub key: String,
}

pub struct PathKey {
    pub path: Vec<usize>,
    pub key: String,
}

/// What painting reads of a laid-out scene, by node key.
pub struct PaintTree {
    pub keys: Vec<NodeKey>,
    pub render_keys: Vec<PathKey>,
    pub planes: Vec<Entry<Css3dPlane>>,
    pub clips: Vec<Entry<ClipContent>>,
    pub masks: Vec<Entry<MaskContent>>,
    pub backdrop_advanced: Vec<Entry<Vec<FilterOp>>>,
    pub advanced: Vec<Entry<Vec<FilterOp>>>,
    pub layer_fx: Vec<Entry<LayerFx>>,
    pub shaders: Vec<Entry<u32>>,
    pub glass: GlassOwners,
    /// Authored batch instances of the frame.
    pub reserved: usize,
    /// Instance budget of the frame.
    pub limit: usize,
}

/// Key of the first entry among the first `n` with an id.
pub open spec fn id_key(keys: Seq<NodeKey>, id: u64, n: nat) -> Option<Seq<char>>
    decreases n,
{
    if n == 0 {
        None
    } else {
        match id_key(keys, id, (n - 1) as nat) {
            Some(k) => Some(k),
            None => if keys[n - 1].id == id { Some(keys[n - 1].key@) } else { None },
        }
    }
}

/// Key of the first entry among the first `n` with a render path.
pub open spec fn path_key(keys: Seq<PathKey>, path: Seq<usize>, n: nat) -> Option<Seq<char>>
    decreases n,
{
    if n == 0 {
        None
    } else {
        match path_key(keys, path, (n - 1) as nat) {
            Some(k) => Some(k),
            None => if keys[n - 1].path@ == path { Some(keys[n - 1].key@) } else { None },
        }
    }
}

impl PaintTree {
    /// The key registered for a layout node.
    pub open spec fn layout_key(self, np: NodePaint) -> Option<Seq<char>> {
        id_key(self.keys@, np.node_id, self.keys@.len())
    }

    /// The key registered for a layout node or for its render path.
    pub open spec fn any_key(self, np: NodePaint) -> Option<Seq<char>> {
        match self.layout_key(np) {
            Some(k) => Some(k),
            None => path_key(self.render_keys@, np.path@, self.render_keys@.len()),
        }
    }

    /// How reports name a node.
    pub open spec fn label(self, np: NodePaint) -> Seq<char> {
        match self.layout_key(np) {
            Some(k) => k,
            None => "["@ + path_text(np.path@, np.path@.len()) + "]"@,
        }
    }

    pub fn key_of(&self, np: &NodePaint) -> (r: Option<String>)
        ensures
            match r {
                Some(k) => self.layout_key(*np) == Some(k@),
                None => self.layout_key(*np) is None,
            },
    {
        let mut i: usize = 0;
        while i < self.keys.len()
            invariant
                i <= self.keys@.len(),
                id_key(self.keys@, np.node_id, i as nat) is None,
            decreases self.keys@.len() - i,
        {
            if self.keys[i].id == np.node_id {
                proof {
                    id_key_settles(self.keys@, np.node_id, i as nat, self.keys@.len());
                }
                return Some(self.keys[i].key.clone());
            }
            i = i + 1;
        }
        None
    }

    pub fn node_key(&self, np: &NodePaint) -> (r: Option<String>)
        ensures
            match r {
                Some(k) => self.any_key(*np) == Some(k@),
                None => self.any_key(*np) is None,
            },
    {
        match self.key_of(np) {
            Some(k) => {
                return Some(k);
            },
            None => {},
        }
        let mut i: usize = 0;
        while i < self.render_keys.len()
            invariant
                i <= self.render_keys@.len(),
                self.layout_key(*np) is None,
                path_key(self.render_keys@, np.path@, i as nat) is None,
            decreases self.render_keys@.len() - i,
        {
            if same_path(&self.render_keys[i].path, &np.path) {
                proof {
                    path_key_settles(
                        self.render_keys@,
                        np.path@,
                        i as nat,
                        self.render_keys@.len(),
                    );
                }
                return Some(self.render_keys[i].key.clone());
            }
            i = i + 1;
        }
        None
    }

    pub fn node_label(&self, np: &NodePaint) -> (r: String)
        ensures
            r@ == self.label(*np),
    {
        match self.key_of(np) {
            Some(k) => k,
            None => path_label(&np.path),
        }
    }
}

fn same_path(a: &Vec<usize>, b: &Vec<usize>) -> (r: bool)
    ensures
        r == (a@ == b@),
{
    if a.len() != b.len() {
        return false;
    }
    let mut i: usize = 0;
    while i < a.len()
        invariant
            i <= a@.len() == b@.len(),
            forall|k: int| 0 <= k < i ==> a@[k] == b@[k],
        decreases a@.len() - i,
    {
        if a[i] != b[i] {
            return false;
        }
        i = i + 1;
    }
    assert(a@ =~= b@);
    true
}

proof fn id_key_settles(keys: Seq<NodeKey>, id: u64, m: nat, n: nat)
    requires
        m < n <= keys.len(),
        keys[m as int].id == id,
        id_key(keys, id, m) is None,
    ensures
        id_key(keys, id, n) == Some(keys[m as int].key@),
    decreases n - m,
{
    if m + 1 < n {
        id_key_settles(keys, id, m, (n - 1) as nat);
    }
}

proof fn path_key_settles(keys: Seq<PathKey>, path: Seq<usize>, m: nat, n: nat)
    requires
        m < n <= keys.len(),
        keys[m as int].path@ == path,
        path_key(keys, path, m) is None,
    ensures
        path_key(keys, path, n) == Some(keys[m as int].key@),
    decreases n - m,
{
    if m + 1 < n {
        path_key_settles(keys, path, m, (n - 1) as nat);
    }
}

/// Position of the first surface among the first `n` of a node, or `n`.
pub open spec fn surface_at(surfaces: Seq<SurfaceEntry>, key: Seq<char>, n: nat) -> nat
    decreases n,
{
    if n == 0 {
        0
    } else {
        let before = surface_at(surfaces, key, (n - 1) as nat);
        if before < n - 1 {
            before
        } else if surfaces[n - 1].node_key@ == key {
            (n - 1) as nat
        } else {
            n
        }
    }
}

/// Position of the first field among the first `n` with an identifier, or `n`.
pub open spec fn field_at(fields: Seq<FieldEntry>, id: Seq<char>, n: nat) -> nat
    decreases n,
{
    if n == 0 {
        0
    } else {
        let before = field_at(fields, id, (n - 1) as nat);
        if before < n - 1 {
            before
        } else if fields[n - 1].field_id@ == id {
            (n - 1) as nat
        } else {
            n
        }
    }
}

proof fn surface_at_settles(surfaces: Seq<SurfaceEntry>, key: Seq<char>, m: nat, n: nat)
    requires
        m < n <= surfaces.len(),
        surfaces[m as int].node_key@ == key,
        surface_at(surfaces, key, m) == m,
    ensures
        surface_at(surfaces, key, n) == m,
    decreases n - m,
{
    if m + 1 < n {
        surface_at_settles(surfaces, key, m, (n - 1) as nat);
    }
}

proof fn field_at_settles(fields: Seq<FieldEntry>, id: Seq<char>, m: nat, n: nat)
    requires
        m < n <= fields.len(),
        fields[m as int].field_id@ == id,
        field_at(fields, id, m) == m,
    ensures
        field_at(fields, id, n) == m,
    decreases n - m,
{
    if m + 1 < n {
        field_at_settles(fields, id, m, (n - 1) as nat);
    }
}

/// The material groups that a node opens.
pub enum GlassStep {
    /// The node is no glass surface.
    Plain,
    /// A surface of its own: a material, named by its surface, and the foreground marker.
    Surface(Seq<char>, usize, usize),
    /// A member of the enclosing field: the foreground marker only.
    Member(usize),
}

/// What the glass owners of a frame make of a node, given the innermost open material.
pub open spec fn glass_step(
    glass: GlassOwners,
    key: Option<Seq<char>>,
    innermost: Option<Seq<char>>,
) -> Result<GlassStep, Failure> {
    match key {
        None => Ok(GlassStep::Plain),
        Some(key) => {
            let at = surface_at(glass.surfaces@, key, glass.surfaces@.len());
            if at >= glass.surfaces@.len() {
                Ok(GlassStep::Plain)
            } else {
                let surface = glass.surfaces@[at as int];
                let id = surface.surface_id@;
                let owner = match surface.field_id {
                    Some(field) => field@,
                    None => id,
                };
                let material = find(glass.materials@, id);
                if surface.field_id is Some && innermost != Some(owner) {
                    Err(
                        Failure::Program(
                            quoted(
                                quoted("Glass member "@, id, " is outside its field owner "@),
                                owner,
                                ""@,
                            ),
                        ),
                    )
                } else if surface.field_id is None && material is None {
                    Err(
                        Failure::Program(
                            quoted(
                                "Glass "@,
                                id,
                                " has no temporally prepared material program"@,
                            ),
                        ),
                    )
                } else if surface.field_id is None && (material->0.owner_kind
                    != GlassOwnerKind::Independent || material->0.owner_id@ != id) {
                    Err(
                        Failure::Program(
                            quoted("Glass "@, id, " material program has the wrong owner identity"@),
                        ),
                    )
                } else {
                    match find(glass.foregrounds@, key) {
                        None => Err(
                            Failure::Program(
                                quoted("Glass "@, id, " has no prepared foreground marker"@),
                            ),
                        ),
                        Some(marker) => if marker.owner_id@ != owner || marker.surface_id@ != id {
                            Err(
                                Failure::Program(
                                    quoted(
                                        "Glass "@,
                                        id,
                                        " foreground marker has the wrong owner identity"@,
                                    ),
                                ),
                            )
                        } else if surface.field_id is None {
                            Ok(GlassStep::Surface(id, material->0.program, marker.program))
                        } else {
                            Ok(GlassStep::Member(marker.program))
                        },
                    }
                }
            }
        },
    }
}

/// Executable form of a glass step.
pub enum GlassAction {
    Plain,
    Surface(String, usize, usize),
    Member(usize),
}

impl View for GlassAction {
    type V = GlassStep;

    open spec fn view(&self) -> GlassStep {
        match *self {
            GlassAction::Plain => GlassStep::Plain,
            GlassAction::Surface(id, m, f) => GlassStep::Surface(id@, m, f),
            GlassAction::Member(f) => GlassStep::Member(f),
        }
    }
}

/// A result by its contents.
pub open spec fn seen<T: View>(r: Result<T, EmitError>) -> Result<T::V, Failure> {
    match r {
        Ok(v) => Ok(v@),
        Err(e) => Err(e@),
    }
}

pub open spec fn option_text(o: Option<String>) -> Option<Seq<char>> {
    match o {
        Some(s) => Some(s@),
        None => None,
    }
}

fn innermost_is(materials: &Vec<String>, id: &str) -> (r: bool)
    ensures
        r == (texts(materials@).len() > 0 && texts(materials@).last() == id@),
{
    let n: usize = materials.len();
    if n == 0 {
        return false;
    }
    assert(texts(materials@).last() == materials@[n - 1]@);
    same_text(materials[n - 1].as_str(), id)
}

pub open spec fn innermost_of(materials: Seq<Seq<char>>) -> Option<Seq<char>> {
    if materials.len() == 0 { None } else { Some(materials.last()) }
}

fn glass_action(glass: &GlassOwners, key: &Option<String>, materials: &Vec<String>) -> (r: Result<
    GlassAction,
    EmitError,
>)
    ensures
        seen(r) == glass_step(*glass, option_text(*key), innermost_of(texts(materials@))),
{
    let key = match key {
        None => {
            return Ok(GlassAction::Plain);
        },
        Some(k) => k,
    };
    let n: usize = glass.surfaces.len();
    let mut at: usize = 0;
    while at < n && !same_text(glass.surfaces[at].node_key.as_str(), key.as_str())
        invariant
            n == glass.surfaces@.len(),
            at <= n,
            surface_at(glass.surfaces@, key@, at as nat) == at,
        decreases n - at,
    {
        at = at + 1;
    }
    if at == n {
        return Ok(GlassAction::Plain);
    }
    proof {
        surface_at_settles(glass.surfaces@, key@, at as nat, n as nat);
    }
    let surface = &glass.surfaces[at];
    let id = surface.surface_id.as_str();
    let mut own: usize = 0;
    match &surface.field_id {
        Some(field) => {
            if !innermost_is(materials, field.as_str()) {
                let head = quote("Glass member ", id, " is outside its field owner ");
                return Err(EmitError::Program(quote(head.as_str(), field.as_str(), "")));
            }
        },
        None => {
            match lookup(&glass.materials, id) {
                None => {
                    return Err(
                        EmitError::Program(
                            quote("Glass ", id, " has no temporally prepared material program"),
                        ),
                    );
                },
                Some(program) => {
                    if program.owner_kind != GlassOwnerKind::Independent || !same_text(
                        program.owner_id.as_str(),
                        id,
                    ) {
                        return Err(
                            EmitError::Program(
                                quote(
                                    "Glass ",
                                    id,
                                    " material program has the wrong owner identity",
                                ),
                            ),
                        );
                    }
                    own = program.program;
                },
            }
        },
    }
    let owner: &str = match &surface.field_id {
        Some(field) => field.as_str(),
        None => id,
    };
    match lookup(&glass.foregrounds, key.as_str()) {
        None => Err(
            EmitError::Program(quote("Glass ", id, " has no prepared foreground marker")),
        ),
        Some(marker) => {
            if !same_text(marker.owner_id.as_str(), owner) || !same_text(
                marker.surface_id.as_str(),
                id,
            ) {
                return Err(
                    EmitError::Program(
                        quote("Glass ", id, " foreground marker has the wrong owner identity"),
                    ),
                );
            }
            match &surface.field_id {
                None => Ok(GlassAction::Surface(surface.surface_id.clone(), own, marker.program)),
                Some(_) => Ok(GlassAction::Member(marker.program)),
            }
        },
    }
}

/// The projective wrapper that a node needs: a plane of a 3D context first, otherwise the layer's
/// own rotations.
pub open spec fn perspective_step(tree: PaintTree, key: Option<Seq<char>>) -> Result<
    Option<Homography>,
    Failure,
> {
    match key {
        None => Ok(None),
        Some(key) => {
            let plane = find(tree.planes@, key);
            let fx = find(tree.layer_fx@, key);
            if plane is Some && !plane->0.hidden && plane->0.project {
                match plane->0.projection {
                    PlaneProjection::NonInvertible => Err(
                        Failure::BadStyle(
                            key,
                            "CSS 3D plane has a non-invertible 2D layout transform"@,
                        ),
                    ),
                    PlaneProjection::Degenerate => Err(
                        Failure::BadStyle(
                            key,
                            "CSS 3D plane is degenerate or crosses the projection plane"@,
                        ),
                    ),
                    PlaneProjection::Matrix(m) => Ok(Some(m)),
                }
            } else if fx is Some && (num(ROTATION_EPSILON).lt_spec(fx->0.rotate_x_deg.abs_spec())
                || num(ROTATION_EPSILON).lt_spec(fx->0.rotate_y_deg.abs_spec())) {
                match fx->0.layer {
                    Ok(m) => Ok(m),
                    Err(reason) => Err(Failure::BadStyle(key, reason@)),
                }
            } else {
                Ok(None)
            }
        },
    }
}

fn perspective_of(tree: &PaintTree, key: &Option<String>) -> (r: Result<
    Option<Homography>,
    EmitError,
>)
    ensures
        match r {
            Ok(m) => perspective_step(*tree, option_text(*key)) == Ok::<
                Option<Homography>,
                Failure,
            >(m),
            Err(e) => perspective_step(*tree, option_text(*key)) == Err::<
                Option<Homography>,
                Failure,
            >(e@),
        },
{
    let key = match key {
        None => {
            return Ok(None);
        },
        Some(k) => k,
    };
    match lookup(&tree.planes, key.as_str()) {
        Some(plane) => {
            if !plane.hidden && plane.project {
                return match plane.projection {
                    PlaneProjection::NonInvertible => Err(
                        EmitError::BadStyle {
                            node: key.clone(),
                            reason: "CSS 3D plane has a non-invertible 2D layout transform".to_owned(),
                        },
                    ),
                    PlaneProjection::Degenerate => Err(
                        EmitError::BadStyle {
                            node: key.clone(),
                            reason:
                                "CSS 3D plane is degenerate or crosses the projection plane".to_owned(),
                        },
                    ),
                    PlaneProjection::Matrix(m) => Ok(Some(m)),
                };
            }
        },
        None => {},
    }
    match lookup(&tree.layer_fx, key.as_str()) {
        None => Ok(None),
        Some(fx) => {
            let epsilon = Scalar::from_bits(ROTATION_EPSILON);
            if epsilon.lt(fx.rotate_x_deg.abs()) || epsilon.lt(fx.rotate_y_deg.abs()) {
                match &fx.layer {
                    Ok(m) => Ok(*m),
                    Err(reason) => Err(
                        EmitError::BadStyle { node: key.clone(), reason: reason.clone() },
                    ),
                }
            } else {
                Ok(None)
            }
        },
    }
}

/// Whether some mask samples the subtree of a node.
pub open spec fn is_mask_source(masks: Seq<Entry<MaskContent>>, key: Seq<char>) -> bool {
    exists|k: int| 0 <= k < masks.len() && samples(#[trigger] masks[k], key)
}

/// Whether a mask samples the subtree of a node.
pub open spec fn samples(mask: Entry<MaskContent>, key: Seq<char>) -> bool {
    match mask.value.source {
        MaskSource::Subtree(s) => s@ == key,
        _ => false,
    }
}

/// The clip and mask groups of a node.
pub open spec fn clip_commands(tree: PaintTree, key: Option<Seq<char>>) -> Seq<Command> {
    match key {
        None => Seq::empty(),
        Some(key) => {
            let clip = match find(tree.clips@, key) {
                Some(c) => match c.path {
                    Some(path) => seq![Command::BeginClipPath { path, fill_rule: c.fill_rule }],
                    None => Seq::empty(),
                },
                None => Seq::empty(),
            };
            let mask = match find(tree.masks@, key) {
                Some(m) => match m.source {
                    MaskSource::Paint(paint) => seq![
                        Command::BeginMaskPaint { paint, mode: m.mode, rect: m.rect },
                    ],
                    MaskSource::Image(image) => seq![
                        Command::BeginMaskImage { image, mode: m.mode, rect: m.rect },
                    ],
                    MaskSource::Subtree(_) => seq![
                        Command::BeginSaveLayer { bounds: Some(m.rect), alpha: num(ONE) },
                    ],
                },
                None => Seq::empty(),
            };
            let cut = if is_mask_source(tree.masks@, key) {
                seq![Command::BeginBlend { mode: BlendMode::DestinationIn }]
            } else {
                Seq::empty()
            };
            clip + mask + cut
        },
    }
}

/// The filter steps registered for a node beyond the CSS list.
pub open spec fn extra_ops(entries: Seq<Entry<Vec<FilterOp>>>, key: Option<Seq<char>>) -> Seq<
    FilterOp,
> {
    match key {
        None => Seq::empty(),
        Some(key) => match find(entries, key) {
            Some(ops) => ops@,
            None => Seq::empty(),
        },
    }
}

/// The state once the transform and material groups of a node are open.
pub open spec fn owners_opened(
    r: Recorded,
    np: NodePaint,
    step: RelativeStep,
    glass: GlassStep,
) -> Recorded {
    let r1 = if same_affine_spec(np.facts.transform, r.cur) {
        r
    } else {
        match step {
            RelativeStep::Moved(t) => Recorded {
                cur: np.facts.transform,
                ..r.put(Command::BeginTransform { transform: t })
            },
            _ => r,
        }
    };
    match glass {
        GlassStep::Plain => r1,
        GlassStep::Surface(id, material, marker) => Recorded {
            materials: r1.materials.push(id),
            ..r1.put(Command::BeginMotionGlass { program: material }).put(
                Command::BeginMotionGlassForeground { program: marker },
            )
        },
        GlassStep::Member(marker) => r1.put(
            Command::BeginMotionGlassForeground { program: marker },
        ),
    }
}

/// The state once the backdrop group of a node is open.
pub open spec fn backdrop_opened(r: Recorded, tree: PaintTree, np: NodePaint) -> Recorded {
    let extra = extra_ops(tree.backdrop_advanced@, tree.layout_key(np));
    let list = np.facts.backdrop_filters@;
    if list.len() == 0 && extra.len() == 0 {
        r
    } else {
        let ops = drawable_ops(list, list.len()) + extra;
        let r1 = filters_read(r, tree.label(np), list);
        r1.intern_filters(ops).put(
            Command::BeginBackdropFilter {
                filters: r1.filter_range(ops),
                bounds: np.facts.border_box,
            },
        )
    }
}

/// The state once opacity, blending and filter groups of a node are open, in that order.
pub open spec fn effects_opened(r: Recorded, tree: PaintTree, np: NodePaint) -> Recorded {
    let r1 = if np.facts.opacity.lt_spec(num(ONE)) {
        r.put(Command::BeginSaveLayer { bounds: None, alpha: np.facts.opacity })
    } else {
        r
    };
    let r2 = match blend_group(np.facts.blend) {
        Some(mode) => r1.put(Command::BeginBlend { mode }),
        None => r1,
    };
    let extra = extra_ops(tree.advanced@, tree.layout_key(np));
    let r3 = if extra.len() == 0 {
        r2
    } else {
        r2.intern_filters(extra).put(Command::BeginFilter { filters: r2.filter_range(extra) })
    };
    let list = np.facts.filters@;
    if list.len() == 0 {
        r3
    } else {
        let ops = drawable_ops(list, list.len());
        let r4 = filters_read(r3, tree.label(np), list);
        r4.intern_filters(ops).put(Command::BeginFilter { filters: r4.filter_range(ops) })
    }
}

/// The state once the contact shadow is painted and projective and shader groups are open.
pub open spec fn layer_opened(
    r: Recorded,
    tree: PaintTree,
    np: NodePaint,
    perspective: Option<Homography>,
) -> Recorded {
    let key = tree.layout_key(np);
    let r1 = match key {
        Some(key) => match find(tree.layer_fx@, key) {
            Some(fx) => if num(ZERO).lt_spec(fx.contact_shadow) {
                r.put(Command::Shadow { shadow: fx.contact })
            } else {
                r
            },
            None => r,
        },
        None => r,
    };
    let r2 = match perspective {
        Some(matrix) => r1.put(Command::BeginPerspective { matrix }),
        None => r1,
    };
    match key {
        Some(key) => match find(tree.shaders@, key) {
            Some(shader) => r2.put(
                Command::BeginShaderLayer { shader, bounds: np.facts.border_box },
            ),
            None => r2,
        },
        None => r2,
    }
}

/// Whether a node is the shell of a glass surface, which has material instead of CSS paint.
pub open spec fn is_glass_shell(tree: PaintTree, np: NodePaint) -> bool {
    match tree.any_key(np) {
        Some(key) => find(tree.glass.foregrounds@, key) is Some,
        None => false,
    }
}

/// The state once a node is open: groups in their fixed order, the painted shell, the overflow
/// clip.
pub open spec fn node_opened(
    r: Recorded,
    tree: PaintTree,
    np: NodePaint,
    step: RelativeStep,
    glass: GlassStep,
    perspective: Option<Homography>,
) -> Recorded {
    let r1 = owners_opened(r, np, step, glass);
    let r2 = r1.put_all(clip_commands(tree, tree.layout_key(np)));
    let r3 = backdrop_opened(r2, tree, np);
    let r4 = effects_opened(r3, tree, np);
    let r5 = layer_opened(r4, tree, np, perspective);
    let r6 = if is_glass_shell(tree, np) {
        r5
    } else {
        shell_painted(r5, tree.label(np), np.facts.shell, tree.reserved, tree.limit)
    };
    let r7 = if np.facts.clips_overflow {
        r6.put(box_clip(np.facts.inner, np.facts.inner_radii))
    } else {
        r6
    };
    if np.facts.has_shape_mask {
        r7.note(tree.label(np), "CSS clip-path / mask-image properties"@)
    } else {
        r7
    }
}

/// Whether the node's plane is culled.
pub open spec fn is_culled(tree: PaintTree, np: NodePaint) -> bool {
    match tree.layout_key(np) {
        Some(key) => match find(tree.planes@, key) {
            Some(plane) => plane.hidden,
            None => false,
        },
        None => false,
    }
}

/// Whether a node is not drawn at all.
pub open spec fn is_skipped(np: NodePaint) -> bool {
    !np.facts.laid_out || np.facts.invisible
}

/// Whether the node stands under a transform that cannot be undone.
pub open spec fn is_stranded(r: Recorded, np: NodePaint, step: RelativeStep) -> bool {
    !same_affine_spec(np.facts.transform, r.cur) && step == RelativeStep::Singular
}

/// The error that opening a node fails with, if it does.
pub open spec fn node_failure(
    r: Recorded,
    tree: PaintTree,
    np: NodePaint,
    step: RelativeStep,
) -> Option<Failure> {
    if is_skipped(np) || is_culled(tree, np) || is_stranded(r, np, step) {
        None
    } else {
        match glass_step(tree.glass, tree.any_key(np), innermost_of(r.materials)) {
            Err(e) => Some(e),
            Ok(_) => match perspective_step(tree, tree.layout_key(np)) {
                Err(e) => Some(e),
                Ok(_) => None,
            },
        }
    }
}

/// The state once a node that does not fail is open.
pub open spec fn node_begun(
    r: Recorded,
    tree: PaintTree,
    np: NodePaint,
    step: RelativeStep,
) -> Recorded {
    if is_skipped(np) || is_culled(tree, np) {
        r
    } else if is_stranded(r, np, step) {
        r.note(tree.label(np), "degenerate parent transform (not invertible)"@)
    } else {
        node_opened(
            r,
            tree,
            np,
            step,
            glass_step(tree.glass, tree.any_key(np), innermost_of(r.materials))->Ok_0,
            perspective_step(tree, tree.layout_key(np))->Ok_0,
        )
    }
}

impl Emitter {
    fn open_owners(&mut self, np: &NodePaint, step: RelativeStep, glass: GlassAction) -> (r: usize)
        ensures
            final(self)@ == owners_opened(old(self)@, *np, step, glass@),
            r <= 3,
            grew(old(self)@, final(self)@, r as int),
    {
        let mut depth: usize = 0;
        proof {
            grew_nothing(old(self)@, self@);
        }
        if !same_affine(&np.facts.transform, &self.cur) {
            match step {
                RelativeStep::Moved(t) => {
                    let c = Command::BeginTransform { transform: t };
                    self.push(c);
                    self.cur = np.facts.transform;
                    depth = 1;
                    proof {
                        grew_one(old(self)@, self@, c);
                    }
                },
                _ => {},
            }
        }
        let ghost moved = self@;
        match glass {
            GlassAction::Plain => {},
            GlassAction::Surface(id, material, marker) => {
                let m = Command::BeginMotionGlass { program: material };
                self.push(m);
                let ghost owned = self@;
                let ghost before = self.materials@;
                self.materials.push(id);
                assert(texts(self.materials@) =~= texts(before).push(id@));
                let f = Command::BeginMotionGlassForeground { program: marker };
                self.push(f);
                depth = depth + 2;
                proof {
                    grew_one(moved, owned, m);
                    grew_one(owned, self@, f);
                    grew_more(moved, owned, self@, 1, 1);
                    grew_more(old(self)@, moved, self@, depth - 2, 2);
                }
            },
            GlassAction::Member(marker) => {
                let f = Command::BeginMotionGlassForeground { program: marker };
                self.push(f);
                depth = depth + 1;
                proof {
                    grew_one(moved, self@, f);
                    grew_more(old(self)@, moved, self@, depth - 1, 1);
                }
            },
        }
        depth
    }

    fn open_clips(&mut self, tree: &PaintTree, np: &NodePaint) -> (r: usize)
        ensures
            final(self)@ == old(self)@.put_all(clip_commands(*tree, tree.layout_key(*np))),
            r <= 3,
            grew(old(self)@, final(self)@, r as int),
    {
        let mut depth: usize = 0;
        let ghost start = self@;
        proof {
            grew_nothing(old(self)@, self@);
            assert(self@.commands + Seq::<Command>::empty() =~= self@.commands);
        }
        let key = match tree.key_of(np) {
            None => {
                return 0;
            },
            Some(k) => k,
        };
        match lookup(&tree.clips, key.as_str()) {
            Some(clip) => {
                match clip.path {
                    Some(path) => {
                        let c = Command::BeginClipPath { path, fill_rule: clip.fill_rule };
                        self.push(c);
                        depth = 1;
                        proof {
                            grew_one(old(self)@, self@, c);
                        }
                    },
                    None => {},
                }
            },
            None => {},
        }
        let ghost clipped = self@;
        match lookup(&tree.masks, key.as_str()) {
            Some(mask) => {
                let c = match &mask.source {
                    MaskSource::Paint(paint) => Command::BeginMaskPaint {
                        paint: *paint,
                        mode: mask.mode,
                        rect: mask.rect,
                    },
                    MaskSource::Image(image) => Command::BeginMaskImage {
                        image: *image,
                        mode: mask.mode,
                        rect: mask.rect,
                    },
                    MaskSource::Subtree(_) => Command::BeginSaveLayer {
                        bounds: Some(mask.rect),
                        alpha: Scalar::from_bits(ONE),
                    },
                };
                self.push(c);
                depth = depth + 1;
                proof {
                    grew_one(clipped, self@, c);
                    grew_more(old(self)@, clipped, self@, depth - 1, 1);
                }
            },
            None => {},
        }
        let ghost masked = self@;
        if mask_samples(&tree.masks, key.as_str()) {
            let c = Command::BeginBlend { mode: BlendMode::DestinationIn };
            self.push(c);
            depth = depth + 1;
            proof {
                grew_one(masked, self@, c);
                grew_more(old(self)@, masked, self@, depth - 1, 1);
            }
        }
        assert(self@.commands =~= start.commands + clip_commands(*tree, tree.layout_key(*np)));
        depth
    }

    fn open_backdrop(&mut self, tree: &PaintTree, np: &NodePaint, label: &str) -> (r: usize)
        requires
            label@ == tree.label(*np),
        ensures
            final(self)@ == backdrop_opened(old(self)@, *tree, *np),
            r <= 1,
            grew(old(self)@, final(self)@, r as int),
    {
        let extra = extra_of(&tree.backdrop_advanced, &tree.key_of(np));
        if np.facts.backdrop_filters.len() == 0 && extra.len() == 0 {
            proof {
                grew_nothing(old(self)@, self@);
            }
            return 0;
        }
        let mut ops = self.filter_ops(label, &np.facts.backdrop_filters);
        let ghost read = self@;
        append_ops(&mut ops, &extra);
        let filters = self.intern_filters(&ops);
        let ghost interned = self@;
        let c = Command::BeginBackdropFilter { filters, bounds: np.facts.border_box };
        self.push(c);
        proof {
            grew_nothing(old(self)@, interned);
            grew_one(interned, self@, c);
            grew_more(old(self)@, interned, self@, 0, 1);
        }
        1
    }

    fn open_effects(&mut self, tree: &PaintTree, np: &NodePaint, label: &str) -> (r: usize)
        requires
            label@ == tree.label(*np),
        ensures
            final(self)@ == effects_opened(old(self)@, *tree, *np),
            r <= 4,
            grew(old(self)@, final(self)@, r as int),
    {
        let mut depth: usize = 0;
        proof {
            grew_nothing(old(self)@, self@);
        }
        if np.facts.opacity.lt(Scalar::from_bits(ONE)) {
            let c = Command::BeginSaveLayer { bounds: None, alpha: np.facts.opacity };
            self.push(c);
            depth = 1;
            proof {
                grew_one(old(self)@, self@, c);
            }
        }
        let ghost r1 = self@;
        match blend_of(np.facts.blend) {
            Some(mode) => {
                let c = Command::BeginBlend { mode };
                self.push(c);
                depth = depth + 1;
                proof {
                    grew_one(r1, self@, c);
                    grew_more(old(self)@, r1, self@, depth - 1, 1);
                }
            },
            None => {},
        }
        let ghost r2 = self@;
        let extra = extra_of(&tree.advanced, &tree.key_of(np));
        if extra.len() > 0 {
            let filters = self.intern_filters(&extra);
            let ghost interned = self@;
            let c = Command::BeginFilter { filters };
            self.push(c);
            depth = depth + 1;
            proof {
                grew_nothing(r2, interned);
                grew_one(interned, self@, c);
                grew_more(r2, interned, self@, 0, 1);
                grew_more(old(self)@, r2, self@, depth - 1, 1);
            }
        }
        let ghost r3 = self@;
        if np.facts.filters.len() > 0 {
            let ops = self.filter_ops(label, &np.facts.filters);
            let filters = self.intern_filters(&ops);
            let ghost interned = self@;
            let c = Command::BeginFilter { filters };
            self.push(c);
            depth = depth + 1;
            proof {
                grew_nothing(r3, interned);
                grew_one(interned, self@, c);
                grew_more(r3, interned, self@, 0, 1);
                grew_more(old(self)@, r3, self@, depth - 1, 1);
            }
        }
        depth
    }

    fn open_layer(
        &mut self,
        tree: &PaintTree,
        np: &NodePaint,
        perspective: Option<Homography>,
    ) -> (r: usize)
        ensures
            final(self)@ == layer_opened(old(self)@, *tree, *np, perspective),
            r <= 2,
            grew(old(self)@, final(self)@, r as int),
    {
        let mut depth: usize = 0;
        proof {
            grew_nothing(old(self)@, self@);
        }
        let key = tree.key_of(np);
        match &key {
            Some(key) => {
                match lookup(&tree.layer_fx, key.as_str()) {
                    Some(fx) => {
                        if Scalar::from_bits(ZERO).lt(fx.contact_shadow) {
                            let c = Command::Shadow { shadow: fx.contact };
                            self.push(c);
                            proof {
                                grew_one(old(self)@, self@, c);
                            }
                        }
                    },
                    None => {},
                }
            },
            None => {},
        }
        let ghost r1 = self@;
        match perspective {
            Some(matrix) => {
                let c = Command::BeginPerspective { matrix };
                self.push(c);
                depth = 1;
                proof {
                    grew_one(r1, self@, c);
                    grew_more(old(self)@, r1, self@, 0, 1);
                }
            },
            None => {},
        }
        let ghost r2 = self@;
        match &key {
            Some(key) => {
                match lookup(&tree.shaders, key.as_str()) {
                    Some(shader) => {
                        let c = Command::BeginShaderLayer {
                            shader: *shader,
                            bounds: np.facts.border_box,
                        };
                        self.push(c);
                        depth = depth + 1;
                        proof {
                            grew_one(r2, self@, c);
                            grew_more(old(self)@, r2, self@, depth - 1, 1);
                        }
                    },
                    None => {},
                }
            },
            None => {},
        }
        depth
    }

    fn open_groups(
        &mut self,
        tree: &PaintTree,
        np: &NodePaint,
        step: RelativeStep,
        glass: GlassAction,
        perspective: Option<Homography>,
        label: &str,
        any: &Option<String>,
    ) -> (r: usize)
        requires
            label@ == tree.label(*np),
            option_text(*any) == tree.any_key(*np),
        ensures
            final(self)@ == node_opened(old(self)@, *tree, *np, step, glass@, perspective),
            grew(old(self)@, final(self)@, r as int),
    {
        let d1: usize = self.open_owners(np, step, glass);
        let ghost r1 = self@;
        let d2: usize = self.open_clips(tree, np);
        let ghost r2 = self@;
        let d3: usize = self.open_backdrop(tree, np, label);
        let ghost r3 = self@;
        let d4: usize = self.open_effects(tree, np, label);
        let ghost r4 = self@;
        let d5: usize = self.open_layer(tree, np, perspective);
        let ghost r5 = self@;
        proof {
            grew_more(old(self)@, r1, r2, d1 as int, d2 as int);
            grew_more(old(self)@, r2, r3, d1 + d2, d3 as int);
            grew_more(old(self)@, r3, r4, d1 + d2 + d3, d4 as int);
            grew_more(old(self)@, r4, r5, d1 + d2 + d3 + d4, d5 as int);
        }
        let mut depth: usize = d1 + d2 + d3 + d4 + d5;
        let shell_only: bool = match any {
            Some(k) => match lookup(&tree.glass.foregrounds, k.as_str()) {
                Some(_) => true,
                None => false,
            },
            None => false,
        };
        if !shell_only {
            self.shell(label, &np.facts.shell, tree.reserved, tree.limit);
            proof {
                grew_more(old(self)@, r5, self@, depth as int, 0);
                crate::shell::shell_is_local(
                    r5,
                    label@,
                    np.facts.shell,
                    tree.reserved,
                    tree.limit,
                );
            }
        }
        let ghost r6 = self@;
        if np.facts.clips_overflow {
            let c = clip_for(np.facts.inner, np.facts.inner_radii);
            self.push(c);
            depth = depth + 1;
            proof {
                grew_one(r6, self@, c);
                grew_more(old(self)@, r6, self@, depth - 1, 1);
            }
        }
        let ghost r7 = self@;
        if np.facts.has_shape_mask {
            self.unsupported(label, "CSS clip-path / mask-image properties");
            proof {
                grew_nothing(r7, self@);
                grew_more(old(self)@, r7, self@, depth as int, 0);
            }
        }
        depth
    }

    /// Opens a node's groups and paints its shell. `step` relates the node's transform to the
    /// cursor's. On failure nothing is recorded.
    pub fn begin_node(&mut self, tree: &PaintTree, np: &NodePaint, step: RelativeStep) -> (r: Result<
        Open,
        EmitError,
    >)
        ensures
            match r {
                Err(e) => node_failure(old(self)@, *tree, *np, step) == Some(e@) && *final(self)
                    == *old(self),
                Ok(open) => {
                    &&& node_failure(old(self)@, *tree, *np, step) is None
                    &&& final(self)@ == node_begun(old(self)@, *tree, *np, step)
                    &&& open.hidden == (!is_skipped(*np) && is_culled(*tree, *np))
                    &&& open.prev == old(self)@.cur
                    &&& open.materials == old(self)@.materials.len()
                    &&& grew(old(self)@, final(self)@, open.depth as int)
                    &&& open.materials <= final(self)@.materials.len()
                    &&& old(self)@.materials.is_prefix_of(final(self)@.materials)
                },
            },
    {
        let none = self.nothing_open();
        proof {
            grew_nothing(old(self)@, self@);
            let m = self@.materials;
            assert(m.subrange(0, m.len() as int) =~= m);
        }
        if !np.facts.laid_out || np.facts.invisible {
            return Ok(none);
        }
        let key = tree.key_of(np);
        match &key {
            Some(k) => {
                match lookup(&tree.planes, k.as_str()) {
                    Some(plane) => {
                        if plane.hidden {
                            return Ok(
                                Open {
                                    depth: 0,
                                    prev: none.prev,
                                    materials: none.materials,
                                    hidden: true,
                                },
                            );
                        }
                    },
                    None => {},
                }
            },
            None => {},
        }
        let label = tree.node_label(np);
        if !same_affine(&np.facts.transform, &self.cur) && step == RelativeStep::Singular {
            self.unsupported(label.as_str(), "degenerate parent transform (not invertible)");
            proof {
                grew_nothing(old(self)@, self@);
            }
            return Ok(none);
        }
        let any = tree.node_key(np);
        let glass = match glass_action(&tree.glass, &any, &self.materials) {
            Ok(g) => g,
            Err(e) => {
                return Err(e);
            },
        };
        let perspective = match perspective_of(tree, &key) {
            Ok(p) => p,
            Err(e) => {
                return Err(e);
            },
        };
        let ghost glass_view = glass@;
        let depth: usize = self.open_groups(
            tree,
            np,
            step,
            glass,
            perspective,
            label.as_str(),
            &any,
        );
        proof {
            opened_materials(old(self)@, *tree, *np, step, glass_view, perspective);
        }
        Ok(Open { depth, prev: none.prev, materials: none.materials, hidden: false })
    }
}

/// Opening a node only ever adds materials.
proof fn opened_materials(
    r: Recorded,
    tree: PaintTree,
    np: NodePaint,
    step: RelativeStep,
    glass: GlassStep,
    perspective: Option<Homography>,
)
    ensures
        r.materials.is_prefix_of(
            node_opened(r, tree, np, step, glass, perspective).materials,
        ),
{
    let r1 = owners_opened(r, np, step, glass);
    let r2 = r1.put_all(clip_commands(tree, tree.layout_key(np)));
    let r3 = backdrop_opened(r2, tree, np);
    let r4 = effects_opened(r3, tree, np);
    let r5 = layer_opened(r4, tree, np, perspective);
    assert(r3.materials == r1.materials);
    assert(r4.materials == r1.materials);
    assert(r5.materials == r1.materials);
    crate::shell::shell_is_local(r5, tree.label(np), np.facts.shell, tree.reserved, tree.limit);
    assert(r1.materials.subrange(0, r.materials.len() as int) =~= r.materials);
}

fn append_ops(ops: &mut Vec<FilterOp>, extra: &Vec<FilterOp>)
    ensures
        final(ops)@ == old(ops)@ + extra@,
{
    let mut i: usize = 0;
    while i < extra.len()
        invariant
            i <= extra@.len(),
            ops@ == old(ops)@ + extra@.take(i as int),
        decreases extra@.len() - i,
    {
        ops.push(extra[i]);
        i = i + 1;
        assert(ops@ =~= old(ops)@ + extra@.take(i as int));
    }
    assert(extra@.take(extra@.len() as int) =~= extra@);
}

fn extra_of(entries: &Vec<Entry<Vec<FilterOp>>>, key: &Option<String>) -> (r: Vec<FilterOp>)
    ensures
        r@ == extra_ops(entries@, option_text(*key)),
{
    let mut out: Vec<FilterOp> = Vec::new();
    match key {
        None => {},
        Some(k) => {
            match lookup(entries, k.as_str()) {
                None => {},
                Some(ops) => {
                    append_ops(&mut out, ops);
                    assert(out@ =~= ops@);
                },
            }
        },
    }
    out
}

fn mask_samples(masks: &Vec<Entry<MaskContent>>, key: &str) -> (r: bool)
    ensures
        r == is_mask_source(masks@, key@),
{
    let mut i: usize = 0;
    while i < masks.len()
        invariant
            i <= masks@.len(),
            forall|k: int| 0 <= k < i ==> !samples(#[trigger] masks@[k], key@),
        decreases masks@.len() - i,
    {
        match &masks[i].value.source {
            MaskSource::Subtree(s) => {
                if same_text(s.as_str(), key) {
                    assert(samples(masks@[i as int], key@));
                    return true;
                }
            },
            _ => {},
        }
        i = i + 1;
    }
    false
}

/// Opening a node, painting balanced content and closing it again leaves a balanced addition, the
/// cursor and the material stack as they were.
pub proof fn node_is_bracketed(r: Recorded, opened: Recorded, painted: Recorded, open: Open)
    requires
        grew(r, opened, open.depth as int),
        grew(opened, painted, 0),
        open.prev == r.cur,
        open.materials == r.materials.len(),
        r.materials.is_prefix_of(opened.materials),
        painted.materials == opened.materials,
    ensures
        grew(r, painted.closed(open), 0),
        painted.closed(open).cur == r.cur,
        painted.closed(open).materials == r.materials,
{
    grew_more(r, opened, painted, open.depth as int, 0);
    closing_balances(r, painted, open);
    assert(painted.materials.take(open.materials as int) =~= r.materials);
}

/// The six entries of an affine 3x3 matrix, or nothing where it is not finite, not affine, or
/// outside single precision. The host narrows the entries.
pub open spec fn affine_entries(m: Seq<Scalar>) -> Option<Affine> {
    let finite = forall|i: int| 0 <= i < 9 ==> (#[trigger] m[i]).finite();
    let affine = !num(AFFINE_EPSILON).lt_spec(m[6].abs_spec()) && !num(AFFINE_EPSILON).lt_spec(
        m[7].abs_spec(),
    ) && m[8].within(num(UNIT_LOW), num(UNIT_HIGH));
    let single = forall|i: int|
        0 <= i < 6 ==> (#[trigger] m[i]).within(num(SINGLE_MAX).neg_spec(), num(SINGLE_MAX));
    if finite && affine && single {
        Some(Affine { a: m[0], b: m[3], c: m[1], d: m[4], x: m[2], y: m[5] })
    } else {
        None
    }
}

/// Reads a row-major 3x3 matrix as an affine transform.
pub fn affine_from_glass_matrix(matrix: &[Scalar; 9]) -> (r: Option<Affine>)
    ensures
        r == affine_entries(matrix@),
{
    let high = Scalar::from_bits(SINGLE_MAX);
    let low = high.neg();
    let mut i: usize = 0;
    while i < 9
        invariant
            i <= 9,
            matrix@.len() == 9,
            high == num(SINGLE_MAX),
            low == num(SINGLE_MAX).neg_spec(),
            forall|k: int| 0 <= k < i ==> (#[trigger] matrix@[k]).finite(),
            forall|k: int| 0 <= k < i && k < 6 ==> (#[trigger] matrix@[k]).within(low, high),
        decreases 9 - i,
    {
        if !matrix[i].is_finite() || (i < 6 && !matrix[i].in_range(low, high)) {
            return None;
        }
        i = i + 1;
    }
    let epsilon = Scalar::from_bits(AFFINE_EPSILON);
    if epsilon.lt(matrix[6].abs()) || epsilon.lt(matrix[7].abs()) || !matrix[8].in_range(
        Scalar::from_bits(UNIT_LOW),
        Scalar::from_bits(UNIT_HIGH),
    ) {
        return None;
    }
    Some(
        Affine {
            a: matrix[0],
            b: matrix[3],
            c: matrix[1],
            d: matrix[4],
            x: matrix[2],
            y: matrix[5],
        },
    )
}

/// What opening the material group of a field gives.
pub open spec fn field_step(glass: GlassOwners, id: Seq<char>) -> Result<
    (Affine, usize),
    Seq<char>,
> {
    let at = field_at(glass.fields@, id, glass.fields@.len());
    let material = find(glass.materials@, id);
    if at >= glass.fields@.len() {
        Err(" has no layout sidecar"@)
    } else if glass.fields@[at as int].owner is None {
        Err(" has a non-affine or non-finite owner transform"@)
    } else if material is None {
        Err(" has no temporally prepared material program"@)
    } else if material->0.owner_kind != GlassOwnerKind::Field || material->0.owner_id@ != id {
        Err(" material program has the wrong owner identity"@)
    } else {
        Ok((glass.fields@[at as int].owner->0, material->0.program))
    }
}

pub open spec fn field_failure(glass: GlassOwners, id: Seq<char>, step: RelativeStep) -> Option<
    Failure,
> {
    match field_step(glass, id) {
        Err(after) => Some(Failure::Program(quoted("GlassField "@, id, after))),
        Ok(_) => if step == RelativeStep::Singular {
            Some(
                Failure::Program(
                    quoted("GlassField "@, id, " has a non-invertible parent transform"@),
                ),
            )
        } else {
            None
        },
    }
}

pub open spec fn field_begun(
    r: Recorded,
    id: Seq<char>,
    owner: Affine,
    program: usize,
    step: RelativeStep,
) -> Recorded {
    let r1 = match step {
        RelativeStep::Moved(t) => Recorded {
            cur: owner,
            ..r.put(Command::BeginTransform { transform: t })
        },
        _ => r,
    };
    Recorded {
        materials: r1.materials.push(id),
        ..r1.put(Command::BeginMotionGlass { program })
    }
}

/// The owner transform of a field, absent where there is none.
pub open spec fn owner_of(glass: GlassOwners, id: Seq<char>) -> Option<Affine> {
    let at = field_at(glass.fields@, id, glass.fields@.len());
    if at < glass.fields@.len() {
        glass.fields@[at as int].owner
    } else {
        None
    }
}

pub fn field_owner(glass: &GlassOwners, id: &str) -> (r: Option<Affine>)
    ensures
        r == owner_of(*glass, id@),
{
    let n: usize = glass.fields.len();
    let mut at: usize = 0;
    while at < n && !same_text(glass.fields[at].field_id.as_str(), id)
        invariant
            n == glass.fields@.len(),
            at <= n,
            field_at(glass.fields@, id@, at as nat) == at,
        decreases n - at,
    {
        at = at + 1;
    }
    if at == n {
        return None;
    }
    proof {
        field_at_settles(glass.fields@, id@, at as nat, n as nat);
    }
    glass.fields[at].owner
}

impl Emitter {
    /// Opens the one shared material of a field. `step` relates the field's owner transform to the
    /// cursor's. On failure nothing is recorded.
    pub fn begin_field(&mut self, glass: &GlassOwners, id: &str, step: RelativeStep) -> (r: Result<
        Open,
        EmitError,
    >)
        ensures
            match r {
                Err(e) => field_failure(*glass, id@, step) == Some(e@) && *final(self) == *old(self),
                Ok(open) => {
                    &&& field_failure(*glass, id@, step) is None
                    &&& field_step(*glass, id@) is Ok
                    &&& final(self)@ == field_begun(
                        old(self)@,
                        id@,
                        field_step(*glass, id@)->Ok_0.0,
                        field_step(*glass, id@)->Ok_0.1,
                        step,
                    )
                    &&& !open.hidden
                    &&& open.prev == old(self)@.cur
                    &&& open.materials == old(self)@.materials.len()
                    &&& grew(old(self)@, final(self)@, open.depth as int)
                    &&& old(self)@.materials.is_prefix_of(final(self)@.materials)
                },
            },
    {
        let n: usize = glass.fields.len();
        let mut at: usize = 0;
        while at < n && !same_text(glass.fields[at].field_id.as_str(), id)
            invariant
                n == glass.fields@.len(),
                at <= n,
                field_at(glass.fields@, id@, at as nat) == at,
            decreases n - at,
        {
            at = at + 1;
        }
        if at == n {
            return Err(EmitError::Program(quote("GlassField ", id, " has no layout sidecar")));
        }
        proof {
            field_at_settles(glass.fields@, id@, at as nat, n as nat);
        }
        let owner = match glass.fields[at].owner {
            None => {
                return Err(
                    EmitError::Program(
                        quote("GlassField ", id, " has a non-affine or non-finite owner transform"),
                    ),
                );
            },
            Some(t) => t,
        };
        let program: usize = match lookup(&glass.materials, id) {
            None => {
                return Err(
                    EmitError::Program(
                        quote("GlassField ", id, " has no temporally prepared material program"),
                    ),
                );
            },
            Some(m) => {
                if m.owner_kind != GlassOwnerKind::Field || !same_text(m.owner_id.as_str(), id) {
                    return Err(
                        EmitError::Program(
                            quote(
                                "GlassField ",
                                id,
                                " material program has the wrong owner identity",
                            ),
                        ),
                    );
                }
                m.program
            },
        };
        let open = self.nothing_open();
        let mut depth: usize = 0;
        proof {
            grew_nothing(old(self)@, self@);
        }
        match step {
            RelativeStep::Singular => {
                return Err(
                    EmitError::Program(
                        quote("GlassField ", id, " has a non-invertible parent transform"),
                    ),
                );
            },
            RelativeStep::Identity => {},
            RelativeStep::Moved(t) => {
                let c = Command::BeginTransform { transform: t };
                self.push(c);
                self.cur = owner;
                depth = 1;
                proof {
                    grew_one(old(self)@, self@, c);
                }
            },
        }
        let ghost moved = self@;
        let c = Command::BeginMotionGlass { program };
        self.push(c);
        let ghost before = self.materials@;
        self.materials.push(id.to_owned());
        proof {
            grew_one(moved, self@, c);
            grew_more(old(self)@, moved, self@, depth as int, 1);
            assert(texts(self.materials@) =~= texts(before).push(id@));
            assert(self@.materials.subrange(0, old(self)@.materials.len() as int)
                =~= old(self)@.materials);
        }
        Ok(Open { depth: depth + 1, prev: open.prev, materials: open.materials, hidden: false })
    }
}

} // verus!
