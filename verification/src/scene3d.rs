//! Requests for embedded 3D scenes, and their anchors on the screen.

use vstd::prelude::*;

use crate::artifact::{
    NodeKind, NumberValue, SceneArtifact, Scene3DCameraBinding, Scene3DFrameBinding,
    Scene3DMeshBinding,
};
use crate::bindings::{number_bound, number_value};
use crate::eval::{values_of, ProjectedAnchor};
use crate::expr::Expr;
use crate::layout_error::{laid, plain, LayoutError, LayoutFault};
use crate::order::{keys_of, sorted_positions, sorts};
use crate::recording::{Point, Rect};
use crate::scalar::Scalar;
use crate::table::{find, lookup, same_text, Entry};
use crate::text::{joined, said3};
use crate::value::{MotionValue, Value};

verus! {

/// A number binding with the words for its type error.
#[derive(Clone, Copy)]
pub struct Named {
    pub binding: NumberValue,
    pub op: &'static str,
}

/// The first `n` numbers of a list.
pub open spec fn numbers_bound(list: Seq<Named>, values: Seq<Value>, at: int, n: nat) -> Result<
    Seq<Scalar>,
    LayoutFault,
>
    decreases n,
{
    if n == 0 {
        Ok(Seq::empty())
    } else {
        match numbers_bound(list, values, at, (n - 1) as nat) {
            Err(f) => Err(f),
            Ok(rest) => match number_bound(list[n - 1].binding, values, at, list[n - 1].op@) {
                Err(f) => Err(f),
                Ok(x) => Ok(rest.push(x)),
            },
        }
    }
}

proof fn numbers_stuck(list: Seq<Named>, values: Seq<Value>, at: int, n: nat, m: nat)
    requires
        n <= m,
        numbers_bound(list, values, at, n) is Err,
    ensures
        numbers_bound(list, values, at, m) == numbers_bound(list, values, at, n),
    decreases m,
{
    if n < m {
        numbers_stuck(list, values, at, n, (m - 1) as nat);
    }
}

fn read_numbers(list: &Vec<Named>, values: &Vec<MotionValue>, at: usize) -> (r: Result<
    Vec<Scalar>,
    LayoutError,
>)
    ensures
        numbers_bound(list@, values_of(values@), at as int, list@.len()) == match r {
            Ok(v) => Ok(v@),
            Err(e) => Err(e@),
        },
        r matches Ok(v) ==> v@.len() == list@.len(),
{
    let mut out: Vec<Scalar> = Vec::new();
    let mut i: usize = 0;
    assert(out@ =~= Seq::empty());
    while i < list.len()
        invariant
            i <= list@.len(),
            out@.len() == i,
            numbers_bound(list@, values_of(values@), at as int, i as nat) == Ok::<
                Seq<Scalar>,
                LayoutFault,
            >(out@),
        decreases list@.len() - i,
    {
        match number_value(list[i].binding, values, at, list[i].op) {
            Err(e) => {
                proof {
                    numbers_stuck(
                        list@,
                        values_of(values@),
                        at as int,
                        (i + 1) as nat,
                        list@.len(),
                    );
                }
                return Err(e);
            },
            Ok(x) => out.push(x),
        }
        i = i + 1;
    }
    Ok(out)
}

/// The camera of a 3D scene. The host narrows the numbers.
#[derive(Clone, Copy, Debug, PartialEq, Eq, Structural)]
pub struct CameraFrameState {
    pub orbit_yaw_degrees: Scalar,
    pub orbit_pitch_degrees: Scalar,
    pub distance: Scalar,
    pub fov_y_degrees: Scalar,
}

/// A mesh of a 3D scene.
#[derive(Debug)]
pub struct MeshFrameState {
    pub key: String,
    pub translation_x: Scalar,
    pub translation_y: Scalar,
    pub translation_z: Scalar,
    pub rotation_x_degrees: Scalar,
    pub rotation_y_degrees: Scalar,
    pub rotation_z_degrees: Scalar,
    pub scale_x: Scalar,
    pub scale_y: Scalar,
    pub scale_z: Scalar,
}

/// The state of a 3D scene in a frame.
#[derive(Debug)]
pub struct Frame3DState {
    pub camera: CameraFrameState,
    pub meshes: Vec<MeshFrameState>,
    pub light_intensities: Vec<Scalar>,
}

/// The state of a 3D scene by its contents: a mesh is its key with its nine numbers.
pub struct Frame3D {
    pub camera: CameraFrameState,
    pub meshes: Seq<(Seq<char>, Seq<Scalar>)>,
    pub light_intensities: Seq<Scalar>,
}

pub open spec fn mesh_seen(m: MeshFrameState) -> (Seq<char>, Seq<Scalar>) {
    (
        m.key@,
        seq![
            m.translation_x,
            m.translation_y,
            m.translation_z,
            m.rotation_x_degrees,
            m.rotation_y_degrees,
            m.rotation_z_degrees,
            m.scale_x,
            m.scale_y,
            m.scale_z,
        ],
    )
}

impl View for Frame3DState {
    type V = Frame3D;

    open spec fn view(&self) -> Frame3D {
        Frame3D {
            camera: self.camera,
            meshes: self.meshes@.map_values(|m: MeshFrameState| mesh_seen(m)),
            light_intensities: self.light_intensities@,
        }
    }
}

pub open spec fn camera_bound(c: Scene3DCameraBinding, values: Seq<Value>, at: int) -> Result<
    CameraFrameState,
    LayoutFault,
> {
    match number_bound(c.orbit_yaw_degrees, values, at, "scene3d camera orbit yaw"@) {
        Err(f) => Err(f),
        Ok(orbit_yaw_degrees) => match number_bound(
            c.orbit_pitch_degrees,
            values,
            at,
            "scene3d camera orbit pitch"@,
        ) {
            Err(f) => Err(f),
            Ok(orbit_pitch_degrees) => match number_bound(
                c.distance,
                values,
                at,
                "scene3d camera distance"@,
            ) {
                Err(f) => Err(f),
                Ok(distance) => match number_bound(
                    c.fov_y_degrees,
                    values,
                    at,
                    "scene3d camera fov"@,
                ) {
                    Err(f) => Err(f),
                    Ok(fov_y_degrees) => Ok(
                        CameraFrameState {
                            orbit_yaw_degrees,
                            orbit_pitch_degrees,
                            distance,
                            fov_y_degrees,
                        },
                    ),
                },
            },
        },
    }
}

fn read_camera(c: &Scene3DCameraBinding, values: &Vec<MotionValue>, at: usize) -> (r: Result<
    CameraFrameState,
    LayoutError,
>)
    ensures
        plain(r) == camera_bound(*c, values_of(values@), at as int),
{
    let orbit_yaw_degrees = match number_value(
        c.orbit_yaw_degrees,
        values,
        at,
        "scene3d camera orbit yaw",
    ) {
        Ok(v) => v,
        Err(e) => {
            return Err(e);
        },
    };
    let orbit_pitch_degrees = match number_value(
        c.orbit_pitch_degrees,
        values,
        at,
        "scene3d camera orbit pitch",
    ) {
        Ok(v) => v,
        Err(e) => {
            return Err(e);
        },
    };
    let distance = match number_value(c.distance, values, at, "scene3d camera distance") {
        Ok(v) => v,
        Err(e) => {
            return Err(e);
        },
    };
    match number_value(c.fov_y_degrees, values, at, "scene3d camera fov") {
        Ok(fov_y_degrees) => Ok(
            CameraFrameState { orbit_yaw_degrees, orbit_pitch_degrees, distance, fov_y_degrees },
        ),
        Err(e) => Err(e),
    }
}

/// The numbers of a mesh, in the order in which they are read.
pub open spec fn mesh_names(m: Scene3DMeshBinding) -> Seq<Named> {
    seq![
        Named { binding: m.translation_x, op: "scene3d mesh translation x" },
        Named { binding: m.translation_y, op: "scene3d mesh translation y" },
        Named { binding: m.translation_z, op: "scene3d mesh translation z" },
        Named { binding: m.rotation_x_degrees, op: "scene3d mesh rotation x" },
        Named { binding: m.rotation_y_degrees, op: "scene3d mesh rotation y" },
        Named { binding: m.rotation_z_degrees, op: "scene3d mesh rotation z" },
        Named { binding: m.scale_x, op: "scene3d mesh scale x" },
        Named { binding: m.scale_y, op: "scene3d mesh scale y" },
        Named { binding: m.scale_z, op: "scene3d mesh scale z" },
    ]
}

pub open spec fn mesh_bound(m: Scene3DMeshBinding, values: Seq<Value>, at: int) -> Result<
    (Seq<char>, Seq<Scalar>),
    LayoutFault,
> {
    match numbers_bound(mesh_names(m), values, at, 9) {
        Ok(v) => Ok((m.key@, v)),
        Err(f) => Err(f),
    }
}

fn read_mesh(m: &Scene3DMeshBinding, values: &Vec<MotionValue>, at: usize) -> (r: Result<
    MeshFrameState,
    LayoutError,
>)
    ensures
        mesh_bound(*m, values_of(values@), at as int) == match r {
            Ok(v) => Ok(mesh_seen(v)),
            Err(e) => Err(e@),
        },
{
    let mut list: Vec<Named> = Vec::new();
    list.push(Named { binding: m.translation_x, op: "scene3d mesh translation x" });
    list.push(Named { binding: m.translation_y, op: "scene3d mesh translation y" });
    list.push(Named { binding: m.translation_z, op: "scene3d mesh translation z" });
    list.push(Named { binding: m.rotation_x_degrees, op: "scene3d mesh rotation x" });
    list.push(Named { binding: m.rotation_y_degrees, op: "scene3d mesh rotation y" });
    list.push(Named { binding: m.rotation_z_degrees, op: "scene3d mesh rotation z" });
    list.push(Named { binding: m.scale_x, op: "scene3d mesh scale x" });
    list.push(Named { binding: m.scale_y, op: "scene3d mesh scale y" });
    list.push(Named { binding: m.scale_z, op: "scene3d mesh scale z" });
    assert(list@ =~= mesh_names(*m));
    match read_numbers(&list, values, at) {
        Err(e) => Err(e),
        Ok(v) => {
            let r = MeshFrameState {
                key: m.key.clone(),
                translation_x: v[0],
                translation_y: v[1],
                translation_z: v[2],
                rotation_x_degrees: v[3],
                rotation_y_degrees: v[4],
                rotation_z_degrees: v[5],
                scale_x: v[6],
                scale_y: v[7],
                scale_z: v[8],
            };
            assert(mesh_seen(r).1 =~= v@);
            Ok(r)
        },
    }
}

/// The first `n` meshes.
pub open spec fn meshes_bound(
    list: Seq<Scene3DMeshBinding>,
    values: Seq<Value>,
    at: int,
    n: nat,
) -> Result<Seq<(Seq<char>, Seq<Scalar>)>, LayoutFault>
    decreases n,
{
    if n == 0 {
        Ok(Seq::empty())
    } else {
        match meshes_bound(list, values, at, (n - 1) as nat) {
            Err(f) => Err(f),
            Ok(rest) => match mesh_bound(list[n - 1], values, at) {
                Err(f) => Err(f),
                Ok(m) => Ok(rest.push(m)),
            },
        }
    }
}

proof fn meshes_stuck(list: Seq<Scene3DMeshBinding>, values: Seq<Value>, at: int, n: nat, m: nat)
    requires
        n <= m,
        meshes_bound(list, values, at, n) is Err,
    ensures
        meshes_bound(list, values, at, m) == meshes_bound(list, values, at, n),
    decreases m,
{
    if n < m {
        meshes_stuck(list, values, at, n, (m - 1) as nat);
    }
}

pub open spec fn meshes_seen(v: Seq<MeshFrameState>) -> Seq<(Seq<char>, Seq<Scalar>)> {
    v.map_values(|m: MeshFrameState| mesh_seen(m))
}

fn read_meshes(list: &Vec<Scene3DMeshBinding>, values: &Vec<MotionValue>, at: usize) -> (r: Result<
    Vec<MeshFrameState>,
    LayoutError,
>)
    ensures
        meshes_bound(list@, values_of(values@), at as int, list@.len()) == match r {
            Ok(v) => Ok(meshes_seen(v@)),
            Err(e) => Err(e@),
        },
{
    let mut out: Vec<MeshFrameState> = Vec::new();
    let mut i: usize = 0;
    assert(meshes_seen(out@) =~= Seq::empty());
    while i < list.len()
        invariant
            i <= list@.len(),
            meshes_bound(list@, values_of(values@), at as int, i as nat) == Ok::<
                Seq<(Seq<char>, Seq<Scalar>)>,
                LayoutFault,
            >(meshes_seen(out@)),
        decreases list@.len() - i,
    {
        let ghost start = out@;
        match read_mesh(&list[i], values, at) {
            Err(e) => {
                proof {
                    meshes_stuck(
                        list@,
                        values_of(values@),
                        at as int,
                        (i + 1) as nat,
                        list@.len(),
                    );
                }
                return Err(e);
            },
            Ok(m) => {
                out.push(m);
                assert(meshes_seen(out@) =~= meshes_seen(start).push(mesh_seen(m)));
            },
        }
        i = i + 1;
    }
    Ok(out)
}

pub open spec fn light_names(lights: Seq<NumberValue>) -> Seq<Named> {
    lights.map_values(|b: NumberValue| Named { binding: b, op: "scene3d light intensity" })
}

/// The state of a 3D scene: camera, then meshes, then lights.
pub open spec fn frame_bound(frame: Scene3DFrameBinding, values: Seq<Value>, at: int) -> Result<
    Frame3D,
    LayoutFault,
> {
    match camera_bound(frame.camera, values, at) {
        Err(f) => Err(f),
        Ok(camera) => match meshes_bound(frame.meshes@, values, at, frame.meshes@.len()) {
            Err(f) => Err(f),
            Ok(meshes) => match numbers_bound(
                light_names(frame.light_intensities@),
                values,
                at,
                frame.light_intensities@.len(),
            ) {
                Err(f) => Err(f),
                Ok(light_intensities) => Ok(Frame3D { camera, meshes, light_intensities }),
            },
        },
    }
}

/// Reads the state of a 3D scene.
pub fn frame_state(frame: &Scene3DFrameBinding, values: &Vec<MotionValue>, at: usize) -> (r: Result<
    Frame3DState,
    LayoutError,
>)
    ensures
        laid(r) == frame_bound(*frame, values_of(values@), at as int),
{
    let camera = match read_camera(&frame.camera, values, at) {
        Ok(v) => v,
        Err(e) => {
            return Err(e);
        },
    };
    let meshes = match read_meshes(&frame.meshes, values, at) {
        Ok(v) => v,
        Err(e) => {
            return Err(e);
        },
    };
    let mut list: Vec<Named> = Vec::new();
    let mut i: usize = 0;
    while i < frame.light_intensities.len()
        invariant
            i <= frame.light_intensities@.len(),
            list@ == light_names(frame.light_intensities@.take(i as int)),
        decreases frame.light_intensities@.len() - i,
    {
        list.push(Named { binding: frame.light_intensities[i], op: "scene3d light intensity" });
        i = i + 1;
        assert(list@ =~= light_names(frame.light_intensities@.take(i as int)));
    }
    assert(frame.light_intensities@.take(i as int) =~= frame.light_intensities@);
    match read_numbers(&list, values, at) {
        Ok(light_intensities) => Ok(Frame3DState { camera, meshes, light_intensities }),
        Err(e) => Err(e),
    }
}

/// What a renderer of 3D scenes is asked for.
#[derive(Debug)]
pub struct SceneRequest {
    pub provider_key: String,
    pub frame: Frame3DState,
}

/// Whether `r` is the request of a node; nothing where it is no 3D scene. `check` is the host's
/// validation of a state for the scene of a node: its complaint, where it has one.
pub open spec fn request_given<C: Fn(usize, &Frame3DState) -> Option<String>>(
    check: C,
    a: SceneArtifact,
    values: Seq<Value>,
    at: int,
    r: Result<Option<SceneRequest>, LayoutFault>,
) -> bool {
    match a.nodes@[at].kind {
        NodeKind::Scene3D { frame } => match frame_bound(frame, values, at) {
            Err(f) => r == Err::<Option<SceneRequest>, LayoutFault>(f),
            Ok(state) => match r {
                Ok(Some(request)) => request.frame@ == state && request.provider_key@
                    == "scene3d://"@ + a.nodes@[at].key@ && call_ensures(
                    check,
                    (at as usize, &request.frame),
                    None,
                ),
                Ok(None) => false,
                Err(f) => complained(check, a.nodes@[at].key@, at as usize, state, f),
            },
        },
        _ => r == Ok::<Option<SceneRequest>, LayoutFault>(None),
    }
}

/// Whether a failure is the host's complaint about a state.
pub open spec fn complained<C: Fn(usize, &Frame3DState) -> Option<String>>(
    check: C,
    key: Seq<char>,
    at: usize,
    state: Frame3D,
    f: LayoutFault,
) -> bool {
    exists|frame: Frame3DState, reason: String|
        frame@ == state && #[trigger] call_ensures(check, (at, &frame), Some(reason)) && f
            == LayoutFault::BadScene3D(key, reason@)
}

fn read_request<C: Fn(usize, &Frame3DState) -> Option<String>>(
    check: &C,
    artifact: &SceneArtifact,
    values: &Vec<MotionValue>,
    at: usize,
) -> (r: Result<Option<SceneRequest>, LayoutError>)
    requires
        at < artifact.nodes@.len(),
        forall|at: usize, f: Frame3DState| call_requires(*check, (at, &f)),
    ensures
        request_given(*check, *artifact, values_of(values@), at as int, plain(r)),
{
    match &artifact.nodes[at].kind {
        NodeKind::Scene3D { frame } => match frame_state(frame, values, at) {
            Err(e) => Err(e),
            Ok(state) => match check(at, &state) {
                None => Ok(
                    Some(
                        SceneRequest {
                            provider_key: joined(
                                "scene3d://".to_owned(),
                                artifact.nodes[at].key.as_str(),
                            ),
                            frame: state,
                        },
                    ),
                ),
                Some(reason) => {
                    let ghost f = LayoutFault::BadScene3D(
                        artifact.nodes@[at as int].key@,
                        reason@,
                    );
                    assert(complained(
                        *check,
                        artifact.nodes@[at as int].key@,
                        at,
                        state@,
                        f,
                    ));
                    Err(LayoutError::BadScene3D { node: artifact.nodes[at].key.clone(), reason })
                },
            },
        },
        _ => Ok(None),
    }
}

/// Whether the first nodes give these requests.
pub open spec fn requests_given<C: Fn(usize, &Frame3DState) -> Option<String>>(
    check: C,
    a: SceneArtifact,
    values: Seq<Value>,
    list: Seq<Option<SceneRequest>>,
) -> bool {
    list.len() <= a.nodes@.len() && forall|at: int|
        0 <= at < list.len() ==> request_given(check, a, values, at, Ok(#[trigger] list[at]))
}

/// The requests of the first `n` nodes, by node key.
pub open spec fn request_table(a: SceneArtifact, list: Seq<Option<SceneRequest>>, n: nat) -> Seq<
    (Seq<char>, SceneRequest),
>
    decreases n,
{
    if n == 0 {
        Seq::empty()
    } else {
        let rest = request_table(a, list, (n - 1) as nat);
        match list[n - 1] {
            Some(request) => rest.push((a.nodes@[n - 1].key@, request)),
            None => rest,
        }
    }
}

proof fn request_table_prefix(
    a: SceneArtifact,
    list: Seq<Option<SceneRequest>>,
    next: Option<SceneRequest>,
    n: nat,
)
    requires
        n <= list.len(),
    ensures
        request_table(a, list.push(next), n) == request_table(a, list, n),
    decreases n,
{
    if n > 0 {
        request_table_prefix(a, list, next, (n - 1) as nat);
    }
}

pub open spec fn requests_seen(v: Seq<Entry<SceneRequest>>) -> Seq<(Seq<char>, SceneRequest)> {
    v.map_values(|e: Entry<SceneRequest>| (e.key@, e.value))
}

/// Whether `r` is the requests of a frame: those of all nodes, or the first failure.
pub open spec fn requests_told<C: Fn(usize, &Frame3DState) -> Option<String>>(
    check: C,
    a: SceneArtifact,
    values: Seq<Value>,
    r: Result<Vec<Entry<SceneRequest>>, LayoutError>,
) -> bool {
    exists|list: Seq<Option<SceneRequest>>| #[trigger]
        requests_given(check, a, values, list) && match r {
            Ok(table) => list.len() == a.nodes@.len() && requests_seen(table@) == request_table(
                a,
                list,
                list.len(),
            ),
            Err(e) => list.len() < a.nodes@.len() && request_given(
                check,
                a,
                values,
                list.len() as int,
                Err(e@),
            ),
        }
}

/// The requests for the 3D scenes of a frame.
pub fn resolve_scene3d_requests<C: Fn(usize, &Frame3DState) -> Option<String>>(
    check: &C,
    artifact: &SceneArtifact,
    values: &Vec<MotionValue>,
) -> (r: Result<Vec<Entry<SceneRequest>>, LayoutError>)
    requires
        forall|at: usize, f: Frame3DState| call_requires(*check, (at, &f)),
    ensures
        requests_told(*check, *artifact, values_of(values@), r),
{
    let ghost mut list: Seq<Option<SceneRequest>> = Seq::empty();
    let mut out: Vec<Entry<SceneRequest>> = Vec::new();
    let mut at: usize = 0;
    assert(requests_seen(out@) =~= request_table(*artifact, list, 0));
    while at < artifact.nodes.len()
        invariant
            forall|at: usize, f: Frame3DState| call_requires(*check, (at, &f)),
            at <= artifact.nodes@.len(),
            list.len() == at,
            requests_given(*check, *artifact, values_of(values@), list),
            requests_seen(out@) == request_table(*artifact, list, at as nat),
        decreases artifact.nodes@.len() - at,
    {
        let ghost start = out@;
        match read_request(check, artifact, values, at) {
            Err(e) => {
                assert(requests_given(*check, *artifact, values_of(values@), list));
                return Err(e);
            },
            Ok(next) => {
                proof {
                    request_table_prefix(*artifact, list, next, at as nat);
                    let now = list.push(next);
                    assert forall|i: int| 0 <= i < now.len() implies request_given(
                        *check,
                        *artifact,
                        values_of(values@),
                        i,
                        Ok(#[trigger] now[i]),
                    ) by {
                        if i < at {
                            assert(now[i] == list[i]);
                        }
                    }
                    list = now;
                }
                if let Some(request) = next {
                    out.push(Entry { key: artifact.nodes[at].key.clone(), value: request });
                    assert(requests_seen(out@) =~= requests_seen(start).push(
                        (artifact.nodes@[at as int].key@, request),
                    ));
                }
            },
        }
        at = at + 1;
    }
    assert(requests_given(*check, *artifact, values_of(values@), list));
    Ok(out)
}

/// An anchor of a 3D scene on the screen.
#[derive(Debug)]
pub struct AnchorProjection {
    /// The address of the anchor: its parent and its key.
    pub address: String,
    /// Whether it lies between the near and the far plane.
    pub in_front: bool,
    /// Its place in the viewport.
    pub point: Point,
}

/// A scene to project into its content box.
#[derive(Debug)]
pub struct AnchorTask {
    pub scene_key: String,
    pub content: Rect,
}

/// The anchors of a scene that the first `n` expressions name.
pub open spec fn anchors_of(exprs: Seq<Expr>, scene: Seq<char>, n: nat) -> Seq<Seq<char>>
    decreases n,
{
    if n == 0 {
        Seq::empty()
    } else {
        let rest = anchors_of(exprs, scene, (n - 1) as nat);
        match exprs[n - 1] {
            Expr::Project3D { scene_key, anchor_key } => if scene_key@ == scene {
                rest.push(anchor_key@)
            } else {
                rest
            },
            _ => rest,
        }
    }
}

/// The scenes that the first `n` expressions name, each once.
pub open spec fn scenes_of(exprs: Seq<Expr>, n: nat) -> Seq<Seq<char>>
    decreases n,
{
    if n == 0 {
        Seq::empty()
    } else {
        let rest = scenes_of(exprs, (n - 1) as nat);
        match exprs[n - 1] {
            Expr::Project3D { scene_key, .. } => if rest.contains(scene_key@) {
                rest
            } else {
                rest.push(scene_key@)
            },
            _ => rest,
        }
    }
}

/// The first projection of an anchor from `i` on.
pub open spec fn anchor_from(list: Seq<AnchorProjection>, anchor: Seq<char>, i: int) -> Option<
    (bool, Point),
>
    decreases list.len() - i,
{
    if i < 0 || i >= list.len() {
        None
    } else if list[i].address@ == anchor {
        Some((list[i].in_front, list[i].point))
    } else {
        anchor_from(list, anchor, i + 1)
    }
}

/// The place of an anchor: it needs a projection in front of the camera.
pub open spec fn anchor_at(list: Seq<AnchorProjection>, scene: Seq<char>, anchor: Seq<char>) -> Result<
    Point,
    LayoutFault,
> {
    match anchor_from(list, anchor, 0) {
        None => Err(
            LayoutFault::BadScene3D(
                scene,
                "project3d anchor `"@ + anchor + "` has no projection"@,
            ),
        ),
        Some((in_front, point)) => if in_front {
            Ok(point)
        } else {
            Err(
                LayoutFault::BadScene3D(
                    scene,
                    "project3d anchor `"@ + anchor
                        + "` is behind the near plane or beyond far"@,
                ),
            )
        },
    }
}

fn pick_anchor(list: &Vec<AnchorProjection>, scene: &str, anchor: &str) -> (r: Result<
    Point,
    LayoutError,
>)
    ensures
        plain(r) == anchor_at(list@, scene@, anchor@),
{
    let mut i: usize = 0;
    while i < list.len()
        invariant
            i <= list@.len(),
            anchor_from(list@, anchor@, 0) == anchor_from(list@, anchor@, i as int),
        decreases list@.len() - i,
    {
        if same_text(list[i].address.as_str(), anchor) {
            return if list[i].in_front {
                Ok(list[i].point)
            } else {
                Err(
                    LayoutError::BadScene3D {
                        node: scene.to_owned(),
                        reason: said3(
                            "project3d anchor `",
                            anchor,
                            "` is behind the near plane or beyond far",
                        ),
                    },
                )
            };
        }
        i = i + 1;
    }
    Err(
        LayoutError::BadScene3D {
            node: scene.to_owned(),
            reason: said3("project3d anchor `", anchor, "` has no projection"),
        },
    )
}

/// The places of the first `n` anchors of a scene.
pub open spec fn picked(
    list: Seq<AnchorProjection>,
    scene: Seq<char>,
    anchors: Seq<Seq<char>>,
    n: nat,
) -> Result<Seq<(Seq<char>, Seq<char>, Point)>, LayoutFault>
    decreases n,
{
    if n == 0 {
        Ok(Seq::empty())
    } else {
        match picked(list, scene, anchors, (n - 1) as nat) {
            Err(f) => Err(f),
            Ok(rest) => match anchor_at(list, scene, anchors[n - 1]) {
                Err(f) => Err(f),
                Ok(p) => Ok(rest.push((scene, anchors[n - 1], p))),
            },
        }
    }
}

proof fn picked_stuck(
    list: Seq<AnchorProjection>,
    scene: Seq<char>,
    anchors: Seq<Seq<char>>,
    n: nat,
    m: nat,
)
    requires
        n <= m,
        picked(list, scene, anchors, n) is Err,
    ensures
        picked(list, scene, anchors, m) == picked(list, scene, anchors, n),
    decreases m,
{
    if n < m {
        picked_stuck(list, scene, anchors, n, (m - 1) as nat);
    }
}

pub open spec fn anchors_seen(v: Seq<ProjectedAnchor>) -> Seq<(Seq<char>, Seq<char>, Point)> {
    v.map_values(|p: ProjectedAnchor| (p.scene_key@, p.anchor_key@, p.point))
}

/// The places of a scene's anchors, from what the host projected.
pub open spec fn scene_placed(
    out: Result<Vec<AnchorProjection>, String>,
    scene: Seq<char>,
    anchors: Seq<Seq<char>>,
) -> Result<Seq<(Seq<char>, Seq<char>, Point)>, LayoutFault> {
    match out {
        Err(reason) => Err(
            LayoutFault::BadScene3D(scene, "anchor projection failed: "@ + reason@),
        ),
        Ok(list) => picked(list@, scene, anchors, anchors.len()),
    }
}

/// The places of a scene's anchors, from what the host projected.
pub fn place_anchors(
    out: Result<Vec<AnchorProjection>, String>,
    scene: &str,
    anchors: &Vec<String>,
) -> (r: Result<Vec<ProjectedAnchor>, LayoutError>)
    ensures
        scene_placed(out, scene@, keys_of(anchors@)) == match r {
            Ok(v) => Ok(anchors_seen(v@)),
            Err(e) => Err(e@),
        },
{
    let ghost told = keys_of(anchors@);
    match out {
        Err(reason) => Err(
            LayoutError::BadScene3D {
                node: scene.to_owned(),
                reason: joined("anchor projection failed: ".to_owned(), reason.as_str()),
            },
        ),
        Ok(list) => {
            let mut points: Vec<ProjectedAnchor> = Vec::new();
            let mut i: usize = 0;
            assert(anchors_seen(points@) =~= Seq::empty());
            while i < anchors.len()
                invariant
                    i <= anchors@.len(),
                    out == Ok::<Vec<AnchorProjection>, String>(list),
                    told == keys_of(anchors@),
                    picked(list@, scene@, told, i as nat) == Ok::<
                        Seq<(Seq<char>, Seq<char>, Point)>,
                        LayoutFault,
                    >(anchors_seen(points@)),
                decreases anchors@.len() - i,
            {
                let ghost start = points@;
                assert(told[i as int] == anchors@[i as int]@);
                match pick_anchor(&list, scene, anchors[i].as_str()) {
                    Err(e) => {
                        proof {
                            picked_stuck(list@, scene@, told, (i + 1) as nat, told.len());
                        }
                        return Err(e);
                    },
                    Ok(point) => {
                        points.push(
                            ProjectedAnchor {
                                scene_key: scene.to_owned(),
                                anchor_key: anchors[i].clone(),
                                point,
                            },
                        );
                        assert(anchors_seen(points@) =~= anchors_seen(start).push(
                            (scene@, told[i as int], point),
                        ));
                    },
                }
                i = i + 1;
            }
            Ok(points)
        },
    }
}

/// Whether `r` is the places of a scene's anchors: the scene needs a content box, and the host
/// projects it there.
pub open spec fn scene_given<J: Fn(&AnchorTask) -> Result<Vec<AnchorProjection>, String>>(
    project: J,
    boxes: Seq<Entry<Rect>>,
    exprs: Seq<Expr>,
    scene: Seq<char>,
    r: Result<Seq<(Seq<char>, Seq<char>, Point)>, LayoutFault>,
) -> bool {
    match find(boxes, scene) {
        None => r == Err::<Seq<(Seq<char>, Seq<char>, Point)>, LayoutFault>(
            LayoutFault::BadScene3D(scene, "project3d target has no content box"@),
        ),
        Some(content) => exists|task: AnchorTask, out: Result<Vec<AnchorProjection>, String>|
            task.scene_key@ == scene && task.content == content && #[trigger] call_ensures(
                project,
                (&task,),
                out,
            ) && r == scene_placed(out, scene, anchors_of(exprs, scene, exprs.len())),
    }
}

fn list_anchors(exprs: &Vec<Expr>, scene: &str) -> (r: Vec<String>)
    ensures
        keys_of(r@) == anchors_of(exprs@, scene@, exprs@.len()),
{
    let mut out: Vec<String> = Vec::new();
    let mut i: usize = 0;
    assert(keys_of(out@) =~= Seq::empty());
    while i < exprs.len()
        invariant
            i <= exprs@.len(),
            keys_of(out@) == anchors_of(exprs@, scene@, i as nat),
        decreases exprs@.len() - i,
    {
        let ghost start = out@;
        if let Expr::Project3D { scene_key, anchor_key } = &exprs[i] {
            if same_text(scene_key.as_str(), scene) {
                out.push(anchor_key.clone());
                assert(keys_of(out@) =~= keys_of(start).push(anchor_key@));
            }
        }
        i = i + 1;
    }
    out
}

fn is_known(list: &Vec<String>, key: &str) -> (r: bool)
    ensures
        r == keys_of(list@).contains(key@),
{
    let mut i: usize = 0;
    while i < list.len()
        invariant
            i <= list@.len(),
            forall|k: int| 0 <= k < i ==> #[trigger] keys_of(list@)[k] != key@,
        decreases list@.len() - i,
    {
        assert(keys_of(list@)[i as int] == list@[i as int]@);
        if same_text(list[i].as_str(), key) {
            return true;
        }
        i = i + 1;
    }
    false
}

fn list_scenes(exprs: &Vec<Expr>) -> (r: Vec<String>)
    ensures
        keys_of(r@) == scenes_of(exprs@, exprs@.len()),
{
    let mut out: Vec<String> = Vec::new();
    let mut i: usize = 0;
    assert(keys_of(out@) =~= Seq::empty());
    while i < exprs.len()
        invariant
            i <= exprs@.len(),
            keys_of(out@) == scenes_of(exprs@, i as nat),
        decreases exprs@.len() - i,
    {
        let ghost start = out@;
        if let Expr::Project3D { scene_key, .. } = &exprs[i] {
            if !is_known(&out, scene_key.as_str()) {
                out.push(scene_key.clone());
                assert(keys_of(out@) =~= keys_of(start).push(scene_key@));
            }
        }
        i = i + 1;
    }
    out
}

/// Whether these are the places of the anchors of the first scenes.
pub open spec fn scenes_given<J: Fn(&AnchorTask) -> Result<Vec<AnchorProjection>, String>>(
    project: J,
    boxes: Seq<Entry<Rect>>,
    exprs: Seq<Expr>,
    order: Seq<usize>,
    lists: Seq<Seq<(Seq<char>, Seq<char>, Point)>>,
) -> bool {
    let scenes = scenes_of(exprs, exprs.len());
    sorts(scenes, order, scenes.len()) && lists.len() <= order.len() && forall|i: int|
        0 <= i < lists.len() ==> scene_given(
            project,
            boxes,
            exprs,
            scenes[order[i] as int],
            Ok(#[trigger] lists[i]),
        )
}

/// Whether `r` is the places of all anchors, scene by scene in the order of their keys, or the first
/// failure.
pub open spec fn anchors_told<J: Fn(&AnchorTask) -> Result<Vec<AnchorProjection>, String>>(
    project: J,
    exprs: Seq<Expr>,
    boxes: Seq<Entry<Rect>>,
    r: Result<Vec<ProjectedAnchor>, LayoutError>,
) -> bool {
    exists|order: Seq<usize>, lists: Seq<Seq<(Seq<char>, Seq<char>, Point)>>| #[trigger]
        scenes_given(project, boxes, exprs, order, lists) && match r {
            Ok(points) => lists.len() == order.len() && anchors_seen(points@) == lists.flatten(),
            Err(e) => lists.len() < order.len() && scene_given(
                project,
                boxes,
                exprs,
                scenes_of(exprs, exprs.len())[order[lists.len() as int] as int],
                Err(e@),
            ),
        }
}

/// The places of the anchors that the expressions name, scene by scene in the order of their keys.
pub fn project_scene3d_anchors<J: Fn(&AnchorTask) -> Result<Vec<AnchorProjection>, String>>(
    project: &J,
    exprs: &Vec<Expr>,
    boxes: &Vec<Entry<Rect>>,
) -> (r: Result<Vec<ProjectedAnchor>, LayoutError>)
    requires
        forall|t: AnchorTask| call_requires(*project, (&t,)),
    ensures
        anchors_told(*project, exprs@, boxes@, r),
{
    let scenes = list_scenes(exprs);
    let order = sorted_positions(&scenes);
    let ghost names = scenes_of(exprs@, exprs@.len());
    assert(keys_of(scenes@).len() == scenes@.len());
    let ghost mut lists: Seq<Seq<(Seq<char>, Seq<char>, Point)>> = Seq::empty();
    let mut out: Vec<ProjectedAnchor> = Vec::new();
    let mut i: usize = 0;
    assert(anchors_seen(out@) =~= lists.flatten());
    while i < order.len()
        invariant
            forall|t: AnchorTask| call_requires(*project, (&t,)),
            i <= order@.len(),
            names == scenes_of(exprs@, exprs@.len()),
            keys_of(scenes@) == names,
            names.len() == scenes@.len(),
            order@.len() == names.len(),
            forall|j: int| 0 <= j < names.len() ==> (#[trigger] order@[j]) < names.len(),
            lists.len() == i,
            scenes_given(*project, boxes@, exprs@, order@, lists),
            anchors_seen(out@) == lists.flatten(),
        decreases order@.len() - i,
    {
        let scene = &scenes[order[i]];
        assert(names[order@[i as int] as int] == scene@);
        let content = match lookup(boxes, scene.as_str()) {
            Some(b) => *b,
            None => {
                assert(scenes_given(*project, boxes@, exprs@, order@, lists));
                return Err(
                    LayoutError::BadScene3D {
                        node: scene.clone(),
                        reason: "project3d target has no content box".to_owned(),
                    },
                );
            },
        };
        let anchors = list_anchors(exprs, scene.as_str());
        let task = AnchorTask { scene_key: scene.clone(), content };
        let projected = project(&task);
        let ghost told = projected;
        let placed = place_anchors(projected, scene.as_str(), &anchors);
        let ghost seen = scene_placed(told, scene@, anchors_of(exprs@, scene@, exprs@.len()));
        assert(call_ensures(*project, (&task,), told));
        assert(scene_given(*project, boxes@, exprs@, scene@, seen));
        match placed {
            Err(e) => {
                assert(scenes_given(*project, boxes@, exprs@, order@, lists));
                return Err(e);
            },
            Ok(mut points) => {
                let ghost before = anchors_seen(out@);
                let ghost more = anchors_seen(points@);
                let ghost first = out@;
                let ghost second = points@;
                out.append(&mut points);
                proof {
                    assert(anchors_seen(out@) =~= before + more);
                    let now = lists.push(more);
                    lists.lemma_flatten_push(more);
                    assert forall|k: int| 0 <= k < now.len() implies scene_given(
                        *project,
                        boxes@,
                        exprs@,
                        names[order@[k] as int],
                        Ok(#[trigger] now[k]),
                    ) by {
                        if k < i {
                            assert(now[k] == lists[k]);
                        }
                    }
                    lists = now;
                }
            },
        }
        i = i + 1;
    }
    assert(scenes_given(*project, boxes@, exprs@, order@, lists));
    Ok(out)
}

} // verus!
