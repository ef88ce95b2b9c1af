//! 3D scenes as generated textures: the raster requests that painting refers to, and their identities.

use vstd::prelude::*;
use vstd::string::*;

use crate::digest::{hex, hex_digit, sha256_of, ContentDigest};
use crate::table::{ascending, lookup, mapped, store, Entry};
use crate::text::joined;

verus! {

/// The identity of a generated 3D texture: what it shows, and the topology it was built from.
#[derive(Clone, Copy, Debug, PartialEq, Eq)]
pub struct Scene3dKey {
    pub content: ContentDigest,
    pub topology: ContentDigest,
}

/// A frame-local request for a 3D scene: provider, and canonical forms of scene and frame state.
#[derive(Debug)]
pub struct Scene3DRequest {
    pub provider_key: String,
    /// Canonical bytes of the static scene.
    pub scene: Vec<u8>,
    /// Canonical bytes of the evaluated frame state.
    pub frame: Vec<u8>,
}

/// A complete raster request: static topology and evaluated state are explicit, so no clock and no
/// earlier frame is consulted to fulfil it.
#[derive(Debug)]
pub struct Scene3DFrameRequest {
    pub provider_key: String,
    pub width: u32,
    pub height: u32,
    /// Scene control name to immutable asset digest, in ascending order of names.
    pub resource_bindings: Vec<Entry<ContentDigest>>,
    /// Canonical bytes of the static scene.
    pub scene: Vec<u8>,
    /// Canonical bytes of the evaluated frame state.
    pub frame: Vec<u8>,
}

/// Canonicalization failure, such as a number that is not finite.
#[derive(Debug)]
pub struct CanonicalError {
    pub reason: String,
}

/// What a mesh reads from outside the scene.
#[derive(Debug)]
pub struct MeshControls {
    pub model: String,
    pub texture: Option<String>,
}

pub open spec fn frame_content(canonical: Seq<u8>) -> Seq<u8> {
    "valle-scene3d-frame-request-v1\0".spec_bytes() + canonical
}

pub open spec fn frame_topology(scene: Seq<u8>) -> Seq<u8> {
    "valle-scene3d-topology-v1\0".spec_bytes() + scene
}

fn tagged(tag: &str, data: &Vec<u8>) -> (r: Vec<u8>)
    ensures
        r@ == tag.spec_bytes() + data@,
{
    let mut out: Vec<u8> = Vec::new();
    let head = tag.as_bytes();
    let mut i: usize = 0;
    while i < head.len()
        invariant
            i <= head@.len(),
            head@ == tag.spec_bytes(),
            out@ == head@.take(i as int),
        decreases head@.len() - i,
    {
        out.push(head[i]);
        i = i + 1;
        assert(out@ =~= head@.take(i as int));
    }
    assert(head@.take(head@.len() as int) =~= head@);
    let mut j: usize = 0;
    while j < data.len()
        invariant
            j <= data@.len(),
            out@ == tag.spec_bytes() + data@.take(j as int),
        decreases data@.len() - j,
    {
        out.push(data[j]);
        j = j + 1;
        assert(out@ =~= tag.spec_bytes() + data@.take(j as int));
    }
    assert(data@.take(data@.len() as int) =~= data@);
    out
}


fn copied(data: &Vec<u8>) -> (r: Vec<u8>)
    ensures
        r@ == data@,
{
    let mut out: Vec<u8> = Vec::new();
    let mut i: usize = 0;
    while i < data.len()
        invariant
            i <= data@.len(),
            out@ == data@.take(i as int),
        decreases data@.len() - i,
    {
        out.push(data[i]);
        i = i + 1;
        assert(out@ =~= data@.take(i as int));
    }
    assert(data@.take(data@.len() as int) =~= data@);
    out
}

/// Whether a request is the raster request of a scene at a size, with the given bindings.
pub open spec fn is_raster_of(
    v: Scene3DFrameRequest,
    request: Scene3DRequest,
    width: u32,
    height: u32,
    bindings: Seq<Entry<ContentDigest>>,
) -> bool {
    &&& v.provider_key@ == request.provider_key@
    &&& v.width == width
    &&& v.height == height
    &&& v.resource_bindings@ == bindings
    &&& v.scene@ == request.scene@
    &&& v.frame@ == request.frame@
}

/// Whether `canonical` refuses the raster request of a scene for the given reason.
pub open spec fn raster_refused<C: Fn(&Scene3DFrameRequest) -> Result<Vec<u8>, CanonicalError>>(
    canonical: C,
    request: Scene3DRequest,
    width: u32,
    height: u32,
    bindings: Seq<Entry<ContentDigest>>,
    e: CanonicalError,
) -> bool {
    exists|v: Scene3DFrameRequest|
        is_raster_of(v, request, width, height, bindings) && #[trigger] call_ensures(
            canonical,
            (&v,),
            Err(e),
        )
}

/// Whether a digest is the content digest of a request's canonical form.
pub open spec fn content_told<C: Fn(&Scene3DFrameRequest) -> Result<Vec<u8>, CanonicalError>>(
    canonical: C,
    v: Scene3DFrameRequest,
    digest: Seq<u8>,
) -> bool {
    exists|bytes: Vec<u8>| #[trigger]
        call_ensures(canonical, (&v,), Ok(bytes)) && digest == sha256_of(frame_content(bytes@))
}

impl Scene3DFrameRequest {
    /// Builds a raster request. `canonical` gives the canonical form of a request, or why it has
    /// none; a request without one has no identity and is refused.
    pub fn new<C: Fn(&Scene3DFrameRequest) -> Result<Vec<u8>, CanonicalError>>(
        request: &Scene3DRequest,
        width: u32,
        height: u32,
        resource_bindings: Vec<Entry<ContentDigest>>,
        canonical: &C,
    ) -> (r: Result<Scene3DFrameRequest, CanonicalError>)
        requires
            forall|v: Scene3DFrameRequest| call_requires(*canonical, (&v,)),
        ensures
            match r {
                Ok(v) => {
                    &&& is_raster_of(v, *request, width, height, resource_bindings@)
                    &&& exists|bytes: Vec<u8>| #[trigger]
                        call_ensures(*canonical, (&v,), Ok(bytes))
                },
                Err(e) => raster_refused(
                    *canonical,
                    *request,
                    width,
                    height,
                    resource_bindings@,
                    e,
                ),
            },
    {
        let value = Scene3DFrameRequest {
            provider_key: request.provider_key.clone(),
            width,
            height,
            resource_bindings,
            scene: copied(&request.scene),
            frame: copied(&request.frame),
        };
        match value.canonical_bytes(canonical) {
            Ok(_) => Ok(value),
            Err(e) => Err(e),
        }
    }

    /// The canonical form of the request.
    pub fn canonical_bytes<C: Fn(&Scene3DFrameRequest) -> Result<Vec<u8>, CanonicalError>>(
        &self,
        canonical: &C,
    ) -> (r: Result<Vec<u8>, CanonicalError>)
        requires
            call_requires(*canonical, (self,)),
        ensures
            call_ensures(*canonical, (self,), r),
    {
        canonical(self)
    }

    /// The identity of the raster.
    pub fn content_digest<C: Fn(&Scene3DFrameRequest) -> Result<Vec<u8>, CanonicalError>>(
        &self,
        canonical: &C,
    ) -> (r: Result<ContentDigest, CanonicalError>)
        requires
            call_requires(*canonical, (self,)),
        ensures
            match r {
                Ok(d) => content_told(*canonical, *self, d.bytes@),
                Err(e) => call_ensures(*canonical, (self,), Err(e)),
            },
    {
        match self.canonical_bytes(canonical) {
            Ok(bytes) => {
                let data = tagged("valle-scene3d-frame-request-v1\0", &bytes);
                Ok(ContentDigest::of_bytes(data.as_slice()))
            },
            Err(e) => Err(e),
        }
    }

    /// The identity of the scene that the raster was built from.
    pub fn topology_digest(&self) -> (r: ContentDigest)
        ensures
            r.bytes@ == sha256_of(frame_topology(self.scene@)),
    {
        let data = tagged("valle-scene3d-topology-v1\0", &self.scene);
        ContentDigest::of_bytes(data.as_slice())
    }
}

/// The provider key of a raster with a content digest.
pub open spec fn frame_uri(digest: Seq<u8>) -> Seq<char> {
    "scene3d-frame://"@ + hex(digest, 32)
}

proof fn digits_tell_apart(a: int, b: int)
    requires
        0 <= a < 16,
        0 <= b < 16,
        hex_digit(a) == hex_digit(b),
    ensures
        a == b,
{
}

proof fn hex_tells_apart(a: Seq<u8>, b: Seq<u8>, n: nat)
    requires
        n <= a.len(),
        n <= b.len(),
        hex(a, n) == hex(b, n),
    ensures
        a.take(n as int) == b.take(n as int),
    decreases n,
{
    if n > 0 {
        let m = (n - 1) as nat;
        let x = a[n - 1] as int;
        let y = b[n - 1] as int;
        let p = hex(a, m).push(hex_digit(x / 16));
        let q = hex(b, m).push(hex_digit(y / 16));
        assert(hex(a, n).drop_last() =~= p);
        assert(hex(b, n).drop_last() =~= q);
        assert(hex(a, n).last() == hex_digit(x % 16));
        assert(hex(b, n).last() == hex_digit(y % 16));
        assert(p.drop_last() =~= hex(a, m));
        assert(q.drop_last() =~= hex(b, m));
        assert(p.last() == hex_digit(x / 16));
        assert(q.last() == hex_digit(y / 16));
        digits_tell_apart(x / 16, y / 16);
        digits_tell_apart(x % 16, y % 16);
        hex_tells_apart(a, b, m);
        assert(a.take(n as int) =~= a.take(m as int).push(a[n - 1]));
        assert(b.take(n as int) =~= b.take(m as int).push(b[n - 1]));
    } else {
        assert(a.take(0) =~= b.take(0));
    }
}

/// Two rasters share a provider key only where they share a content digest, and what is digested
/// differs wherever the canonical forms of their requests do.
pub proof fn keys_tell_rasters_apart(a: Seq<u8>, b: Seq<u8>, x: Seq<u8>, y: Seq<u8>)
    requires
        a.len() == 32,
        b.len() == 32,
    ensures
        frame_uri(a) == frame_uri(b) ==> a == b,
        frame_content(x) == frame_content(y) ==> x == y,
{
    if frame_uri(a) == frame_uri(b) {
        let head = "scene3d-frame://"@;
        assert(frame_uri(a).skip(head.len() as int) =~= hex(a, 32));
        assert(frame_uri(b).skip(head.len() as int) =~= hex(b, 32));
        hex_tells_apart(a, b, 32);
        assert(a.take(32) =~= a);
        assert(b.take(32) =~= b);
    }
    if frame_content(x) == frame_content(y) {
        let head = "valle-scene3d-frame-request-v1\0".spec_bytes();
        assert(frame_content(x).skip(head.len() as int) =~= x);
        assert(frame_content(y).skip(head.len() as int) =~= y);
    }
}

fn uri_of(digest: &ContentDigest) -> (r: String)
    ensures
        r@ == frame_uri(digest.bytes@),
{
    let name = digest.as_hex();
    joined("scene3d-frame://".to_owned(), name.as_str())
}

/// Controls of the first `n` meshes: of each its model, then its texture where it has one.
pub open spec fn controls_of(meshes: Seq<MeshControls>, n: nat) -> Seq<Seq<char>>
    decreases n,
{
    if n == 0 {
        Seq::empty()
    } else {
        let own = controls_of(meshes, (n - 1) as nat).push(meshes[n - 1].model@);
        match meshes[n - 1].texture {
            Some(t) => own.push(t@),
            None => own,
        }
    }
}

pub open spec fn control_texts(v: Seq<String>) -> Seq<Seq<char>> {
    v.map_values(|s: String| s@)
}

/// The controls that the meshes of a scene read.
pub fn mesh_controls(meshes: &Vec<MeshControls>) -> (r: Vec<String>)
    ensures
        control_texts(r@) == controls_of(meshes@, meshes@.len()),
{
    let mut out: Vec<String> = Vec::new();
    let mut i: usize = 0;
    assert(control_texts(out@) =~= Seq::empty());
    while i < meshes.len()
        invariant
            i <= meshes@.len(),
            control_texts(out@) == controls_of(meshes@, i as nat),
        decreases meshes@.len() - i,
    {
        let ghost first = out@;
        out.push(meshes[i].model.clone());
        let ghost own = out@;
        assert(control_texts(own) =~= control_texts(first).push(meshes@[i as int].model@));
        match &meshes[i].texture {
            Some(t) => {
                out.push(t.clone());
                assert(control_texts(out@) =~= control_texts(own).push(t@));
            },
            None => {},
        }
        i = i + 1;
    }
    out
}

/// Bindings of the first `n` controls: each that was answered, with its last answer.
pub open spec fn answered(
    controls: Seq<String>,
    answers: Seq<Option<[u8; 32]>>,
    n: nat,
) -> Map<Seq<char>, ContentDigest>
    decreases n,
{
    if n == 0 {
        Map::empty()
    } else {
        let rest = answered(controls, answers, (n - 1) as nat);
        match answers[n - 1] {
            Some(bytes) => rest.insert(controls[n - 1]@, ContentDigest { bytes }),
            None => rest,
        }
    }
}

/// A 3D scene to be shown: what is asked for, and the controls that its meshes read.
#[derive(Debug)]
pub struct SceneContent {
    pub request: Scene3DRequest,
    pub meshes: Vec<MeshControls>,
}

/// A 3D scene that was painted, at its raster size.
pub struct Raster {
    pub provider_key: Seq<char>,
    pub scene: Seq<u8>,
    pub frame: Seq<u8>,
    pub controls: Seq<Seq<char>>,
    pub width: u32,
    pub height: u32,
}

/// A 3D scene that was painted, at its raster size.
#[derive(Debug)]
pub struct SceneRaster {
    pub request: Scene3DRequest,
    pub controls: Vec<String>,
    pub width: u32,
    pub height: u32,
}

impl View for SceneRaster {
    type V = Raster;

    open spec fn view(&self) -> Raster {
        Raster {
            provider_key: self.request.provider_key@,
            scene: self.request.scene@,
            frame: self.request.frame@,
            controls: control_texts(self.controls@),
            width: self.width,
            height: self.height,
        }
    }
}

pub open spec fn rasters_of(v: Seq<SceneRaster>) -> Seq<Raster> {
    v.map_values(|r: SceneRaster| r@)
}

/// The raster of a scene at a size.
pub open spec fn raster_at(c: SceneContent, width: u32, height: u32) -> Raster {
    Raster {
        provider_key: c.request.provider_key@,
        scene: c.request.scene@,
        frame: c.request.frame@,
        controls: controls_of(c.meshes@, c.meshes@.len()),
        width,
        height,
    }
}

impl SceneContent {
    /// The raster of the scene at a size.
    pub fn raster(&self, width: u32, height: u32) -> (r: SceneRaster)
        ensures
            r@ == raster_at(*self, width, height),
    {
        SceneRaster {
            request: Scene3DRequest {
                provider_key: self.request.provider_key.clone(),
                scene: copied(&self.request.scene),
                frame: copied(&self.request.frame),
            },
            controls: mesh_controls(&self.meshes),
            width,
            height,
        }
    }
}

/// Whether `digest` gave these answers for the controls.
pub open spec fn asked<D: Fn(&String) -> Option<[u8; 32]>>(
    digest: D,
    controls: Seq<String>,
    answers: Seq<Option<[u8; 32]>>,
) -> bool {
    &&& answers.len() == controls.len()
    &&& forall|i: int|
        0 <= i < controls.len() ==> call_ensures(digest, (&controls[i],), #[trigger] answers[i])
}

/// Whether a table binds exactly the controls that `digest` answers, each to its answer.
pub open spec fn binds<D: Fn(&String) -> Option<[u8; 32]>>(
    digest: D,
    controls: Seq<String>,
    bindings: Seq<Entry<ContentDigest>>,
) -> bool {
    &&& ascending(bindings)
    &&& exists|answers: Seq<Option<[u8; 32]>>| #[trigger]
        asked(digest, controls, answers) && mapped(bindings) == answered(
            controls,
            answers,
            controls.len(),
        )
}

/// A control is bound exactly when it was answered; where a name always gets one answer, to that.
pub proof fn answered_controls_are_bound(
    controls: Seq<String>,
    answers: Seq<Option<[u8; 32]>>,
    n: nat,
    key: Seq<char>,
)
    requires
        n <= controls.len() == answers.len(),
        forall|i: int, j: int|
            0 <= i < n && 0 <= j < n && (#[trigger] controls[i])@ == (#[trigger] controls[j])@
                ==> answers[i] == answers[j],
    ensures
        answered(controls, answers, n).dom().contains(key) <==> exists|i: int|
            0 <= i < n && (#[trigger] controls[i])@ == key && answers[i] is Some,
        forall|i: int|
            0 <= i < n && (#[trigger] controls[i])@ == key && answers[i] is Some ==> answered(
                controls,
                answers,
                n,
            )[key] == (ContentDigest { bytes: answers[i]->0 }),
    decreases n,
{
    if n > 0 {
        answered_controls_are_bound(controls, answers, (n - 1) as nat, key);
        if controls[n - 1]@ == key && answers[n - 1] is Some {
            assert(0 <= n - 1 < n);
        } else if answered(controls, answers, (n - 1) as nat).dom().contains(key) {
            let i = choose|i: int|
                0 <= i < n - 1 && (#[trigger] controls[i])@ == key && answers[i] is Some;
            assert(0 <= i < n);
        }
    }
}

fn bind_controls<D: Fn(&String) -> Option<[u8; 32]>>(digest: &D, controls: &Vec<String>) -> (r: Vec<
    Entry<ContentDigest>,
>)
    requires
        forall|name: String| call_requires(*digest, (&name,)),
    ensures
        binds(*digest, controls@, r@),
{
    let mut out: Vec<Entry<ContentDigest>> = Vec::new();
    let ghost mut answers: Seq<Option<[u8; 32]>> = Seq::empty();
    let mut i: usize = 0;
    assert(mapped(out@) =~= Map::empty());
    while i < controls.len()
        invariant
            i <= controls@.len(),
            forall|name: String| call_requires(*digest, (&name,)),
            answers.len() == i,
            forall|k: int|
                0 <= k < i ==> call_ensures(*digest, (&controls@[k],), #[trigger] answers[k]),
            ascending(out@),
            mapped(out@) == answered(controls@, answers, i as nat),
        decreases controls@.len() - i,
    {
        let answer = digest(&controls[i]);
        proof {
            answers_extend(controls@, answers, answer, i as nat);
            answers = answers.push(answer);
        }
        match answer {
            Some(bytes) => {
                store(&mut out, controls[i].as_str(), ContentDigest::from_bytes(bytes));
            },
            None => {},
        }
        i = i + 1;
    }
    assert(asked(*digest, controls@, answers));
    out
}

proof fn answers_extend(
    controls: Seq<String>,
    answers: Seq<Option<[u8; 32]>>,
    more: Option<[u8; 32]>,
    n: nat,
)
    requires
        n <= answers.len(),
    ensures
        answered(controls, answers.push(more), n) == answered(controls, answers, n),
    decreases n,
{
    if n > 0 {
        answers_extend(controls, answers, more, (n - 1) as nat);
    }
}

/// Whether a request and its provider key stand for a scene at a size: the request binds what
/// `digest` answers, and the key is made of its content digest.
pub open spec fn frame_told<
    D: Fn(&String) -> Option<[u8; 32]>,
    C: Fn(&Scene3DFrameRequest) -> Result<Vec<u8>, CanonicalError>,
>(
    digest: D,
    canonical: C,
    request: Scene3DRequest,
    controls: Seq<String>,
    width: u32,
    height: u32,
    v: Scene3DFrameRequest,
    uri: Seq<char>,
) -> bool {
    &&& is_raster_of(v, request, width, height, v.resource_bindings@)
    &&& binds(digest, controls, v.resource_bindings@)
    &&& exists|content: Seq<u8>| #[trigger]
        content_told(canonical, v, content) && uri == frame_uri(content)
}

/// Whether the raster request of a scene has no canonical form.
pub open spec fn frame_refused<
    D: Fn(&String) -> Option<[u8; 32]>,
    C: Fn(&Scene3DFrameRequest) -> Result<Vec<u8>, CanonicalError>,
>(
    digest: D,
    canonical: C,
    request: Scene3DRequest,
    controls: Seq<String>,
    width: u32,
    height: u32,
    e: CanonicalError,
) -> bool {
    exists|bindings: Seq<Entry<ContentDigest>>| #[trigger]
        binds(digest, controls, bindings) && raster_refused(
            canonical,
            request,
            width,
            height,
            bindings,
            e,
        )
}

/// The raster request of a scene and the provider key of its texture. `digest` knows the content
/// of each control that is bound; `controls` lists what the meshes read.
pub fn scene3d_frame<
    D: Fn(&String) -> Option<[u8; 32]>,
    C: Fn(&Scene3DFrameRequest) -> Result<Vec<u8>, CanonicalError>,
>(
    request: &Scene3DRequest,
    controls: &Vec<String>,
    width: u32,
    height: u32,
    digest: &D,
    canonical: &C,
) -> (r: Result<(Scene3DFrameRequest, String), CanonicalError>)
    requires
        forall|name: String| call_requires(*digest, (&name,)),
        forall|v: Scene3DFrameRequest| call_requires(*canonical, (&v,)),
    ensures
        match r {
            Ok((v, uri)) => frame_told(
                *digest,
                *canonical,
                *request,
                controls@,
                width,
                height,
                v,
                uri@,
            ),
            Err(e) => frame_refused(
                *digest,
                *canonical,
                *request,
                controls@,
                width,
                height,
                e,
            ),
        },
{
    let bindings = bind_controls(digest, controls);
    let ghost bound = bindings@;
    match Scene3DFrameRequest::new(request, width, height, bindings, canonical) {
        Err(e) => {
            assert(binds(*digest, controls@, bound));
            Err(e)
        },
        Ok(v) => match v.content_digest(canonical) {
            Err(e) => {
                assert(binds(*digest, controls@, bound));
                assert(raster_refused(*canonical, *request, width, height, bound, e));
                Err(e)
            },
            Ok(content) => {
                let uri = uri_of(&content);
                assert(content_told(*canonical, v, content.bytes@));
                Ok((v, uri))
            },
        },
    }
}

/// A texture that is generated for one frame.
#[derive(Debug)]
pub struct GeneratedTexture {
    pub provider_key: String,
    pub width: u32,
    pub height: u32,
}

/// Whether a request and its texture are those of a painted scene.
pub open spec fn raster_told<
    D: Fn(&String) -> Option<[u8; 32]>,
    C: Fn(&Scene3DFrameRequest) -> Result<Vec<u8>, CanonicalError>,
>(
    digest: D,
    canonical: C,
    raster: Raster,
    v: Scene3DFrameRequest,
    texture: GeneratedTexture,
) -> bool {
    &&& texture.width == raster.width
    &&& texture.height == raster.height
    &&& exists|source: SceneRaster| #[trigger]
        source@ == raster && frame_told(
            digest,
            canonical,
            source.request,
            source.controls@,
            raster.width,
            raster.height,
            v,
            texture.provider_key@,
        )
}

/// Whether the requests and textures of the painted scenes are listed in painting order.
pub open spec fn frames_told<
    D: Fn(&String) -> Option<[u8; 32]>,
    C: Fn(&Scene3DFrameRequest) -> Result<Vec<u8>, CanonicalError>,
>(
    digest: D,
    canonical: C,
    rasters: Seq<Raster>,
    frames: Seq<Scene3DFrameRequest>,
    textures: Seq<GeneratedTexture>,
) -> bool {
    &&& frames.len() == rasters.len()
    &&& textures.len() == rasters.len()
    &&& forall|i: int|
        0 <= i < rasters.len() ==> raster_told(
            digest,
            canonical,
            #[trigger] rasters[i],
            frames[i],
            textures[i],
        )
}

/// Whether a painted scene has no canonical request.
pub open spec fn raster_fails<
    D: Fn(&String) -> Option<[u8; 32]>,
    C: Fn(&Scene3DFrameRequest) -> Result<Vec<u8>, CanonicalError>,
>(digest: D, canonical: C, raster: Raster, reason: Seq<char>) -> bool {
    exists|source: SceneRaster, e: CanonicalError|
        source@ == raster && e.reason@ == reason && #[trigger] frame_refused(
            digest,
            canonical,
            source.request,
            source.controls@,
            raster.width,
            raster.height,
            e,
        )
}

/// Whether some painted scene has no canonical request.
pub open spec fn frames_fail<
    D: Fn(&String) -> Option<[u8; 32]>,
    C: Fn(&Scene3DFrameRequest) -> Result<Vec<u8>, CanonicalError>,
>(digest: D, canonical: C, rasters: Seq<Raster>, reason: Seq<char>) -> bool {
    exists|i: int|
        0 <= i < rasters.len() && raster_fails(digest, canonical, #[trigger] rasters[i], reason)
}

/// The requests and textures of painted scenes, in painting order.
pub fn scene3d_frames<
    D: Fn(&String) -> Option<[u8; 32]>,
    C: Fn(&Scene3DFrameRequest) -> Result<Vec<u8>, CanonicalError>,
>(digest: &D, canonical: &C, rasters: &Vec<SceneRaster>) -> (r: Result<
    (Vec<Scene3DFrameRequest>, Vec<GeneratedTexture>),
    CanonicalError,
>)
    requires
        forall|name: String| call_requires(*digest, (&name,)),
        forall|v: Scene3DFrameRequest| call_requires(*canonical, (&v,)),
    ensures
        match r {
            Ok((frames, textures)) => frames_told(
                *digest,
                *canonical,
                rasters_of(rasters@),
                frames@,
                textures@,
            ),
            Err(e) => frames_fail(*digest, *canonical, rasters_of(rasters@), e.reason@),
        },
{
    let ghost all = rasters_of(rasters@);
    let mut frames: Vec<Scene3DFrameRequest> = Vec::new();
    let mut textures: Vec<GeneratedTexture> = Vec::new();
    let mut i: usize = 0;
    while i < rasters.len()
        invariant
            i <= rasters@.len(),
            all == rasters_of(rasters@),
            forall|name: String| call_requires(*digest, (&name,)),
            forall|v: Scene3DFrameRequest| call_requires(*canonical, (&v,)),
            frames_told(*digest, *canonical, all.take(i as int), frames@, textures@),
        decreases rasters@.len() - i,
    {
        let source = &rasters[i];
        let ghost told = all.take(i as int);
        let ghost some = frames@;
        let ghost others = textures@;
        assert(all[i as int] == source@);
        match scene3d_frame(
            &source.request,
            &source.controls,
            source.width,
            source.height,
            digest,
            canonical,
        ) {
            Err(e) => {
                assert(frame_refused(
                    *digest,
                    *canonical,
                    source.request,
                    source.controls@,
                    all[i as int].width,
                    all[i as int].height,
                    e,
                ));
                assert(raster_fails(*digest, *canonical, all[i as int], e.reason@));
                return Err(e);
            },
            Ok((v, provider_key)) => {
                let texture = GeneratedTexture {
                    provider_key,
                    width: source.width,
                    height: source.height,
                };
                assert(source@ == all[i as int]);
                assert(raster_told(*digest, *canonical, all[i as int], v, texture));
                frames.push(v);
                textures.push(texture);
            },
        }
        i = i + 1;
        proof {
            let now = all.take(i as int);
            assert forall|k: int| 0 <= k < now.len() implies raster_told(
                *digest,
                *canonical,
                #[trigger] now[k],
                frames@[k],
                textures@[k],
            ) by {
                if k < told.len() {
                    assert(now[k] == told[k]);
                    assert(frames@[k] == some[k]);
                    assert(textures@[k] == others[k]);
                }
            }
        }
    }
    assert(all.take(i as int) =~= all);
    Ok((frames, textures))
}

/// The identities of the first `n` frames by provider key, given their content digests.
pub open spec fn catalogued(
    frames: Seq<Scene3DFrameRequest>,
    contents: Seq<ContentDigest>,
    topologies: Seq<ContentDigest>,
    n: nat,
) -> Map<Seq<char>, Scene3dKey>
    decreases n,
{
    if n == 0 {
        Map::empty()
    } else {
        catalogued(frames, contents, topologies, (n - 1) as nat).insert(
            frame_uri(contents[n - 1].bytes@),
            Scene3dKey { content: contents[n - 1], topology: topologies[n - 1] },
        )
    }
}

/// Whether digests are those of the frames.
pub open spec fn identified<C: Fn(&Scene3DFrameRequest) -> Result<Vec<u8>, CanonicalError>>(
    canonical: C,
    frames: Seq<Scene3DFrameRequest>,
    contents: Seq<ContentDigest>,
    topologies: Seq<ContentDigest>,
) -> bool {
    &&& contents.len() == frames.len()
    &&& topologies.len() == frames.len()
    &&& forall|i: int|
        0 <= i < frames.len() ==> content_told(
            canonical,
            frames[i],
            (#[trigger] contents[i]).bytes@,
        )
    &&& forall|i: int|
        0 <= i < frames.len() ==> (#[trigger] topologies[i]).bytes@ == sha256_of(
            frame_topology(frames[i].scene@),
        )
}

/// The identities behind the generated textures of one emission, by provider key.
pub fn scene3d_keys<C: Fn(&Scene3DFrameRequest) -> Result<Vec<u8>, CanonicalError>>(
    canonical: &C,
    frames: &Vec<Scene3DFrameRequest>,
) -> (r: Result<Vec<Entry<Scene3dKey>>, CanonicalError>)
    requires
        forall|v: Scene3DFrameRequest| call_requires(*canonical, (&v,)),
    ensures
        match r {
            Ok(keys) => ascending(keys@) && exists|
                contents: Seq<ContentDigest>,
                topologies: Seq<ContentDigest>,
            | #[trigger]
                identified(*canonical, frames@, contents, topologies) && mapped(keys@)
                    == catalogued(frames@, contents, topologies, frames@.len()),
            Err(e) => exists|i: int|
                0 <= i < frames@.len() && call_ensures(
                    *canonical,
                    (&#[trigger] frames@[i],),
                    Err(e),
                ),
        },
{
    let mut out: Vec<Entry<Scene3dKey>> = Vec::new();
    let ghost mut contents: Seq<ContentDigest> = Seq::empty();
    let ghost mut topologies: Seq<ContentDigest> = Seq::empty();
    let mut i: usize = 0;
    assert(mapped(out@) =~= Map::empty());
    while i < frames.len()
        invariant
            i <= frames@.len(),
            forall|v: Scene3DFrameRequest| call_requires(*canonical, (&v,)),
            contents.len() == i,
            topologies.len() == i,
            forall|k: int|
                0 <= k < i ==> content_told(
                    *canonical,
                    frames@[k],
                    (#[trigger] contents[k]).bytes@,
                ),
            forall|k: int|
                0 <= k < i ==> (#[trigger] topologies[k]).bytes@ == sha256_of(
                    frame_topology(frames@[k].scene@),
                ),
            ascending(out@),
            mapped(out@) == catalogued(frames@, contents, topologies, i as nat),
        decreases frames@.len() - i,
    {
        let content = match frames[i].content_digest(canonical) {
            Ok(d) => d,
            Err(e) => {
                assert(call_ensures(*canonical, (&frames@[i as int],), Err(e)));
                return Err(e);
            },
        };
        let topology = frames[i].topology_digest();
        let uri = uri_of(&content);
        proof {
            catalogue_extends(frames@, contents, topologies, content, topology, i as nat);
            contents = contents.push(content);
            topologies = topologies.push(topology);
        }
        store(&mut out, uri.as_str(), Scene3dKey { content, topology });
        i = i + 1;
    }
    assert(identified(*canonical, frames@, contents, topologies));
    Ok(out)
}

proof fn catalogue_extends(
    frames: Seq<Scene3DFrameRequest>,
    contents: Seq<ContentDigest>,
    topologies: Seq<ContentDigest>,
    content: ContentDigest,
    topology: ContentDigest,
    n: nat,
)
    requires
        n <= contents.len(),
        n <= topologies.len(),
    ensures
        catalogued(frames, contents.push(content), topologies.push(topology), n) == catalogued(
            frames,
            contents,
            topologies,
            n,
        ),
    decreases n,
{
    if n > 0 {
        catalogue_extends(frames, contents, topologies, content, topology, (n - 1) as nat);
    }
}

/// The texture identity behind a provider key.
pub fn scene3d_key(keys: &Vec<Entry<Scene3dKey>>, uri: &str) -> (r: Option<Scene3dKey>)
    ensures
        r == (if mapped(keys@).dom().contains(uri@) {
            Some(mapped(keys@)[uri@])
        } else {
            None
        }),
{
    match lookup(keys, uri) {
        Some(key) => Some(*key),
        None => None,
    }
}

} // verus!
