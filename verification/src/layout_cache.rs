//! One kept layout of a scene whose geometry does not change from frame to frame.

use vstd::prelude::*;

use crate::eval::{MotionContext, ResolvedProps};
use crate::scalar::Scalar;
use crate::table::{same_text, Entry};
use crate::value::{MotionValue, Value};

verus! {

/// A viewport as layout reads it: its size where it is definite, and the bit patterns of its base
/// font size and pixel ratio.
#[derive(Clone, Copy, Debug, PartialEq, Eq, Structural)]
pub struct ViewportKey {
    pub width: Option<u32>,
    pub height: Option<u32>,
    pub font_size: u32,
    pub device_pixel_ratio: u32,
}

/// Everything that a fixed layout depends on: viewport, props, frame rate and duration.
pub struct GeometryKey {
    pub viewport: ViewportKey,
    pub props: ResolvedProps,
    pub fps_numerator: Scalar,
    pub fps_denominator: u32,
    pub duration: u32,
}

/// Props by their contents.
pub open spec fn props_seen(entries: Seq<Entry<MotionValue>>) -> Seq<(Seq<char>, Value)> {
    entries.map_values(|e: Entry<MotionValue>| (e.key@, e.value@))
}

/// Whether two lists hold the same names with equal values.
pub open spec fn same_props(a: Seq<(Seq<char>, Value)>, b: Seq<(Seq<char>, Value)>) -> bool {
    a.len() == b.len() && forall|i: int|
        0 <= i < a.len() ==> (#[trigger] a[i]).0 == b[i].0 && a[i].1.same(b[i].1)
}

/// A geometry key by its contents.
pub struct Geometry {
    pub viewport: ViewportKey,
    pub props: Seq<(Seq<char>, Value)>,
    pub fps_numerator: Scalar,
    pub fps_denominator: u32,
    pub duration: u32,
}

impl View for GeometryKey {
    type V = Geometry;

    open spec fn view(&self) -> Geometry {
        Geometry {
            viewport: self.viewport,
            props: props_seen(self.props.values@),
            fps_numerator: self.fps_numerator,
            fps_denominator: self.fps_denominator,
            duration: self.duration,
        }
    }
}

impl Geometry {
    /// Whether a layout made for this key serves another.
    pub open spec fn same(self, other: Geometry) -> bool {
        &&& self.viewport == other.viewport
        &&& same_props(self.props, other.props)
        &&& self.fps_numerator.eq_spec(other.fps_numerator)
        &&& self.fps_denominator == other.fps_denominator
        &&& self.duration == other.duration
    }
}

impl GeometryKey {
    pub fn new(viewport: ViewportKey, props: &ResolvedProps, ctx: &MotionContext) -> (r: GeometryKey)
        ensures
            r@ == (Geometry {
                viewport,
                props: props_seen(props.values@),
                fps_numerator: ctx.fps_numerator,
                fps_denominator: ctx.fps_denominator,
                duration: ctx.duration_frames,
            }),
    {
        let mut values: Vec<Entry<MotionValue>> = Vec::new();
        let mut i: usize = 0;
        while i < props.values.len()
            invariant
                i <= props.values@.len(),
                props_seen(values@) == props_seen(props.values@).take(i as int),
            decreases props.values@.len() - i,
        {
            let ghost before = values@;
            values.push(
                Entry {
                    key: props.values[i].key.clone(),
                    value: props.values[i].value.duplicate(),
                },
            );
            i = i + 1;
            assert(props_seen(values@) =~= props_seen(before).push(
                props_seen(props.values@)[i - 1],
            ));
            assert(props_seen(values@) =~= props_seen(props.values@).take(i as int));
        }
        assert(props_seen(props.values@).take(i as int) =~= props_seen(props.values@));
        GeometryKey {
            viewport,
            props: ResolvedProps { values },
            fps_numerator: ctx.fps_numerator,
            fps_denominator: ctx.fps_denominator,
            duration: ctx.duration_frames,
        }
    }

    /// Whether a layout made for this key serves another.
    pub fn same(&self, other: &GeometryKey) -> (r: bool)
        ensures
            r == self@.same(other@),
    {
        if self.viewport != other.viewport || !self.fps_numerator.eq_value(other.fps_numerator)
            || self.fps_denominator != other.fps_denominator || self.duration != other.duration
            || self.props.values.len() != other.props.values.len() {
            return false;
        }
        let mut i: usize = 0;
        while i < self.props.values.len()
            invariant
                self.props.values@.len() == other.props.values@.len(),
                i <= self.props.values@.len(),
                forall|k: int|
                    0 <= k < i ==> (#[trigger] self@.props[k]).0 == other@.props[k].0
                        && self@.props[k].1.same(other@.props[k].1),
            decreases self.props.values@.len() - i,
        {
            let a = &self.props.values[i];
            let b = &other.props.values[i];
            let equal: bool = same_text(a.key.as_str(), b.key.as_str()) && a.value.equals(&b.value);
            assert(self@.props[i as int] == (a.key@, a.value@));
            assert(other@.props[i as int] == (b.key@, b.value@));
            if !equal {
                return false;
            }
            i = i + 1;
        }
        true
    }
}

/// At most one layout of one scene. Nothing else of an earlier frame is kept.
pub struct LayoutCache<G> {
    scene: u64,
    kept: Option<(GeometryKey, G)>,
}

impl<G> LayoutCache<G> {
    /// The instance of the prepared scene that the cache was made for.
    pub closed spec fn owner(self) -> u64 {
        self.scene
    }

    /// The kept layout and what it was made for.
    pub closed spec fn snapshot(self) -> Option<(Geometry, G)> {
        match self.kept {
            Some((key, geometry)) => Some((key@, geometry)),
            None => None,
        }
    }

    /// What the cache answers for a key: the kept layout, where it was made for an equal key.
    pub open spec fn found(self, key: Geometry) -> Option<G> {
        match self.snapshot() {
            Some((made_for, geometry)) => if made_for.same(key) { Some(geometry) } else { None },
            None => None,
        }
    }

    /// A cache for the instance of a prepared scene, where that scene can keep its layout.
    pub fn new(scene: u64, reusable: bool) -> (r: Option<LayoutCache<G>>)
        ensures
            match r {
                Some(cache) => reusable && cache.owner() == scene && cache.snapshot() is None,
                None => !reusable,
            },
    {
        if reusable {
            Some(LayoutCache { scene, kept: None })
        } else {
            None
        }
    }

    /// Whether the cache was made for this very instance.
    pub fn is_for(&self, scene: u64) -> (r: bool)
        ensures
            r == (self.owner() == scene),
    {
        self.scene == scene
    }

    /// Forgets the kept layout.
    pub fn clear(&mut self)
        ensures
            final(self).owner() == old(self).owner(),
            final(self).snapshot() is None,
    {
        self.kept = None;
    }

    /// The kept layout, where it serves a key.
    pub fn find(&self, key: &GeometryKey) -> (r: Option<&G>)
        ensures
            match r {
                Some(geometry) => self.found(key@) == Some(*geometry),
                None => self.found(key@) is None,
            },
    {
        match &self.kept {
            Some((made_for, geometry)) => {
                if made_for.same(key) {
                    Some(geometry)
                } else {
                    None
                }
            },
            None => None,
        }
    }

    /// Keeps a layout in place of the one before.
    pub fn keep(&mut self, key: GeometryKey, geometry: G)
        ensures
            final(self).owner() == old(self).owner(),
            final(self).snapshot() == Some((key@, geometry)),
    {
        self.kept = Some((key, geometry));
    }
}

/// A kept layout serves every frame of the same viewport, props, frame rate and duration, provided
/// that the numbers in its key are equal to themselves.
pub proof fn kept_layout_is_found<G>(cache: LayoutCache<G>, key: Geometry, geometry: G)
    requires
        cache.snapshot() == Some((key, geometry)),
        key.same(key),
    ensures
        cache.found(key) == Some(geometry),
{
}

/// A kept layout serves no frame whose viewport, frame rate or duration differ.
pub proof fn other_frames_are_not_served<G>(cache: LayoutCache<G>, made_for: Geometry, key: Geometry)
    requires
        cache.snapshot() matches Some((kept_for, _)) && kept_for == made_for,
        made_for.viewport != key.viewport || made_for.duration != key.duration
            || made_for.fps_denominator != key.fps_denominator,
    ensures
        cache.found(key) is None,
{
}

} // verus!
