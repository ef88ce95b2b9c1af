//! What a node paints inside its groups, and the order rules that span nodes: material fields and
//! formula placement.

use vstd::prelude::*;

use crate::emitter::{
    grew, grew_more, grew_nothing, grew_one, texts, EmitError, Emitter, Note, Recorded,
};
use crate::frame::{quote, quoted, Failure, NodePaint, PaintTree};
use crate::recording::{
    BatchGeometry, Command, Corners, FillRule, ObjectFit, Paint, PathRef, Rect, StrokeRef,
    TableRange,
};
use crate::scalar::{num, Scalar, ZERO};
use crate::scene_frames::{raster_at, SceneContent};
use crate::shell::{close_one, is_rounded, rounded};
use crate::table::{find, lookup, same_text, Entry};
use crate::text::joined;

verus! {

/// The fields that painting has met inside one stacking context.
pub struct FieldRuns {
    pub open: Option<String>,
    pub closed: Vec<String>,
}

/// Field runs by their contents.
pub struct Runs {
    pub open: Option<Seq<char>>,
    pub closed: Seq<Seq<char>>,
}

impl View for FieldRuns {
    type V = Runs;

    open spec fn view(&self) -> Runs {
        Runs {
            open: crate::frame::option_text(self.open),
            closed: texts(self.closed@),
        }
    }
}

/// Which field group to close and which to open before the next item.
#[derive(Clone, Copy, Debug, PartialEq, Eq, Structural)]
pub struct FieldChange {
    pub close: bool,
    pub open: bool,
}

/// The open run once an item that wants `desired` has ended a run of another field.
pub open spec fn run_left(runs: Runs, desired: Option<Seq<char>>) -> Runs {
    if runs.open is Some && desired != runs.open {
        Runs { open: None, closed: runs.closed.push(runs.open->0) }
    } else {
        runs
    }
}

/// The runs before the next item is painted: a field that was left may not be entered again.
pub open spec fn run_entered(
    runs: Runs,
    desired: Option<Seq<char>>,
    inherited: Option<Seq<char>>,
) -> Result<(Runs, FieldChange), Seq<char>> {
    let left = run_left(runs, desired);
    let close = runs.open is Some && desired != runs.open;
    if left.open is None && desired is Some && inherited != desired {
        if left.closed.contains(desired->0) {
            Err(desired->0)
        } else {
            Ok((Runs { open: desired, ..left }, FieldChange { close, open: true }))
        }
    } else {
        Ok((left, FieldChange { close, open: false }))
    }
}

/// The runs after the first `n` items, or the field that was entered twice.
pub open spec fn runs_after(
    desired: Seq<Option<Seq<char>>>,
    inherited: Option<Seq<char>>,
    n: nat,
) -> Result<Runs, Seq<char>>
    decreases n,
{
    if n == 0 {
        Ok(Runs { open: None, closed: Seq::empty() })
    } else {
        match runs_after(desired, inherited, (n - 1) as nat) {
            Err(e) => Err(e),
            Ok(runs) => match run_entered(runs, desired[n - 1], inherited) {
                Err(e) => Err(e),
                Ok((next, _)) => Ok(next),
            },
        }
    }
}

impl FieldRuns {
    pub fn new() -> (r: FieldRuns)
        ensures
            r@ == (Runs { open: None, closed: Seq::empty() }),
    {
        let r = FieldRuns { open: None, closed: Vec::new() };
        assert(texts(r.closed@) =~= Seq::empty());
        r
    }

    /// Decides which field groups to close and open before an item that belongs to `desired`,
    /// inside a context whose enclosing material is `inherited`.
    pub fn enter(&mut self, desired: &Option<String>, inherited: &Option<String>) -> (r: Result<
        FieldChange,
        EmitError,
    >)
        ensures
            match run_entered(
                old(self)@,
                crate::frame::option_text(*desired),
                crate::frame::option_text(*inherited),
            ) {
                Ok((next, change)) => r == Ok::<FieldChange, EmitError>(change) && final(self)@
                    == next,
                Err(field) => r is Err && r->Err_0@ == Failure::Program(
                    quoted(
                        "GlassField "@,
                        field,
                        " is split into discontiguous painter-order runs"@,
                    ),
                ),
            },
    {
        let mut close: bool = false;
        let keep: bool = match (&self.open, desired) {
            (Some(open), Some(want)) => same_text(open.as_str(), want.as_str()),
            (Some(_), None) => false,
            (None, _) => true,
        };
        if !keep {
            close = true;
            match self.open.take() {
                Some(field) => {
                    let ghost before = self.closed@;
                    self.closed.push(field);
                    assert(texts(self.closed@) =~= texts(before).push(field@));
                },
                None => {},
            }
        }
        let vacant: bool = self.open.is_none();
        match desired {
            Some(want) => {
                let same: bool = match inherited {
                    Some(outer) => same_text(outer.as_str(), want.as_str()),
                    None => false,
                };
                if vacant && !same {
                    let mut i: usize = 0;
                    let ghost left = self@;
                    while i < self.closed.len()
                        invariant
                            i <= self.closed@.len(),
                            self@ == left,
                            forall|k: int| 0 <= k < i ==> #[trigger] left.closed[k] != want@,
                            run_entered(
                                old(self)@,
                                crate::frame::option_text(*desired),
                                crate::frame::option_text(*inherited),
                            ) == (if left.closed.contains(want@) {
                                Err(want@)
                            } else {
                                Ok(
                                    (
                                        Runs { open: Some(want@), ..left },
                                        FieldChange { close, open: true },
                                    ),
                                )
                            }),
                        decreases self.closed@.len() - i,
                    {
                        if same_text(self.closed[i].as_str(), want.as_str()) {
                            assert(left.closed[i as int] == want@);
                            return Err(
                                EmitError::Program(
                                    quote(
                                        "GlassField ",
                                        want.as_str(),
                                        " is split into discontiguous painter-order runs",
                                    ),
                                ),
                            );
                        }
                        i = i + 1;
                    }
                    assert(!left.closed.contains(want@));
                    self.open = Some(want.clone());
                    return Ok(FieldChange { close, open: true });
                }
            },
            None => {},
        }
        Ok(FieldChange { close, open: false })
    }
}

proof fn runs_remember(desired: Seq<Option<Seq<char>>>, inherited: Option<Seq<char>>, n: nat)
    requires
        n <= desired.len(),
        runs_after(desired, inherited, n) is Ok,
    ensures
        ({
            let runs = runs_after(desired, inherited, n)->Ok_0;
            &&& runs.open is Some ==> runs.open != inherited && n > 0 && desired[n - 1] == runs.open
            &&& runs.open is None && n > 0 ==> desired[n - 1] is None || desired[n - 1] == inherited
            &&& forall|i: int|
                0 <= i < n && (#[trigger] desired[i]) is Some && desired[i] != inherited
                    ==> desired[i] == runs.open || runs.closed.contains(desired[i]->0)
            &&& forall|i: int, j: int|
                0 <= i <= j < n && (#[trigger] desired[i]) is Some && desired[i] != inherited
                    && desired[i] == runs.open ==> #[trigger] desired[j] == desired[i]
            &&& runs.open is Some ==> !runs.closed.contains(runs.open->0)
        }),
    decreases n,
{
    if n > 0 {
        runs_remember(desired, inherited, (n - 1) as nat);
        let prev = runs_after(desired, inherited, (n - 1) as nat)->Ok_0;
        let next = runs_after(desired, inherited, n)->Ok_0;
        let left = run_left(prev, desired[n - 1]);
        assert forall|i: int|
            0 <= i < n && (#[trigger] desired[i]) is Some && desired[i] != inherited implies desired[i]
            == next.open || next.closed.contains(desired[i]->0) by {
            if i < n - 1 {
                if desired[i] == prev.open {
                    if left.open is None {
                        assert(left.closed.last() == prev.open->0);
                        assert(left.closed.contains(prev.open->0));
                    }
                } else {
                    let k = choose|k: int|
                        0 <= k < prev.closed.len() && prev.closed[k] == desired[i]->0;
                    assert(left.closed[k] == desired[i]->0);
                }
            }
        }
        assert forall|i: int, j: int|
            0 <= i <= j < n && (#[trigger] desired[i]) is Some && desired[i] != inherited
                && desired[i] == next.open implies #[trigger] desired[j] == desired[i] by {
            if i < n - 1 {
                if desired[i] == prev.open {
                    if left.open is None {
                        assert(left.closed.last() == prev.open->0);
                        assert(left.closed.contains(desired[i]->0));
                        assert(false);
                    }
                    if j < n - 1 {
                        assert(desired[j] == desired[i]);
                    }
                } else {
                    let k = choose|k: int|
                        0 <= k < prev.closed.len() && prev.closed[k] == desired[i]->0;
                    assert(left.closed[k] == desired[i]->0);
                    assert(left.closed.contains(desired[i]->0));
                    if left.open is Some {
                        assert(left == prev);
                    }
                    assert(false);
                }
            }
        }
        if next.open is Some && next.closed.contains(next.open->0) {
            assert(left == prev);
        }
    }
}

proof fn runs_prefix_ok(
    desired: Seq<Option<Seq<char>>>,
    inherited: Option<Seq<char>>,
    m: nat,
    n: nat,
)
    requires
        m <= n,
        runs_after(desired, inherited, n) is Ok,
    ensures
        runs_after(desired, inherited, m) is Ok,
    decreases n - m,
{
    if m < n {
        runs_prefix_ok(desired, inherited, m, (n - 1) as nat);
    }
}

proof fn closed_grows(
    desired: Seq<Option<Seq<char>>>,
    inherited: Option<Seq<char>>,
    m: nat,
    n: nat,
    field: Seq<char>,
)
    requires
        m <= n <= desired.len(),
        runs_after(desired, inherited, n) is Ok,
        runs_after(desired, inherited, m) is Ok,
        runs_after(desired, inherited, m)->Ok_0.closed.contains(field),
    ensures
        runs_after(desired, inherited, n)->Ok_0.closed.contains(field),
    decreases n - m,
{
    if m < n {
        runs_prefix_ok(desired, inherited, (n - 1) as nat, n);
        closed_grows(desired, inherited, m, (n - 1) as nat, field);
        let prev = runs_after(desired, inherited, (n - 1) as nat)->Ok_0;
        let next = runs_after(desired, inherited, n)->Ok_0;
        let k = choose|k: int| 0 <= k < prev.closed.len() && prev.closed[k] == field;
        assert(next.closed[k] == field);
    }
}

/// Painting succeeds only where the items of every field that opens here form one unbroken run.
pub proof fn fields_are_contiguous(
    desired: Seq<Option<Seq<char>>>,
    inherited: Option<Seq<char>>,
    i: int,
    j: int,
    k: int,
)
    requires
        runs_after(desired, inherited, desired.len()) is Ok,
        0 <= i <= j <= k < desired.len(),
        desired[i] is Some,
        desired[i] != inherited,
        desired[k] == desired[i],
    ensures
        desired[j] == desired[i],
{
    let field = desired[i]->0;
    runs_prefix_ok(desired, inherited, (j + 1) as nat, desired.len());
    runs_prefix_ok(desired, inherited, (k + 1) as nat, desired.len());
    runs_remember(desired, inherited, (j + 1) as nat);
    runs_remember(desired, inherited, (k + 1) as nat);
    if desired[j] != desired[i] {
        let at_j = runs_after(desired, inherited, (j + 1) as nat)->Ok_0;
        assert(at_j.open != desired[i]) by {
            if at_j.open == desired[i] {
                assert(desired[j] == desired[i]);
            }
        }
        assert(at_j.closed.contains(field));
        closed_grows(desired, inherited, (j + 1) as nat, (k + 1) as nat, field);
        let at_k = runs_after(desired, inherited, (k + 1) as nat)->Ok_0;
        assert(at_k.open == desired[k]) by {
            if at_k.open is None {
                assert(desired[k] is None || desired[k] == inherited);
            }
        }
        assert(false);
    }
}

/// A typeset formula: commands that are already placed.
pub struct FormulaFragment {
    pub commands: Vec<Command>,
}

/// What placing a formula keeps of one of its commands.
pub open spec fn formula_command(c: Command) -> Option<Command> {
    match c {
        Command::GlyphRun { font, glyphs, paint, stroke, .. } => Some(
            Command::GlyphRun { font, glyphs, paint, stroke, source: None },
        ),
        Command::Path { .. } => Some(c),
        _ => None,
    }
}

/// Glyph runs and paths among the first `n` commands; glyphs of a formula have no text source.
pub open spec fn formula_commands(commands: Seq<Command>, n: nat) -> Seq<Command>
    decreases n,
{
    if n == 0 {
        Seq::empty()
    } else {
        let rest = formula_commands(commands, (n - 1) as nat);
        match formula_command(commands[n - 1]) {
            Some(c) => rest.push(c),
            None => rest,
        }
    }
}

pub open spec fn formula_placed(r: Recorded, key: Seq<char>, fragment: FormulaFragment) -> Recorded {
    r.mark_painted(key).put_all(formula_commands(fragment.commands@, fragment.commands@.len()))
}

/// Authored instances of one geometry.
#[derive(Clone, Copy, Debug, PartialEq, Eq, Structural)]
pub struct BatchContent {
    pub geometry: BatchGeometry,
    pub instances: TableRange,
}

#[derive(Clone, Copy, Debug, PartialEq, Eq, Structural)]
pub enum ArrowKind {
    Triangle,
    Open,
}

/// An arrow head. Its path is absent where the stroked path has no tangent there.
#[derive(Clone, Copy, Debug, PartialEq, Eq, Structural)]
pub struct Arrow {
    pub kind: ArrowKind,
    pub path: Option<PathRef>,
    /// Paint of the stroke that carries the arrow.
    pub paint: Paint,
    /// That stroke without its dashes.
    pub undashed: StrokeRef,
}

/// A path node; `path` is absent where it has no verbs.
pub struct PathContent {
    pub path: Option<PathRef>,
    pub fill: Option<Paint>,
    pub stroke: Option<StrokeRef>,
    pub arrow_start: Option<Arrow>,
    pub arrow_end: Option<Arrow>,
}

pub open spec fn arrow_commands(stroke: Option<StrokeRef>, arrow: Option<Arrow>) -> Seq<Command> {
    match (stroke, arrow) {
        (Some(_), Some(a)) => match a.path {
            Some(path) => seq![
                match a.kind {
                    ArrowKind::Triangle => Command::Path {
                        path,
                        fill_rule: FillRule::NonZero,
                        fill: Some(a.paint),
                        stroke: None,
                    },
                    ArrowKind::Open => Command::Path {
                        path,
                        fill_rule: FillRule::NonZero,
                        fill: None,
                        stroke: Some(a.undashed),
                    },
                },
            ],
            None => Seq::empty(),
        },
        _ => Seq::empty(),
    }
}

pub open spec fn path_commands(p: PathContent) -> Seq<Command> {
    match p.path {
        None => Seq::empty(),
        Some(path) => seq![
            Command::Path {
                path,
                fill_rule: FillRule::NonZero,
                fill: p.fill,
                stroke: p.stroke,
            },
        ] + arrow_commands(p.stroke, p.arrow_start) + arrow_commands(p.stroke, p.arrow_end),
    }
}

/// A replaced image of a node.
pub struct ImageContent {
    /// Stable asset identifier.
    pub asset: String,
    pub fit: ObjectFit,
    /// Content box.
    pub dst: Rect,
    /// Padding box and the radii of its clip.
    pub clip: Rect,
    pub radii: Corners,
    /// Image of the asset itself.
    pub image: u32,
    /// Size of the content box in whole pixels, rounded up.
    pub raster_width: u32,
    pub raster_height: u32,
}

/// Content by node key.
pub struct ContentTree {
    pub formulas: Vec<Entry<FormulaFragment>>,
    pub batches: Vec<Entry<BatchContent>>,
    pub paths: Vec<Entry<PathContent>>,
    /// 3D scenes, by node key.
    pub scene3d: Vec<Entry<SceneContent>>,
    /// Sampled video images, by node key.
    pub videos: Vec<Entry<u32>>,
}

/// Where the entry stands whose key, behind a prefix, spells an asset; the number of entries where
/// there is none.
pub open spec fn prefixed_at<V>(
    entries: Seq<Entry<V>>,
    prefix: Seq<char>,
    asset: Seq<char>,
    n: nat,
) -> nat
    decreases n,
{
    if n == 0 {
        0
    } else {
        let before = prefixed_at(entries, prefix, asset, (n - 1) as nat);
        if before < n - 1 {
            before
        } else if prefix + entries[n - 1].key@ == asset {
            (n - 1) as nat
        } else {
            n
        }
    }
}

proof fn prefixed_at_settles<V>(
    entries: Seq<Entry<V>>,
    prefix: Seq<char>,
    asset: Seq<char>,
    m: nat,
    n: nat,
)
    requires
        m < n <= entries.len(),
        prefix + entries[m as int].key@ == asset,
        prefixed_at(entries, prefix, asset, m) == m,
    ensures
        prefixed_at(entries, prefix, asset, n) == m,
    decreases n - m,
{
    if m + 1 < n {
        prefixed_at_settles(entries, prefix, asset, m, (n - 1) as nat);
    }
}

fn find_prefixed<V>(entries: &Vec<Entry<V>>, prefix: &str, asset: &str) -> (r: usize)
    ensures
        r == prefixed_at(entries@, prefix@, asset@, entries@.len()),
        r <= entries@.len(),
{
    let mut i: usize = 0;
    while i < entries.len()
        invariant
            i <= entries@.len(),
            prefixed_at(entries@, prefix@, asset@, i as nat) == i,
        decreases entries@.len() - i,
    {
        let whole = joined(prefix.to_owned(), entries[i].key.as_str());
        if same_text(whole.as_str(), asset) {
            proof {
                prefixed_at_settles(entries@, prefix@, asset@, i as nat, entries@.len());
            }
            return i;
        }
        i = i + 1;
    }
    i
}

fn starts_with(text: &str, prefix: &str) -> (r: bool)
    ensures
        r == prefix@.is_prefix_of(text@),
{
    let a = crate::text::characters(prefix);
    let b = crate::text::characters(text);
    if a.len() > b.len() {
        return false;
    }
    let mut i: usize = 0;
    while i < a.len()
        invariant
            a@ == prefix@,
            b@ == text@,
            i <= a@.len() <= b@.len(),
            forall|k: int| 0 <= k < i ==> a@[k] == b@[k],
        decreases a@.len() - i,
    {
        if a[i] != b[i] {
            assert(a@[i as int] != b@.subrange(0, a@.len() as int)[i as int]);
            return false;
        }
        i = i + 1;
    }
    assert(a@ =~= b@.subrange(0, a@.len() as int));
    true
}

/// Whether a fit can paint outside its box.
pub open spec fn overflows(fit: ObjectFit) -> bool {
    fit == ObjectFit::Cover || fit == ObjectFit::Natural
}

/// Commands of an image that fills a non-empty box: replaced content is clipped to the rounded
/// padding box, or to the content box where its fit can overflow.
pub open spec fn image_commands(c: ImageContent, clipped_fit: bool, draw: Command) -> Seq<Command> {
    if rounded(c.radii) {
        seq![
            Command::BeginClipRoundRect { rect: c.clip, radii: c.radii },
            draw,
            Command::End,
        ]
    } else if clipped_fit {
        seq![Command::BeginClipRect { rect: c.dst }, draw, Command::End]
    } else {
        seq![draw]
    }
}

pub open spec fn image_painted(
    r: Recorded,
    label: Seq<char>,
    key: Option<Seq<char>>,
    t: ContentTree,
    c: ImageContent,
) -> Recorded {
    let scene = prefixed_at(t.scene3d@, "generated://scene3d/"@, c.asset@, t.scene3d@.len());
    let formula = prefixed_at(t.formulas@, "generated://formula/"@, c.asset@, t.formulas@.len());
    let video = match key {
        Some(k) => find(t.videos@, k),
        None => None,
    };
    if "generated://formula/"@.is_prefix_of(c.asset@) {
        if formula < t.formulas@.len() {
            formula_placed(r, t.formulas@[formula as int].key@, t.formulas@[formula as int].value)
        } else {
            r.note(label, "formula fragment missing"@)
        }
    } else if scene < t.scene3d@.len() && c.fit != ObjectFit::Fill {
        r.note(
            label,
            "Scene3D generated textures require object-fit: fill; raster dimensions already match the content box"@,
        )
    } else if !(num(ZERO).lt_spec(c.dst.width) && num(ZERO).lt_spec(c.dst.height)) {
        r
    } else if scene < t.scene3d@.len() {
        r.rasterized(
            raster_at(t.scene3d@[scene as int].value, c.raster_width, c.raster_height),
        ).put_all(
            image_commands(
                c,
                false,
                Command::Texture { texture: r.rasters.len() as usize, dst: c.dst },
            ),
        )
    } else {
        r.put_all(
            image_commands(
                c,
                overflows(c.fit),
                Command::Image {
                    image: match video {
                        Some(v) => v,
                        None => c.image,
                    },
                    dst: c.dst,
                    fit: c.fit,
                },
            ),
        )
    }
}

/// Whether painting goes on with the node's text.
#[derive(Clone, Copy, Debug, PartialEq, Eq, Structural)]
pub enum ContentStep {
    Done,
    Text,
}

/// What a node shows inside its groups: a formula, a batch, a path, an image, or text, in that
/// order of precedence.
pub open spec fn content_painted(
    r: Recorded,
    tree: PaintTree,
    np: NodePaint,
    t: ContentTree,
    image: Option<ImageContent>,
    has_text: bool,
) -> (Recorded, ContentStep) {
    let key = tree.layout_key(np);
    let formula = match tree.any_key(np) {
        Some(k) => find(t.formulas@, k),
        None => None,
    };
    let batch = match key {
        Some(k) => find(t.batches@, k),
        None => None,
    };
    let path = match key {
        Some(k) => find(t.paths@, k),
        None => None,
    };
    if crate::frame::is_skipped(np) {
        (r, ContentStep::Done)
    } else if formula is Some {
        (formula_placed(r, tree.any_key(np)->0, formula->0), ContentStep::Done)
    } else if batch is Some {
        if batch->0.instances.start == batch->0.instances.end {
            (r, ContentStep::Done)
        } else {
            (
                r.put(
                    Command::GeometryBatch {
                        geometry: batch->0.geometry,
                        instances: batch->0.instances,
                    },
                ),
                ContentStep::Done,
            )
        }
    } else if path is Some {
        (r.put_all(path_commands(path->0)), ContentStep::Done)
    } else if image is Some {
        (image_painted(r, tree.label(np), key, t, image->0), ContentStep::Done)
    } else if has_text {
        (r, ContentStep::Text)
    } else {
        (r, ContentStep::Done)
    }
}

impl Emitter {
    /// Records a placed formula.
    pub fn blit_formula(&mut self, key: &str, fragment: &FormulaFragment)
        ensures
            final(self)@ == formula_placed(old(self)@, key@, *fragment),
            grew(old(self)@, final(self)@, 0),
    {
        self.mark_painted(key);
        let ghost marked = self@;
        let n: usize = fragment.commands.len();
        let mut i: usize = 0;
        proof {
            grew_nothing(old(self)@, self@);
            assert(marked.commands + Seq::<Command>::empty() =~= marked.commands);
        }
        while i < n
            invariant
                n == fragment.commands@.len(),
                i <= n,
                self@ == marked.put_all(formula_commands(fragment.commands@, i as nat)),
                grew(old(self)@, self@, 0),
            decreases n - i,
        {
            let ghost before = self@;
            let kept: Option<Command> = match fragment.commands[i] {
                Command::GlyphRun { font, glyphs, paint, stroke, source: _ } => Some(
                    Command::GlyphRun { font, glyphs, paint, stroke, source: None },
                ),
                Command::Path { path, fill_rule, fill, stroke } => Some(
                    Command::Path { path, fill_rule, fill, stroke },
                ),
                _ => None,
            };
            assert(kept == formula_command(fragment.commands@[i as int]));
            match kept {
                Some(c) => {
                    self.push(c);
                    proof {
                        grew_one(before, self@, c);
                        grew_more(old(self)@, before, self@, 0, 0);
                        assert(self@.commands =~= marked.commands + formula_commands(
                            fragment.commands@,
                            (i + 1) as nat,
                        ));
                    }
                },
                None => {},
            }
            i = i + 1;
        }
    }

    fn push_arrow(&mut self, stroke: Option<StrokeRef>, arrow: Option<Arrow>)
        ensures
            final(self)@ == old(self)@.put_all(arrow_commands(stroke, arrow)),
            grew(old(self)@, final(self)@, 0),
    {
        proof {
            grew_nothing(old(self)@, self@);
            assert(self@.commands + Seq::<Command>::empty() =~= self@.commands);
        }
        match (stroke, arrow) {
            (Some(_), Some(a)) => {
                match a.path {
                    Some(path) => {
                        let c = match a.kind {
                            ArrowKind::Triangle => Command::Path {
                                path,
                                fill_rule: FillRule::NonZero,
                                fill: Some(a.paint),
                                stroke: None,
                            },
                            ArrowKind::Open => Command::Path {
                                path,
                                fill_rule: FillRule::NonZero,
                                fill: None,
                                stroke: Some(a.undashed),
                            },
                        };
                        self.push(c);
                        proof {
                            grew_one(old(self)@, self@, c);
                            assert(self@.commands =~= old(self)@.commands + arrow_commands(
                                stroke,
                                arrow,
                            ));
                        }
                    },
                    None => {},
                }
            },
            _ => {},
        }
    }

    fn paint_path(&mut self, p: &PathContent)
        ensures
            final(self)@ == old(self)@.put_all(path_commands(*p)),
            grew(old(self)@, final(self)@, 0),
    {
        proof {
            grew_nothing(old(self)@, self@);
            assert(self@.commands + Seq::<Command>::empty() =~= self@.commands);
        }
        match p.path {
            None => {},
            Some(path) => {
                let c = Command::Path {
                    path,
                    fill_rule: FillRule::NonZero,
                    fill: p.fill,
                    stroke: p.stroke,
                };
                self.push(c);
                let ghost r1 = self@;
                self.push_arrow(p.stroke, p.arrow_start);
                let ghost r2 = self@;
                self.push_arrow(p.stroke, p.arrow_end);
                proof {
                    grew_one(old(self)@, r1, c);
                    grew_more(old(self)@, r1, r2, 0, 0);
                    grew_more(old(self)@, r2, self@, 0, 0);
                    assert(self@.commands =~= old(self)@.commands + path_commands(*p));
                }
            },
        }
    }

    fn paint_clipped(&mut self, c: &ImageContent, clipped_fit: bool, draw: Command)
        requires
            draw != Command::End,
            !draw.opens(),
        ensures
            final(self)@ == old(self)@.put_all(image_commands(*c, clipped_fit, draw)),
            grew(old(self)@, final(self)@, 0),
    {
        let round = is_rounded(&c.radii);
        if round || clipped_fit {
            let clip = if round {
                Command::BeginClipRoundRect { rect: c.clip, radii: c.radii }
            } else {
                Command::BeginClipRect { rect: c.dst }
            };
            self.push(clip);
            let ghost r1 = self@;
            self.push(draw);
            let ghost r2 = self@;
            self.push(Command::End);
            proof {
                grew_one(old(self)@, r1, clip);
                grew_one(r1, r2, draw);
                grew_more(old(self)@, r1, r2, 1, 0);
                close_one(old(self)@, r2, self@);
            }
        } else {
            self.push(draw);
            proof {
                grew_one(old(self)@, self@, draw);
            }
        }
        assert(self@.commands =~= old(self)@.commands + image_commands(*c, clipped_fit, draw));
    }

    fn paint_image(
        &mut self,
        label: &str,
        key: &Option<String>,
        t: &ContentTree,
        c: &ImageContent,
    )
        ensures
            final(self)@ == image_painted(
                old(self)@,
                label@,
                crate::frame::option_text(*key),
                *t,
                *c,
            ),
            grew(old(self)@, final(self)@, 0),
    {
        proof {
            grew_nothing(old(self)@, self@);
        }
        if starts_with(c.asset.as_str(), "generated://formula/") {
            let at: usize = find_prefixed(
                &t.formulas,
                "generated://formula/",
                c.asset.as_str(),
            );
            if at < t.formulas.len() {
                self.blit_formula(t.formulas[at].key.as_str(), &t.formulas[at].value);
            } else {
                self.unsupported(label, "formula fragment missing");
                proof {
                    grew_nothing(old(self)@, self@);
                }
            }
            return ;
        }
        let scene: usize = find_prefixed(&t.scene3d, "generated://scene3d/", c.asset.as_str());
        let is_scene: bool = scene < t.scene3d.len();
        if is_scene && c.fit != ObjectFit::Fill {
            self.unsupported(
                label,
                "Scene3D generated textures require object-fit: fill; raster dimensions already match the content box",
            );
            proof {
                grew_nothing(old(self)@, self@);
            }
            return ;
        }
        let zero = Scalar::from_bits(ZERO);
        if !(zero.lt(c.dst.width) && zero.lt(c.dst.height)) {
            return ;
        }
        if is_scene {
            let raster = t.scene3d[scene].value.raster(c.raster_width, c.raster_height);
            let texture: usize = self.rasterize(raster);
            let ghost listed = self@;
            self.paint_clipped(c, false, Command::Texture { texture, dst: c.dst });
            proof {
                grew_nothing(old(self)@, listed);
                grew_more(old(self)@, listed, self@, 0, 0);
            }
        } else {
            let mut image: u32 = c.image;
            match key {
                Some(k) => {
                    match lookup(&t.videos, k.as_str()) {
                        Some(v) => {
                            image = *v;
                        },
                        None => {},
                    }
                },
                None => {},
            }
            let over: bool = c.fit == ObjectFit::Cover || c.fit == ObjectFit::Natural;
            self.paint_clipped(c, over, Command::Image { image, dst: c.dst, fit: c.fit });
        }
    }

    /// Paints the content of a node inside its open groups. Text is left to the caller.
    pub fn node_content(
        &mut self,
        tree: &PaintTree,
        np: &NodePaint,
        t: &ContentTree,
        image: &Option<ImageContent>,
        has_text: bool,
    ) -> (r: ContentStep)
        ensures
            (final(self)@, r) == content_painted(old(self)@, *tree, *np, *t, *image, has_text),
            grew(old(self)@, final(self)@, 0),
    {
        proof {
            grew_nothing(old(self)@, self@);
        }
        if !np.facts.laid_out || np.facts.invisible {
            return ContentStep::Done;
        }
        match tree.node_key(np) {
            Some(k) => {
                match lookup(&t.formulas, k.as_str()) {
                    Some(fragment) => {
                        self.blit_formula(k.as_str(), fragment);
                        return ContentStep::Done;
                    },
                    None => {},
                }
            },
            None => {},
        }
        let key = tree.key_of(np);
        match &key {
            Some(k) => {
                match lookup(&t.batches, k.as_str()) {
                    Some(batch) => {
                        if batch.instances.start != batch.instances.end {
                            let c = Command::GeometryBatch {
                                geometry: batch.geometry,
                                instances: batch.instances,
                            };
                            self.push(c);
                            proof {
                                grew_one(old(self)@, self@, c);
                            }
                        }
                        return ContentStep::Done;
                    },
                    None => {},
                }
                match lookup(&t.paths, k.as_str()) {
                    Some(p) => {
                        self.paint_path(p);
                        return ContentStep::Done;
                    },
                    None => {},
                }
            },
            None => {},
        }
        match image {
            Some(c) => {
                let label = tree.node_label(np);
                self.paint_image(label.as_str(), &key, t, c);
                return ContentStep::Done;
            },
            None => {},
        }
        if has_text {
            ContentStep::Text
        } else {
            ContentStep::Done
        }
    }
}

/// A render node in pre-order: its parent stands before it.
pub struct RenderEntry {
    pub parent: Option<usize>,
    pub invisible: bool,
    pub key: Option<String>,
}

/// Whether a render node or one of its ancestors is invisible.
pub open spec fn concealed(nodes: Seq<RenderEntry>, at: int) -> bool
    decreases at,
{
    if at < 0 || at >= nodes.len() {
        false
    } else {
        nodes[at].invisible || (match nodes[at].parent {
            Some(p) => p < at && concealed(nodes, p as int),
            None => false,
        })
    }
}

/// The formulas accounted for once the first `n` render nodes were looked at: those of concealed
/// nodes count as painted.
pub open spec fn concealed_marked(
    r: Recorded,
    nodes: Seq<RenderEntry>,
    formulas: Seq<Entry<FormulaFragment>>,
    n: nat,
) -> Recorded
    decreases n,
{
    if n == 0 {
        r
    } else {
        let before = concealed_marked(r, nodes, formulas, (n - 1) as nat);
        match nodes[n - 1].key {
            Some(k) => if concealed(nodes, n - 1) && find(formulas, k@) is Some {
                before.mark_painted(k@)
            } else {
                before
            },
            None => before,
        }
    }
}

/// Every formula among the first `n` that was neither painted nor concealed is reported.
pub open spec fn unplaced_reported(
    r: Recorded,
    formulas: Seq<Entry<FormulaFragment>>,
    n: nat,
) -> Recorded
    decreases n,
{
    if n == 0 {
        r
    } else {
        let before = unplaced_reported(r, formulas, (n - 1) as nat);
        if r.painted.contains(formulas[n - 1].key@) {
            before
        } else {
            Recorded {
                notes: before.notes.push(
                    (
                        formulas[n - 1].key@,
                        "formula fragment not placed by Takumi replaced leaf"@,
                    ),
                ),
                ..before
            }
        }
    }
}

impl Emitter {
    /// Accounts for formulas whose nodes are hidden on purpose.
    pub fn account_invisible_formulas(
        &mut self,
        nodes: &Vec<RenderEntry>,
        formulas: &Vec<Entry<FormulaFragment>>,
    )
        ensures
            final(self)@ == concealed_marked(old(self)@, nodes@, formulas@, nodes@.len()),
    {
        let mut hidden: Vec<bool> = Vec::new();
        let mut i: usize = 0;
        while i < nodes.len()
            invariant
                i <= nodes@.len(),
                hidden@.len() == i,
                forall|k: int| 0 <= k < i ==> #[trigger] hidden@[k] == concealed(nodes@, k),
                self@ == concealed_marked(old(self)@, nodes@, formulas@, i as nat),
            decreases nodes@.len() - i,
        {
            let above: bool = match nodes[i].parent {
                Some(p) => p < i && hidden[p],
                None => false,
            };
            let here: bool = nodes[i].invisible || above;
            assert(here == concealed(nodes@, i as int));
            hidden.push(here);
            match &nodes[i].key {
                Some(k) => {
                    if here {
                        match lookup(formulas, k.as_str()) {
                            Some(_) => {
                                self.mark_painted(k.as_str());
                            },
                            None => {},
                        }
                    }
                },
                None => {},
            }
            i = i + 1;
        }
    }

    /// Reports every formula that was never placed.
    pub fn report_unplaced_formulas(&mut self, formulas: &Vec<Entry<FormulaFragment>>)
        ensures
            final(self)@ == unplaced_reported(old(self)@, formulas@, formulas@.len()),
    {
        let mut i: usize = 0;
        while i < formulas.len()
            invariant
                i <= formulas@.len(),
                self@ == unplaced_reported(old(self)@, formulas@, i as nat),
                self@.painted == old(self)@.painted,
            decreases formulas@.len() - i,
        {
            let ghost before = self@;
            if !self.is_painted(formulas[i].key.as_str()) {
                let ghost notes = self.notes@;
                self.notes.push(
                    Note {
                        node: formulas[i].key.clone(),
                        what: "formula fragment not placed by Takumi replaced leaf",
                    },
                );
                assert(crate::emitter::note_texts(self.notes@) =~= crate::emitter::note_texts(
                    notes,
                ).push(
                    (
                        formulas@[i as int].key@,
                        "formula fragment not placed by Takumi replaced leaf"@,
                    ),
                ));
            }
            i = i + 1;
        }
    }
}

} // verus!
