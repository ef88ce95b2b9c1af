//! The state of one frame's recording and the bookkeeping that every paint step shares.

use vstd::prelude::*;

use crate::recording::{
    depth_of, ends, opening, opening_append, Affine, Command, FilterOp, TableRange,
};
use crate::scene_frames::{rasters_of, Raster, SceneRaster};
use crate::table::same_text;
use crate::text::{decimal, joined, numeral};

verus! {

/// Emission failure. Inconsistent layout or scene state is rejected rather than recorded.
#[derive(Debug)]
pub enum EmitError {
    /// Root layout results are unavailable.
    RootLayout(String),
    /// Stacking-context construction failed.
    Scene(String),
    /// A per-node paint extra could not be resolved against the layout context.
    BadStyle { node: String, reason: String },
    Program(String),
}

impl EmitError {
    pub open spec fn text(self) -> Seq<char> {
        match self {
            EmitError::RootLayout(m) => "root layout unavailable: "@ + m@,
            EmitError::Scene(m) => "stacking contexts failed: "@ + m@,
            EmitError::BadStyle { node, reason } => "node `"@ + node@ + "`: "@ + reason@,
            EmitError::Program(reason) => "DrawProgram emission failed: "@ + reason@,
        }
    }

    /// The error as a sentence.
    pub fn message(&self) -> (r: String)
        ensures
            r@ == self.text(),
    {
        match self {
            EmitError::RootLayout(m) => joined("root layout unavailable: ".to_owned(), m.as_str()),
            EmitError::Scene(m) => joined("stacking contexts failed: ".to_owned(), m.as_str()),
            EmitError::BadStyle { node, reason } => joined(
                joined(joined("node `".to_owned(), node.as_str()), "`: "),
                reason.as_str(),
            ),
            EmitError::Program(reason) => joined(
                "DrawProgram emission failed: ".to_owned(),
                reason.as_str(),
            ),
        }
    }
}

/// A feature that could not be drawn, and the node it was declared on.
#[derive(Debug)]
pub struct Note {
    pub node: String,
    pub what: &'static str,
}

/// Everything that painting a frame accumulates.
pub struct Recorded {
    pub commands: Seq<Command>,
    pub filters: Seq<FilterOp>,
    pub notes: Seq<(Seq<char>, Seq<char>)>,
    /// Material owners that enclose the recording cursor.
    pub materials: Seq<Seq<char>>,
    /// Keys of the formulas that were placed.
    pub painted: Seq<Seq<char>>,
    /// The 3D scenes that were painted, in painting order.
    pub rasters: Seq<Raster>,
    /// Absolute transform of the recording cursor.
    pub cur: Affine,
    /// Procedural grain instances recorded so far.
    pub grain: nat,
}

/// The recording of one frame.
pub struct Emitter {
    pub commands: Vec<Command>,
    pub filters: Vec<FilterOp>,
    pub notes: Vec<Note>,
    pub materials: Vec<String>,
    pub painted: Vec<String>,
    pub rasters: Vec<SceneRaster>,
    pub cur: Affine,
    pub grain: usize,
}

pub open spec fn texts(v: Seq<String>) -> Seq<Seq<char>> {
    v.map_values(|s: String| s@)
}

pub open spec fn note_texts(v: Seq<Note>) -> Seq<(Seq<char>, Seq<char>)> {
    v.map_values(|n: Note| (n.node@, n.what@))
}

impl View for Emitter {
    type V = Recorded;

    open spec fn view(&self) -> Recorded {
        Recorded {
            commands: self.commands@,
            filters: self.filters@,
            notes: note_texts(self.notes@),
            materials: texts(self.materials@),
            painted: texts(self.painted@),
            rasters: rasters_of(self.rasters@),
            cur: self.cur,
            grain: self.grain as nat,
        }
    }
}

/// Open groups of a node: how many to close, and what to restore.
#[derive(Clone, Copy, Debug)]
pub struct Open {
    pub depth: usize,
    pub prev: Affine,
    pub materials: usize,
    /// A culled plane suppresses its complete stacking context.
    pub hidden: bool,
}

impl Recorded {
    pub open spec fn put(self, c: Command) -> Recorded {
        Recorded { commands: self.commands.push(c), ..self }
    }

    pub open spec fn put_all(self, c: Seq<Command>) -> Recorded {
        Recorded { commands: self.commands + c, ..self }
    }

    /// A report is kept once per node and feature.
    pub open spec fn note(self, node: Seq<char>, what: Seq<char>) -> Recorded {
        if self.notes.contains((node, what)) {
            self
        } else {
            Recorded { notes: self.notes.push((node, what)), ..self }
        }
    }

    pub open spec fn intern_filters(self, ops: Seq<FilterOp>) -> Recorded {
        Recorded { filters: self.filters + ops, ..self }
    }

    /// Where `ops` stand once they are interned.
    pub open spec fn filter_range(self, ops: Seq<FilterOp>) -> TableRange {
        TableRange {
            start: self.filters.len() as usize,
            end: (self.filters.len() + ops.len()) as usize,
        }
    }

    pub open spec fn mark_painted(self, key: Seq<char>) -> Recorded {
        if self.painted.contains(key) {
            self
        } else {
            Recorded { painted: self.painted.push(key), ..self }
        }
    }

    pub open spec fn rasterized(self, raster: Raster) -> Recorded {
        Recorded { rasters: self.rasters.push(raster), ..self }
    }

    /// The state after closing what `open` opened.
    pub open spec fn closed(self, open: Open) -> Recorded {
        Recorded {
            commands: self.commands + ends(open.depth as nat),
            materials: self.materials.take(open.materials as int),
            cur: open.prev,
            ..self
        }
    }

    /// What `open` reads of a state with nothing opened yet.
    pub open spec fn nothing_open(self) -> Open {
        Open {
            depth: 0,
            prev: self.cur,
            materials: self.materials.len() as usize,
            hidden: false,
        }
    }
}

/// Whether `b` continues `a` by commands that never close a group of `a` and leave `d` groups open.
pub open spec fn grew(a: Recorded, b: Recorded, d: int) -> bool {
    &&& a.commands.is_prefix_of(b.commands)
    &&& opening(b.commands.skip(a.commands.len() as int))
    &&& depth_of(b.commands.skip(a.commands.len() as int)) == d
}

pub proof fn grew_nothing(a: Recorded, b: Recorded)
    requires
        a.commands == b.commands,
    ensures
        grew(a, b, 0),
{
    assert(a.commands.subrange(0, a.commands.len() as int) =~= a.commands);
    assert(b.commands.skip(a.commands.len() as int) =~= Seq::<Command>::empty());
    crate::recording::empty_is_balanced();
}

pub proof fn grew_by(a: Recorded, b: Recorded, more: Seq<Command>)
    requires
        b.commands == a.commands + more,
        opening(more),
    ensures
        grew(a, b, depth_of(more)),
{
    assert(b.commands.subrange(0, a.commands.len() as int) =~= a.commands);
    assert(b.commands.skip(a.commands.len() as int) =~= more);
}

pub proof fn grew_one(a: Recorded, b: Recorded, c: Command)
    requires
        b.commands == a.commands.push(c),
        c != Command::End,
    ensures
        grew(a, b, c.step()),
{
    assert(b.commands =~= a.commands + seq![c]);
    crate::recording::single_command(c);
    grew_by(a, b, seq![c]);
}

pub proof fn grew_more(a: Recorded, b: Recorded, c: Recorded, d: int, e: int)
    requires
        grew(a, b, d),
        grew(b, c, e),
    ensures
        grew(a, c, d + e),
{
    let x = b.commands.skip(a.commands.len() as int);
    let y = c.commands.skip(b.commands.len() as int);
    assert(b.commands =~= a.commands + x);
    assert(c.commands =~= b.commands + y);
    assert(c.commands =~= a.commands + (x + y));
    opening_append(x, y);
    grew_by(a, c, x + y);
}

/// Closing exactly the groups that were opened leaves a balanced addition.
pub proof fn closing_balances(a: Recorded, b: Recorded, open: Open)
    requires
        grew(a, b, open.depth as int),
    ensures
        grew(a, b.closed(open), 0),
{
    let x = b.commands.skip(a.commands.len() as int);
    assert(b.commands =~= a.commands + x);
    crate::recording::empty_is_balanced();
    crate::recording::wrapping_is_balanced(x, Seq::<Command>::empty(), open.depth as nat);
    assert(x + Seq::<Command>::empty() =~= x);
    assert(b.closed(open).commands =~= a.commands + (x + ends(open.depth as nat)));
    grew_by(a, b.closed(open), x + ends(open.depth as nat));
}

impl Emitter {
    pub fn new(cur: Affine) -> (r: Emitter)
        ensures
            r@.commands == Seq::<Command>::empty(),
            r@.filters == Seq::<FilterOp>::empty(),
            r@.notes == Seq::<(Seq<char>, Seq<char>)>::empty(),
            r@.materials == Seq::<Seq<char>>::empty(),
            r@.painted == Seq::<Seq<char>>::empty(),
            r@.rasters == Seq::<Raster>::empty(),
            r@.cur == cur,
            r@.grain == 0,
    {
        Emitter {
            commands: Vec::new(),
            filters: Vec::new(),
            notes: Vec::new(),
            materials: Vec::new(),
            painted: Vec::new(),
            rasters: Vec::new(),
            cur,
            grain: 0,
        }
    }

    pub fn push(&mut self, c: Command)
        ensures
            final(self)@ == old(self)@.put(c),
    {
        self.commands.push(c);
    }

    /// Lists a painted 3D scene and returns its place in the list.
    pub fn rasterize(&mut self, raster: SceneRaster) -> (r: usize)
        ensures
            final(self)@ == old(self)@.rasterized(raster@),
            r == old(self)@.rasters.len(),
    {
        let at: usize = self.rasters.len();
        self.rasters.push(raster);
        assert(rasters_of(self.rasters@) =~= rasters_of(old(self).rasters@).push(raster@));
        at
    }

    /// Reports an undrawn feature once per node.
    pub fn unsupported(&mut self, node: &str, what: &'static str)
        ensures
            final(self)@ == old(self)@.note(node@, what@),
    {
        let ghost all = note_texts(self.notes@);
        let mut i: usize = 0;
        while i < self.notes.len()
            invariant
                i <= self.notes@.len(),
                *self == *old(self),
                all == note_texts(self.notes@),
                forall|k: int| 0 <= k < i ==> #[trigger] all[k] != (node@, what@),
            decreases self.notes@.len() - i,
        {
            if same_text(self.notes[i].node.as_str(), node) && same_text(self.notes[i].what, what) {
                assert(all[i as int] == (node@, what@));
                return ;
            }
            i = i + 1;
        }
        assert(!all.contains((node@, what@)));
        self.notes.push(Note { node: node.to_owned(), what });
        assert(note_texts(self.notes@) =~= all.push((node@, what@)));
    }

    /// Appends filter steps to the filter table and returns where they stand.
    pub fn intern_filters(&mut self, ops: &Vec<FilterOp>) -> (r: TableRange)
        ensures
            final(self)@ == old(self)@.intern_filters(ops@),
            r == old(self)@.filter_range(ops@),
    {
        let start: usize = self.filters.len();
        let mut i: usize = 0;
        while i < ops.len()
            invariant
                i <= ops@.len(),
                self.filters@ == old(self).filters@ + ops@.take(i as int),
                self.commands == old(self).commands,
                self.notes == old(self).notes,
                self.materials == old(self).materials,
                self.painted == old(self).painted,
                self.rasters == old(self).rasters,
                self.cur == old(self).cur,
                self.grain == old(self).grain,
            decreases ops@.len() - i,
        {
            self.filters.push(ops[i]);
            i = i + 1;
            assert(self.filters@ =~= old(self).filters@ + ops@.take(i as int));
        }
        assert(ops@.take(ops@.len() as int) =~= ops@);
        TableRange { start, end: self.filters.len() }
    }

    /// Remembers that a formula was placed.
    pub fn mark_painted(&mut self, key: &str)
        ensures
            final(self)@ == old(self)@.mark_painted(key@),
    {
        let ghost all = texts(self.painted@);
        let mut i: usize = 0;
        while i < self.painted.len()
            invariant
                i <= self.painted@.len(),
                *self == *old(self),
                all == texts(self.painted@),
                forall|k: int| 0 <= k < i ==> #[trigger] all[k] != key@,
            decreases self.painted@.len() - i,
        {
            if same_text(self.painted[i].as_str(), key) {
                assert(all[i as int] == key@);
                return ;
            }
            i = i + 1;
        }
        assert(!all.contains(key@));
        self.painted.push(key.to_owned());
        assert(texts(self.painted@) =~= all.push(key@));
    }

    pub fn is_painted(&self, key: &str) -> (r: bool)
        ensures
            r == self@.painted.contains(key@),
    {
        let mut i: usize = 0;
        while i < self.painted.len()
            invariant
                i <= self.painted@.len(),
                forall|k: int| 0 <= k < i ==> #[trigger] self@.painted[k] != key@,
            decreases self.painted@.len() - i,
        {
            if same_text(self.painted[i].as_str(), key) {
                assert(self@.painted[i as int] == key@);
                return true;
            }
            i = i + 1;
        }
        false
    }

    pub fn nothing_open(&self) -> (r: Open)
        ensures
            r == self@.nothing_open(),
            r.materials == self@.materials.len(),
    {
        Open { depth: 0, prev: self.cur, materials: self.materials.len(), hidden: false }
    }

    /// Closes the groups of a node and restores the cursor and the material stack.
    pub fn end(&mut self, open: Open)
        requires
            open.materials <= old(self)@.materials.len(),
        ensures
            final(self)@ == old(self)@.closed(open),
    {
        let mut i: usize = 0;
        while i < open.depth
            invariant
                i <= open.depth,
                self.commands@ == old(self).commands@ + ends(i as nat),
                self.filters == old(self).filters,
                self.notes == old(self).notes,
                self.materials == old(self).materials,
                self.painted == old(self).painted,
                self.rasters == old(self).rasters,
                self.grain == old(self).grain,
            decreases open.depth - i,
        {
            self.commands.push(Command::End);
            i = i + 1;
            assert(self.commands@ =~= old(self).commands@ + ends(i as nat));
        }
        self.materials.truncate(open.materials);
        self.cur = open.prev;
        assert(texts(self.materials@) =~= texts(old(self).materials@).take(open.materials as int));
    }
}

/// A render path in list notation, as in `[0, 2]`.
pub open spec fn path_text(path: Seq<usize>, n: nat) -> Seq<char>
    decreases n,
{
    if n == 0 {
        Seq::empty()
    } else if n == 1 {
        numeral(path[0] as nat)
    } else {
        path_text(path, (n - 1) as nat) + ", "@ + numeral(path[n - 1] as nat)
    }
}

pub fn path_label(path: &Vec<usize>) -> (r: String)
    ensures
        r@ == "["@ + path_text(path@, path@.len()) + "]"@,
{
    let mut out = "[".to_owned();
    let mut i: usize = 0;
    while i < path.len()
        invariant
            i <= path@.len(),
            out@ == "["@ + path_text(path@, i as nat),
        decreases path@.len() - i,
    {
        let ghost before = out@;
        if i > 0 {
            out = joined(out, ", ");
        }
        let number = decimal(path[i] as u64);
        out = joined(out, number.as_str());
        i = i + 1;
        assert(out@ =~= "["@ + path_text(path@, i as nat));
    }
    joined(out, "]")
}

} // verus!
