//! Content digests and font identities.

use sha2::Digest;
use vstd::prelude::*;
use vstd::string::*;

use crate::scalar::Scalar;
use crate::text::{decimal, joined, numeral};

verus! {

/// The SHA-256 digest of a byte string.
pub uninterp spec fn sha256_of(data: Seq<u8>) -> Seq<u8>;

/// `sha2::Sha256::digest`: 32 bytes that depend on the input alone.
#[verifier::external_body]
fn sha256(data: &[u8]) -> (r: [u8; 32])
    ensures
        r@ == sha256_of(data@),
{
    sha2::Sha256::digest(data).into()
}

/// The identity of immutable content.
#[derive(Clone, Copy, Debug, PartialEq, Eq)]
pub struct ContentDigest {
    pub bytes: [u8; 32],
}

/// The lower-case hexadecimal digit of a nibble.
pub open spec fn hex_digit(n: int) -> char {
    if n == 10 { 'a' } else if n == 11 { 'b' } else if n == 12 { 'c' } else if n == 13 { 'd' }
    else if n == 14 { 'e' } else if n == 15 { 'f' } else { crate::text::digit(n as nat) }
}

/// The first `n` bytes in hexadecimal.
pub open spec fn hex(bytes: Seq<u8>, n: nat) -> Seq<char>
    decreases n,
{
    if n == 0 {
        Seq::empty()
    } else {
        hex(bytes, (n - 1) as nat).push(hex_digit(bytes[n - 1] as int / 16)).push(
            hex_digit(bytes[n - 1] as int % 16),
        )
    }
}

fn nibble(n: u8) -> (r: String)
    requires
        n < 16,
    ensures
        r@ == seq![hex_digit(n as int)],
{
    proof {
        reveal_strlit("a");
        reveal_strlit("b");
        reveal_strlit("c");
        reveal_strlit("d");
        reveal_strlit("e");
        reveal_strlit("f");
        assert("a"@ =~= seq!['a']);
        assert("b"@ =~= seq!['b']);
        assert("c"@ =~= seq!['c']);
        assert("d"@ =~= seq!['d']);
        assert("e"@ =~= seq!['e']);
        assert("f"@ =~= seq!['f']);
    }
    match n {
        10 => "a".to_owned(),
        11 => "b".to_owned(),
        12 => "c".to_owned(),
        13 => "d".to_owned(),
        14 => "e".to_owned(),
        15 => "f".to_owned(),
        _ => decimal(n as u64),
    }
}

impl ContentDigest {
    pub fn from_bytes(bytes: [u8; 32]) -> (r: ContentDigest)
        ensures
            r.bytes == bytes,
    {
        ContentDigest { bytes }
    }

    /// The SHA-256 digest of some content.
    pub fn of_bytes(data: &[u8]) -> (r: ContentDigest)
        ensures
            r.bytes@ == sha256_of(data@),
    {
        ContentDigest { bytes: sha256(data) }
    }

    /// The digest in lower-case hexadecimal.
    pub fn as_hex(&self) -> (r: String)
        ensures
            r@ == hex(self.bytes@, 32),
    {
        let mut out = String::new();
        let mut i: usize = 0;
        while i < 32
            invariant
                i <= 32,
                out@ == hex(self.bytes@, i as nat),
            decreases 32 - i,
        {
            let ghost before = out@;
            let byte: u8 = self.bytes[i];
            let high = nibble(byte / 16);
            let low = nibble(byte % 16);
            out.append(high.as_str());
            out.append(low.as_str());
            i = i + 1;
            assert(out@ =~= hex(self.bytes@, i as nat));
        }
        out
    }
}

/// Two nibbles per byte.
pub proof fn hex_len(bytes: Seq<u8>, n: nat)
    ensures
        hex(bytes, n).len() == 2 * n,
    decreases n,
{
    if n > 0 {
        hex_len(bytes, (n - 1) as nat);
    }
}

/// The semantic identity of a shaped font face.
#[derive(Clone, Debug)]
pub struct FontFace {
    pub family: String,
    pub weight: u32,
    pub italic: bool,
    pub size: Scalar,
}

/// The family name of a face: its content's digest and its index in the file.
pub open spec fn family_of(data: Seq<u8>, index: u32) -> Seq<char> {
    named_family(sha256_of(data), index)
}

/// The family name for a digest and a face index.
pub open spec fn named_family(digest: Seq<u8>, index: u32) -> Seq<char> {
    "valle-face-"@ + hex(digest, 32) + "-"@ + numeral(index as nat)
}

/// The family name for a digest and a face index.
pub fn family_name(digest: &ContentDigest, index: u32) -> (r: String)
    ensures
        r@ == named_family(digest.bytes@, index),
{
    let hex = digest.as_hex();
    let number = decimal(index as u64);
    joined(
        joined(joined("valle-face-".to_owned(), hex.as_str()), "-"),
        number.as_str(),
    )
}

/// Stable font naming from content and face index, the same on every host.
pub fn default_font_naming(bytes: &[u8], index: u32, size: Scalar) -> (r: FontFace)
    ensures
        r.family@ == family_of(bytes@, index),
        r.weight == 400,
        !r.italic,
        r.size == size,
{
    let digest = ContentDigest::of_bytes(bytes);
    FontFace { family: family_name(&digest, index), weight: 400, italic: false, size }
}

/// A font as the face cache knows it: blob identity, face index and the bits of its size.
#[derive(Clone, Copy, Debug, PartialEq, Eq, Structural)]
pub struct FaceKey {
    pub blob: u64,
    pub index: u32,
    pub size: u32,
}

/// Most faces that the cache keeps.
pub const MAX_FACES: usize = 256;

/// Cross-frame cache of font names. A hit returns the face that was built first.
pub struct FaceCache {
    entries: Vec<(FaceKey, FontFace)>,
}

impl FaceCache {
    /// The cached faces, oldest first.
    pub closed spec fn faces(self) -> Seq<(FaceKey, FontFace)> {
        self.entries@
    }

    /// No key occurs twice, and the cache is bounded.
    pub closed spec fn wf(self) -> bool {
        &&& self.entries@.len() <= MAX_FACES
        &&& forall|i: int, j: int|
            0 <= i < j < self.entries@.len() ==> (#[trigger] self.entries@[i]).0 != (
            #[trigger] self.entries@[j]).0
    }

    /// Whether a face is cached under a key.
    pub open spec fn holds(self, key: FaceKey, face: FontFace) -> bool {
        self.faces().contains((key, face))
    }

    pub open spec fn knows(self, key: FaceKey) -> bool {
        exists|i: int| 0 <= i < self.faces().len() && (#[trigger] self.faces()[i]).0 == key
    }

    pub fn new() -> (r: FaceCache)
        ensures
            r.wf(),
            r.faces() == Seq::<(FaceKey, FontFace)>::empty(),
    {
        FaceCache { entries: Vec::new() }
    }

    /// The face cached under a key, by its position.
    pub fn get(&self, key: FaceKey) -> (r: Option<&FontFace>)
        ensures
            match r {
                Some(face) => self.holds(key, *face),
                None => !self.knows(key),
            },
    {
        let mut i: usize = 0;
        while i < self.entries.len()
            invariant
                i <= self.entries@.len(),
                forall|k: int| 0 <= k < i ==> (#[trigger] self.entries@[k]).0 != key,
            decreases self.entries@.len() - i,
        {
            if self.entries[i].0 == key {
                assert(self.entries@[i as int] == (key, self.entries@[i as int].1));
                return Some(&self.entries[i].1);
            }
            i = i + 1;
        }
        None
    }

    /// Keeps a newly built face under a key that is not cached. A full cache is emptied first;
    /// that only costs recomputation.
    pub fn insert(&mut self, key: FaceKey, face: FontFace)
        requires
            old(self).wf(),
            !old(self).knows(key),
        ensures
            final(self).wf(),
            final(self).faces() == (if old(self).faces().len() >= MAX_FACES {
                seq![(key, face)]
            } else {
                old(self).faces().push((key, face))
            }),
    {
        if self.entries.len() >= MAX_FACES {
            self.entries.clear();
        }
        let ghost before = self.entries@;
        self.entries.push((key, face));
        proof {
            let all = self.entries@;
            assert forall|i: int, j: int| 0 <= i < j < all.len() implies (#[trigger] all[i]).0 != (
            #[trigger] all[j]).0 by {
                if j == before.len() {
                    assert(before[i] == old(self).faces()[i]);
                }
            }
            if old(self).faces().len() >= MAX_FACES {
                assert(all =~= seq![(key, face)]);
            }
        }
    }

    /// The face cached under a key, built and kept where there is none.
    pub fn get_or_insert<B: FnOnce() -> FontFace>(&mut self, key: FaceKey, build: B) -> (r: &FontFace)
        requires
            old(self).wf(),
            call_requires(build, ()),
        ensures
            final(self).wf(),
            final(self).holds(key, *r),
            if old(self).knows(key) {
                final(self).faces() == old(self).faces()
            } else {
                &&& call_ensures(build, (), *r)
                &&& final(self).faces() == (if old(self).faces().len() >= MAX_FACES {
                    seq![(key, *r)]
                } else {
                    old(self).faces().push((key, *r))
                })
            },
    {
        let found = self.get(key).is_some();
        if !found {
            let face = build();
            self.insert(key, face);
            let last: usize = self.entries.len() - 1;
            assert(self.faces()[last as int] == (key, face));
            return &self.entries[last].1;
        }
        let mut i: usize = 0;
        while self.entries[i].0 != key
            invariant
                i < self.entries@.len(),
                self.wf(),
                self.faces() == old(self).faces(),
                exists|k: int| i <= k < self.entries@.len() && (#[trigger] self.entries@[k]).0 == key,
            decreases self.entries@.len() - i,
        {
            i = i + 1;
        }
        assert(self.faces()[i as int] == (key, self.entries@[i as int].1));
        &self.entries[i].1
    }
}

} // verus!
