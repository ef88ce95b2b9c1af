//! Character positions and byte offsets of UTF-8 text, and decimal numerals.

use vstd::prelude::*;
use vstd::string::*;
use vstd::utf8::*;

verus! {

/// Bytes that one character takes in UTF-8.
pub open spec fn width(c: char) -> nat {
    encode_scalar(c as u32).len()
}

/// Bytes that a run of characters takes in UTF-8.
pub open spec fn byte_len(s: Seq<char>) -> nat
    decreases s.len(),
{
    if s.len() == 0 {
        0
    } else {
        byte_len(s.drop_last()) + width(s.last())
    }
}

/// Byte offset of the character at position `i`.
pub open spec fn offset(s: Seq<char>, i: int) -> nat {
    byte_len(s.take(i))
}

proof fn encode_push(s: Seq<char>, c: char)
    ensures
        encode_utf8(s.push(c)) == encode_utf8(s) + encode_scalar(c as u32),
    decreases s.len(),
{
    reveal_with_fuel(encode_utf8, 2);
    if s.len() == 0 {
        assert(s.push(c).drop_first() =~= Seq::<char>::empty());
        assert(encode_utf8(s) =~= Seq::<u8>::empty());
        assert(encode_utf8(s.push(c)) =~= encode_scalar(c as u32) + Seq::<u8>::empty());
    } else {
        assert(s.push(c).drop_first() =~= s.drop_first().push(c));
        encode_push(s.drop_first(), c);
        assert(encode_utf8(s.push(c)) =~= encode_utf8(s) + encode_scalar(c as u32));
    }
}

/// The byte length is the length of the UTF-8 encoding.
pub proof fn byte_len_is_encoding_len(s: Seq<char>)
    ensures
        byte_len(s) == encode_utf8(s).len(),
    decreases s.len(),
{
    if s.len() > 0 {
        byte_len_is_encoding_len(s.drop_last());
        encode_push(s.drop_last(), s.last());
        assert(s.drop_last().push(s.last()) =~= s);
    }
}

/// Offsets start at 0, end at the byte length and grow by each character's width.
pub proof fn offset_steps(s: Seq<char>, i: int)
    requires
        0 <= i < s.len(),
    ensures
        offset(s, i + 1) == offset(s, i) + width(s[i]),
        1 <= width(s[i]) <= 4,
{
    assert(s.take(i + 1).drop_last() =~= s.take(i));
    assert(s.take(i + 1).last() == s[i]);
}

pub proof fn offset_ends(s: Seq<char>)
    ensures
        offset(s, 0) == 0,
        offset(s, s.len() as int) == byte_len(s),
{
    assert(s.take(s.len() as int) =~= s);
    assert(s.take(0) =~= Seq::<char>::empty());
}

/// Later characters start at later bytes.
pub proof fn offset_monotone(s: Seq<char>, i: int, j: int)
    requires
        0 <= i <= j <= s.len(),
    ensures
        offset(s, i) <= offset(s, j) <= byte_len(s),
        i < j ==> offset(s, i) < offset(s, j),
        offset(s, j) - offset(s, i) >= j - i,
    decreases s.len() - i,
{
    offset_ends(s);
    if i < j {
        offset_steps(s, i);
        offset_monotone(s, i + 1, j);
    } else if j < s.len() {
        offset_steps(s, j);
        offset_monotone(s, j + 1, s.len() as int);
    }
}

/// Bytes of one character.
pub fn char_width(c: char) -> (r: usize)
    ensures
        r == width(c),
        1 <= r <= 4,
{
    let code: u32 = c as u32;
    proof {
        char_is_scalar(c);
    }
    if code <= 0x7f {
        1
    } else if code <= 0x7ff {
        2
    } else if code <= 0xffff {
        3
    } else {
        4
    }
}

/// A text's characters with the byte offset of each, and of the text's end.
pub struct Scanned {
    pub chars: Vec<char>,
    pub offsets: Vec<usize>,
}

impl Scanned {
    pub open spec fn of(self, s: Seq<char>) -> bool {
        &&& self.chars@ == s
        &&& self.offsets@.len() == s.len() + 1
        &&& forall|i: int| 0 <= i <= s.len() ==> #[trigger] self.offsets@[i] == offset(s, i)
    }
}

/// Collects the characters of a text.
pub fn characters(source: &str) -> (r: Vec<char>)
    ensures
        r@ == source@,
{
    let mut out: Vec<char> = Vec::new();
    for c in it: source.chars()
        invariant
            it.seq() == source@,
            out@ == source@.take(it.index() as int),
    {
        out.push(c);
        assert(source@.take(it.index() as int).push(c) =~= source@.take(it.index() as int + 1));
    }
    assert(source@.take(source@.len() as int) =~= source@);
    out
}

/// Positions every character of a text.
pub fn scan(source: &str) -> (r: Scanned)
    ensures
        r.of(source@),
        byte_len(source@) <= usize::MAX,
{
    let total: usize = source.as_bytes().len();
    proof {
        byte_len_is_encoding_len(source@);
    }
    let chars = characters(source);
    let mut offsets: Vec<usize> = Vec::new();
    let mut at: usize = 0;
    offsets.push(0);
    proof {
        offset_ends(source@);
    }
    let mut i: usize = 0;
    while i < chars.len()
        invariant
            chars@ == source@,
            i <= chars.len(),
            total == byte_len(source@),
            at == offset(source@, i as int),
            offsets@.len() == i + 1,
            forall|k: int| 0 <= k <= i ==> #[trigger] offsets@[k] == offset(source@, k),
        decreases chars.len() - i,
    {
        proof {
            offset_steps(source@, i as int);
            offset_monotone(source@, i as int + 1, source@.len() as int);
        }
        at = at + char_width(chars[i]);
        offsets.push(at);
        i = i + 1;
    }
    Scanned { chars, offsets }
}

/// The decimal numeral of a number, without leading zeros.
pub open spec fn numeral(n: nat) -> Seq<char>
    decreases n,
{
    if n < 10 {
        seq![digit(n)]
    } else {
        numeral(n / 10).push(digit(n % 10))
    }
}

pub open spec fn digit(n: nat) -> char {
    if n == 0 { '0' } else if n == 1 { '1' } else if n == 2 { '2' } else if n == 3 { '3' }
    else if n == 4 { '4' } else if n == 5 { '5' } else if n == 6 { '6' } else if n == 7 { '7' }
    else if n == 8 { '8' } else { '9' }
}

fn digit_text(n: u64) -> (r: &'static str)
    requires
        n < 10,
    ensures
        r@ == seq![digit(n as nat)],
{
    proof {
        reveal_strlit("0");
        reveal_strlit("1");
        reveal_strlit("2");
        reveal_strlit("3");
        reveal_strlit("4");
        reveal_strlit("5");
        reveal_strlit("6");
        reveal_strlit("7");
        reveal_strlit("8");
        reveal_strlit("9");
        assert("0"@ =~= seq!['0']);
        assert("1"@ =~= seq!['1']);
        assert("2"@ =~= seq!['2']);
        assert("3"@ =~= seq!['3']);
        assert("4"@ =~= seq!['4']);
        assert("5"@ =~= seq!['5']);
        assert("6"@ =~= seq!['6']);
        assert("7"@ =~= seq!['7']);
        assert("8"@ =~= seq!['8']);
        assert("9"@ =~= seq!['9']);
    }
    match n {
        0 => "0",
        1 => "1",
        2 => "2",
        3 => "3",
        4 => "4",
        5 => "5",
        6 => "6",
        7 => "7",
        8 => "8",
        _ => "9",
    }
}

/// Writes a number in decimal.
pub fn decimal(n: u64) -> (r: String)
    ensures
        r@ == numeral(n as nat),
    decreases n,
{
    let low = digit_text(n % 10);
    if n < 10 {
        low.to_owned()
    } else {
        let mut out = decimal(n / 10);
        out.append(low);
        proof {
            assert(out@ =~= numeral((n / 10) as nat).push(digit((n % 10) as nat)));
        }
        out
    }
}

/// Appends one piece of text to another.
pub fn joined(left: String, right: &str) -> (r: String)
    ensures
        r@ == left@ + right@,
{
    let mut out = left;
    out.append(right);
    out
}

/// Three texts in a row.
pub fn said3(a: &str, b: &str, c: &str) -> (r: String)
    ensures
        r@ == a@ + b@ + c@,
{
    joined(joined(a.to_owned(), b), c)
}

/// Five texts in a row.
pub fn said5(a: &str, b: &str, c: &str, d: &str, e: &str) -> (r: String)
    ensures
        r@ == a@ + b@ + c@ + d@ + e@,
{
    joined(joined(said3(a, b, c), d), e)
}

/// Seven texts in a row.
pub fn said7(a: &str, b: &str, c: &str, d: &str, e: &str, f: &str, g: &str) -> (r: String)
    ensures
        r@ == a@ + b@ + c@ + d@ + e@ + f@ + g@,
{
    joined(joined(said5(a, b, c, d, e), f), g)
}

/// Whether a text begins with another.
pub open spec fn begins(s: Seq<char>, prefix: Seq<char>) -> bool {
    prefix.len() <= s.len() && s.take(prefix.len() as int) == prefix
}

/// Whether a text ends with another.
pub open spec fn ends(s: Seq<char>, suffix: Seq<char>) -> bool {
    suffix.len() <= s.len() && s.skip(s.len() - suffix.len()) == suffix
}

/// Whether a text stands in another at a position.
pub open spec fn stands_at(s: Seq<char>, part: Seq<char>, i: int) -> bool {
    0 <= i && i + part.len() <= s.len() && s.subrange(i, i + part.len()) == part
}

/// Whether a text stands somewhere in another.
pub open spec fn holds(s: Seq<char>, part: Seq<char>) -> bool {
    exists|i: int| #[trigger] stands_at(s, part, i)
}

fn matches_at(s: &Vec<char>, part: &Vec<char>, at: usize) -> (r: bool)
    requires
        at + part@.len() <= s@.len(),
    ensures
        r == stands_at(s@, part@, at as int),
{
    let total: usize = s.len();
    let mut i: usize = 0;
    while i < part.len()
        invariant
            total == s@.len(),
            at + part@.len() <= s@.len(),
            i <= part@.len(),
            forall|k: int| 0 <= k < i ==> s@[at + k] == #[trigger] part@[k],
        decreases part@.len() - i,
    {
        if s[at + i] != part[i] {
            assert(s@.subrange(at as int, at + part@.len())[i as int] != part@[i as int]);
            return false;
        }
        i = i + 1;
    }
    assert(s@.subrange(at as int, at + part@.len()) =~= part@);
    true
}

/// Whether a text begins with another.
pub fn begins_with(s: &str, prefix: &str) -> (r: bool)
    ensures
        r == begins(s@, prefix@),
{
    let a = characters(s);
    let b = characters(prefix);
    if b.len() > a.len() {
        return false;
    }
    assert(a@.take(b@.len() as int) =~= a@.subrange(0, b@.len() as int));
    matches_at(&a, &b, 0)
}

/// Whether a text ends with another.
pub fn ends_with(s: &str, suffix: &str) -> (r: bool)
    ensures
        r == ends(s@, suffix@),
{
    let a = characters(s);
    let b = characters(suffix);
    if b.len() > a.len() {
        return false;
    }
    assert(a@.skip(a@.len() - b@.len()) =~= a@.subrange(a@.len() - b@.len(), a@.len() as int));
    matches_at(&a, &b, a.len() - b.len())
}

/// Whether a text stands somewhere in another.
pub fn holds_text(s: &str, part: &str) -> (r: bool)
    ensures
        r == holds(s@, part@),
{
    let a = characters(s);
    let b = characters(part);
    if b.len() > a.len() {
        return false;
    }
    let last: usize = a.len() - b.len();
    let mut i: usize = 0;
    while i < last
        invariant
            a@ == s@,
            b@ == part@,
            b@.len() <= a@.len(),
            last == a@.len() - b@.len(),
            i <= last,
            forall|k: int| 0 <= k < i ==> !#[trigger] stands_at(a@, b@, k),
        decreases last - i,
    {
        if matches_at(&a, &b, i) {
            return true;
        }
        i = i + 1;
    }
    let r: bool = matches_at(&a, &b, last);
    if !r {
        assert forall|k: int| !#[trigger] stands_at(s@, part@, k) by {}
    }
    r
}

} // verus!
