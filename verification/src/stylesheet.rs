//! Parsed style declarations, and a cache of them.

use vstd::prelude::*;

use crate::table::{find, first_at_is_least, position, Entry};

verus! {

/// Entries that a style cache holds at most.
pub const MAX_STYLES: usize = 4096;

/// A parsed declaration list of the layout engine.
#[verifier::external_type_specification]
#[verifier::external_body]
pub struct ExStyle(takumi_core::style::Style);

/// What parsing a declaration list gives: a style, or why there is none.
pub uninterp spec fn parsed_style(declarations: Seq<char>) -> Result<takumi_core::style::Style, Seq<char>>;

/// A parse result by its contents.
pub open spec fn parse_seen(r: Result<takumi_core::style::Style, String>) -> Result<
    takumi_core::style::Style,
    Seq<char>,
> {
    match r {
        Ok(s) => Ok(s),
        Err(e) => Err(e@),
    }
}

/// Parses a declaration list with `Style::from_str` of takumi-core. Claims that the style, or the
/// text of the error, is a function of the declarations alone.
#[verifier::external_body]
pub(crate) fn read_style(declarations: &str) -> (r: Result<takumi_core::style::Style, String>)
    ensures
        parse_seen(r) == parsed_style(declarations@),
{
    declarations.parse::<takumi_core::style::Style>().map_err(|error| error.to_string())
}

/// Declaration lists with their parsed styles, and how often one was found.
pub struct StyleCache {
    entries: Vec<Entry<takumi_core::style::Style>>,
    hits: u64,
    misses: u64,
}

impl StyleCache {
    /// Whether every entry holds what parsing its declarations gives.
    pub closed spec fn valid(self) -> bool {
        &&& self.entries@.len() <= MAX_STYLES
        &&& forall|i: int|
            0 <= i < self.entries@.len() ==> parsed_style((#[trigger] self.entries@[i]).key@) == Ok::<
                takumi_core::style::Style,
                Seq<char>,
            >(self.entries@[i].value)
    }

    /// How often a style was found.
    pub closed spec fn found(self) -> nat {
        self.hits as nat
    }

    /// How often a style was not found.
    pub closed spec fn missed(self) -> nat {
        self.misses as nat
    }

    /// Whether a declaration list is cached.
    pub closed spec fn holds(self, declarations: Seq<char>) -> bool {
        find(self.entries@, declarations) is Some
    }

    pub fn new() -> (r: StyleCache)
        ensures
            r.valid(),
            r.found() == 0,
            r.missed() == 0,
            forall|d: Seq<char>| !#[trigger] r.holds(d),
    {
        StyleCache { entries: Vec::new(), hits: 0, misses: 0 }
    }

    /// How often a style was found, and how often not.
    pub fn stats(&self) -> (r: (u64, u64))
        ensures
            r.0 == self.found(),
            r.1 == self.missed(),
    {
        (self.hits, self.misses)
    }

    /// The style of a declaration list, parsed unless it is cached. A full cache is emptied first.
    pub fn get_or_parse(&mut self, declarations: &str) -> (r: Result<
        &takumi_core::style::Style,
        String,
    >)
        requires
            old(self).valid(),
            old(self).found() < u64::MAX,
            old(self).missed() < u64::MAX,
        ensures
            final(self).valid(),
            match r {
                Ok(s) => parsed_style(declarations@) == Ok::<
                    takumi_core::style::Style,
                    Seq<char>,
                >(*s),
                Err(e) => parsed_style(declarations@) == Err::<
                    takumi_core::style::Style,
                    Seq<char>,
                >(e@),
            },
            old(self).holds(declarations@) ==> r is Ok,
            final(self).found() == old(self).found() + (if old(self).holds(declarations@) {
                1int
            } else {
                0
            }),
            final(self).missed() == old(self).missed() + (if old(self).holds(declarations@) {
                0int
            } else {
                1
            }),
            r is Ok ==> final(self).holds(declarations@),
    {
        match position(&self.entries, declarations) {
            Some(i) => {
                self.hits = self.hits + 1;
                proof {
                    first_at_is_least(self.entries@, declarations@, self.entries@.len());
                }
                return Ok(&self.entries[i].value);
            },
            None => {},
        }
        self.misses = self.misses + 1;
        let style = match read_style(declarations) {
            Ok(s) => s,
            Err(e) => {
                return Err(e);
            },
        };
        if self.entries.len() >= MAX_STYLES {
            self.entries = Vec::new();
        }
        let ghost before = self.entries@;
        self.entries.push(Entry { key: declarations.to_owned(), value: style });
        proof {
            let now = self.entries@;
            assert forall|i: int| 0 <= i < now.len() implies parsed_style(
                (#[trigger] now[i]).key@,
            ) == Ok::<takumi_core::style::Style, Seq<char>>(now[i].value) by {
                if i < before.len() {
                    assert(now[i] == before[i]);
                }
            }
            first_at_is_least(now, declarations@, now.len());
            assert(now[now.len() - 1].key@ == declarations@);
        }
        let last: usize = self.entries.len() - 1;
        Ok(&self.entries[last].value)
    }
}

} // verus!
