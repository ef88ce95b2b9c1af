//! Validation findings: where something is wrong, and what.

use vstd::prelude::*;

use crate::text::{decimal, joined, numeral};

verus! {

/// One violated rule.
#[derive(Debug, PartialEq, Eq)]
pub struct ValidationError {
    pub path: String,
    pub message: String,
}

impl View for ValidationError {
    type V = (Seq<char>, Seq<char>);

    open spec fn view(&self) -> (Seq<char>, Seq<char>) {
        (self.path@, self.message@)
    }
}

/// A list of findings by its contents.
pub open spec fn findings(v: Seq<ValidationError>) -> Seq<(Seq<char>, Seq<char>)> {
    v.map_values(|e: ValidationError| e@)
}

pub open spec fn found_if(test: bool, path: Seq<char>, message: Seq<char>) -> Seq<
    (Seq<char>, Seq<char>),
> {
    if test { seq![(path, message)] } else { Seq::empty() }
}

/// Records a finding.
pub fn report(errors: &mut Vec<ValidationError>, path: String, message: &str)
    ensures
        findings(final(errors)@) == findings(old(errors)@).push((path@, message@)),
{
    let ghost before = errors@;
    let error = ValidationError { path, message: message.to_owned() };
    errors.push(error);
    assert(findings(errors@) =~= findings(before).push((path@, message@)));
}

/// Records a finding where a test holds.
pub fn report_if(errors: &mut Vec<ValidationError>, test: bool, path: String, message: &str)
    ensures
        findings(final(errors)@) == findings(old(errors)@) + found_if(test, path@, message@),
{
    if test {
        report(errors, path, message);
    }
    assert(findings(errors@) =~= findings(old(errors)@) + found_if(test, path@, message@));
}

/// Moves findings to the end of another list.
pub fn extend(errors: &mut Vec<ValidationError>, more: Vec<ValidationError>)
    ensures
        findings(final(errors)@) == findings(old(errors)@) + findings(more@),
{
    let ghost before = errors@;
    let ghost tail = more@;
    let mut rest = more;
    errors.append(&mut rest);
    assert(findings(errors@) =~= findings(before) + findings(tail));
}

/// `base` followed by a number.
pub fn numbered(base: &str, n: usize) -> (r: String)
    ensures
        r@ == base@ + numeral(n as nat),
{
    let digits = decimal(n as u64);
    joined(base.to_owned(), digits.as_str())
}

} // verus!
