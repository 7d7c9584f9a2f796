//! Findings as validation reports them: the mathematical view of a
//! [`ValidationError`], the order-preserving accumulation of findings, and the
//! small string builders the rules use for locations and messages.
use vstd::prelude::*;

use crate::error::{ErrorType, ValidationError};
use crate::text::dec;

verus! {

/// What a finding says: its kind, where, the message, and its provenance
/// tags (source, config source, rule source).
pub type Finding = (ErrorType, Seq<char>, Seq<char>, Option<Seq<char>>, Option<Seq<char>>, Option<Seq<char>>);

/// A provenance tag as plain text.
pub open spec fn tag_of(t: Option<String>) -> Option<Seq<char>> {
    match t {
        Some(x) => Some(x@),
        None => None,
    }
}

/// The view of one reported error.
pub open spec fn finding_of(e: ValidationError) -> Finding {
    (e.error_type, e.location@, e.message@, tag_of(e.source), tag_of(e.config_source), tag_of(e.rule_source))
}

/// The views of a run of reported errors, in order.
pub open spec fn findings(v: Seq<ValidationError>) -> Seq<Finding> {
    v.map_values(|e: ValidationError| finding_of(e))
}

/// A single finding with no provenance tags, as a one-element run.
pub open spec fn one(kind: ErrorType, loc: Seq<char>, msg: Seq<char>) -> Seq<Finding> {
    seq![(kind, loc, msg, None, None, None)]
}

/// A single finding when `cond` holds, nothing otherwise.
pub open spec fn finding_if(cond: bool, kind: ErrorType, loc: Seq<char>, msg: Seq<char>) -> Seq<Finding> {
    if cond {
        one(kind, loc, msg)
    } else {
        seq![]
    }
}

/// The findings of items `0..n`, item `k` contributing `f(k)`, in order.
pub open spec fn gather(f: spec_fn(int) -> Seq<Finding>, n: int) -> Seq<Finding>
    decreases n,
{
    if n <= 0 {
        seq![]
    } else {
        gather(f, n - 1) + f(n - 1)
    }
}

/// `base[i]`, the location of the `i`-th element of a list field.
pub open spec fn at(base: Seq<char>, i: int) -> Seq<char> {
    base + "["@ + dec(i as nat) + "]"@
}

/// Report one finding: append it to `out`.
pub fn report(out: &mut Vec<ValidationError>, kind: ErrorType, loc: String, msg: String)
    ensures
        findings(final(out)@) == findings(old(out)@) + one(kind, loc@, msg@),
{
    let ghost before = out@;
    out.push(ValidationError::new(kind, loc, msg));
    assert(findings(out@) =~= findings(before) + one(kind, loc@, msg@));
}

/// `a` followed by `b`.
pub fn cat2(a: &str, b: &str) -> (s: String)
    ensures
        s@ == a@ + b@,
{
    let mut s = String::new();
    s.append(a);
    s.append(b);
    s
}

/// `a`, `b`, `c` in turn.
pub fn cat3(a: &str, b: &str, c: &str) -> (s: String)
    ensures
        s@ == a@ + b@ + c@,
{
    let mut s = String::new();
    s.append(a);
    s.append(b);
    s.append(c);
    s
}

/// `a`, `b`, `c`, `d`, `e` in turn.
pub fn cat5(a: &str, b: &str, c: &str, d: &str, e: &str) -> (s: String)
    ensures
        s@ == a@ + b@ + c@ + d@ + e@,
{
    let mut s = String::new();
    s.append(a);
    s.append(b);
    s.append(c);
    s.append(d);
    s.append(e);
    s
}

/// The location `base[i]`.
pub fn at_index(base: &str, i: usize) -> (s: String)
    ensures
        s@ == at(base@, i as int),
{
    let mut s = String::new();
    s.append(base);
    s.append("[");
    crate::text::push_dec(&mut s, i as u64);
    s.append("]");
    assert(s@ =~= at(base@, i as int));
    s
}

} // verus!
