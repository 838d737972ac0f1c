//! The source text of a generated implementation.
use vstd::prelude::*;

use crate::attrs::{Diagnostic, PathModel, StrategyPath};
use crate::codegen::{
    assignment_models, derived, impl_merge, ActionModel, Action, Assignment, AssignmentModel,
    ImplModel, Member, MergeImpl,
};
use crate::syntax::DeriveInput;

verus! {

pub open spec fn digit_char(d: nat) -> char {
    if d == 0 {
        '0'
    } else if d == 1 {
        '1'
    } else if d == 2 {
        '2'
    } else if d == 3 {
        '3'
    } else if d == 4 {
        '4'
    } else if d == 5 {
        '5'
    } else if d == 6 {
        '6'
    } else if d == 7 {
        '7'
    } else if d == 8 {
        '8'
    } else {
        '9'
    }
}

/// `n` in decimal digits.
pub open spec fn decimal(n: nat) -> Seq<char>
    decreases n,
{
    if n < 10 {
        seq![digit_char(n)]
    } else {
        decimal(n / 10).push(digit_char(n % 10))
    }
}

/// The segments joined by `::`.
pub open spec fn joined(segs: Seq<String>) -> Seq<char>
    decreases segs.len(),
{
    if segs.len() == 0 {
        seq![]
    } else if segs.len() == 1 {
        segs[0]@
    } else {
        joined(segs.drop_last()) + "::"@ + segs.last()@
    }
}

pub open spec fn path_text(p: PathModel) -> Seq<char> {
    if p.leading_colon {
        "::"@ + joined(p.segments)
    } else {
        joined(p.segments)
    }
}

pub open spec fn member_text(m: Member) -> Seq<char> {
    match m {
        Member::Named(n) => n@,
        Member::Unnamed(i) => decimal(i as nat),
    }
}

/// The statement for one field, on a line of its own.
pub open spec fn statement_text(a: AssignmentModel) -> Seq<char> {
    let callee = match a.action {
        ActionModel::Strategy(p) => path_text(p),
        ActionModel::Recurse => "::conflate::Merge::merge"@,
    };
    "        "@ + callee + "(&mut self."@ + member_text(a.member) + ", other."@ + member_text(a.member)
        + ");\n"@
}

pub open spec fn statements_text(s: Seq<AssignmentModel>) -> Seq<char>
    decreases s.len(),
{
    if s.len() == 0 {
        seq![]
    } else {
        statements_text(s.drop_last()) + statement_text(s.last())
    }
}

pub open spec fn impl_header(ident: Seq<char>) -> Seq<char> {
    "impl ::conflate::Merge for "@ + ident + " {\n    fn merge(&mut self, other: Self) {\n"@
}

/// The source text of an implementation.
pub open spec fn impl_text(m: ImplModel) -> Seq<char> {
    impl_header(m.ident@) + statements_text(m.assignments) + "    }\n}\n"@
}

/// The source text put in place of an implementation that could not be
/// generated: it compiles, and panics if it is ever called.
pub open spec fn placeholder_text(ident: Seq<char>) -> Seq<char> {
    impl_header(ident) + "        ::core::panic!(\"Merge cannot be derived for this type\")\n    }\n}\n"@
}

fn digit_str(d: usize) -> (r: &'static str)
    requires
        d < 10,
    ensures
        r@ == seq![digit_char(d as nat)],
{
    proof {
        reveal_strlit("0");
        reveal_strlit("1");
        reveal_strlit("2");
        reveal_strlit("3");
        reveal_strlit("4");
        reveal_strlit("5");
        reveal_strlit("6");
        reveal_strlit("7");
        reveal_strlit("8");
        reveal_strlit("9");
    }
    if d == 0 {
        "0"
    } else if d == 1 {
        "1"
    } else if d == 2 {
        "2"
    } else if d == 3 {
        "3"
    } else if d == 4 {
        "4"
    } else if d == 5 {
        "5"
    } else if d == 6 {
        "6"
    } else if d == 7 {
        "7"
    } else if d == 8 {
        "8"
    } else {
        "9"
    }
}

fn push_decimal(out: &mut String, n: usize)
    ensures
        final(out)@ == old(out)@ + decimal(n as nat),
    decreases n,
{
    if n >= 10 {
        push_decimal(out, n / 10);
    }
    out.append(digit_str(n % 10));
    assert(final(out)@ =~= old(out)@ + decimal(n as nat));
}

fn push_path(out: &mut String, p: &StrategyPath)
    ensures
        final(out)@ == old(out)@ + path_text(p@),
{
    let ghost start = out@;
    if p.leading_colon {
        out.append("::");
    }
    let ghost base = out@;
    let mut i: usize = 0;
    while i < p.segments.len()
        invariant
            i <= p.segments@.len(),
            out@ == base + joined(p.segments@.subrange(0, i as int)),
        decreases p.segments@.len() - i,
    {
        assert(p.segments@.subrange(0, i + 1).drop_last() =~= p.segments@.subrange(0, i as int));
        if i > 0 {
            out.append("::");
        }
        out.append(p.segments[i].as_str());
        i += 1;
        assert(out@ =~= base + joined(p.segments@.subrange(0, i as int)));
    }
    assert(p.segments@.subrange(0, i as int) =~= p.segments@);
    assert(out@ =~= start + path_text(p@));
}

fn push_member(out: &mut String, m: &Member)
    ensures
        final(out)@ == old(out)@ + member_text(*m),
{
    match m {
        Member::Named(n) => out.append(n.as_str()),
        Member::Unnamed(i) => push_decimal(out, *i),
    }
}

fn push_statement(out: &mut String, a: &Assignment)
    ensures
        final(out)@ == old(out)@ + statement_text(a@),
{
    let ghost start = out@;
    out.append("        ");
    match &a.action {
        Action::Strategy(p) => push_path(out, p),
        Action::Recurse => out.append("::conflate::Merge::merge"),
    }
    out.append("(&mut self.");
    push_member(out, &a.member);
    out.append(", other.");
    push_member(out, &a.member);
    out.append(");\n");
    assert(out@ =~= start + statement_text(a@));
}

fn header(ident: &String) -> (r: String)
    ensures
        r@ == impl_header(ident@),
{
    let mut out = "impl ::conflate::Merge for ".to_owned();
    out.append(ident.as_str());
    out.append(" {\n    fn merge(&mut self, other: Self) {\n");
    assert(out@ =~= impl_header(ident@));
    out
}

/// The source text of `m`.
pub fn render(m: &MergeImpl) -> (r: String)
    ensures
        r@ == impl_text(m@),
{
    let mut out = header(&m.ident);
    let ghost base = out@;
    let mut i: usize = 0;
    while i < m.assignments.len()
        invariant
            i <= m.assignments@.len(),
            out@ == base + statements_text(assignment_models(m.assignments@.subrange(0, i as int))),
        decreases m.assignments@.len() - i,
    {
        let ghost prefix = assignment_models(m.assignments@.subrange(0, i as int));
        assert(assignment_models(m.assignments@.subrange(0, i + 1)).drop_last() =~= prefix);
        push_statement(&mut out, &m.assignments[i]);
        i += 1;
        assert(out@ =~= base + statements_text(assignment_models(m.assignments@.subrange(0, i as int))));
    }
    assert(m.assignments@.subrange(0, i as int) =~= m.assignments@);
    out.append("    }\n}\n");
    assert(out@ =~= impl_text(m@));
    out
}

/// The source text that stands in for an implementation of `ident` that
/// could not be generated.
pub fn placeholder(ident: &String) -> (r: String)
    ensures
        r@ == placeholder_text(ident@),
{
    let mut out = header(ident);
    out.append("        ::core::panic!(\"Merge cannot be derived for this type\")\n    }\n}\n");
    assert(out@ =~= placeholder_text(ident@));
    out
}

/// What deriving `Merge` for a declaration yields: the code, and the
/// diagnostic when the implementation could not be generated.
#[derive(Debug)]
pub struct Expansion {
    pub code: String,
    pub diagnostic: Option<Diagnostic>,
}

/// `r` is what deriving `Merge` for `input` yields.
pub open spec fn expands_to(input: DeriveInput, r: Expansion) -> bool {
    match derived(input) {
        Ok(m) => r.diagnostic is None && r.code@ == impl_text(m),
        Err(e) => r.diagnostic == Some(e) && r.code@ == placeholder_text(input.ident@),
    }
}

/// Deriving twice from one declaration yields the same code and the same
/// diagnostic, so the two implementations behave alike on every input.
pub proof fn lemma_derivation_deterministic(input: DeriveInput, first: Expansion, second: Expansion)
    requires
        expands_to(input, first),
        expands_to(input, second),
    ensures
        first.code@ == second.code@,
        first.diagnostic == second.diagnostic,
{
}

/// Derives `Merge` for `input`. On success the code is the generated
/// implementation; on failure it is a placeholder that keeps the rest of
/// the program compiling, beside the diagnostic.
pub fn merge_derive(input: &DeriveInput) -> (r: Expansion)
    ensures
        expands_to(*input, r),
{
    match impl_merge(input) {
        Ok(m) => Expansion { code: render(&m), diagnostic: None },
        Err(e) => Expansion { code: placeholder(&input.ident), diagnostic: Some(e) },
    }
}

} // verus!
