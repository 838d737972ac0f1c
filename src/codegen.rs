//! Generation of a field-by-field `Merge` implementation for a record.
//!
//! For each field, in declaration order: a field marked `skip` gets no
//! statement; otherwise its own `strategy` is called, or else the record's
//! default strategy, or else the field's own `Merge` implementation.
use vstd::prelude::*;

use crate::attrs::{
    attrs_model, entries_of, failure, lemma_attrs_error_persists, models, AttrsModel, Diagnostic,
    DiagnosticKind, EntryModel, FieldAttrs, PathModel, StrategyPath,
};
use crate::syntax::{Attribute, Body, DeriveInput, FieldDecl, Span, Token};

verus! {

/// How a field is reached: by name, or by position.
#[derive(Debug, PartialEq, Eq)]
pub enum Member {
    Named(String),
    Unnamed(usize),
}

/// A field with its settings read.
#[derive(Debug)]
pub struct Field {
    pub name: Member,
    pub span: Span,
    pub attrs: FieldAttrs,
}

pub struct FieldModel {
    pub name: Member,
    pub span: Span,
    pub attrs: AttrsModel,
}

impl View for Field {
    type V = FieldModel;

    open spec fn view(&self) -> FieldModel {
        FieldModel { name: self.name, span: self.span, attrs: self.attrs@ }
    }
}

/// What the generated code does with one field.
#[derive(Debug)]
pub enum Action {
    /// Calls the strategy function with the two fields.
    Strategy(StrategyPath),
    /// Calls the field's own `Merge` implementation.
    Recurse,
}

pub enum ActionModel {
    Strategy(PathModel),
    Recurse,
}

impl View for Action {
    type V = ActionModel;

    open spec fn view(&self) -> ActionModel {
        match self {
            Action::Strategy(p) => ActionModel::Strategy(p@),
            Action::Recurse => ActionModel::Recurse,
        }
    }
}

/// One statement of the generated `merge` body.
#[derive(Debug)]
pub struct Assignment {
    /// The field's position in the declaration.
    pub index: usize,
    pub member: Member,
    pub action: Action,
    /// Where the statement is attributed: the strategy path, or the field.
    pub span: Span,
}

pub struct AssignmentModel {
    pub index: usize,
    pub member: Member,
    pub action: ActionModel,
    pub span: Span,
}

impl View for Assignment {
    type V = AssignmentModel;

    open spec fn view(&self) -> AssignmentModel {
        AssignmentModel {
            index: self.index,
            member: self.member,
            action: self.action@,
            span: self.span,
        }
    }
}

/// A generated `Merge` implementation for the type `ident`.
#[derive(Debug)]
pub struct MergeImpl {
    pub ident: String,
    pub assignments: Vec<Assignment>,
}

pub struct ImplModel {
    pub ident: String,
    pub assignments: Seq<AssignmentModel>,
}

pub open spec fn assignment_models(s: Seq<Assignment>) -> Seq<AssignmentModel> {
    s.map_values(|a: Assignment| a@)
}

impl View for MergeImpl {
    type V = ImplModel;

    open spec fn view(&self) -> ImplModel {
        ImplModel { ident: self.ident, assignments: assignment_models(self.assignments@) }
    }
}

pub open spec fn member_of(decl: FieldDecl, index: int) -> Member {
    match decl.ident {
        Some(name) => Member::Named(name),
        None => Member::Unnamed(index as usize),
    }
}

/// The field at position `index` with its settings, or the first error in
/// its attributes.
pub open spec fn field_model(decl: FieldDecl, index: int) -> Result<FieldModel, Diagnostic> {
    match attrs_model(decl.attrs@, true) {
        Ok(a) => Ok(FieldModel { name: member_of(decl, index), span: decl.span, attrs: a }),
        Err(e) => Err(e),
    }
}

/// The fields with their settings, or the first error in declaration order.
pub open spec fn fields_model(decls: Seq<FieldDecl>) -> Result<Seq<FieldModel>, Diagnostic>
    decreases decls.len(),
{
    if decls.len() == 0 {
        Ok(seq![])
    } else {
        match fields_model(decls.drop_last()) {
            Err(e) => Err(e),
            Ok(fs) => match field_model(decls.last(), decls.len() - 1) {
                Err(e) => Err(e),
                Ok(f) => Ok(fs.push(f)),
            },
        }
    }
}

/// The statement for a field that is not skipped.
pub open spec fn assignment_of(f: FieldModel, index: int, default: Option<PathModel>) -> AssignmentModel {
    let strategy = match f.attrs.strategy {
        Some(p) => Some(p),
        None => default,
    };
    match strategy {
        Some(p) => AssignmentModel {
            index: index as usize,
            member: f.name,
            action: ActionModel::Strategy(p),
            span: p.span,
        },
        None => AssignmentModel {
            index: index as usize,
            member: f.name,
            action: ActionModel::Recurse,
            span: f.span,
        },
    }
}

/// The statements for the fields `fs`, in order, skipped fields left out.
pub open spec fn assignments_of(fs: Seq<FieldModel>, default: Option<PathModel>) -> Seq<AssignmentModel>
    decreases fs.len(),
{
    if fs.len() == 0 {
        seq![]
    } else {
        let rest = assignments_of(fs.drop_last(), default);
        if fs.last().attrs.skip {
            rest
        } else {
            rest.push(assignment_of(fs.last(), fs.len() - 1, default))
        }
    }
}

/// The implementation generated for `input`, or the first error: a type
/// that is not a struct, then the record's attributes, then the fields'.
pub open spec fn derived(input: DeriveInput) -> Result<ImplModel, Diagnostic> {
    match input.body {
        Body::Struct(decls) => match attrs_model(input.attrs@, false) {
            Err(e) => Err(e),
            Ok(record) => match fields_model(decls@) {
                Err(e) => Err(e),
                Ok(fs) => Ok(
                    ImplModel { ident: input.ident, assignments: assignments_of(fs, record.strategy) },
                ),
            },
        },
        _ => failure(DiagnosticKind::NotAStruct, input.span),
    }
}

/// An error among the first `n` fields is the error of them all.
pub proof fn lemma_fields_error_persists(decls: Seq<FieldDecl>, n: int)
    requires
        0 <= n <= decls.len(),
        fields_model(decls.subrange(0, n)) is Err,
    ensures
        fields_model(decls) == fields_model(decls.subrange(0, n)),
    decreases decls.len(),
{
    if decls.len() == n {
        assert(decls.subrange(0, n) =~= decls);
    } else {
        assert(decls.drop_last().subrange(0, n) =~= decls.subrange(0, n));
        lemma_fields_error_persists(decls.drop_last(), n);
    }
}

/// The fields of a struct declaration; none for another type.
pub open spec fn fields_of(input: DeriveInput) -> Seq<FieldDecl> {
    match input.body {
        Body::Struct(decls) => decls@,
        _ => seq![],
    }
}

/// The first token of an attribute's argument list; the list must be
/// present and not empty.
pub open spec fn first_token(a: Attribute) -> Token {
    a.args->Some_0@[0]
}

/// When the fields read without error, field `i`'s model is the one it
/// reads as on its own.
pub proof fn lemma_fields_model_ok(decls: Seq<FieldDecl>)
    requires
        fields_model(decls) is Ok,
    ensures
        fields_model(decls)->Ok_0.len() == decls.len(),
        forall|i: int|
            0 <= i < decls.len() ==> field_model(decls[i], i) == Ok::<FieldModel, Diagnostic>(
                #[trigger] fields_model(decls)->Ok_0[i],
            ),
    decreases decls.len(),
{
    if decls.len() > 0 {
        lemma_fields_model_ok(decls.drop_last());
        assert forall|i: int| 0 <= i < decls.len() - 1 implies decls.drop_last()[i] == decls[i] by {}
    }
}

/// Every statement is for a field that is not skipped, at that field's
/// position.
pub proof fn lemma_assignments_not_skipped(fs: Seq<FieldModel>, default: Option<PathModel>)
    requires
        fs.len() <= usize::MAX,
    ensures
        forall|j: int|
            0 <= j < assignments_of(fs, default).len() ==> {
                let a = #[trigger] assignments_of(fs, default)[j];
                &&& 0 <= a.index < fs.len()
                &&& !fs[a.index as int].attrs.skip
            },
    decreases fs.len(),
{
    if fs.len() > 0 {
        lemma_assignments_not_skipped(fs.drop_last(), default);
        let rest = assignments_of(fs.drop_last(), default);
        assert forall|j: int| 0 <= j < rest.len() implies fs[rest[j].index as int] == fs.drop_last()[
            rest[j].index as int] by {}
    }
}

/// A field marked `skip` is never touched by the generated implementation:
/// no statement is generated for it, whether or not the record sets a
/// default strategy.
pub proof fn lemma_skipped_field_untouched(input: DeriveInput, k: int)
    requires
        input.body is Struct,
        0 <= k < fields_of(input).len() <= usize::MAX,
        field_model(fields_of(input)[k], k) is Ok,
        field_model(fields_of(input)[k], k)->Ok_0.attrs.skip,
        derived(input) is Ok,
    ensures
        forall|j: int|
            0 <= j < derived(input)->Ok_0.assignments.len() ==> (#[trigger] derived(
                input,
            )->Ok_0.assignments[j]).index != k,
{
    if let Body::Struct(decls) = input.body {
        let record = attrs_model(input.attrs@, false)->Ok_0;
        lemma_fields_model_ok(decls@);
        let fs = fields_model(decls@)->Ok_0;
        lemma_assignments_not_skipped(fs, record.strategy);
        assert(fs[k].attrs.skip);
    }
}

/// A `merge` attribute on a field whose argument list starts with a key
/// other than `skip` and `strategy` makes derivation fail with a diagnostic
/// that names the key at its position, when the record's own attributes,
/// the earlier fields and this field's earlier attributes read without
/// error. No implementation is generated for such a record.
pub proof fn lemma_unknown_field_key_rejected(input: DeriveInput, k: int, m: int)
    requires
        input.body is Struct,
        0 <= k < fields_of(input).len(),
        0 <= m < fields_of(input)[k].attrs@.len(),
        attrs_model(input.attrs@, false) is Ok,
        fields_model(fields_of(input).subrange(0, k)) is Ok,
        attrs_model(fields_of(input)[k].attrs@.subrange(0, m), true) is Ok,
        fields_of(input)[k].attrs@[m].path@ == "merge"@,
        fields_of(input)[k].attrs@[m].args is Some,
        fields_of(input)[k].attrs@[m].args->Some_0@.len() > 0,
        first_token(fields_of(input)[k].attrs@[m]).kind is Ident,
        first_token(fields_of(input)[k].attrs@[m]).kind->Ident_0@ != "skip"@,
        first_token(fields_of(input)[k].attrs@[m]).kind->Ident_0@ != "strategy"@,
    ensures
        derived(input) == failure::<ImplModel>(
            DiagnosticKind::UnknownAttribute(first_token(fields_of(input)[k].attrs@[m]).kind->Ident_0),
            first_token(fields_of(input)[k].attrs@[m]).span,
        ),
{
    if let Body::Struct(decls) = input.body {
        let attrs = decls@[k].attrs@;
        let a = attrs[m];
        let toks = a.args->Some_0@;
        let e = Diagnostic {
            kind: DiagnosticKind::UnknownAttribute(toks[0].kind->Ident_0),
            span: toks[0].span,
        };
        assert(entries_of(toks, a.span, true) == Err::<Seq<EntryModel>, Diagnostic>(e));
        assert(attrs.subrange(0, m + 1).drop_last() =~= attrs.subrange(0, m));
        assert(attrs_model(attrs.subrange(0, m + 1), true) == Err::<AttrsModel, Diagnostic>(e));
        lemma_attrs_error_persists(attrs, m + 1, true);
        assert(decls@.subrange(0, k + 1).drop_last() =~= decls@.subrange(0, k));
        assert(fields_model(decls@.subrange(0, k + 1)) == Err::<Seq<FieldModel>, Diagnostic>(e));
        lemma_fields_error_persists(decls@, k + 1);
    }
}

impl Field {
    /// Reads the field at position `index`.
    pub fn from_decl(index: usize, decl: &FieldDecl) -> (r: Result<Field, Diagnostic>)
        ensures
            models(r, field_model(*decl, index as int)),
    {
        let attrs = match FieldAttrs::from_attrs(&decl.attrs, true) {
            Ok(a) => a,
            Err(e) => {
                return Err(e);
            },
        };
        let name = match &decl.ident {
            Some(ident) => Member::Named(ident.clone()),
            None => Member::Unnamed(index),
        };
        Ok(Field { name, span: decl.span, attrs })
    }
}

fn duplicate_member(m: &Member) -> (r: Member)
    ensures
        r == *m,
{
    match m {
        Member::Named(n) => Member::Named(n.clone()),
        Member::Unnamed(i) => Member::Unnamed(*i),
    }
}

/// The statement for the field at position `index`, which is not skipped.
pub fn gen_assignment(field: &Field, index: usize, default: &Option<StrategyPath>) -> (r: Assignment)
    ensures
        r@ == assignment_of(
            field@,
            index as int,
            match default {
                Some(p) => Some(p@),
                None => None,
            },
        ),
{
    let member = duplicate_member(&field.name);
    match &field.attrs.strategy {
        Some(p) => Assignment { index, member, action: Action::Strategy(p.duplicate()), span: p.span },
        None => match default {
            Some(p) => Assignment {
                index,
                member,
                action: Action::Strategy(p.duplicate()),
                span: p.span,
            },
            None => Assignment { index, member, action: Action::Recurse, span: field.span },
        },
    }
}

pub open spec fn path_models(p: Option<StrategyPath>) -> Option<PathModel> {
    match p {
        Some(p) => Some(p@),
        None => None,
    }
}

pub open spec fn field_models(s: Seq<Field>) -> Seq<FieldModel> {
    s.map_values(|f: Field| f@)
}

/// The statements for `fields`, in order, skipped fields left out.
pub fn gen_assignments(fields: &Vec<Field>, default: &Option<StrategyPath>) -> (r: Vec<Assignment>)
    ensures
        assignment_models(r@) == assignments_of(field_models(fields@), path_models(*default)),
{
    let mut out: Vec<Assignment> = Vec::new();
    let mut i: usize = 0;
    while i < fields.len()
        invariant
            i <= fields@.len(),
            assignment_models(out@) == assignments_of(
                field_models(fields@.subrange(0, i as int)),
                path_models(*default),
            ),
        decreases fields@.len() - i,
    {
        let ghost prefix = field_models(fields@.subrange(0, i as int));
        assert(field_models(fields@.subrange(0, i + 1)).drop_last() =~= prefix);
        assert(field_models(fields@.subrange(0, i + 1)).last() == fields@[i as int]@);
        if !fields[i].attrs.skip {
            let ghost before = out@;
            out.push(gen_assignment(&fields[i], i, default));
            assert(assignment_models(out@) =~= assignment_models(before).push(out@.last()@));
        }
        i += 1;
    }
    assert(fields@.subrange(0, i as int) =~= fields@);
    out
}

/// Generates the implementation for a struct named `ident` with the fields
/// `decls` and the record's default strategy `default`.
pub fn impl_merge_for_struct(
    ident: &String,
    decls: &Vec<FieldDecl>,
    default: &Option<StrategyPath>,
) -> (r: Result<MergeImpl, Diagnostic>)
    ensures
        models(
            r,
            match fields_model(decls@) {
                Err(e) => Err(e),
                Ok(fs) => Ok(
                    ImplModel { ident: *ident, assignments: assignments_of(fs, path_models(*default)) },
                ),
            },
        ),
{
    let mut fields: Vec<Field> = Vec::new();
    let mut i: usize = 0;
    assert(decls@.subrange(0, 0) =~= Seq::<FieldDecl>::empty());
    assert(field_models(fields@) =~= Seq::<FieldModel>::empty());
    while i < decls.len()
        invariant
            i <= decls@.len(),
            fields@.len() == i,
            fields_model(decls@.subrange(0, i as int)) == Ok::<Seq<FieldModel>, Diagnostic>(
                field_models(fields@),
            ),
        decreases decls@.len() - i,
    {
        assert(decls@.subrange(0, i + 1).drop_last() =~= decls@.subrange(0, i as int));
        match Field::from_decl(i, &decls[i]) {
            Err(e) => {
                proof {
                    lemma_fields_error_persists(decls@, i + 1);
                }
                return Err(e);
            },
            Ok(f) => {
                let ghost before = fields@;
                fields.push(f);
                assert(field_models(fields@) =~= field_models(before).push(fields@.last()@));
            },
        }
        i += 1;
    }
    assert(decls@.subrange(0, i as int) =~= decls@);
    let assignments = gen_assignments(&fields, default);
    Ok(MergeImpl { ident: ident.clone(), assignments })
}

/// Generates the `Merge` implementation for `input`, or reports why it
/// cannot be generated.
pub fn impl_merge(input: &DeriveInput) -> (r: Result<MergeImpl, Diagnostic>)
    ensures
        models(r, derived(*input)),
{
    match &input.body {
        Body::Struct(decls) => {
            let record = match FieldAttrs::from_attrs(&input.attrs, false) {
                Ok(a) => a,
                Err(e) => {
                    return Err(e);
                },
            };
            impl_merge_for_struct(&input.ident, decls, &record.strategy)
        },
        _ => Err(Diagnostic { kind: DiagnosticKind::NotAStruct, span: input.span }),
    }
}

} // verus!
