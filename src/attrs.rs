//! The `merge` attributes: `skip` and `strategy = path` on a field, and
//! `strategy = path` on a record.
use vstd::prelude::*;

use crate::syntax::{Attribute, Span, Token, TokenKind};

verus! {

/// What went wrong while reading a declaration.
#[derive(Debug, PartialEq, Eq)]
pub enum DiagnosticKind {
    /// An attribute key that is not recognised here; it names the key.
    UnknownAttribute(String),
    /// An identifier was expected.
    ExpectedIdent,
    /// `=` was expected after `strategy`.
    ExpectedEquals,
    /// `,` or the end of the list was expected after an entry.
    ExpectedComma,
    /// A `merge` attribute lacks its parenthesised argument list.
    ExpectedParens,
    /// The type is not a struct.
    NotAStruct,
}

/// A diagnostic and the position it refers to.
#[derive(Debug, PartialEq, Eq)]
pub struct Diagnostic {
    pub kind: DiagnosticKind,
    pub span: Span,
}

/// A path to a strategy function, such as `conflate::vec::append`.
#[derive(Debug)]
pub struct StrategyPath {
    pub leading_colon: bool,
    pub segments: Vec<String>,
    /// The position of the path's first token.
    pub span: Span,
}

pub struct PathModel {
    pub leading_colon: bool,
    pub segments: Seq<String>,
    pub span: Span,
}

impl View for StrategyPath {
    type V = PathModel;

    open spec fn view(&self) -> PathModel {
        PathModel { leading_colon: self.leading_colon, segments: self.segments@, span: self.span }
    }
}

/// One entry of a `merge` attribute's argument list.
#[derive(Debug)]
pub enum FieldAttr {
    Skip(Span),
    Strategy(StrategyPath),
}

pub enum EntryModel {
    Skip(Span),
    Strategy(PathModel),
}

impl View for FieldAttr {
    type V = EntryModel;

    open spec fn view(&self) -> EntryModel {
        match self {
            FieldAttr::Skip(s) => EntryModel::Skip(*s),
            FieldAttr::Strategy(p) => EntryModel::Strategy(p@),
        }
    }
}

pub open spec fn entry_models(entries: Seq<FieldAttr>) -> Seq<EntryModel> {
    entries.map_values(|e: FieldAttr| e@)
}

pub open spec fn is_punct(t: Token, c: char) -> bool {
    t.kind matches TokenKind::Punct(p) && p == c
}

/// Tokens `i` and `i + 1` form `::`.
pub open spec fn is_path_sep(toks: Seq<Token>, i: int) -> bool {
    &&& 0 <= i
    &&& i + 1 < toks.len()
    &&& is_punct(toks[i], ':')
    &&& toks[i].joint
    &&& is_punct(toks[i + 1], ':')
}

/// The position of token `i`, or `end` past the last token.
pub open spec fn span_at(toks: Seq<Token>, i: int, end: Span) -> Span {
    if 0 <= i < toks.len() {
        toks[i].span
    } else {
        end
    }
}

pub open spec fn failure<T>(kind: DiagnosticKind, span: Span) -> Result<T, Diagnostic> {
    Err(Diagnostic { kind, span })
}

/// The entries of an argument list from token `i` on, after the entries
/// `acc`. `skip` is a key only when `field_level` holds; `end` is where a
/// missing token is reported.
pub open spec fn entries_from(
    toks: Seq<Token>,
    i: int,
    end: Span,
    field_level: bool,
    acc: Seq<EntryModel>,
) -> Result<Seq<EntryModel>, Diagnostic>
    decreases toks.len() - i, 2int,
{
    if i < 0 || i >= toks.len() {
        Ok(acc)
    } else {
        match toks[i].kind {
            TokenKind::Ident(key) => {
                if field_level && key@ == "skip"@ {
                    after_entry(toks, i + 1, end, field_level, acc.push(EntryModel::Skip(toks[i].span)))
                } else if key@ == "strategy"@ {
                    if i + 1 < toks.len() && is_punct(toks[i + 1], '=') {
                        path_from(toks, i + 2, end, field_level, acc)
                    } else {
                        failure(DiagnosticKind::ExpectedEquals, span_at(toks, i + 1, end))
                    }
                } else {
                    failure(DiagnosticKind::UnknownAttribute(key), toks[i].span)
                }
            },
            _ => failure(DiagnosticKind::ExpectedIdent, toks[i].span),
        }
    }
}

/// After an entry: the end of the list, or `,` and more entries.
pub open spec fn after_entry(
    toks: Seq<Token>,
    i: int,
    end: Span,
    field_level: bool,
    acc: Seq<EntryModel>,
) -> Result<Seq<EntryModel>, Diagnostic>
    decreases toks.len() - i, 1int,
{
    if i < 0 || i >= toks.len() {
        Ok(acc)
    } else if is_punct(toks[i], ',') {
        entries_from(toks, i + 1, end, field_level, acc)
    } else {
        failure(DiagnosticKind::ExpectedComma, toks[i].span)
    }
}

/// A path from token `i` on, with an optional leading `::`.
pub open spec fn path_from(
    toks: Seq<Token>,
    i: int,
    end: Span,
    field_level: bool,
    acc: Seq<EntryModel>,
) -> Result<Seq<EntryModel>, Diagnostic>
    decreases toks.len() - i, 1int,
{
    if is_path_sep(toks, i) {
        segments_from(toks, i + 2, end, field_level, acc, true, seq![], span_at(toks, i, end))
    } else {
        segments_from(toks, i, end, field_level, acc, false, seq![], span_at(toks, i, end))
    }
}

/// The segments of a path from token `i` on, after the segments `segs`.
pub open spec fn segments_from(
    toks: Seq<Token>,
    i: int,
    end: Span,
    field_level: bool,
    acc: Seq<EntryModel>,
    leading_colon: bool,
    segs: Seq<String>,
    start: Span,
) -> Result<Seq<EntryModel>, Diagnostic>
    decreases toks.len() - i, 0int,
{
    if i < 0 || i >= toks.len() {
        failure(DiagnosticKind::ExpectedIdent, end)
    } else {
        match toks[i].kind {
            TokenKind::Ident(name) => {
                let segs = segs.push(name);
                if is_path_sep(toks, i + 1) {
                    segments_from(toks, i + 3, end, field_level, acc, leading_colon, segs, start)
                } else {
                    let path = PathModel { leading_colon, segments: segs, span: start };
                    after_entry(toks, i + 1, end, field_level, acc.push(EntryModel::Strategy(path)))
                }
            },
            _ => failure(DiagnosticKind::ExpectedIdent, toks[i].span),
        }
    }
}

/// The entries of a whole argument list.
pub open spec fn entries_of(toks: Seq<Token>, end: Span, field_level: bool) -> Result<
    Seq<EntryModel>,
    Diagnostic,
> {
    entries_from(toks, 0, end, field_level, seq![])
}

fn is_word(s: &String, word: &str) -> (r: bool)
    ensures
        r == (s@ == word@),
{
    let w = word.to_owned();
    s.eq(&w)
}

fn token_is_punct(t: &Token, c: char) -> (r: bool)
    ensures
        r == is_punct(*t, c),
{
    match &t.kind {
        TokenKind::Punct(p) => *p == c,
        _ => false,
    }
}

fn token_is_path_sep(toks: &Vec<Token>, i: usize) -> (r: bool)
    ensures
        r == is_path_sep(toks@, i as int),
{
    i < toks.len() && toks.len() - i > 1 && token_is_punct(&toks[i], ':') && toks[i].joint
        && token_is_punct(&toks[i + 1], ':')
}

fn token_span(toks: &Vec<Token>, i: usize, end: Span) -> (r: Span)
    ensures
        r == span_at(toks@, i as int, end),
{
    if i < toks.len() {
        toks[i].span
    } else {
        end
    }
}

/// An executable parse step agrees with the grammar's outcome
/// `spec_result`: the same error, or success with `acc` holding exactly the
/// entries read.
pub open spec fn agrees(
    spec_result: Result<Seq<EntryModel>, Diagnostic>,
    r: Result<(), Diagnostic>,
    acc: Seq<FieldAttr>,
) -> bool {
    match spec_result {
        Ok(entries) => r is Ok && entry_models(acc) == entries,
        Err(e) => r == Err::<(), Diagnostic>(e),
    }
}

fn parse_entries_from(
    toks: &Vec<Token>,
    i: usize,
    end: Span,
    field_level: bool,
    acc: &mut Vec<FieldAttr>,
) -> (r: Result<(), Diagnostic>)
    ensures
        agrees(entries_from(toks@, i as int, end, field_level, entry_models(old(acc)@)), r, final(acc)@),
    decreases toks@.len() - i, 2int,
{
    if i >= toks.len() {
        return Ok(());
    }
    match &toks[i].kind {
        TokenKind::Ident(key) => {
            if field_level && is_word(key, "skip") {
                let ghost before = acc@;
                acc.push(FieldAttr::Skip(toks[i].span));
                assert(entry_models(acc@) == entry_models(before).push(EntryModel::Skip(toks@[i as int].span)));
                parse_after_entry(toks, i + 1, end, field_level, acc)
            } else if is_word(key, "strategy") {
                if toks.len() - i > 1 && token_is_punct(&toks[i + 1], '=') {
                    parse_path(toks, i + 2, end, field_level, acc)
                } else {
                    Err(Diagnostic { kind: DiagnosticKind::ExpectedEquals, span: token_span(toks, i + 1, end) })
                }
            } else {
                Err(Diagnostic { kind: DiagnosticKind::UnknownAttribute(key.clone()), span: toks[i].span })
            }
        },
        _ => Err(Diagnostic { kind: DiagnosticKind::ExpectedIdent, span: toks[i].span }),
    }
}

fn parse_after_entry(
    toks: &Vec<Token>,
    i: usize,
    end: Span,
    field_level: bool,
    acc: &mut Vec<FieldAttr>,
) -> (r: Result<(), Diagnostic>)
    ensures
        agrees(after_entry(toks@, i as int, end, field_level, entry_models(old(acc)@)), r, final(acc)@),
    decreases toks@.len() - i, 1int,
{
    if i >= toks.len() {
        Ok(())
    } else if token_is_punct(&toks[i], ',') {
        parse_entries_from(toks, i + 1, end, field_level, acc)
    } else {
        Err(Diagnostic { kind: DiagnosticKind::ExpectedComma, span: toks[i].span })
    }
}

fn parse_path(
    toks: &Vec<Token>,
    i: usize,
    end: Span,
    field_level: bool,
    acc: &mut Vec<FieldAttr>,
) -> (r: Result<(), Diagnostic>)
    requires
        i <= toks@.len() + 1,
    ensures
        agrees(path_from(toks@, i as int, end, field_level, entry_models(old(acc)@)), r, final(acc)@),
    decreases toks@.len() - i, 1int,
{
    let start = token_span(toks, i, end);
    if token_is_path_sep(toks, i) {
        assert(i + 1 < toks.len());
        parse_segments(toks, i + 2, end, field_level, acc, true, Vec::new(), start)
    } else {
        parse_segments(toks, i, end, field_level, acc, false, Vec::new(), start)
    }
}

fn parse_segments(
    toks: &Vec<Token>,
    i: usize,
    end: Span,
    field_level: bool,
    acc: &mut Vec<FieldAttr>,
    leading_colon: bool,
    segs: Vec<String>,
    start: Span,
) -> (r: Result<(), Diagnostic>)
    requires
        i <= toks@.len() + 1,
    ensures
        agrees(
            segments_from(toks@, i as int, end, field_level, entry_models(old(acc)@), leading_colon, segs@, start),
            r,
            final(acc)@,
        ),
    decreases toks@.len() - i, 0int,
{
    if i >= toks.len() {
        return Err(Diagnostic { kind: DiagnosticKind::ExpectedIdent, span: end });
    }
    match &toks[i].kind {
        TokenKind::Ident(name) => {
            let mut segs = segs;
            segs.push(name.clone());
            if token_is_path_sep(toks, i + 1) {
                parse_segments(toks, i + 3, end, field_level, acc, leading_colon, segs, start)
            } else {
                let ghost before = acc@;
                let path = StrategyPath { leading_colon, segments: segs, span: start };
                acc.push(FieldAttr::Strategy(path));
                assert(entry_models(acc@) == entry_models(before).push(acc@.last()@));
                parse_after_entry(toks, i + 1, end, field_level, acc)
            }
        },
        _ => Err(Diagnostic { kind: DiagnosticKind::ExpectedIdent, span: toks[i].span }),
    }
}

/// Reads the entries of a `merge` attribute's argument list. `skip` is
/// recognised only when `field_level` holds; `end` is the position reported
/// when the list ends too early.
pub fn parse_entries(toks: &Vec<Token>, end: Span, field_level: bool) -> (r: Result<
    Vec<FieldAttr>,
    Diagnostic,
>)
    ensures
        match entries_of(toks@, end, field_level) {
            Ok(entries) => r matches Ok(v) && entry_models(v@) == entries,
            Err(e) => r == Err::<Vec<FieldAttr>, Diagnostic>(e),
        },
{
    let mut acc: Vec<FieldAttr> = Vec::new();
    assert(entry_models(acc@) =~= seq![]);
    match parse_entries_from(toks, 0, end, field_level, &mut acc) {
        Ok(()) => Ok(acc),
        Err(e) => Err(e),
    }
}

/// `r` is the executable counterpart of the outcome `s`.
pub open spec fn models<T: View>(r: Result<T, Diagnostic>, s: Result<T::V, Diagnostic>) -> bool {
    match s {
        Ok(m) => r matches Ok(v) && v@ == m,
        Err(e) => r == Err::<T, Diagnostic>(e),
    }
}

/// The settings that a field's (or a record's) `merge` attributes make.
#[derive(Debug)]
pub struct FieldAttrs {
    pub skip: bool,
    pub strategy: Option<StrategyPath>,
}

pub struct AttrsModel {
    pub skip: bool,
    pub strategy: Option<PathModel>,
}

impl View for FieldAttrs {
    type V = AttrsModel;

    open spec fn view(&self) -> AttrsModel {
        AttrsModel {
            skip: self.skip,
            strategy: match self.strategy {
                Some(p) => Some(p@),
                None => None,
            },
        }
    }
}

/// The settings after one more entry: `skip` sets the flag, `strategy`
/// replaces any earlier strategy.
pub open spec fn applied(m: AttrsModel, e: EntryModel) -> AttrsModel {
    match e {
        EntryModel::Skip(_) => AttrsModel { skip: true, ..m },
        EntryModel::Strategy(p) => AttrsModel { strategy: Some(p), ..m },
    }
}

/// The settings after the entries `es`, in order.
pub open spec fn applied_all(m: AttrsModel, es: Seq<EntryModel>) -> AttrsModel
    decreases es.len(),
{
    if es.len() == 0 {
        m
    } else {
        applied_all(applied(m, es[0]), es.drop_first())
    }
}

pub open spec fn is_merge_attr(a: Attribute) -> bool {
    a.path@ == "merge"@
}

/// The settings that the attributes `attrs` make, or the first error among
/// them. Attributes other than `merge` are ignored.
pub open spec fn attrs_model(attrs: Seq<Attribute>, field_level: bool) -> Result<AttrsModel, Diagnostic>
    decreases attrs.len(),
{
    if attrs.len() == 0 {
        Ok(AttrsModel { skip: false, strategy: None })
    } else {
        match attrs_model(attrs.drop_last(), field_level) {
            Err(e) => Err(e),
            Ok(m) => {
                let a = attrs.last();
                if !is_merge_attr(a) {
                    Ok(m)
                } else {
                    match a.args {
                        None => failure(DiagnosticKind::ExpectedParens, a.span),
                        Some(toks) => match entries_of(toks@, a.span, field_level) {
                            Err(e) => Err(e),
                            Ok(es) => Ok(applied_all(m, es)),
                        },
                    }
                }
            },
        }
    }
}

/// An error among the first `n` attributes is the error of them all.
pub proof fn lemma_attrs_error_persists(attrs: Seq<Attribute>, n: int, field_level: bool)
    requires
        0 <= n <= attrs.len(),
        attrs_model(attrs.subrange(0, n), field_level) is Err,
    ensures
        attrs_model(attrs, field_level) == attrs_model(attrs.subrange(0, n), field_level),
    decreases attrs.len(),
{
    if attrs.len() == n {
        assert(attrs.subrange(0, n) =~= attrs);
    } else {
        assert(attrs.drop_last().subrange(0, n) =~= attrs.subrange(0, n));
        lemma_attrs_error_persists(attrs.drop_last(), n, field_level);
    }
}

impl StrategyPath {
    /// A copy of the path.
    pub fn duplicate(&self) -> (r: StrategyPath)
        ensures
            r@ == self@,
    {
        let mut segments: Vec<String> = Vec::new();
        let mut i: usize = 0;
        while i < self.segments.len()
            invariant
                i <= self.segments@.len(),
                segments@ == self.segments@.subrange(0, i as int),
            decreases self.segments@.len() - i,
        {
            segments.push(self.segments[i].clone());
            i += 1;
            assert(segments@ =~= self.segments@.subrange(0, i as int));
        }
        assert(segments@ =~= self.segments@);
        StrategyPath { leading_colon: self.leading_colon, segments, span: self.span }
    }
}

impl FieldAttrs {
    /// No skip and no strategy.
    pub fn new() -> (r: FieldAttrs)
        ensures
            r@ == (AttrsModel { skip: false, strategy: None }),
    {
        FieldAttrs { skip: false, strategy: None }
    }

    /// Records one entry.
    pub fn apply(&mut self, attr: FieldAttr)
        ensures
            final(self)@ == applied(old(self)@, attr@),
    {
        match attr {
            FieldAttr::Skip(_) => self.skip = true,
            FieldAttr::Strategy(path) => self.strategy = Some(path),
        }
    }

    /// Reads the `merge` attributes among `attrs`, in order. At the field
    /// level both `skip` and `strategy` are keys; at the record level only
    /// `strategy` is.
    pub fn from_attrs(attrs: &Vec<Attribute>, field_level: bool) -> (r: Result<FieldAttrs, Diagnostic>)
        ensures
            models(r, attrs_model(attrs@, field_level)),
    {
        let mut result = FieldAttrs::new();
        let mut i: usize = 0;
        while i < attrs.len()
            invariant
                i <= attrs@.len(),
                attrs_model(attrs@.subrange(0, i as int), field_level) == Ok::<AttrsModel, Diagnostic>(result@),
            decreases attrs@.len() - i,
        {
            let attr = &attrs[i];
            assert(attrs@.subrange(0, i + 1).drop_last() =~= attrs@.subrange(0, i as int));
            if is_word(&attr.path, "merge") {
                match &attr.args {
                    None => {
                        proof {
                            lemma_attrs_error_persists(attrs@, i + 1, field_level);
                        }
                        return Err(Diagnostic { kind: DiagnosticKind::ExpectedParens, span: attr.span });
                    },
                    Some(toks) => {
                        match parse_entries(toks, attr.span, field_level) {
                            Err(e) => {
                                proof {
                                    lemma_attrs_error_persists(attrs@, i + 1, field_level);
                                }
                                return Err(e);
                            },
                            Ok(entries) => {
                                let ghost m0 = result@;
                                let ghost es0 = entry_models(entries@);
                                let mut entries = entries;
                                while entries.len() > 0
                                    invariant
                                        applied_all(result@, entry_models(entries@)) == applied_all(m0, es0),
                                    decreases entries@.len(),
                                {
                                    let ghost es = entry_models(entries@);
                                    let e = entries.remove(0);
                                    assert(entry_models(entries@) =~= es.drop_first());
                                    result.apply(e);
                                }
                                assert(entry_models(entries@) =~= seq![]);
                            },
                        }
                    },
                }
            }
            i += 1;
        }
        assert(attrs@.subrange(0, i as int) =~= attrs@);
        Ok(result)
    }
}

} // verus!
