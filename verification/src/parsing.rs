//! The parser: from a structured attribute expression to a predicate tree,
//! enforcing the grammar and its arity rules.
use vstd::prelude::*;
use vstd::string::StringExecFns;

use crate::meta::{
    Ident, IdentView, Literal, LiteralView, MetaItem, MetaItemView, NestedItem, NestedItemView,
    Span, lit_to_string, meta_name, meta_span, nested_span, nested_views, spec_lit_str,
};
use crate::{Cfg, PredView, Predicate, pred_view, pred_views};

verus! {

/// A parse error: a human-readable message and the source location it refers
/// to.
#[derive(Debug, PartialEq)]
pub struct ParseError {
    pub message: String,
    pub span: Span,
}

/// The mathematical shape of a `ParseError`.
pub ghost struct ErrView {
    pub message: Seq<char>,
    pub span: Span,
}

impl View for ParseError {
    type V = ErrView;

    open spec fn view(&self) -> ErrView {
        ErrView { message: self.message@, span: self.span }
    }
}

/// The error message for an attribute that is not named `cfg`.
pub open spec fn msg_expect_cfg() -> Seq<char> {
    "expect #[cfg(..)] attribute"@
}

/// The error message for an empty top-level `cfg(...)` list.
pub open spec fn msg_cfg_empty() -> Seq<char> {
    "#[cfg(..)] predicate can't be empty"@
}

/// The error message for a top-level `cfg(...)` list with extra operands.
pub open spec fn msg_cfg_one() -> Seq<char> {
    "#[cfg(..)] only support one predicate"@
}

/// The error message for an empty `not(...)` list.
pub open spec fn msg_not_empty() -> Seq<char> {
    "#[cfg(not(..))] predicate can't be empty"@
}

/// The error message for a `not(...)` list with extra operands.
pub open spec fn msg_not_one() -> Seq<char> {
    "#[cfg(not(..))] only support one predicate"@
}

/// What debug-formatting a piece of text yields: the text between double
/// quotes, with every character escaped as in a Rust string literal. The
/// result is a function of the text alone.
pub uninterp spec fn debug_quoted(s: Seq<char>) -> Seq<char>;

/// Relies on std's Debug formatting for str (through `format!("{:?}", ..)`):
/// the quoted, escaped reading of the text, determined by the text alone.
#[verifier::external_body]
fn quote_debug(s: &str) -> (r: String)
    ensures
        r@ == debug_quoted(s@),
{
    format!("{:?}", s)
}

/// The error message for a literal standing where a sub-expression is
/// expected.
pub open spec fn msg_unexpected_literal(l: LiteralView) -> Seq<char> {
    "unexpected literal: "@ + debug_quoted(spec_lit_str(l))
}

/// The error message for an operator other than `any`, `all`, `not` or `cfg`.
pub open spec fn msg_unexpected_operator(name: Seq<char>) -> Seq<char> {
    "unexpected operator `"@ + name + "`"@
}

/// What a structured expression parses to: a bare identifier is a presence
/// test, `name = literal` is a name-and-value test with the literal
/// canonicalized to text, and a list is an operator application.
pub open spec fn spec_parse_meta(m: MetaItemView) -> Result<PredView, ErrView>
    decreases m, 1int,
{
    match m {
        MetaItemView::Word(id) => Ok(PredView::Name(id.name)),
        MetaItemView::NameValue(id, l, _) => Ok(PredView::NameValue(id.name, spec_lit_str(l))),
        MetaItemView::List(id, items, sp) => spec_parse_list(id, items, sp),
    }
}

/// What an operator application parses to: `any` and `all` take every operand,
/// `not` and a nested `cfg` take exactly one operand, and any other operator
/// is rejected by name.
pub open spec fn spec_parse_list(id: IdentView, items: Seq<NestedItemView>, sp: Span) -> Result<
    PredView,
    ErrView,
>
    decreases items, 3int,
{
    if id.name == "any"@ {
        match spec_parse_items(items) {
            Ok(ps) => Ok(PredView::Any(ps)),
            Err(e) => Err(e),
        }
    } else if id.name == "all"@ {
        match spec_parse_items(items) {
            Ok(ps) => Ok(PredView::All(ps)),
            Err(e) => Err(e),
        }
    } else if id.name == "not"@ {
        if items.len() == 0 {
            Err(ErrView { message: msg_not_empty(), span: sp })
        } else if items.len() > 1 {
            Err(ErrView { message: msg_not_one(), span: nested_span(items[1]) })
        } else {
            match spec_parse_nested(items[0]) {
                Ok(p) => Ok(PredView::Not(Box::new(p))),
                Err(e) => Err(e),
            }
        }
    } else if id.name == "cfg"@ {
        if items.len() == 0 {
            Err(ErrView { message: msg_cfg_empty(), span: sp })
        } else if items.len() > 1 {
            Err(ErrView { message: msg_cfg_one(), span: nested_span(items[1]) })
        } else {
            spec_parse_nested(items[0])
        }
    } else {
        Err(ErrView { message: msg_unexpected_operator(id.name), span: sp })
    }
}

/// What a sequence of operands parses to: every operand in order, stopped by
/// the first error.
pub open spec fn spec_parse_items(items: Seq<NestedItemView>) -> Result<Seq<PredView>, ErrView>
    decreases items, 0int,
{
    if items.len() == 0 {
        Ok(Seq::empty())
    } else {
        match spec_parse_nested(items[0]) {
            Err(e) => Err(e),
            Ok(p) => match spec_parse_items(items.drop_first()) {
                Err(e) => Err(e),
                Ok(ps) => Ok(seq![p] + ps),
            },
        }
    }
}

/// What one operand parses to: a nested expression parses as an expression, a
/// bare literal is rejected.
pub open spec fn spec_parse_nested(n: NestedItemView) -> Result<PredView, ErrView>
    decreases n, 2int,
{
    match n {
        NestedItemView::MetaItem(m) => spec_parse_meta(*m),
        NestedItemView::Literal(l, sp) => Err(
            ErrView { message: msg_unexpected_literal(l), span: sp },
        ),
    }
}

/// What a whole attribute parses to: the attribute must be named `cfg`.
pub open spec fn spec_parse_cfg(m: MetaItemView) -> Result<PredView, ErrView> {
    if meta_name(m) == "cfg"@ {
        spec_parse_meta(m)
    } else {
        Err(ErrView { message: msg_expect_cfg(), span: meta_span(m) })
    }
}

/// A predicate parse result, seen through the views.
pub open spec fn parse_result_view(r: Result<Predicate, ParseError>) -> Result<PredView, ErrView> {
    match r {
        Ok(p) => Ok(p@),
        Err(e) => Err(e@),
    }
}

/// A whole-attribute parse result, seen through the views.
pub open spec fn cfg_result_view(r: Result<Cfg, ParseError>) -> Result<PredView, ErrView> {
    match r {
        Ok(c) => Ok(c@),
        Err(e) => Err(e@),
    }
}

/// When every operand parses, the sequence parses to the operands' parses.
pub(crate) proof fn lemma_parse_items_all_ok(items: Seq<NestedItemView>, ps: Seq<PredView>)
    requires
        ps.len() == items.len(),
        forall|j: int|
            0 <= j < items.len() ==> spec_parse_nested(#[trigger] items[j]) == Ok::<
                PredView,
                ErrView,
            >(ps[j]),
    ensures
        spec_parse_items(items) == Ok::<Seq<PredView>, ErrView>(ps),
    decreases items.len(),
{
    if items.len() == 0 {
        assert(ps =~= Seq::empty());
    } else {
        assert forall|j: int| 0 <= j < items.drop_first().len() implies spec_parse_nested(
            #[trigger] items.drop_first()[j],
        ) == Ok::<PredView, ErrView>(ps.drop_first()[j]) by {
            assert(items.drop_first()[j] == items[j + 1]);
        }
        lemma_parse_items_all_ok(items.drop_first(), ps.drop_first());
        assert(seq![ps[0]] + ps.drop_first() =~= ps);
    }
}

/// The first failing operand decides: the sequence parses to its error when
/// every operand before it parses.
proof fn lemma_parse_items_first_err(items: Seq<NestedItemView>, k: int, e: ErrView)
    requires
        0 <= k < items.len(),
        forall|j: int| 0 <= j < k ==> (#[trigger] spec_parse_nested(items[j])) is Ok,
        spec_parse_nested(items[k]) == Err::<PredView, ErrView>(e),
    ensures
        spec_parse_items(items) == Err::<Seq<PredView>, ErrView>(e),
    decreases k,
{
    if k == 0 {
    } else {
        assert(spec_parse_nested(items[0]) is Ok);
        assert forall|j: int| 0 <= j < k - 1 implies (#[trigger] spec_parse_nested(
            items.drop_first()[j],
        )) is Ok by {
            assert(items.drop_first()[j] == items[j + 1]);
        }
        assert(items.drop_first()[k - 1] == items[k]);
        lemma_parse_items_first_err(items.drop_first(), k - 1, e);
    }
}

/// String contents equality.
pub(crate) fn str_eq_string(a: &String, b: &str) -> (r: bool)
    ensures
        r == (a@ == b@),
{
    *a == b.to_owned()
}

/// Parses a structured attribute expression to a predicate.
pub fn parse_meta(meta: MetaItem) -> (r: Result<Predicate, ParseError>)
    ensures
        parse_result_view(r) == spec_parse_meta(meta@),
    decreases meta, 1int,
{
    match meta {
        MetaItem::Word(id) => Ok(Predicate::Name(id.name)),
        MetaItem::NameValue(id, l, _) => Ok(Predicate::NameValue(id.name, lit_to_string(&l))),
        MetaItem::List(id, items, sp) => parse_meta_list(id, items, sp),
    }
}

/// Parses an operator applied to a parenthesized list of operands.
pub fn parse_meta_list(ident: Ident, nested: Vec<NestedItem>, span: Span) -> (r: Result<
    Predicate,
    ParseError,
>)
    ensures
        parse_result_view(r) == spec_parse_list(ident@, nested_views(nested@), span),
    decreases nested, 3int,
{
    let ghost iv = nested_views(nested@);
    if str_eq_string(&ident.name, "any") {
        match parse_items(nested) {
            Ok(children) => Ok(Predicate::Any(children)),
            Err(e) => Err(e),
        }
    } else if str_eq_string(&ident.name, "all") {
        match parse_items(nested) {
            Ok(children) => Ok(Predicate::All(children)),
            Err(e) => Err(e),
        }
    } else if str_eq_string(&ident.name, "not") {
        if nested.len() == 0 {
            Err(ParseError { message: "#[cfg(not(..))] predicate can't be empty".to_owned(), span })
        } else if nested.len() > 1 {
            let sp = nested[1].span();
            Err(ParseError { message: "#[cfg(not(..))] only support one predicate".to_owned(), span: sp })
        } else {
            let mut items = nested;
            let first = items.remove(0);
            match parse_nested_meta(first) {
                Ok(p) => Ok(Predicate::Not(Box::new(p))),
                Err(e) => Err(e),
            }
        }
    } else if str_eq_string(&ident.name, "cfg") {
        if nested.len() == 0 {
            Err(ParseError { message: "#[cfg(..)] predicate can't be empty".to_owned(), span })
        } else if nested.len() > 1 {
            let sp = nested[1].span();
            Err(ParseError { message: "#[cfg(..)] only support one predicate".to_owned(), span: sp })
        } else {
            let mut items = nested;
            let first = items.remove(0);
            parse_nested_meta(first)
        }
    } else {
        let mut message = "unexpected operator `".to_owned();
        message.append(ident.name.as_str());
        message.append("`");
        proof {
            assert(message@ =~= msg_unexpected_operator(ident@.name));
        }
        Err(ParseError { message, span })
    }
}

/// Parses every operand of a list, in order, stopping at the first error.
#[verifier::loop_isolation(false)]
fn parse_items(items: Vec<NestedItem>) -> (r: Result<Vec<Box<Predicate>>, ParseError>)
    ensures
        match r {
            Ok(children) => spec_parse_items(nested_views(items@)) == Ok::<
                Seq<PredView>,
                ErrView,
            >(pred_views(children@)),
            Err(e) => spec_parse_items(nested_views(items@)) == Err::<Seq<PredView>, ErrView>(e@),
        },
    decreases items, 0int,
{
    let ghost items0 = items;
    let ghost iv = nested_views(items@);
    let mut rest = items;
    let mut children: Vec<Box<Predicate>> = Vec::new();
    while rest.len() > 0
        invariant
            children@.len() + rest@.len() == iv.len(),
            rest@ =~= items0@.skip(children@.len() as int),
            forall|j: int|
                0 <= j < children@.len() ==> spec_parse_nested(#[trigger] iv[j]) == Ok::<
                    PredView,
                    ErrView,
                >(pred_views(children@)[j]),
        decreases rest@.len(),
    {
        let ghost k = children@.len() as int;
        let n = rest.remove(0);
        proof {
            assert(n == items0@[k]);
            assert(nested_views(items0@)[k] == crate::meta::nested_view(items0@[k]));
            assert(decreases_to!(items0 => items0@));
            assert(decreases_to!(items0@ => items0@[k]));
        }
        match parse_nested_meta(n) {
            Ok(p) => {
                children.push(Box::new(p));
                proof {
                    assert(pred_views(children@)[k] == pred_view(p));
                    assert forall|j: int| 0 <= j < children@.len() implies spec_parse_nested(
                        #[trigger] iv[j],
                    ) == Ok::<PredView, ErrView>(pred_views(children@)[j]) by {
                        if j < k {
                            assert(pred_views(children@)[j] == pred_view(
                                *children@.drop_last()[j],
                            ));
                        }
                    }
                }
            },
            Err(e) => {
                proof {
                    lemma_parse_items_first_err(iv, k, e@);
                }
                return Err(e);
            },
        }
    }
    proof {
        assert(pred_views(children@).len() == iv.len());
        lemma_parse_items_all_ok(iv, pred_views(children@));
    }
    Ok(children)
}

/// Parses one operand: a nested expression, or a rejected bare literal.
pub fn parse_nested_meta(nested_meta: NestedItem) -> (r: Result<Predicate, ParseError>)
    ensures
        parse_result_view(r) == spec_parse_nested(nested_meta@),
    decreases nested_meta, 2int,
{
    match nested_meta {
        NestedItem::MetaItem(m) => parse_meta(m),
        NestedItem::Literal(l, sp) => {
            let text = lit_to_string(&l);
            let q = quote_debug(text.as_str());
            let mut message = "unexpected literal: ".to_owned();
            message.append(q.as_str());
            proof {
                assert(message@ =~= msg_unexpected_literal(l@));
            }
            Err(ParseError { message, span: sp })
        },
    }
}

/// A runtime configuration to match flags: parses one whole structured `cfg`
/// attribute expression, which must be named `cfg`.
pub fn cfg(meta: MetaItem) -> (r: Result<Cfg, ParseError>)
    ensures
        cfg_result_view(r) == spec_parse_cfg(meta@),
{
    if str_eq_string(meta.name(), "cfg") {
        match parse_meta(meta) {
            Ok(p) => Ok(Cfg(p)),
            Err(e) => Err(e),
        }
    } else {
        let sp = meta.span();
        Err(ParseError { message: "expect #[cfg(..)] attribute".to_owned(), span: sp })
    }
}

} // verus!
