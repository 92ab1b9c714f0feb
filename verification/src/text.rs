//! The boundary to the attribute-syntax tokenizer: raw `#[cfg(...)]` text and
//! token streams are turned into the library's structured form by the `syn`
//! and `proc-macro2` crates, and everything after that point is the verified
//! parser.
use vstd::prelude::*;

use crate::meta::{Ident, MetaItemView};
use crate::parsing::{ErrView, ParseError, cfg, spec_parse_cfg, str_eq_string};
use crate::{Cfg, PredView};

verus! {

#[verifier::external_type_specification]
#[verifier::external_body]
pub struct ExSynMeta(syn::Meta);

#[verifier::external_type_specification]
#[verifier::external_body]
pub struct ExSynNestedMeta(syn::NestedMeta);

#[verifier::external_type_specification]
#[verifier::external_body]
pub struct ExSynLit(syn::Lit);

#[verifier::external_type_specification]
#[verifier::external_body]
pub struct ExSynPath(syn::Path);

#[verifier::external_type_specification]
#[verifier::external_body]
pub struct ExSynAttribute(syn::Attribute);

#[verifier::external_type_specification]
#[verifier::external_body]
pub struct ExSynError(syn::Error);

#[verifier::external_type_specification]
#[verifier::external_body]
pub struct ExSynMetaList(syn::MetaList);

#[verifier::external_type_specification]
#[verifier::external_body]
pub struct ExSynLitByteStr(syn::LitByteStr);

#[verifier::external_type_specification]
#[verifier::external_body]
pub struct ExSynLitInt(syn::LitInt);

/// The source location for a range of byte offsets.
fn span_of_range(r: core::ops::Range<usize>) -> (s: crate::meta::Span)
    ensures
        s.lo == r.start,
        s.hi == r.end,
{
    crate::meta::Span { lo: r.start, hi: r.end }
}

/// Relies on syn::Error: to_string gives its message, and span, through
/// proc_macro2::Span::byte_range, its location in the text.
#[verifier::external_body]
fn err_from_syn(e: syn::Error) -> ParseError {
    let sp = span_of_range(e.span().byte_range());
    ParseError { message: e.to_string(), span: sp }
}

/// Relies on syn::Path::get_ident: the path that is a single identifier, whose
/// name to_string gives.
#[verifier::external_body]
fn ident_from_path(p: &syn::Path) -> Result<Ident, ParseError> {
    match p.get_ident() {
        Some(i) => Ok(Ident { name: i.to_string(), span: span_of_range(i.span().byte_range()) }),
        None => Err(
            ParseError {
                message: "expected an identifier".to_string(),
                span: span_of_range(syn::spanned::Spanned::span(p).byte_range()),
            },
        ),
    }
}

/// Relies on syn::LitByteStr::value: the byte string's decoded bytes, read as
/// UTF-8 text.
#[verifier::external_body]
fn byte_str_from_syn(v: syn::LitByteStr) -> Result<crate::meta::Literal, ParseError> {
    match String::from_utf8(v.value()) {
        Ok(s) => Ok(crate::meta::Literal::ByteStr(s)),
        Err(_) => Err(
            ParseError {
                message: "byte string literal is not valid UTF-8".to_string(),
                span: span_of_range(v.span().byte_range()),
            },
        ),
    }
}

/// Relies on syn::LitInt::base10_parse: the integer literal's value, whatever
/// radix it was written in.
#[verifier::external_body]
fn int_from_syn(v: syn::LitInt) -> Result<crate::meta::Literal, ParseError> {
    match v.base10_parse::<u64>() {
        Ok(n) => Ok(crate::meta::Literal::Int(n)),
        Err(e) => Err(err_from_syn(e)),
    }
}

/// Relies on the syn::Lit accessors: each literal kind is moved to the
/// library's form of it, one arm per kind.
#[verifier::external_body]
fn lit_from_syn(l: syn::Lit) -> Result<crate::meta::Literal, ParseError> {
    match l {
        syn::Lit::Str(v) => Ok(crate::meta::Literal::Str(v.value())),
        syn::Lit::ByteStr(v) => byte_str_from_syn(v),
        syn::Lit::Byte(v) => Ok(crate::meta::Literal::Byte(v.value())),
        syn::Lit::Char(v) => Ok(crate::meta::Literal::Char(v.value())),
        syn::Lit::Int(v) => int_from_syn(v),
        syn::Lit::Float(v) => Ok(crate::meta::Literal::Float(v.base10_digits().to_string())),
        syn::Lit::Bool(v) => Ok(crate::meta::Literal::Bool(v.value)),
        syn::Lit::Verbatim(v) => Ok(crate::meta::Literal::Verbatim(v.to_string())),
    }
}

/// Relies on syn::MetaList: its name, nested elements and span, moved to the
/// library's form one for one.
#[verifier::external_body]
fn list_from_syn(l: syn::MetaList) -> Result<crate::meta::MetaItem, ParseError> {
    let sp = span_of_range(syn::spanned::Spanned::span(&l).byte_range());
    let id = ident_from_path(&l.path)?;
    let items: Result<Vec<crate::meta::NestedItem>, ParseError> =
        l.nested.into_iter().map(nested_from_syn).collect();
    Ok(crate::meta::MetaItem::List(id, items?, sp))
}

/// Relies on syn::Meta: one arm for each variant, fields moved to the
/// library's form.
#[verifier::external_body]
fn meta_from_syn(m: syn::Meta) -> Result<crate::meta::MetaItem, ParseError> {
    match m {
        syn::Meta::Path(p) => Ok(crate::meta::MetaItem::Word(ident_from_path(&p)?)),
        syn::Meta::NameValue(nv) => {
            let sp = span_of_range(syn::spanned::Spanned::span(&nv).byte_range());
            Ok(crate::meta::MetaItem::NameValue(ident_from_path(&nv.path)?, lit_from_syn(nv.lit)?, sp))
        },
        syn::Meta::List(l) => list_from_syn(l),
    }
}

/// Relies on syn::NestedMeta: one arm for each variant, fields moved to the
/// library's form.
#[verifier::external_body]
fn nested_from_syn(n: syn::NestedMeta) -> Result<crate::meta::NestedItem, ParseError> {
    match n {
        syn::NestedMeta::Meta(m) => Ok(crate::meta::NestedItem::MetaItem(meta_from_syn(m)?)),
        syn::NestedMeta::Lit(l) => {
            let sp = span_of_range(syn::spanned::Spanned::span(&l).byte_range());
            Ok(crate::meta::NestedItem::Literal(lit_from_syn(l)?, sp))
        },
    }
}

/// Relies on syn::Attribute::parse_meta: the attribute's structured content.
#[verifier::external_body]
fn meta_from_attr(a: &syn::Attribute) -> Result<crate::meta::MetaItem, ParseError> {
    match a.parse_meta() {
        Ok(m) => meta_from_syn(m),
        Err(e) => Err(err_from_syn(e)),
    }
}

/// Relies on syn::Path::get_ident: the name of an attribute whose path is a
/// single identifier.
#[verifier::external_body]
fn attr_name(a: &syn::Attribute) -> Option<String> {
    a.path.get_ident().map(|i| i.to_string())
}

/// Relies on syn::Attribute::parse_outer through syn::parse::Parser, and on
/// Attribute::parse_meta: the attributes the tokenizer reads out of the text,
/// in the library's structured form, or an error. Nothing is promised of the
/// outcome: proc-macro2 picks its lexer by probing for a procedural-macro
/// context at run time, so both the locations and, at sharp edges of the
/// grammar, the acceptance of a text can differ between environments. The
/// verified parser takes whatever comes back as its argument.
#[verifier::external_body]
fn parse_attr_text(s: &str) -> Result<Vec<crate::meta::MetaItem>, ParseError> {
    let attrs = match syn::parse::Parser::parse_str(syn::Attribute::parse_outer, s) {
        Ok(a) => a,
        Err(e) => return Err(err_from_syn(e)),
    };
    attrs.iter().map(meta_from_attr).collect()
}

impl Cfg {
    /// Parses one whole `#[cfg(...)]` attribute from text: the text must hold
    /// exactly one attribute, and that attribute must be named `cfg`. The
    /// tokenizer decides what the text reads as; whatever it hands back goes
    /// through the verified `parsing::cfg`, so anything returned is
    /// grammatical: some structured expression parses to it.
    pub fn parse(s: &str) -> (r: Result<Cfg, ParseError>)
        ensures
            r matches Ok(c) ==> exists|m: MetaItemView|
                spec_parse_cfg(m) == Ok::<PredView, ErrView>(c@),
    {
        match parse_attr_text(s) {
            Err(e) => Err(e),
            Ok(metas) => {
                if metas.len() == 1 {
                    let mut rest = metas;
                    let m = rest.remove(0);
                    let ghost mv = m@;
                    let res = cfg(m);
                    proof {
                        if res is Ok {
                            assert(spec_parse_cfg(mv) == Ok::<PredView, ErrView>(res->Ok_0@));
                        }
                    }
                    res
                } else {
                    Err(
                        ParseError {
                            message: "expect #[cfg(..)] attribute".to_owned(),
                            span: crate::meta::Span { lo: 0, hi: 0 },
                        },
                    )
                }
            },
        }
    }

    /// Finds the first attribute named `cfg` and parses it; a parse failure
    /// and an absent attribute both yield nothing. Anything returned is
    /// grammatical: some structured expression parses to it.
    pub fn find(attrs: &Vec<syn::Attribute>) -> (r: Option<Cfg>)
        ensures
            r matches Some(c) ==> exists|m: MetaItemView|
                spec_parse_cfg(m) == Ok::<PredView, ErrView>(c@),
    {
        let mut i: usize = 0;
        while i < attrs.len()
            decreases attrs@.len() - i,
        {
            let found = match attr_name(&attrs[i]) {
                Some(name) => str_eq_string(&name, "cfg"),
                None => false,
            };
            if found {
                return match meta_from_attr(&attrs[i]) {
                    Ok(m) => {
                        let ghost mv = m@;
                        match cfg(m) {
                            Ok(c) => {
                                proof {
                                    assert(spec_parse_cfg(mv) == Ok::<PredView, ErrView>(c@));
                                }
                                Some(c)
                            },
                            Err(_) => None,
                        }
                    },
                    Err(_) => None,
                };
            }
            i += 1;
        }
        None
    }
}

} // verus!
