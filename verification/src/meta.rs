//! The structured form of an attribute expression, as plain values: an
//! identifier, an identifier bound to a literal, or an identifier applied to a
//! parenthesized list of nested expressions.
use vstd::prelude::*;
use vstd::string::StringExecFns;

verus! {

/// A source location: byte offsets into the text an expression was read from.
#[derive(Debug, Clone, Copy, PartialEq, Eq, Structural, Hash)]
pub struct Span {
    pub lo: usize,
    pub hi: usize,
}

/// An identifier together with its source location.
#[derive(Debug, PartialEq, Hash)]
pub struct Ident {
    pub name: String,
    pub span: Span,
}

/// The mathematical shape of an `Ident`.
pub ghost struct IdentView {
    pub name: Seq<char>,
    pub span: Span,
}

impl View for Ident {
    type V = IdentView;

    open spec fn view(&self) -> IdentView {
        IdentView { name: self.name@, span: self.span }
    }
}

/// A literal value, already decoded to plain data.
#[derive(Debug, PartialEq, Hash)]
pub enum Literal {
    /// A string literal's decoded text.
    Str(String),
    /// A byte-string literal's decoded text.
    ByteStr(String),
    /// A byte literal.
    Byte(u8),
    /// A character literal.
    Char(char),
    /// An unsuffixed or suffixed integer literal's value.
    Int(u64),
    /// A float literal's decimal text.
    Float(String),
    /// A boolean literal.
    Bool(bool),
    /// Any other literal, as raw text.
    Verbatim(String),
}

/// The mathematical shape of a `Literal`.
pub ghost enum LiteralView {
    Str(Seq<char>),
    ByteStr(Seq<char>),
    Byte(u8),
    Char(char),
    Int(u64),
    Float(Seq<char>),
    Bool(bool),
    Verbatim(Seq<char>),
}

impl View for Literal {
    type V = LiteralView;

    open spec fn view(&self) -> LiteralView {
        match self {
            Literal::Str(s) => LiteralView::Str(s@),
            Literal::ByteStr(s) => LiteralView::ByteStr(s@),
            Literal::Byte(b) => LiteralView::Byte(*b),
            Literal::Char(c) => LiteralView::Char(*c),
            Literal::Int(n) => LiteralView::Int(*n),
            Literal::Float(s) => LiteralView::Float(s@),
            Literal::Bool(b) => LiteralView::Bool(*b),
            Literal::Verbatim(s) => LiteralView::Verbatim(s@),
        }
    }
}

/// A structured attribute expression.
#[derive(Debug, PartialEq, Hash)]
pub enum MetaItem {
    /// A bare identifier.
    Word(Ident),
    /// An identifier bound to a literal, `name = literal`; the span covers the
    /// whole binding.
    NameValue(Ident, Literal, Span),
    /// An identifier applied to a parenthesized list, `name(...)`; the span
    /// covers the whole list.
    List(Ident, Vec<NestedItem>, Span),
}

/// One element of a parenthesized list: a nested expression or a literal.
#[derive(Debug, PartialEq, Hash)]
pub enum NestedItem {
    MetaItem(MetaItem),
    Literal(Literal, Span),
}

/// The mathematical shape of a `MetaItem`.
pub ghost enum MetaItemView {
    Word(IdentView),
    NameValue(IdentView, LiteralView, Span),
    List(IdentView, Seq<NestedItemView>, Span),
}

/// The mathematical shape of a `NestedItem`.
pub ghost enum NestedItemView {
    MetaItem(Box<MetaItemView>),
    Literal(LiteralView, Span),
}

/// The view of a structured attribute expression.
pub open spec fn meta_view(m: MetaItem) -> MetaItemView
    decreases m, 1int,
{
    match m {
        MetaItem::Word(id) => MetaItemView::Word(id@),
        MetaItem::NameValue(id, l, sp) => MetaItemView::NameValue(id@, l@, sp),
        MetaItem::List(id, items, sp) => MetaItemView::List(id@, nested_views(items@), sp),
    }
}

/// The views of a sequence of list elements, element by element.
pub open spec fn nested_views(items: Seq<NestedItem>) -> Seq<NestedItemView>
    decreases items, 0int,
{
    Seq::new(
        items.len(),
        |i: int|
            if 0 <= i < items.len() {
                nested_view(items[i])
            } else {
                NestedItemView::Literal(LiteralView::Bool(false), Span { lo: 0, hi: 0 })
            },
    )
}

/// The view of one list element.
pub open spec fn nested_view(n: NestedItem) -> NestedItemView
    decreases n, 2int,
{
    match n {
        NestedItem::MetaItem(m) => NestedItemView::MetaItem(Box::new(meta_view(m))),
        NestedItem::Literal(l, sp) => NestedItemView::Literal(l@, sp),
    }
}

impl View for MetaItem {
    type V = MetaItemView;

    open spec fn view(&self) -> MetaItemView {
        meta_view(*self)
    }
}

impl View for NestedItem {
    type V = NestedItemView;

    open spec fn view(&self) -> NestedItemView {
        nested_view(*self)
    }
}

/// The source location of a structured expression.
pub open spec fn meta_span(m: MetaItemView) -> Span {
    match m {
        MetaItemView::Word(id) => id.span,
        MetaItemView::NameValue(_, _, sp) => sp,
        MetaItemView::List(_, _, sp) => sp,
    }
}

/// The source location of a list element.
pub open spec fn nested_span(n: NestedItemView) -> Span {
    match n {
        NestedItemView::MetaItem(m) => meta_span(*m),
        NestedItemView::Literal(_, sp) => sp,
    }
}

/// The name at the head of a structured expression.
pub open spec fn meta_name(m: MetaItemView) -> Seq<char> {
    match m {
        MetaItemView::Word(id) => id.name,
        MetaItemView::NameValue(id, _, _) => id.name,
        MetaItemView::List(id, _, _) => id.name,
    }
}

impl MetaItem {
    /// The name at the head of this expression.
    pub fn name(&self) -> (r: &String)
        ensures
            r@ == meta_name(self@),
    {
        match self {
            MetaItem::Word(id) => &id.name,
            MetaItem::NameValue(id, _, _) => &id.name,
            MetaItem::List(id, _, _) => &id.name,
        }
    }

    /// The source location of this expression.
    pub fn span(&self) -> (r: Span)
        ensures
            r == meta_span(self@),
    {
        match self {
            MetaItem::Word(id) => id.span,
            MetaItem::NameValue(_, _, sp) => *sp,
            MetaItem::List(_, _, sp) => *sp,
        }
    }
}

impl NestedItem {
    /// The source location of this list element.
    pub fn span(&self) -> (r: Span)
        ensures
            r == nested_span(self@),
    {
        match self {
            NestedItem::MetaItem(m) => m.span(),
            NestedItem::Literal(_, sp) => *sp,
        }
    }
}

/// The decimal digit character for `d` (digits ten and above never arise).
pub open spec fn digit_char(d: nat) -> char {
    if d == 0 {
        '0'
    } else if d == 1 {
        '1'
    } else if d == 2 {
        '2'
    } else if d == 3 {
        '3'
    } else if d == 4 {
        '4'
    } else if d == 5 {
        '5'
    } else if d == 6 {
        '6'
    } else if d == 7 {
        '7'
    } else if d == 8 {
        '8'
    } else {
        '9'
    }
}

/// The decimal digits of `n`, most significant first.
pub open spec fn dec_digits(n: nat) -> Seq<char>
    decreases n,
{
    if n < 10 {
        seq![digit_char(n)]
    } else {
        dec_digits(n / 10).push(digit_char(n % 10))
    }
}

/// The one-character string for a decimal digit.
fn digit_str(d: u64) -> (r: &'static str)
    requires
        d < 10,
    ensures
        r@ =~= seq![digit_char(d as nat)],
{
    proof {
        reveal_strlit("0");
        reveal_strlit("1");
        reveal_strlit("2");
        reveal_strlit("3");
        reveal_strlit("4");
        reveal_strlit("5");
        reveal_strlit("6");
        reveal_strlit("7");
        reveal_strlit("8");
        reveal_strlit("9");
    }
    if d == 0 {
        "0"
    } else if d == 1 {
        "1"
    } else if d == 2 {
        "2"
    } else if d == 3 {
        "3"
    } else if d == 4 {
        "4"
    } else if d == 5 {
        "5"
    } else if d == 6 {
        "6"
    } else if d == 7 {
        "7"
    } else if d == 8 {
        "8"
    } else {
        "9"
    }
}

/// Renders `n` in decimal.
fn u64_to_dec(n: u64) -> (r: String)
    ensures
        r@ == dec_digits(n as nat),
    decreases n,
{
    let digit = digit_str(n % 10);
    if n < 10 {
        digit.to_owned()
    } else {
        let mut s = u64_to_dec(n / 10);
        s.append(digit);
        s
    }
}

/// Relies on char::to_string: the string holding exactly the one character.
#[verifier::external_body]
pub(crate) fn char_to_string(c: char) -> (r: String)
    ensures
        r@ =~= seq![c],
{
    c.to_string()
}

/// The canonical text of a literal: string-like literals give their decoded
/// text, byte and character literals the one-character string, integer
/// literals their decimal form, and boolean literals `true` or `false`.
pub open spec fn spec_lit_str(l: LiteralView) -> Seq<char> {
    match l {
        LiteralView::Str(s) => s,
        LiteralView::ByteStr(s) => s,
        LiteralView::Byte(b) => seq![b as char],
        LiteralView::Char(c) => seq![c],
        LiteralView::Int(n) => dec_digits(n as nat),
        LiteralView::Float(s) => s,
        LiteralView::Bool(b) => if b {
            "true"@
        } else {
            "false"@
        },
        LiteralView::Verbatim(s) => s,
    }
}

/// Canonicalizes a literal to its text form.
pub fn lit_to_string(lit: &Literal) -> (r: String)
    ensures
        r@ == spec_lit_str(lit@),
{
    match lit {
        Literal::Str(s) => s.clone(),
        Literal::ByteStr(s) => s.clone(),
        Literal::Byte(b) => char_to_string(*b as char),
        Literal::Char(c) => char_to_string(*c),
        Literal::Int(n) => u64_to_dec(*n),
        Literal::Float(s) => s.clone(),
        Literal::Bool(b) => if *b {
            "true".to_owned()
        } else {
            "false".to_owned()
        },
        Literal::Verbatim(s) => s.clone(),
    }
}

} // verus!
