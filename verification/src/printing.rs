//! The printer: the canonical text of a predicate, and its canonical
//! structured form, which parses back to the same predicate.
use vstd::prelude::*;
use vstd::string::StringExecFns;

use crate::meta::{Ident, Literal, MetaItem, NestedItem, Span, nested_views};
use crate::parsing::{ErrView, spec_parse_items, spec_parse_meta, spec_parse_nested};
use crate::{Cfg, PredView, Predicate, pred_view, pred_views};

verus! {

/// The canonical text of a predicate: `any(a, b)`, `all(a, b)`, `not(a)`, a
/// bare name, or `name = "value"`.
pub open spec fn spec_render(p: PredView) -> Seq<char>
    decreases p, 1int,
{
    match p {
        PredView::Any(cs) => "any("@ + spec_render_list(cs) + ")"@,
        PredView::All(cs) => "all("@ + spec_render_list(cs) + ")"@,
        PredView::Not(q) => "not("@ + spec_render(*q) + ")"@,
        PredView::Name(n) => n,
        PredView::NameValue(n, v) => n + " = \""@ + v + "\""@,
    }
}

/// The children of `any` or `all`, joined by a comma and a space.
pub open spec fn spec_render_list(cs: Seq<PredView>) -> Seq<char>
    decreases cs, 0int,
{
    if cs.len() == 0 {
        Seq::empty()
    } else if cs.len() == 1 {
        spec_render(cs[0])
    } else {
        spec_render_list(cs.drop_last()) + ", "@ + spec_render(cs.last())
    }
}

/// The canonical text of a whole attribute.
pub open spec fn spec_render_cfg(p: PredView) -> Seq<char> {
    "#[cfg("@ + spec_render(p) + ")]"@
}

/// Renders the children of `any` or `all`.
#[verifier::loop_isolation(false)]
fn render_list(cs: &Vec<Box<Predicate>>) -> (r: String)
    ensures
        r@ == spec_render_list(pred_views(cs@)),
    decreases *cs, 0int,
{
    let ghost pv = pred_views(cs@);
    let mut out = String::new();
    let mut i: usize = 0;
    while i < cs.len()
        invariant
            i <= cs@.len(),
            out@ == spec_render_list(pv.take(i as int)),
        decreases cs@.len() - i,
    {
        proof {
            assert(decreases_to!(*cs => cs@));
            assert(decreases_to!(cs@ => cs@[i as int]));
        }
        if i > 0 {
            out.append(", ");
        }
        let t = cs[i].to_text();
        out.append(t.as_str());
        proof {
            assert(pv.take(i as int + 1).last() == pv[i as int]);
            assert(pv.take(i as int + 1).drop_last() =~= pv.take(i as int));
            if i == 0 {
                assert(out@ =~= spec_render_list(pv.take(1)));
            } else {
                assert(out@ =~= spec_render_list(pv.take(i as int)) + ", "@ + spec_render(
                    pv[i as int],
                ));
            }
        }
        i += 1;
    }
    proof {
        assert(pv.take(cs@.len() as int) =~= pv);
    }
    out
}

impl Predicate {
    /// Renders the predicate in its canonical text form.
    pub fn to_text(&self) -> (r: String)
        ensures
            r@ == spec_render(self@),
        decreases *self, 1int,
    {
        match self {
            Predicate::Any(cs) => {
                proof {
                    assert(decreases_to!(*self => self->Any_0));
                }
                let mut out = "any(".to_owned();
                let t = render_list(cs);
                out.append(t.as_str());
                out.append(")");
                proof {
                    assert(out@ =~= spec_render(self@));
                }
                out
            },
            Predicate::All(cs) => {
                proof {
                    assert(decreases_to!(*self => self->All_0));
                }
                let mut out = "all(".to_owned();
                let t = render_list(cs);
                out.append(t.as_str());
                out.append(")");
                proof {
                    assert(out@ =~= spec_render(self@));
                }
                out
            },
            Predicate::Not(q) => {
                let mut out = "not(".to_owned();
                let t = q.to_text();
                out.append(t.as_str());
                out.append(")");
                proof {
                    assert(out@ =~= spec_render(self@));
                }
                out
            },
            Predicate::Name(n) => n.clone(),
            Predicate::NameValue(n, v) => {
                let mut out = n.clone();
                out.append(" = \"");
                out.append(v.as_str());
                out.append("\"");
                proof {
                    assert(out@ =~= spec_render(self@));
                }
                out
            },
        }
    }
}

impl Cfg {
    /// Renders the whole attribute in its canonical text form,
    /// `#[cfg(<predicate>)]`.
    pub fn to_text(&self) -> (r: String)
        ensures
            r@ == spec_render_cfg(self@),
    {
        let mut out = "#[cfg(".to_owned();
        let t = self.0.to_text();
        out.append(t.as_str());
        out.append(")]");
        proof {
            assert(out@ =~= spec_render_cfg(self@));
        }
        out
    }
}

impl Predicate {
    /// The canonical structured form of the predicate. Parsing it back yields
    /// the predicate again: the structured round trip.
    pub fn to_meta(&self) -> (m: MetaItem)
        ensures
            spec_parse_meta(m@) == Ok::<PredView, ErrView>(self@),
        decreases *self, 1int,
    {
        let zero = Span { lo: 0, hi: 0 };
        match self {
            Predicate::Name(n) => MetaItem::Word(Ident { name: n.clone(), span: zero }),
            Predicate::NameValue(n, v) => MetaItem::NameValue(
                Ident { name: n.clone(), span: zero },
                Literal::Str(v.clone()),
                zero,
            ),
            Predicate::Not(q) => {
                let inner = q.to_meta();
                let items = vec![NestedItem::MetaItem(inner)];
                let m = MetaItem::List(Ident { name: "not".to_owned(), span: zero }, items, zero);
                proof {
                    reveal_strlit("any");
                    reveal_strlit("all");
                    reveal_strlit("not");
                    reveal_with_fuel(crate::meta::meta_view, 4);
                    reveal_with_fuel(spec_parse_meta, 5);
                    assert(("not"@)[0] == 'n');
                    assert(("any"@)[0] == 'a');
                    assert(("all"@)[0] == 'a');
                    assert(nested_views(items@)[0] == crate::meta::nested_view(items@[0]));
                    assert(spec_parse_meta(m@) == Ok::<PredView, ErrView>(self@));
                }
                m
            },
            Predicate::Any(cs) => {
                proof {
                    assert(decreases_to!(*self => self->Any_0));
                }
                let items = to_meta_list(cs);
                let m = MetaItem::List(Ident { name: "any".to_owned(), span: zero }, items, zero);
                proof {
                    reveal_strlit("any");
                    reveal_with_fuel(crate::meta::meta_view, 3);
                    reveal_with_fuel(spec_parse_meta, 3);
                }
                m
            },
            Predicate::All(cs) => {
                proof {
                    assert(decreases_to!(*self => self->All_0));
                }
                let items = to_meta_list(cs);
                let m = MetaItem::List(Ident { name: "all".to_owned(), span: zero }, items, zero);
                proof {
                    reveal_strlit("any");
                    reveal_strlit("all");
                    reveal_with_fuel(crate::meta::meta_view, 3);
                    reveal_with_fuel(spec_parse_meta, 3);
                    assert(("all"@)[1] == 'l');
                    assert(("any"@)[1] == 'n');
                }
                m
            },
        }
    }
}

/// The canonical structured forms of a sequence of children.
#[verifier::loop_isolation(false)]
fn to_meta_list(cs: &Vec<Box<Predicate>>) -> (items: Vec<NestedItem>)
    ensures
        spec_parse_items(nested_views(items@)) == Ok::<Seq<PredView>, ErrView>(pred_views(cs@)),
    decreases *cs, 0int,
{
    let ghost pv = pred_views(cs@);
    let mut items: Vec<NestedItem> = Vec::new();
    let mut i: usize = 0;
    while i < cs.len()
        invariant
            i <= cs@.len(),
            items@.len() == i,
            forall|j: int|
                0 <= j < i ==> spec_parse_nested(#[trigger] nested_views(items@)[j]) == Ok::<
                    PredView,
                    ErrView,
                >(pv[j]),
        decreases cs@.len() - i,
    {
        proof {
            assert(decreases_to!(*cs => cs@));
            assert(decreases_to!(cs@ => cs@[i as int]));
        }
        let m = cs[i].to_meta();
        let ghost prev = items@;
        items.push(NestedItem::MetaItem(m));
        proof {
            assert forall|j: int| 0 <= j < i + 1 implies spec_parse_nested(
                #[trigger] nested_views(items@)[j],
            ) == Ok::<PredView, ErrView>(pv[j]) by {
                assert(nested_views(items@)[j] == crate::meta::nested_view(items@[j]));
                if j < i {
                    assert(items@[j] == prev[j]);
                    assert(nested_views(prev)[j] == crate::meta::nested_view(prev[j]));
                } else {
                    assert(items@[j] == NestedItem::MetaItem(m));
                }
            }
        }
        i += 1;
    }
    proof {
        crate::parsing::lemma_parse_items_all_ok(nested_views(items@), pv);
    }
    items
}

} // verus!
