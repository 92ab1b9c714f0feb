use vstd::prelude::*;

pub mod laws;
pub mod matches;
pub mod meta;
pub mod parsing;
pub mod printing;
pub mod text;

verus! {

/// A configuration predicate: the boolean expression tree of `#[cfg(...)]`.
#[derive(Debug, PartialEq, Hash)]
pub enum Predicate {
    /// Succeeds when at least one sub-predicate succeeds.
    Any(Vec<Box<Predicate>>),
    /// Succeeds when every sub-predicate succeeds.
    All(Vec<Box<Predicate>>),
    /// Negation of the sub-predicate.
    Not(Box<Predicate>),
    /// A bare name: a presence test.
    Name(String),
    /// A name with a value: a name-and-value equality test.
    NameValue(String, String),
}

/// The mathematical shape of a `Predicate`: children as sequences, text as
/// sequences of characters.
pub ghost enum PredView {
    Any(Seq<PredView>),
    All(Seq<PredView>),
    Not(Box<PredView>),
    Name(Seq<char>),
    NameValue(Seq<char>, Seq<char>),
}

/// The views of a sequence of owned child predicates, element by element.
pub open spec fn pred_views(cs: Seq<Box<Predicate>>) -> Seq<PredView>
    decreases cs,
{
    Seq::new(
        cs.len(),
        |i: int|
            if 0 <= i < cs.len() {
                pred_view(*cs[i])
            } else {
                PredView::Name(Seq::empty())
            },
    )
}

/// The view of a predicate tree.
pub open spec fn pred_view(p: Predicate) -> PredView
    decreases p,
{
    match p {
        Predicate::Any(cs) => PredView::Any(pred_views(cs@)),
        Predicate::All(cs) => PredView::All(pred_views(cs@)),
        Predicate::Not(q) => PredView::Not(Box::new(pred_view(*q))),
        Predicate::Name(n) => PredView::Name(n@),
        Predicate::NameValue(n, v) => PredView::NameValue(n@, v@),
    }
}

impl View for Predicate {
    type V = PredView;

    open spec fn view(&self) -> PredView {
        pred_view(*self)
    }
}

/// The views of a sequence of predicates, element by element.
pub open spec fn views_of(ps: Seq<Predicate>) -> Seq<PredView> {
    Seq::new(ps.len(), |i: int| pred_view(ps[i]))
}

/// Boolean evaluation of configuration flags: one whole `#[cfg(...)]`
/// attribute, wrapping its single top-level predicate.
#[derive(Debug, PartialEq, Hash)]
pub struct Cfg(pub Predicate);

impl View for Cfg {
    type V = PredView;

    open spec fn view(&self) -> PredView {
        self.0@
    }
}

impl Cfg {
    /// The wrapped top-level predicate.
    pub fn predicate(&self) -> (r: &Predicate)
        ensures
            r == &self.0,
    {
        &self.0
    }

    /// Unwraps the top-level predicate.
    pub fn into_predicate(self) -> (r: Predicate)
        ensures
            r == self.0,
    {
        self.0
    }
}

/// Clones the children of `Any` or `All`, element by element.
fn clone_children(cs: &Vec<Box<Predicate>>) -> (r: Vec<Box<Predicate>>)
    ensures
        pred_views(r@) == pred_views(cs@),
    decreases *cs, 0int,
{
    let mut out: Vec<Box<Predicate>> = Vec::new();
    let mut i: usize = 0;
    while i < cs.len()
        invariant
            i <= cs@.len(),
            out@.len() == i,
            forall|j: int| 0 <= j < i ==> pred_views(out@)[j] == pred_views(cs@)[j],
        decreases cs@.len() - i,
    {
        proof {
            assert(decreases_to!(*cs => cs@));
            assert(decreases_to!(cs@ => cs@[i as int]));
        }
        let inner: &Predicate = &cs[i];
        out.push(Box::new(inner.clone()));
        i += 1;
    }
    proof {
        assert(pred_views(out@) =~= pred_views(cs@));
    }
    out
}

impl Clone for Predicate {
    /// A deep copy: the clone has the same view as the original.
    fn clone(&self) -> (r: Self)
        ensures
            r@ == self@,
        decreases *self, 1int,
    {
        match self {
            Predicate::Any(cs) => {
                proof {
                    assert(decreases_to!(*self => self->Any_0));
                }
                Predicate::Any(clone_children(cs))
            },
            Predicate::All(cs) => {
                proof {
                    assert(decreases_to!(*self => self->All_0));
                }
                Predicate::All(clone_children(cs))
            },
            Predicate::Not(q) => {
                let inner: &Predicate = q;
                Predicate::Not(Box::new(inner.clone()))
            },
            Predicate::Name(n) => Predicate::Name(n.clone()),
            Predicate::NameValue(n, v) => Predicate::NameValue(n.clone(), v.clone()),
        }
    }
}

impl Clone for Cfg {
    /// A deep copy: the clone has the same view as the original.
    fn clone(&self) -> (r: Self)
        ensures
            r@ == self@,
    {
        Cfg(self.0.clone())
    }
}

/// Boxes each predicate of a sequence, in order.
fn box_all(predicates: Vec<Predicate>) -> (r: Vec<Box<Predicate>>)
    ensures
        pred_views(r@) == views_of(predicates@),
{
    let ghost orig = predicates@;
    let mut rest = predicates;
    let mut children: Vec<Box<Predicate>> = Vec::new();
    while rest.len() > 0
        invariant
            children@.len() + rest@.len() == orig.len(),
            rest@ == orig.skip(children@.len() as int),
            forall|j: int|
                0 <= j < children@.len() ==> pred_views(children@)[j] == views_of(orig)[j],
        decreases rest@.len(),
    {
        let p = rest.remove(0);
        children.push(Box::new(p));
    }
    proof {
        assert(pred_views(children@) =~= views_of(orig));
    }
    children
}

/// A predicate that succeeds when any of the given sub-predicates succeeds;
/// with no sub-predicates it never succeeds.
pub fn any(predicates: Vec<Predicate>) -> (r: Predicate)
    ensures
        r@ == PredView::Any(views_of(predicates@)),
{
    Predicate::Any(box_all(predicates))
}

/// A predicate that succeeds when all of the given sub-predicates succeed;
/// with no sub-predicates it always succeeds.
pub fn all(predicates: Vec<Predicate>) -> (r: Predicate)
    ensures
        r@ == PredView::All(views_of(predicates@)),
{
    Predicate::All(box_all(predicates))
}

/// A predicate that negates the given sub-predicate.
pub fn not(predicate: Predicate) -> (r: Predicate)
    ensures
        r@ == PredView::Not(Box::new(predicate@)),
{
    Predicate::Not(Box::new(predicate))
}

/// A predicate that tests the presence of the name `n`.
pub fn name(n: &str) -> (r: Predicate)
    ensures
        r@ == PredView::Name(n@),
{
    Predicate::Name(n.to_owned())
}

/// A predicate that tests that the name `n` is declared with the value `v`.
pub fn name_value(n: &str, v: &str) -> (r: Predicate)
    ensures
        r@ == PredView::NameValue(n@, v@),
{
    Predicate::NameValue(n.to_owned(), v.to_owned())
}

} // verus!
