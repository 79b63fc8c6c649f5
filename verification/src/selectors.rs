//! Dependency selectors and variant configuration.

use vstd::prelude::*;

use crate::values::TypeId;

verus! {

/// A single typed dependency request: a product type and, optionally, the
/// name of a variant that must be configured for the request to apply.
#[derive(Debug, PartialEq, Eq)]
pub struct Select {
    pub product: TypeId,
    pub variant_key: Option<String>,
}

/// Mathematical view of a selector.
pub struct SelectV {
    pub product: TypeId,
    pub variant_key: Option<Seq<char>>,
}

impl DeepView for Select {
    type V = SelectV;

    open spec fn deep_view(&self) -> SelectV {
        SelectV { product: self.product, variant_key: self.variant_key.deep_view() }
    }
}

impl Select {
    /// A selector for a product with no variant restriction.
    pub fn without_variant(product: TypeId) -> (r: Select)
        ensures
            r.deep_view() == (SelectV { product, variant_key: None::<Seq<char>> }),
    {
        Select { product, variant_key: None }
    }
}

/// Copies a selector; the copy has the same mathematical view.
pub fn selector_clone(s: &Select) -> (r: Select)
    ensures
        r.deep_view() == s.deep_view(),
{
    Select {
        product: s.product,
        variant_key: match &s.variant_key {
            Some(k) => Some(k.clone()),
            None => None,
        },
    }
}

/// Compares two selectors; true exactly when their views are equal.
pub fn selector_eq(a: &Select, b: &Select) -> (r: bool)
    ensures
        r == (a.deep_view() == b.deep_view()),
{
    if a.product != b.product {
        return false;
    }
    match (&a.variant_key, &b.variant_key) {
        (None, None) => true,
        (Some(x), Some(y)) => *x == *y,
        _ => false,
    }
}

/// Variant configuration: an ordered mapping from variant name to variant
/// value, propagated down dependency edges. Lookups return the first entry
/// with a matching name.
#[derive(Debug, PartialEq, Eq)]
pub struct Variants {
    pub entries: Vec<(String, String)>,
}

/// First value configured for the given variant name, if any.
pub open spec fn spec_variants_find(
    entries: Seq<(Seq<char>, Seq<char>)>,
    key: Seq<char>,
) -> Option<Seq<char>>
    decreases entries.len(),
{
    if entries.len() == 0 {
        None
    } else if entries[0].0 == key {
        Some(entries[0].1)
    } else {
        spec_variants_find(entries.drop_first(), key)
    }
}

impl DeepView for Variants {
    type V = Seq<(Seq<char>, Seq<char>)>;

    open spec fn deep_view(&self) -> Seq<(Seq<char>, Seq<char>)> {
        self.entries.deep_view()
    }
}

impl Variants {
    /// The empty configuration.
    pub fn empty() -> (r: Variants)
        ensures
            r.deep_view() == Seq::<(Seq<char>, Seq<char>)>::empty(),
    {
        let r = Variants { entries: Vec::new() };
        proof {
            assert(r.deep_view() =~= Seq::<(Seq<char>, Seq<char>)>::empty());
        }
        r
    }

    /// Looks up the value configured for a variant name.
    #[verifier::loop_isolation(false)]
    pub fn find(&self, key: &str) -> (r: Option<&String>)
        ensures
            match r {
                Some(v) => spec_variants_find(self.deep_view(), key@) == Some(v@),
                None => spec_variants_find(self.deep_view(), key@) is None,
            },
    {
        let owned = key.to_owned();
        let ghost ev = self.entries.deep_view();
        let mut i: usize = 0;
        proof {
            assert(ev.skip(0) =~= ev);
        }
        while i < self.entries.len()
            invariant
                i <= self.entries.len(),
                spec_variants_find(ev, key@) == spec_variants_find(ev.skip(i as int), key@),
            decreases self.entries.len() - i,
        {
            proof {
                assert(ev.skip(i as int)[0] == ev[i as int]);
            }
            if self.entries[i].0 == owned {
                return Some(&self.entries[i].1);
            }
            proof {
                assert(ev.skip(i as int).drop_first() =~= ev.skip(i as int + 1));
            }
            i = i + 1;
        }
        proof {
            assert(ev.skip(self.entries@.len() as int).len() == 0);
        }
        None
    }
}

/// Copies a variant configuration; the copy has the same mathematical view.
#[verifier::loop_isolation(false)]
pub fn variants_clone(v: &Variants) -> (r: Variants)
    ensures
        r.deep_view() == v.deep_view(),
{
    let mut entries: Vec<(String, String)> = Vec::new();
    let mut i: usize = 0;
    while i < v.entries.len()
        invariant
            i <= v.entries.len(),
            entries@.len() == i,
            forall|j: int| #![all_triggers] 0 <= j < i ==> entries@[j].0@ == v.entries@[j].0@
                && entries@[j].1@ == v.entries@[j].1@,
        decreases v.entries.len() - i,
    {
        let e = &v.entries[i];
        entries.push((e.0.clone(), e.1.clone()));
        i = i + 1;
    }
    let r = Variants { entries };
    proof {
        assert(r.deep_view() =~= v.deep_view());
    }
    r
}

/// Compares two variant configurations; true exactly when their views are
/// equal.
#[verifier::loop_isolation(false)]
pub fn variants_eq(a: &Variants, b: &Variants) -> (r: bool)
    ensures
        r == (a.deep_view() == b.deep_view()),
{
    if a.entries.len() != b.entries.len() {
        proof {
            assert(a.deep_view().len() == a.entries@.len());
            assert(b.deep_view().len() == b.entries@.len());
        }
        return false;
    }
    let mut i: usize = 0;
    while i < a.entries.len()
        invariant
            i <= a.entries.len(),
            a.entries@.len() == b.entries@.len(),
            forall|j: int| #![all_triggers] 0 <= j < i ==> a.deep_view()[j] == b.deep_view()[j],
        decreases a.entries.len() - i,
    {
        if !(a.entries[i].0 == b.entries[i].0) || !(a.entries[i].1 == b.entries[i].1) {
            proof {
                assert(a.deep_view()[i as int] != b.deep_view()[i as int]);
            }
            return false;
        }
        i = i + 1;
    }
    proof {
        assert(a.deep_view() =~= b.deep_view());
    }
    true
}

} // verus!
