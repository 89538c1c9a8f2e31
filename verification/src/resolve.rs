//! From the crate numbers of one document to global crate identities.
//!
//! A document numbers the crates it speaks of: 0 is its own crate, and `n > 0`
//! is row `n - 1` of its dependency table, which must itself carry the number
//! `n`. Promotion replaces every crate number in a definition or reference by
//! the disambiguator that the document's prelude gives for it.

use vstd::prelude::*;
use crate::defs::{
    AbsDef, AbsItemId, AbsRef, CrateDisambiguator, Def, DefView, ItemId, Prelude, PreludeView,
    Ref, RefView,
};

verus! {

impl PreludeView {
    /// Whether the prelude gives crate number `id` an identity.
    pub open spec fn resolves(self, id: u32) -> bool {
        id == 0 || (id - 1 < self.external_crates.len() && self.external_crates[id - 1].num == id)
    }

    /// The identity of crate number `id`. Meaningful where `resolves(id)`.
    pub open spec fn resolve(self, id: u32) -> CrateDisambiguator {
        if id == 0 {
            self.crate_id.disambiguator
        } else {
            self.external_crates[id - 1].id.disambiguator
        }
    }

    /// Whether an optional item's crate number, if there is one, resolves.
    pub open spec fn resolves_opt(self, id: Option<ItemId<u32>>) -> bool {
        id matches Some(i) ==> self.resolves(i.krate)
    }

    /// The item under its global identity.
    pub open spec fn promote_item(self, id: ItemId<u32>) -> AbsItemId {
        ItemId { krate: self.resolve(id.krate), index: id.index }
    }

    pub open spec fn promote_opt(self, id: Option<ItemId<u32>>) -> Option<AbsItemId> {
        match id {
            Some(i) => Some(self.promote_item(i)),
            None => None,
        }
    }

    /// Whether every crate number in the definition resolves.
    pub open spec fn resolves_def(self, d: DefView<u32>) -> bool {
        &&& self.resolves(d.id.krate)
        &&& self.resolves_opt(d.parent)
        &&& self.resolves_opt(d.decl_id)
    }

    /// The definition with every crate number replaced by its identity.
    pub open spec fn promote_def(self, d: DefView<u32>) -> DefView<CrateDisambiguator> {
        DefView {
            kind: d.kind,
            name: d.name,
            id: self.promote_item(d.id),
            span: d.span,
            parent: self.promote_opt(d.parent),
            decl_id: self.promote_opt(d.decl_id),
        }
    }

    /// Whether the crate number of the reference's target resolves.
    pub open spec fn resolves_ref(self, r: RefView<u32>) -> bool {
        self.resolves(r.ref_id.krate)
    }

    /// The reference with its target under its global identity.
    pub open spec fn promote_ref(self, r: RefView<u32>) -> RefView<CrateDisambiguator> {
        RefView { kind: r.kind, ref_id: self.promote_item(r.ref_id), span: r.span }
    }
}

impl<T> ItemId<T> {
    /// The same item with its crate mapped through `f`.
    pub fn clone_map<U, F: FnOnce(&T) -> U>(&self, f: F) -> (r: ItemId<U>)
        requires
            call_requires(f, (&self.krate,)),
        ensures
            call_ensures(f, (&self.krate,), r.krate),
            r.index == self.index,
    {
        ItemId { krate: f(&self.krate), index: self.index }
    }
}

/// `to` is `from` with its crate replaced by something that `f` may return for it.
pub open spec fn item_mapped<T, U, F: Fn(&T) -> U>(f: F, from: ItemId<T>, to: ItemId<U>) -> bool {
    call_ensures(f, (&from.krate,), to.krate) && to.index == from.index
}

/// As `item_mapped`, for an item that may be absent.
pub open spec fn opt_item_mapped<T, U, F: Fn(&T) -> U>(
    f: F,
    from: Option<ItemId<T>>,
    to: Option<ItemId<U>>,
) -> bool {
    match from {
        Some(a) => to matches Some(b) && item_mapped(f, a, b),
        None => to is None,
    }
}

/// Whether `f` may be called on the crate of an item that may be absent.
pub open spec fn opt_item_mappable<T, U, F: Fn(&T) -> U>(f: F, from: Option<ItemId<T>>) -> bool {
    from matches Some(a) ==> call_requires(f, (&a.krate,))
}

fn map_item<T, U, F: Fn(&T) -> U>(id: &ItemId<T>, f: &F) -> (r: ItemId<U>)
    requires
        call_requires(*f, (&id.krate,)),
    ensures
        item_mapped(*f, *id, r),
{
    ItemId { krate: f(&id.krate), index: id.index }
}

fn map_opt_item<T, U, F: Fn(&T) -> U>(id: &Option<ItemId<T>>, f: &F) -> (r: Option<ItemId<U>>)
    requires
        opt_item_mappable(*f, *id),
    ensures
        opt_item_mapped(*f, *id, r),
{
    match id {
        Some(v) => Some(map_item(v, f)),
        None => None,
    }
}

impl<T> Def<T> {
    /// A copy of the definition with every crate in it mapped through `f`:
    /// its own, its parent's and that of the declaration it implements.
    pub fn clone_map<U, F: Fn(&T) -> U>(&self, f: F) -> (r: Def<U>)
        requires
            call_requires(f, (&self.id.krate,)),
            opt_item_mappable(f, self.parent),
            opt_item_mappable(f, self.decl_id),
        ensures
            r@.kind == self@.kind,
            r@.name == self@.name,
            r@.span == self@.span,
            item_mapped(f, self.id, r.id),
            opt_item_mapped(f, self.parent, r.parent),
            opt_item_mapped(f, self.decl_id, r.decl_id),
    {
        Def {
            kind: self.kind.clone(),
            name: self.name.clone(),
            id: map_item(&self.id, &f),
            span: self.span.clone(),
            parent: map_opt_item(&self.parent, &f),
            decl_id: map_opt_item(&self.decl_id, &f),
        }
    }
}

impl<T> Ref<T> {
    /// A copy of the reference with the crate of its target mapped through `f`.
    pub fn clone_map<U, F: FnOnce(&T) -> U>(&self, f: F) -> (r: Ref<U>)
        requires
            call_requires(f, (&self.ref_id.krate,)),
        ensures
            r@.kind == self@.kind,
            r@.span == self@.span,
            call_ensures(f, (&self.ref_id.krate,), r.ref_id.krate),
            r.ref_id.index == self.ref_id.index,
    {
        Ref {
            kind: self.kind.clone(),
            ref_id: ItemId { krate: f(&self.ref_id.krate), index: self.ref_id.index },
            span: self.span.clone(),
        }
    }
}

impl Prelude {
    /// Whether the prelude gives crate number `id` an identity.
    pub fn resolves(&self, id: u32) -> (r: bool)
        ensures
            r == self@.resolves(id),
    {
        if id == 0 {
            return true;
        }
        let at: usize = (id - 1) as usize;
        at < self.external_crates.len() && self.external_crates[at].num == id
    }

    /// The identity of crate number `id`: the prelude's own crate for 0,
    /// else the dependency in row `id - 1`, which carries the number `id`.
    pub fn disambiguator_for_id(&self, id: u32) -> (r: CrateDisambiguator)
        requires
            self@.resolves(id),
        ensures
            r == self@.resolve(id),
            id == 0 ==> r == self@.crate_id.disambiguator,
    {
        if id == 0 {
            return self.crate_id.disambiguator;
        }
        let krate = &self.external_crates[(id - 1) as usize];
        krate.id.disambiguator
    }

    /// The identity of crate number `id`, if the prelude has one for it.
    pub fn resolve(&self, id: u32) -> (r: Option<CrateDisambiguator>)
        ensures
            r is Some <==> self@.resolves(id),
            r matches Some(d) ==> d == self@.resolve(id),
    {
        if self.resolves(id) {
            Some(self.disambiguator_for_id(id))
        } else {
            None
        }
    }

    fn resolves_opt(&self, id: &Option<ItemId<u32>>) -> (r: bool)
        ensures
            r == self@.resolves_opt(*id),
    {
        match id {
            Some(i) => self.resolves(i.krate),
            None => true,
        }
    }

    /// The definition under global identities, if every crate number in it
    /// resolves.
    pub fn promote_def(&self, d: &Def<u32>) -> (r: Option<AbsDef>)
        ensures
            r is Some <==> self@.resolves_def(d@),
            r matches Some(g) ==> g@ == self@.promote_def(d@),
    {
        if !(self.resolves(d.id.krate) && self.resolves_opt(&d.parent) && self.resolves_opt(
            &d.decl_id,
        )) {
            return None;
        }
        let to_global = |w: &u32| -> (k: CrateDisambiguator)
            requires
                self@.resolves(*w),
            ensures
                self@.resolve(*w) == k,
            {
                self.disambiguator_for_id(*w)
            };
        Some(d.clone_map(to_global))
    }

    /// The reference under global identities, if the crate number of its
    /// target resolves.
    pub fn promote_ref(&self, r: &Ref<u32>) -> (res: Option<AbsRef>)
        ensures
            res is Some <==> self@.resolves_ref(r@),
            res matches Some(g) ==> g@ == self@.promote_ref(r@),
    {
        if !self.resolves(r.ref_id.krate) {
            return None;
        }
        let to_global = |w: &u32| -> (k: CrateDisambiguator)
            requires
                self@.resolves(*w),
            ensures
                self@.resolve(*w) == k,
            {
                self.disambiguator_for_id(*w)
            };
        Some(r.clone_map(to_global))
    }
}

} // verus!
