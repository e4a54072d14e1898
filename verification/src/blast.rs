//! Drill and blast: the products of the palette, the chain being tied and what
//! a round adds up to.

use crate::ids::{DrillHoleId, HoleRef};
use crate::ieee::Point3;
use crate::search::{find_first, first_index, lemma_first_index};
use vstd::prelude::*;

verus! {

/// A product of the palette: a delay, its name and its colour.
pub struct DelayProduct {
    pub id: u64,
    pub delay_ms: u32,
    pub name: String,
    pub color: u32,
}

/// A leg that is shown before it is laid, and whether it replaces one.
#[derive(Clone, Copy, PartialEq, Eq, Structural, Debug)]
pub struct TieLeg {
    pub from: usize,
    pub to: usize,
    pub start: Point3,
    pub end: Point3,
    pub overwrite: bool,
}

/// What a round adds up to: where it starts, how many legs it has, how long it
/// runs and how many holes it never reaches.
pub struct BlastRound {
    pub initiations: Vec<(String, u32)>,
    pub connectors: usize,
    pub duration_ms: Option<u64>,
    pub unreached: usize,
}

/// The dialog for the initiation of one hole.
pub struct InitiationDialog {
    pub target: HoleRef,
    pub hole_name: String,
    pub delay_ms: u32,
    pub existing: bool,
}

/// The state of the workspace for drill and blast.
pub struct Blast {
    pub products: Vec<DelayProduct>,
    pub next_product_id: u64,
    pub active_product: Option<u64>,
    pub products_stale: bool,
    pub anchor: Option<HoleRef>,
    pub preview: Vec<TieLeg>,
    pub anchor_world: Option<Point3>,
    pub path_end_world: Option<Point3>,
    pub round_key: Option<(u64, u64)>,
    pub round: BlastRound,
    pub initiation_dialog: Option<InitiationDialog>,
    pub color_dialog: Option<DrillHoleId>,
}

/// What adding a product does.
pub open spec fn product_added(pre: Blast, delay_ms: u32, name: String, color: u32, post: Blast) -> bool {
    let product = DelayProduct { id: pre.next_product_id, delay_ms, name, color };
    &&& post == (Blast {
        products: post.products,
        next_product_id: (pre.next_product_id + 1) as u64,
        active_product: Some(pre.next_product_id),
        products_stale: true,
        ..pre
    })
    &&& post.products@ == pre.products@.push(product)
}

/// The first product of the palette.
pub open spec fn first_product(s: Seq<DelayProduct>) -> Option<u64> {
    if s.len() > 0 {
        Some(s[0].id)
    } else {
        None
    }
}

/// What dropping a product does: the choice falls back to the first where it
/// stood on it.
pub open spec fn product_deleted(pre: Blast, id: u64, post: Blast) -> bool {
    let i = first_index(pre.products@, |p: DelayProduct| p.id == id);
    if i >= pre.products@.len() {
        post == pre
    } else {
        &&& post == (Blast {
            products: post.products,
            active_product: if pre.active_product == Some(id) {
                first_product(post.products@)
            } else {
                pre.active_product
            },
            products_stale: true,
            ..pre
        })
        &&& post.products@ == pre.products@.remove(i)
    }
}

/// A new product stands at the end of the palette and is the one that is
/// chosen; all others keep their places.
pub proof fn law_product_stands_last(pre: Blast, delay_ms: u32, name: String, color: u32, post: Blast)
    requires
        product_added(pre, delay_ms, name, color, post),
    ensures
        post.products@.len() == pre.products@.len() + 1,
        post.products@.drop_last() == pre.products@,
        post.active_product == Some(post.products@.last().id),
        post.products@.last().delay_ms == delay_ms,
{
    assert(post.products@.drop_last() =~= pre.products@);
}

/// Adding a product and dropping it again leaves the palette as it
/// was, where its id was not taken.
pub proof fn law_added_product_can_be_dropped(pre: Blast, delay_ms: u32, name: String, color: u32, mid: Blast, post: Blast)
    requires
        product_added(pre, delay_ms, name, color, mid),
        product_deleted(mid, pre.next_product_id, post),
        !on_palette(pre.products@, pre.next_product_id),
    ensures
        post.products@ == pre.products@,
{
    let f = |p: DelayProduct| p.id == pre.next_product_id;
    let n = pre.products@.len() as int;
    lemma_first_index(mid.products@, f);
    let i = first_index(mid.products@, f);
    assert(f(mid.products@[n]));
    if i < n {
        assert(f(mid.products@[i]));
        assert(pre.products@[i].id == pre.next_product_id);
    }
    assert(mid.products@.remove(n) =~= pre.products@);
}

impl Blast {
    /// Adds a product at the end of the palette and chooses it.
    pub fn add_delay_product(&mut self, delay_ms: u32, name: String, color: u32)
        requires
            old(self).next_product_id < u64::MAX,
        ensures
            product_added(*old(self), delay_ms, name, color, *final(self)),
    {
        let id: u64 = self.next_product_id;
        self.products.push(DelayProduct { id, delay_ms, name, color });
        self.next_product_id = id + 1;
        self.active_product = Some(id);
        self.products_stale = true;
    }

    /// Drops a product from the palette.
    pub fn delete_delay_product(&mut self, id: u64)
        ensures
            product_deleted(*old(self), id, *final(self)),
    {
        let found = find_first(&self.products, Ghost(|p: DelayProduct| p.id == id), |p: &DelayProduct| -> (b: bool)
            ensures
                b == (p.id == id),
            { p.id == id });
        let at: usize = match found {
            Some(at) => at,
            None => {
                return ;
            },
        };
        self.products.remove(at);
        let chosen = match self.active_product {
            Some(a) => a == id,
            None => false,
        };
        if chosen {
            self.active_product = if self.products.len() > 0 {
                Some(self.products[0].id)
            } else {
                None
            };
        }
        self.products_stale = true;
    }

    /// The place of the product that is chosen.
    pub open spec fn chosen(&self) -> int {
        match self.active_product {
            Some(id) => first_index(self.products@, |p: DelayProduct| p.id == id),
            None => self.products@.len() as int,
        }
    }

    /// The product that is chosen.
    pub fn find_chosen(&self) -> (r: Option<usize>)
        ensures
            match r {
                Some(i) => i == self.chosen() && i < self.products@.len(),
                None => self.chosen() == self.products@.len(),
            },
    {
        match self.active_product {
            Some(id) => find_first(&self.products, Ghost(|p: DelayProduct| p.id == id), |p: &DelayProduct| -> (b: bool)
                ensures
                    b == (p.id == id),
                { p.id == id }),
            None => None,
        }
    }

    /// The chain once it was put down.
    pub open spec fn chain_down(self) -> Blast {
        Blast { anchor: None, anchor_world: None, path_end_world: None, ..self }
    }

    /// Puts the chain down; tells whether there was one.
    pub fn end_tie_chain(&mut self) -> (r: bool)
        ensures
            r == (old(self).anchor is Some || old(self).preview@.len() > 0),
            *final(self) == (Blast { preview: final(self).preview, ..old(self).chain_down() }),
            final(self).preview@.len() == 0,
    {
        let any = self.anchor.is_some() || self.preview.len() > 0;
        self.anchor = None;
        self.anchor_world = None;
        self.path_end_world = None;
        self.preview.clear();
        any
    }
}

/// The palette has a product with the id.
pub open spec fn on_palette(s: Seq<DelayProduct>, id: u64) -> bool {
    exists|i: int| 0 <= i < s.len() && (#[trigger] s[i]).id == id
}

/// The choice never stands on a product that is gone: where it stood on one of
/// the palette, it still does once another product, or that one, was dropped,
/// unless the palette is empty.
pub proof fn law_choice_stands_on_the_palette(pre: Blast, id: u64, post: Blast)
    requires
        product_deleted(pre, id, post),
        pre.active_product matches Some(chosen) ==> on_palette(pre.products@, chosen),
    ensures
        post.active_product matches Some(chosen) ==> on_palette(post.products@, chosen),
        pre.active_product is Some && post.products@.len() > 0 ==> post.active_product is Some,
{
    let f = |p: DelayProduct| p.id == id;
    lemma_first_index(pre.products@, f);
    let at = first_index(pre.products@, f);
    if at < pre.products@.len() {
        if pre.active_product == Some(id) {
            if post.products@.len() > 0 {
                assert(post.products@[0].id == post.active_product->0);
            }
        } else if pre.active_product is Some {
            let chosen = pre.active_product->0;
            let k = choose|k: int| 0 <= k < pre.products@.len() && (#[trigger] pre.products@[k]).id == chosen;
            if k < at {
                assert(post.products@[k].id == chosen);
            } else {
                assert(k != at);
                assert(post.products@[k - 1].id == chosen);
            }
        }
    }
}

} // verus!
