//! The projection engine: stable handles, the lazily materialized node
//! tree, once-only child expansion, attributes, and byte reads. Handles are
//! dense: handle `h` names the `h-1`-th materialized node, the root is
//! handle `1`, and nodes are never removed, so a handle stays valid until
//! unmount.
//!
//! A node itself never changes once materialized; the children slots live in
//! a column of their own, and a slot makes a single transition from
//! unloaded to loaded.

use vstd::prelude::*;
use vstd::string::*;
use vstd::utf8::encode_utf8;

use crate::client::BbClient;
use crate::error::BbError;
use crate::item::{display_name, spec_display_name, Item, ItemType, ItemView};
use crate::platform::{lemma_sanitize_idempotent, sanitize_name, spec_sanitize, Platform};
use crate::synth::{opt_item_view, spec_synthesize, synthesize_children};
use crate::text::str_eq;

verus! {

/// The engine's record for one materialized tree position. The node is
/// immutable for the mount's lifetime.
#[derive(Debug)]
pub struct Node {
    /// Handle of the parent; `None` only for the root.
    pub parent: Option<u64>,
    /// The sanitized display name the host sees.
    pub name: String,
    /// The underlying item.
    pub item: Item,
    /// The filesystem kind, cached; always equals the item's classification.
    pub kind: ItemType,
}

/// Attributes of a node, as the host-facing adapter needs them.
pub struct NodeAttr {
    pub kind: ItemType,
    pub size: u64,
}

/// One directory entry of a listing.
#[derive(Debug)]
pub struct DirEntry {
    pub handle: u64,
    pub kind: ItemType,
    pub name: String,
}

/// The projection engine over a content provider.
pub struct Bbfs<C: BbClient> {
    pub client: C,
    pub platform: Platform,
    /// The materialized nodes; handle `h` names `nodes[h - 1]`.
    pub nodes: Vec<Node>,
    /// The children slot of each node: `None` until the node's children are
    /// loaded, then the ordered child handles, immutable from then on.
    pub slots: Vec<Option<Vec<u64>>>,
}

/// Every handle of a loaded child list is materialized and points back at
/// its owner.
pub open spec fn child_list_ok(nodes: Seq<Node>, owner: int, l: Seq<u64>) -> bool {
    forall|k: int|
        0 <= k < l.len() ==> 1 <= #[trigger] l[k] && l[k] as int <= nodes.len()
            && nodes[l[k] as int - 1].parent == Some((owner + 1) as u64)
}

impl<C: BbClient> Bbfs<C> {
    /// A handle the engine has handed out: between 1 and the node count.
    pub open spec fn valid_handle(&self, h: u64) -> bool {
        1 <= h && h as int <= self.nodes@.len()
    }

    /// The node a handle names.
    pub open spec fn node_at(&self, h: u64) -> Node {
        self.nodes@[h as int - 1]
    }

    /// The loaded child handles of a node: `None` while unloaded, and for
    /// any handle the engine never handed out.
    pub open spec fn children_view(&self, h: u64) -> Option<Seq<u64>> {
        if 1 <= h && h as int <= self.slots@.len() {
            match self.slots@[h as int - 1] {
                Some(l) => Some(l@),
                None => None,
            }
        } else {
            None
        }
    }

    /// The item views of a list of handles, in order.
    pub open spec fn handles_item_views(&self, hs: Seq<u64>) -> Seq<ItemView> {
        Seq::new(hs.len(), |k: int| self.node_at(hs[k]).item@)
    }

    /// Position of the first handle in `l` at or after `from` whose node is
    /// named `name`; `l.len()` when none is.
    pub open spec fn first_named_from(&self, l: Seq<u64>, name: Seq<char>, from: int) -> int
        decreases l.len() - from when 0 <= from <= l.len()
    {
        if from >= l.len() {
            l.len() as int
        } else if self.node_at(l[from]).name@ == name {
            from
        } else {
            self.first_named_from(l, name, from + 1)
        }
    }

    /// The handles of a full ancestor line: it starts at the parentless
    /// root, each following handle's node names the previous one as its
    /// parent, and it ends at `h`. Parent pointers are functional, so a
    /// node has exactly one such line.
    pub open spec fn is_ancestor_line(&self, hs: Seq<u64>, h: u64) -> bool {
        &&& hs.len() >= 1
        &&& hs.last() == h
        &&& forall|k: int| 0 <= k < hs.len() ==> self.valid_handle(#[trigger] hs[k])
        &&& self.node_at(hs[0]).parent is None
        &&& forall|k: int|
            1 <= k < hs.len() ==> self.node_at(#[trigger] hs[k]).parent == Some(hs[k - 1])
    }

    /// The view of the parent's item, when the node has a parent.
    pub open spec fn parent_item_view(&self, h: u64) -> Option<ItemView> {
        match self.node_at(h).parent {
            Some(p) => Some(self.node_at(p).item@),
            None => None,
        }
    }

    /// The handle `to` is reached from `from` by following, for each listed
    /// name in order, a child carrying exactly that name.
    pub open spec fn resolves_segments(&self, segs: Seq<Seq<char>>, from: u64, to: u64) -> bool
        decreases segs.len(),
    {
        if segs.len() == 0 {
            to == from
        } else {
            exists|c: u64|
                #![auto]
                self.valid_handle(c) && self.node_at(c).parent == Some(from) && self.node_at(
                    c,
                ).name@ == segs[0] && self.resolves_segments(segs.drop_first(), c, to)
        }
    }

    /// Every listed name is findable from `from` without asking the
    /// provider: each step's children slot is loaded and holds a child with
    /// exactly that name.
    pub open spec fn loaded_resolves(&self, segs: Seq<Seq<char>>, from: u64) -> bool
        decreases segs.len(),
    {
        if segs.len() == 0 {
            true
        } else {
            match self.children_view(from) {
                Some(l) => {
                    let j = self.first_named_from(l, segs[0], 0);
                    j < l.len() && self.loaded_resolves(segs.drop_first(), l[j])
                },
                None => false,
            }
        }
    }

    /// A resolution chain survives any evolution of the engine: the nodes
    /// it runs through are never touched again.
    pub proof fn lemma_resolves_segments_stable(
        pre: Self,
        post: Self,
        segs: Seq<Seq<char>>,
        from: u64,
        to: u64,
    )
        requires
            Self::evolves_to(pre, post),
            pre.resolves_segments(segs, from, to),
        ensures
            post.resolves_segments(segs, from, to),
        decreases segs.len(),
    {
        if segs.len() > 0 {
            let c = choose|c: u64|
                #![auto]
                pre.valid_handle(c) && pre.node_at(c).parent == Some(from) && pre.node_at(
                    c,
                ).name@ == segs[0] && pre.resolves_segments(segs.drop_first(), c, to);
            assert(pre.valid_handle(c) && pre.node_at(c).parent == Some(from) && pre.node_at(
                c,
            ).name@ == segs[0] && pre.resolves_segments(segs.drop_first(), c, to));
            Self::lemma_resolves_segments_stable(pre, post, segs.drop_first(), c, to);
            assert(post.valid_handle(c) && post.node_at(c).parent == Some(from) && post.node_at(
                c,
            ).name@ == segs[0] && post.resolves_segments(segs.drop_first(), c, to)) by {
                assert(post.node_at(c) == pre.node_at(c));
            }
        }
    }

    /// Extends a resolution chain by one matched child.
    pub proof fn lemma_resolves_push(
        &self,
        done: Seq<Seq<char>>,
        from: u64,
        mid: u64,
        c: u64,
        seg: Seq<char>,
    )
        requires
            self.resolves_segments(done, from, mid),
            self.valid_handle(c),
            self.node_at(c).parent == Some(mid),
            self.node_at(c).name@ == seg,
        ensures
            self.resolves_segments(done.push(seg), from, c),
        decreases done.len(),
    {
        if done.len() == 0 {
            assert(done.push(seg)[0] == seg);
            assert(done.push(seg).drop_first() =~= Seq::<Seq<char>>::empty());
            assert(self.resolves_segments(done.push(seg).drop_first(), c, c));
        } else {
            let c0 = choose|c0: u64|
                #![auto]
                self.valid_handle(c0) && self.node_at(c0).parent == Some(from) && self.node_at(
                    c0,
                ).name@ == done[0] && self.resolves_segments(done.drop_first(), c0, mid);
            self.lemma_resolves_push(done.drop_first(), c0, mid, c, seg);
            assert(done.push(seg).drop_first() =~= done.drop_first().push(seg));
            assert(done.push(seg)[0] == done[0]);
        }
    }

    /// Well-formedness, established at mount and preserved by every
    /// operation: the root exists and is parentless; every other node's
    /// parent was materialized before it; each cached kind is the item's
    /// classification; each name is sanitized; and every loaded child list
    /// points at materialized nodes that name this node as their parent.
    pub open spec fn wf(&self) -> bool {
        &&& self.nodes@.len() >= 1
        &&& self.slots@.len() == self.nodes@.len()
        &&& self.nodes@[0].parent is None
        &&& forall|i: int|
            1 <= i < self.nodes@.len() ==> ((#[trigger] self.nodes@[i].parent) matches Some(p)
                && 1 <= p && p as int <= i)
        &&& forall|i: int|
            0 <= i < self.nodes@.len() ==> (#[trigger] self.nodes@[i].kind)
                == self.nodes@[i].item@.kind()
        &&& forall|i: int|
            0 <= i < self.nodes@.len() ==> (#[trigger] self.nodes@[i].name@) == spec_sanitize(
                self.platform,
                self.nodes@[i].name@,
            )
        &&& forall|i: int|
            0 <= i < self.nodes@.len() ==> ((#[trigger] self.slots@[i]) matches Some(l)
                ==> (child_list_ok(self.nodes@, i, l@) && self.nodes@[i].kind
                == ItemType::Directory))
    }

    /// How one engine state may follow another: the platform and provider
    /// are the same, nodes are only added, existing nodes are untouched,
    /// and a loaded children slot never changes again.
    pub open spec fn evolves_to(pre: Self, post: Self) -> bool {
        &&& post.platform == pre.platform
        &&& post.client == pre.client
        &&& pre.nodes@.len() <= post.nodes@.len()
        &&& post.slots@.len() == post.nodes@.len()
        &&& pre.slots@.len() == pre.nodes@.len()
        &&& forall|i: int| 0 <= i < pre.nodes@.len() ==> post.nodes@[i] == #[trigger] pre.nodes@[i]
        &&& forall|i: int|
            0 <= i < pre.nodes@.len() ==> ((#[trigger] pre.slots@[i]) matches Some(l)
                ==> post.slots@[i] == pre.slots@[i])
    }

    /// Evolution is transitive.
    pub proof fn lemma_evolves_transitive(a: Self, b: Self, c: Self)
        requires
            Self::evolves_to(a, b),
            Self::evolves_to(b, c),
        ensures
            Self::evolves_to(a, c),
    {
    }

    /// A handle handed out once stays valid, and keeps naming the very same
    /// node, across any evolution of the engine.
    pub proof fn lemma_handle_stable(pre: Self, post: Self, h: u64)
        requires
            Self::evolves_to(pre, post),
            pre.valid_handle(h),
        ensures
            post.valid_handle(h),
            post.node_at(h) == pre.node_at(h),
            pre.children_view(h) is Some ==> post.children_view(h) == pre.children_view(h),
    {
    }

    /// In a well-formed engine, every non-root handle has a parent, the
    /// parent resolves, and it was materialized earlier.
    pub proof fn lemma_parent_resolves(&self, h: u64)
        requires
            self.wf(),
            self.valid_handle(h),
            h != 1,
        ensures
            self.node_at(h).parent matches Some(p) && self.valid_handle(p) && p < h,
    {
    }

    /// Mounts the projection: asks the provider for the synthesized root
    /// and materializes it as handle 1, with no parent and an unloaded
    /// children slot.
    pub fn new(client: C, platform: Platform) -> (r: Result<Self, BbError>)
        ensures
            r matches Ok(fs) ==> {
                &&& fs.wf()
                &&& fs.platform == platform
                &&& fs.nodes@.len() == 1
                &&& fs.valid_handle(1)
                &&& fs.node_at(1).parent is None
                &&& fs.children_view(1) is None
                &&& fs.node_at(1).name@ == "root"@
            },
    {
        let root_item = match client.get_root() {
            Ok(it) => it,
            Err(e) => {
                return Err(e);
            },
        };
        let kind = root_item.item_type();
        let mut name = String::new();
        name.append("root");
        proof {
            reveal_strlit("root");
            assert(spec_sanitize(platform, name@) =~= name@);
        }
        let mut nodes: Vec<Node> = Vec::new();
        nodes.push(Node { parent: None, name, item: root_item, kind });
        let mut slots: Vec<Option<Vec<u64>>> = Vec::new();
        slots.push(None);
        Ok(Bbfs { client, platform, nodes, slots })
    }

    /// Looks a handle up; the one failure is an unknown handle.
    pub fn resolve(&self, h: u64) -> (r: Result<&Node, BbError>)
        ensures
            match r {
                Ok(n) => self.valid_handle(h) && *n == self.node_at(h),
                Err(e) => !self.valid_handle(h) && e is NoSuchEntry,
            },
    {
        if 1 <= h && h <= self.nodes.len() as u64 {
            Ok(&self.nodes[(h - 1) as usize])
        } else {
            Err(BbError::NoSuchEntry)
        }
    }

    /// The ancestor chain of a node's items, root first, the node's own
    /// item last.
    fn ancestor_chain(&self, h: u64) -> (chain: Vec<Item>)
        requires
            self.wf(),
            self.valid_handle(h),
        ensures
            chain@.len() >= 1,
            chain@.last()@ == self.node_at(h).item@,
            chain@.len() >= 2 <==> self.node_at(h).parent is Some,
            self.node_at(h).parent matches Some(p) ==> chain@[chain@.len() - 2]@ == self.node_at(
                p,
            ).item@,
            exists|hs: Seq<u64>|
                #[trigger] self.is_ancestor_line(hs, h) && hs.len() == chain@.len() && (forall|
                    k: int,
                |
                    0 <= k < chain@.len() ==> chain@[k]@ == self.node_at(hs[k]).item@),
    {
        let mut rev: Vec<u64> = Vec::new();
        rev.push(h);
        let mut cur = h;
        proof {
            assert(self.nodes@.len() == self.nodes.len());
        }
        let mut parent_opt = self.nodes[(h - 1) as usize].parent;
        while parent_opt.is_some()
            invariant
                self.wf(),
                self.nodes@.len() <= usize::MAX,
                self.valid_handle(cur),
                parent_opt == self.node_at(cur).parent,
                rev@.len() >= 1,
                rev@[0] == h,
                rev@.last() == cur,
                rev@.len() == 1 ==> cur == h,
                rev@.len() >= 2 ==> self.node_at(h).parent == Some(rev@[1]),
                forall|k: int| 0 <= k < rev@.len() ==> self.valid_handle(#[trigger] rev@[k]),
                forall|k: int|
                    0 <= k < rev@.len() - 1 ==> self.node_at(#[trigger] rev@[k]).parent == Some(
                        rev@[k + 1],
                    ),
            decreases cur,
        {
            let p = parent_opt.unwrap();
            rev.push(p);
            cur = p;
            parent_opt = self.nodes[(cur - 1) as usize].parent;
        }
        let mut chain: Vec<Item> = Vec::new();
        let n = rev.len();
        let mut i: usize = n;
        while i > 0
            invariant
                self.wf(),
                self.nodes@.len() <= usize::MAX,
                n == rev@.len(),
                0 <= i <= n,
                chain@.len() == n - i,
                forall|k: int| 0 <= k < rev@.len() ==> self.valid_handle(#[trigger] rev@[k]),
                forall|k: int|
                    0 <= k < chain@.len() ==> (#[trigger] chain@[k]@) == self.node_at(
                        rev@[n - 1 - k],
                    ).item@,
            decreases i,
        {
            chain.push(self.nodes[(rev[i - 1] - 1) as usize].item.clone());
            i = i - 1;
        }
        proof {
            let hs = Seq::new(rev@.len(), |k: int| rev@[rev@.len() - 1 - k]);
            assert(self.is_ancestor_line(hs, h)) by {
                assert(hs.last() == rev@[0]);
                assert(hs[0] == rev@.last());
                assert forall|k: int| 1 <= k < hs.len() implies self.node_at(
                    #[trigger] hs[k],
                ).parent == Some(hs[k - 1]) by {
                    assert(hs[k] == rev@[rev@.len() - 1 - k]);
                    assert(hs[k - 1] == rev@[rev@.len() - k]);
                }
            }
            assert(forall|k: int|
                0 <= k < chain@.len() ==> chain@[k]@ == self.node_at(#[trigger] hs[k]).item@);
        }
        chain
    }

    /// Expands a directory node: returns the loaded child handles when the
    /// slot is already loaded, leaving the engine untouched; otherwise asks
    /// the provider for the raw listing, applies the synthesis rules,
    /// materializes one node per resulting item - its kind the item's
    /// classification, its name the sanitized display name (the provider
    /// resolves the one name the model cannot) - and loads the slot, once
    /// and for all. A successful expansion loads the slot with exactly the
    /// returned handles, and expanding a loaded node changes nothing and
    /// returns the loaded list, so two sequential expansions of the same
    /// node with no interleaving writes return identical child lists.
    #[verifier::loop_isolation(false)]
    pub fn expand(&mut self, h: u64) -> (r: Result<Vec<u64>, BbError>)
        requires
            old(self).wf(),
        ensures
            final(self).wf(),
            Self::evolves_to(*old(self), *final(self)),
            !old(self).valid_handle(h) ==> (r matches Err(e) && e is NoSuchEntry && *final(self)
                == *old(self)),
            old(self).valid_handle(h) && old(self).node_at(h).kind == ItemType::File ==> (
            r matches Err(e) && e matches BbError::NotADirectory(it) && it@ == old(self).node_at(
                h,
            ).item@ && *final(self) == *old(self)),
            old(self).valid_handle(h) ==> (old(self).children_view(h) matches Some(l) ==> (
            *final(self) == *old(self) && (r matches Ok(hs) && hs@ == l))),
            r is Err ==> final(self).children_view(h) is None,
            r matches Ok(hs) ==> {
                &&& old(self).valid_handle(h)
                &&& old(self).node_at(h).kind == ItemType::Directory
                &&& final(self).children_view(h) == Some(hs@)
                &&& forall|k: int|
                    0 <= k < hs@.len() ==> final(self).valid_handle(#[trigger] hs@[k]) && final(self).node_at(hs@[k]).parent == Some(h)
            },
            old(self).valid_handle(h) ==> (old(self).children_view(h) is None ==> (r matches Ok(
                hs,
            ) ==> {
                &&& exists|raw: Seq<ItemView>|
                    #[trigger] spec_synthesize(
                        old(self).platform,
                        old(self).node_at(h).item@,
                        old(self).parent_item_view(h),
                        raw,
                        final(self).handles_item_views(hs@),
                    )
                &&& forall|k: int|
                    0 <= k < hs@.len() ==> (spec_display_name(
                        old(self).platform,
                        (#[trigger] final(self).node_at(hs@[k])).item@,
                    ) matches Some(d) ==> final(self).node_at(hs@[k]).name@ == spec_sanitize(
                        old(self).platform,
                        d,
                    ))
            })),
    {
        let node_check = match self.resolve(h) {
            Ok(n) => n,
            Err(e) => {
                return Err(e);
            },
        };
        if node_check.kind == ItemType::File {
            let it = node_check.item.clone();
            return Err(BbError::NotADirectory(it));
        }
        proof {
            assert(self.nodes@.len() == self.nodes.len());
        }
        let idx = (h - 1) as usize;
        match &self.slots[idx] {
            Some(l) => {
                let copy = clone_handles(l);
                return Ok(copy);
            },
            None => (),
        }
        let chain = self.ancestor_chain(h);
        let raw = match self.client.get_children(&chain) {
            Ok(items) => items,
            Err(e) => {
                return Err(e);
            },
        };
        let last = chain.len() - 1;
        let parent_ref: Option<&Item> = if chain.len() >= 2 {
            Some(&chain[chain.len() - 2])
        } else {
            None
        };
        let ghost raw_views = crate::item::items_view(raw@);
        let items = synthesize_children(self.platform, &chain[last], parent_ref, raw);
        let ghost items0 = items@;
        let ghost pre_loop = *self;
        proof {
            assert(opt_item_view(parent_ref) == self.parent_item_view(h));
            assert(spec_synthesize(
                self.platform,
                self.node_at(h).item@,
                self.parent_item_view(h),
                raw_views,
                crate::item::items_view(items0),
            ));
        }
        let mut hs: Vec<u64> = Vec::new();
        let mut j: usize = 0;
        while j < items.len()
            invariant
                self.wf(),
                Self::evolves_to(pre_loop, *self),
                pre_loop.valid_handle(h),
                items@ == items0,
                j <= items@.len(),
                hs@.len() == j,
                self.nodes@.len() == pre_loop.nodes@.len() + j,
                self.slots@.len() == self.nodes@.len(),
                forall|i: int|
                    0 <= i < pre_loop.nodes@.len() ==> self.slots@[i] == #[trigger] pre_loop.slots@[i],
                forall|i: int|
                    pre_loop.nodes@.len() <= i < self.nodes@.len() ==> (#[trigger] self.slots@[i]) is None,
                forall|k: int|
                    0 <= k < j ==> #[trigger] hs@[k] == pre_loop.nodes@.len() + k + 1,
                forall|k: int|
                    0 <= k < j ==> self.valid_handle(#[trigger] hs@[k]) && self.node_at(
                        hs@[k],
                    ).parent == Some(h) && self.node_at(hs@[k]).item@ == items@[k]@
                        && self.children_view(hs@[k]) is None,
                forall|k: int|
                    0 <= k < j ==> (spec_display_name(
                        self.platform,
                        (#[trigger] self.node_at(hs@[k])).item@,
                    ) matches Some(d) ==> self.node_at(hs@[k]).name@ == spec_sanitize(
                        self.platform,
                        d,
                    )),
            decreases items@.len() - j,
        {
            let it = items[j].clone();
            let kind = it.item_type();
            let raw_name = match display_name(self.platform, &it) {
                Some(n) => n,
                None => match self.client.get_name(&it) {
                    Ok(n) => n,
                    Err(e) => {
                        return Err(e);
                    },
                },
            };
            let name = sanitize_name(self.platform, raw_name.as_str());
            proof {
                lemma_sanitize_idempotent(self.platform, raw_name@);
            }
            self.nodes.push(Node { parent: Some(h), name, item: it, kind });
            self.slots.push(None);
            let ch = self.nodes.len() as u64;
            hs.push(ch);
            j = j + 1;
        }
        let stored = clone_handles(&hs);
        self.slots.set(idx, Some(stored));
        proof {
            assert forall|i: int|
                0 <= i < self.nodes@.len() implies ((#[trigger] self.slots@[i]) matches Some(l)
                ==> (child_list_ok(self.nodes@, i, l@) && self.nodes@[i].kind
                == ItemType::Directory)) by {
                if i != h - 1 {
                    assert(self.slots@[i] == pre_loop.slots@[i]
                        || pre_loop.nodes@.len() <= i);
                }
            }
            assert(self.handles_item_views(hs@) =~= crate::item::items_view(items0)) by {
                crate::item::lemma_items_view(items0);
            }
            assert(spec_synthesize(
                old(self).platform,
                old(self).node_at(h).item@,
                old(self).parent_item_view(h),
                raw_views,
                self.handles_item_views(hs@),
            ));
        }
        Ok(hs)
    }

    /// Finds the child of a directory with exactly the given name,
    /// expanding the directory if its children are not loaded yet.
    #[verifier::loop_isolation(false)]
    pub fn lookup_child(&mut self, parent: u64, name: &str) -> (r: Result<u64, BbError>)
        requires
            old(self).wf(),
        ensures
            final(self).wf(),
            Self::evolves_to(*old(self), *final(self)),
            !old(self).valid_handle(parent) ==> (r matches Err(e) && e is NoSuchEntry),
            r matches Ok(c) ==> final(self).valid_handle(c) && final(self).node_at(c).parent
                == Some(parent) && final(self).node_at(c).name@ == name@
                && (final(self).children_view(parent) matches Some(l) && l.contains(c)),
            old(self).valid_handle(parent) ==> (old(self).children_view(parent) matches Some(l)
                ==> *final(self) == *old(self)),
            final(self).children_view(parent) matches Some(l) ==> ({
                let j = final(self).first_named_from(l, name@, 0);
                &&& (j == l.len() ==> (r matches Err(e) && e is NoSuchEntry))
                &&& (j < l.len() ==> (r matches Ok(c) && c == l[j]))
            }),
            final(self).children_view(parent) matches Some(l) ==> (((r matches Err(e) && e
                is NoSuchEntry)) <==> (forall|k: int|
                0 <= k < l.len() ==> final(self).node_at(#[trigger] l[k]).name@ != name@)),
    {
        let hs = match self.expand(parent) {
            Ok(hs) => hs,
            Err(e) => {
                return Err(e);
            },
        };
        let mut k: usize = 0;
        proof {
            assert(self.nodes@.len() == self.nodes.len());
        }
        while k < hs.len()
            invariant
                self.wf(),
                Self::evolves_to(*old(self), *self),
                old(self).valid_handle(parent),
                self.nodes@.len() <= usize::MAX,
                self.children_view(parent) == Some(hs@),
                forall|i: int|
                    0 <= i < hs@.len() ==> self.valid_handle(#[trigger] hs@[i]) && self.node_at(
                        hs@[i],
                    ).parent == Some(parent),
                0 <= k <= hs@.len(),
                forall|i: int| 0 <= i < k ==> self.node_at(#[trigger] hs@[i]).name@ != name@,
                self.first_named_from(hs@, name@, 0) == self.first_named_from(hs@, name@, k as int),
            decreases hs@.len() - k,
        {
            let ch = hs[k];
            if str_eq(self.nodes[(ch - 1) as usize].name.as_str(), name) {
                proof {
                    assert(hs@.contains(ch)) by {
                        assert(hs@[k as int] == ch);
                    }
                    assert(self.first_named_from(hs@, name@, k as int) == k);
                }
                return Ok(ch);
            }
            k = k + 1;
        }
        Err(BbError::NoSuchEntry)
    }

    /// The attributes of a node: directories have size 0, a synthesized
    /// file the byte length of its stored contents, and any other file the
    /// size the provider reports.
    pub fn attr(&self, h: u64) -> (r: Result<NodeAttr, BbError>)
        requires
            self.wf(),
        ensures
            !self.valid_handle(h) ==> (r matches Err(e) && e is NoSuchEntry),
            self.valid_handle(h) && self.node_at(h).kind == ItemType::Directory ==> (r matches
            Ok(a) && a.kind == ItemType::Directory && a.size == 0),
            self.valid_handle(h) ==> (self.node_at(h).item@ matches ItemView::SynthesizedFile(
                f,
            ) ==> (r matches Ok(a) && a.kind == ItemType::File && a.size == encode_utf8(
                f.contents,
            ).len())),
            r matches Ok(a) ==> self.valid_handle(h) && a.kind == self.node_at(h).kind,
    {
        let node = match self.resolve(h) {
            Ok(n) => n,
            Err(e) => {
                return Err(e);
            },
        };
        if node.kind == ItemType::Directory {
            return Ok(NodeAttr { kind: ItemType::Directory, size: 0 });
        }
        match &node.item {
            Item::SynthesizedFile(f) => {
                let bytes = f.contents.as_str().as_bytes_vec();
                Ok(NodeAttr { kind: ItemType::File, size: bytes.len() as u64 })
            },
            _ => {
                let size = match self.client.get_size(&node.item) {
                    Ok(s) => s,
                    Err(e) => {
                        return Err(e);
                    },
                };
                Ok(NodeAttr { kind: ItemType::File, size: size as u64 })
            },
        }
    }

    /// Reads a byte range of a file node: a slice of the stored contents
    /// for a synthesized file, and of the provider's contents otherwise.
    /// Reading a directory fails with `NotAFile`; a read starting past the
    /// end of the contents fails with `OutOfRange`; otherwise the range is
    /// clipped to the contents' end.
    pub fn read(&self, h: u64, offset: usize, size: usize) -> (r: Result<Vec<u8>, BbError>)
        requires
            self.wf(),
        ensures
            !self.valid_handle(h) ==> (r matches Err(e) && e is NoSuchEntry),
            self.valid_handle(h) && self.node_at(h).kind == ItemType::Directory ==> (r matches Err(
                e,
            ) && e matches BbError::NotAFile(it) && it@ == self.node_at(h).item@),
            self.valid_handle(h) ==> (self.node_at(h).item@ matches ItemView::SynthesizedFile(
                f,
            ) ==> match spec_read_slice(encode_utf8(f.contents), offset as int, size as int) {
                Some(b) => r matches Ok(v) && v@ == b,
                None => r matches Err(e) && e is OutOfRange,
            }),
            r matches Ok(v) ==> v@.len() <= size,
    {
        let node = match self.resolve(h) {
            Ok(n) => n,
            Err(e) => {
                return Err(e);
            },
        };
        if node.kind == ItemType::Directory {
            let it = node.item.clone();
            return Err(BbError::NotAFile(it));
        }
        match &node.item {
            Item::SynthesizedFile(f) => {
                let bytes = f.contents.as_str().as_bytes_vec();
                slice_contents(&bytes, offset, size)
            },
            _ => {
                let contents = match self.client.get_contents(&node.item) {
                    Ok(c) => c,
                    Err(e) => {
                        return Err(e);
                    },
                };
                slice_contents(&contents, offset, size)
            },
        }
    }

    /// Lists a directory: the `.` and `..` entries (the root is its own
    /// parent), then one entry per child in expansion order. Listing a file
    /// fails with `NotADirectory`. Once a directory has been listed, its
    /// slot is loaded, so a later listing succeeds, changes nothing, and
    /// emits the same entries in the same order; a listing that fails
    /// leaves the slot unloaded, so the next listing asks the provider
    /// again.
    #[verifier::loop_isolation(false)]
    pub fn readdir(&mut self, h: u64) -> (r: Result<Vec<DirEntry>, BbError>)
        requires
            old(self).wf(),
        ensures
            final(self).wf(),
            Self::evolves_to(*old(self), *final(self)),
            !old(self).valid_handle(h) ==> (r matches Err(e) && e is NoSuchEntry),
            old(self).valid_handle(h) && old(self).node_at(h).kind == ItemType::File ==> (
            r matches Err(e) && e matches BbError::NotADirectory(it) && it@ == old(self).node_at(
                h,
            ).item@),
            r is Err ==> final(self).children_view(h) is None,
            old(self).valid_handle(h) ==> (old(self).children_view(h) matches Some(l) ==> (
            *final(self) == *old(self) && r is Ok)),
            r matches Ok(es) ==> {
                &&& final(self).children_view(h) matches Some(l) && es@.len() == l.len() + 2
                    && (forall|k: int|
                    0 <= k < l.len() ==> {
                        let e = #[trigger] es@[k + 2];
                        &&& e.handle == l[k]
                        &&& e.kind == final(self).node_at(l[k]).kind
                        &&& e.name@ == final(self).node_at(l[k]).name@
                    })
                &&& es@[0].handle == h && es@[0].kind == ItemType::Directory && es@[0].name@
                    == "."@
                &&& es@[1].kind == ItemType::Directory && es@[1].name@ == ".."@
                &&& es@[1].handle == (match old(self).node_at(h).parent {
                    Some(p) => p,
                    None => h,
                })
            },
    {
        let hs = match self.expand(h) {
            Ok(hs) => hs,
            Err(e) => {
                return Err(e);
            },
        };
        let mut es: Vec<DirEntry> = Vec::new();
        let mut dot = String::new();
        dot.append(".");
        es.push(DirEntry { handle: h, kind: ItemType::Directory, name: dot });
        let mut dotdot = String::new();
        dotdot.append("..");
        proof {
            assert(self.nodes@.len() == self.nodes.len());
        }
        let parent = match self.nodes[(h - 1) as usize].parent {
            Some(p) => p,
            None => h,
        };
        es.push(DirEntry { handle: parent, kind: ItemType::Directory, name: dotdot });
        let mut k: usize = 0;
        while k < hs.len()
            invariant
                self.wf(),
                self.nodes@.len() <= usize::MAX,
                self.children_view(h) == Some(hs@),
                forall|i: int| 0 <= i < hs@.len() ==> self.valid_handle(#[trigger] hs@[i]),
                0 <= k <= hs@.len(),
                es@.len() == k + 2,
                forall|i: int|
                    0 <= i < k ==> {
                        let e = #[trigger] es@[i + 2];
                        &&& e.handle == hs@[i]
                        &&& e.kind == self.node_at(hs@[i]).kind
                        &&& e.name@ == self.node_at(hs@[i]).name@
                    },
                es@[0].handle == h && es@[0].kind == ItemType::Directory && es@[0].name@ == "."@,
                es@[1].handle == parent && es@[1].kind == ItemType::Directory && es@[1].name@
                    == ".."@,
            decreases hs@.len() - k,
        {
            let ch = hs[k];
            let node = &self.nodes[(ch - 1) as usize];
            es.push(DirEntry { handle: ch, kind: node.kind, name: node.name.clone() });
            k = k + 1;
        }
        Ok(es)
    }

    /// Resolves a whole path to a handle, starting at the root: both `/`
    /// and `\` separate components, empty components are skipped (so
    /// `\a\b`, `/a/b` and `a//b` all name the same node), and each
    /// component is matched against child names exactly, expanding as
    /// needed. A returned handle is the node reached from the root by those
    /// matches; when every step is already materialized and loaded, the
    /// walk succeeds and changes nothing.
    #[verifier::loop_isolation(false)]
    pub fn lookup_path(&mut self, path: &str) -> (r: Result<u64, BbError>)
        requires
            old(self).wf(),
        ensures
            final(self).wf(),
            Self::evolves_to(*old(self), *final(self)),
            r matches Ok(u) ==> final(self).valid_handle(u) && final(self).resolves_segments(
                path_segments(path@, 0),
                1,
                u,
            ),
            old(self).loaded_resolves(path_segments(path@, 0), 1) ==> (*final(self) == *old(self)
                && r is Ok),
    {
        let n = path.unicode_len();
        let mut h: u64 = 1;
        let mut i: usize = 0;
        let ghost mut done: Seq<Seq<char>> = Seq::empty();
        proof {
            assert(done + path_segments(path@, 0) =~= path_segments(path@, 0));
        }
        while i < n
            invariant
                self.wf(),
                Self::evolves_to(*old(self), *self),
                n == path@.len(),
                0 <= i <= n,
                self.valid_handle(h),
                path_segments(path@, 0) == done + path_segments(path@, i as int),
                self.resolves_segments(done, 1, h),
                old(self).loaded_resolves(path_segments(path@, 0), 1) ==> (*self == *old(self)
                    && self.loaded_resolves(path_segments(path@, i as int), h)),
            decreases n - i,
        {
            let c = path.get_char(i);
            if c == '/' || c == '\\' {
                proof {
                    assert(path_segments(path@, i as int) == path_segments(path@, i + 1));
                }
                i = i + 1;
            } else {
                let mut j: usize = i + 1;
                proof {
                    assert(seg_end(path@, i as int) == seg_end(path@, i + 1));
                }
                while j < n && path.get_char(j) != '/' && path.get_char(j) != '\\'
                    invariant
                        n == path@.len(),
                        i < j <= n,
                        seg_end(path@, i as int) == seg_end(path@, j as int),
                    decreases n - j,
                {
                    proof {
                        assert(seg_end(path@, j as int) == seg_end(path@, j + 1));
                    }
                    j = j + 1;
                }
                proof {
                    assert(seg_end(path@, j as int) == j);
                }
                let seg = path.substring_char(i, j);
                let ghost segs_here = path_segments(path@, i as int);
                proof {
                    assert(segs_here =~= seq![path@.subrange(i as int, j as int)]
                        + path_segments(path@, j as int));
                    assert(segs_here[0] == seg@);
                }
                let ghost pre = *self;
                let next = match self.lookup_child(h, seg) {
                    Ok(c) => c,
                    Err(e) => {
                        proof {
                            if old(self).loaded_resolves(path_segments(path@, 0), 1) {
                                assert(pre.children_view(h) is Some);
                                assert(false);
                            }
                        }
                        return Err(e);
                    },
                };
                proof {
                    Self::lemma_evolves_transitive(*old(self), pre, *self);
                    Self::lemma_resolves_segments_stable(pre, *self, done, 1, h);
                    self.lemma_resolves_push(done, 1, h, next, seg@);
                    done = done.push(seg@);
                    assert(path_segments(path@, 0) =~= done + path_segments(path@, j as int));
                    if old(self).loaded_resolves(path_segments(path@, 0), 1) {
                        assert(pre.loaded_resolves(segs_here, h));
                        let l = pre.children_view(h)->Some_0;
                        let jj = pre.first_named_from(l, seg@, 0);
                        assert(pre.children_view(h) == Some(l));
                        assert(jj < l.len());
                        assert(pre.loaded_resolves(segs_here.drop_first(), l[jj]));
                        assert(segs_here.drop_first() =~= path_segments(path@, j as int));
                        assert(next == l[jj]);
                        assert(*self == pre);
                        assert(self.loaded_resolves(path_segments(path@, j as int), next));
                    }
                }
                h = next;
                i = j;
            }
        }
        proof {
            assert(path_segments(path@, 0) =~= done);
        }
        Ok(h)
    }
}

/// A path separator. Paths may arrive with either convention, so both are
/// treated as separators defensively.
pub open spec fn is_path_sep(c: char) -> bool {
    c == '/' || c == '\\'
}

/// Index of the first path separator at or after `from`; `s.len()` when
/// there is none.
pub open spec fn seg_end(s: Seq<char>, from: int) -> int
    decreases s.len() - from when 0 <= from <= s.len()
{
    if from >= s.len() {
        s.len() as int
    } else if is_path_sep(s[from]) {
        from
    } else {
        seg_end(s, from + 1)
    }
}

/// Everything `seg_end` guarantees about its result.
pub proof fn lemma_seg_end(s: Seq<char>, from: int)
    requires
        0 <= from <= s.len(),
    ensures
        from <= seg_end(s, from) <= s.len(),
        seg_end(s, from) < s.len() ==> is_path_sep(s[seg_end(s, from)]),
        forall|i: int| from <= i < seg_end(s, from) ==> !is_path_sep(s[i]),
    decreases s.len() - from,
{
    if from < s.len() && !is_path_sep(s[from]) {
        lemma_seg_end(s, from + 1);
    }
}

#[via_fn]
proof fn path_segments_decreases(s: Seq<char>, from: int) {
    if 0 <= from < s.len() && !is_path_sep(s[from]) {
        lemma_seg_end(s, from);
    }
}

/// The non-empty components of a path from `from` on, in order: separators
/// are skipped, and each maximal separator-free run is one component.
pub open spec fn path_segments(s: Seq<char>, from: int) -> Seq<Seq<char>>
    decreases s.len() - from
        when 0 <= from <= s.len()
        via path_segments_decreases
{
    if from >= s.len() {
        Seq::empty()
    } else if is_path_sep(s[from]) {
        path_segments(s, from + 1)
    } else {
        seq![s.subrange(from, seg_end(s, from))] + path_segments(s, seg_end(s, from))
    }
}

/// A byte range of some contents: `None` when the start lies past the end,
/// otherwise the bytes from `offset` to the end of the range or of the
/// contents, whichever comes first.
pub open spec fn spec_read_slice(bytes: Seq<u8>, offset: int, size: int) -> Option<Seq<u8>> {
    if offset > bytes.len() {
        None
    } else if offset + size > bytes.len() {
        Some(bytes.subrange(offset, bytes.len() as int))
    } else {
        Some(bytes.subrange(offset, offset + size))
    }
}

/// Cuts the requested byte range out of the contents, clipping at the end
/// and rejecting a start past the end with `OutOfRange`.
pub fn slice_contents(bytes: &Vec<u8>, offset: usize, size: usize) -> (r: Result<
    Vec<u8>,
    BbError,
>)
    ensures
        match spec_read_slice(bytes@, offset as int, size as int) {
            Some(b) => r matches Ok(v) && v@ == b,
            None => r matches Err(e) && e is OutOfRange,
        },
{
    let n = bytes.len();
    if offset > n {
        return Err(BbError::OutOfRange);
    }
    let end: usize = if size > n - offset {
        n
    } else {
        offset + size
    };
    let mut out: Vec<u8> = Vec::new();
    let mut i: usize = offset;
    while i < end
        invariant
            offset <= i <= end <= bytes@.len(),
            out@ == bytes@.subrange(offset as int, i as int),
        decreases end - i,
    {
        out.push(bytes[i]);
        proof {
            assert(out@ =~= bytes@.subrange(offset as int, i + 1));
        }
        i = i + 1;
    }
    proof {
        assert(out@ =~= bytes@.subrange(offset as int, end as int));
    }
    Ok(out)
}

/// Two reads of the same contents agree: the bytes of a range are exactly
/// the corresponding slice of a whole-contents read, so reading piecewise
/// and reading at once cannot disagree.
pub proof fn lemma_read_consistent(bytes: Seq<u8>, a: int, b: int)
    requires
        0 <= a <= b <= bytes.len(),
    ensures
        spec_read_slice(bytes, a, b - a) matches Some(part) && spec_read_slice(
            bytes,
            0,
            bytes.len() as int,
        ) matches Some(whole) && part == whole.subrange(a, b),
{
    let part = spec_read_slice(bytes, a, b - a)->Some_0;
    let whole = spec_read_slice(bytes, 0, bytes.len() as int)->Some_0;
    assert(whole =~= bytes);
    assert(part =~= whole.subrange(a, b));
}

/// Copies a list of handles.
fn clone_handles(v: &Vec<u64>) -> (r: Vec<u64>)
    ensures
        r@ == v@,
{
    let mut out: Vec<u64> = Vec::new();
    let mut i: usize = 0;
    while i < v.len()
        invariant
            0 <= i <= v@.len(),
            out@ == v@.take(i as int),
        decreases v@.len() - i,
    {
        out.push(v[i]);
        proof {
            assert(out@ =~= v@.take(i + 1));
        }
        i = i + 1;
    }
    proof {
        assert(v@.take(v@.len() as int) =~= v@);
    }
    out
}

} // verus!
