//! Expansion-time synthesis: the rules that turn the provider's raw child
//! listing of a directory into the final ordered child list the host sees.
//! Attachments become file items, a description becomes a text file, a link
//! payload becomes an internet shortcut, and every expansion below the root
//! gains a trailing `Blackboard` shortcut jumping back to the LMS.

use vstd::prelude::*;
use vstd::string::*;

use crate::item::{
    ContentView, CourseItem, CourseItemContent, CourseItemView, Item, ItemView, SynthesizedFile,
    items_view, lemma_items_view, strings_view,
};
use crate::platform::{create_link_file, link_file_ext, spec_link_file, spec_link_file_ext,
    Platform};

verus! {

/// The site-relative web address of a course's outline page.
pub open spec fn spec_outline_link(id: Seq<char>) -> Seq<char> {
    "/ultra/courses/"@ + id + "/cl/outline"@
}

/// Builds the site-relative web address of a course's outline page.
pub fn outline_link(id: &str) -> (r: String)
    ensures
        r@ == spec_outline_link(id@),
{
    let mut s = String::new();
    s.append("/ultra/courses/");
    s.append(id);
    s.append("/cl/outline");
    proof {
        assert(s@ =~= spec_outline_link(id@));
    }
    s
}

/// Shape of a synthesized internet-shortcut item: a `SynthesizedFile` named
/// `{name}.{extension}` whose contents are the shortcut body for `link`.
pub open spec fn is_link_file_item(it: ItemView, p: Platform, name: Seq<char>, link: Seq<char>)
    -> bool {
    &&& it matches ItemView::SynthesizedFile(f)
    &&& it->SynthesizedFile_0.name == name + "."@ + spec_link_file_ext(p)
    &&& it->SynthesizedFile_0.contents == spec_link_file(p, link)
}

/// Shape of an attachment child: a nameless course item whose payload is the
/// attachment's file URL, letting the provider derive its filename.
pub open spec fn is_attachment_item(it: ItemView, url: Seq<char>) -> bool {
    &&& it matches ItemView::CourseItem(ci)
    &&& it->CourseItem_0.name.len() == 0
    &&& it->CourseItem_0.content == Some(ContentView::FileUrl(url))
    &&& it->CourseItem_0.description is None
    &&& it->CourseItem_0.attachments.len() == 0
}

/// Shape of the single child standing for an item's own file payload.
pub open spec fn is_bare_file_item(it: ItemView, name: Seq<char>, url: Seq<char>) -> bool {
    &&& it matches ItemView::CourseItem(ci)
    &&& it->CourseItem_0.name == name
    &&& it->CourseItem_0.content == Some(ContentView::FileUrl(url))
    &&& it->CourseItem_0.description is None
    &&& it->CourseItem_0.attachments.len() == 0
}

/// Shape of a synthesized description file: named after the item, holding
/// the description text.
pub open spec fn is_description_item(it: ItemView, name: Seq<char>, text: Seq<char>) -> bool {
    &&& it matches ItemView::SynthesizedFile(f)
    &&& it->SynthesizedFile_0.name == name
    &&& it->SynthesizedFile_0.contents == text
}

impl Item {
    /// A synthesized internet-shortcut file named `{name}.{extension}` whose
    /// body links to the site-relative `link`.
    pub fn make_link_file(p: Platform, name: &str, link: &str) -> (r: Item)
        ensures
            is_link_file_item(r@, p, name@, link@),
    {
        let mut n = String::new();
        n.append(name);
        n.append(".");
        n.append(link_file_ext(p));
        proof {
            assert(n@ =~= name@ + "."@ + spec_link_file_ext(p));
        }
        Item::SynthesizedFile(SynthesizedFile { name: n, contents: create_link_file(p, link) })
    }
}

impl CourseItem {
    /// One synthesized child per attachment URL.
    pub fn attachments_as_items(&self) -> (r: Vec<Item>)
        ensures
            r@.len() == self.attachments@.len(),
            forall|i: int|
                0 <= i < r@.len() ==> is_attachment_item(
                    #[trigger] r@[i]@,
                    self.attachments@[i]@,
                ),
    {
        let mut out: Vec<Item> = Vec::new();
        let mut i: usize = 0;
        while i < self.attachments.len()
            invariant
                0 <= i <= self.attachments@.len(),
                out@.len() == i,
                forall|k: int|
                    0 <= k < i ==> is_attachment_item(
                        #[trigger] out@[k]@,
                        self.attachments@[k]@,
                    ),
            decreases self.attachments@.len() - i,
        {
            out.push(
                Item::CourseItem(
                    CourseItem {
                        name: String::new(),
                        content: Some(CourseItemContent::FileUrl(self.attachments[i].clone())),
                        description: None,
                        attachments: Vec::new(),
                    },
                ),
            );
            i = i + 1;
        }
        out
    }

    /// The synthesized description file, when the item carries a
    /// description.
    pub fn maybe_new_description_file(&self) -> (r: Option<Item>)
        ensures
            r is Some <==> self.description is Some,
            r matches Some(it) ==> (self@.description matches Some(d) && is_description_item(
                it@,
                self.name@,
                d,
            )),
    {
        match &self.description {
            Some(d) => Some(
                Item::SynthesizedFile(
                    SynthesizedFile { name: self.name.clone(), contents: d.clone() },
                ),
            ),
            None => None,
        }
    }

    /// The synthesized shortcut file for a link payload, contributed only
    /// when the item also has attachments (otherwise the link already stands
    /// as the item's sole child).
    pub fn maybe_new_link_file(&self, p: Platform) -> (r: Option<Item>)
        ensures
            r is Some <==> (self@.content matches Some(ContentView::Link(l))
                && self.attachments@.len() > 0),
            r matches Some(it) ==> (self@.content matches Some(ContentView::Link(l))
                && is_link_file_item(it@, p, self.name@, l)),
    {
        match &self.content {
            Some(CourseItemContent::Link(link)) => {
                if self.attachments.len() > 0 {
                    Some(Item::make_link_file(p, self.name.as_str(), link.as_str()))
                } else {
                    None
                }
            },
            _ => None,
        }
    }
}

/// The site-relative web address a trailing `Blackboard` shortcut should
/// jump to: a folder item's own listing address; otherwise the parent
/// course's outline page, or the parent folder's listing address. `None`
/// when the surrounding tree gives the item no canonical address.
pub open spec fn spec_blackboard_link(ci: CourseItemView, parent: Option<ItemView>) -> Option<
    Seq<char>,
> {
    match ci.content {
        Some(ContentView::FolderUrl(u)) => Some(u),
        _ => match parent {
            Some(ItemView::Course(c)) => Some(spec_outline_link(c.id)),
            Some(ItemView::CourseItem(pi)) => match pi.content {
                Some(ContentView::FolderUrl(u)) => Some(u),
                _ => None,
            },
            _ => None,
        },
    }
}

/// The view of an optional borrowed item.
pub open spec fn opt_item_view(p: Option<&Item>) -> Option<ItemView> {
    match p {
        Some(it) => Some(it@),
        None => None,
    }
}

impl CourseItem {
    /// Computes the jump address for this item's `Blackboard` shortcut,
    /// given the item's parent in the tree.
    pub fn blackboard_link(&self, parent: Option<&Item>) -> (r: Option<String>)
        ensures
            match r {
                Some(u) => spec_blackboard_link(self@, opt_item_view(parent)) == Some(u@),
                None => spec_blackboard_link(self@, opt_item_view(parent)) is None,
            },
    {
        match &self.content {
            Some(CourseItemContent::FolderUrl(u)) => Some(u.clone()),
            _ => match parent {
                Some(Item::Course(c)) => Some(outline_link(c.id.as_str())),
                Some(Item::CourseItem(pi)) => match &pi.content {
                    Some(CourseItemContent::FolderUrl(u)) => Some(u.clone()),
                    _ => None,
                },
                _ => None,
            },
        }
    }
}

/// Exactly what the final child list of an expanded directory holds, given
/// the directory's item, its parent, and the provider's raw listing: the
/// base children (the raw listing for folders and courses and the root; a
/// single synthesized child for a link or file payload), then one item per
/// attachment, then the description file, then the link shortcut, then the
/// trailing `Blackboard` shortcut - each present exactly when its rule
/// applies.
pub open spec fn spec_synthesize(
    p: Platform,
    it: ItemView,
    parent: Option<ItemView>,
    raw: Seq<ItemView>,
    out: Seq<ItemView>,
) -> bool {
    match it {
        ItemView::SynthesizedDirectory(_) => out == raw,
        ItemView::SynthesizedFile(_) => out.len() == 0,
        ItemView::Course(c) => {
            &&& out.len() == raw.len() + 1
            &&& out.take(raw.len() as int) == raw
            &&& is_link_file_item(out.last(), p, "Blackboard"@, spec_outline_link(c.id))
        },
        ItemView::CourseItem(ci) => {
            let base_len: int = match ci.content {
                Some(ContentView::Link(_)) => 1,
                Some(ContentView::FileUrl(_)) => 1,
                Some(ContentView::FolderUrl(_)) => raw.len() as int,
                None => 0,
            };
            let natt = ci.attachments.len() as int;
            let ndesc: int = if ci.description is Some {
                1
            } else {
                0
            };
            let nlink: int = if ci.content matches Some(ContentView::Link(_)) && natt > 0 {
                1
            } else {
                0
            };
            let nbb: int = if spec_blackboard_link(ci, parent) is Some {
                1
            } else {
                0
            };
            &&& out.len() == base_len + natt + ndesc + nlink + nbb
            &&& match ci.content {
                Some(ContentView::Link(l)) => is_link_file_item(out[0], p, ci.name, l),
                Some(ContentView::FileUrl(u)) => is_bare_file_item(out[0], ci.name, u),
                Some(ContentView::FolderUrl(_)) => out.take(raw.len() as int) == raw,
                None => true,
            }
            &&& forall|k: int|
                0 <= k < natt ==> is_attachment_item(#[trigger] out[base_len + k],
                    ci.attachments[k])
            &&& (ci.description matches Some(d) ==> is_description_item(
                out[base_len + natt],
                ci.name,
                d,
            ))
            &&& (nlink == 1 ==> (ci.content matches Some(ContentView::Link(l))
                && is_link_file_item(out[base_len + natt + ndesc], p, ci.name, l)))
            &&& (spec_blackboard_link(ci, parent) matches Some(u) ==> is_link_file_item(
                out.last(),
                p,
                "Blackboard"@,
                u,
            ))
        },
    }
}

/// Applies the synthesis rules to the provider's raw child listing of the
/// directory `item`, producing the final ordered child list.
pub fn synthesize_children(p: Platform, item: &Item, parent: Option<&Item>, raw: Vec<Item>) -> (out:
    Vec<Item>)
    ensures
        spec_synthesize(p, item@, opt_item_view(parent), items_view(raw@), items_view(out@)),
{
    let ghost raw0 = raw@;
    match item {
        Item::SynthesizedDirectory(_) => {
            proof {
                lemma_items_view(raw0);
            }
            raw
        },
        Item::SynthesizedFile(_) => Vec::new(),
        Item::Course(c) => {
            let mut out = raw;
            let link = outline_link(c.id.as_str());
            let bb = Item::make_link_file(p, "Blackboard", link.as_str());
            out.push(bb);
            proof {
                lemma_items_view(out@);
                lemma_items_view(raw0);
                assert forall|i: int| 0 <= i < raw0.len() implies items_view(out@)[i]
                    == items_view(raw0)[i] by {
                    assert(out@[i] == raw0[i]);
                    assert(items_view(out@)[i] == out@[i]@);
                    assert(items_view(raw0)[i] == raw0[i]@);
                }
                assert(items_view(out@).take(raw0.len() as int) =~= items_view(raw0));
            }
            out
        },
        Item::CourseItem(ci) => {
            let mut out: Vec<Item> = match &ci.content {
                Some(CourseItemContent::Link(l)) => {
                    let mut v: Vec<Item> = Vec::new();
                    v.push(Item::make_link_file(p, ci.name.as_str(), l.as_str()));
                    v
                },
                Some(CourseItemContent::FileUrl(u)) => {
                    let mut v: Vec<Item> = Vec::new();
                    let bare = Item::CourseItem(
                        CourseItem {
                            name: ci.name.clone(),
                            content: Some(CourseItemContent::FileUrl(u.clone())),
                            description: None,
                            attachments: Vec::new(),
                        },
                    );
                    proof {
                        assert(strings_view(Seq::<String>::empty()) =~= Seq::<Seq<char>>::empty());
                        assert(is_bare_file_item(bare@, ci.name@, u@));
                    }
                    v.push(bare);
                    v
                },
                Some(CourseItemContent::FolderUrl(_)) => raw,
                None => Vec::new(),
            };
            let ghost base0 = out@;
            let mut atts = ci.attachments_as_items();
            let ghost atts_snap = atts@;
            out.append(&mut atts);
            let desc_file = ci.maybe_new_description_file();
            let ghost desc0 = desc_file;
            match desc_file {
                Some(f) => out.push(f),
                None => (),
            }
            let link_file = ci.maybe_new_link_file(p);
            let ghost link0 = link_file;
            match link_file {
                Some(f) => out.push(f),
                None => (),
            }
            let jump_file = match ci.blackboard_link(parent) {
                Some(u) => Some(Item::make_link_file(p, "Blackboard", u.as_str())),
                None => None,
            };
            let ghost jump0 = jump_file;
            match jump_file {
                Some(f) => out.push(f),
                None => (),
            }
            proof {
                lemma_items_view(out@);
                lemma_items_view(raw0);
                let ov = items_view(out@);
                let base_len = base0.len() as int;
                let natt = atts_snap.len() as int;
                assert forall|j: int| 0 <= j < out@.len() implies ov[j] == #[trigger] out@[j]@ by {
                    assert(items_view(out@)[j] == out@[j]@);
                }
                assert(forall|k: int|
                    0 <= k < natt ==> out@[base_len + k] == #[trigger] atts_snap[k]);
                assert forall|k: int| 0 <= k < natt implies is_attachment_item(
                    #[trigger] ov[base_len + k],
                    ci@.attachments[k],
                ) by {
                    assert(out@[base_len + k] == atts_snap[k]);
                    assert(ov[base_len + k] == out@[base_len + k]@);
                    assert(is_attachment_item(atts_snap[k]@, ci.attachments@[k]@));
                    assert(strings_view(ci.attachments@)[k] == ci.attachments@[k]@);
                }
                match ci@.content {
                    Some(ContentView::Link(l)) => {
                        assert(base0.len() == 1);
                        assert(out@[0] == base0[0]);
                        assert(is_link_file_item(base0[0]@, p, ci.name@, l));
                        assert(is_link_file_item(ov[0], p, ci@.name, l));
                    },
                    Some(ContentView::FileUrl(u)) => {
                        assert(base0.len() == 1);
                        assert(out@[0] == base0[0]);
                        assert(is_bare_file_item(base0[0]@, ci.name@, u));
                        assert(is_bare_file_item(ov[0], ci@.name, u));
                    },
                    _ => (),
                }
                let ndesc: int = if desc0 is Some {
                    1
                } else {
                    0
                };
                match desc0 {
                    Some(f) => {
                        assert(out@[base_len + natt] == f);
                        assert(ov[base_len + natt] == f@);
                    },
                    None => (),
                }
                match link0 {
                    Some(f) => {
                        assert(out@[base_len + natt + ndesc] == f);
                        assert(ov[base_len + natt + ndesc] == f@);
                    },
                    None => (),
                }
                match jump0 {
                    Some(f) => {
                        assert(out@.last() == f);
                        assert(ov.last() == f@);
                    },
                    None => (),
                }
                if ci@.content matches Some(ContentView::FolderUrl(_)) {
                    assert forall|i: int| 0 <= i < raw0.len() implies ov[i] == items_view(raw0)[i]
                        by {
                        assert(out@[i] == raw0[i]);
                        assert(items_view(out@)[i] == out@[i]@);
                        assert(items_view(raw0)[i] == raw0[i]@);
                    }
                    assert(ov.take(raw0.len() as int) =~= items_view(raw0));
                }
            }
            out
        },
    }
}

} // verus!
