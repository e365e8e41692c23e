//! The item model: the kind-tagged value standing for every entity that can
//! appear in the projected tree, its classification as file or directory,
//! its display name, and the helpers that synthesize artificial files
//! (description texts and internet shortcuts) during expansion.
//!
//! Every executable type has a mathematical view; all contracts of the crate
//! speak about those views.

use vstd::prelude::*;
use vstd::string::*;

use crate::platform::{link_file_ext, spec_link_file_ext, Platform};
use crate::text::{contains_seq, str_contains};

verus! {

/// Filesystem kind of a tree entity.
#[derive(Clone, Copy, PartialEq, Eq, Structural, Debug)]
pub enum ItemType {
    File,
    Directory,
}

/// A course the user is enrolled in: an opaque identifier and the short
/// name shown as the course's directory name.
#[derive(Debug)]
pub struct Course {
    pub short_name: String,
    pub id: String,
}

/// The payload a course item points at. It is a descriptor, never fetched
/// eagerly.
#[derive(Debug)]
pub enum CourseItemContent {
    FileUrl(String),
    FolderUrl(String),
    Link(String),
}

/// A node from within a course: a display name, an optional payload, an
/// optional description, and the URLs of its attachments.
#[derive(Debug)]
pub struct CourseItem {
    pub name: String,
    pub content: Option<CourseItemContent>,
    pub description: Option<String>,
    pub attachments: Vec<String>,
}

/// A file fabricated by the engine, with its contents held in memory.
#[derive(Debug)]
pub struct SynthesizedFile {
    pub name: String,
    pub contents: String,
}

/// A directory fabricated by the engine, with a pre-enumerated child list;
/// used for the synthetic root.
#[derive(Debug)]
pub struct SynthesizedDirectory {
    pub name: String,
    pub contents: Vec<Item>,
}

/// Any entity that can appear in the projected tree.
#[derive(Debug)]
pub enum Item {
    Course(Course),
    CourseItem(CourseItem),
    SynthesizedFile(SynthesizedFile),
    SynthesizedDirectory(SynthesizedDirectory),
}

/// Mathematical view of a `Course`.
#[verifier::ext_equal]
pub struct CourseView {
    pub short_name: Seq<char>,
    pub id: Seq<char>,
}

/// Mathematical view of a `CourseItemContent`.
#[verifier::ext_equal]
pub enum ContentView {
    FileUrl(Seq<char>),
    FolderUrl(Seq<char>),
    Link(Seq<char>),
}

/// Mathematical view of a `CourseItem`.
#[verifier::ext_equal]
pub struct CourseItemView {
    pub name: Seq<char>,
    pub content: Option<ContentView>,
    pub description: Option<Seq<char>>,
    pub attachments: Seq<Seq<char>>,
}

/// Mathematical view of a `SynthesizedFile`.
#[verifier::ext_equal]
pub struct SynthesizedFileView {
    pub name: Seq<char>,
    pub contents: Seq<char>,
}

/// Mathematical view of a `SynthesizedDirectory`.
#[verifier::ext_equal]
pub struct SynthesizedDirectoryView {
    pub name: Seq<char>,
    pub contents: Seq<ItemView>,
}

/// Mathematical view of an `Item`.
#[verifier::ext_equal]
pub enum ItemView {
    Course(CourseView),
    CourseItem(CourseItemView),
    SynthesizedFile(SynthesizedFileView),
    SynthesizedDirectory(SynthesizedDirectoryView),
}

/// The views of a sequence of strings.
pub open spec fn strings_view(s: Seq<String>) -> Seq<Seq<char>> {
    s.map_values(|x: String| x@)
}

impl View for Course {
    type V = CourseView;

    open spec fn view(&self) -> CourseView {
        CourseView { short_name: self.short_name@, id: self.id@ }
    }
}

impl View for CourseItemContent {
    type V = ContentView;

    open spec fn view(&self) -> ContentView {
        match self {
            CourseItemContent::FileUrl(u) => ContentView::FileUrl(u@),
            CourseItemContent::FolderUrl(u) => ContentView::FolderUrl(u@),
            CourseItemContent::Link(u) => ContentView::Link(u@),
        }
    }
}

/// The view of an optional payload.
pub open spec fn content_view(c: Option<CourseItemContent>) -> Option<ContentView> {
    match c {
        Some(x) => Some(x@),
        None => None,
    }
}

/// The view of an optional string.
pub open spec fn string_view(s: Option<String>) -> Option<Seq<char>> {
    match s {
        Some(x) => Some(x@),
        None => None,
    }
}

impl View for CourseItem {
    type V = CourseItemView;

    open spec fn view(&self) -> CourseItemView {
        CourseItemView {
            name: self.name@,
            content: content_view(self.content),
            description: string_view(self.description),
            attachments: strings_view(self.attachments@),
        }
    }
}

impl View for SynthesizedFile {
    type V = SynthesizedFileView;

    open spec fn view(&self) -> SynthesizedFileView {
        SynthesizedFileView { name: self.name@, contents: self.contents@ }
    }
}

/// The views of a sequence of items.
pub open spec fn items_view(s: Seq<Item>) -> Seq<ItemView>
    decreases s,
{
    if s.len() == 0 {
        Seq::empty()
    } else {
        items_view(s.drop_last()).push(s.last()@)
    }
}

impl View for SynthesizedDirectory {
    type V = SynthesizedDirectoryView;

    open spec fn view(&self) -> SynthesizedDirectoryView
        decreases self,
    {
        SynthesizedDirectoryView { name: self.name@, contents: items_view(self.contents@) }
    }
}

impl View for Item {
    type V = ItemView;

    open spec fn view(&self) -> ItemView
        decreases self,
    {
        match self {
            Item::Course(c) => ItemView::Course(c@),
            Item::CourseItem(ci) => ItemView::CourseItem(ci@),
            Item::SynthesizedFile(f) => ItemView::SynthesizedFile(f@),
            Item::SynthesizedDirectory(d) => ItemView::SynthesizedDirectory(d@),
        }
    }
}

/// `items_view` is the element-wise view.
pub proof fn lemma_items_view(s: Seq<Item>)
    ensures
        items_view(s).len() == s.len(),
        forall|i: int| 0 <= i < s.len() ==> items_view(s)[i] == #[trigger] s[i]@,
    decreases s,
{
    if s.len() > 0 {
        lemma_items_view(s.drop_last());
        let rest = items_view(s.drop_last());
        assert(items_view(s) == rest.push(s.last()@));
        assert(rest.len() == s.len() - 1);
        assert forall|i: int| 0 <= i < s.len() implies items_view(s)[i] == #[trigger] s[i]@ by {
            if i < s.len() - 1 {
                assert(rest.push(s.last()@)[i] == rest[i]);
                assert(rest[i] == s.drop_last()[i]@);
                assert(s.drop_last()[i] == s[i]);
            } else {
                assert(rest.push(s.last()@)[i] == s.last()@);
                assert(s.last() == s[i]);
            }
        }
    }
}

/// Appending an item appends its view.
pub proof fn lemma_items_view_push(s: Seq<Item>, e: Item)
    ensures
        items_view(s.push(e)) == items_view(s).push(e@),
{
    assert(s.push(e).drop_last() =~= s);
    assert(s.push(e).last() == e);
}

impl Clone for Course {
    fn clone(&self) -> (res: Self)
        ensures
            res@ == self@,
    {
        Course { short_name: self.short_name.clone(), id: self.id.clone() }
    }
}

impl Clone for CourseItemContent {
    fn clone(&self) -> (res: Self)
        ensures
            res@ == self@,
    {
        match self {
            CourseItemContent::FileUrl(u) => CourseItemContent::FileUrl(u.clone()),
            CourseItemContent::FolderUrl(u) => CourseItemContent::FolderUrl(u.clone()),
            CourseItemContent::Link(u) => CourseItemContent::Link(u.clone()),
        }
    }
}

/// Clones a list of strings, element for element.
fn clone_strings(v: &Vec<String>) -> (res: Vec<String>)
    ensures
        res@ == v@,
{
    let mut out: Vec<String> = Vec::new();
    let mut i: usize = 0;
    while i < v.len()
        invariant
            0 <= i <= v@.len(),
            out@ == v@.take(i as int),
        decreases v@.len() - i,
    {
        out.push(v[i].clone());
        proof {
            assert(out@ =~= v@.take(i + 1));
        }
        i = i + 1;
    }
    proof {
        assert(v@.take(v@.len() as int) =~= v@);
    }
    out
}

impl Clone for CourseItem {
    fn clone(&self) -> (res: Self)
        ensures
            res@ == self@,
    {
        CourseItem {
            name: self.name.clone(),
            content: match &self.content {
                Some(c) => Some(c.clone()),
                None => None,
            },
            description: match &self.description {
                Some(d) => Some(d.clone()),
                None => None,
            },
            attachments: clone_strings(&self.attachments),
        }
    }
}

impl Clone for SynthesizedFile {
    fn clone(&self) -> (res: Self)
        ensures
            res@ == self@,
    {
        SynthesizedFile { name: self.name.clone(), contents: self.contents.clone() }
    }
}

impl Clone for Item {
    fn clone(&self) -> (res: Self)
        ensures
            res@ == self@,
        decreases self,
    {
        match self {
            Item::Course(c) => Item::Course(c.clone()),
            Item::CourseItem(ci) => Item::CourseItem(ci.clone()),
            Item::SynthesizedFile(f) => Item::SynthesizedFile(f.clone()),
            Item::SynthesizedDirectory(d) => {
                let mut contents: Vec<Item> = Vec::new();
                let mut i: usize = 0;
                while i < d.contents.len()
                    invariant
                        0 <= i <= d.contents@.len(),
                        contents@.len() == i,
                        items_view(contents@) == items_view(d.contents@.take(i as int)),
                        *self == Item::SynthesizedDirectory(*d),
                    decreases d.contents@.len() - i,
                {
                    proof {
                        assert(self->SynthesizedDirectory_0 == *d);
                        assert(decreases_to!(*self => self->SynthesizedDirectory_0));
                        assert(decreases_to!(*d => d.contents));
                        assert(decreases_to!(d.contents => d.contents@));
                        assert(decreases_to!(d.contents@ => d.contents@[i as int]));
                        assert(decreases_to!(*self => d.contents@[i as int]));
                    }
                    let cloned_item = d.contents[i].clone();
                    proof {
                        lemma_items_view_push(contents@, cloned_item);
                        lemma_items_view_push(d.contents@.take(i as int), d.contents@[i as int]);
                        assert(d.contents@.take(i + 1) =~= d.contents@.take(i as int).push(
                            d.contents@[i as int],
                        ));
                    }
                    contents.push(cloned_item);
                    i = i + 1;
                }
                proof {
                    assert(d.contents@.take(d.contents@.len() as int) =~= d.contents@);
                }
                Item::SynthesizedDirectory(
                    SynthesizedDirectory { name: d.name.clone(), contents },
                )
            },
        }
    }
}

impl Clone for SynthesizedDirectory {
    fn clone(&self) -> (res: Self)
        ensures
            res@ == self@,
    {
        SynthesizedDirectory { name: self.name.clone(), contents: clone_items(&self.contents) }
    }
}

/// Clones a list of items, element for element.
pub fn clone_items(v: &Vec<Item>) -> (res: Vec<Item>)
    ensures
        res@.len() == v@.len(),
        items_view(res@) == items_view(v@),
        forall|i: int| 0 <= i < v@.len() ==> #[trigger] res@[i]@ == v@[i]@,
{
    let mut out: Vec<Item> = Vec::new();
    let mut i: usize = 0;
    while i < v.len()
        invariant
            0 <= i <= v@.len(),
            out@.len() == i,
            items_view(out@) == items_view(v@.take(i as int)),
            forall|k: int| 0 <= k < i ==> #[trigger] out@[k]@ == v@[k]@,
        decreases v@.len() - i,
    {
        let cloned_item = v[i].clone();
        proof {
            lemma_items_view_push(out@, cloned_item);
            lemma_items_view_push(v@.take(i as int), v@[i as int]);
            assert(v@.take(i + 1) =~= v@.take(i as int).push(v@[i as int]));
        }
        out.push(cloned_item);
        i = i + 1;
    }
    proof {
        assert(v@.take(v@.len() as int) =~= v@);
    }
    out
}

impl CourseItemView {
    /// Classification of a course item: a directory when it has attachments,
    /// or both a description and a payload, or a folder payload; a file
    /// otherwise.
    pub open spec fn kind(&self) -> ItemType {
        if self.attachments.len() > 0 || (self.description is Some && self.content is Some) {
            ItemType::Directory
        } else {
            match self.content {
                Some(ContentView::FolderUrl(_)) => ItemType::Directory,
                _ => ItemType::File,
            }
        }
    }
}

impl ItemView {
    /// Filesystem kind of an item; a pure function of the item alone.
    pub open spec fn kind(&self) -> ItemType {
        match self {
            ItemView::Course(_) => ItemType::Directory,
            ItemView::SynthesizedDirectory(_) => ItemType::Directory,
            ItemView::SynthesizedFile(_) => ItemType::File,
            ItemView::CourseItem(ci) => ci.kind(),
        }
    }
}

impl Item {
    /// Computes the filesystem kind of the item.
    pub fn item_type(&self) -> (t: ItemType)
        ensures
            t == self@.kind(),
    {
        match self {
            Item::Course(_) | Item::SynthesizedDirectory(_) => ItemType::Directory,
            Item::SynthesizedFile(_) => ItemType::File,
            Item::CourseItem(ci) => {
                if ci.attachments.len() > 0 || (ci.description.is_some() && ci.content.is_some()) {
                    ItemType::Directory
                } else {
                    match &ci.content {
                        Some(CourseItemContent::FolderUrl(_)) => ItemType::Directory,
                        _ => ItemType::File,
                    }
                }
            },
        }
    }
}

/// The name under which an item surfaces to the host, before sanitization:
/// directories keep their stored name; a synthesized file keeps its stored
/// name; a link file carries the platform's shortcut extension; an item that
/// is only a description becomes a `.txt` file. `None` stands for the one
/// case the model cannot decide - a file payload, whose name the provider
/// must resolve over the network.
pub open spec fn spec_display_name(p: Platform, it: ItemView) -> Option<Seq<char>> {
    match it {
        ItemView::Course(c) => Some(c.short_name),
        ItemView::SynthesizedFile(f) => Some(f.name),
        ItemView::SynthesizedDirectory(d) => Some(d.name),
        ItemView::CourseItem(ci) => {
            if ci.kind() == ItemType::Directory {
                Some(ci.name)
            } else {
                match ci.content {
                    Some(ContentView::FileUrl(_)) => None,
                    Some(ContentView::FolderUrl(_)) => Some(ci.name),
                    Some(ContentView::Link(_)) => Some(
                        ci.name + "."@ + spec_link_file_ext(p),
                    ),
                    None => {
                        if ci.description is Some {
                            Some(ci.name + ".txt"@)
                        } else {
                            Some(ci.name)
                        }
                    },
                }
            }
        },
    }
}

/// Computes the display name of an item, or `None` when only the provider
/// can resolve it (a file payload named by the remote server).
pub fn display_name(p: Platform, item: &Item) -> (r: Option<String>)
    ensures
        match r {
            Some(n) => spec_display_name(p, item@) == Some(n@),
            None => spec_display_name(p, item@) is None,
        },
{
    match item {
        Item::Course(c) => Some(c.short_name.clone()),
        Item::SynthesizedFile(f) => Some(f.name.clone()),
        Item::SynthesizedDirectory(d) => Some(d.name.clone()),
        Item::CourseItem(ci) => {
            if item.item_type() == ItemType::Directory {
                Some(ci.name.clone())
            } else {
                match &ci.content {
                    Some(CourseItemContent::FileUrl(_)) => None,
                    Some(CourseItemContent::FolderUrl(_)) => Some(ci.name.clone()),
                    Some(CourseItemContent::Link(_)) => {
                        let mut s = ci.name.clone();
                        s.append(".");
                        s.append(link_file_ext(p));
                        proof {
                            assert(s@ =~= ci.name@ + "."@ + spec_link_file_ext(p));
                        }
                        Some(s)
                    },
                    None => {
                        if ci.description.is_some() {
                            let mut s = ci.name.clone();
                            s.append(".txt");
                            Some(s)
                        } else {
                            Some(ci.name.clone())
                        }
                    },
                }
            }
        },
    }
}

impl CourseItemContent {
    /// Classifies a URL by what it points at: a URL with the LMS's
    /// managed-file path component is a file payload, one with its
    /// folder-listing path component is a folder payload, and anything else
    /// is an external link.
    pub fn from_url(url: String) -> (r: CourseItemContent)
        ensures
            contains_seq(url@, "/bbcswebdav/"@) ==> r@ == ContentView::FileUrl(url@),
            !contains_seq(url@, "/bbcswebdav/"@) && contains_seq(url@, "/listContent.jsp"@)
                ==> r@ == ContentView::FolderUrl(url@),
            !contains_seq(url@, "/bbcswebdav/"@) && !contains_seq(url@, "/listContent.jsp"@)
                ==> r@ == ContentView::Link(url@),
    {
        if str_contains(url.as_str(), "/bbcswebdav/") {
            CourseItemContent::FileUrl(url)
        } else if str_contains(url.as_str(), "/listContent.jsp") {
            CourseItemContent::FolderUrl(url)
        } else {
            CourseItemContent::Link(url)
        }
    }
}

} // verus!
