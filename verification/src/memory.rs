//! An in-memory content provider: the whole catalog is handed over as plain
//! values at construction. It exercises the projection engine without any
//! network, and shows that the provider contract is satisfiable.

use vstd::prelude::*;
use vstd::string::*;

use crate::client::{download_file_name, BbClient};
use crate::error::BbError;
use crate::item::{clone_items, display_name, CourseItemContent, Item, ItemType};
use crate::platform::{create_link_file, Platform};
use crate::text::str_eq;

verus! {

/// The first value keyed by `key` in an association list, or `None`.
pub open spec fn spec_assoc<V>(t: Seq<(String, V)>, key: Seq<char>) -> Option<V>
    decreases t.len(),
{
    if t.len() == 0 {
        None
    } else if t[0].0@ == key {
        Some(t[0].1)
    } else {
        spec_assoc(t.drop_first(), key)
    }
}

/// Looks a key up in an association list.
fn assoc<'a, V>(t: &'a Vec<(String, V)>, key: &str) -> (r: Option<&'a V>)
    ensures
        match r {
            Some(v) => spec_assoc(t@, key@) == Some(*v),
            None => spec_assoc(t@, key@) is None,
        },
{
    let mut i: usize = 0;
    proof {
        assert(t@.skip(0) =~= t@);
    }
    while i < t.len()
        invariant
            0 <= i <= t@.len(),
            spec_assoc(t@, key@) == spec_assoc(t@.skip(i as int), key@),
        decreases t@.len() - i,
    {
        proof {
            assert(t@.skip(i as int)[0] == t@[i as int]);
            assert(t@.skip(i as int).drop_first() =~= t@.skip(i + 1));
        }
        if str_eq(t[i].0.as_str(), key) {
            return Some(&t[i].1);
        }
        i = i + 1;
    }
    None
}

/// A provider whose whole answer set is held in memory: the synthesized
/// root, raw listings keyed by course identifier and by folder URL, file
/// bytes and effective download URLs keyed by file URL.
pub struct MemoryClient {
    pub platform: Platform,
    pub root: Item,
    pub course_listings: Vec<(String, Vec<Item>)>,
    pub folder_listings: Vec<(String, Vec<Item>)>,
    pub files: Vec<(String, Vec<u8>)>,
    pub effective_urls: Vec<(String, String)>,
}

impl BbClient for MemoryClient {
    fn get_root(&self) -> (r: Result<Item, BbError>) {
        Ok(self.root.clone())
    }

    fn get_children(&self, path: &Vec<Item>) -> (r: Result<Vec<Item>, BbError>) {
        let item = &path[path.len() - 1];
        match item {
            Item::SynthesizedDirectory(d) => Ok(clone_items(&d.contents)),
            Item::Course(c) => match assoc(&self.course_listings, c.id.as_str()) {
                Some(v) => Ok(clone_items(v)),
                None => Ok(Vec::new()),
            },
            Item::CourseItem(ci) => match &ci.content {
                Some(CourseItemContent::FolderUrl(u)) => match assoc(
                    &self.folder_listings,
                    u.as_str(),
                ) {
                    Some(v) => Ok(clone_items(v)),
                    None => Ok(Vec::new()),
                },
                _ => Ok(Vec::new()),
            },
            Item::SynthesizedFile(_) => Ok(Vec::new()),
        }
    }

    fn get_size(&self, item: &Item) -> (r: Result<usize, BbError>) {
        if item.item_type() == ItemType::Directory {
            return Err(BbError::NotAFile(item.clone()));
        }
        match item {
            Item::SynthesizedFile(f) => Ok(f.contents.as_str().as_bytes_vec().len()),
            Item::CourseItem(ci) => match &ci.content {
                Some(CourseItemContent::FileUrl(u)) => match assoc(&self.files, u.as_str()) {
                    Some(bytes) => Ok(bytes.len()),
                    None => Err(BbError::FailedToGetHeaders),
                },
                Some(CourseItemContent::Link(l)) => Ok(
                    create_link_file(self.platform, l.as_str()).as_str().as_bytes_vec().len(),
                ),
                Some(CourseItemContent::FolderUrl(_)) => Ok(0),
                None => match &ci.description {
                    Some(d) => Ok(d.as_str().as_bytes_vec().len()),
                    None => Ok(0),
                },
            },
            _ => Ok(0),
        }
    }

    fn get_contents(&self, item: &Item) -> (r: Result<Vec<u8>, BbError>) {
        if item.item_type() == ItemType::Directory {
            return Err(BbError::NotAFile(item.clone()));
        }
        match item {
            Item::SynthesizedFile(f) => Ok(f.contents.as_str().as_bytes_vec()),
            Item::CourseItem(ci) => match &ci.content {
                Some(CourseItemContent::FileUrl(u)) => match assoc(&self.files, u.as_str()) {
                    Some(bytes) => Ok(clone_bytes(bytes)),
                    None => Err(BbError::FailedToGetContents(ci.clone())),
                },
                Some(CourseItemContent::Link(l)) => Ok(
                    create_link_file(self.platform, l.as_str()).as_str().as_bytes_vec(),
                ),
                Some(CourseItemContent::FolderUrl(_)) => Ok(Vec::new()),
                None => match &ci.description {
                    Some(d) => Ok(d.as_str().as_bytes_vec()),
                    None => Ok(Vec::new()),
                },
            },
            _ => Ok(Vec::new()),
        }
    }

    fn get_type(&self, item: &Item) -> (t: ItemType) {
        item.item_type()
    }

    fn get_name(&self, item: &Item) -> (r: Result<String, BbError>) {
        match display_name(self.platform, item) {
            Some(n) => Ok(n),
            None => match item {
                Item::CourseItem(ci) => match &ci.content {
                    Some(CourseItemContent::FileUrl(u)) => match assoc(
                        &self.effective_urls,
                        u.as_str(),
                    ) {
                        Some(eff) => Ok(download_file_name(eff.as_str())),
                        None => Err(BbError::FailedToGetHeaders),
                    },
                    _ => Err(BbError::FailedToGetHeaders),
                },
                _ => Err(BbError::FailedToGetHeaders),
            },
        }
    }
}

/// Clones a byte vector.
fn clone_bytes(v: &Vec<u8>) -> (r: Vec<u8>)
    ensures
        r@ == v@,
{
    let mut out: Vec<u8> = Vec::new();
    let mut i: usize = 0;
    while i < v.len()
        invariant
            0 <= i <= v@.len(),
            out@ == v@.take(i as int),
        decreases v@.len() - i,
    {
        out.push(v[i]);
        proof {
            assert(out@ =~= v@.take(i + 1));
        }
        i = i + 1;
    }
    proof {
        assert(v@.take(v@.len() as int) =~= v@);
    }
    out
}

} // verus!
