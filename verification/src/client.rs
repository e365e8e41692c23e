//! The content-provider capability: the narrow interface through which the
//! projection engine obtains remote data, together with the pure pieces of
//! provider work that need no network: deciding which courses are current,
//! and deriving a filename from a download URL.

use vstd::prelude::*;
use vstd::string::*;

use crate::error::BbError;
use crate::item::{Course, Item, ItemType};
use crate::text::{find_from, lemma_find_from, str_find_char};

verus! {

/// The capability the engine consumes. A provider hands the engine the
/// synthesized root, raw child listings, and per-item metadata and bytes.
///
/// The contracts state only what every provider must guarantee: `get_type`
/// is the pure classification of the item, and asking a directory for file
/// data is answered with a `NotAFile` error. Everything that reaches the
/// network (listings, sizes, contents, resolved filenames) may fail
/// transiently and is otherwise unconstrained here; a provider also promises
/// informally that equal items yield equal contents, which lets callers
/// cache. The scraping client that talks to the real LMS implements this
/// trait outside the verified library; an in-memory implementation lives in
/// [`crate::memory`].
pub trait BbClient: Sized {
    /// The synthesized root of the tree.
    fn get_root(&self) -> (r: Result<Item, BbError>);

    /// The raw children of the last item of `path`, which lists the
    /// ancestors root first. The whole chain is passed because building some
    /// requests needs parent context.
    fn get_children(&self, path: &Vec<Item>) -> (r: Result<Vec<Item>, BbError>)
        requires
            path@.len() >= 1,
            path@.last()@.kind() == ItemType::Directory,
    ;

    /// The byte size of a file item's contents.
    fn get_size(&self, item: &Item) -> (r: Result<usize, BbError>)
        ensures
            item@.kind() == ItemType::Directory ==> (r matches Err(e) && e matches
                BbError::NotAFile(it) && it@ == item@),
    ;

    /// The bytes of a file item's contents.
    fn get_contents(&self, item: &Item) -> (r: Result<Vec<u8>, BbError>)
        ensures
            item@.kind() == ItemType::Directory ==> (r matches Err(e) && e matches
                BbError::NotAFile(it) && it@ == item@),
    ;

    /// The filesystem kind of the item; pure, and never fails.
    fn get_type(&self, item: &Item) -> (t: ItemType)
        ensures
            t == item@.kind(),
    ;

    /// The display name of the item. Only a file payload's name needs the
    /// provider (a network probe of the effective download URL); every other
    /// name is a pure function of the item, which
    /// [`crate::item::display_name`] computes without this method.
    fn get_name(&self, item: &Item) -> (r: Result<String, BbError>);
}

/// Whether a course is shown: always when all courses were asked for,
/// otherwise exactly when the clock now lies within the course's term.
/// Times are seconds since the epoch; a course without a complete term is
/// never current.
pub open spec fn spec_course_is_current(
    all: bool,
    start: Option<i64>,
    end: Option<i64>,
    now: i64,
) -> bool {
    all || (start matches Some(s) && end matches Some(e) && s <= now <= e)
}

/// Decides whether a course is listed, from its term bounds and the clock.
pub fn course_is_current(all: bool, start: Option<i64>, end: Option<i64>, now: i64) -> (r: bool)
    ensures
        r == spec_course_is_current(all, start, end, now),
{
    if all {
        true
    } else {
        match (start, end) {
            (Some(s), Some(e)) => s <= now && now <= e,
            _ => false,
        }
    }
}

impl Course {
    /// A course from a membership record: the opaque identifier, and the
    /// first eight characters of the catalog identifier as the short name.
    pub fn from_membership(id: String, catalog_id: &str) -> (c: Course)
        requires
            catalog_id@.len() >= 8,
        ensures
            c@.id == id@,
            c@.short_name == catalog_id@.take(8),
    {
        let mut short = String::new();
        short.append(catalog_id.substring_char(0, 8));
        proof {
            assert(short@ =~= catalog_id@.take(8));
        }
        Course { short_name: short, id }
    }
}

/// Whether `pct_str::PctStr::new` accepts the string as well-formed
/// percent-encoded text.
pub uninterp spec fn pct_valid(s: Seq<char>) -> bool;

/// What `pct_str::PctStr::decode` returns for a well-formed
/// percent-encoded string; a function of the characters alone.
pub uninterp spec fn pct_decoded(s: Seq<char>) -> Seq<char>;

/// Relies on pct_str::PctStr: `new` accepts exactly the well-formed
/// percent-encoded strings, and `decode` replaces every `%XX` escape by the
/// character it encodes, so a string without `%` decodes to itself.
#[verifier::external_body]
fn pct_decode(s: &str) -> (r: Option<String>)
    ensures
        pct_valid(s@) ==> r is Some,
        r is Some ==> pct_valid(s@),
        r matches Some(d) ==> d@ == pct_decoded(s@),
        s@.contains('%') == false ==> r is Some,
        r matches Some(d) ==> (s@.contains('%') == false ==> d@ == s@),
{
    match pct_str::PctStr::new(s) {
        Ok(p) => Some(p.decode()),
        Err(_) => None,
    }
}

/// Index right after the last `/` of `s`; `0` when there is none.
pub open spec fn after_last_slash(s: Seq<char>) -> int
    decreases s.len(),
{
    if s.len() == 0 {
        0
    } else if s.last() == '/' {
        s.len() as int
    } else {
        after_last_slash(s.drop_last())
    }
}

/// `after_last_slash` lies within the string and cuts exactly at a slash.
pub proof fn lemma_after_last_slash(s: Seq<char>)
    ensures
        0 <= after_last_slash(s) <= s.len(),
        forall|i: int| after_last_slash(s) <= i < s.len() ==> s[i] != '/',
        after_last_slash(s) > 0 ==> s[after_last_slash(s) - 1] == '/',
    decreases s.len(),
{
    if s.len() > 0 && s.last() != '/' {
        lemma_after_last_slash(s.drop_last());
        assert(forall|i: int| 0 <= i < s.len() - 1 ==> s[i] == s.drop_last()[i]);
    }
}

/// Index right after the last `/`, or `0` when there is none.
fn find_after_last_slash(s: &str) -> (r: usize)
    ensures
        r == after_last_slash(s@),
{
    let n = s.unicode_len();
    proof {
        assert(s@.take(n as int) =~= s@);
    }
    let mut i: usize = n;
    while i > 0
        invariant
            0 <= i <= n,
            n == s@.len(),
            after_last_slash(s@) == after_last_slash(s@.take(i as int)),
        decreases i,
    {
        if s.get_char(i - 1) == '/' {
            proof {
                assert(s@.take(i as int).last() == '/');
            }
            return i;
        }
        proof {
            assert(s@.take(i as int).drop_last() =~= s@.take(i - 1));
        }
        i = i - 1;
    }
    proof {
        assert(s@.take(0) =~= Seq::<char>::empty());
    }
    0
}

/// The filename a download URL stands for: the last path segment of the
/// effective URL, cut before any query string, percent-decoded when it is
/// well-formed percent-encoded text and kept verbatim otherwise.
pub open spec fn spec_download_file_name(effective_url: Seq<char>) -> Seq<char> {
    let seg = effective_url.subrange(after_last_slash(effective_url), effective_url.len() as int);
    let stem = seg.take(find_from(seg, 0, '?'));
    if pct_valid(stem) {
        pct_decoded(stem)
    } else {
        stem
    }
}

/// Derives the filename from the effective URL a download was redirected
/// to.
pub fn download_file_name(effective_url: &str) -> (r: String)
    ensures
        r@ == spec_download_file_name(effective_url@),
{
    let start = find_after_last_slash(effective_url);
    proof {
        lemma_after_last_slash(effective_url@);
    }
    let n = effective_url.unicode_len();
    let seg = effective_url.substring_char(start, n);
    let qcut = match str_find_char(seg, 0, '?') {
        Some(j) => j,
        None => seg.unicode_len(),
    };
    proof {
        lemma_find_from(seg@, 0, '?');
    }
    let stem = seg.substring_char(0, qcut);
    proof {
        assert(stem@ =~= seg@.take(find_from(seg@, 0, '?')));
    }
    match pct_decode(stem) {
        Some(decoded) => decoded,
        None => {
            let mut out = String::new();
            out.append(stem);
            out
        },
    }
}

} // verus!
