//! Platform-dependent pieces of the projection: which characters a display
//! name may not contain, the internet-shortcut file format, and the inverse
//! parse of that format.

use vstd::prelude::*;
use vstd::string::*;

use crate::text::{find_from, lemma_find_from, lemma_find_from_exact, matches_at, str_find_char,
    str_matches_at, str_starts_with};
use crate::BB_BASE_URL;

verus! {

/// The host operating system the tree is projected for.
#[derive(Clone, Copy, PartialEq, Eq, Structural, Debug)]
pub enum Platform {
    Linux,
    MacOs,
    Windows,
}

/// Characters that may not appear in a display name handed to the host.
/// Every platform rejects the path separator `/`; Windows additionally
/// rejects its reserved filename characters.
pub open spec fn reserved_char(p: Platform, c: char) -> bool {
    c == '/' || (p is Windows && (c == '<' || c == '>' || c == ':' || c == '\\' || c == '|'
        || c == '?' || c == '*'))
}

/// A reserved character becomes `-`; everything else is kept.
pub open spec fn sanitize_char(p: Platform, c: char) -> char {
    if reserved_char(p, c) {
        '-'
    } else {
        c
    }
}

/// The sanitized form of a display name.
pub open spec fn spec_sanitize(p: Platform, s: Seq<char>) -> Seq<char> {
    s.map_values(|c: char| sanitize_char(p, c))
}

/// Replaces every reserved character of the platform by `-`.
pub fn sanitize_name(p: Platform, name: &str) -> (r: String)
    ensures
        r@ == spec_sanitize(p, name@),
{
    let n = name.unicode_len();
    let mut out = String::new();
    let mut i: usize = 0;
    while i < n
        invariant
            0 <= i <= n,
            n == name@.len(),
            out@ == spec_sanitize(p, name@.take(i as int)),
        decreases n - i,
    {
        let c = name.get_char(i);
        let reserved = c == '/' || (p == Platform::Windows && (c == '<' || c == '>' || c == ':'
            || c == '\\' || c == '|' || c == '?' || c == '*'));
        if reserved {
            out.append("-");
        } else {
            let piece = name.substring_char(i, i + 1);
            out.append(piece);
        }
        proof {
            reveal_strlit("-");
            assert(out@ =~= spec_sanitize(p, name@.take(i + 1)));
        }
        i = i + 1;
    }
    proof {
        assert(name@.take(n as int) =~= name@);
    }
    out
}

/// Sanitization is idempotent: a name that has already been sanitized is
/// left unchanged, because `-` is never a reserved character.
pub proof fn lemma_sanitize_idempotent(p: Platform, s: Seq<char>)
    ensures
        spec_sanitize(p, spec_sanitize(p, s)) == spec_sanitize(p, s),
{
    assert(spec_sanitize(p, spec_sanitize(p, s)) =~= spec_sanitize(p, s));
}

/// File extension of the platform's internet-shortcut format.
pub open spec fn spec_link_file_ext(p: Platform) -> Seq<char> {
    match p {
        Platform::Linux => "desktop"@,
        Platform::MacOs => "webloc"@,
        Platform::Windows => "url"@,
    }
}

/// File extension of the platform's internet-shortcut format.
pub fn link_file_ext(p: Platform) -> (r: &'static str)
    ensures
        r@ == spec_link_file_ext(p),
{
    match p {
        Platform::Linux => "desktop",
        Platform::MacOs => "webloc",
        Platform::Windows => "url",
    }
}

/// Everything of the shortcut body that precedes the full URL. The base
/// address of the LMS is part of the prefix: shortcut bodies always point
/// into the LMS, and the engine only ever embeds site-relative links.
pub open spec fn link_prefix(p: Platform) -> Seq<char> {
    match p {
        Platform::Linux => "[Desktop Entry]\nEncoding=UTF-8\nType=Link\nURL=https://learn.uq.edu.au"@,
        Platform::MacOs => "{ URL = \"https://learn.uq.edu.au"@,
        Platform::Windows => "[InternetShortcut]\nURL=https://learn.uq.edu.au"@,
    }
}

/// Everything of the shortcut body that follows the full URL.
pub open spec fn link_suffix(p: Platform) -> Seq<char> {
    match p {
        Platform::Linux => "\nIcon=text-html\n"@,
        Platform::MacOs => "\"; }"@,
        Platform::Windows => "\n"@,
    }
}

/// The character that ends the URL inside a shortcut body. It is also the
/// first character of `link_suffix`, which is what makes parsing by
/// scanning for it correct.
pub open spec fn link_terminator(p: Platform) -> char {
    match p {
        Platform::MacOs => '"',
        _ => '\n',
    }
}

/// The shortcut body for a site-relative hyperlink.
pub open spec fn spec_link_file(p: Platform, hyperlink: Seq<char>) -> Seq<char> {
    link_prefix(p) + hyperlink + link_suffix(p)
}

/// Builds the platform's internet-shortcut file body for a site-relative
/// hyperlink, exactly as the host expects it, byte for byte.
pub fn create_link_file(p: Platform, hyperlink: &str) -> (r: String)
    ensures
        r@ == spec_link_file(p, hyperlink@),
{
    let mut s = String::new();
    match p {
        Platform::Linux => {
            s.append("[Desktop Entry]\nEncoding=UTF-8\nType=Link\nURL=https://learn.uq.edu.au");
        },
        Platform::MacOs => {
            s.append("{ URL = \"https://learn.uq.edu.au");
        },
        Platform::Windows => {
            s.append("[InternetShortcut]\nURL=https://learn.uq.edu.au");
        },
    }
    s.append(hyperlink);
    match p {
        Platform::Linux => {
            s.append("\nIcon=text-html\n");
        },
        Platform::MacOs => {
            s.append("\"; }");
        },
        Platform::Windows => {
            s.append("\n");
        },
    }
    proof {
        assert(s@ =~= spec_link_file(p, hyperlink@));
    }
    s
}

/// The full URL recovered from a shortcut body, or `None` when the body is
/// not in the platform's format: the prefix must match, a terminator must
/// follow, and everything after the terminator must be the exact suffix.
pub open spec fn spec_parse_link_file(p: Platform, body: Seq<char>) -> Option<Seq<char>> {
    let pre = link_prefix(p);
    if !matches_at(body, 0, pre) {
        None
    } else {
        let j = find_from(body, pre.len() as int, link_terminator(p));
        if j == body.len() {
            None
        } else if body.subrange(j, body.len() as int) == link_suffix(p) {
            Some(BB_BASE_URL@ + body.subrange(pre.len() as int, j))
        } else {
            None
        }
    }
}

/// Parses a shortcut body back to the full URL it points at.
pub fn parse_link_file(p: Platform, body: &str) -> (r: Option<String>)
    ensures
        match r {
            Some(url) => spec_parse_link_file(p, body@) == Some(url@),
            None => spec_parse_link_file(p, body@) is None,
        },
{
    let pre: &'static str = match p {
        Platform::Linux => "[Desktop Entry]\nEncoding=UTF-8\nType=Link\nURL=https://learn.uq.edu.au",
        Platform::MacOs => "{ URL = \"https://learn.uq.edu.au",
        Platform::Windows => "[InternetShortcut]\nURL=https://learn.uq.edu.au",
    };
    let suf: &'static str = match p {
        Platform::Linux => "\nIcon=text-html\n",
        Platform::MacOs => "\"; }",
        Platform::Windows => "\n",
    };
    let term: char = match p {
        Platform::MacOs => '"',
        _ => '\n',
    };
    if !str_starts_with(body, pre) {
        return None;
    }
    let pre_len = pre.unicode_len();
    let j = match str_find_char(body, pre_len, term) {
        Some(j) => j,
        None => {
            return None;
        },
    };
    proof {
        lemma_find_from(body@, pre_len as int, term);
    }
    let n = body.unicode_len();
    if !(n - j == suf.unicode_len() && str_matches_at(body, j, suf)) {
        proof {
            assert(body@.subrange(j as int, n as int) != link_suffix(p)) by {
                if body@.subrange(j as int, n as int) == link_suffix(p) {
                    assert(matches_at(body@, j as int, link_suffix(p)));
                }
            }
        }
        return None;
    }
    proof {
        assert(body@.subrange(j as int, n as int) =~= link_suffix(p));
    }
    let rel = body.substring_char(pre_len, j);
    let mut url = String::new();
    url.append(BB_BASE_URL);
    url.append(rel);
    proof {
        assert(url@ =~= BB_BASE_URL@ + body@.subrange(pre_len as int, j as int));
    }
    Some(url)
}

/// A shortcut body written for a site-relative hyperlink parses back to
/// exactly the full URL it was written for, provided the hyperlink does not
/// contain the platform's terminator character (a newline, or `"` in the
/// macOS format), which the format cannot represent.
pub proof fn lemma_link_file_round_trip(p: Platform, hyperlink: Seq<char>)
    requires
        !hyperlink.contains(link_terminator(p)),
    ensures
        spec_parse_link_file(p, spec_link_file(p, hyperlink)) == Some(BB_BASE_URL@ + hyperlink),
{
    let body = spec_link_file(p, hyperlink);
    let pre = link_prefix(p);
    let suf = link_suffix(p);
    let t = link_terminator(p);
    let j = pre.len() + hyperlink.len();
    reveal_strlit("\nIcon=text-html\n");
    reveal_strlit("\"; }");
    reveal_strlit("\n");
    assert(suf.len() >= 1 && suf[0] == t);
    assert(matches_at(body, 0, pre)) by {
        assert(body.subrange(0, pre.len() as int) =~= pre);
    }
    assert(body[j as int] == t);
    assert(forall|i: int| pre.len() <= i < j ==> body[i] != t) by {
        assert(forall|i: int| pre.len() <= i < j ==> body[i] == hyperlink[i - pre.len()]);
    }
    lemma_find_from_exact(body, pre.len() as int, j as int, t);
    assert(body.subrange(j as int, body.len() as int) =~= suf);
    assert(body.subrange(pre.len() as int, j as int) =~= hyperlink);
}

} // verus!
