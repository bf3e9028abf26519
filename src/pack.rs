//! Packing a directory tree: which entries become assets, and which archive
//! members each asset gives.

use vstd::prelude::*;
use vstd::string::*;
use crate::index::{meta_word, pathname_word, payload_word};
use crate::meta::{extract_guid_from_meta, guid_key, guid_result, yaml_str_at, MetaParseError};
use crate::naming::meta_suffix;
use crate::paths::{join, join_path};
use crate::text::chars_of;

verus! {

/// Whether a name found by the walk is an asset candidate: hidden entries
/// (leading `.`) and sidecars are not; sidecars are found beside their asset.
pub open spec fn is_candidate(name: Seq<char>) -> bool {
    &&& !(name.len() > 0 && name[0] == '.')
    &&& !(name.len() >= 5 && name.subrange(name.len() - 5, name.len() as int) == meta_suffix())
}

/// Whether the walk considers the entry `name`.
pub fn walk_considers(name: &str) -> (r: bool)
    ensures
        r == is_candidate(name@),
{
    proof {
        reveal_strlit(".meta");
    }
    assert(".meta"@ =~= meta_suffix());
    let chars = chars_of(name);
    let n = chars.len();
    if n > 0 && chars[0] == '.' {
        return false;
    }
    if n >= 5 {
        let tail = String::from_str(name.substring_char(n - 5, n));
        if tail == String::from_str(".meta") {
            return false;
        }
    }
    true
}

/// `s` with every backslash turned into a slash.
pub open spec fn with_slashes(s: Seq<char>) -> Seq<char> {
    s.map_values(|c: char| if c == '\\' { '/' } else { c })
}

pub open spec fn is_separator(c: char) -> bool {
    c == '/' || c == '\\'
}

/// The path of `path` below `base`, when `path` lies below `base`.
pub open spec fn relative_path(base: Seq<char>, path: Seq<char>) -> Option<Seq<char>> {
    let n = base.len() as int;
    if n <= path.len() && path.subrange(0, n) == base {
        if n == path.len() {
            Some(Seq::empty())
        } else if is_separator(path[n]) {
            Some(with_slashes(path.subrange(n + 1, path.len() as int)))
        } else if n > 0 && is_separator(base[n - 1]) {
            Some(with_slashes(path.subrange(n, path.len() as int)))
        } else {
            None
        }
    } else {
        None
    }
}

/// `path` does not lie below `base`.
#[derive(Debug, Clone, Copy, PartialEq, Eq, Structural)]
pub struct NotBelowBase;

/// `s` with backslashes turned into slashes.
pub fn slashes_of(s: &str) -> (r: String)
    ensures
        r@ == with_slashes(s@),
{
    proof {
        reveal_strlit("/");
    }
    assert("/"@ =~= seq!['/']);
    let chars = chars_of(s);
    let n = chars.len();
    let mut out = String::new();
    let mut i: usize = 0;
    while i < n
        invariant
            n == s@.len(),
            chars@ == s@,
            i <= n,
            out@ == with_slashes(s@.subrange(0, i as int)),
            "/"@ == seq!['/'],
        decreases n - i,
    {
        let ghost prev = out@;
        let ghost one = s@.subrange(i as int, i + 1);
        assert(one =~= seq![chars@[i as int]]);
        assert(with_slashes(one) =~= seq![
            if chars@[i as int] == '\\' {
                '/'
            } else {
                chars@[i as int]
            },
        ]);
        if chars[i] == '\\' {
            out.append("/");
        } else {
            out.append(s.substring_char(i, i + 1));
        }
        assert(out@ =~= prev + with_slashes(one));
        assert(with_slashes(s@.subrange(0, i + 1)) =~= with_slashes(s@.subrange(0, i as int))
            + with_slashes(s@.subrange(i as int, i + 1)));
        i = i + 1;
    }
    assert(s@.subrange(0, n as int) =~= s@);
    out
}

/// The path of `path` below `base`, with forward slashes.
pub fn get_relative_path(base: &str, path: &str) -> (r: Result<String, NotBelowBase>)
    ensures
        match r {
            Ok(p) => relative_path(base@, path@) == Some(p@),
            Err(_) => relative_path(base@, path@) is None,
        },
{
    let b = chars_of(base);
    let p = chars_of(path);
    let n = b.len();
    if n > p.len() {
        return Err(NotBelowBase);
    }
    let mut i: usize = 0;
    while i < n
        invariant
            b@ == base@,
            p@ == path@,
            n == b@.len(),
            n <= p@.len(),
            i <= n,
            forall|j: int| 0 <= j < i ==> b@[j] == p@[j],
        decreases n - i,
    {
        if b[i] != p[i] {
            assert(path@.subrange(0, n as int)[i as int] != base@[i as int]);
            return Err(NotBelowBase);
        }
        i = i + 1;
    }
    assert(path@.subrange(0, n as int) =~= base@);
    if n == p.len() {
        return Ok(String::new());
    }
    if p[n] == '/' || p[n] == '\\' {
        Ok(slashes_of(path.substring_char(n + 1, p.len())))
    } else if n > 0 && (b[n - 1] == '/' || b[n - 1] == '\\') {
        Ok(slashes_of(path.substring_char(n, p.len())))
    } else {
        Err(NotBelowBase)
    }
}

/// An asset found by the walk.
#[derive(Debug, Clone, PartialEq, Eq)]
pub struct PackEntry {
    /// The guid read from the sidecar; it names the asset's group.
    pub guid: String,
    /// Slash-separated path below the packed root.
    pub pathname: String,
    /// The sidecar text.
    pub meta: String,
    /// The file to read the payload from; `None` for a folder.
    pub source: Option<String>,
}

/// What became of a walked entry.
#[derive(Debug, Clone, Copy, PartialEq, Eq, Structural)]
pub enum Visited {
    /// The entry is an asset.
    Added,
    /// The entry has no sidecar: it is reported and left out.
    MissingSidecar,
}

/// Why a pack fails.
#[derive(Debug, Clone, Copy, PartialEq, Eq, Structural)]
pub enum PackError {
    /// A sidecar could not be read.
    Meta(MetaParseError),
    /// The walk found no asset.
    Empty,
}

/// The assets found so far, in walk order.
#[derive(Debug, Clone, PartialEq, Eq)]
pub struct Packer {
    pub entries: Vec<PackEntry>,
}

impl Packer {
    pub fn new() -> (r: Packer)
        ensures
            r.entries@.len() == 0,
    {
        Packer { entries: Vec::new() }
    }

    /// Takes a walked entry at `pathname`, with its payload file (`None`
    /// for a folder) and the text of its sidecar, if it has one. An entry
    /// without a sidecar is left out; one whose sidecar yields no guid fails
    /// the pack.
    pub fn visit(
        &mut self,
        pathname: String,
        source: Option<String>,
        meta: Option<String>,
    ) -> (r: Result<Visited, PackError>)
        ensures
            visit_post(old(self).entries@, final(self).entries@, pathname, source, meta, r),
    {
        match meta {
            None => Ok(Visited::MissingSidecar),
            Some(m) => {
                let guid = extract_guid_from_meta(m.as_str());
                match guid {
                    Err(e) => Err(PackError::Meta(e)),
                    Ok(g) => {
                        self.entries.push(PackEntry { guid: g, pathname, meta: m, source });
                        assert(self.entries@.drop_last() =~= old(self).entries@);
                        Ok(Visited::Added)
                    },
                }
            },
        }
    }

    /// The assets of a finished walk; a walk that found none fails.
    pub fn finish(self) -> (r: Result<Vec<PackEntry>, PackError>)
        ensures
            match r {
                Ok(v) => v == self.entries && v@.len() > 0,
                Err(e) => e == PackError::Empty && self.entries@.len() == 0,
            },
    {
        if self.entries.len() == 0 {
            Err(PackError::Empty)
        } else {
            Ok(self.entries)
        }
    }
}

/// What visiting an entry does to the list of assets and what it answers.
pub open spec fn visit_post(
    pre: Seq<PackEntry>,
    post: Seq<PackEntry>,
    pathname: String,
    source: Option<String>,
    meta: Option<String>,
    r: Result<Visited, PackError>,
) -> bool {
    match meta {
        None => post == pre && r == Ok::<Visited, PackError>(Visited::MissingSidecar),
        Some(m) => match guid_result(yaml_str_at(m@, guid_key())) {
            Err(e) => post == pre && r == Err::<Visited, PackError>(PackError::Meta(e)),
            Ok(g) => {
                &&& r == Ok::<Visited, PackError>(Visited::Added)
                &&& post.len() == pre.len() + 1
                &&& post.drop_last() == pre
                &&& entry_matches(post.last(), g, pathname@, m@, source)
            },
        },
    }
}

pub open spec fn entry_matches(
    e: PackEntry,
    guid: Seq<char>,
    pathname: Seq<char>,
    meta: Seq<char>,
    source: Option<String>,
) -> bool {
    &&& e.guid@ == guid
    &&& e.pathname@ == pathname
    &&& e.meta@ == meta
    &&& e.source == source
}

/// The content of an archive member: text, or the bytes of a file.
#[derive(Debug, Clone, PartialEq, Eq)]
pub enum MemberBody {
    Text(String),
    File(String),
}

/// A member to append to the archive.
#[derive(Debug, Clone, PartialEq, Eq)]
pub struct ArchiveMember {
    pub path: String,
    pub body: MemberBody,
}

/// An archive member, over the texts of its fields.
pub enum MemberView {
    Text { path: Seq<char>, text: Seq<char> },
    File { path: Seq<char>, source: Seq<char> },
}

impl View for ArchiveMember {
    type V = MemberView;

    open spec fn view(&self) -> MemberView {
        match self.body {
            MemberBody::Text(t) => MemberView::Text { path: self.path@, text: t@ },
            MemberBody::File(f) => MemberView::File { path: self.path@, source: f@ },
        }
    }
}

/// The members an asset gives, keyed by its guid: its pathname, its
/// sidecar and, for a file, its payload.
pub open spec fn members_of(e: PackEntry) -> Seq<MemberView> {
    let texts = seq![
        MemberView::Text { path: join(e.guid@, pathname_word()), text: e.pathname@ },
        MemberView::Text { path: join(e.guid@, meta_word()), text: e.meta@ },
    ];
    match e.source {
        Some(f) => texts.push(MemberView::File { path: join(e.guid@, payload_word()), source: f@ }),
        None => texts,
    }
}

/// The archive members of one asset, in the order they are appended.
pub fn archive_members(entry: &PackEntry) -> (r: Vec<ArchiveMember>)
    ensures
        r@.map_values(|m: ArchiveMember| m@) == members_of(*entry),
{
    proof {
        reveal_strlit("pathname");
        reveal_strlit("asset.meta");
        reveal_strlit("asset");
    }
    assert("pathname"@ =~= pathname_word());
    assert("asset.meta"@ =~= meta_word());
    assert("asset"@ =~= payload_word());
    let mut r: Vec<ArchiveMember> = Vec::new();
    r.push(
        ArchiveMember {
            path: join_path(entry.guid.as_str(), "pathname"),
            body: MemberBody::Text(entry.pathname.clone()),
        },
    );
    r.push(
        ArchiveMember {
            path: join_path(entry.guid.as_str(), "asset.meta"),
            body: MemberBody::Text(entry.meta.clone()),
        },
    );
    match &entry.source {
        Some(f) => {
            r.push(
                ArchiveMember {
                    path: join_path(entry.guid.as_str(), "asset"),
                    body: MemberBody::File(f.clone()),
                },
            );
        },
        None => {},
    }
    assert(r@.map_values(|m: ArchiveMember| m@) =~= members_of(*entry));
    r
}

} // verus!
