//! Grouping the members of an archive into asset records.
//!
//! Each asset is a group `<id>/` of up to three members: `pathname` (the
//! asset's place in the tree), `asset.meta` (its sidecar text) and `asset`
//! (its bytes, for files only).

use vstd::prelude::*;
use vstd::string::*;
use crate::meta::{folder_key, folder_result, is_folder_asset, yaml_str_at};
use crate::naming::{contains_name, listed, views_of};
use crate::text::opt_view;
use crate::text::{chars_of, find_last, last_index_of, lemma_last_index_of_bounds};

verus! {

/// The three members an asset group may hold.
#[derive(Debug, Clone, Copy, PartialEq, Eq, Structural)]
pub enum MemberKind {
    Pathname,
    Meta,
    Payload,
}

/// How an archive member is treated.
#[derive(Debug, Clone, PartialEq, Eq)]
pub enum Member {
    /// A member of the asset group `id`.
    Grouped { id: String, kind: MemberKind },
    /// A member with a name outside the layout: reported and skipped.
    Unknown { name: String },
    /// A path with no group (a top-level entry): skipped.
    Ignored,
}

pub open spec fn pathname_word() -> Seq<char> {
    seq!['p', 'a', 't', 'h', 'n', 'a', 'm', 'e']
}

pub open spec fn meta_word() -> Seq<char> {
    seq!['a', 's', 's', 'e', 't', '.', 'm', 'e', 't', 'a']
}

pub open spec fn payload_word() -> Seq<char> {
    seq!['a', 's', 's', 'e', 't']
}

/// The member kind a final path segment names, if any.
pub open spec fn kind_of(name: Seq<char>) -> Option<MemberKind> {
    if name == pathname_word() {
        Some(MemberKind::Pathname)
    } else if name == meta_word() {
        Some(MemberKind::Meta)
    } else if name == payload_word() {
        Some(MemberKind::Payload)
    } else {
        None
    }
}

/// A member path `<id>/<name>` has a non-empty group and a non-empty name.
pub open spec fn is_grouped_path(path: Seq<char>) -> bool {
    let i = last_index_of(path, '/');
    0 < i && i < path.len() - 1
}

/// The group of a member path: everything before its last `/`.
pub open spec fn group_of(path: Seq<char>) -> Seq<char> {
    path.subrange(0, last_index_of(path, '/'))
}

/// The final segment of a member path.
pub open spec fn member_name_of(path: Seq<char>) -> Seq<char> {
    path.subrange(last_index_of(path, '/') + 1, path.len() as int)
}

/// Classifies an archive member by its path.
pub fn classify_member(path: &str) -> (r: Member)
    ensures
        match r {
            Member::Ignored => !is_grouped_path(path@),
            Member::Unknown { name } => is_grouped_path(path@) && name@ == member_name_of(path@)
                && kind_of(name@) is None,
            Member::Grouped { id, kind } => is_grouped_path(path@) && id@ == group_of(path@)
                && kind_of(member_name_of(path@)) == Some(kind),
        },
{
    proof {
        reveal_strlit("pathname");
        reveal_strlit("asset.meta");
        reveal_strlit("asset");
        lemma_last_index_of_bounds(path@, '/');
    }
    assert("pathname"@ =~= pathname_word());
    assert("asset.meta"@ =~= meta_word());
    assert("asset"@ =~= payload_word());
    let chars = chars_of(path);
    let n = chars.len();
    match find_last(&chars, '/') {
        None => Member::Ignored,
        Some(i) => {
            if i == 0 || i + 1 >= n {
                return Member::Ignored;
            }
            let name = String::from_str(path.substring_char(i + 1, n));
            let id = String::from_str(path.substring_char(0, i));
            if name == String::from_str("pathname") {
                Member::Grouped { id, kind: MemberKind::Pathname }
            } else if name == String::from_str("asset.meta") {
                Member::Grouped { id, kind: MemberKind::Meta }
            } else if name == String::from_str("asset") {
                Member::Grouped { id, kind: MemberKind::Payload }
            } else {
                Member::Unknown { name }
            }
        },
    }
}

/// The texts gathered so far for one asset group.
#[derive(Debug, Clone, PartialEq, Eq)]
pub struct GroupTexts {
    pub id: String,
    pub pathname: Option<String>,
    pub meta: Option<String>,
}

/// A group, over the texts of its fields.
pub struct GroupView {
    pub id: Seq<char>,
    pub pathname: Option<Seq<char>>,
    pub meta: Option<Seq<char>>,
}

impl View for GroupTexts {
    type V = GroupView;

    open spec fn view(&self) -> GroupView {
        GroupView { id: self.id@, pathname: opt_view(self.pathname), meta: opt_view(self.meta) }
    }
}

/// The groups of an archive, in the order their first text member came, and
/// the groups whose payload was staged.
#[derive(Debug, Clone, PartialEq, Eq)]
pub struct AssetIndex {
    pub groups: Vec<GroupTexts>,
    pub staged: Vec<String>,
}

/// An index, over the texts of its fields.
pub struct IndexView {
    pub groups: Seq<GroupView>,
    pub staged: Seq<Seq<char>>,
}

impl View for AssetIndex {
    type V = IndexView;

    open spec fn view(&self) -> IndexView {
        IndexView {
            groups: self.groups@.map_values(|g: GroupTexts| g@),
            staged: views_of(self.staged@),
        }
    }
}

/// An asset ready to be placed.
#[derive(Debug, Clone, PartialEq, Eq)]
pub struct AssetRecord {
    /// The group the asset came in; also the name of its staged payload.
    pub id: String,
    /// Slash-separated path of the asset below the destination root.
    pub pathname: String,
    /// The sidecar text.
    pub meta: String,
    /// The asset is a folder: its sidecar says so, or no payload came.
    pub is_directory: bool,
}

/// Why an index cannot be turned into records.
#[derive(Debug, Clone, PartialEq, Eq)]
pub enum IndexError {
    /// The archive held no asset.
    Empty,
    /// The group has no `pathname` member.
    MissingPathname { id: String },
    /// The group has no `asset.meta` member.
    MissingMeta { id: String },
    /// The group's sidecar is not YAML.
    BadMeta { id: String },
}

/// What keeps a group from giving a record.
pub enum Fault {
    MissingPathname,
    MissingMeta,
    BadMeta,
}

/// The error `e` reports the fault `f` of group `id`.
pub open spec fn reports(e: IndexError, f: Fault, id: Seq<char>) -> bool {
    match f {
        Fault::MissingPathname => e matches IndexError::MissingPathname { id: x } && x@ == id,
        Fault::MissingMeta => e matches IndexError::MissingMeta { id: x } && x@ == id,
        Fault::BadMeta => e matches IndexError::BadMeta { id: x } && x@ == id,
    }
}

/// The pathname, sidecar and folder flag a group gives, or its fault. A
/// group is a folder when its sidecar says so or no payload was staged.
pub open spec fn group_record(g: GroupView, staged: Seq<Seq<char>>) -> Result<
    (Seq<char>, Seq<char>, bool),
    Fault,
> {
    match (g.pathname, g.meta) {
        (None, _) => Err(Fault::MissingPathname),
        (Some(_), None) => Err(Fault::MissingMeta),
        (Some(p), Some(m)) => match folder_result(yaml_str_at(m, folder_key())) {
            Err(_) => Err(Fault::BadMeta),
            Ok(folder) => Ok((p, m, folder || !listed(staged, g.id))),
        },
    }
}

/// `g` with its text member `kind` set to `text`.
pub open spec fn set_text(g: GroupView, kind: MemberKind, text: Seq<char>) -> GroupView {
    if kind == MemberKind::Pathname {
        GroupView { pathname: Some(text), ..g }
    } else {
        GroupView { meta: Some(text), ..g }
    }
}

pub open spec fn distinct_ids(groups: Seq<GroupView>) -> bool {
    forall|i: int, j: int| 0 <= i < j < groups.len() ==> groups[i].id != groups[j].id
}

pub open spec fn has_group(groups: Seq<GroupView>, id: Seq<char>) -> bool {
    exists|i: int| 0 <= i < groups.len() && groups[i].id == id
}

/// The index after a text member of group `id`: an existing group takes the
/// text (a later member replaces an earlier one), a new group goes last.
pub open spec fn with_text(idx: IndexView, id: Seq<char>, kind: MemberKind, text: Seq<char>) -> IndexView {
    if has_group(idx.groups, id) {
        let i = choose|i: int| 0 <= i < idx.groups.len() && idx.groups[i].id == id;
        IndexView { groups: idx.groups.update(i, set_text(idx.groups[i], kind, text)), ..idx }
    } else {
        IndexView {
            groups: idx.groups.push(
                set_text(GroupView { id, pathname: None, meta: None }, kind, text),
            ),
            ..idx
        }
    }
}

/// The index after the payload of group `id` was staged.
pub open spec fn with_payload(idx: IndexView, id: Seq<char>) -> IndexView {
    if idx.staged.contains(id) {
        idx
    } else {
        IndexView { staged: idx.staged.push(id), ..idx }
    }
}

impl AssetIndex {
    /// Group ids are distinct.
    pub open spec fn wf(&self) -> bool {
        distinct_ids(self@.groups)
    }

    pub fn new() -> (r: AssetIndex)
        ensures
            r.wf(),
            r@.groups.len() == 0,
            r@.staged.len() == 0,
    {
        AssetIndex { groups: Vec::new(), staged: Vec::new() }
    }

    fn find_group(&self, id: &String) -> (r: Option<usize>)
        ensures
            match r {
                Some(i) => i < self@.groups.len() && self@.groups[i as int].id == id@,
                None => !has_group(self@.groups, id@),
            },
    {
        let mut i: usize = 0;
        while i < self.groups.len()
            invariant
                i <= self.groups@.len(),
                forall|j: int| 0 <= j < i ==> self@.groups[j].id != id@,
            decreases self.groups@.len() - i,
        {
            if self.groups[i].id == *id {
                return Some(i);
            }
            i = i + 1;
        }
        None
    }

    /// Stores a text member of group `id`; a later member of the same kind
    /// replaces an earlier one. A new group goes last.
    pub fn insert_text(&mut self, id: String, kind: MemberKind, text: String)
        requires
            old(self).wf(),
            kind != MemberKind::Payload,
        ensures
            final(self).wf(),
            final(self)@ == with_text(old(self)@, id@, kind, text@),
    {
        let ghost pre = self@;
        match self.find_group(&id) {
            Some(i) => {
                if kind == MemberKind::Pathname {
                    self.groups[i].pathname = Some(text);
                } else {
                    self.groups[i].meta = Some(text);
                }
                let ghost c = choose|c: int| 0 <= c < pre.groups.len() && pre.groups[c].id == id@;
                assert(c == i);
                assert(self@.groups =~= pre.groups.update(i as int, set_text(pre.groups[i as int], kind, text@)));
            },
            None => {
                let mut g = GroupTexts { id, pathname: None, meta: None };
                if kind == MemberKind::Pathname {
                    g.pathname = Some(text);
                } else {
                    g.meta = Some(text);
                }
                self.groups.push(g);
                assert(self@.groups =~= pre.groups.push(
                    set_text(GroupView { id: id@, pathname: None, meta: None }, kind, text@),
                ));
            },
        }
    }

    /// Notes that the payload of group `id` was staged.
    pub fn note_payload(&mut self, id: String)
        requires
            old(self).wf(),
        ensures
            final(self).wf(),
            final(self)@ == with_payload(old(self)@, id@),
    {
        if !contains_name(&self.staged, &id) {
            let ghost pre = self@;
            self.staged.push(id);
            assert(self@.staged =~= pre.staged.push(id@));
        }
    }

    /// The records of all groups, in order. Fails on the first group that
    /// lacks a text member or whose sidecar is not YAML, and on an index
    /// with no group at all.
    pub fn records(&self) -> (r: Result<Vec<AssetRecord>, IndexError>)
        ensures
            match r {
                Ok(v) => {
                    &&& self@.groups.len() > 0
                    &&& v@.len() == self@.groups.len()
                    &&& forall|i: int| 0 <= i < v@.len() ==> record_matches(#[trigger] v@[i], self@, i)
                },
                Err(e) => (self@.groups.len() == 0 && e == IndexError::Empty) || exists|i: int|
                    0 <= i < self@.groups.len() && first_fault(self@, i, e),
            },
    {
        if self.groups.len() == 0 {
            return Err(IndexError::Empty);
        }
        let mut out: Vec<AssetRecord> = Vec::new();
        let mut i: usize = 0;
        while i < self.groups.len()
            invariant
                i <= self@.groups.len(),
                out@.len() == i,
                forall|j: int| 0 <= j < i ==> record_matches(#[trigger] out@[j], self@, j),
            decreases self.groups@.len() - i,
        {
            let g = &self.groups[i];
            proof {
                assert forall|j: int| 0 <= j < i implies (#[trigger] group_record(self@.groups[j], self@.staged)) is Ok by {
                    assert(record_matches(out@[j], self@, j));
                }
            }
            match &g.pathname {
                None => {
                    let e = IndexError::MissingPathname { id: g.id.clone() };
                    assert(first_fault(self@, i as int, e));
                    return Err(e);
                },
                Some(p) => match &g.meta {
                    None => {
                        let e = IndexError::MissingMeta { id: g.id.clone() };
                    assert(first_fault(self@, i as int, e));
                    return Err(e);
                    },
                    Some(m) => match is_folder_asset(m.as_str()) {
                        Err(_) => {
                            let e = IndexError::BadMeta { id: g.id.clone() };
                    assert(first_fault(self@, i as int, e));
                    return Err(e);
                        },
                        Ok(folder) => {
                            let staged = contains_name(&self.staged, &g.id);
                            let rec = AssetRecord {
                                id: g.id.clone(),
                                pathname: p.clone(),
                                meta: m.clone(),
                                is_directory: folder || !staged,
                            };
                            out.push(rec);
                        },
                    },
                },
            }
            i = i + 1;
        }
        Ok(out)
    }
}

/// Record `r` is what group `i` of `idx` gives.
pub open spec fn record_matches(r: AssetRecord, idx: IndexView, i: int) -> bool {
    &&& r.id@ == idx.groups[i].id
    &&& group_record(idx.groups[i], idx.staged) == Ok::<(Seq<char>, Seq<char>, bool), Fault>(
        (r.pathname@, r.meta@, r.is_directory),
    )
}

/// Group `i` is the first to fail, and `e` reports its fault.
pub open spec fn first_fault(idx: IndexView, i: int, e: IndexError) -> bool {
    &&& group_record(idx.groups[i], idx.staged) matches Err(f) && reports(e, f, idx.groups[i].id)
    &&& forall|j: int| 0 <= j < i ==> (#[trigger] group_record(idx.groups[j], idx.staged)) is Ok
}

} // verus!
