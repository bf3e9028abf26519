//! Placing asset records in a destination tree.
//!
//! The reconstruction is a state machine driven by the caller, which owns
//! the filesystem. At the top of each record the caller reports whether the
//! run was cancelled; the machine asks for the directory the record lands in
//! to be created and listed, asks the decision source about conflicts it
//! cannot settle itself, and finally hands out the file operations of the
//! record, which the caller performs in order, stopping at the first failure.

use vstd::prelude::*;
use crate::index::AssetRecord;
use crate::naming::{
    contains_name, copy_name, find_unique_name, lemma_lowest_free_copy_exists, listed,
    lowest_free_copy, sidecar_name, sidecar_of, unique_copy_name, views_of,
};
use crate::paths::{base_name, base_name_of, join, join_path, parent_dir, parent_dir_of};
use crate::ui::{Answer, ConflictResolver, OverwriteAction, OverwriteMode};

verus! {

/// A file operation in the destination.
#[derive(Debug, Clone, PartialEq, Eq)]
pub enum FsOp {
    /// Create or replace the file `path` with `content`.
    WriteFile { path: String, content: String },
    /// Rename the sidecar `from` to `to`.
    RenameFile { from: String, to: String },
    /// Move the staged payload `from` to `to`, replacing what is there.
    MovePayload { from: String, to: String },
}

/// A file operation, over the texts of its paths.
pub enum OpView {
    WriteFile { path: Seq<char>, content: Seq<char> },
    RenameFile { from: Seq<char>, to: Seq<char> },
    MovePayload { from: Seq<char>, to: Seq<char> },
}

impl View for FsOp {
    type V = OpView;

    open spec fn view(&self) -> OpView {
        match self {
            FsOp::WriteFile { path, content } => OpView::WriteFile {
                path: path@,
                content: content@,
            },
            FsOp::RenameFile { from, to } => OpView::RenameFile { from: from@, to: to@ },
            FsOp::MovePayload { from, to } => OpView::MovePayload { from: from@, to: to@ },
        }
    }
}

pub open spec fn ops_view(ops: Seq<FsOp>) -> Seq<OpView> {
    ops.map_values(|o: FsOp| o@)
}

/// How a run ended.
#[derive(Debug, Clone, Copy, PartialEq, Eq, Structural)]
pub enum Outcome {
    Completed,
    Cancelled,
}

/// What the caller is to do next.
#[derive(Debug, Clone, PartialEq, Eq)]
pub enum Action {
    /// Create the directory `create` with its parents if it is absent, then
    /// report the names of the entries in the directory `list`.
    Survey { create: String, list: String },
    /// Ask the decision source about a conflict at `path`, then report the
    /// answer.
    Ask { path: String },
    /// Perform these operations in order, stopping at the first failure;
    /// then go on with the next record.
    Apply { ops: Vec<FsOp> },
    /// The run is over.
    Stopped { outcome: Outcome },
}

/// Where the machine stands.
#[derive(Debug, Clone, Copy, PartialEq, Eq, Structural)]
pub enum Stage {
    /// At the top of a record.
    Between,
    /// Waiting for the listing of the record's directory.
    Surveying,
    /// Waiting for an answer about the sidecar conflict.
    MetaQuestion,
    /// Waiting for an answer about the payload conflict.
    PayloadQuestion,
    /// The run is over.
    Done,
}

/// The directory a record asks to be created: a folder asset's own
/// directory, or the directory holding a file asset.
pub open spec fn survey_create(root: Seq<char>, r: AssetRecord) -> Seq<char> {
    if r.is_directory {
        join(parent_dir(root, r.pathname@), base_name(r.pathname@))
    } else {
        parent_dir(root, r.pathname@)
    }
}

/// Whether the record's sidecar meets an existing entry.
pub open spec fn meta_conflict(r: AssetRecord, names: Seq<Seq<char>>) -> bool {
    listed(names, sidecar_name(base_name(r.pathname@)))
}

/// The name the file's sidecar and payload take after the sidecar decision.
pub open spec fn placed_name(r: AssetRecord, names: Seq<Seq<char>>, d1: OverwriteAction) -> Seq<
    char,
> {
    let name = base_name(r.pathname@);
    if meta_conflict(r, names) && d1 == OverwriteAction::Rename {
        unique_copy_name(name, names)
    } else {
        name
    }
}

/// The sidecar decision declined the whole record.
pub open spec fn sidecar_skipped(r: AssetRecord, names: Seq<Seq<char>>, d1: OverwriteAction) -> bool {
    meta_conflict(r, names) && d1 == OverwriteAction::Skip
}

/// Whether the payload meets an existing entry.
pub open spec fn payload_conflict(r: AssetRecord, names: Seq<Seq<char>>, d1: OverwriteAction) -> bool {
    !sidecar_skipped(r, names, d1) && listed(names, placed_name(r, names, d1))
}

/// The payload operations under the payload name `t`: a move, nothing when
/// the conflict is skipped, or a move to the lowest free alternate that
/// takes the just-written sidecar along.
pub open spec fn payload_plan(
    dir: Seq<char>,
    staged: Seq<char>,
    t: Seq<char>,
    names: Seq<Seq<char>>,
    d2: OverwriteAction,
) -> Seq<OpView> {
    if !listed(names, t) || d2 == OverwriteAction::Overwrite {
        seq![OpView::MovePayload { from: staged, to: join(dir, t) }]
    } else if d2 == OverwriteAction::Skip {
        seq![]
    } else {
        let n = unique_copy_name(t, names);
        seq![
            OpView::RenameFile { from: join(dir, sidecar_name(t)), to: join(dir, sidecar_name(n)) },
            OpView::MovePayload { from: staged, to: join(dir, n) },
        ]
    }
}

/// The operations of a file record, given the listing of its directory and
/// the decisions for its sidecar (`d1`) and payload (`d2`) conflicts; a
/// decision is read only where its conflict exists.
pub open spec fn file_plan(
    root: Seq<char>,
    staging: Seq<char>,
    r: AssetRecord,
    names: Seq<Seq<char>>,
    d1: OverwriteAction,
    d2: OverwriteAction,
) -> Seq<OpView> {
    let dir = parent_dir(root, r.pathname@);
    if sidecar_skipped(r, names, d1) {
        seq![]
    } else {
        let t = placed_name(r, names, d1);
        seq![OpView::WriteFile { path: join(dir, sidecar_name(t)), content: r.meta@ }]
            + payload_plan(dir, join(staging, r.id@), t, names, d2)
    }
}

/// The operations of a folder record: its sidecar, unless one exists.
pub open spec fn directory_plan(root: Seq<char>, r: AssetRecord, names: Seq<Seq<char>>) -> Seq<
    OpView,
> {
    if meta_conflict(r, names) {
        seq![]
    } else {
        seq![
            OpView::WriteFile {
                path: join(parent_dir(root, r.pathname@), sidecar_name(base_name(r.pathname@))),
                content: r.meta@,
            },
        ]
    }
}

/// `s` with the listing of its record's directory and its sidecar decision.
pub open spec fn with_sidecar(s: Rebuild, listing: Vec<String>, d1: OverwriteAction) -> Rebuild {
    Rebuild { listing, meta_choice: d1, ..s }
}

/// `r` hands out the operations of folder record `rec`.
pub open spec fn applies_directory(root: Seq<char>, rec: AssetRecord, names: Seq<Seq<char>>, r: Action) -> bool {
    r matches Action::Apply { ops } && ops_view(ops@) == directory_plan(root, rec, names)
}

/// `r` asks the decision source about the sidecar of record `rec`.
pub open spec fn asks_sidecar(rec: AssetRecord, r: Action) -> bool {
    r matches Action::Ask { path } && path@ == sidecar_name(rec.pathname@)
}

/// `r` hands out the operations of file record `rec`.
pub open spec fn applies_file(
    pre: Rebuild,
    names: Seq<Seq<char>>,
    d1: OverwriteAction,
    d2: OverwriteAction,
    r: Action,
) -> bool {
    r matches Action::Apply { ops } && ops_view(ops@) == file_plan(
        pre.root@,
        pre.staging@,
        pre.current(),
        names,
        d1,
        d2,
    )
}

/// `r` asks to survey the directory of record `rec`.
pub open spec fn surveys(root: Seq<char>, rec: AssetRecord, r: Action) -> bool {
    r matches Action::Survey { create, list } && create@ == survey_create(root, rec) && list@
        == parent_dir(root, rec.pathname@)
}

/// The resolver after taking `a`.
pub open spec fn resolved(res: ConflictResolver, a: Answer) -> ConflictResolver {
    ConflictResolver {
        sticky: if a.apply_to_all {
            Some(a.action)
        } else {
            res.sticky
        },
        ..res
    }
}

/// A decision for a conflict that the resolver settles, or the neutral one
/// where there is no conflict.
pub open spec fn settled_or_overwrite(conflict: bool, res: ConflictResolver) -> OverwriteAction {
    if conflict {
        res.settled()->0
    } else {
        OverwriteAction::Overwrite
    }
}

/// The reconstruction of a list of records into a destination root.
pub struct Rebuild {
    pub records: Vec<AssetRecord>,
    /// The destination root.
    pub root: String,
    /// The directory holding the staged payloads, each named by its id.
    pub staging: String,
    pub resolver: ConflictResolver,
    /// The record at hand.
    pub next: usize,
    pub stage: Stage,
    /// The names in the current record's directory.
    pub listing: Vec<String>,
    /// The sidecar decision of the current record.
    pub meta_choice: OverwriteAction,
}

/// The step that follows the sidecar decision of a file record: from `pre`
/// (with the listing and sidecar decision in place) to `post`, answering `r`.
pub open spec fn after_sidecar(pre: Rebuild, post: Rebuild, r: Action) -> bool {
    let cur = pre.current();
    let names = pre.names();
    let d1 = pre.meta_choice;
    let conflict2 = payload_conflict(cur, names, d1);
    &&& post.records == pre.records
    &&& post.root == pre.root
    &&& post.staging == pre.staging
    &&& post.resolver == pre.resolver
    &&& post.listing == pre.listing
    &&& post.meta_choice == pre.meta_choice
    &&& if conflict2 && pre.resolver.settled() is None {
        &&& r matches Action::Ask { path } && path@ == placed_name(cur, names, d1)
        &&& post.stage == Stage::PayloadQuestion
        &&& post.next == pre.next
    } else {
        &&& r matches Action::Apply { ops } && ops_view(ops@) == file_plan(
            pre.root@,
            pre.staging@,
            cur,
            names,
            d1,
            settled_or_overwrite(conflict2, pre.resolver),
        )
        &&& post.stage == Stage::Between
        &&& post.next == pre.next + 1
    }
}

impl Rebuild {
    pub open spec fn wf(&self) -> bool {
        &&& self.next <= self.records@.len()
        &&& (self.stage == Stage::Surveying || self.stage == Stage::MetaQuestion || self.stage
            == Stage::PayloadQuestion) ==> self.next < self.records@.len()
        &&& (self.stage == Stage::MetaQuestion || self.stage == Stage::PayloadQuestion)
            ==> !self.records@[self.next as int].is_directory
        &&& self.stage == Stage::PayloadQuestion ==> payload_conflict(
            self.current(),
            self.names(),
            self.meta_choice,
        )
    }

    /// The record at hand.
    pub open spec fn current(&self) -> AssetRecord {
        self.records@[self.next as int]
    }

    /// The listing of the record at hand.
    pub open spec fn names(&self) -> Seq<Seq<char>> {
        views_of(self.listing@)
    }

    /// A reconstruction of `records` into `root`, with payloads staged under
    /// `staging` and conflicts resolved by `mode`.
    pub fn new(
        records: Vec<AssetRecord>,
        root: String,
        staging: String,
        mode: OverwriteMode,
    ) -> (r: Rebuild)
        ensures
            r.wf(),
            r.records == records,
            r.root == root,
            r.staging == staging,
            r.resolver.mode == mode,
            r.resolver.sticky is None,
            r.next == 0,
            r.stage == Stage::Between,
    {
        Rebuild {
            records,
            root,
            staging,
            resolver: ConflictResolver::new(mode),
            next: 0,
            stage: Stage::Between,
            listing: Vec::new(),
            meta_choice: OverwriteAction::Overwrite,
        }
    }

    /// The top of a record: a cancelled run stops here and leaves this and
    /// every later record untouched; otherwise the record's directory is
    /// surveyed.
    pub fn start_record(&mut self, cancelled: bool) -> (r: Action)
        requires
            old(self).wf(),
            old(self).stage == Stage::Between,
        ensures
            final(self).wf(),
            final(self).records == old(self).records,
            final(self).root == old(self).root,
            final(self).staging == old(self).staging,
            final(self).resolver == old(self).resolver,
            final(self).next == old(self).next,
            cancelled ==> (r == Action::Stopped { outcome: Outcome::Cancelled }),
            cancelled ==> final(self).stage == Stage::Done,
            !cancelled && old(self).next == old(self).records@.len() ==> (r == Action::Stopped {
                outcome: Outcome::Completed,
            }),
            !cancelled && old(self).next == old(self).records@.len() ==> final(self).stage
                == Stage::Done,
            !cancelled && old(self).next < old(self).records@.len() ==> final(self).stage
                == Stage::Surveying && surveys(old(self).root@, old(self).current(), r),
    {
        if cancelled {
            self.stage = Stage::Done;
            return Action::Stopped { outcome: Outcome::Cancelled };
        }
        if self.next == self.records.len() {
            self.stage = Stage::Done;
            return Action::Stopped { outcome: Outcome::Completed };
        }
        let rec = &self.records[self.next];
        let dir = parent_dir_of(self.root.as_str(), rec.pathname.as_str());
        let create = if rec.is_directory {
            let name = base_name_of(rec.pathname.as_str());
            join_path(dir.as_str(), name.as_str())
        } else {
            dir.clone()
        };
        self.stage = Stage::Surveying;
        Action::Survey { create, list: dir }
    }

    fn finish_file(&mut self) -> (r: Action)
        requires
            old(self).next < old(self).records@.len(),
            !old(self).current().is_directory,
        ensures
            final(self).wf(),
            after_sidecar(*old(self), *final(self), r),
    {
        let total = self.records.len();
        assert(self.next < total);
        let rec = &self.records[self.next];
        let dir = parent_dir_of(self.root.as_str(), rec.pathname.as_str());
        let name = base_name_of(rec.pathname.as_str());
        let meta_name = sidecar_of(name.as_str());
        let conflict1 = contains_name(&self.listing, &meta_name);
        if conflict1 && self.meta_choice == OverwriteAction::Skip {
            self.next = self.next + 1;
            self.stage = Stage::Between;
            let ops: Vec<FsOp> = Vec::new();
            assert(ops_view(ops@) =~= Seq::<OpView>::empty());
            return Action::Apply { ops };
        }
        let target = if conflict1 && self.meta_choice == OverwriteAction::Rename {
            find_unique_name(name.as_str(), &self.listing)
        } else {
            name
        };
        let conflict2 = contains_name(&self.listing, &target);
        let d2 = if conflict2 {
            match self.resolver.decide() {
                Some(d) => d,
                None => {
                    self.stage = Stage::PayloadQuestion;
                    return Action::Ask { path: target };
                },
            }
        } else {
            OverwriteAction::Overwrite
        };
        let target_meta = sidecar_of(target.as_str());
        let mut ops: Vec<FsOp> = Vec::new();
        ops.push(
            FsOp::WriteFile {
                path: join_path(dir.as_str(), target_meta.as_str()),
                content: rec.meta.clone(),
            },
        );
        let staged = join_path(self.staging.as_str(), rec.id.as_str());
        if !conflict2 || d2 == OverwriteAction::Overwrite {
            ops.push(FsOp::MovePayload { from: staged, to: join_path(dir.as_str(), target.as_str()) });
        } else if d2 == OverwriteAction::Rename {
            let alt = find_unique_name(target.as_str(), &self.listing);
            let alt_meta = sidecar_of(alt.as_str());
            ops.push(
                FsOp::RenameFile {
                    from: join_path(dir.as_str(), target_meta.as_str()),
                    to: join_path(dir.as_str(), alt_meta.as_str()),
                },
            );
            ops.push(FsOp::MovePayload { from: staged, to: join_path(dir.as_str(), alt.as_str()) });
        }
        assert(ops_view(ops@) =~= file_plan(
            self.root@,
            self.staging@,
            self.current(),
            self.names(),
            self.meta_choice,
            d2,
        ));
        self.next = self.next + 1;
        self.stage = Stage::Between;
        Action::Apply { ops }
    }

    /// Takes the listing of the record's directory. A folder record is
    /// done at once; a file record settles its sidecar conflict through the
    /// resolver, or asks.
    pub fn take_listing(&mut self, names: Vec<String>) -> (r: Action)
        requires
            old(self).wf(),
            old(self).stage == Stage::Surveying,
        ensures
            final(self).wf(),
            final(self).records == old(self).records,
            final(self).root == old(self).root,
            final(self).staging == old(self).staging,
            final(self).listing == names,
            old(self).current().is_directory ==> applies_directory(
                old(self).root@,
                old(self).current(),
                views_of(names@),
                r,
            ),
            old(self).current().is_directory ==> final(self).stage == Stage::Between
                && final(self).next == old(self).next + 1 && final(self).resolver == old(
                self,
            ).resolver,
            !old(self).current().is_directory && meta_conflict(old(self).current(), views_of(names@))
                && old(self).resolver.settled() is None ==> asks_sidecar(old(self).current(), r)
                && final(self).stage == Stage::MetaQuestion && final(self).next == old(self).next
                && final(self).resolver == old(self).resolver,
            !old(self).current().is_directory && !(meta_conflict(
                old(self).current(),
                views_of(names@),
            ) && old(self).resolver.settled() is None) ==> after_sidecar(
                with_sidecar(
                    *old(self),
                    names,
                    settled_or_overwrite(
                        meta_conflict(old(self).current(), views_of(names@)),
                        old(self).resolver,
                    ),
                ),
                *final(self),
                r,
            ),
    {
        let total = self.records.len();
        assert(self.next < total);
        self.listing = names;
        let rec = &self.records[self.next];
        let name = base_name_of(rec.pathname.as_str());
        let meta_name = sidecar_of(name.as_str());
        let conflict1 = contains_name(&self.listing, &meta_name);
        if rec.is_directory {
            let mut ops: Vec<FsOp> = Vec::new();
            if !conflict1 {
                let dir = parent_dir_of(self.root.as_str(), rec.pathname.as_str());
                ops.push(
                    FsOp::WriteFile {
                        path: join_path(dir.as_str(), meta_name.as_str()),
                        content: rec.meta.clone(),
                    },
                );
            }
            assert(ops_view(ops@) =~= directory_plan(self.root@, self.current(), self.names()));
            self.next = self.next + 1;
            self.stage = Stage::Between;
            return Action::Apply { ops };
        }
        if conflict1 {
            match self.resolver.decide() {
                Some(d) => {
                    self.meta_choice = d;
                },
                None => {
                    self.stage = Stage::MetaQuestion;
                    return Action::Ask { path: sidecar_of(rec.pathname.as_str()) };
                },
            }
        } else {
            self.meta_choice = OverwriteAction::Overwrite;
        }
        self.finish_file()
    }

    /// Takes the decision source's answer to the pending question.
    pub fn take_answer(&mut self, answer: Answer) -> (r: Action)
        requires
            old(self).wf(),
            old(self).stage == Stage::MetaQuestion || old(self).stage == Stage::PayloadQuestion,
        ensures
            final(self).wf(),
            old(self).stage == Stage::MetaQuestion ==> after_sidecar(
                (Rebuild {
                    resolver: resolved(old(self).resolver, answer),
                    meta_choice: answer.action,
                    ..*old(self)
                }),
                *final(self),
                r,
            ),
            old(self).stage == Stage::PayloadQuestion ==> applies_file(
                *old(self),
                old(self).names(),
                old(self).meta_choice,
                answer.action,
                r,
            ),
            old(self).stage == Stage::PayloadQuestion ==> final(self).records == old(self).records
                && final(self).root == old(self).root && final(self).staging == old(self).staging
                && final(self).resolver == resolved(old(self).resolver, answer)
                && final(self).stage == Stage::Between && final(self).next == old(self).next + 1,
    {
        let d = self.resolver.record_answer(answer);
        if self.stage == Stage::MetaQuestion {
            self.meta_choice = d;
            return self.finish_file();
        }
        let total = self.records.len();
        assert(self.next < total);
        let rec = &self.records[self.next];
        let dir = parent_dir_of(self.root.as_str(), rec.pathname.as_str());
        let name = base_name_of(rec.pathname.as_str());
        let meta_name = sidecar_of(name.as_str());
        let conflict1 = contains_name(&self.listing, &meta_name);
        let target = if conflict1 && self.meta_choice == OverwriteAction::Rename {
            find_unique_name(name.as_str(), &self.listing)
        } else {
            name
        };
        let target_meta = sidecar_of(target.as_str());
        let mut ops: Vec<FsOp> = Vec::new();
        ops.push(
            FsOp::WriteFile {
                path: join_path(dir.as_str(), target_meta.as_str()),
                content: rec.meta.clone(),
            },
        );
        let staged = join_path(self.staging.as_str(), rec.id.as_str());
        if d == OverwriteAction::Overwrite {
            ops.push(FsOp::MovePayload { from: staged, to: join_path(dir.as_str(), target.as_str()) });
        } else if d == OverwriteAction::Rename {
            let alt = find_unique_name(target.as_str(), &self.listing);
            let alt_meta = sidecar_of(alt.as_str());
            ops.push(
                FsOp::RenameFile {
                    from: join_path(dir.as_str(), target_meta.as_str()),
                    to: join_path(dir.as_str(), alt_meta.as_str()),
                },
            );
            ops.push(FsOp::MovePayload { from: staged, to: join_path(dir.as_str(), alt.as_str()) });
        }
        assert(ops_view(ops@) =~= file_plan(
            self.root@,
            self.staging@,
            self.current(),
            self.names(),
            self.meta_choice,
            d,
        ));
        self.next = self.next + 1;
        self.stage = Stage::Between;
        Action::Apply { ops }
    }
}

/// The path an operation writes to.
pub open spec fn destination(op: OpView) -> Seq<char> {
    match op {
        OpView::WriteFile { path, .. } => path,
        OpView::RenameFile { to, .. } => to,
        OpView::MovePayload { to, .. } => to,
    }
}

/// `op` puts a sidecar at `path`: it writes it or renames one there.
pub open spec fn places_sidecar(op: OpView, path: Seq<char>) -> bool {
    match op {
        OpView::WriteFile { path: p, .. } => p == sidecar_name(path),
        OpView::RenameFile { to, .. } => to == sidecar_name(path),
        OpView::MovePayload { .. } => false,
    }
}

proof fn lemma_join_sidecar(dir: Seq<char>, t: Seq<char>)
    ensures
        join(dir, sidecar_name(t)) == sidecar_name(join(dir, t)),
        join(dir, sidecar_name(t)) != join(dir, t),
{
    assert(join(dir, sidecar_name(t)) =~= sidecar_name(join(dir, t)));
}

/// A payload is only ever moved into place after the operation that puts
/// its sidecar beside it: performed in order and stopped at the first
/// failure, the plan writes no payload whose sidecar write failed.
pub proof fn lemma_payload_follows_sidecar(
    root: Seq<char>,
    staging: Seq<char>,
    r: AssetRecord,
    names: Seq<Seq<char>>,
    d1: OverwriteAction,
    d2: OverwriteAction,
)
    ensures
        forall|i: int|
            0 <= i < file_plan(root, staging, r, names, d1, d2).len() && (#[trigger] file_plan(
                root,
                staging,
                r,
                names,
                d1,
                d2,
            )[i]) is MovePayload ==> exists|j: int|
                0 <= j < i && places_sidecar(
                    file_plan(root, staging, r, names, d1, d2)[j],
                    destination(file_plan(root, staging, r, names, d1, d2)[i]),
                ),
        forall|i: int|
            0 <= i < directory_plan(root, r, names).len() ==> !((#[trigger] directory_plan(
                root,
                r,
                names,
            )[i]) is MovePayload),
{
    let plan = file_plan(root, staging, r, names, d1, d2);
    let dir = parent_dir(root, r.pathname@);
    if !sidecar_skipped(r, names, d1) {
        let t = placed_name(r, names, d1);
        lemma_join_sidecar(dir, t);
        let n = unique_copy_name(t, names);
        lemma_join_sidecar(dir, n);
        assert forall|i: int| 0 <= i < plan.len() && (#[trigger] plan[i]) is MovePayload implies exists|
            j: int,
        | 0 <= j < i && places_sidecar(plan[j], destination(plan[i])) by {
            if i == 1 {
                assert(places_sidecar(plan[0], destination(plan[i])));
            } else {
                assert(places_sidecar(plan[1], destination(plan[i])));
            }
        }
    }
}

/// Skipping a conflict leaves the existing file alone: a skipped sidecar
/// conflict (of a file or a folder) gives no operation at all, and a skipped
/// payload conflict gives no operation on the existing payload.
pub proof fn lemma_skip_leaves_existing(
    root: Seq<char>,
    staging: Seq<char>,
    r: AssetRecord,
    names: Seq<Seq<char>>,
    d1: OverwriteAction,
    d2: OverwriteAction,
)
    ensures
        sidecar_skipped(r, names, d1) ==> file_plan(root, staging, r, names, d1, d2).len() == 0,
        meta_conflict(r, names) ==> directory_plan(root, r, names).len() == 0,
        payload_conflict(r, names, d1) && d2 == OverwriteAction::Skip ==> forall|i: int|
            0 <= i < file_plan(root, staging, r, names, d1, d2).len() ==> !((#[trigger] file_plan(
                root,
                staging,
                r,
                names,
                d1,
                d2,
            )[i]) is MovePayload) && destination(file_plan(root, staging, r, names, d1, d2)[i])
                != join(parent_dir(root, r.pathname@), placed_name(r, names, d1)),
{
    let dir = parent_dir(root, r.pathname@);
    let t = placed_name(r, names, d1);
    lemma_join_sidecar(dir, t);
}

/// A renamed file record, whose alternate name meets no payload, lands
/// under one name for sidecar and payload: the alternate with the lowest
/// copy number `k >= 1` whose sidecar is not in the directory.
pub proof fn lemma_rename_pairs_names(
    root: Seq<char>,
    staging: Seq<char>,
    r: AssetRecord,
    names: Seq<Seq<char>>,
    d2: OverwriteAction,
)
    requires
        meta_conflict(r, names),
        !payload_conflict(r, names, OverwriteAction::Rename),
    ensures
        exists|k: nat|
            lowest_free_copy(base_name(r.pathname@), names, k) && file_plan(
                root,
                staging,
                r,
                names,
                OverwriteAction::Rename,
                d2,
            ) == seq![
                OpView::WriteFile {
                    path: join(
                        parent_dir(root, r.pathname@),
                        sidecar_name(copy_name(base_name(r.pathname@), k)),
                    ),
                    content: r.meta@,
                },
                OpView::MovePayload {
                    from: join(staging, r.id@),
                    to: join(parent_dir(root, r.pathname@), copy_name(base_name(r.pathname@), k)),
                },
            ],
{
    let name = base_name(r.pathname@);
    lemma_lowest_free_copy_exists(name, names);
    let k = choose|k: nat| lowest_free_copy(name, names, k);
    assert(file_plan(root, staging, r, names, OverwriteAction::Rename, d2) =~= seq![
        OpView::WriteFile {
            path: join(parent_dir(root, r.pathname@), sidecar_name(copy_name(name, k))),
            content: r.meta@,
        },
        OpView::MovePayload {
            from: join(staging, r.id@),
            to: join(parent_dir(root, r.pathname@), copy_name(name, k)),
        },
    ]);
}

} // verus!
