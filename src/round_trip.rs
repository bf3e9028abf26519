//! Packing a tree and extracting it again gives the tree back.

use vstd::prelude::*;
use crate::index::{
    group_of, group_record, is_grouped_path, kind_of, member_name_of, meta_word, pathname_word,
    payload_word, set_text, with_payload, with_text, AssetRecord, GroupView, IndexView,
    MemberKind,
};
use crate::meta::{folder_key, folder_result, yaml_str_at};
use crate::naming::{listed, sidecar_name};
use crate::pack::{members_of, MemberView, PackEntry};
use crate::paths::{base_name, join, parent_dir};
use crate::rebuild::{directory_plan, file_plan, survey_create, OpView};
use crate::text::last_index_of;
use crate::ui::OverwriteAction;

verus! {

/// The archive members of a list of assets, in order.
pub open spec fn pack_members(es: Seq<PackEntry>) -> Seq<MemberView>
    decreases es.len(),
{
    if es.len() == 0 {
        seq![]
    } else {
        pack_members(es.drop_last()) + members_of(es.last())
    }
}

pub open spec fn member_path(m: MemberView) -> Seq<char> {
    match m {
        MemberView::Text { path, .. } => path,
        MemberView::File { path, .. } => path,
    }
}

/// The index after one member, as extraction reads it: a text member is
/// stored in its group, a payload is staged, anything else is left out.
pub open spec fn read_member(idx: IndexView, m: MemberView) -> IndexView {
    let p = member_path(m);
    if !is_grouped_path(p) {
        idx
    } else {
        match kind_of(member_name_of(p)) {
            Some(MemberKind::Payload) => with_payload(idx, group_of(p)),
            Some(k) => match m {
                MemberView::Text { text, .. } => with_text(idx, group_of(p), k, text),
                MemberView::File { .. } => idx,
            },
            None => idx,
        }
    }
}

/// The index after reading `ms` in order, from an empty one.
pub open spec fn read_members(ms: Seq<MemberView>) -> IndexView
    decreases ms.len(),
{
    if ms.len() == 0 {
        IndexView { groups: seq![], staged: seq![] }
    } else {
        read_member(read_members(ms.drop_last()), ms.last())
    }
}

/// The group an asset gives.
pub open spec fn group_of_entry(e: PackEntry) -> GroupView {
    GroupView { id: e.guid@, pathname: Some(e.pathname@), meta: Some(e.meta@) }
}

/// The guids of the assets that carry a payload, in order.
pub open spec fn staged_of(es: Seq<PackEntry>) -> Seq<Seq<char>>
    decreases es.len(),
{
    if es.len() == 0 {
        seq![]
    } else if es.last().source is Some {
        staged_of(es.drop_last()).push(es.last().guid@)
    } else {
        staged_of(es.drop_last())
    }
}

/// Assets that a walk of a well-formed tree gives: distinct, non-empty
/// guids, sidecars that read as YAML, and no file marked as a folder.
pub open spec fn packable(es: Seq<PackEntry>) -> bool {
    &&& forall|i: int| 0 <= i < es.len() ==> (#[trigger] es[i]).guid@.len() > 0
    &&& forall|i: int, j: int| 0 <= i < j < es.len() ==> es[i].guid@ != es[j].guid@
    &&& forall|i: int|
        0 <= i < es.len() ==> folder_result(yaml_str_at((#[trigger] es[i]).meta@, folder_key())) is Ok
    &&& forall|i: int|
        0 <= i < es.len() && (#[trigger] es[i]).source is Some ==> folder_result(
            yaml_str_at(es[i].meta@, folder_key()),
        ) == Ok::<bool, crate::meta::MetaParseError>(false)
}

proof fn lemma_last_slash(a: Seq<char>, b: Seq<char>)
    requires
        forall|k: int| 0 <= k < b.len() ==> b[k] != '/',
    ensures
        last_index_of(join(a, b), '/') == a.len(),
    decreases b.len(),
{
    if b.len() == 0 {
        assert(join(a, b).last() == '/');
    } else {
        assert(join(a, b).drop_last() =~= join(a, b.drop_last()));
        lemma_last_slash(a, b.drop_last());
    }
}

proof fn lemma_member_split(guid: Seq<char>, name: Seq<char>)
    requires
        guid.len() > 0,
        name.len() > 0,
        forall|k: int| 0 <= k < name.len() ==> name[k] != '/',
    ensures
        is_grouped_path(join(guid, name)),
        group_of(join(guid, name)) == guid,
        member_name_of(join(guid, name)) == name,
{
    lemma_last_slash(guid, name);
    assert(group_of(join(guid, name)) =~= guid);
    assert(member_name_of(join(guid, name)) =~= name);
}

proof fn lemma_words()
    ensures
        kind_of(pathname_word()) == Some(MemberKind::Pathname),
        kind_of(meta_word()) == Some(MemberKind::Meta),
        kind_of(payload_word()) == Some(MemberKind::Payload),
        forall|k: int| 0 <= k < pathname_word().len() ==> pathname_word()[k] != '/',
        forall|k: int| 0 <= k < meta_word().len() ==> meta_word()[k] != '/',
        forall|k: int| 0 <= k < payload_word().len() ==> payload_word()[k] != '/',
{
    assert(meta_word() != pathname_word()) by {
        assert(meta_word().len() != pathname_word().len());
    }
    assert(payload_word() != pathname_word()) by {
        assert(payload_word().len() != pathname_word().len());
    }
    assert(payload_word() != meta_word()) by {
        assert(payload_word().len() != meta_word().len());
    }
}

proof fn lemma_staged_of(es: Seq<PackEntry>, x: Seq<char>)
    ensures
        staged_of(es).contains(x) <==> exists|i: int|
            0 <= i < es.len() && (#[trigger] es[i]).source is Some && es[i].guid@ == x,
    decreases es.len(),
{
    if es.len() > 0 {
        let pre = es.drop_last();
        lemma_staged_of(pre, x);
        if staged_of(es).contains(x) {
            if es.last().source is Some && x == es.last().guid@ {
                assert(es[es.len() - 1].source is Some);
            } else {
                if es.last().source is Some {
                    let k = choose|k: int| 0 <= k < staged_of(es).len() && staged_of(es)[k] == x;
                    assert(staged_of(pre)[k] == x);
                }
                let i = choose|i: int| 0 <= i < pre.len() && (#[trigger] pre[i]).source is Some
                    && pre[i].guid@ == x;
                assert(es[i] == pre[i]);
            }
        }
        if exists|i: int| 0 <= i < es.len() && (#[trigger] es[i]).source is Some && es[i].guid@ == x {
            let i = choose|i: int| 0 <= i < es.len() && (#[trigger] es[i]).source is Some
                && es[i].guid@ == x;
            if i < es.len() - 1 {
                assert(pre[i] == es[i]);
                assert(staged_of(pre).contains(x));
                if es.last().source is Some {
                    let k = choose|k: int| 0 <= k < staged_of(pre).len() && staged_of(pre)[k] == x;
                    assert(staged_of(es)[k] == x);
                }
            } else {
                assert(staged_of(es)[staged_of(es).len() - 1] == x);
            }
        }
    }
}

/// The index after reading `ms` in order, from `idx`.
pub open spec fn read_from(idx: IndexView, ms: Seq<MemberView>) -> IndexView
    decreases ms.len(),
{
    if ms.len() == 0 {
        idx
    } else {
        read_member(read_from(idx, ms.drop_last()), ms.last())
    }
}

proof fn lemma_read_concat(ms: Seq<MemberView>, ns: Seq<MemberView>)
    ensures
        read_members(ms + ns) == read_from(read_members(ms), ns),
    decreases ns.len(),
{
    if ns.len() == 0 {
        assert(ms + ns =~= ms);
    } else {
        assert((ms + ns).drop_last() =~= ms + ns.drop_last());
        lemma_read_concat(ms, ns.drop_last());
    }
}

/// Reading the members of one asset whose guid is new adds its group, and
/// stages its payload when it is a file.
proof fn lemma_read_entry(base: IndexView, e: PackEntry)
    requires
        e.guid@.len() > 0,
        !crate::index::has_group(base.groups, e.guid@),
        !base.staged.contains(e.guid@),
    ensures
        read_from(base, members_of(e)) == (IndexView {
            groups: base.groups.push(group_of_entry(e)),
            staged: if e.source is Some {
                base.staged.push(e.guid@)
            } else {
                base.staged
            },
        }),
{
    lemma_words();
    let g = e.guid@;
    lemma_member_split(g, pathname_word());
    lemma_member_split(g, meta_word());
    lemma_member_split(g, payload_word());
    let ms = members_of(e);
    let idx1 = read_member(base, ms[0]);
    assert(idx1.groups == base.groups.push(GroupView { id: g, pathname: Some(e.pathname@), meta: None }));
    assert(idx1.staged == base.staged);
    assert(crate::index::has_group(idx1.groups, g)) by {
        assert(idx1.groups[base.groups.len() as int].id == g);
    }
    let c = choose|i: int| 0 <= i < idx1.groups.len() && idx1.groups[i].id == g;
    assert(c == base.groups.len());
    let idx2 = read_member(idx1, ms[1]);
    assert(idx2.groups =~= base.groups.push(group_of_entry(e)));
    assert(idx2.staged == base.staged);
    assert(read_from(base, Seq::<MemberView>::empty()) == base);
    assert(seq![ms[0]].last() == ms[0]);
    if e.source is Some {
        assert(ms.drop_last() =~= seq![ms[0], ms[1]]);
        assert(seq![ms[0], ms[1]].drop_last() =~= seq![ms[0]]);
        assert(seq![ms[0]].drop_last() =~= Seq::<MemberView>::empty());
        assert(read_from(base, seq![ms[0]]) == idx1);
        assert(read_from(base, seq![ms[0], ms[1]]) == idx2);
    } else {
        assert(ms.drop_last() =~= seq![ms[0]]);
        assert(seq![ms[0]].drop_last() =~= Seq::<MemberView>::empty());
        assert(read_from(base, seq![ms[0]]) == idx1);
    }
}

/// Reading back the members of packed assets gives one group per asset, in
/// order, holding its pathname and sidecar, and a staged payload for each
/// file.
proof fn lemma_read_packed(es: Seq<PackEntry>)
    requires
        packable(es),
    ensures
        read_members(pack_members(es)) == (IndexView {
            groups: es.map_values(|e: PackEntry| group_of_entry(e)),
            staged: staged_of(es),
        }),
    decreases es.len(),
{
    if es.len() == 0 {
        assert(es.map_values(|e: PackEntry| group_of_entry(e)) =~= Seq::<GroupView>::empty());
    } else {
        let pre = es.drop_last();
        let e = es.last();
        assert(es[es.len() - 1] == e);
        assert(packable(pre)) by {
            assert forall|i: int| 0 <= i < pre.len() implies #[trigger] pre[i] == es[i] by {}
        }
        lemma_read_packed(pre);
        let groups0 = pre.map_values(|x: PackEntry| group_of_entry(x));
        let g = e.guid@;
        assert(!crate::index::has_group(groups0, g)) by {
            if crate::index::has_group(groups0, g) {
                let i = choose|i: int| 0 <= i < groups0.len() && groups0[i].id == g;
                assert(pre[i] == es[i]);
            }
        }
        assert(!staged_of(pre).contains(g)) by {
            lemma_staged_of(pre, g);
            if staged_of(pre).contains(g) {
                let i = choose|i: int| 0 <= i < pre.len() && (#[trigger] pre[i]).source is Some
                    && pre[i].guid@ == g;
                assert(pre[i] == es[i]);
            }
        }
        lemma_read_concat(pack_members(pre), members_of(e));
        lemma_read_entry(read_members(pack_members(pre)), e);
        assert(groups0.push(group_of_entry(e)) =~= es.map_values(|x: PackEntry| group_of_entry(x)));
    }
}

/// Packing assets and reading the archive back gives, for each asset in
/// order, a group keyed by its guid whose record carries the asset's
/// pathname and sidecar text, and is a folder exactly when the asset is
/// one.
pub proof fn lemma_pack_then_read(es: Seq<PackEntry>)
    requires
        packable(es),
    ensures
        read_members(pack_members(es)).groups.len() == es.len(),
        forall|i: int|
            0 <= i < es.len() ==> (#[trigger] read_members(pack_members(es)).groups[i]).id
                == es[i].guid@ && group_record(
                read_members(pack_members(es)).groups[i],
                read_members(pack_members(es)).staged,
            ) == Ok::<(Seq<char>, Seq<char>, bool), crate::index::Fault>(
                (es[i].pathname@, es[i].meta@, es[i].source is None),
            ),
{
    lemma_read_packed(es);
    let idx = read_members(pack_members(es));
    assert forall|i: int| 0 <= i < es.len() implies (#[trigger] idx.groups[i]).id == es[i].guid@
        && group_record(idx.groups[i], idx.staged) == Ok::<
        (Seq<char>, Seq<char>, bool),
        crate::index::Fault,
    >((es[i].pathname@, es[i].meta@, es[i].source is None)) by {
        lemma_staged_of(es, es[i].guid@);
        if listed(idx.staged, es[i].guid@) {
            let j = choose|j: int| 0 <= j < es.len() && (#[trigger] es[j]).source is Some
                && es[j].guid@ == es[i].guid@;
            assert(j == i);
        }
    }
}

/// Where nothing stands yet, a record lands at `root/pathname`: a file as
/// its sidecar and then its payload moved from the staging area, a folder
/// as its directory and its sidecar.
pub proof fn lemma_fresh_placement(
    root: Seq<char>,
    staging: Seq<char>,
    r: AssetRecord,
    names: Seq<Seq<char>>,
    d1: OverwriteAction,
    d2: OverwriteAction,
)
    requires
        !listed(names, sidecar_name(base_name(r.pathname@))),
        !listed(names, base_name(r.pathname@)),
    ensures
        file_plan(root, staging, r, names, d1, d2) == seq![
            OpView::WriteFile {
                path: sidecar_name(join(root, r.pathname@)),
                content: r.meta@,
            },
            OpView::MovePayload { from: join(staging, r.id@), to: join(root, r.pathname@) },
        ],
        directory_plan(root, r, names) == seq![
            OpView::WriteFile {
                path: sidecar_name(join(root, r.pathname@)),
                content: r.meta@,
            },
        ],
        r.is_directory ==> survey_create(root, r) == join(root, r.pathname@),
{
    let p = r.pathname@;
    let dir = parent_dir(root, p);
    let name = base_name(p);
    crate::text::lemma_last_index_of_bounds(p, '/');
    assert(join(dir, name) =~= join(root, p));
    assert(join(dir, sidecar_name(name)) =~= sidecar_name(join(root, p)));
    assert(file_plan(root, staging, r, names, d1, d2) =~= seq![
        OpView::WriteFile { path: sidecar_name(join(root, p)), content: r.meta@ },
        OpView::MovePayload { from: join(staging, r.id@), to: join(root, p) },
    ]);
}

} // verus!
