use vstd::prelude::*;
use crate::merge::{ends_at, human_merge_plan, merge_tool_outcome, MergePlan};
use crate::root::{create_branch_outcome, fork_branch_outcome};
use crate::types::{
    appended, branch_cloned, branch_ids, branch_index, branch_names, forked_from, has_branch_id,
    has_branch_name, has_source, ids_distinct, is_first_with_id, is_first_with_name, is_new_branch,
    last_uuid, message_cloned, messages_cloned, name_index, names_distinct, overwritten, source_index, Branch,
    GcError, IsForked, MergeMode, StringOrUuid, Uuid,
};

verus! {

/// After a branch with an id that no branch had before was appended, the
/// first branch with that id is the appended one.
pub proof fn law_fresh_id_is_found_last<C>(old: Seq<Branch<C>>, new: Seq<Branch<C>>, id: Uuid)
    requires
        appended(old, new),
        new.last().branch_id == id,
        !has_branch_id(old, id),
    ensures
        has_branch_id(new, id),
        branch_index(new, id) == old.len(),
{
    let n = old.len() as int;
    assert(new[n] == new.last());
    assert forall|j: int| 0 <= j < n implies #[trigger] new[j].branch_id != id by {
        assert(new[j] == old.take(n)[j]);
        assert(old[j].branch_id != id);
    }
    assert(is_first_with_id(new, id, n));
    let c = branch_index(new, id);
    assert(is_first_with_id(new, id, c));
    if c < n {
        assert(new[c].branch_id != id);
    }
}

/// After a branch named `name` with id `id` was appended (what `create_branch`
/// does on success), a lookup by that id succeeds and so does one by that
/// name; when no earlier branch had that id, the lookup finds the new branch.
pub proof fn law_created_branch_is_found<C>(old: Seq<Branch<C>>, new: Seq<Branch<C>>, name: Seq<char>, id: Uuid)
    requires
        appended(old, new),
        is_new_branch(new.last(), name),
        new.last().branch_id == id,
    ensures
        has_branch_id(new, id),
        has_branch_name(new, name),
        !has_branch_id(old, id) ==> branch_index(new, id) == old.len(),
{
    let n = old.len() as int;
    assert(new[n] == new.last());
    if !has_branch_id(old, id) {
        assert forall|j: int| 0 <= j < n implies #[trigger] new[j].branch_id != id by {
            assert(new[j] == old.take(n)[j]);
            assert(old[j].branch_id != id);
        }
        assert(is_first_with_id(new, id, n));
        let c = branch_index(new, id);
        assert(is_first_with_id(new, id, c));
        if c < n {
            assert(new[c].branch_id != id);
        }
    }
}

/// When branch ids are distinct, removing the branch with id `id` (what
/// `remove_branch` does on success) leaves no branch with that id, and every
/// other branch is still found by its id.
pub proof fn law_removed_branch_is_gone<C>(old: Seq<Branch<C>>, id: Uuid)
    requires
        ids_distinct(old),
        has_branch_id(old, id),
    ensures
        !has_branch_id(old.remove(branch_index(old, id)), id),
        forall|u: Uuid| u != id && has_branch_id(old, u) ==> has_branch_id(old.remove(branch_index(old, id)), u),
{
    let k0 = choose|k: int| 0 <= k < old.len() && #[trigger] old[k].branch_id == id;
    let i = branch_index(old, id);
    assert(is_first_with_id(old, id, k0)) by {
        assert forall|j: int| 0 <= j < k0 implies #[trigger] old[j].branch_id != id by {
            if old[j].branch_id == id {
                assert(old[j].branch_id == old[k0].branch_id);
            }
        }
    }
    assert(is_first_with_id(old, id, i));
    let new = old.remove(i);
    assert forall|k: int| 0 <= k < new.len() implies #[trigger] new[k].branch_id != id by {
        let ok = if k < i { k } else { k + 1 };
        assert(new[k] == old[ok]);
        assert(ok != i);
    }
    assert forall|u: Uuid| u != id && has_branch_id(old, u) implies has_branch_id(new, u) by {
        let k = choose|k: int| 0 <= k < old.len() && #[trigger] old[k].branch_id == u;
        assert(k != i);
        let nk = if k < i { k } else { k - 1 };
        assert(new[nk] == old[k]);
    }
}

/// A merge that overwrites one branch by another keeps every branch's id and
/// name in place, so the set of branches, and their distinctness, is unchanged.
pub proof fn law_merge_keeps_ids_and_names<C: Clone>(old: Seq<Branch<C>>, new: Seq<Branch<C>>, fi: int, ti: int)
    requires
        overwritten(old, new, fi, ti),
    ensures
        branch_ids(new) == branch_ids(old),
        branch_names(new) == branch_names(old),
        names_distinct(old) ==> names_distinct(new),
        ids_distinct(old) ==> ids_distinct(new),
{
    assert forall|j: int| 0 <= j < old.len() implies #[trigger] new[j].branch_id == old[j].branch_id
        && new[j].name@ == old[j].name@ by {
        if j != ti {
            assert(new[j] == old[j]);
        }
    }
    assert(branch_ids(new) =~= branch_ids(old));
    assert(branch_names(new) =~= branch_names(old));
}

/// A branch freshly forked from `parent` and merged back into it by a human
/// merge never conflicts: the parent takes it when the parent still ends at
/// the fork line, and is kept otherwise.
pub proof fn law_fork_then_merge_back<C: Clone>(child: Branch<C>, parent: Branch<C>, k: int, name: Seq<char>)
    requires
        forked_from(child, parent, k, name),
    ensures
        human_merge_plan(child, parent) == if ends_at(parent.messages@, parent.messages@[k].uuid) {
            MergePlan::TakeFrom
        } else {
            MergePlan::KeepTo
        },
{
    let line = parent.messages@[k].uuid;
    let last = child.messages@.len() - 1;
    assert(message_cloned(parent.messages@.take(k + 1)[last], child.messages@[last]));
    assert(ends_at(child.messages@, line));
}

/// A branch forked at its parent's last message fast-forwards the parent in a
/// human merge, whatever messages it gained since, as long as the parent has
/// gained none.
pub proof fn law_fast_forward<C: Clone>(child: Branch<C>, parent: Branch<C>, name: Seq<char>, grown: Branch<C>)
    requires
        forked_from(child, parent, parent.messages@.len() - 1, name),
        grown.is_forked == child.is_forked,
    ensures
        human_merge_plan(grown, parent) == MergePlan::TakeFrom,
{
}

/// When some branch has id `id`, `branch_index` is the first such position.
pub proof fn lemma_branch_index_is_first<C>(bs: Seq<Branch<C>>, id: Uuid)
    requires
        has_branch_id(bs, id),
    ensures
        is_first_with_id(bs, id, branch_index(bs, id)),
    decreases bs.len(),
{
    let front = bs.drop_last();
    let n = bs.len() - 1;
    if has_branch_id(front, id) {
        lemma_branch_index_is_first(front, id);
        let i = branch_index(front, id);
        assert(is_first_with_id(front, id, i));
        assert forall|j: int| 0 <= j < i implies #[trigger] bs[j].branch_id != id by {
            assert(bs[j] == front[j]);
        }
        assert(bs[i] == front[i]);
        assert(is_first_with_id(bs, id, i));
    } else {
        assert forall|j: int| 0 <= j < n implies #[trigger] bs[j].branch_id != id by {
            assert(bs[j] == front[j]);
            if bs[j].branch_id == id {
                assert(front[j].branch_id == id);
            }
        }
        let k = choose|k: int| 0 <= k < bs.len() && #[trigger] bs[k].branch_id == id;
        assert(k == n);
        assert(is_first_with_id(bs, id, n));
    }
}

/// When some branch is named `name`, `name_index` is the first such position.
pub proof fn lemma_name_index_is_first<C>(bs: Seq<Branch<C>>, name: Seq<char>)
    requires
        has_branch_name(bs, name),
    ensures
        is_first_with_name(bs, name, name_index(bs, name)),
    decreases bs.len(),
{
    let front = bs.drop_last();
    let n = bs.len() - 1;
    if has_branch_name(front, name) {
        lemma_name_index_is_first(front, name);
        let i = name_index(front, name);
        assert(is_first_with_name(front, name, i));
        assert forall|j: int| 0 <= j < i implies #[trigger] bs[j].name@ != name by {
            assert(bs[j] == front[j]);
        }
        assert(bs[i] == front[i]);
        assert(is_first_with_name(bs, name, i));
    } else {
        assert forall|j: int| 0 <= j < n implies #[trigger] bs[j].name@ != name by {
            assert(bs[j] == front[j]);
            if bs[j].name@ == name {
                assert(front[j].name@ == name);
            }
        }
        let k = choose|k: int| 0 <= k < bs.len() && #[trigger] bs[k].name@ == name;
        assert(k == n);
        assert(is_first_with_name(bs, name, n));
    }
}

/// The id that `create_branch` returns belongs to no branch that was there
/// before: looking it up afterwards finds the new branch, which is appended
/// after all the old ones.
pub proof fn law_created_id_is_new<C>(old: Seq<Branch<C>>, new: Seq<Branch<C>>, name: Seq<char>, id: Uuid)
    requires
        create_branch_outcome(old, new, name, Ok(id)),
    ensures
        !has_branch_id(old, id),
        new.len() == old.len() + 1,
        has_branch_id(new, id),
        branch_index(new, id) == old.len(),
        new[old.len() as int].name@ == name,
{
    law_fresh_id_is_found_last(old, new, id);
}

/// The id that `fork_branch` returns belongs to no branch that was there
/// before, in particular not to the branch it was forked from: looking it up
/// afterwards finds the new branch, which records the source as its parent.
pub proof fn law_forked_id_is_new<C: Clone>(
    old: Seq<Branch<C>>,
    new: Seq<Branch<C>>,
    src: StringOrUuid,
    at: crate::types::I64OrUuid,
    name: Seq<char>,
    id: Uuid,
)
    requires
        fork_branch_outcome(old, new, src, at, name, Ok(id)),
    ensures
        has_source(old, src),
        !has_branch_id(old, id),
        id != old[source_index(old, src)].branch_id,
        branch_index(new, id) == old.len(),
        new[old.len() as int].is_forked matches IsForked::True(p, _) && p == old[source_index(old, src)].branch_id,
{
    match src {
        StringOrUuid::Name(n) => lemma_name_index_is_first(old, n@),
        StringOrUuid::BranchId(u) => lemma_branch_index_is_first(old, u),
    }
    let k = source_index(old, src);
    assert(0 <= k < old.len());
    if id == old[k].branch_id {
        assert(has_branch_id(old, id));
    }
    assert(new[old.len() as int] == new.last());
}

/// A forced merge of two different existing branches always overwrites the
/// target with copies of the source's messages and clears the target's fork
/// record, keeping its id and name, whatever the fork records say.
pub proof fn law_force_merge_overwrites<C: Clone>(
    old: Seq<Branch<C>>,
    new: Seq<Branch<C>>,
    from: Uuid,
    to: Uuid,
    res: Result<(), GcError<C>>,
)
    requires
        merge_tool_outcome(old, new, from, to, MergeMode::Force, res),
        from != to,
        has_branch_id(old, from),
        has_branch_id(old, to),
    ensures
        res is Ok,
        overwritten(old, new, branch_index(old, from), branch_index(old, to)),
        new.len() == old.len(),
        messages_cloned(old[branch_index(old, from)].messages@, new[branch_index(old, to)].messages@),
        new[branch_index(old, to)].is_forked == IsForked::False,
        new[branch_index(old, to)].branch_id == to,
        new[branch_index(old, to)].name == old[branch_index(old, to)].name,
        forall|j: int| 0 <= j < old.len() && j != branch_index(old, to) ==> #[trigger] new[j] == old[j],
{
    lemma_branch_index_is_first(old, to);
}

/// Human merge of a child into the parent it was forked from at `line`: the
/// parent takes the child when the parent still ends at the fork line;
/// otherwise nothing changes, successfully when the child still ends at the
/// fork line and with a conflict carrying copies of both when neither does.
pub proof fn law_human_merge_child_into_parent<C: Clone>(
    old: Seq<Branch<C>>,
    new: Seq<Branch<C>>,
    from: Uuid,
    to: Uuid,
    res: Result<(), GcError<C>>,
    line: Uuid,
)
    requires
        merge_tool_outcome(old, new, from, to, MergeMode::Human, res),
        from != to,
        has_branch_id(old, from),
        has_branch_id(old, to),
        old[branch_index(old, from)].is_forked == IsForked::True(to, line),
    ensures
        ({
            let f = old[branch_index(old, from)];
            let t = old[branch_index(old, to)];
            &&& last_uuid(t.messages@) == Some(line) ==> res is Ok && overwritten(
                old,
                new,
                branch_index(old, from),
                branch_index(old, to),
            )
            &&& last_uuid(t.messages@) != Some(line) && last_uuid(f.messages@) == Some(line) ==> res is Ok
                && new == old
            &&& last_uuid(t.messages@) != Some(line) && last_uuid(f.messages@) != Some(line) ==> {
                &&& new == old
                &&& res matches Err(GcError::GcMergeHumanError(a, b)) && branch_cloned(f, a) && branch_cloned(t, b)
            }
        }),
{
    lemma_branch_index_is_first(old, to);
}

/// Human merge of a parent into a child forked from it at `line` (when the
/// parent is not itself recorded as forked from that child): nothing changes
/// when the parent still ends at the fork line, whatever the child ends at;
/// otherwise the child takes the parent when the child still ends at the fork
/// line, and the merge conflicts, changing nothing, when neither does.
pub proof fn law_human_merge_parent_into_child<C: Clone>(
    old: Seq<Branch<C>>,
    new: Seq<Branch<C>>,
    from: Uuid,
    to: Uuid,
    res: Result<(), GcError<C>>,
    line: Uuid,
)
    requires
        merge_tool_outcome(old, new, from, to, MergeMode::Human, res),
        from != to,
        has_branch_id(old, from),
        has_branch_id(old, to),
        old[branch_index(old, to)].is_forked == IsForked::True(from, line),
        !(old[branch_index(old, from)].is_forked matches IsForked::True(p, _) && p == to),
    ensures
        ({
            let f = old[branch_index(old, from)];
            let t = old[branch_index(old, to)];
            &&& last_uuid(f.messages@) == Some(line) ==> res is Ok && new == old
            &&& last_uuid(f.messages@) != Some(line) && last_uuid(t.messages@) == Some(line) ==> res is Ok
                && overwritten(old, new, branch_index(old, from), branch_index(old, to))
            &&& last_uuid(f.messages@) != Some(line) && last_uuid(t.messages@) != Some(line) ==> {
                &&& new == old
                &&& res matches Err(GcError::GcMergeHumanError(a, b)) && branch_cloned(f, a) && branch_cloned(t, b)
            }
        }),
{
    lemma_branch_index_is_first(old, from);
    lemma_branch_index_is_first(old, to);
}

/// Human merge of two branches forked from the same parent (neither recorded
/// as forked from the other): nothing changes when the source still ends at
/// its own fork line, whatever the target ends at; otherwise the target takes
/// the source when the target still ends at its fork line, and the merge
/// conflicts, changing nothing, when neither does.
pub proof fn law_human_merge_siblings<C: Clone>(
    old: Seq<Branch<C>>,
    new: Seq<Branch<C>>,
    from: Uuid,
    to: Uuid,
    res: Result<(), GcError<C>>,
    parent: Uuid,
    from_line: Uuid,
    to_line: Uuid,
)
    requires
        merge_tool_outcome(old, new, from, to, MergeMode::Human, res),
        from != to,
        has_branch_id(old, from),
        has_branch_id(old, to),
        old[branch_index(old, from)].is_forked == IsForked::True(parent, from_line),
        old[branch_index(old, to)].is_forked == IsForked::True(parent, to_line),
        parent != from,
        parent != to,
    ensures
        ({
            let f = old[branch_index(old, from)];
            let t = old[branch_index(old, to)];
            &&& last_uuid(f.messages@) == Some(from_line) ==> res is Ok && new == old
            &&& last_uuid(f.messages@) != Some(from_line) && last_uuid(t.messages@) == Some(to_line) ==> res is Ok
                && overwritten(old, new, branch_index(old, from), branch_index(old, to))
            &&& last_uuid(f.messages@) != Some(from_line) && last_uuid(t.messages@) != Some(to_line) ==> {
                &&& new == old
                &&& res matches Err(GcError::GcMergeHumanError(a, b)) && branch_cloned(f, a) && branch_cloned(t, b)
            }
        }),
{
    lemma_branch_index_is_first(old, from);
    lemma_branch_index_is_first(old, to);
}

/// Human merge of two different existing branches that no fork record
/// relates (neither forked from the other, not forked from the same parent):
/// `MergeRecordNotFound`, nothing changed.
pub proof fn law_human_merge_without_record<C: Clone>(
    old: Seq<Branch<C>>,
    new: Seq<Branch<C>>,
    from: Uuid,
    to: Uuid,
    res: Result<(), GcError<C>>,
)
    requires
        merge_tool_outcome(old, new, from, to, MergeMode::Human, res),
        from != to,
        has_branch_id(old, from),
        has_branch_id(old, to),
        !(old[branch_index(old, from)].is_forked matches IsForked::True(p, _) && p == to),
        !(old[branch_index(old, to)].is_forked matches IsForked::True(p, _) && p == from),
        !(old[branch_index(old, from)].is_forked matches IsForked::True(fp, _)
            && old[branch_index(old, to)].is_forked matches IsForked::True(tp, _) && fp == tp),
    ensures
        res == Err::<(), GcError<C>>(GcError::MergeRecordNotFound),
        new == old,
{
    lemma_branch_index_is_first(old, from);
    lemma_branch_index_is_first(old, to);
}

/// A human merge reports a conflict only when a fork record relates the two
/// branches and, for the record that decides, neither side still ends at its
/// fork line; a conflict never changes the branches.
pub proof fn law_human_conflict_only_on_divergence<C: Clone>(
    old: Seq<Branch<C>>,
    new: Seq<Branch<C>>,
    from: Uuid,
    to: Uuid,
    res: Result<(), GcError<C>>,
)
    requires
        merge_tool_outcome(old, new, from, to, MergeMode::Human, res),
        res matches Err(GcError::GcMergeHumanError(_, _)),
    ensures
        new == old,
        from != to,
        has_branch_id(old, from) && has_branch_id(old, to),
        ({
            let f = old[branch_index(old, from)];
            let t = old[branch_index(old, to)];
            match (f.is_forked, t.is_forked) {
                (IsForked::True(p, l), _) if p == to => last_uuid(f.messages@) != Some(l) && last_uuid(
                    t.messages@,
                ) != Some(l),
                (_, IsForked::True(p, l)) if p == from => last_uuid(f.messages@) != Some(l) && last_uuid(
                    t.messages@,
                ) != Some(l),
                (IsForked::True(fp, fl), IsForked::True(tp, tl)) => fp == tp && last_uuid(f.messages@) != Some(fl)
                    && last_uuid(t.messages@) != Some(tl),
                _ => false,
            }
        }),
{
    lemma_branch_index_is_first(old, from);
    lemma_branch_index_is_first(old, to);
}

} // verus!
