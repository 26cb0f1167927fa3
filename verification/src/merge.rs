use vstd::prelude::*;
use crate::laws::law_merge_keeps_ids_and_names;
use crate::types::{
    branch_cloned, branch_ids, branch_index, branch_names, has_branch_id, last_uuid, overwritten, Branch,
    GcError, IsForked, ManualMergeAction, MergeMode, Message, Root, Uuid,
};

verus! {

/// What a merge does to its target.
pub enum MergePlan {
    /// The target takes the source's messages (see `overwritten`).
    TakeFrom,
    /// The target stays as it is.
    KeepTo,
    /// Both sides moved on after the fork line: a person has to decide.
    Conflict,
    /// No fork record relates the two branches.
    NoRecord,
}

/// `Some(line)` is the id of the last message of `ms`.
pub open spec fn ends_at<C>(ms: Seq<Message<C>>, line: Uuid) -> bool {
    last_uuid(ms) == Some(line)
}

/// The plan of a human merge of `f` into `t`, read from their fork records.
///
/// In turn: `f` was forked from `t`; `t` was forked from `f`; both were forked
/// from the same parent. In each, a side that still ends at its fork line has
/// nothing new: if the source has nothing new the target is kept, if the
/// target has nothing new it takes the source; otherwise the merge conflicts.
/// When the source was forked from the target, the target is checked first.
pub open spec fn human_merge_plan<C>(f: Branch<C>, t: Branch<C>) -> MergePlan {
    let child_of_target = match f.is_forked {
        IsForked::True(p, _) => p == t.branch_id,
        IsForked::False => false,
    };
    let parent_of_target = match t.is_forked {
        IsForked::True(p, _) => p == f.branch_id,
        IsForked::False => false,
    };
    let siblings = match (f.is_forked, t.is_forked) {
        (IsForked::True(fp, _), IsForked::True(tp, _)) => fp == tp,
        _ => false,
    };
    let f_line = match f.is_forked {
        IsForked::True(_, l) => l,
        IsForked::False => f.branch_id,
    };
    let t_line = match t.is_forked {
        IsForked::True(_, l) => l,
        IsForked::False => t.branch_id,
    };
    if child_of_target {
        if ends_at(t.messages@, f_line) {
            MergePlan::TakeFrom
        } else if ends_at(f.messages@, f_line) {
            MergePlan::KeepTo
        } else {
            MergePlan::Conflict
        }
    } else if parent_of_target {
        if ends_at(f.messages@, t_line) {
            MergePlan::KeepTo
        } else if ends_at(t.messages@, t_line) {
            MergePlan::TakeFrom
        } else {
            MergePlan::Conflict
        }
    } else if siblings {
        if ends_at(f.messages@, f_line) {
            MergePlan::KeepTo
        } else if ends_at(t.messages@, t_line) {
            MergePlan::TakeFrom
        } else {
            MergePlan::Conflict
        }
    } else {
        MergePlan::NoRecord
    }
}

/// The plan of `merge_tool` in `mode`: a forced merge always takes the source.
pub open spec fn merge_plan<C>(mode: MergeMode, f: Branch<C>, t: Branch<C>) -> MergePlan {
    match mode {
        MergeMode::Force => MergePlan::TakeFrom,
        MergeMode::Human => human_merge_plan(f, t),
    }
}

/// The outcome of carrying out `plan` for the branches at `fi` (source) and
/// `ti` (target) of `old`, giving `new` and the result `res`.
pub open spec fn plan_carried_out<C: Clone>(
    plan: MergePlan,
    old: Seq<Branch<C>>,
    new: Seq<Branch<C>>,
    fi: int,
    ti: int,
    res: Result<(), GcError<C>>,
) -> bool {
    match plan {
        MergePlan::TakeFrom => res is Ok && overwritten(old, new, fi, ti),
        MergePlan::KeepTo => res is Ok && new == old,
        MergePlan::Conflict => {
            &&& new == old
            &&& res matches Err(GcError::GcMergeHumanError(a, b)) && branch_cloned(old[fi], a)
                && branch_cloned(old[ti], b)
        },
        MergePlan::NoRecord => new == old && res == Err::<(), GcError<C>>(GcError::MergeRecordNotFound),
    }
}

/// What `merge_tool(from, to, mode)` does to the branches `old`, giving the
/// branches `new` and the result `res`.
pub open spec fn merge_tool_outcome<C: Clone>(
    old: Seq<Branch<C>>,
    new: Seq<Branch<C>>,
    from: Uuid,
    to: Uuid,
    mode: MergeMode,
    res: Result<(), GcError<C>>,
) -> bool {
    if from == to {
        res is Ok && new == old
    } else if !(has_branch_id(old, from) && has_branch_id(old, to)) {
        res == Err::<(), GcError<C>>(GcError::UuidNotFound) && new == old
    } else {
        let fi = branch_index(old, from);
        let ti = branch_index(old, to);
        plan_carried_out(merge_plan(mode, old[fi], old[ti]), old, new, fi, ti, res)
    }
}

/// `id` is the last message of `ms`.
fn ends_with<C>(ms: &Vec<Message<C>>, id: Uuid) -> (r: bool)
    ensures
        r == ends_at(ms@, id),
{
    let n = ms.len();
    if n == 0 {
        false
    } else {
        ms[n - 1].uuid == id
    }
}

impl<C: Clone> Root<C> {
    /// Overwrites the first branch with id `to` by the first branch with id
    /// `from`: the target takes copies of the source's messages, loses its fork
    /// record and keeps its own id and name. `UuidNotFound`, with nothing
    /// changed, when either id is missing.
    pub fn merge_base(&mut self, from: Uuid, to: Uuid) -> (res: Result<(), GcError<C>>)
        ensures
            final(self).name == old(self).name,
            branch_ids(final(self).branches@) == branch_ids(old(self).branches@),
            branch_names(final(self).branches@) == branch_names(old(self).branches@),
            res is Ok <==> has_branch_id(old(self).branches@, from) && has_branch_id(old(self).branches@, to),
            res is Err ==> {
                &&& res == Err::<(), GcError<C>>(GcError::UuidNotFound)
                &&& final(self).branches@ == old(self).branches@
            },
            res is Ok ==> overwritten(
                old(self).branches@,
                final(self).branches@,
                branch_index(old(self).branches@, from),
                branch_index(old(self).branches@, to),
            ),
    {
        let from_index = match self.find_branch_index_by_uuid(&from) {
            Ok(i) => i,
            Err(e) => {
                return Err(e);
            },
        };
        let to_index = match self.find_branch_index_by_uuid(&to) {
            Ok(i) => i,
            Err(e) => {
                return Err(e);
            },
        };
        let ghost old_bs = self.branches@;
        let mut merged = self.branches[from_index].duplicate();
        merged.branch_id = self.branches[to_index].branch_id;
        merged.name = self.branches[to_index].name.clone();
        merged.is_forked = IsForked::False;
        self.branches.set(to_index, merged);
        proof {
            assert(overwritten(old_bs, self.branches@, from_index as int, to_index as int));
            law_merge_keeps_ids_and_names(old_bs, self.branches@, from_index as int, to_index as int);
        }
        Ok(())
    }

    /// Merges the first branch with id `from` into the first branch with id
    /// `to`.
    ///
    /// Equal ids: nothing happens. A missing id: `UuidNotFound`, nothing
    /// changed. `Force`: as `merge_base`. `Human`: the plan read from the fork
    /// records (`human_merge_plan`) is carried out; a conflict returns
    /// `GcMergeHumanError` with copies of both branches and changes nothing.
    pub fn merge_tool(&mut self, from: Uuid, to: Uuid, mode: MergeMode) -> (res: Result<(), GcError<C>>)
        ensures
            final(self).name == old(self).name,
            branch_ids(final(self).branches@) == branch_ids(old(self).branches@),
            branch_names(final(self).branches@) == branch_names(old(self).branches@),
            merge_tool_outcome(old(self).branches@, final(self).branches@, from, to, mode, res),
    {
        if from == to {
            return Ok(());
        }
        let from_index = match self.find_branch_index_by_uuid(&from) {
            Ok(i) => i,
            Err(e) => {
                return Err(e);
            },
        };
        let to_index = match self.find_branch_index_by_uuid(&to) {
            Ok(i) => i,
            Err(e) => {
                return Err(e);
            },
        };
        if mode == MergeMode::Force {
            return self.merge_base(from, to);
        }
        let ghost bs = self.branches@;
        let from_forked = self.branches[from_index].is_forked;
        let to_forked = self.branches[to_index].is_forked;

        // `from` was forked from `to` (child into parent)
        if let IsForked::True(parent_id, fork_line) = from_forked {
            if parent_id == to {
                if ends_with(&self.branches[to_index].messages, fork_line) {
                    return self.merge_base(from, to);
                }
                if ends_with(&self.branches[from_index].messages, fork_line) {
                    return Ok(());
                }
                return Err(self.conflict(from_index, to_index));
            }
        }
        // `to` was forked from `from` (parent into child)
        if let IsForked::True(parent_id, fork_line) = to_forked {
            if parent_id == from {
                if ends_with(&self.branches[from_index].messages, fork_line) {
                    return Ok(());
                }
                if ends_with(&self.branches[to_index].messages, fork_line) {
                    return self.merge_base(from, to);
                }
                return Err(self.conflict(from_index, to_index));
            }
        }
        // both were forked from the same parent (siblings)
        if let (IsForked::True(from_parent, from_fork_line), IsForked::True(to_parent, to_fork_line)) = (
            from_forked,
            to_forked,
        ) {
            if from_parent == to_parent {
                if ends_with(&self.branches[from_index].messages, from_fork_line) {
                    return Ok(());
                }
                if ends_with(&self.branches[to_index].messages, to_fork_line) {
                    return self.merge_base(from, to);
                }
                return Err(self.conflict(from_index, to_index));
            }
        }
        Err(GcError::MergeRecordNotFound)
    }

    /// The conflict error carrying copies of the branches at `fi` and `ti`.
    fn conflict(&self, fi: usize, ti: usize) -> (e: GcError<C>)
        requires
            fi < self.branches@.len(),
            ti < self.branches@.len(),
        ensures
            e matches GcError::GcMergeHumanError(a, b) && branch_cloned(self.branches@[fi as int], a)
                && branch_cloned(self.branches@[ti as int], b),
    {
        GcError::GcMergeHumanError(self.branches[fi].duplicate(), self.branches[ti].duplicate())
    }

    /// Resolves a merge of the first branch with id `from` into the first
    /// branch with id `to` by hand.
    ///
    /// Equal ids: nothing happens. A missing id: `UuidNotFound`, nothing
    /// changed. `UseFrom`: as `merge_base`. `UseTo`: nothing changes.
    /// `UseMessages(ms)`: the target's messages become `ms` and its fork
    /// record is cleared.
    pub fn merge_manual(&mut self, from: Uuid, to: Uuid, action: ManualMergeAction<C>) -> (res: Result<(), GcError<C>>)
        ensures
            final(self).name == old(self).name,
            branch_ids(final(self).branches@) == branch_ids(old(self).branches@),
            branch_names(final(self).branches@) == branch_names(old(self).branches@),
            ({
                let bs = old(self).branches@;
                let nbs = final(self).branches@;
                if from == to {
                    res is Ok && nbs == bs
                } else if !(has_branch_id(bs, from) && has_branch_id(bs, to)) {
                    res == Err::<(), GcError<C>>(GcError::UuidNotFound) && nbs == bs
                } else {
                    let fi = branch_index(bs, from);
                    let ti = branch_index(bs, to);
                    &&& res is Ok
                    &&& match action {
                        ManualMergeAction::UseFrom => overwritten(bs, nbs, fi, ti),
                        ManualMergeAction::UseTo => nbs == bs,
                        ManualMergeAction::UseMessages(ms) => {
                            &&& nbs.len() == bs.len()
                            &&& forall|j: int| 0 <= j < bs.len() && j != ti ==> #[trigger] nbs[j] == bs[j]
                            &&& nbs[ti].messages == ms
                            &&& nbs[ti].is_forked == IsForked::False
                            &&& nbs[ti].branch_id == bs[ti].branch_id
                            &&& nbs[ti].name == bs[ti].name
                        },
                    }
                }
            }),
    {
        if from == to {
            return Ok(());
        }
        match self.find_branch_index_by_uuid(&from) {
            Ok(_) => {},
            Err(e) => {
                return Err(e);
            },
        }
        let to_index = match self.find_branch_index_by_uuid(&to) {
            Ok(i) => i,
            Err(e) => {
                return Err(e);
            },
        };
        match action {
            ManualMergeAction::UseFrom => self.merge_base(from, to),
            ManualMergeAction::UseTo => Ok(()),
            ManualMergeAction::UseMessages(messages) => {
                let ghost old_bs = self.branches@;
                self.branches[to_index].messages = messages;
                self.branches[to_index].is_forked = IsForked::False;
                proof {
                    assert(branch_ids(self.branches@) =~= branch_ids(old_bs));
                    assert(branch_names(self.branches@) =~= branch_names(old_bs));
                }
                Ok(())
            },
        }
    }
}

} // verus!
