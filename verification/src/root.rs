use vstd::prelude::*;
use crate::ids::{fresh_uuid_for, is_random_v4};
use crate::laws::law_fresh_id_is_found_last;
use crate::types::{
    appended, branch_index, fork_aborts, fork_point, forked_from, has_branch_id, has_branch_name,
    has_fork_point, has_source, is_first_with_id, is_first_with_name, is_new_branch,
    ids_distinct, missing_source_error, name_index, names_distinct, source_index, Branch, GcError, I64OrUuid,
    Root, StringOrUuid, Uuid,
};

verus! {

/// The first position of a branch with id `id` is `i`, and `branch_index` names it.
proof fn lemma_first_id_is_branch_index<C>(bs: Seq<Branch<C>>, id: Uuid, i: int)
    requires
        is_first_with_id(bs, id, i),
    ensures
        branch_index(bs, id) == i,
        has_branch_id(bs, id),
{
    let c = branch_index(bs, id);
    assert(is_first_with_id(bs, id, c));
    if c < i {
        assert(bs[c].branch_id != id);
    } else if c > i {
        assert(bs[i].branch_id != id);
    }
}

/// The first position of a branch named `name` is `i`, and `name_index` names it.
proof fn lemma_first_name_is_name_index<C>(bs: Seq<Branch<C>>, name: Seq<char>, i: int)
    requires
        is_first_with_name(bs, name, i),
    ensures
        name_index(bs, name) == i,
        has_branch_name(bs, name),
{
    let c = name_index(bs, name);
    assert(is_first_with_name(bs, name, c));
    if c < i {
        assert(bs[c].name@ != name);
    } else if c > i {
        assert(bs[i].name@ != name);
    }
}

/// Appending a branch whose name is not yet taken keeps names distinct.
proof fn lemma_append_keeps_names_distinct<C>(old: Seq<Branch<C>>, new: Seq<Branch<C>>)
    requires
        appended(old, new),
        names_distinct(old),
        !has_branch_name(old, new.last().name@),
    ensures
        names_distinct(new),
{
    assert forall|i: int, j: int|
        0 <= i < new.len() && 0 <= j < new.len() && i != j implies #[trigger] new[i].name@
        != #[trigger] new[j].name@ by {
        let n = old.len() as int;
        if i < n {
            assert(new[i] == old.take(n)[i]);
        }
        if j < n {
            assert(new[j] == old.take(n)[j]);
        }
        if i == n {
            assert(old[j] == new[j]);
        } else if j == n {
            assert(old[i] == new[i]);
        }
    }
}

/// Appending a branch whose id is not yet taken keeps ids distinct.
proof fn lemma_append_keeps_ids_distinct<C>(old: Seq<Branch<C>>, new: Seq<Branch<C>>)
    requires
        appended(old, new),
        ids_distinct(old),
        !has_branch_id(old, new.last().branch_id),
    ensures
        ids_distinct(new),
{
    assert forall|i: int, j: int|
        0 <= i < new.len() && 0 <= j < new.len() && i != j implies #[trigger] new[i].branch_id
        != #[trigger] new[j].branch_id by {
        let n = old.len() as int;
        if i < n {
            assert(new[i] == old.take(n)[i]);
        }
        if j < n {
            assert(new[j] == old.take(n)[j]);
        }
        if i == n {
            assert(old[j] == new[j]);
        } else if j == n {
            assert(old[i] == new[i]);
        }
    }
}

/// What `fork_branch(src, at, name)` does to the branches `old`, giving the
/// branches `new` and the result `res`.
pub open spec fn fork_branch_outcome<C: Clone>(
    old: Seq<Branch<C>>,
    new: Seq<Branch<C>>,
    src: StringOrUuid,
    at: I64OrUuid,
    name: Seq<char>,
    res: Result<Uuid, GcError<C>>,
) -> bool {
    if has_branch_name(old, name) {
        &&& res == Err::<Uuid, GcError<C>>(GcError::ThingExist)
        &&& new == old
    } else if !has_source(old, src) {
        &&& res == Err::<Uuid, GcError<C>>(missing_source_error(src))
        &&& new == old
    } else {
        let parent = old[source_index(old, src)];
        if !has_fork_point(parent.messages@, at) {
            &&& res == Err::<Uuid, GcError<C>>(GcError::UuidNotFound)
            &&& new == old
        } else {
            &&& res matches Ok(id)
            &&& appended(old, new)
            &&& forked_from(new.last(), parent, fork_point(parent.messages@, at), name)
            &&& new.last().branch_id == id
            &&& is_random_v4(id)
            &&& !has_branch_id(old, id)
            &&& branch_index(new, id) == old.len()
        }
    }
}

/// What `create_branch(name)` does to the branches `old`, giving the branches
/// `new` and the result `res`.
pub open spec fn create_branch_outcome<C>(
    old: Seq<Branch<C>>,
    new: Seq<Branch<C>>,
    name: Seq<char>,
    res: Result<Uuid, GcError<C>>,
) -> bool {
    if has_branch_name(old, name) {
        &&& res == Err::<Uuid, GcError<C>>(GcError::ThingExist)
        &&& new == old
    } else {
        &&& res matches Ok(id)
        &&& appended(old, new)
        &&& is_new_branch(new.last(), name)
        &&& new.last().branch_id == id
        &&& is_random_v4(id)
        &&& !has_branch_id(old, id)
    }
}

impl<C: Clone> Root<C> {
    /// An empty repository named `name`.
    pub fn new(name: String) -> (r: Self)
        ensures
            r.branches@.len() == 0,
            r.name == name,
    {
        Root { branches: Vec::new(), name }
    }

    /// The position of the first branch with id `id`; `UuidNotFound` when
    /// there is none.
    pub fn find_branch_index_by_uuid(&self, id: &Uuid) -> (res: Result<usize, GcError<C>>)
        ensures
            res is Ok <==> has_branch_id(self.branches@, *id),
            res is Err ==> res == Err::<usize, GcError<C>>(GcError::UuidNotFound),
            res matches Ok(i) ==> {
                &&& is_first_with_id(self.branches@, *id, i as int)
                &&& i == branch_index(self.branches@, *id)
            },
    {
        let mut index: usize = 0;
        while index < self.branches.len()
            invariant
                index <= self.branches@.len(),
                forall|j: int| 0 <= j < index ==> #[trigger] self.branches@[j].branch_id != *id,
            decreases self.branches@.len() - index,
        {
            if self.branches[index].branch_id == *id {
                proof {
                    lemma_first_id_is_branch_index(self.branches@, *id, index as int);
                }
                return Ok(index);
            }
            index = index + 1;
        }
        Err(GcError::UuidNotFound)
    }

    /// The position of the first branch named `name`, if any.
    fn find_branch_index_by_name(&self, name: &String) -> (res: Option<usize>)
        ensures
            res is Some <==> has_branch_name(self.branches@, name@),
            res matches Some(i) ==> {
                &&& is_first_with_name(self.branches@, name@, i as int)
                &&& i == name_index(self.branches@, name@)
            },
    {
        let mut index: usize = 0;
        while index < self.branches.len()
            invariant
                index <= self.branches@.len(),
                forall|j: int| 0 <= j < index ==> #[trigger] self.branches@[j].name@ != name@,
            decreases self.branches@.len() - index,
        {
            if self.branches[index].name == *name {
                proof {
                    lemma_first_name_is_name_index(self.branches@, name@, index as int);
                }
                return Some(index);
            }
            index = index + 1;
        }
        None
    }

    /// Adds an empty branch named `name` with a fresh random id, one that no
    /// branch had before, and returns that id; `ThingExist`, with nothing
    /// changed, when the name is taken.
    pub fn create_branch(&mut self, name: String) -> (res: Result<Uuid, GcError<C>>)
        ensures
            final(self).name == old(self).name,
            res is Ok <==> !has_branch_name(old(self).branches@, name@),
            res is Err ==> {
                &&& res == Err::<Uuid, GcError<C>>(GcError::ThingExist)
                &&& final(self).branches@ == old(self).branches@
            },
            res matches Ok(id) ==> {
                &&& appended(old(self).branches@, final(self).branches@)
                &&& is_new_branch(final(self).branches@.last(), name@)
                &&& final(self).branches@.last().branch_id == id
                &&& is_random_v4(id)
                &&& !has_branch_id(old(self).branches@, id)
                &&& branch_index(final(self).branches@, id) == old(self).branches@.len()
            },
            create_branch_outcome(old(self).branches@, final(self).branches@, name@, res),
            ids_distinct(old(self).branches@) ==> ids_distinct(final(self).branches@),
            names_distinct(old(self).branches@) ==> names_distinct(final(self).branches@),
            res matches Ok(id) && ids_distinct(old(self).branches@) && !has_branch_id(old(self).branches@, id)
                ==> ids_distinct(final(self).branches@),
    {
        if self.find_branch_index_by_name(&name).is_some() {
            return Err(GcError::ThingExist);
        }
        let id = fresh_uuid_for(&self.branches);
        let branch = Branch::with_id(name, id);
        let ghost old_bs = self.branches@;
        self.branches.push(branch);
        proof {
            assert(self.branches@.take(old_bs.len() as int) =~= old_bs);
            if names_distinct(old_bs) {
                lemma_append_keeps_names_distinct(old_bs, self.branches@);
            }
            if ids_distinct(old_bs) && !has_branch_id(old_bs, self.branches@.last().branch_id) {
                lemma_append_keeps_ids_distinct(old_bs, self.branches@);
            }
            law_fresh_id_is_found_last(old_bs, self.branches@, self.branches@.last().branch_id);
        }
        Ok(id)
    }

    /// Forks the branch named by `forked_on` at the message named by
    /// `forked_on_message` into a new branch called `name`, appended to the
    /// repository, and returns the new branch's id.
    ///
    /// Errors, each leaving the repository unchanged: `ThingExist` when
    /// `name` is taken; `StringNotFound` or `UuidNotFound` when no branch has
    /// the source name or id; `UuidNotFound` when the fork point is not in the
    /// source branch.
    pub fn fork_branch(&mut self, forked_on: StringOrUuid, forked_on_message: I64OrUuid, name: String) -> (res: Result<Uuid, GcError<C>>)
        requires
            !has_branch_name(old(self).branches@, name@) && has_source(old(self).branches@, forked_on)
                ==> !fork_aborts(
                old(self).branches@[source_index(old(self).branches@, forked_on)].messages@,
                forked_on_message,
            ),
        ensures
            final(self).name == old(self).name,
            fork_branch_outcome(old(self).branches@, final(self).branches@, forked_on, forked_on_message, name@, res),
            names_distinct(old(self).branches@) ==> names_distinct(final(self).branches@),
            res matches Ok(id) && ids_distinct(old(self).branches@) && !has_branch_id(old(self).branches@, id)
                ==> ids_distinct(final(self).branches@),
            ids_distinct(old(self).branches@) ==> ids_distinct(final(self).branches@),
    {
        if self.find_branch_index_by_name(&name).is_some() {
            return Err(GcError::ThingExist);
        }
        let found: Option<usize> = match &forked_on {
            StringOrUuid::Name(forked_on_name) => self.find_branch_index_by_name(forked_on_name),
            StringOrUuid::BranchId(forked_on_uuid) => match self.find_branch_index_by_uuid(forked_on_uuid) {
                Ok(i) => Some(i),
                Err(_) => None,
            },
        };
        let i = match found {
            Some(i) => i,
            None => {
                return match forked_on {
                    StringOrUuid::Name(_) => Err(GcError::StringNotFound),
                    StringOrUuid::BranchId(_) => Err(GcError::UuidNotFound),
                };
            },
        };
        let fresh = fresh_uuid_for(&self.branches);
        let new_branch = match self.branches[i].fork_with_id(name, forked_on_message, fresh) {
            Ok(b) => b,
            Err(e) => {
                return Err(e);
            },
        };
        let new_id = new_branch.branch_id;
        let ghost old_bs = self.branches@;
        self.branches.push(new_branch);
        proof {
            assert(self.branches@.take(old_bs.len() as int) =~= old_bs);
            if names_distinct(old_bs) {
                lemma_append_keeps_names_distinct(old_bs, self.branches@);
            }
            if ids_distinct(old_bs) && !has_branch_id(old_bs, self.branches@.last().branch_id) {
                lemma_append_keeps_ids_distinct(old_bs, self.branches@);
            }
            law_fresh_id_is_found_last(old_bs, self.branches@, self.branches@.last().branch_id);
        }
        Ok(new_id)
    }

    /// Removes the first branch with id `id`; `UuidNotFound`, with nothing
    /// changed, when there is none.
    pub fn remove_branch(&mut self, id: &Uuid) -> (res: Result<(), GcError<C>>)
        ensures
            final(self).name == old(self).name,
            res is Ok <==> has_branch_id(old(self).branches@, *id),
            res is Err ==> {
                &&& res == Err::<(), GcError<C>>(GcError::UuidNotFound)
                &&& final(self).branches@ == old(self).branches@
            },
            res is Ok ==> final(self).branches@ == old(self).branches@.remove(
                branch_index(old(self).branches@, *id),
            ),
            names_distinct(old(self).branches@) ==> names_distinct(final(self).branches@),
            ids_distinct(old(self).branches@) ==> ids_distinct(final(self).branches@),
    {
        let index = match self.find_branch_index_by_uuid(id) {
            Ok(i) => i,
            Err(e) => {
                return Err(e);
            },
        };
        let ghost old_bs = self.branches@;
        self.branches.remove(index);
        proof {
            let new_bs = self.branches@;
            if names_distinct(old_bs) {
                assert forall|a: int, b: int|
                    0 <= a < new_bs.len() && 0 <= b < new_bs.len() && a != b implies #[trigger] new_bs[a].name@
                    != #[trigger] new_bs[b].name@ by {
                    let oa = if a < index { a } else { a + 1 };
                    let ob = if b < index { b } else { b + 1 };
                    assert(new_bs[a] == old_bs[oa]);
                    assert(new_bs[b] == old_bs[ob]);
                }
            }
            if ids_distinct(old_bs) {
                assert forall|a: int, b: int|
                    0 <= a < new_bs.len() && 0 <= b < new_bs.len() && a != b implies #[trigger] new_bs[a].branch_id
                    != #[trigger] new_bs[b].branch_id by {
                    let oa = if a < index { a } else { a + 1 };
                    let ob = if b < index { b } else { b + 1 };
                    assert(new_bs[a] == old_bs[oa]);
                    assert(new_bs[b] == old_bs[ob]);
                }
            }
        }
        Ok(())
    }
}

} // verus!
