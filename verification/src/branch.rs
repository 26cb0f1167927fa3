use vstd::prelude::*;
use crate::ids::{fresh_uuid, fresh_uuid_other_than, is_random_v4};
use crate::types::{
    branch_cloned, fork_aborts, fork_point, forked_from, has_fork_point, has_message,
    is_first_message_with, is_new_branch, message_cloned, message_index, messages_cloned, Branch,
    GcError, I64OrUuid, IsForked, Message, Uuid,
};

verus! {

impl<C: Clone> Message<C> {
    /// A copy of the message: same id, cloned content.
    pub(crate) fn duplicate(&self) -> (r: Message<C>)
        ensures
            message_cloned(*self, r),
    {
        Message { uuid: self.uuid, content: self.content.clone() }
    }
}

/// Copies of the first `n` messages.
fn clone_prefix<C: Clone>(ms: &Vec<Message<C>>, n: usize) -> (r: Vec<Message<C>>)
    requires
        n <= ms@.len(),
    ensures
        messages_cloned(ms@.take(n as int), r@),
{
    let mut r: Vec<Message<C>> = Vec::new();
    let mut i: usize = 0;
    while i < n
        invariant
            i <= n,
            n <= ms@.len(),
            r@.len() == i,
            forall|j: int| 0 <= j < i ==> #[trigger] message_cloned(ms@[j], r@[j]),
        decreases n - i,
    {
        r.push(ms[i].duplicate());
        i += 1;
    }
    assert(messages_cloned(ms@.take(n as int), r@)) by {
        assert forall|j: int| 0 <= j < n implies #[trigger] message_cloned(ms@.take(n as int)[j], r@[j]) by {
            assert(message_cloned(ms@[j], r@[j]));
        }
    }
    r
}

/// The first position of a message with id `id`, if any.
fn first_message_index<C>(ms: &Vec<Message<C>>, id: Uuid) -> (r: Option<usize>)
    ensures
        match r {
            Some(k) => is_first_message_with(ms@, id, k as int),
            None => !has_message(ms@, id),
        },
{
    let mut i: usize = 0;
    while i < ms.len()
        invariant
            i <= ms@.len(),
            forall|j: int| 0 <= j < i ==> #[trigger] ms@[j].uuid != id,
        decreases ms@.len() - i,
    {
        if ms[i].uuid == id {
            return Some(i);
        }
        i += 1;
    }
    None
}

impl<C: Clone> Branch<C> {
    /// An empty, unforked branch named `name` with identifier `id`.
    pub fn with_id(name: String, id: Uuid) -> (b: Self)
        ensures
            is_new_branch(b, name@),
            b.branch_id == id,
            b.name == name,
    {
        Branch { messages: Vec::new(), is_forked: IsForked::False, branch_id: id, name }
    }

    /// An empty, unforked branch named `name` with a fresh random identifier.
    pub fn new(name: String) -> (b: Self)
        ensures
            is_new_branch(b, name@),
            b.name == name,
            is_random_v4(b.branch_id),
    {
        let id = fresh_uuid();
        Self::with_id(name, id)
    }

    /// A copy of the branch.
    pub(crate) fn duplicate(&self) -> (r: Self)
        ensures
            branch_cloned(*self, r),
    {
        assert(self.messages@.take(self.messages@.len() as int) =~= self.messages@);
        Branch {
            messages: clone_prefix(&self.messages, self.messages.len()),
            is_forked: self.is_forked,
            branch_id: self.branch_id,
            name: self.name.clone(),
        }
    }

    /// Forks the branch at `forked_on` into a new branch named `name` whose
    /// identifier is `new_id`.
    ///
    /// The new branch holds copies of the messages from the start up to and
    /// including the fork point, and records this branch and the id of the
    /// message at the fork point. A fork point that is not there gives
    /// `UuidNotFound`.
    pub fn fork_with_id(&self, name: String, forked_on: I64OrUuid, new_id: Uuid) -> (res: Result<Self, GcError<C>>)
        requires
            !fork_aborts(self.messages@, forked_on),
        ensures
            res is Ok <==> has_fork_point(self.messages@, forked_on),
            res is Err ==> res == Err::<Self, GcError<C>>(GcError::UuidNotFound),
            res matches Ok(b) ==> {
                &&& forked_from(b, *self, fork_point(self.messages@, forked_on), name@)
                &&& b.branch_id == new_id
            },
    {
        let ghost ms = self.messages@;
        let cut: usize;
        match forked_on {
            I64OrUuid::MessageId(msg_id) => {
                match first_message_index(&self.messages, msg_id) {
                    Some(k) => {
                        proof {
                            assert(is_first_message_with(ms, msg_id, k as int));
                            let c = message_index(ms, msg_id);
                            assert(is_first_message_with(ms, msg_id, c));
                            assert(c == k as int) by {
                                if c < k as int {
                                    assert(ms[c].uuid != msg_id);
                                } else if c > k as int {
                                    assert(ms[k as int].uuid != msg_id);
                                }
                            }
                        }
                        cut = k;
                    },
                    None => {
                        return Err(GcError::UuidNotFound);
                    },
                }
            },
            I64OrUuid::Index(msg_index) => {
                let last: usize = self.messages.len() - 1;
                if (last as u128) < (msg_index as u128) {
                    return Err(GcError::UuidNotFound);
                }
                cut = msg_index as usize;
            },
        }
        assert(cut < self.messages.len());
        let messages = clone_prefix(&self.messages, cut + 1);
        let line = self.messages[cut].uuid;
        Ok(Branch { messages, is_forked: IsForked::True(self.branch_id, line), branch_id: new_id, name })
    }

    /// Forks the branch at `forked_on` into a new branch named `name` with a
    /// fresh random identifier, never the identifier of this branch;
    /// otherwise as `fork_with_id`.
    pub fn fork(&self, name: String, forked_on: I64OrUuid) -> (res: Result<Self, GcError<C>>)
        requires
            !fork_aborts(self.messages@, forked_on),
        ensures
            res is Ok <==> has_fork_point(self.messages@, forked_on),
            res is Err ==> res == Err::<Self, GcError<C>>(GcError::UuidNotFound),
            res matches Ok(b) ==> {
                &&& forked_from(b, *self, fork_point(self.messages@, forked_on), name@)
                &&& is_random_v4(b.branch_id)
                &&& b.branch_id != self.branch_id
            },
    {
        let new_id = fresh_uuid_other_than(self.branch_id);
        self.fork_with_id(name, forked_on, new_id)
    }
}

} // verus!
