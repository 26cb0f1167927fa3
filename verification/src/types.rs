use vstd::prelude::*;

verus! {

/// A message or branch identifier: the 128-bit value of a UUID.
#[derive(Clone, Copy, Debug, PartialEq, Eq, Structural, Hash)]
pub struct Uuid(pub u128);

/// One entry of a conversation.
#[derive(Clone, Debug)]
pub struct Message<ChatType> {
    pub uuid: Uuid,
    pub content: ChatType,
}

/// Errors of the branch operations.
#[derive(Debug)]
pub enum GcError<ChatType> {
    UuidNotFound,
    StringNotFound,
    MergeRecordNotFound,
    ThingExist,
    /// A human merge found both sides diverged after the fork line; it carries
    /// copies of the source and the target branch as they were.
    GcMergeHumanError(Branch<ChatType>, Branch<ChatType>),
}

/// Where a branch comes from: an original branch, or a fork of
/// `(parent branch id, message id of the fork line)`.
#[derive(Clone, Copy, Debug, PartialEq, Eq, Structural)]
pub enum IsForked {
    False,
    True(Uuid, Uuid),
}

/// A named, ordered list of messages.
#[derive(Clone, Debug)]
pub struct Branch<ChatType> {
    pub messages: Vec<Message<ChatType>>,
    pub is_forked: IsForked,
    pub branch_id: Uuid,
    pub name: String,
}

/// The repository: a named collection of branches.
#[derive(Clone, Debug)]
pub struct Root<ChatType> {
    pub branches: Vec<Branch<ChatType>>,
    pub name: String,
}

/// Names a branch either by its name or by its id.
#[derive(Clone, Debug)]
pub enum StringOrUuid {
    Name(String),
    BranchId(Uuid),
}

/// Names a message either by its position in a branch or by its id.
#[derive(Clone, Copy, Debug)]
pub enum I64OrUuid {
    Index(i64),
    MessageId(Uuid),
}

/// How `merge_tool` merges.
#[derive(Clone, Copy, Debug, PartialEq, Eq, Structural)]
pub enum MergeMode {
    Force,
    Human,
}

/// How `merge_manual` resolves a merge.
#[derive(Debug)]
pub enum ManualMergeAction<ChatType> {
    /// Overwrite the target with the source.
    UseFrom,
    /// Keep the target unchanged.
    UseTo,
    /// Replace the target's messages and clear its fork record.
    UseMessages(Vec<Message<ChatType>>),
}

// ---------------------------------------------------------------------------
// Copies
// ---------------------------------------------------------------------------

/// `b` is a copy of `a`: same id, content a clone of `a`'s.
pub open spec fn message_cloned<C: Clone>(a: Message<C>, b: Message<C>) -> bool {
    a.uuid == b.uuid && cloned(a.content, b.content)
}

/// `b` is an element-wise copy of `a`.
pub open spec fn messages_cloned<C: Clone>(a: Seq<Message<C>>, b: Seq<Message<C>>) -> bool {
    &&& a.len() == b.len()
    &&& forall|i: int| 0 <= i < a.len() ==> #[trigger] message_cloned(a[i], b[i])
}

/// `b` is a copy of branch `a`.
pub open spec fn branch_cloned<C: Clone>(a: Branch<C>, b: Branch<C>) -> bool {
    &&& messages_cloned(a.messages@, b.messages@)
    &&& b.is_forked == a.is_forked
    &&& b.branch_id == a.branch_id
    &&& b.name == a.name
}

// ---------------------------------------------------------------------------
// Messages of a branch
// ---------------------------------------------------------------------------

/// The id of the last message, if there is one.
pub open spec fn last_uuid<C>(ms: Seq<Message<C>>) -> Option<Uuid> {
    if ms.len() == 0 {
        None
    } else {
        Some(ms.last().uuid)
    }
}

/// Some message of `ms` has id `id`.
pub open spec fn has_message<C>(ms: Seq<Message<C>>, id: Uuid) -> bool {
    exists|k: int| 0 <= k < ms.len() && #[trigger] ms[k].uuid == id
}

/// `k` is the first position of a message with id `id`.
pub open spec fn is_first_message_with<C>(ms: Seq<Message<C>>, id: Uuid, k: int) -> bool {
    &&& 0 <= k < ms.len()
    &&& ms[k].uuid == id
    &&& forall|j: int| 0 <= j < k ==> #[trigger] ms[j].uuid != id
}

/// The first position of a message with id `id` (meaningful when `has_message`).
pub open spec fn message_index<C>(ms: Seq<Message<C>>, id: Uuid) -> int {
    choose|k: int| is_first_message_with(ms, id, k)
}

/// The fork point named by `at` exists in `ms`.
pub open spec fn has_fork_point<C>(ms: Seq<Message<C>>, at: I64OrUuid) -> bool {
    match at {
        I64OrUuid::Index(i) => 0 <= i < ms.len(),
        I64OrUuid::MessageId(m) => has_message(ms, m),
    }
}

/// The position of the fork point named by `at` (meaningful when `has_fork_point`).
pub open spec fn fork_point<C>(ms: Seq<Message<C>>, at: I64OrUuid) -> int {
    match at {
        I64OrUuid::Index(i) => i as int,
        I64OrUuid::MessageId(m) => message_index(ms, m),
    }
}

/// The inputs on which forking at a position aborts: a negative position, or
/// any position on a branch without messages.
pub open spec fn fork_aborts<C>(ms: Seq<Message<C>>, at: I64OrUuid) -> bool {
    match at {
        I64OrUuid::Index(i) => ms.len() == 0 || i < 0,
        I64OrUuid::MessageId(_) => false,
    }
}

/// `b` is the branch named `name` forked from `src` at position `k`: it holds
/// copies of `src`'s messages up to and including `k`, and records `src` and
/// the id of the message at `k` as its origin.
pub open spec fn forked_from<C: Clone>(b: Branch<C>, src: Branch<C>, k: int, name: Seq<char>) -> bool {
    &&& 0 <= k < src.messages@.len()
    &&& messages_cloned(src.messages@.take(k + 1), b.messages@)
    &&& b.is_forked == IsForked::True(src.branch_id, src.messages@[k].uuid)
    &&& b.name@ == name
}

/// `b` is a newly made branch named `name`: no messages, no fork record.
pub open spec fn is_new_branch<C>(b: Branch<C>, name: Seq<char>) -> bool {
    &&& b.messages@.len() == 0
    &&& b.is_forked == IsForked::False
    &&& b.name@ == name
}

// ---------------------------------------------------------------------------
// Branches of a root
// ---------------------------------------------------------------------------

/// Some branch has id `id`.
pub open spec fn has_branch_id<C>(bs: Seq<Branch<C>>, id: Uuid) -> bool {
    exists|i: int| 0 <= i < bs.len() && #[trigger] bs[i].branch_id == id
}

/// `i` is the first position of a branch with id `id`.
pub open spec fn is_first_with_id<C>(bs: Seq<Branch<C>>, id: Uuid, i: int) -> bool {
    &&& 0 <= i < bs.len()
    &&& bs[i].branch_id == id
    &&& forall|j: int| 0 <= j < i ==> #[trigger] bs[j].branch_id != id
}

/// The first position of a branch with id `id` (meaningful when `has_branch_id`).
pub open spec fn branch_index<C>(bs: Seq<Branch<C>>, id: Uuid) -> int {
    choose|i: int| is_first_with_id(bs, id, i)
}

/// Some branch is named `name`.
pub open spec fn has_branch_name<C>(bs: Seq<Branch<C>>, name: Seq<char>) -> bool {
    exists|i: int| 0 <= i < bs.len() && #[trigger] bs[i].name@ == name
}

/// `i` is the first position of a branch named `name`.
pub open spec fn is_first_with_name<C>(bs: Seq<Branch<C>>, name: Seq<char>, i: int) -> bool {
    &&& 0 <= i < bs.len()
    &&& bs[i].name@ == name
    &&& forall|j: int| 0 <= j < i ==> #[trigger] bs[j].name@ != name
}

/// The first position of a branch named `name` (meaningful when `has_branch_name`).
pub open spec fn name_index<C>(bs: Seq<Branch<C>>, name: Seq<char>) -> int {
    choose|i: int| is_first_with_name(bs, name, i)
}

/// The branch named by `src` exists.
pub open spec fn has_source<C>(bs: Seq<Branch<C>>, src: StringOrUuid) -> bool {
    match src {
        StringOrUuid::Name(n) => has_branch_name(bs, n@),
        StringOrUuid::BranchId(u) => has_branch_id(bs, u),
    }
}

/// The position of the first branch named by `src`.
pub open spec fn source_index<C>(bs: Seq<Branch<C>>, src: StringOrUuid) -> int {
    match src {
        StringOrUuid::Name(n) => name_index(bs, n@),
        StringOrUuid::BranchId(u) => branch_index(bs, u),
    }
}

/// The error for a source branch that is not there.
pub open spec fn missing_source_error<C>(src: StringOrUuid) -> GcError<C> {
    match src {
        StringOrUuid::Name(_) => GcError::StringNotFound,
        StringOrUuid::BranchId(_) => GcError::UuidNotFound,
    }
}

/// No two branches share a name.
pub open spec fn names_distinct<C>(bs: Seq<Branch<C>>) -> bool {
    forall|i: int, j: int|
        0 <= i < bs.len() && 0 <= j < bs.len() && i != j ==> #[trigger] bs[i].name@ != #[trigger] bs[j].name@
}

/// No two branches share an id.
pub open spec fn ids_distinct<C>(bs: Seq<Branch<C>>) -> bool {
    forall|i: int, j: int|
        0 <= i < bs.len() && 0 <= j < bs.len() && i != j ==> #[trigger] bs[i].branch_id != #[trigger] bs[j].branch_id
}

/// The ids of the branches, in order.
pub open spec fn branch_ids<C>(bs: Seq<Branch<C>>) -> Seq<Uuid> {
    bs.map_values(|b: Branch<C>| b.branch_id)
}

/// The names of the branches, in order.
pub open spec fn branch_names<C>(bs: Seq<Branch<C>>) -> Seq<Seq<char>> {
    bs.map_values(|b: Branch<C>| b.name@)
}

/// `new` is `old` with one more branch at the end, `last`.
pub open spec fn appended<C>(old: Seq<Branch<C>>, new: Seq<Branch<C>>) -> bool {
    &&& new.len() == old.len() + 1
    &&& new.take(old.len() as int) == old
}

/// `new` is `old` where the branch at `ti` now holds copies of the messages
/// of the branch at `fi`, no fork record, and keeps its own id and name.
pub open spec fn overwritten<C: Clone>(old: Seq<Branch<C>>, new: Seq<Branch<C>>, fi: int, ti: int) -> bool {
    &&& 0 <= fi < old.len()
    &&& 0 <= ti < old.len()
    &&& new.len() == old.len()
    &&& forall|j: int| 0 <= j < old.len() && j != ti ==> #[trigger] new[j] == old[j]
    &&& messages_cloned(old[fi].messages@, new[ti].messages@)
    &&& new[ti].is_forked == IsForked::False
    &&& new[ti].branch_id == old[ti].branch_id
    &&& new[ti].name == old[ti].name
}

} // verus!
