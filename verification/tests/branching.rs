use gitchat::{
    Branch, GcError, I64OrUuid, IsForked, ManualMergeAction, MergeMode, Message, Root, StringOrUuid,
    Uuid,
};

fn new_uuid() -> Uuid {
    Uuid(uuid::Uuid::new_v4().as_u128())
}

fn ok<T>(r: Result<T, GcError<String>>) -> T {
    match r {
        Ok(v) => v,
        Err(_) => panic!("expected Ok(..)"),
    }
}

fn make_msg(content: &str) -> Message<String> {
    Message { uuid: new_uuid(), content: content.to_string() }
}

fn push_message(root: &mut Root<String>, branch_id: Uuid, content: &str) -> Uuid {
    let msg = make_msg(content);
    let msg_id = msg.uuid;
    let idx = ok(root.find_branch_index_by_uuid(&branch_id));
    root.branches[idx].messages.push(msg);
    msg_id
}

#[test]
fn create_branch_rejects_duplicate_name() {
    let mut root = Root::<String>::new("repo".to_string());
    assert_eq!(root.name, "repo");
    let id = ok(root.create_branch("main".to_string()));
    assert!(root.find_branch_index_by_uuid(&id).is_ok());

    let err = root.create_branch("main".to_string());
    assert!(matches!(err, Err(GcError::ThingExist)));
}

#[test]
fn fork_branch_by_name_and_by_id() {
    let mut root = Root::<String>::new("repo".to_string());
    let main_id = ok(root.create_branch("main".to_string()));
    let first = push_message(&mut root, main_id, "m1");
    push_message(&mut root, main_id, "m2");

    let dev_id = ok(root.fork_branch(
        StringOrUuid::Name("main".to_string()),
        I64OrUuid::MessageId(first),
        "dev".to_string(),
    ));
    let idx = ok(root.find_branch_index_by_uuid(&dev_id));
    assert_eq!(root.branches[idx].messages.len(), 1);
    assert!(matches!(
        root.branches[idx].is_forked,
        IsForked::True(parent, line) if parent == main_id && line == first
    ));

    let feature_id = ok(root.fork_branch(
        StringOrUuid::BranchId(main_id),
        I64OrUuid::Index(1),
        "feature".to_string(),
    ));
    let feature_idx = ok(root.find_branch_index_by_uuid(&feature_id));
    assert_eq!(root.branches[feature_idx].messages.len(), 2);
}

#[test]
fn fork_branch_reports_not_found_errors() {
    let mut root = Root::<String>::new("repo".to_string());
    let main_id = ok(root.create_branch("main".to_string()));
    push_message(&mut root, main_id, "m1");

    let by_name = root.fork_branch(
        StringOrUuid::Name("missing".to_string()),
        I64OrUuid::Index(0),
        "dev".to_string(),
    );
    assert!(matches!(by_name, Err(GcError::StringNotFound)));

    let by_id = root.fork_branch(
        StringOrUuid::BranchId(new_uuid()),
        I64OrUuid::Index(0),
        "dev2".to_string(),
    );
    assert!(matches!(by_id, Err(GcError::UuidNotFound)));
}

#[test]
fn merge_force_overwrites_target_but_keeps_target_identity() {
    let mut root = Root::<String>::new("repo".to_string());
    let from_id = ok(root.create_branch("from".to_string()));
    let to_id = ok(root.create_branch("to".to_string()));

    push_message(&mut root, from_id, "f1");
    push_message(&mut root, from_id, "f2");
    push_message(&mut root, to_id, "t1");

    ok(root.merge_tool(from_id, to_id, MergeMode::Force));

    let to_idx = ok(root.find_branch_index_by_uuid(&to_id));
    assert_eq!(root.branches[to_idx].name, "to");
    assert_eq!(root.branches[to_idx].branch_id, to_id);
    assert_eq!(root.branches[to_idx].messages.len(), 2);
    assert!(matches!(root.branches[to_idx].is_forked, IsForked::False));
    assert_eq!(root.branches[to_idx].messages[0].content, "f1");
}

#[test]
fn merge_human_fast_forward_child_to_parent() {
    let mut root = Root::<String>::new("repo".to_string());
    let main_id = ok(root.create_branch("main".to_string()));
    push_message(&mut root, main_id, "m1");
    let fork_line = push_message(&mut root, main_id, "m2");

    let dev_id = ok(root.fork_branch(
        StringOrUuid::BranchId(main_id),
        I64OrUuid::MessageId(fork_line),
        "dev".to_string(),
    ));
    push_message(&mut root, dev_id, "m3-dev");

    ok(root.merge_tool(dev_id, main_id, MergeMode::Human));

    let main_idx = ok(root.find_branch_index_by_uuid(&main_id));
    assert_eq!(root.branches[main_idx].messages.len(), 3);
    assert_eq!(root.branches[main_idx].messages[2].content, "m3-dev");
}

#[test]
fn merge_human_conflict_requires_manual_resolution() {
    let mut root = Root::<String>::new("repo".to_string());
    let main_id = ok(root.create_branch("main".to_string()));
    let fork_line = push_message(&mut root, main_id, "m1");
    push_message(&mut root, main_id, "m2-main");

    let dev_id = ok(root.fork_branch(
        StringOrUuid::BranchId(main_id),
        I64OrUuid::MessageId(fork_line),
        "dev".to_string(),
    ));
    push_message(&mut root, dev_id, "m2-dev");
    push_message(&mut root, main_id, "m3-main");

    let result = root.merge_tool(dev_id, main_id, MergeMode::Human);
    assert!(matches!(result, Err(GcError::GcMergeHumanError(_, _))));
}

#[test]
fn merge_human_without_relationship_returns_merge_record_not_found() {
    let mut root = Root::<String>::new("repo".to_string());
    let a_id = ok(root.create_branch("a".to_string()));
    let b_id = ok(root.create_branch("b".to_string()));
    push_message(&mut root, a_id, "a1");
    push_message(&mut root, b_id, "b1");

    let result = root.merge_tool(a_id, b_id, MergeMode::Human);
    assert!(matches!(result, Err(GcError::MergeRecordNotFound)));
}

#[test]
fn manual_merge_modes_work_as_expected() {
    let mut root = Root::<String>::new("repo".to_string());
    let main_id = ok(root.create_branch("main".to_string()));
    let fork_line = push_message(&mut root, main_id, "m1");
    let dev_id = ok(root.fork_branch(
        StringOrUuid::BranchId(main_id),
        I64OrUuid::MessageId(fork_line),
        "dev".to_string(),
    ));
    push_message(&mut root, dev_id, "m2-dev");

    ok(root.merge_manual(dev_id, main_id, ManualMergeAction::UseTo));
    let main_idx = ok(root.find_branch_index_by_uuid(&main_id));
    assert_eq!(root.branches[main_idx].messages.len(), 1);

    ok(root.merge_manual(dev_id, main_id, ManualMergeAction::UseFrom));
    let main_idx = ok(root.find_branch_index_by_uuid(&main_id));
    assert_eq!(root.branches[main_idx].messages.len(), 2);

    let custom = vec![make_msg("custom-1"), make_msg("custom-2"), make_msg("custom-3")];
    ok(root.merge_manual(dev_id, main_id, ManualMergeAction::UseMessages(custom)));
    let main_idx = ok(root.find_branch_index_by_uuid(&main_id));
    assert_eq!(root.branches[main_idx].messages.len(), 3);
    assert_eq!(root.branches[main_idx].messages[0].content, "custom-1");
    assert!(matches!(root.branches[main_idx].is_forked, IsForked::False));
}

#[test]
fn remove_branch_deletes_target() {
    let mut root = Root::<String>::new("repo".to_string());
    let main_id = ok(root.create_branch("main".to_string()));
    let dev_id = ok(root.create_branch("dev".to_string()));

    ok(root.remove_branch(&dev_id));
    assert!(root.find_branch_index_by_uuid(&dev_id).is_err());
    assert!(root.find_branch_index_by_uuid(&main_id).is_ok());
}

// ---------------------------------------------------------------------------
// Further cases
// ---------------------------------------------------------------------------

fn msg_with(id: u128, content: &str) -> Message<String> {
    Message { uuid: Uuid(id), content: content.to_string() }
}

fn branch_with(id: u128, name: &str, ids: &[u128], forked: IsForked) -> Branch<String> {
    let mut b = Branch::<String>::with_id(name.to_string(), Uuid(id));
    for (k, m) in ids.iter().enumerate() {
        b.messages.push(msg_with(*m, &format!("c{}", k)));
    }
    b.is_forked = forked;
    b
}

fn root_with(branches: Vec<Branch<String>>) -> Root<String> {
    let mut root = Root::<String>::new("r".to_string());
    root.branches = branches;
    root
}

fn message_ids(b: &Branch<String>) -> Vec<u128> {
    b.messages.iter().map(|m| m.uuid.0).collect()
}

#[test]
fn new_branch_is_empty_and_unforked() {
    let b = Branch::<String>::with_id("x".to_string(), Uuid(7));
    assert_eq!(b.branch_id, Uuid(7));
    assert_eq!(b.name, "x");
    assert!(b.messages.is_empty());
    assert_eq!(b.is_forked, IsForked::False);
}

#[test]
fn fresh_branch_ids_are_random_v4() {
    let a = Branch::<String>::new("a".to_string());
    let b = Branch::<String>::new("b".to_string());
    for id in [a.branch_id, b.branch_id] {
        assert_eq!((id.0 >> 76) & 0xf, 4);
        assert_eq!((id.0 >> 62) & 0x3, 2);
    }
    assert_ne!(a.branch_id, b.branch_id);
}

#[test]
fn fork_with_id_by_message_copies_prefix() {
    let src = branch_with(1, "main", &[10, 11, 12], IsForked::False);
    let f = ok(src.fork_with_id("dev".to_string(), I64OrUuid::MessageId(Uuid(11)), Uuid(99)));
    assert_eq!(f.branch_id, Uuid(99));
    assert_eq!(f.name, "dev");
    assert_eq!(message_ids(&f), vec![10, 11]);
    assert_eq!(f.messages[1].content, "c1");
    assert_eq!(f.is_forked, IsForked::True(Uuid(1), Uuid(11)));
}

#[test]
fn fork_with_id_by_message_takes_first_match() {
    let src = branch_with(1, "main", &[10, 11, 10], IsForked::False);
    let f = ok(src.fork_with_id("dev".to_string(), I64OrUuid::MessageId(Uuid(10)), Uuid(2)));
    assert_eq!(message_ids(&f), vec![10]);
}

#[test]
fn fork_with_id_by_index() {
    let src = branch_with(1, "main", &[10, 11, 12], IsForked::False);
    let f = ok(src.fork_with_id("dev".to_string(), I64OrUuid::Index(0), Uuid(2)));
    assert_eq!(message_ids(&f), vec![10]);
    assert_eq!(f.is_forked, IsForked::True(Uuid(1), Uuid(10)));
    let g = ok(src.fork_with_id("dev".to_string(), I64OrUuid::Index(2), Uuid(3)));
    assert_eq!(message_ids(&g), vec![10, 11, 12]);
    assert_eq!(g.is_forked, IsForked::True(Uuid(1), Uuid(12)));
}

#[test]
fn fork_with_id_missing_point_is_uuid_not_found() {
    let src = branch_with(1, "main", &[10, 11], IsForked::False);
    assert!(matches!(
        src.fork_with_id("dev".to_string(), I64OrUuid::Index(2), Uuid(2)),
        Err(GcError::UuidNotFound)
    ));
    assert!(matches!(
        src.fork_with_id("dev".to_string(), I64OrUuid::Index(i64::MAX), Uuid(2)),
        Err(GcError::UuidNotFound)
    ));
    assert!(matches!(
        src.fork_with_id("dev".to_string(), I64OrUuid::MessageId(Uuid(12)), Uuid(2)),
        Err(GcError::UuidNotFound)
    ));
    let empty = branch_with(1, "e", &[], IsForked::False);
    assert!(matches!(
        empty.fork("dev".to_string(), I64OrUuid::MessageId(Uuid(12))),
        Err(GcError::UuidNotFound)
    ));
}

#[test]
fn fork_branch_errors_leave_root_unchanged() {
    let mut root = root_with(vec![
        branch_with(1, "main", &[10], IsForked::False),
        branch_with(2, "dev", &[], IsForked::False),
    ]);
    let taken = root.fork_branch(
        StringOrUuid::Name("main".to_string()),
        I64OrUuid::Index(0),
        "dev".to_string(),
    );
    assert!(matches!(taken, Err(GcError::ThingExist)));
    let no_point = root.fork_branch(
        StringOrUuid::BranchId(Uuid(1)),
        I64OrUuid::MessageId(Uuid(77)),
        "x".to_string(),
    );
    assert!(matches!(no_point, Err(GcError::UuidNotFound)));
    assert_eq!(root.branches.len(), 2);
}

#[test]
fn fork_branch_appends_forked_branch() {
    let mut root = root_with(vec![branch_with(1, "main", &[10, 11], IsForked::False)]);
    let id = ok(root.fork_branch(
        StringOrUuid::BranchId(Uuid(1)),
        I64OrUuid::Index(0),
        "dev".to_string(),
    ));
    assert_eq!(root.branches.len(), 2);
    assert_eq!(root.branches[1].branch_id, id);
    assert_eq!(root.branches[1].name, "dev");
    assert_eq!(message_ids(&root.branches[1]), vec![10]);
    assert_eq!(root.branches[1].is_forked, IsForked::True(Uuid(1), Uuid(10)));
    assert_eq!(message_ids(&root.branches[0]), vec![10, 11]);
}

#[test]
fn find_branch_index_returns_first_match() {
    let root = root_with(vec![
        branch_with(5, "a", &[], IsForked::False),
        branch_with(6, "b", &[], IsForked::False),
        branch_with(6, "c", &[], IsForked::False),
    ]);
    assert!(matches!(root.find_branch_index_by_uuid(&Uuid(6)), Ok(1)));
    assert!(matches!(root.find_branch_index_by_uuid(&Uuid(5)), Ok(0)));
    assert!(matches!(root.find_branch_index_by_uuid(&Uuid(7)), Err(GcError::UuidNotFound)));
}

#[test]
fn remove_missing_branch_is_uuid_not_found() {
    let mut root = root_with(vec![branch_with(5, "a", &[], IsForked::False)]);
    assert!(matches!(root.remove_branch(&Uuid(9)), Err(GcError::UuidNotFound)));
    assert_eq!(root.branches.len(), 1);
}

#[test]
fn merge_base_errors_and_identity() {
    let mut root = root_with(vec![
        branch_with(1, "a", &[10, 11], IsForked::True(Uuid(3), Uuid(10))),
        branch_with(2, "b", &[20], IsForked::True(Uuid(4), Uuid(20))),
    ]);
    assert!(matches!(root.merge_base(Uuid(9), Uuid(2)), Err(GcError::UuidNotFound)));
    assert!(matches!(root.merge_base(Uuid(1), Uuid(9)), Err(GcError::UuidNotFound)));
    ok(root.merge_base(Uuid(1), Uuid(2)));
    assert_eq!(root.branches[1].branch_id, Uuid(2));
    assert_eq!(root.branches[1].name, "b");
    assert_eq!(message_ids(&root.branches[1]), vec![10, 11]);
    assert_eq!(root.branches[1].is_forked, IsForked::False);
    assert_eq!(root.branches[0].is_forked, IsForked::True(Uuid(3), Uuid(10)));
}

#[test]
fn merge_tool_same_ids_is_a_no_op() {
    let mut root = root_with(vec![branch_with(1, "a", &[10], IsForked::True(Uuid(3), Uuid(10)))]);
    ok(root.merge_tool(Uuid(9), Uuid(9), MergeMode::Force));
    ok(root.merge_tool(Uuid(1), Uuid(1), MergeMode::Force));
    assert_eq!(root.branches[0].is_forked, IsForked::True(Uuid(3), Uuid(10)));
}

#[test]
fn merge_tool_missing_ids_are_uuid_not_found() {
    let mut root = root_with(vec![branch_with(1, "a", &[10], IsForked::False)]);
    assert!(matches!(root.merge_tool(Uuid(1), Uuid(2), MergeMode::Human), Err(GcError::UuidNotFound)));
    assert!(matches!(root.merge_tool(Uuid(2), Uuid(1), MergeMode::Force), Err(GcError::UuidNotFound)));
}

#[test]
fn merge_human_child_without_news_keeps_parent() {
    // child forked at 10, parent moved on to 11, child unchanged
    let mut root = root_with(vec![
        branch_with(1, "main", &[10, 11], IsForked::False),
        branch_with(2, "dev", &[10], IsForked::True(Uuid(1), Uuid(10))),
    ]);
    ok(root.merge_tool(Uuid(2), Uuid(1), MergeMode::Human));
    assert_eq!(message_ids(&root.branches[0]), vec![10, 11]);
}

#[test]
fn merge_human_parent_into_child() {
    // parent has nothing new since the fork: child is kept
    let mut root = root_with(vec![
        branch_with(1, "main", &[10], IsForked::False),
        branch_with(2, "dev", &[10, 12], IsForked::True(Uuid(1), Uuid(10))),
    ]);
    ok(root.merge_tool(Uuid(1), Uuid(2), MergeMode::Human));
    assert_eq!(message_ids(&root.branches[1]), vec![10, 12]);
    assert_eq!(root.branches[1].is_forked, IsForked::True(Uuid(1), Uuid(10)));

    // child has nothing new since the fork: it takes the parent
    let mut root = root_with(vec![
        branch_with(1, "main", &[10, 11], IsForked::False),
        branch_with(2, "dev", &[10], IsForked::True(Uuid(1), Uuid(10))),
    ]);
    ok(root.merge_tool(Uuid(1), Uuid(2), MergeMode::Human));
    assert_eq!(message_ids(&root.branches[1]), vec![10, 11]);
    assert_eq!(root.branches[1].is_forked, IsForked::False);
    assert_eq!(root.branches[1].name, "dev");

    // both moved on: conflict, nothing changes
    let mut root = root_with(vec![
        branch_with(1, "main", &[10, 11], IsForked::False),
        branch_with(2, "dev", &[10, 12], IsForked::True(Uuid(1), Uuid(10))),
    ]);
    let r = root.merge_tool(Uuid(1), Uuid(2), MergeMode::Human);
    assert!(matches!(r, Err(GcError::GcMergeHumanError(_, _))));
    assert_eq!(message_ids(&root.branches[1]), vec![10, 12]);
}

#[test]
fn merge_human_siblings() {
    let base = |f: &[u128], t: &[u128]| {
        root_with(vec![
            branch_with(1, "main", &[10, 11], IsForked::False),
            branch_with(2, "a", f, IsForked::True(Uuid(1), Uuid(10))),
            branch_with(3, "b", t, IsForked::True(Uuid(1), Uuid(11))),
        ])
    };
    // source has nothing new: target kept
    let mut root = base(&[10], &[10, 11, 30]);
    ok(root.merge_tool(Uuid(2), Uuid(3), MergeMode::Human));
    assert_eq!(message_ids(&root.branches[2]), vec![10, 11, 30]);
    // target has nothing new: it takes the source
    let mut root = base(&[10, 20], &[10, 11]);
    ok(root.merge_tool(Uuid(2), Uuid(3), MergeMode::Human));
    assert_eq!(message_ids(&root.branches[2]), vec![10, 20]);
    assert_eq!(root.branches[2].branch_id, Uuid(3));
    // both moved on: conflict
    let mut root = base(&[10, 20], &[10, 11, 30]);
    assert!(matches!(
        root.merge_tool(Uuid(2), Uuid(3), MergeMode::Human),
        Err(GcError::GcMergeHumanError(_, _))
    ));
}

#[test]
fn merge_human_conflict_carries_both_branches() {
    let mut root = root_with(vec![
        branch_with(1, "main", &[10, 11], IsForked::False),
        branch_with(2, "dev", &[10, 12], IsForked::True(Uuid(1), Uuid(10))),
    ]);
    match root.merge_tool(Uuid(2), Uuid(1), MergeMode::Human) {
        Err(GcError::GcMergeHumanError(a, b)) => {
            assert_eq!(a.branch_id, Uuid(2));
            assert_eq!(a.name, "dev");
            assert_eq!(message_ids(&a), vec![10, 12]);
            assert_eq!(a.is_forked, IsForked::True(Uuid(1), Uuid(10)));
            assert_eq!(b.branch_id, Uuid(1));
            assert_eq!(message_ids(&b), vec![10, 11]);
        },
        _ => panic!("expected a conflict"),
    }
}

#[test]
fn merge_human_forked_from_other_parents_is_no_record() {
    let mut root = root_with(vec![
        branch_with(1, "a", &[10], IsForked::True(Uuid(7), Uuid(10))),
        branch_with(2, "b", &[20], IsForked::True(Uuid(8), Uuid(20))),
    ]);
    assert!(matches!(
        root.merge_tool(Uuid(1), Uuid(2), MergeMode::Human),
        Err(GcError::MergeRecordNotFound)
    ));
}

#[test]
fn merge_manual_errors_and_other_branches() {
    let mut root = root_with(vec![
        branch_with(1, "a", &[10], IsForked::False),
        branch_with(2, "b", &[20], IsForked::True(Uuid(1), Uuid(10))),
        branch_with(3, "c", &[30], IsForked::False),
    ]);
    assert!(matches!(
        root.merge_manual(Uuid(9), Uuid(2), ManualMergeAction::UseTo),
        Err(GcError::UuidNotFound)
    ));
    assert!(matches!(
        root.merge_manual(Uuid(1), Uuid(9), ManualMergeAction::UseTo),
        Err(GcError::UuidNotFound)
    ));
    ok(root.merge_manual(Uuid(5), Uuid(5), ManualMergeAction::UseFrom));
    ok(root.merge_manual(Uuid(1), Uuid(2), ManualMergeAction::UseMessages(vec![msg_with(40, "x")])));
    assert_eq!(message_ids(&root.branches[1]), vec![40]);
    assert_eq!(root.branches[1].is_forked, IsForked::False);
    assert_eq!(root.branches[1].name, "b");
    assert_eq!(message_ids(&root.branches[0]), vec![10]);
    assert_eq!(message_ids(&root.branches[2]), vec![30]);
}

// Laws on concrete values

#[test]
fn law_created_branch_is_found_by_id_and_name() {
    let mut root = root_with(vec![branch_with(1, "a", &[], IsForked::False)]);
    let id = ok(root.create_branch("b".to_string()));
    assert!(matches!(root.find_branch_index_by_uuid(&id), Ok(1)));
    assert!(matches!(root.create_branch("b".to_string()), Err(GcError::ThingExist)));
}

#[test]
fn law_removed_branch_is_gone_others_stay() {
    let mut root = root_with(vec![
        branch_with(1, "a", &[], IsForked::False),
        branch_with(2, "b", &[], IsForked::False),
        branch_with(3, "c", &[], IsForked::False),
    ]);
    ok(root.remove_branch(&Uuid(2)));
    assert!(root.find_branch_index_by_uuid(&Uuid(2)).is_err());
    assert!(matches!(root.find_branch_index_by_uuid(&Uuid(1)), Ok(0)));
    assert!(matches!(root.find_branch_index_by_uuid(&Uuid(3)), Ok(1)));
}

#[test]
fn law_merges_keep_ids_and_names() {
    let mut root = root_with(vec![
        branch_with(1, "a", &[10], IsForked::False),
        branch_with(2, "b", &[20], IsForked::False),
    ]);
    ok(root.merge_tool(Uuid(1), Uuid(2), MergeMode::Force));
    ok(root.merge_manual(Uuid(2), Uuid(1), ManualMergeAction::UseFrom));
    let ids: Vec<u128> = root.branches.iter().map(|b| b.branch_id.0).collect();
    let names: Vec<String> = root.branches.iter().map(|b| b.name.clone()).collect();
    assert_eq!(ids, vec![1, 2]);
    assert_eq!(names, vec!["a".to_string(), "b".to_string()]);
}

#[test]
fn law_fork_then_merge_back_never_conflicts() {
    // forked before the parent's last message: the parent is kept
    let mut root = root_with(vec![branch_with(1, "main", &[10, 11], IsForked::False)]);
    let dev = ok(root.fork_branch(StringOrUuid::BranchId(Uuid(1)), I64OrUuid::Index(0), "dev".to_string()));
    ok(root.merge_tool(dev, Uuid(1), MergeMode::Human));
    assert_eq!(message_ids(&root.branches[0]), vec![10, 11]);
    // forked at the parent's last message: the parent takes the child
    let dev2 = ok(root.fork_branch(StringOrUuid::BranchId(Uuid(1)), I64OrUuid::Index(1), "dev2".to_string()));
    ok(root.merge_tool(dev2, Uuid(1), MergeMode::Human));
    assert_eq!(message_ids(&root.branches[0]), vec![10, 11]);
    assert_eq!(root.branches[0].is_forked, IsForked::False);
}

#[test]
fn law_fast_forward_after_child_grows() {
    let mut root = root_with(vec![branch_with(1, "main", &[10, 11], IsForked::False)]);
    let dev = ok(root.fork_branch(StringOrUuid::Name("main".to_string()), I64OrUuid::Index(1), "dev".to_string()));
    root.branches[1].messages.push(msg_with(12, "x"));
    root.branches[1].messages.push(msg_with(13, "y"));
    ok(root.merge_tool(dev, Uuid(1), MergeMode::Human));
    assert_eq!(message_ids(&root.branches[0]), vec![10, 11, 12, 13]);
    assert_eq!(root.branches[0].name, "main");
}
