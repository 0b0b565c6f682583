use rebake::tf_chain::{
    FrameIndexer, TfTree, TfTreeError, chain_freshness, downward_path_edges, find_lowest_common_ancestor,
    path_is_fresh, populate_rows, required_edges, upstream_edges,
};

#[test]
fn interning_assigns_stable_dense_ids() {
    let mut indexer = FrameIndexer::new();
    assert_eq!(indexer.intern("map"), 0);
    assert_eq!(indexer.intern("base_link"), 1);
    assert_eq!(indexer.intern("map"), 0);
    assert_eq!(indexer.len(), 2);
    assert_eq!(indexer.id("base_link"), Some(1));
    assert_eq!(indexer.id("camera"), None);
    assert_eq!(indexer.name(1), Some("base_link"));
    assert_eq!(indexer.name(2), None);
}

fn sibling_tree() -> TfTree {
    // map(0) -> base(1) -> left(2), base(1) -> right(3)
    let mut tree = TfTree::with_frame_count(4);
    tree.set_parent(1, 0).unwrap();
    tree.set_parent(2, 1).unwrap();
    tree.set_parent(3, 1).unwrap();
    tree.add_child(0, 1);
    tree.add_child(1, 2);
    tree.add_child(1, 3);
    tree
}

#[test]
fn ancestry_walks_to_the_root() {
    let tree = sibling_tree();
    assert_eq!(tree.ancestor_chain_to_root(2).unwrap(), vec![2, 1, 0]);
    assert_eq!(tree.ancestor_chain_to_root(0).unwrap(), vec![0]);
    assert_eq!(tree.ancestor_chain_to_root(9), Err(TfTreeError::AncestryOutOfBounds(9)));
    assert_eq!(tree.children[1], vec![2, 3]);
}

#[test]
fn ancestry_detects_cycles_and_dangling_parents() {
    let mut tree = TfTree::with_frame_count(3);
    tree.set_parent(0, 1).unwrap();
    tree.set_parent(1, 2).unwrap();
    tree.set_parent(2, 0).unwrap();
    assert_eq!(tree.ancestor_chain_to_root(0), Err(TfTreeError::Cycle(0)));

    let mut dangling = TfTree::with_frame_count(2);
    dangling.set_parent(0, 7).unwrap();
    assert_eq!(dangling.ancestor_chain_to_root(0), Err(TfTreeError::AncestryOutOfBounds(7)));
}

#[test]
fn a_frame_keeps_one_parent() {
    let mut tree = TfTree::with_frame_count(3);
    tree.set_parent(2, 0).unwrap();
    assert!(tree.set_parent(2, 0).is_ok());
    assert_eq!(
        tree.set_parent(2, 1),
        Err(TfTreeError::MultipleParents { child: 2, existing: 0, new: 1 })
    );
    assert_eq!(tree.set_parent(5, 1), Err(TfTreeError::ChildOutOfBounds(5)));
    tree.reset();
    assert_eq!(tree.parents, vec![None, None, None]);
}

#[test]
fn lowest_common_ancestor_and_paths() {
    let tree = sibling_tree();
    let left = tree.ancestor_chain_to_root(2).unwrap();
    let right = tree.ancestor_chain_to_root(3).unwrap();
    assert_eq!(find_lowest_common_ancestor(&left, &right), Some((1, 1)));
    assert_eq!(downward_path_edges(&left, 1), vec![(1, 2)]);
    assert_eq!(downward_path_edges(&left, 2), vec![(0, 1), (1, 2)]);
    assert_eq!(downward_path_edges(&left, 0), vec![]);
    assert_eq!(find_lowest_common_ancestor(&[4, 5], &[6, 7]), None);
    let root = tree.ancestor_chain_to_root(0).unwrap();
    assert_eq!(find_lowest_common_ancestor(&left, &root), Some((2, 0)));
}

/// Interns the frames of `(parent, child)` rows and links each child to its parent.
fn build(rows: &[(&str, &str)]) -> (FrameIndexer, Vec<(u32, u32)>, TfTree, Result<(), TfTreeError>) {
    let mut indexer = FrameIndexer::new();
    let mut ids = Vec::new();
    for (parent, child) in rows {
        let c = indexer.intern(child);
        let p = indexer.intern(parent);
        ids.push((p, c));
    }
    let mut tree = TfTree::with_frame_count(indexer.len());
    let mut linked = Ok(());
    for &(p, c) in &ids {
        if let Err(e) = tree.set_parent(c, p) {
            linked = Err(e);
            break;
        }
        tree.add_child(p, c);
    }
    (indexer, ids, tree, linked)
}

#[test]
fn errors_when_frames_do_not_share_a_common_ancestor() {
    let (indexer, _, tree, linked) = build(&[("root_a", "left_tip"), ("root_b", "right_tip")]);
    assert!(linked.is_ok());
    let left = tree.ancestor_chain_to_root(indexer.id("left_tip").unwrap()).unwrap();
    let right = tree.ancestor_chain_to_root(indexer.id("right_tip").unwrap()).unwrap();
    assert_eq!(find_lowest_common_ancestor(&left, &right), None);
    assert_eq!(chain_freshness(&left, &right, &[]), None);
}

#[test]
fn errors_when_a_child_has_multiple_parents_in_one_row() {
    let (indexer, _, _, linked) = build(&[("root_a", "shared_tip"), ("root_b", "shared_tip")]);
    let shared = indexer.id("shared_tip").unwrap();
    let root_a = indexer.id("root_a").unwrap();
    let root_b = indexer.id("root_b").unwrap();
    assert_eq!(linked, Err(TfTreeError::MultipleParents { child: shared, existing: root_a, new: root_b }));
}

#[test]
fn chain_freshness_is_true_if_any_edge_on_path_is_fresh() {
    let (indexer, ids, tree, linked) = build(&[("base_link", "arm_link"), ("arm_link", "hand_link")]);
    assert!(linked.is_ok());
    let base = tree.ancestor_chain_to_root(indexer.id("base_link").unwrap()).unwrap();
    let hand = tree.ancestor_chain_to_root(indexer.id("hand_link").unwrap()).unwrap();
    // Only the arm -> hand edge is fresh.
    assert_eq!(chain_freshness(&base, &hand, &[ids[1]]), Some(true));
    assert_eq!(chain_freshness(&base, &hand, &[]), Some(false));
    assert!(path_is_fresh(&[ids[0], ids[1]], &[ids[0]]));
    assert!(!path_is_fresh(&[ids[0]], &[ids[1]]));
    // A frame's chain to itself has no edges.
    assert_eq!(chain_freshness(&hand, &hand, &ids), Some(false));
}

#[test]
fn upstream_and_required_edges_follow_parents() {
    let rows = [("base_link", "arm_link"), ("arm_link", "hand_link"), ("base_link", "head_link")];
    let (indexer, ids, _, _) = build(&rows);
    let hand = indexer.id("hand_link").unwrap();
    let mut up = upstream_edges(indexer.len(), &ids, hand);
    up.sort();
    let mut expected = vec![ids[0], ids[1]];
    expected.sort();
    assert_eq!(up, expected);
    let base = indexer.id("base_link").unwrap();
    assert!(upstream_edges(indexer.len(), &ids, base).is_empty());

    let mut edges = required_edges(&indexer, &ids, &[("head_link", "hand_link")]).unwrap();
    edges.sort();
    edges.dedup();
    let mut all = ids.clone();
    all.sort();
    assert_eq!(edges, all);

    let err = required_edges(&indexer, &ids, &[("base_link", "hand_link"), ("camera", "hand_link")]).unwrap_err();
    assert_eq!(err.reason(), "invalid data: source frame 'camera' is not present in tf_buffer");
    let err = required_edges(&indexer, &ids, &[("base_link", "gripper")]).unwrap_err();
    assert_eq!(err.reason(), "invalid data: target frame 'gripper' is not present in tf_buffer");
}

#[test]
fn populate_rows_links_required_edges_and_records_freshness() {
    let rows_named = [("base_link", "arm_link"), ("arm_link", "hand_link"), ("base_link", "head_link")];
    let (indexer, ids, _, _) = build(&rows_named);
    let required = vec![ids[0], ids[1]];
    let rows = vec![
        ("arm_link".to_string(), "base_link".to_string(), false),
        ("hand_link".to_string(), "arm_link".to_string(), true),
        ("head_link".to_string(), "base_link".to_string(), true),
    ];
    let mut tree = TfTree::with_frame_count(indexer.len());
    let edges = populate_rows(&indexer, &required, &rows, &mut tree).unwrap();
    assert_eq!(edges, vec![(ids[0], false), (ids[1], true)]);
    let hand = indexer.id("hand_link").unwrap();
    let head = indexer.id("head_link").unwrap();
    let base = indexer.id("base_link").unwrap();
    assert_eq!(tree.ancestor_chain_to_root(hand).unwrap().last(), Some(&base));
    assert_eq!(tree.parents[head as usize], None);

    let unknown = vec![("gripper".to_string(), "base_link".to_string(), false)];
    let err = populate_rows(&indexer, &required, &unknown, &mut tree).unwrap_err();
    assert_eq!(err.reason(), "invalid data: child frame 'gripper' was not registered in TF chain indexer");

    let twice = vec![
        ("arm_link".to_string(), "base_link".to_string(), false),
        ("arm_link".to_string(), "hand_link".to_string(), false),
    ];
    let all = vec![ids[0], ids[1], (indexer.id("hand_link").unwrap(), indexer.id("arm_link").unwrap())];
    let err = populate_rows(&indexer, &all, &twice, &mut tree).unwrap_err();
    assert_eq!(
        err.reason(),
        "invalid data: frame 'arm_link' has multiple parents in the same tf_buffer row: 'base_link' and 'hand_link'"
    );
}
