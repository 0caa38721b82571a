use workspace_model::layout::{
    edge_matrix, first_occurrences, hierarchy, last_occurrence, layer_levels, level_rows, Hierarchy,
};

fn ids(v: &[&str]) -> Vec<String> {
    v.iter().map(|s| s.to_string()).collect()
}

fn edges(v: &[(&str, &str)]) -> Vec<(String, String)> {
    v.iter().map(|(a, b)| (a.to_string(), b.to_string())).collect()
}

fn level_of(h: &Hierarchy, names: &[String], id: &str) -> usize {
    let k = h.nodes.iter().position(|&i| names[i] == id).unwrap();
    h.layering.levels[k]
}

fn row_members(h: &Hierarchy, names: &[String], level: usize) -> Vec<String> {
    h.rows
        .iter()
        .find(|r| r.level == level)
        .map(|r| r.members.iter().map(|&k| names[h.nodes[k]].clone()).collect())
        .unwrap_or_default()
}

#[test]
fn hierarchy_is_deterministic_and_follows_registered_flow() {
    let names = ids(&["c", "a", "b"]);
    let e = edges(&[("a", "b"), ("b", "c")]);
    let first = hierarchy(&names, &e);
    let second = hierarchy(&names, &e);
    assert_eq!(first.layering.levels, second.layering.levels);
    assert!(level_of(&first, &names, "a") < level_of(&first, &names, "b"));
    assert!(level_of(&first, &names, "b") < level_of(&first, &names, "c"));
    assert_eq!(first.layering.layered, vec![true, true, true]);
}

#[test]
fn actual_sizes_and_spacing_prevent_overlap() {
    let names = ids(&["wide", "next", "peer"]);
    let h = hierarchy(&names, &edges(&[("wide", "next")]));
    assert_eq!(row_members(&h, &names, 0), ids(&["wide", "peer"]));
    assert_eq!(row_members(&h, &names, 1), ids(&["next"]));
    assert!(level_of(&h, &names, "next") > level_of(&h, &names, "wide"));
}

#[test]
fn cycles_do_not_create_extreme_off_screen_levels() {
    let names = ids(&["a", "b", "c"]);
    let h = hierarchy(&names, &edges(&[("a", "b"), ("b", "a")]));
    assert!(h.layering.levels.iter().all(|&l| l < names.len()));
    assert_ne!(level_of(&h, &names, "a"), level_of(&h, &names, "b"));
    assert_eq!(h.layering.layered, vec![false, false, true]);
    assert_eq!(h.layering.levels, vec![0, 1, 0]);
}

#[test]
fn equal_level_nodes_preserve_caller_order_instead_of_uuid_lexical_order() {
    let names = ids(&["z-first", "a-second", "m-third"]);
    let h = hierarchy(&names, &Vec::new());
    assert_eq!(h.rows.len(), 1);
    assert_eq!(row_members(&h, &names, 0), names);
}

#[test]
fn kahn_levels_are_longest_paths() {
    // a -> b -> d, a -> c, c -> d, d -> e
    let names = ids(&["e", "d", "c", "b", "a"]);
    let h = hierarchy(&names, &edges(&[("a", "b"), ("b", "d"), ("a", "c"), ("c", "d"), ("d", "e")]));
    let expected = [("a", 0), ("b", 1), ("c", 1), ("d", 2), ("e", 3)];
    for (id, level) in expected {
        assert_eq!(level_of(&h, &names, id), level, "{id}");
    }
    assert_eq!(row_members(&h, &names, 1), ids(&["c", "b"]));
}

#[test]
fn cycle_members_get_a_spanning_hierarchy_below_their_layered_parent() {
    // s -> x, x <-> y, y -> z: x, y, z are cyclic or below a cycle.
    let names = ids(&["s", "x", "y", "z"]);
    let h = hierarchy(&names, &edges(&[("s", "x"), ("x", "y"), ("y", "x"), ("y", "z")]));
    assert_eq!(h.layering.layered, vec![true, false, false, false]);
    assert_eq!(h.layering.levels, vec![0, 1, 2, 3]);
}

#[test]
fn duplicates_self_edges_and_unknown_ends_are_ignored() {
    let names = ids(&["a", "b", "a", "c"]);
    let e = edges(&[("a", "a"), ("a", "b"), ("a", "b"), ("b", "ghost"), ("ghost", "c")]);
    let h = hierarchy(&names, &e);
    assert_eq!(h.nodes, vec![0, 1, 3]);
    assert_eq!(h.sizes_from, vec![2, 1, 3]);
    assert_eq!(h.graph, vec![vec![false, true, false], vec![false; 3], vec![false; 3]]);
    assert_eq!(h.layering.levels, vec![0, 1, 0]);
}

#[test]
fn building_blocks() {
    let names = ids(&["x", "y", "x", "z", "y"]);
    assert_eq!(first_occurrences(&names), vec![0, 1, 3]);
    assert_eq!(last_occurrence(&names, 1), 4);
    assert_eq!(last_occurrence(&names, 3), 3);
    let unique = ids(&["x", "y"]);
    let adj = edge_matrix(&unique, &edges(&[("y", "x")]));
    assert_eq!(adj, vec![vec![false, false], vec![true, false]]);
    let l = layer_levels(&adj);
    assert_eq!(l.levels, vec![1, 0]);
    let rows = level_rows(&vec![2, 0, 2, 1]);
    let shape: Vec<(usize, Vec<usize>)> = rows.iter().map(|r| (r.level, r.members.clone())).collect();
    assert_eq!(shape, vec![(0, vec![1]), (1, vec![3]), (2, vec![0, 2])]);
}

#[test]
fn cyclic_nodes_take_the_level_of_their_first_breadth_first_visit() {
    let names = ids(&["a", "b", "c", "e", "d"]);
    let h = hierarchy(
        &names,
        &edges(&[("a", "b"), ("b", "a"), ("a", "c"), ("c", "e"), ("e", "d"), ("b", "d")]),
    );
    assert_eq!(h.layering.layered, vec![false; 5]);
    assert_eq!(h.layering.levels, vec![0, 1, 1, 2, 2]);
}

#[test]
fn layered_successors_of_a_cycle_keep_their_kahn_level() {
    // x feeds the cycle p <-> q; y hangs below x only and is layered.
    let names = ids(&["p", "q", "x", "y"]);
    let h = hierarchy(&names, &edges(&[("x", "p"), ("p", "q"), ("q", "p"), ("x", "y")]));
    assert_eq!(h.layering.layered, vec![false, false, true, true]);
    assert_eq!(h.layering.levels, vec![1, 2, 0, 1]);
}
