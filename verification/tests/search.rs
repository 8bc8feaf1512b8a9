//! Fuzzy search over the loaded rows.
use asd::git::commit::{CommitInfo, ObjectId};
use asd::git::graph::{CellType, GraphNode};
use asd::search::{rank, rank_scores, Search};

/// The name of the empty blob.
fn blob() -> ObjectId {
    ObjectId {
        high: 0xe69d_e29b_b2d1_d643,
        middle: 0x4b8b_29ae_775a_d8c2,
        low: 0xe48c_5391,
    }
}

fn node(summary: &str, author: &str) -> GraphNode {
    GraphNode {
        commit: Some(CommitInfo {
            id: blob(),
            parents: Vec::new(),
            summary: summary.into(),
            body: String::new(),
            author: author.into(),
            time: 0,
        }),
        lane: 0,
        color_index: 0,
        cells: vec![CellType::Commit(0)],
        uncommitted: None,
    }
}

#[test]
fn an_empty_query_matches_nothing() {
    let nodes = vec![node("fix the thing", "ann")];
    assert!(rank(&nodes, "").is_empty());
}

#[test]
fn a_subsequence_of_the_summary_matches() {
    let nodes = vec![
        node("fix the parser", "ann"),
        node("add a renderer", "bo"),
        node("unrelated", "cy"),
    ];
    let hits = rank(&nodes, "fxprs");
    assert_eq!(
        hits,
        vec![0],
        "fuzzy subsequence should find the parser fix"
    );
}

#[test]
fn the_author_is_searched_too() {
    let nodes = vec![node("something", "ann"), node("other", "bo")];
    let hits = rank(&nodes, "ann");
    assert_eq!(hits, vec![0]);
}

#[test]
fn better_matches_rank_first() {
    let nodes = vec![node("a p a r s e r somewhere", "x"), node("parser", "y")];
    let hits = rank(&nodes, "parser");
    assert_eq!(
        hits.first(),
        Some(&1),
        "the exact word should outrank the scattered one"
    );
}

#[test]
fn connector_and_uncommitted_rows_are_never_matched() {
    let mut connector = node("ignored", "x");
    connector.commit = None;
    let mut uncommitted = node("ignored", "x");
    uncommitted.commit = None;
    uncommitted.uncommitted = Some(3);
    let nodes = vec![connector, uncommitted, node("real commit", "x")];
    assert_eq!(rank(&nodes, "commit"), vec![2]);
}

#[test]
fn editing_the_query_moves_through_matches() {
    let nodes = vec![node("alpha", "x"), node("alphabet", "y")];
    let mut s = Search::default();
    for c in "alpha".chars() {
        s.push(c, &nodes);
    }
    assert_eq!(s.matches().len(), 2);
    assert_eq!(s.selected(), Some(0));
    s.next();
    assert_eq!(s.selected(), Some(1));
    s.next();
    assert_eq!(s.selected(), Some(0), "next wraps");
    s.previous();
    assert_eq!(s.selected(), Some(1), "previous wraps the other way");

    s.backspace(&nodes);
    assert_eq!(s.query(), "alph");
}

#[test]
fn selected_indexes_the_match_list_and_selected_row_indexes_the_graph() {
    let nodes = vec![
        node("nothing here", "x"),
        node("alpha", "x"),
        node("nothing here either", "x"),
        node("alphabet", "y"),
    ];
    let mut s = Search::default();
    for c in "alpha".chars() {
        s.push(c, &nodes);
    }
    assert_eq!(s.matches(), &[1, 3], "matches are graph row indices");
    assert_eq!(s.selected(), Some(0), "the first entry of the dropdown");
    assert_eq!(s.selected_row(), Some(1), "which is graph row 1");
    s.next();
    assert_eq!(s.selected(), Some(1));
    assert_eq!(s.selected_row(), Some(3));
}

#[test]
fn no_matches_leaves_nothing_selected() {
    let nodes = vec![node("alpha", "x")];
    let mut s = Search::default();
    assert_eq!(s.selected(), None, "an empty query selects nothing");
    assert_eq!(s.selected_row(), None);
    for c in "zzzz".chars() {
        s.push(c, &nodes);
    }
    assert!(s.matches().is_empty());
    assert_eq!(s.selected(), None);
    assert_eq!(s.selected_row(), None);
    // Movement on an empty list must not wrap into a phantom entry.
    s.next();
    s.previous();
    assert_eq!(s.selected(), None);
}

#[test]
fn equal_scores_keep_the_graphs_order() {
    assert_eq!(
        rank_scores(&vec![Some(5), None, Some(9), Some(5), Some(-1)]),
        vec![2, 0, 3, 4]
    );
    assert!(rank_scores(&vec![None, None]).is_empty());
}
