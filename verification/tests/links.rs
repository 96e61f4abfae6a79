use force_graph::links::link_connecting;
use force_graph::links::links_of_node;
use force_graph::links::links_valid;
use force_graph::links::Link;

fn triangle() -> Vec<Link> {
    vec![Link::new(0, 1), Link::new(0, 2), Link::new(1, 2)]
}

#[test]
fn link_has_node_checks_both_endpoints() {
    let link = Link::new(3, 7);
    assert!(link.has_node(3));
    assert!(link.has_node(7));
    assert!(!link.has_node(0));
    assert!(!link.has_node(5));
}

#[test]
fn links_valid_accepts_in_range_indices_only() {
    let links = triangle();
    assert!(links_valid(&links, 3));
    assert!(links_valid(&links, 4));
    // node 2 does not exist in a two-node graph
    assert!(!links_valid(&links, 2));
    assert!(!links_valid(&links, 0));
    assert!(links_valid(&vec![], 0));
}

#[test]
fn links_of_node_selects_incident_edges_in_order() {
    let links = triangle();
    assert_eq!(links_of_node(&links, 0), vec![0, 1]);
    assert_eq!(links_of_node(&links, 1), vec![0, 2]);
    assert_eq!(links_of_node(&links, 2), vec![1, 2]);
    assert_eq!(links_of_node(&links, 3), Vec::<usize>::new());
}

#[test]
fn link_connecting_finds_the_first_joining_edge() {
    let links = triangle();
    assert_eq!(link_connecting(&links, 0, 1), Some(0));
    assert_eq!(link_connecting(&links, 1, 0), Some(0));
    assert_eq!(link_connecting(&links, 2, 1), Some(2));
    let mut with_dup = triangle();
    with_dup.push(Link::new(1, 0));
    assert_eq!(link_connecting(&with_dup, 0, 1), Some(0));
    assert_eq!(link_connecting(&links, 0, 3), None);
}
