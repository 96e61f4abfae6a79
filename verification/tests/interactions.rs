use force_graph::interactions::repulsion_plan;
use force_graph::interactions::InteractionTerm;
use force_graph::zone::major_zone::MajorZone;
use force_graph::zone::minor_zone::MinorZone;

fn count_kinds(plan: &[InteractionTerm]) -> (usize, usize, usize) {
    let mut exact = 0;
    let mut minor = 0;
    let mut major = 0;
    for t in plan {
        match t {
            InteractionTerm::Exact { .. } => exact += 1,
            InteractionTerm::MinorAggregate { .. } => minor += 1,
            InteractionTerm::MajorAggregate { .. } => major += 1,
        }
    }
    (exact, minor, major)
}

fn covers(t: &InteractionTerm, j: usize, majors: &[MajorZone], minors: &[MinorZone]) -> bool {
    match t {
        InteractionTerm::Exact { j: k } => *k == j,
        InteractionTerm::MinorAggregate { major, minor } => {
            majors[j] == *major && minors[j] == *minor
        }
        InteractionTerm::MajorAggregate { major } => majors[j] == *major,
    }
}

#[test]
fn plan_for_one_node_per_zone() {
    // nine nodes, one in each major zone
    let majors: Vec<MajorZone> = (0..9).map(MajorZone::from_index).collect();
    let minors: Vec<MinorZone> = vec![MinorZone::TopLeft; 9];

    // centre zone: all eight other zones are adjacent, four aggregates each
    let plan = repulsion_plan(4, &majors, &minors);
    assert_eq!(count_kinds(&plan), (0, 32, 0));

    // corner zone: three adjacent zones, five distant ones
    let plan = repulsion_plan(0, &majors, &minors);
    assert_eq!(count_kinds(&plan), (0, 12, 5));
}

#[test]
fn plan_lists_same_zone_partners_exactly() {
    let majors = vec![
        MajorZone::TopLeft,
        MajorZone::TopLeft,
        MajorZone::TopLeft,
        MajorZone::BottomRight,
    ];
    let minors = vec![
        MinorZone::TopLeft,
        MinorZone::TopRight,
        MinorZone::BottomLeft,
        MinorZone::BottomRight,
    ];
    let plan = repulsion_plan(0, &majors, &minors);

    assert!(plan.contains(&InteractionTerm::Exact { j: 1 }));
    assert!(plan.contains(&InteractionTerm::Exact { j: 2 }));
    assert!(!plan.contains(&InteractionTerm::Exact { j: 0 }));
    assert!(!plan.contains(&InteractionTerm::Exact { j: 3 }));

    // BottomRight shares no side or corner with TopLeft: node 3 is covered by
    // its whole-zone aggregate
    assert!(plan.contains(&InteractionTerm::MajorAggregate { major: MajorZone::BottomRight }));

    // no term appears twice
    for (p, t1) in plan.iter().enumerate() {
        for t2 in &plan[p + 1..] {
            assert_ne!(t1, t2);
        }
    }
}

#[test]
fn plan_covers_every_other_node_once() {
    let majors = vec![
        MajorZone::TopLeft,
        MajorZone::TopLeft,
        MajorZone::TopMiddle,
        MajorZone::TopMiddle,
        MajorZone::BottomRight,
        MajorZone::MiddleMiddle,
    ];
    let minors = vec![
        MinorZone::TopLeft,
        MinorZone::BottomRight,
        MinorZone::TopLeft,
        MinorZone::TopRight,
        MinorZone::BottomLeft,
        MinorZone::TopLeft,
    ];
    for i in 0..majors.len() {
        let plan = repulsion_plan(i, &majors, &minors);
        for j in 0..majors.len() {
            let n_covering = plan.iter().filter(|t| covers(t, j, &majors, &minors)).count();
            let expected = if i == j { 0 } else { 1 };
            assert_eq!(n_covering, expected);
        }
    }
}
