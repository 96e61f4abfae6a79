use force_graph::zone::adjacency::Adjacency;
use force_graph::zone::major_zone::MajorZone;
use force_graph::zone::minor_zone::MinorZone;
use force_graph::zone::zone_type::ZoneType;

#[test]
fn adjacency_is_symmetric_and_irreflexive() {
    for ai in 0..9 {
        let a = MajorZone::from_index(ai);
        assert!(!a.is_adjacent_to(&a));
        for bi in 0..9 {
            let b = MajorZone::from_index(bi);
            assert_eq!(a.is_adjacent_to(&b), b.is_adjacent_to(&a));
            assert_eq!(a.not_adjacent_to(&b), !a.is_adjacent_to(&b));
        }
    }
}

#[test]
fn adjacency_counts_by_grid_position() {
    // corners touch 3 zones, edge zones 5, the centre all 8
    let expected = [3, 5, 3, 5, 8, 5, 3, 5, 3];
    for i in 0..9 {
        let z = MajorZone::from_index(i);
        assert_eq!(z.adjacent().len(), expected[i]);
        assert_eq!(z.not_adjacent().len(), 8 - expected[i]);
    }
}

#[test]
fn adjacent_lists_of_corner_and_centre() {
    assert_eq!(
        MajorZone::TopLeft.adjacent(),
        vec![MajorZone::TopMiddle, MajorZone::MiddleLeft, MajorZone::MiddleMiddle]
    );
    assert_eq!(
        MajorZone::TopLeft.not_adjacent(),
        vec![
            MajorZone::TopRight,
            MajorZone::MiddleRight,
            MajorZone::BottomLeft,
            MajorZone::BottomMiddle,
            MajorZone::BottomRight
        ]
    );
    assert_eq!(MajorZone::MiddleMiddle.adjacent().len(), 8);
    assert!(MajorZone::MiddleMiddle.not_adjacent().is_empty());
}

#[test]
fn every_pair_is_self_adjacent_or_distant() {
    for ai in 0..9 {
        let a = MajorZone::from_index(ai);
        let adjacent = a.adjacent();
        let distant = a.not_adjacent();
        assert_eq!(adjacent.len() + distant.len(), 8);
        for bi in 0..9 {
            let b = MajorZone::from_index(bi);
            let classes =
                (a == b) as usize + adjacent.contains(&b) as usize + distant.contains(&b) as usize;
            assert_eq!(classes, 1);
        }
    }
}

#[test]
fn major_zone_index_round_trip() {
    for i in 0..9 {
        let z = MajorZone::from_index(i);
        assert_eq!(z.get_zone_index(), i);
        assert_eq!(z.get_zone_number(), i + 1);
        assert_eq!(MajorZone::from_zone_number(i + 1), z);
    }
    assert_eq!(MajorZone::from_index(0), MajorZone::TopLeft);
    assert_eq!(MajorZone::from_index(4), MajorZone::MiddleMiddle);
    assert_eq!(MajorZone::from_index(8), MajorZone::BottomRight);
}

#[test]
fn minor_zone_index_round_trip() {
    for i in 0..4 {
        assert_eq!(MinorZone::from_index(i).get_zone_index(), i);
    }
    assert_eq!(MinorZone::from_index(0), MinorZone::TopLeft);
    assert_eq!(MinorZone::from_index(3), MinorZone::BottomRight);
}

#[test]
fn adjacency_encodings_round_trip() {
    assert_eq!(Adjacency::from_int(1), Adjacency::Adjacent);
    assert_eq!(Adjacency::from_int(0), Adjacency::NotAdjacent);
    assert_eq!(Adjacency::Adjacent.to_int(), 1);
    assert_eq!(Adjacency::NotAdjacent.to_int(), 0);
    assert_eq!(Adjacency::from_bool(true), Adjacency::Adjacent);
    assert_eq!(Adjacency::from_bool(false), Adjacency::NotAdjacent);
    assert!(Adjacency::Adjacent.to_bool());
    assert!(!Adjacency::NotAdjacent.to_bool());
}

#[test]
fn zone_type_subdivision() {
    assert_eq!(ZoneType::Canvas.n_sub_zones(), Some(9));
    assert_eq!(ZoneType::Major.n_sub_zones(), Some(4));
    assert_eq!(ZoneType::Minor.n_sub_zones(), Some(0));
    assert_eq!(ZoneType::Canvas.sub_zone_type(), Some(ZoneType::Major));
    assert_eq!(ZoneType::Major.sub_zone_type(), Some(ZoneType::Minor));
    assert_eq!(ZoneType::Minor.sub_zone_type(), None);

    let subs = ZoneType::Canvas.sub_zone_vec().unwrap();
    assert_eq!(subs.len(), 9);
    assert!(subs.iter().all(|t| *t == ZoneType::Major));

    let subs = ZoneType::Major.sub_zone_vec().unwrap();
    assert_eq!(subs.len(), 4);
    assert!(subs.iter().all(|t| *t == ZoneType::Minor));

    assert!(ZoneType::Minor.sub_zone_vec().is_none());
}
