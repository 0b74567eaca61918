use osmpbf_reader::osmformat::{
    ChangeSet, DenseInfo, DenseNodes, Info, Node, PrimitiveBlock, PrimitiveGroup, Relation, Way,
};
use osmpbf_reader::primitives::{NodeData, Primitive, PrimitiveType, PrimitivesIter};
use osmpbf_reader::relation::{Member, Relation as RelationView};

fn strings(items: &[&[u8]]) -> Vec<Vec<u8>> {
    items.iter().map(|s| s.to_vec()).collect()
}

fn node(id: i64, lat: i64, lon: i64, keys: Vec<u32>, vals: Vec<u32>) -> Node {
    Node { id, keys, vals, info: Info::new(), lat, lon }
}

fn empty_dense_info() -> DenseInfo {
    DenseInfo {
        version: vec![],
        timestamp: vec![],
        changeset: vec![],
        uid: vec![],
        user_sid: vec![],
        visible: vec![],
    }
}

fn dense(id: Vec<i64>, lat: Vec<i64>, lon: Vec<i64>, keys_vals: Vec<i32>) -> DenseNodes {
    DenseNodes { id, denseinfo: empty_dense_info(), lat, lon, keys_vals }
}

fn way(id: i64, refs: Vec<i64>) -> Way {
    Way { id, keys: vec![], vals: vec![], info: Info::new(), refs }
}

fn relation(id: i64) -> Relation {
    Relation {
        id,
        keys: vec![],
        vals: vec![],
        info: Info::new(),
        roles_sid: vec![],
        memids: vec![],
        types: vec![],
    }
}

fn block(stringtable: Vec<Vec<u8>>, groups: Vec<PrimitiveGroup>) -> PrimitiveBlock {
    let mut b = PrimitiveBlock::new();
    b.stringtable = stringtable;
    b.primitivegroup = groups;
    b
}

fn mixed_group() -> PrimitiveGroup {
    PrimitiveGroup {
        nodes: vec![node(1, 0, 0, vec![], vec![]), node(2, 0, 0, vec![], vec![])],
        dense: Some(dense(vec![10, 1, 1], vec![0, 0, 0], vec![0, 0, 0], vec![])),
        ways: vec![way(100, vec![]), way(101, vec![])],
        relations: vec![relation(200)],
        changesets: vec![ChangeSet { id: 300 }],
    }
}

fn label(p: &Primitive<'_>) -> (char, i64) {
    match p {
        Primitive::Node(n) => ('n', n.id),
        Primitive::Way(w) => ('w', w.id()),
        Primitive::Relation(r) => ('r', r.id()),
        Primitive::ChangeSet(c) => ('c', c.id()),
    }
}

fn collect(mut it: PrimitivesIter<'_>) -> Vec<(char, i64)> {
    let mut out = Vec::new();
    while let Some(p) = it.next() {
        out.push(label(&p));
    }
    out
}

#[test]
fn dense_delta() {
    let b = block(
        strings(&[b""]),
        vec![PrimitiveGroup {
            dense: Some(dense(vec![10, 5, 5], vec![1000, 100, -50], vec![2000, 0, 0], vec![0, 0, 0])),
            ..PrimitiveGroup::new()
        }],
    );
    let mut it = b.primitives();
    let mut seen = Vec::new();
    while let Some(p) = it.next() {
        match p {
            Primitive::Node(n) => {
                let mut tags = n.tags();
                assert!(tags.next().is_none());
                seen.push((n.id, n.nano_lat / 100, n.nano_lon / 100));
            }
            _ => panic!("expected nodes"),
        }
    }
    assert_eq!(seen, vec![(10, 1000, 2000), (15, 1100, 2000), (20, 1050, 2000)]);
}

#[test]
fn order_within_a_block() {
    let b = block(strings(&[b""]), vec![mixed_group()]);
    assert_eq!(
        collect(b.primitives()),
        vec![
            ('n', 1),
            ('n', 2),
            ('n', 10),
            ('n', 11),
            ('n', 12),
            ('w', 100),
            ('w', 101),
            ('r', 200)
        ]
    );
}

#[test]
fn every_entry_counted_with_all_kinds() {
    let b = block(strings(&[b""]), vec![mixed_group(), mixed_group(), PrimitiveGroup::new()]);
    let held: usize = b
        .primitivegroup
        .iter()
        .map(|g| {
            let d = g.dense.as_ref().map_or(0, |d| d.id.len().min(d.lat.len()).min(d.lon.len()));
            g.nodes.len() + d + g.ways.len() + g.relations.len() + g.changesets.len()
        })
        .sum();
    let yielded = collect(b.primitives().filter_types(PrimitiveType::all()));
    assert_eq!(held, 18);
    assert_eq!(yielded.len(), held);
}

#[test]
fn smaller_filter_yields_a_subsequence() {
    let b = block(strings(&[b""]), vec![mixed_group(), mixed_group()]);
    let all = collect(b.primitives().filter_types(PrimitiveType::all()));
    let some = collect(
        b.primitives().filter_types(PrimitiveType::way().union(PrimitiveType::change_set())),
    );
    assert_eq!(some, vec![('w', 100), ('w', 101), ('c', 300), ('w', 100), ('w', 101), ('c', 300)]);
    let mut rest = all.iter();
    for item in &some {
        assert!(rest.any(|x| x == item));
    }
    assert!(PrimitiveType::all().contains(PrimitiveType::way()));
    assert!(!PrimitiveType::default_types().contains(PrimitiveType::change_set()));
}

#[test]
fn coordinates_reverse_to_stored_values() {
    let mut b = block(
        strings(&[b""]),
        vec![PrimitiveGroup {
            nodes: vec![node(1, 123, -456, vec![], vec![])],
            dense: Some(dense(vec![2], vec![77], vec![-3], vec![])),
            ..PrimitiveGroup::new()
        }],
    );
    b.granularity = 1000;
    b.lat_offset = 17;
    b.lon_offset = -5;
    let mut it = b.primitives();
    let mut stored = Vec::new();
    while let Some(Primitive::Node(n)) = it.next() {
        assert_eq!((n.nano_lat - b.lat_offset) % 1000, 0);
        assert_eq!((n.nano_lon - b.lon_offset) % 1000, 0);
        stored.push(((n.nano_lat - b.lat_offset) / 1000, (n.nano_lon - b.lon_offset) / 1000));
    }
    assert_eq!(stored, vec![(123, -456), (77, -3)]);
}

#[test]
fn dense_tag_slices_partition_the_stream() {
    let b = block(
        strings(&[b"", b"k1", b"v1", b"k2", b"v2"]),
        vec![PrimitiveGroup {
            dense: Some(dense(
                vec![1, 1, 1],
                vec![0, 0, 0],
                vec![0, 0, 0],
                vec![1, 2, 3, 4, 0, 0, 3, 2, 0],
            )),
            ..PrimitiveGroup::new()
        }],
    );
    let mut it = b.primitives();
    let mut slices = Vec::new();
    let mut tags = Vec::new();
    while let Some(Primitive::Node(n)) = it.next() {
        match n.data {
            NodeData::DenseNode { kv_start, kv_end } => slices.push((kv_start, kv_end)),
            NodeData::Node => panic!("expected dense nodes"),
        }
        let mut t = n.tags();
        let mut these = Vec::new();
        while let Some((k, v)) = t.next() {
            these.push((k.to_string(), v.to_string()));
        }
        tags.push(these);
    }
    assert_eq!(slices, vec![(0, 4), (5, 5), (6, 8)]);
    assert_eq!(
        tags,
        vec![
            vec![("k1".to_string(), "v1".to_string()), ("k2".to_string(), "v2".to_string())],
            vec![],
            vec![("k2".to_string(), "v1".to_string())],
        ]
    );
}

#[test]
fn dense_stream_without_final_terminator() {
    let b = block(
        strings(&[b"", b"k", b"v"]),
        vec![PrimitiveGroup {
            dense: Some(dense(vec![1, 1], vec![0, 0], vec![0, 0], vec![0, 1, 2])),
            ..PrimitiveGroup::new()
        }],
    );
    let mut it = b.primitives();
    let mut counts = Vec::new();
    while let Some(Primitive::Node(n)) = it.next() {
        let t = n.tags();
        counts.push(t.size_hint().0);
        assert_eq!(n.tags().get("k").is_some(), counts.len() == 2);
    }
    assert_eq!(counts, vec![0, 1]);
}

#[test]
fn iterator_is_fused() {
    let b = block(strings(&[b""]), vec![mixed_group()]);
    let mut it = b.primitives();
    while it.next().is_some() {}
    assert!(it.next().is_none());
    assert!(it.next().is_none());
}

#[test]
fn invalid_utf8_tag_is_skipped() {
    let b = block(
        strings(&[b"", b"existing_key", &[0xFF, 0xFE], b"name", b"ok"]),
        vec![PrimitiveGroup {
            nodes: vec![node(1, 0, 0, vec![1], vec![2]), node(2, 0, 0, vec![1, 3], vec![2, 4])],
            ..PrimitiveGroup::new()
        }],
    );
    let mut it = b.primitives();
    match it.next() {
        Some(Primitive::Node(n)) => {
            assert_eq!(n.tags().get("existing_key"), None);
            let mut t = n.tags();
            assert!(t.next().is_none());
        }
        _ => panic!("expected a node"),
    }
    match it.next() {
        Some(Primitive::Node(n)) => {
            let mut t = n.tags();
            assert_eq!(t.next(), Some(("name", "ok")));
            assert_eq!(t.next(), None);
            assert_eq!(n.tags().get("name"), Some("ok"));
        }
        _ => panic!("expected a node"),
    }
}

#[test]
fn out_of_range_indices_are_skipped() {
    let b = block(
        strings(&[b"", b"a", b"b"]),
        vec![PrimitiveGroup {
            nodes: vec![node(1, 0, 0, vec![9, 1], vec![1, 2])],
            ..PrimitiveGroup::new()
        }],
    );
    let mut it = b.primitives();
    if let Some(Primitive::Node(n)) = it.next() {
        let mut t = n.tags();
        assert_eq!(t.size_hint(), (2, Some(2)));
        assert_eq!(t.next(), Some(("a", "b")));
        assert_eq!(t.next(), None);
        assert_eq!(n.tags().get("a"), Some("b"));
        assert_eq!(n.tags().get("zzz"), None);
    } else {
        panic!("expected a node");
    }
}

#[test]
fn unequal_key_and_value_arrays() {
    let b = block(
        strings(&[b"", b"a", b"b"]),
        vec![PrimitiveGroup {
            ways: vec![Way { keys: vec![1, 2, 1], vals: vec![2], ..way(5, vec![]) }],
            ..PrimitiveGroup::new()
        }],
    );
    let mut it = b.primitives();
    if let Some(Primitive::Way(w)) = it.next() {
        let mut t = w.tags();
        assert_eq!(t.size_hint(), (1, Some(1)));
        assert_eq!(t.next(), Some(("a", "b")));
        assert_eq!(t.next(), None);
    } else {
        panic!("expected a way");
    }
}

#[test]
fn way_refs_are_decumulated() {
    let b = block(
        strings(&[b""]),
        vec![PrimitiveGroup { ways: vec![way(9, vec![100, 1, -3, 10])], ..PrimitiveGroup::new() }],
    );
    let mut it = b.primitives();
    if let Some(Primitive::Way(w)) = it.next() {
        assert_eq!(w.id(), 9);
        assert_eq!(w.refs(), vec![100, 101, 98, 108]);
    } else {
        panic!("expected a way");
    }
}

#[test]
fn dense_info_is_decumulated() {
    let mut d = dense(vec![1, 1, 1], vec![0, 0, 0], vec![0, 0, 0], vec![]);
    d.denseinfo = DenseInfo {
        version: vec![1, 2, 3],
        timestamp: vec![1000, 10, 10],
        changeset: vec![50, 1],
        uid: vec![7, -2, 0],
        user_sid: vec![1, 1, 1],
        visible: vec![true, false, true],
    };
    let b = block(strings(&[b""]), vec![PrimitiveGroup { dense: Some(d), ..PrimitiveGroup::new() }]);
    let mut it = b.primitives();
    let mut infos = Vec::new();
    while let Some(Primitive::Node(n)) = it.next() {
        infos.push(n.info());
    }
    assert_eq!(infos[0].timestamp, Some(1000));
    assert_eq!(infos[1].timestamp, Some(1010));
    assert_eq!(infos[2].timestamp, Some(1020));
    assert_eq!(infos[1].changeset, Some(51));
    assert_eq!(infos[2].changeset, None);
    assert_eq!(infos[1].uid, Some(5));
    assert_eq!(infos[2].user_sid, Some(3));
    assert_eq!(infos[1].version, Some(2));
    assert_eq!(infos[1].visible, Some(false));
}

#[test]
fn plain_node_info_is_its_own() {
    let mut n = node(4, 0, 0, vec![], vec![]);
    n.info.version = Some(9);
    let b = block(strings(&[b""]), vec![PrimitiveGroup { nodes: vec![n], ..PrimitiveGroup::new() }]);
    let mut it = b.primitives();
    if let Some(Primitive::Node(n)) = it.next() {
        assert_eq!(n.id(), 4);
        assert_eq!(n.info().version, Some(9));
        assert_eq!(n.info().timestamp, None);
    } else {
        panic!("expected a node");
    }
}

#[test]
fn group_iteration_stays_in_its_group() {
    let mut second = PrimitiveGroup::new();
    second.ways.push(way(55, vec![]));
    let b = block(strings(&[b""]), vec![mixed_group(), second]);
    let g = b.primitivegroup(1).unwrap();
    assert_eq!(collect(g.primitives()), vec![('w', 55)]);
    assert!(b.primitivegroup(2).is_none());
}

#[test]
fn dense_state_resets_between_groups() {
    let g = || PrimitiveGroup {
        dense: Some(dense(vec![10, 1], vec![0, 0], vec![0, 0], vec![])),
        ..PrimitiveGroup::new()
    };
    let b = block(strings(&[b""]), vec![g(), g()]);
    assert_eq!(collect(b.primitives()), vec![('n', 10), ('n', 11), ('n', 10), ('n', 11)]);
}

#[test]
fn relation_members() {
    let rel = Relation {
        roles_sid: vec![1, 2, 1, 1, 9],
        memids: vec![10, 5, 5, 1, 1],
        types: vec![0, 1, 7, 2, 0],
        ..relation(77)
    };
    let table = strings(&[b"", b"outer", &[0xFF]]);
    let view = RelationView::from_pbf(&rel, &table);
    assert_eq!(view.id.0, 77);
    let mut members = view.members();
    let mut got = Vec::new();
    while let Some(m) = members.next() {
        got.push(match m {
            Member::Node(id, role) => ('n', id.0, role.to_string()),
            Member::Way(id, role) => ('w', id.0, role.to_string()),
            Member::Relation(id, role) => ('r', id.0, role.to_string()),
        });
    }
    assert_eq!(got, vec![('n', 10, "outer".to_string()), ('r', 21, "outer".to_string())]);
    assert!(members.next().is_none());
}

#[test]
fn changing_the_filter_keeps_the_position() {
    let b = block(
        strings(&[b""]),
        vec![PrimitiveGroup {
            nodes: (1..=5).map(|i| node(i, 0, 0, vec![], vec![])).collect(),
            dense: Some(dense(vec![10, 1], vec![0, 0], vec![0, 0], vec![])),
            ways: vec![way(100, vec![])],
            ..PrimitiveGroup::new()
        }],
    );
    let mut it = b.primitives();
    for _ in 0..3 {
        it.next();
    }
    let it = it.filter_types(PrimitiveType::way());
    let it = it.filter_types(PrimitiveType::node().union(PrimitiveType::way()));
    assert_eq!(collect(it), vec![('n', 4), ('n', 5), ('n', 10), ('n', 11), ('w', 100)]);

    let mut it = b.primitives();
    for _ in 0..6 {
        it.next();
    }
    let it = it.filter_types(PrimitiveType::way()).filter_types(PrimitiveType::default_types());
    assert_eq!(collect(it), vec![('n', 11), ('w', 100)]);
}

#[test]
fn filter_yields_exactly_the_selected_kinds() {
    let b = block(strings(&[b""]), vec![mixed_group(), mixed_group()]);
    let all = collect(b.primitives().filter_types(PrimitiveType::all()));
    let ways_only = collect(b.primitives().filter_types(PrimitiveType::way()));
    let restricted: Vec<_> = all.iter().cloned().filter(|(k, _)| *k == 'w').collect();
    assert_eq!(ways_only, restricted);
}
