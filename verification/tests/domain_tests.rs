use laverna::domain::{compute_all_nodes, CompositionAspect, Domain, Relationship, WheelError};
use laverna::understanding::{CurriculumBand, MasteryLayer, UnderstandingAxis};
use laverna::wheel::WheelGraph;

const ALL_DOMAINS: [Domain; 9] = [
    Domain::Surya,
    Domain::Chandra,
    Domain::Mangala,
    Domain::Budha,
    Domain::Brihaspati,
    Domain::Shukra,
    Domain::Shani,
    Domain::Rahu,
    Domain::Ketu,
];

#[test]
fn test_domain_index_roundtrip() {
    for d in &ALL_DOMAINS {
        assert_eq!(Domain::from_index(d.index()), Some(*d));
    }
}

#[test]
fn test_opposite_is_4_steps() {
    for d in &ALL_DOMAINS {
        let opp = d.opposite();
        let diff = (d.index() as isize - opp.index() as isize).abs();
        assert!(diff == 4 || diff == 5);
    }
}

#[test]
fn test_parse_variants() {
    assert_eq!(Domain::parse("surya"), Some(Domain::Surya));
    assert_eq!(Domain::parse("☉"), Some(Domain::Surya));
    assert_eq!(Domain::parse("sun"), Some(Domain::Surya));
    assert_eq!(Domain::parse("mangala"), Some(Domain::Mangala));
    assert_eq!(Domain::parse("MARS"), Some(Domain::Mangala));
    assert_eq!(Domain::parse("rahu"), Some(Domain::Rahu));
    assert_eq!(Domain::parse("unknown"), None);
}

#[test]
fn test_greek_aliases() {
    assert_eq!(Domain::parse("alpha"), Some(Domain::Surya));
    assert_eq!(Domain::parse("β"), Some(Domain::Chandra));
    assert_eq!(Domain::parse("gamma"), Some(Domain::Mangala));
    assert_eq!(Domain::parse("δ"), Some(Domain::Budha));
    assert_eq!(Domain::parse("epsilon"), Some(Domain::Brihaspati));
    assert_eq!(Domain::parse("zeta"), Some(Domain::Shukra));
    assert_eq!(Domain::parse("η"), Some(Domain::Shani));
    assert_eq!(Domain::parse("theta"), Some(Domain::Rahu));
    assert_eq!(Domain::parse("ι"), Some(Domain::Ketu));
}

#[test]
fn test_greek_names() {
    assert_eq!(Domain::Surya.greek_name(), "Alpha (α)");
    assert_eq!(Domain::Chandra.greek_name(), "Beta (β)");
    assert_eq!(Domain::Mangala.greek_name(), "Gamma (γ)");
    assert_eq!(Domain::Budha.greek_name(), "Delta (δ)");
    assert_eq!(Domain::Brihaspati.greek_name(), "Epsilon (ε)");
    assert_eq!(Domain::Shukra.greek_name(), "Zeta (ζ)");
    assert_eq!(Domain::Shani.greek_name(), "Eta (η)");
    assert_eq!(Domain::Rahu.greek_name(), "Theta (θ)");
    assert_eq!(Domain::Ketu.greek_name(), "Iota (ι)");
}

#[test]
fn test_domain_format() {
    let s = Domain::Surya.to_string();
    assert!(s.contains("☉"));
    assert!(s.contains("Surya"));
}

#[test]
fn test_adjacent() {
    let adj = Domain::Surya.adjacent();
    assert_eq!(adj[0], Domain::Chandra);
    assert_eq!(adj[1], Domain::Ketu);
}

#[test]
fn test_trines() {
    let trines = Domain::Surya.trines();
    assert_eq!(trines[0], Domain::Budha);
    assert_eq!(trines[1], Domain::Shani);
}

#[test]
fn test_node_metadata() {
    let nodes = compute_all_nodes();
    assert_eq!(nodes.len(), 9);
    for n in &nodes {
        assert!(!n.symbol.is_empty());
        assert!(!n.name.is_empty());
        assert!(!n.description.is_empty());
    }
}

#[test]
fn test_composition_aligned_self() {
    assert_eq!(
        CompositionAspect::between(Domain::Mangala, Domain::Mangala),
        CompositionAspect::Aligned
    );
}

#[test]
fn test_composition_adjacent() {
    assert_eq!(
        CompositionAspect::between(Domain::Surya, Domain::Chandra),
        CompositionAspect::Adjacent
    );
    assert_eq!(
        CompositionAspect::between(Domain::Ketu, Domain::Surya),
        CompositionAspect::Adjacent
    );
}

#[test]
fn test_composition_antipodal() {
    assert_eq!(
        CompositionAspect::between(Domain::Surya, Domain::Brihaspati),
        CompositionAspect::Antipodal
    );
    assert_eq!(
        CompositionAspect::between(Domain::Brihaspati, Domain::Surya),
        CompositionAspect::Antipodal
    );
}

#[test]
fn test_composition_harmonic() {
    assert_eq!(
        CompositionAspect::between(Domain::Surya, Domain::Budha),
        CompositionAspect::Harmonic
    );
    assert_eq!(
        CompositionAspect::between(Domain::Surya, Domain::Shani),
        CompositionAspect::Harmonic
    );
}

#[test]
fn test_composition_tense() {
    assert_eq!(
        CompositionAspect::between(Domain::Surya, Domain::Mangala),
        CompositionAspect::Tense
    );
    assert_eq!(
        CompositionAspect::between(Domain::Surya, Domain::Rahu),
        CompositionAspect::Tense
    );
}

#[test]
fn test_relationship_creation() {
    let r = Relationship::new(Domain::Surya, Domain::Chandra);
    assert_eq!(r.aspect, CompositionAspect::Adjacent);
    assert_eq!(r.distance, 1);
}

#[test]
fn test_direct_and_tension() {
    assert!(CompositionAspect::Aligned.is_direct());
    assert!(CompositionAspect::Adjacent.is_direct());
    assert!(!CompositionAspect::Tense.is_direct());
    assert!(!CompositionAspect::Antipodal.is_direct());
    assert!(CompositionAspect::Tense.is_tension());
    assert!(CompositionAspect::Antipodal.is_tension());
}

#[test]
fn test_kindergarten_default() {
    let axis = UnderstandingAxis::kindergarten();
    assert_eq!(axis.level, 0);
    assert_eq!(axis.cycle, 0);
    assert_eq!(axis.depth(), 0);
}

#[test]
fn test_level_name() {
    assert_eq!(UnderstandingAxis::new(0, 0).level_name(), "Kindergarten");
    assert_eq!(UnderstandingAxis::new(6, 0).level_name(), "Grade 6");
    assert_eq!(UnderstandingAxis::new(12, 0).level_name(), "Grade 12");
}

#[test]
fn test_band_detection() {
    assert_eq!(UnderstandingAxis::new(0, 0).band(), "Foundation");
    assert_eq!(UnderstandingAxis::new(2, 0).band(), "Elementary");
    assert_eq!(UnderstandingAxis::new(5, 0).band(), "Intermediate");
    assert_eq!(UnderstandingAxis::new(8, 0).band(), "Advanced");
    assert_eq!(UnderstandingAxis::new(11, 0).band(), "Mastery");
}

#[test]
fn test_advance_loops_to_next_cycle() {
    let mut axis = UnderstandingAxis::new(12, 0);
    assert_eq!(axis.depth(), 12);
    axis.advance();
    assert_eq!(axis.level, 0);
    assert_eq!(axis.cycle, 1);
    assert_eq!(axis.depth(), 13);
}

#[test]
fn test_advance_by_multiple_steps() {
    let mut axis = UnderstandingAxis::new(11, 0);
    axis.advance_by(3);
    assert_eq!(axis.level, 1);
    assert_eq!(axis.cycle, 1);
    assert_eq!(axis.depth(), 14);
}

#[test]
fn test_next_without_mutation() {
    let axis = UnderstandingAxis::new(5, 0);
    let next = axis.next();
    assert_eq!(axis.level, 5);
    assert_eq!(next.level, 6);
}

#[test]
fn test_depth_ordering() {
    let l12c0 = UnderstandingAxis::new(12, 0).depth();
    let l0c1 = UnderstandingAxis::new(0, 1).depth();
    assert!(l12c0 < l0c1);
}

#[test]
fn test_band_level_ranges() {
    assert!(CurriculumBand::Foundation.levels().contains(&0));
    assert!(CurriculumBand::Elementary.levels().contains(&2));
    assert!(CurriculumBand::Intermediate.levels().contains(&5));
    assert!(CurriculumBand::Advanced.levels().contains(&8));
    assert!(CurriculumBand::Mastery.levels().contains(&12));
}

#[test]
fn test_describe() {
    let axis = UnderstandingAxis::new(0, 0);
    assert_eq!(
        axis.describe(),
        "Cycle 0 Kindergarten (Foundation) — Unknown (0)"
    );
    let axis = UnderstandingAxis::new(7, 2);
    assert_eq!(axis.describe(), "Cycle 2 Grade 7 (Advanced) — Known (12)");
}

#[test]
fn test_layer_index_mapping() {
    assert_eq!(
        UnderstandingAxis::new(0, 0).layer_index(),
        MasteryLayer::Unknown
    );
    assert_eq!(
        UnderstandingAxis::new(3, 0).layer_index(),
        MasteryLayer::Aware
    );
    assert_eq!(
        UnderstandingAxis::new(6, 0).layer_index(),
        MasteryLayer::Learning
    );
    assert_eq!(
        UnderstandingAxis::new(12, 0).layer_index(),
        MasteryLayer::Known
    );
    assert_eq!(MasteryLayer::from_level(10), MasteryLayer::Known);
}

#[test]
fn test_describe_layer() {
    let axis = UnderstandingAxis::new(6, 0);
    assert_eq!(axis.describe_layer(), "Learning (6) — Level 6/12");
    let axis = UnderstandingAxis::new(12, 0);
    assert_eq!(axis.describe_layer(), "Known (12) — Level 12/12");
}

#[test]
fn test_graph_creation() {
    let g = WheelGraph::new();
    let nodes = g.all_nodes();
    assert_eq!(nodes.len(), 9);
}

#[test]
fn test_graph_has_self_edges() {
    let g = WheelGraph::new();
    assert!(g.has_edge(Domain::Mangala, Domain::Mangala));
}

#[test]
fn test_graph_has_adjacent_edges() {
    let g = WheelGraph::new();
    assert!(g.has_edge(Domain::Surya, Domain::Chandra));
    assert!(g.has_edge(Domain::Chandra, Domain::Mangala));
}

#[test]
fn test_graph_has_trines() {
    let g = WheelGraph::new();
    assert!(g.has_edge(Domain::Mangala, Domain::Shukra));
    assert!(g.has_edge(Domain::Mangala, Domain::Ketu));
}

#[test]
fn test_shortest_path_adjacent() {
    let g = WheelGraph::new();
    let path = g.shortest_path(Domain::Surya, Domain::Chandra).unwrap();
    assert_eq!(path.len(), 2);
    assert_eq!(path[0], Domain::Surya);
    assert_eq!(path[1], Domain::Chandra);
}

#[test]
fn test_shortest_path_opposite() {
    let g = WheelGraph::new();
    let path = g.shortest_path(Domain::Surya, Domain::Brihaspati).unwrap();
    assert_eq!(path.len(), 2);
    assert_eq!(path[0], Domain::Surya);
    assert_eq!(path[1], Domain::Brihaspati);
}

#[test]
fn test_shortest_path_complex() {
    let g = WheelGraph::new();
    let path = g.shortest_path(Domain::Mangala, Domain::Budha);
    assert!(path.is_ok());
}

#[test]
fn test_neighbors_filtered() {
    let g = WheelGraph::new();
    let trine_neighbors = g.neighbors(Domain::Mangala, Some(CompositionAspect::Harmonic));
    assert_eq!(trine_neighbors.len(), 2);
    assert!(trine_neighbors.contains(&Domain::Shukra));
    assert!(trine_neighbors.contains(&Domain::Ketu));
}

#[test]
fn test_describe_relationship() {
    let g = WheelGraph::new();
    let desc = g.describe_relationship(Domain::Surya, Domain::Chandra);
    assert!(!desc.is_empty());
    assert!(desc.contains("Adjacent"));
}

#[test]
fn test_render_wheel() {
    let g = WheelGraph::new();
    let rendered = g.render_wheel();
    assert!(rendered.contains("Surya"));
    assert!(rendered.contains("Ketu"));
    assert!(rendered.contains("Grahas"));
    assert!(rendered.contains("Aspects"));
}

// ── further cases ──────────────────────────────────────────────

#[test]
fn shortest_path_detours_through_next_domain() {
    // Surya → Mangala is two steps: no direct edge, so the path passes Chandra.
    let g = WheelGraph::new();
    let path = g.shortest_path(Domain::Surya, Domain::Mangala).unwrap();
    assert_eq!(path, vec![Domain::Surya, Domain::Chandra, Domain::Mangala]);
    let same = g.shortest_path(Domain::Shani, Domain::Shani).unwrap();
    assert_eq!(same, vec![Domain::Shani]);
}

#[test]
fn offset_wraps_both_ways() {
    assert_eq!(Domain::Ketu.offset(1), Domain::Surya);
    assert_eq!(Domain::Surya.offset(-1), Domain::Ketu);
    assert_eq!(Domain::Surya.offset(-10), Domain::Ketu);
    assert_eq!(Domain::Budha.offset(18), Domain::Budha);
    assert_eq!(Domain::Surya.opposite(), Domain::Brihaspati);
}

#[test]
fn relationship_direction_and_reverse() {
    let r = Relationship::new(Domain::Surya, Domain::Ketu);
    assert_eq!(r.distance, 1);
    assert_eq!(r.direction, laverna::domain::Direction::Reverse);
    let back = r.reverse();
    assert_eq!(back.from, Domain::Ketu);
    assert_eq!(back.direction, laverna::domain::Direction::Forward);
    assert_eq!(back.reverse(), r);
}

#[test]
fn describe_relationship_exact_text() {
    let g = WheelGraph::new();
    assert_eq!(
        g.describe_relationship(Domain::Surya, Domain::Mangala),
        "☉ Sun → Mars: Tense (2 steps, structural) (distance 2, requires mediation)"
    );
}

#[test]
fn unfiltered_neighbors_in_wheel_order() {
    let g = WheelGraph::new();
    assert_eq!(
        g.neighbors(Domain::Surya, None),
        vec![
            Domain::Surya,
            Domain::Chandra,
            Domain::Budha,
            Domain::Brihaspati,
            Domain::Shani,
            Domain::Ketu
        ]
    );
}

#[test]
fn graph_node_uses_english_name() {
    let g = WheelGraph::new();
    let n = g.node(Domain::Rahu);
    assert_eq!(n.name, "North Node");
    assert_eq!(n.index, 7);
    assert_eq!(n.opposite, Domain::Mangala);
    assert_eq!(compute_all_nodes()[7].name, "Rahu");
}

#[test]
fn advance_by_zero_and_beyond_level() {
    let mut axis = UnderstandingAxis { level: 200, cycle: 3 };
    assert_eq!(axis.level_name(), "Beyond");
    assert_eq!(axis.band(), "Transcendent");
    axis.advance();
    assert_eq!((axis.level, axis.cycle), (0, 4));
    axis.advance_by(0);
    assert_eq!((axis.level, axis.cycle), (0, 4));
    assert_eq!(MasteryLayer::Learning.to_string(), "Learning (6)");
}

#[test]
fn test_find_paths_max_depth() {
    let g = WheelGraph::new();
    assert!(g.find_paths(Domain::Surya, Domain::Chandra, 0).is_err());
    let paths = g.find_paths(Domain::Surya, Domain::Chandra, 3).unwrap();
    assert!(!paths.is_empty());
}

#[test]
fn test_no_path_same() {
    let g = WheelGraph::new();
    let paths = g.find_paths(Domain::Mangala, Domain::Mangala, 5).unwrap();
    assert_eq!(paths.len(), 1);
    assert_eq!(paths[0], vec![Domain::Mangala]);
}

#[test]
fn find_paths_rejects_depth_beyond_twelve() {
    let g = WheelGraph::new();
    assert!(matches!(
        g.find_paths(Domain::Surya, Domain::Chandra, 13),
        Err(WheelError::MaxDepthExceeded(13))
    ));
}

#[test]
fn find_paths_depth_one_is_the_direct_edge() {
    let g = WheelGraph::new();
    let paths = g.find_paths(Domain::Surya, Domain::Chandra, 1).unwrap();
    assert_eq!(paths, vec![vec![Domain::Surya, Domain::Chandra]]);
    assert!(matches!(
        g.find_paths(Domain::Surya, Domain::Chandra, 0),
        Err(WheelError::NoPath(Domain::Surya, Domain::Chandra))
    ));
}

#[test]
fn find_paths_are_sorted_distinct_and_walk_edges() {
    let g = WheelGraph::new();
    let paths = g.find_paths(Domain::Surya, Domain::Shani, 3).unwrap();
    assert_eq!(paths[0], vec![Domain::Surya, Domain::Shani]);
    for w in paths.windows(2) {
        assert!(w[0].len() <= w[1].len());
    }
    for (i, p) in paths.iter().enumerate() {
        assert_eq!(p[0], Domain::Surya);
        assert_eq!(*p.last().unwrap(), Domain::Shani);
        assert!(p.len() <= 4);
        for s in p.windows(2) {
            assert!(g.has_edge(s[0], s[1]));
        }
        for q in paths.iter().skip(i + 1) {
            assert_ne!(p, q);
        }
    }
}

#[test]
fn find_paths_of_equal_length_follow_the_stored_edge_order() {
    let g = WheelGraph::new();
    let paths = g.find_paths(Domain::Surya, Domain::Chandra, 2).unwrap();
    assert_eq!(
        paths,
        vec![
            vec![Domain::Surya, Domain::Chandra],
            vec![Domain::Surya, Domain::Shani, Domain::Chandra],
            vec![Domain::Surya, Domain::Brihaspati, Domain::Chandra],
        ]
    );
}

#[test]
fn index_round_trips_for_every_domain() {
    for d in Domain::all() {
        assert_eq!(Domain::from_index(d.index()), Some(d));
    }
    assert_eq!(Domain::from_index(9), None);
}

#[test]
fn offsets_compose_and_wrap() {
    for d in Domain::all() {
        assert_eq!(d.offset(2).offset(5), d.offset(7));
        assert_eq!(d.offset(9), d);
        assert_eq!(d.offset(-1).offset(1), d);
    }
    assert_eq!(Domain::Surya.offset(-1), Domain::Ketu);
}

#[test]
fn aspects_are_symmetric() {
    for a in Domain::all() {
        assert_eq!(CompositionAspect::between(a, a), CompositionAspect::Aligned);
        for b in Domain::all() {
            assert_eq!(CompositionAspect::between(a, b), CompositionAspect::between(b, a));
        }
    }
}

#[test]
fn reversing_a_relationship_swaps_its_ends() {
    let r = Relationship::new(Domain::Surya, Domain::Budha);
    assert_eq!(r.reverse(), Relationship::new(Domain::Budha, Domain::Surya));
    assert_eq!(r.reverse().reverse(), r);
    let same = Relationship::new(Domain::Shani, Domain::Shani);
    assert_ne!(same.reverse(), same);
}

#[test]
fn advancing_deepens_by_one_each_step() {
    let mut a = UnderstandingAxis::new(11, 0);
    let d = a.depth();
    a.advance();
    assert_eq!(a.depth(), d + 1);
    a.advance();
    assert_eq!((a.level, a.cycle), (0, 1));
    assert_eq!(a.depth(), d + 2);
    let mut b = UnderstandingAxis::kindergarten();
    b.advance_by(30);
    assert_eq!(b.depth(), 30);
}

#[test]
fn layers_and_bands_round_trip() {
    for l in [MasteryLayer::Unknown, MasteryLayer::Aware, MasteryLayer::Learning, MasteryLayer::Known] {
        assert_eq!(MasteryLayer::from_level(l.level()), l);
    }
    for level in 0..=12u8 {
        let b = CurriculumBand::from_level(level);
        assert!(b.levels().contains(&level));
    }
}

#[test]
fn shortest_path_is_no_longer_than_any_found_path() {
    let g = WheelGraph::new();
    for a in Domain::all() {
        for b in Domain::all() {
            let p = g.shortest_path(a, b).unwrap();
            assert_eq!(p[0], a);
            assert_eq!(*p.last().unwrap(), b);
            if a != b {
                let all = g.find_paths(a, b, 3).unwrap();
                assert_eq!(all[0].len(), p.len());
            }
        }
    }
}

#[test]
fn parse_accepts_every_name_of_each_domain() {
    for d in ALL_DOMAINS {
        for s in [d.name(), d.name_lower(), d.full_name(), d.english_name(), d.symbol(), d.greek_symbol()] {
            assert_eq!(Domain::parse(s), Some(d), "{s}");
        }
        assert_eq!(Domain::parse(&d.name().to_uppercase()), Some(d));
    }
}

#[test]
fn filtered_neighbors_are_the_unfiltered_list_filtered() {
    let g = WheelGraph::new();
    let aspects = [
        CompositionAspect::Aligned,
        CompositionAspect::Adjacent,
        CompositionAspect::Tense,
        CompositionAspect::Harmonic,
        CompositionAspect::Antipodal,
    ];
    for d in ALL_DOMAINS {
        let all = g.neighbors(d, None);
        for a in aspects {
            let want: Vec<Domain> = all.iter().copied().filter(|&x| CompositionAspect::between(d, x) == a).collect();
            assert_eq!(g.neighbors(d, Some(a)), want);
        }
        for e in &all {
            assert!(g.has_edge(d, *e));
        }
    }
}
