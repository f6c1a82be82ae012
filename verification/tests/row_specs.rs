use melkkipdf::layout::{
    build_row_specs, page_locations, reference_dims, spread_index, PageSize, RowSpec, Spread,
};

fn as_pairs(specs: &[RowSpec]) -> Vec<(usize, Option<usize>)> {
    specs.iter().map(|s| (s.left, s.right)).collect()
}

#[test]
fn no_spreads_is_one_page_per_row() {
    let specs = build_row_specs(3, Spread::Single);
    assert_eq!(as_pairs(&specs), vec![(0, None), (1, None), (2, None)]);
}

#[test]
fn odd_spreads_pair_from_the_first_page() {
    let specs = build_row_specs(5, Spread::Odd);
    // [0,1] [2,3] [4]
    assert_eq!(as_pairs(&specs), vec![(0, Some(1)), (2, Some(3)), (4, None)]);
}

#[test]
fn even_spreads_keep_the_first_page_alone() {
    let specs = build_row_specs(5, Spread::Even);
    // [0] [1,2] [3,4]
    assert_eq!(as_pairs(&specs), vec![(0, None), (1, Some(2)), (3, Some(4))]);
}

#[test]
fn locations_map_pages_back_to_rows() {
    let specs = build_row_specs(5, Spread::Even);
    let loc = page_locations(&specs, 5);
    // page 0 -> row 0 left; page 2 -> row 1 right; page 3 -> row 2 left.
    assert_eq!(loc[0], (0, false));
    assert_eq!(loc[1], (1, false));
    assert_eq!(loc[2], (1, true));
    assert_eq!(loc[3], (2, false));
    assert_eq!(loc[4], (2, true));
}

#[test]
fn handles_empty_and_single_page_documents() {
    assert!(build_row_specs(0, Spread::Even).is_empty());
    assert_eq!(as_pairs(&build_row_specs(1, Spread::Odd)), vec![(0, None)]);
    assert_eq!(as_pairs(&build_row_specs(1, Spread::Even)), vec![(0, None)]);
}

#[test]
fn every_page_is_found_where_its_row_puts_it() {
    for spread in [Spread::Single, Spread::Odd, Spread::Even] {
        for count in 0..12 {
            let specs = build_row_specs(count, spread);
            let locations = page_locations(&specs, count);
            assert_eq!(locations.len(), count);
            for (page, &(row, is_right)) in locations.iter().enumerate() {
                let found = if is_right { specs[row].right } else { Some(specs[row].left) };
                assert_eq!(found, Some(page));
            }
            // Pages keep their order, and none is missing.
            let mut next = 0;
            for spec in &specs {
                assert_eq!(spec.left, next);
                next = spec.right.unwrap_or(spec.left) + 1;
            }
            assert_eq!(next, count);
        }
    }
}

#[test]
fn pages_that_no_row_mentions_are_at_the_start() {
    let specs = [RowSpec { left: 2, right: None }, RowSpec { left: 0, right: Some(2) }];
    assert_eq!(page_locations(&specs, 4), vec![(1, false), (0, false), (1, true), (0, false)]);
}

#[test]
fn reference_is_the_largest_row() {
    let pages = [
        PageSize { width: 100, height: 400 },
        PageSize { width: 300, height: 200 },
        PageSize { width: 250, height: 500 },
        PageSize { width: 10, height: 10 },
    ];
    assert_eq!(reference_dims(&build_row_specs(4, Spread::Single), &pages), (300, 500));
    assert_eq!(reference_dims(&build_row_specs(4, Spread::Odd), &pages), (400, 500));
    assert_eq!(reference_dims(&build_row_specs(4, Spread::Even), &pages), (550, 500));
    assert_eq!(reference_dims(&[], &pages), (0, 0));
}

#[test]
fn spread_radios_are_numbered() {
    assert_eq!(spread_index(Spread::Single), 0);
    assert_eq!(spread_index(Spread::Odd), 1);
    assert_eq!(spread_index(Spread::Even), 2);
}
