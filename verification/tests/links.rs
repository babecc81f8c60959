use xvisual::links::{build_links, nearest_of, MAX_LINKS};

fn keys(points: &[(f32, f32)]) -> Vec<Vec<u32>> {
    points
        .iter()
        .map(|a| {
            points
                .iter()
                .map(|b| {
                    let dx = a.0 - b.0;
                    let dy = (a.1 - b.1) * 2.0;
                    (dx * dx + dy * dy).sqrt().to_bits()
                })
                .collect()
        })
        .collect()
}

fn reference(points: &[(f32, f32)]) -> Vec<(usize, usize)> {
    let mut conns = Vec::new();
    let n = points.len();
    for i in 0..n {
        let mut nearby: Vec<(usize, f32)> = (i + 1..n)
            .filter_map(|j| {
                let dx = points[i].0 - points[j].0;
                let dy = (points[i].1 - points[j].1) * 2.0;
                let d = (dx * dx + dy * dy).sqrt();
                if d < 24.0 { Some((j, d)) } else { None }
            })
            .collect();
        nearby.sort_by(|a, b| a.1.partial_cmp(&b.1).unwrap());
        for &(j, _) in nearby.iter().take(4) {
            conns.push((i, j));
        }
    }
    conns
}

#[test]
fn nearest_picks_closest_later_neurons_in_order() {
    let row: Vec<u32> = vec![0, 50, 10, 30, 10, 99, 20, 5];
    assert_eq!(nearest_of(&row, 0, 60), vec![7, 2, 4, 6]);
    assert_eq!(nearest_of(&row, 3, 60), vec![7, 4, 6]);
    assert_eq!(nearest_of(&row, 3, 8), vec![7]);
    assert_eq!(nearest_of(&row, 7, 60), Vec::<usize>::new());
    assert_eq!(nearest_of(&row, 9, 60), Vec::<usize>::new());
}

#[test]
fn nearest_breaks_ties_by_index() {
    let row: Vec<u32> = vec![0, 4, 4, 4, 4, 4, 4];
    assert_eq!(nearest_of(&row, 0, 10), vec![1, 2, 3, 4]);
    assert_eq!(nearest_of(&row, 2, 10), vec![3, 4, 5, 6]);
}

#[test]
fn nearest_respects_the_reach() {
    let row: Vec<u32> = vec![0, 24, 23, 25];
    assert_eq!(nearest_of(&row, 0, 24), vec![2]);
}

#[test]
fn links_flatten_neuron_by_neuron() {
    let dist: Vec<Vec<u32>> = vec![
        vec![0, 3, 1, 9],
        vec![3, 0, 2, 2],
        vec![1, 2, 0, 7],
        vec![9, 2, 7, 0],
    ];
    assert_eq!(
        build_links(&dist, 8),
        vec![(0, 2), (0, 1), (1, 2), (1, 3), (2, 3)]
    );
    assert_eq!(build_links(&dist, 2), vec![(0, 2)]);
    assert_eq!(build_links(&Vec::new(), 8), Vec::<(usize, usize)>::new());
}

#[test]
fn links_match_sorting_the_float_distances() {
    let mut seed: u64 = 0xdeadbeef_cafebabe;
    let mut rand = || {
        seed ^= seed << 13;
        seed ^= seed >> 7;
        seed ^= seed << 17;
        (seed >> 11) as f32 / (1u64 << 53) as f32
    };
    for round in 0..20 {
        let n = 10 + round * 4;
        let points: Vec<(f32, f32)> =
            (0..n).map(|_| (2.0 + rand() * 76.0, 2.0 + rand() * 18.0)).collect();
        let links = build_links(&keys(&points), 24.0f32.to_bits());
        assert_eq!(links, reference(&points));
        for i in 0..n {
            assert!(links.iter().filter(|l| l.0 == i).count() <= MAX_LINKS);
        }
    }
}
