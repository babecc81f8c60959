use xvisual::cull::cull;

#[test]
fn cull_fills_holes_from_the_back() {
    let mut items = vec![10u32, 11, 12, 13, 14];
    cull(&mut items, vec![false, true, false, true, false]);
    assert_eq!(items, vec![10, 14, 12]);
}

#[test]
fn cull_keeps_everything_when_nothing_is_gone() {
    let mut items = vec![1u8, 2, 3];
    cull(&mut items, vec![false, false, false]);
    assert_eq!(items, vec![1, 2, 3]);
}

#[test]
fn cull_can_empty_the_list() {
    let mut items = vec![1u8, 2, 3];
    cull(&mut items, vec![true, true, true]);
    assert!(items.is_empty());
}

#[test]
fn cull_matches_in_place_swap_removal() {
    let mut seed: u64 = 12345;
    for round in 0..200 {
        let n = round % 17;
        let items: Vec<u64> = (0..n as u64).collect();
        let gone: Vec<bool> = (0..n)
            .map(|_| {
                seed = seed.wrapping_mul(6364136223846793005).wrapping_add(1442695040888963407);
                (seed >> 33) % 3 == 0
            })
            .collect();
        let mut expected = items.clone();
        let mut flags = gone.clone();
        let mut i = 0;
        while i < expected.len() {
            if flags[i] {
                expected.swap_remove(i);
                flags.swap_remove(i);
            } else {
                i += 1;
            }
        }
        let mut got = items.clone();
        cull(&mut got, gone.clone());
        assert_eq!(got, expected);
        let mut kept: Vec<u64> = (0..n as u64).filter(|&k| !gone[k as usize]).collect();
        let mut sorted = got.clone();
        sorted.sort();
        kept.sort();
        assert_eq!(sorted, kept);
    }
}

#[test]
fn cull_order_is_the_swap_order_not_a_stable_filter() {
    let mut items = vec!['a', 'X', 'b', 'c'];
    cull(&mut items, vec![false, true, false, false]);
    assert_eq!(items, vec!['a', 'c', 'b']);
}

#[test]
fn cull_rechecks_the_moved_item() {
    let mut items = vec![1u8, 2, 3, 4];
    cull(&mut items, vec![true, false, false, true]);
    assert_eq!(items, vec![3, 2]);
}
