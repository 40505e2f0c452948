use minesweeper::clock::{mix, seed_from_time};
use minesweeper::grid::{idx, neighbors};
use minesweeper::rng::XorShift64;
use minesweeper::shuffle::fisher_yates_shuffle;

#[test]
fn generator_from_seed_one() {
    let mut g = XorShift64::new(1);
    assert_eq!(g.next_u64(), 1082269761);
    assert_eq!(g.next_u64(), 1152992998833853505);
    assert_eq!(g.next_u64(), 11177516664432764457);
}

#[test]
fn generator_from_seed_zero_starts_at_one() {
    let mut g = XorShift64::new(0);
    assert_eq!(g.next_u64(), 1082269761);
}

#[test]
fn generator_draws_below_bound() {
    let mut g = XorShift64::new(12345);
    let drawn: Vec<usize> = (0..5).map(|_| g.next_below(10)).collect();
    assert_eq!(drawn, vec![4, 8, 0, 0, 7]);
}

#[test]
fn generator_draw_below_one_is_zero() {
    let mut g = XorShift64::new(77);
    assert_eq!(g.next_below(1), 0);
    assert_eq!(g.next_below(1), 0);
}

#[test]
fn draw_advances_like_next() {
    let mut a = XorShift64::new(5);
    let mut b = XorShift64::new(5);
    let x = a.next_u64();
    let j = b.next_below(1000);
    assert_eq!(j as u64, (x >> 1) % 1000);
    assert_eq!(a.next_u64(), b.next_u64());
}

#[test]
fn shuffle_of_eight_with_seed_42() {
    let mut v: Vec<usize> = (0..8).collect();
    let mut g = XorShift64::new(42);
    fisher_yates_shuffle(&mut v, &mut g);
    assert_eq!(v, vec![0, 2, 4, 6, 7, 3, 1, 5]);
}

#[test]
fn shuffle_of_letters_with_seed_7() {
    let mut v = vec!['a', 'b', 'c', 'd', 'e'];
    let mut g = XorShift64::new(7);
    fisher_yates_shuffle(&mut v, &mut g);
    assert_eq!(v, vec!['a', 'e', 'b', 'c', 'd']);
}

#[test]
fn shuffle_of_two_with_seed_3() {
    let mut v = vec![10, 20];
    let mut g = XorShift64::new(3);
    fisher_yates_shuffle(&mut v, &mut g);
    assert_eq!(v, vec![10, 20]);
}

#[test]
fn shuffle_of_none_and_one_draws_nothing() {
    let mut g = XorShift64::new(1);
    let mut none: Vec<u8> = Vec::new();
    fisher_yates_shuffle(&mut none, &mut g);
    assert!(none.is_empty());
    let mut one = vec![9u8];
    fisher_yates_shuffle(&mut one, &mut g);
    assert_eq!(one, vec![9]);
    assert_eq!(g.next_u64(), 1082269761);
}

#[test]
fn shuffle_draws_one_number_for_each_place_but_the_first() {
    let mut g = XorShift64::new(1);
    let mut v: Vec<usize> = (0..4).collect();
    fisher_yates_shuffle(&mut v, &mut g);
    let mut h = XorShift64::new(1);
    h.next_u64();
    h.next_u64();
    h.next_u64();
    assert_eq!(g.next_u64(), h.next_u64());
}

#[test]
fn shuffle_is_a_permutation() {
    for seed in 1..50u64 {
        let mut v: Vec<usize> = (0..30).collect();
        let mut g = XorShift64::new(seed);
        fisher_yates_shuffle(&mut v, &mut g);
        let mut sorted = v.clone();
        sorted.sort();
        assert_eq!(sorted, (0..30).collect::<Vec<usize>>());
    }
}

#[test]
fn index_is_row_major() {
    assert_eq!(idx(8, 0, 0), 0);
    assert_eq!(idx(8, 3, 1), 11);
    assert_eq!(idx(8, 7, 7), 63);
    assert_eq!(idx(1, 0, 5), 5);
}

#[test]
fn neighbors_in_the_middle() {
    assert_eq!(
        neighbors(5, 5, 2, 2),
        vec![(1, 1), (2, 1), (3, 1), (1, 2), (3, 2), (1, 3), (2, 3), (3, 3)]
    );
}

#[test]
fn neighbors_in_the_corners() {
    assert_eq!(neighbors(4, 3, 0, 0), vec![(1, 0), (0, 1), (1, 1)]);
    assert_eq!(neighbors(4, 3, 3, 0), vec![(2, 0), (2, 1), (3, 1)]);
    assert_eq!(neighbors(4, 3, 0, 2), vec![(0, 1), (1, 1), (1, 2)]);
    assert_eq!(neighbors(4, 3, 3, 2), vec![(2, 1), (3, 1), (2, 2)]);
}

#[test]
fn neighbors_on_an_edge() {
    assert_eq!(neighbors(4, 3, 1, 0), vec![(0, 0), (2, 0), (0, 1), (1, 1), (2, 1)]);
    assert_eq!(neighbors(4, 3, 3, 1), vec![(2, 0), (3, 0), (2, 1), (2, 2), (3, 2)]);
}

#[test]
fn neighbors_on_narrow_grids() {
    assert_eq!(neighbors(1, 1, 0, 0), Vec::<(usize, usize)>::new());
    assert_eq!(neighbors(3, 1, 1, 0), vec![(0, 0), (2, 0)]);
    assert_eq!(neighbors(1, 3, 0, 1), vec![(0, 0), (0, 2)]);
}

#[test]
fn neighbors_of_a_position_off_the_grid() {
    assert_eq!(neighbors(2, 2, 2, 0), vec![(1, 0), (1, 1)]);
    assert_eq!(neighbors(2, 2, 5, 5), Vec::<(usize, usize)>::new());
    assert_eq!(neighbors(2, 2, usize::MAX, usize::MAX), Vec::<(usize, usize)>::new());
}

#[test]
fn clock_mixing() {
    assert_eq!(mix(1700000000123456789, 1700000000), 8269855754480373013);
    assert_eq!(mix((1u128 << 64) + 5, 1), 4294967301);
    assert_eq!(mix(0, 0), 0);
}

#[test]
fn clock_seed_can_be_read() {
    let a = seed_from_time();
    let b = seed_from_time();
    let _ = (a, b);
}
