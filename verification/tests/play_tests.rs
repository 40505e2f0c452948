use minesweeper::engine::{Board, RevealResult};
use minesweeper::rng::XorShift64;

fn touching(w: usize, h: usize, x: usize, y: usize) -> Vec<(usize, usize)> {
    let mut out = Vec::new();
    for ny in y.saturating_sub(1)..=(y + 1).min(h - 1) {
        for nx in x.saturating_sub(1)..=(x + 1).min(w - 1) {
            if (nx, ny) != (x, y) {
                out.push((nx, ny));
            }
        }
    }
    out
}

struct Snapshot {
    mines: Vec<bool>,
    counts: Vec<u8>,
    revealed: Vec<bool>,
    flagged: Vec<bool>,
    remaining: usize,
    alive: bool,
    won: bool,
}

fn snapshot(b: &Board) -> Snapshot {
    let mut s = Snapshot {
        mines: Vec::new(),
        counts: Vec::new(),
        revealed: Vec::new(),
        flagged: Vec::new(),
        remaining: b.remaining_safe(),
        alive: b.alive(),
        won: b.won(),
    };
    for y in 0..b.height() {
        for x in 0..b.width() {
            let c = b.cell(x, y).unwrap();
            s.mines.push(c.is_mine());
            s.counts.push(c.adjacent());
            s.revealed.push(c.revealed());
            s.flagged.push(c.flagged());
        }
    }
    s
}

/// The cells that a fill from `(x, y)` uncovers, found by searching the grid
/// again and again until nothing changes.
fn expected_fill(s: &Snapshot, w: usize, h: usize, x: usize, y: usize) -> Vec<bool> {
    let open = |i: usize| !s.revealed[i] && !s.flagged[i] && !s.mines[i];
    let mut reached = vec![false; w * h];
    if open(y * w + x) {
        reached[y * w + x] = true;
    }
    loop {
        let mut grew = false;
        for cy in 0..h {
            for cx in 0..w {
                let i = cy * w + cx;
                if reached[i] && s.counts[i] == 0 {
                    for (nx, ny) in touching(w, h, cx, cy) {
                        let j = ny * w + nx;
                        if open(j) && !reached[j] {
                            reached[j] = true;
                            grew = true;
                        }
                    }
                }
            }
        }
        if !grew {
            return reached;
        }
    }
}

#[test]
fn first_reveal_is_safe_everywhere() {
    for seed in 1..=40u64 {
        for y in 0..5 {
            for x in 0..6 {
                let mut b = Board::new(6, 5, 12, seed).expect("board");
                assert_eq!(b.reveal_cell(x, y), RevealResult::RevealedSafe);
                let c = b.cell(x, y).unwrap();
                assert!(!c.is_mine());
                assert!(c.revealed());
            }
        }
    }
}

#[test]
fn first_reveal_is_safe_with_one_safe_cell() {
    for seed in 1..=60u64 {
        let x = (seed % 4) as usize;
        let y = (seed % 3) as usize;
        let mut b = Board::new(4, 3, 11, seed).expect("board");
        assert_eq!(b.reveal_cell(x, y), RevealResult::RevealedSafe);
        assert!(!b.cell(x, y).unwrap().is_mine());
        assert!(b.won());
    }
}

#[test]
fn counts_match_mines_around_for_many_seeds() {
    for seed in 1..=60u64 {
        let w = 3 + (seed % 7) as usize;
        let h = 2 + (seed % 5) as usize;
        let m = (seed as usize * 3) % (w * h);
        let mut b = Board::new(w, h, m, seed).expect("board");
        b.reveal_cell(w - 1, 0);
        let s = snapshot(&b);
        for y in 0..h {
            for x in 0..w {
                let i = y * w + x;
                if s.mines[i] {
                    assert_eq!(s.counts[i], 0);
                } else {
                    let around =
                        touching(w, h, x, y).iter().filter(|p| s.mines[p.1 * w + p.0]).count();
                    assert_eq!(s.counts[i] as usize, around);
                }
            }
        }
    }
}

#[test]
fn mines_placed_are_the_mines_asked_for() {
    for seed in 1..=60u64 {
        let w = 1 + (seed % 9) as usize;
        let h = 1 + (seed % 4) as usize;
        let m = (seed as usize * 5) % (w * h);
        let mut b = Board::new(w, h, m, seed).expect("board");
        assert_eq!(b.remaining_safe(), w * h - m);
        assert_eq!(snapshot(&b).mines.iter().filter(|v| **v).count(), 0);
        b.reveal_cell(0, h - 1);
        let s = snapshot(&b);
        assert_eq!(s.mines.iter().filter(|v| **v).count(), m);
        let hidden_safe = (0..w * h).filter(|i| !s.mines[*i] && !s.revealed[*i]).count();
        assert_eq!(s.remaining, hidden_safe);
    }
}

#[test]
fn play_is_monotone_and_never_both_won_and_lost() {
    for seed in 1..=40u64 {
        let (w, h, m) = (7usize, 6usize, 6usize);
        let mut b = Board::new(w, h, m, seed).expect("board");
        let mut moves = XorShift64::new(seed.wrapping_mul(7919));
        let mut before = snapshot(&b);
        for _ in 0..80 {
            let x = moves.next_below(w + 1);
            let y = moves.next_below(h + 1);
            let flag = moves.next_below(4) == 0;
            let placed = before.mines.iter().any(|v| *v);
            if flag {
                let changed = b.toggle_flag(x, y);
                let now = snapshot(&b);
                assert_eq!(changed, x < w && y < h && !before.revealed[y * w + x]);
                assert_eq!(now.revealed, before.revealed);
                assert_eq!(now.mines, before.mines);
                assert_eq!(now.counts, before.counts);
                assert_eq!(now.remaining, before.remaining);
                assert_eq!(now.alive, before.alive);
                assert_eq!(now.won, before.won);
                for i in 0..w * h {
                    assert_eq!(
                        now.flagged[i] != before.flagged[i],
                        changed && i == y * w + x
                    );
                }
                before = now;
                continue;
            }
            let result = b.reveal_cell(x, y);
            let now = snapshot(&b);
            for i in 0..w * h {
                assert!(!before.revealed[i] || now.revealed[i]);
                assert_eq!(now.flagged[i], before.flagged[i]);
                assert!(!(now.revealed[i] && now.flagged[i]));
                if placed {
                    assert_eq!(now.mines[i], before.mines[i]);
                    assert_eq!(now.counts[i], before.counts[i]);
                }
            }
            assert!(now.remaining <= before.remaining);
            assert!(before.alive || !now.alive);
            assert!(!before.won || now.won);
            assert!(!(now.won && !now.alive));
            assert_eq!(now.won, now.remaining == 0);
            let ignored = !before.alive
                || before.won
                || x >= w
                || y >= h
                || before.flagged[y * w + x]
                || before.revealed[y * w + x];
            if ignored {
                assert_eq!(result, RevealResult::NoOp);
                assert_eq!(now.revealed, before.revealed);
                assert_eq!(now.mines, before.mines);
                assert_eq!(now.remaining, before.remaining);
                assert_eq!(now.alive, before.alive);
                assert_eq!(now.won, before.won);
            } else if now.mines[y * w + x] {
                assert_eq!(result, RevealResult::HitMine);
                assert!(!now.alive);
                assert_eq!(now.remaining, before.remaining);
                for i in 0..w * h {
                    assert_eq!(now.revealed[i], before.revealed[i] || i == y * w + x);
                }
            } else {
                assert_eq!(result, RevealResult::RevealedSafe);
                assert!(now.alive);
                assert!(now.revealed[y * w + x]);
                if placed {
                    let fill = expected_fill(&before, w, h, x, y);
                    for i in 0..w * h {
                        assert_eq!(now.revealed[i], before.revealed[i] || fill[i]);
                    }
                }
            }
            before = now;
        }
    }
}

#[test]
fn flood_fill_uncovers_the_whole_region_and_its_border() {
    let mut b = Board::new(9, 9, 10, 12345).expect("board");
    assert_eq!(b.reveal_cell(0, 0), RevealResult::RevealedSafe);
    let s = snapshot(&b);
    let shown: Vec<usize> = (0..81).filter(|i| s.revealed[*i]).collect();
    assert_eq!(shown.len(), 56);
    for i in 0..81 {
        if s.revealed[i] && s.counts[i] == 0 {
            for (nx, ny) in touching(9, 9, i % 9, i / 9) {
                assert!(s.revealed[ny * 9 + nx]);
            }
        }
        assert!(!(s.revealed[i] && s.mines[i]));
    }
    assert!(!s.revealed[7]);
    assert!(!s.revealed[8]);
    assert!(s.revealed[6]);
    assert_eq!(s.counts[6], 1);
}

#[test]
fn flood_fill_stops_at_flags() {
    let mut b = Board::new(9, 9, 10, 12345).expect("board");
    assert!(b.toggle_flag(2, 2));
    assert!(b.toggle_flag(8, 8));
    let start = snapshot(&b);
    assert_eq!(b.reveal_cell(0, 0), RevealResult::RevealedSafe);
    let s = snapshot(&b);
    assert!(!s.revealed[2 * 9 + 2]);
    assert!(s.flagged[2 * 9 + 2]);
    assert_eq!(s.counts[2 * 9 + 2], 0);
    assert_eq!(s.remaining, 16);
    assert_eq!(s.flagged, start.flagged);
    assert!(b.toggle_flag(2, 2));
    assert_eq!(b.reveal_cell(2, 2), RevealResult::RevealedSafe);
    assert_eq!(b.remaining_safe(), 15);
}

#[test]
fn flood_fill_walled_in_by_flags() {
    let mut b = Board::new(9, 9, 10, 12345).expect("board");
    for (x, y) in [(1, 0), (0, 1), (1, 1)] {
        assert!(b.toggle_flag(x, y));
    }
    assert_eq!(b.reveal_cell(0, 0), RevealResult::RevealedSafe);
    let s = snapshot(&b);
    let shown: Vec<usize> = (0..81).filter(|i| s.revealed[*i]).collect();
    assert_eq!(shown, vec![0]);
    assert_eq!(s.remaining, 70);
    assert_eq!(s.counts[0], 0);
}

#[test]
fn same_seed_same_layout() {
    for seed in [1u64, 2, 999, 12345, u64::MAX] {
        let mut a = Board::new(10, 8, 15, seed).expect("board");
        let mut b = Board::new(10, 8, 15, seed).expect("board");
        b.toggle_flag(9, 7);
        b.toggle_flag(0, 0);
        assert_eq!(a.reveal_cell(4, 3), RevealResult::RevealedSafe);
        assert_eq!(b.reveal_cell(4, 3), RevealResult::RevealedSafe);
        let sa = snapshot(&a);
        let sb = snapshot(&b);
        assert_eq!(sa.mines, sb.mines);
        assert_eq!(sa.counts, sb.counts);
    }
}

#[test]
fn layout_depends_on_seed_and_first_cell() {
    let layout = |seed: u64, x: usize, y: usize| {
        let mut b = Board::new(10, 8, 15, seed).expect("board");
        b.reveal_cell(x, y);
        snapshot(&b).mines
    };
    assert_ne!(layout(1, 4, 3), layout(2, 4, 3));
    assert!(layout(1, 4, 3)[0]);
    assert!(!layout(1, 0, 0)[0]);
    assert_eq!(layout(1, 4, 3), layout(1, 4, 3));
}
