use feedforward::matrix::Matrix;
use feedforward::random::RandomSource;
use rand::rngs::StdRng;
use rand::{Rng, RngCore, SeedableRng};

#[test]
fn draw_returns_as_many_words_as_asked() {
    let mut source = RandomSource::seeded(1);
    assert_eq!(source.draw(0).len(), 0);
    assert_eq!(source.draw(1).len(), 1);
    assert_eq!(source.draw(100).len(), 100);
}

#[test]
fn draw_moves_the_seed_on_by_one() {
    let mut source = RandomSource::seeded(41);
    source.draw(3);
    assert_eq!(source, RandomSource::seeded(42));
    let mut last = RandomSource::seeded(u64::MAX);
    last.draw(3);
    assert_eq!(last, RandomSource::seeded(0));
}

#[test]
fn sources_of_the_same_seed_hand_out_the_same_words() {
    let mut first = RandomSource::seeded(2024);
    let mut second = RandomSource::seeded(2024);
    assert_eq!(first.draw(16), second.draw(16));
    assert_eq!(first.draw(5), second.draw(5));
}

#[test]
fn draws_are_the_words_of_the_standard_generator() {
    let mut source = RandomSource::seeded(7);
    let words = source.draw(4);
    let mut generator = StdRng::seed_from_u64(7);
    let expected: Vec<u64> = (0..4).map(|_| generator.next_u64()).collect();
    assert_eq!(words, expected);
    let again = source.draw(2);
    let mut next = StdRng::seed_from_u64(8);
    assert_eq!(again, vec![next.next_u64(), next.next_u64()]);
}

#[test]
fn draws_are_neither_constant_nor_the_seed() {
    let mut source = RandomSource::seeded(7);
    let first = source.draw(8);
    let second = source.draw(8);
    assert_ne!(first, second);
    assert_ne!(first, vec![7; 8]);
    assert_ne!(first, vec![0; 8]);
    assert_ne!(first[0], first[1]);
    assert_ne!(RandomSource::seeded(8).draw(8), RandomSource::seeded(9).draw(8));
}

#[test]
fn a_source_from_entropy_can_be_drawn_from() {
    let mut source = RandomSource::from_entropy();
    let seed = source.seed;
    assert_eq!(source.draw(3).len(), 3);
    assert_eq!(source.seed, seed.wrapping_add(1));
}

#[test]
fn random_matrix_samples_the_words_of_one_draw() {
    let mut source = RandomSource::seeded(5);
    let m: Matrix<i64> = Matrix::random(3, 4, &mut source);
    assert_eq!(source, RandomSource::seeded(6));
    let words = RandomSource::seeded(5).draw(12);
    assert_eq!(Ok(m.clone()), Matrix::sampled(3, 4, &words));
    for row in 0..3 {
        for col in 0..4 {
            let entry = m.get(row, col).unwrap();
            assert!((-1..=1).contains(&entry));
            assert_eq!(entry, (words[row * 4 + col] % 3) as i64 - 1);
        }
    }
}

#[test]
fn random_matrices_of_one_source_differ() {
    let mut source = RandomSource::seeded(5);
    let first: Matrix<i64> = Matrix::random(4, 4, &mut source);
    let second: Matrix<i64> = Matrix::random(4, 4, &mut source);
    assert_ne!(first, second);
    let mut generator = StdRng::seed_from_u64(6);
    assert_eq!(second.get(0, 0), Some((generator.gen::<u64>() % 3) as i64 - 1));
}
