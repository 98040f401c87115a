use media_dispatch::batch::{batch, join_ids};
use media_dispatch::choice::{DownloadableUnit, UnitOrigin};

fn units(n: usize) -> Vec<DownloadableUnit> {
    (0..n)
        .map(|i| DownloadableUnit { id: format!("u{}", i), origin: UnitOrigin::TrackRef })
        .collect()
}

#[test]
fn no_units_means_no_batches() {
    let bs = batch(&units(0), 4);
    assert!(bs.is_empty());
}

#[test]
fn twelve_units_in_fives_make_batches_of_5_5_2() {
    let bs = batch(&units(12), 5);
    assert_eq!(bs.len(), 3);
    assert_eq!(bs[0].len(), 5);
    assert_eq!(bs[1].len(), 5);
    assert_eq!(bs[2].len(), 2);
}

#[test]
fn concatenation_of_batches_equals_the_input_in_order() {
    let input = units(11);
    let bs = batch(&input, 4);
    let flat: Vec<String> = bs.iter().flatten().map(|u| u.id.clone()).collect();
    let expected: Vec<String> = input.iter().map(|u| u.id.clone()).collect();
    assert_eq!(flat, expected);
}

#[test]
fn every_batch_but_the_last_is_full() {
    let bs = batch(&units(10), 3);
    assert_eq!(bs.len(), 4);
    for b in &bs[..3] {
        assert_eq!(b.len(), 3);
    }
    assert_eq!(bs[3].len(), 1);
}

#[test]
fn exact_multiple_leaves_no_short_batch() {
    let bs = batch(&units(8), 4);
    assert_eq!(bs.len(), 2);
    assert_eq!(bs[0].len(), 4);
    assert_eq!(bs[1].len(), 4);
}

#[test]
fn batch_size_one_isolates_every_unit() {
    let bs = batch(&units(3), 1);
    assert_eq!(bs.len(), 3);
    for (i, b) in bs.iter().enumerate() {
        assert_eq!(b.len(), 1);
        assert_eq!(b[0].id, format!("u{}", i));
    }
}

#[test]
fn joined_identifiers_are_comma_separated() {
    assert_eq!(join_ids(&units(0)), "");
    assert_eq!(join_ids(&units(1)), "u0");
    assert_eq!(join_ids(&units(3)), "u0,u1,u2");
}
