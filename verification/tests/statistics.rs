use chapter_exercises::statistics::{frequencies, median, middle_value, mode};

#[test]
fn frequencies_count_every_number() {
    let counts = frequencies(&vec![3, 1, 3, 7, 3, 1]);
    assert_eq!(counts.len(), 3);
    assert_eq!(counts.get(&3), Some(&3));
    assert_eq!(counts.get(&1), Some(&2));
    assert_eq!(counts.get(&7), Some(&1));
    assert_eq!(counts.get(&2), None);
    assert!(frequencies(&Vec::new()).is_empty());
}

#[test]
fn mode_is_the_most_frequent_number() {
    assert_eq!(mode(&vec![1, 2, 2, 3]), 2);
    assert_eq!(mode(&vec![5]), 5);
    assert_eq!(mode(&vec![4, 4, 4, 9, 9]), 4);
    assert_eq!(mode(&vec![9, 4, 9, 4, 9]), 9);
    assert_eq!(mode(&vec![0, 0, 1]), 0);
}

#[test]
fn mode_of_a_tie_is_one_of_the_most_frequent() {
    // Which of the most frequent numbers comes back is not specified.
    let m = mode(&vec![1, 1, 2, 2, 3]);
    assert!(m == 1 || m == 2);
}

#[test]
fn mode_of_nothing_is_zero() {
    assert_eq!(mode(&Vec::new()), 0);
}

#[test]
fn median_sorts_and_takes_the_middle() {
    let mut odd = vec![9, 1, 4];
    assert_eq!(median(&mut odd), 4);
    assert_eq!(odd, vec![1, 4, 9]);

    let mut even = vec![8, 2, 4, 6];
    assert_eq!(median(&mut even), 5);
    assert_eq!(even, vec![2, 4, 6, 8]);

    let mut single = vec![7];
    assert_eq!(median(&mut single), 7);

    let mut rounded = vec![2, 1];
    assert_eq!(median(&mut rounded), 1);

    let mut repeated = vec![3, 12, 3, 4, 3];
    assert_eq!(median(&mut repeated), 3);
    assert_eq!(repeated, vec![3, 3, 3, 4, 12]);
}

#[test]
fn median_of_large_numbers_does_not_overflow() {
    let mut values = vec![u32::MAX, u32::MAX - 2];
    assert_eq!(median(&mut values), u32::MAX - 1);
}

#[test]
fn middle_of_a_list_as_it_stands() {
    assert_eq!(middle_value(&vec![1, 2, 3]), 2);
    assert_eq!(middle_value(&vec![9, 1, 5, 0]), 3);
    assert_eq!(middle_value(&vec![4]), 4);
}
