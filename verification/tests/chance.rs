use chapter_exercises::chance::{
    control_flow_with_statements_and_expressions_magic, random_values, ten_or_hundred,
};

#[test]
fn rolls_below_five_give_ten() {
    for roll in 0..5 {
        assert_eq!(ten_or_hundred(roll), 10);
    }
    for roll in 5..10 {
        assert_eq!(ten_or_hundred(roll), 100);
    }
    assert_eq!(ten_or_hundred(u32::MAX), 100);
}

#[test]
fn a_random_roll_gives_ten_or_a_hundred() {
    let mut tens = 0;
    let mut hundreds = 0;
    for _ in 0..400 {
        match control_flow_with_statements_and_expressions_magic() {
            10 => tens += 1,
            100 => hundreds += 1,
            other => panic!("unexpected value {}", other),
        }
    }
    // Both outcomes have probability one half: that one of them never
    // shows in 400 rolls means that nothing is drawn.
    assert!(tens > 0);
    assert!(hundreds > 0);
}

#[test]
fn drawn_lists_have_one_to_nine_values_in_range() {
    let mut lengths = std::collections::BTreeSet::new();
    let mut first_values = std::collections::BTreeSet::new();
    for _ in 0..500 {
        let values = random_values();
        assert!(1 <= values.len() && values.len() <= 9);
        for (index, value) in values.iter().enumerate() {
            let position = index as u32 + 1;
            assert_eq!(value % position, 0);
            assert!(1 <= value / position && value / position <= 4);
        }
        lengths.insert(values.len());
        first_values.insert(values[0]);
    }
    // The draws vary: a generator that handed back its lower bound would
    // give one length and one first value only.
    assert!(lengths.len() > 1);
    assert!(first_values.len() > 1);
}
