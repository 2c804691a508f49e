use hintsx::hints::{all_distinct, generate_hints, label_targets, Child, HintMap};

fn target(x: i32, y: i32) -> Child {
    Child { absolute_x: x, absolute_y: y, width: 10, height: 10 }
}

fn targets(count: i32) -> Vec<Child> {
    (0..count).map(|i| target(i, 2 * i)).collect()
}

/// The label of `index` over `alphabet`, `width` characters wide, worked out
/// digit by digit.
fn expected_label(index: usize, alphabet: &str, width: usize) -> String {
    let symbols: Vec<char> = alphabet.chars().collect();
    let mut rest = index;
    let mut label = Vec::new();
    for _ in 0..width {
        label.push(symbols[rest % symbols.len()]);
        rest /= symbols.len();
    }
    label.reverse();
    label.into_iter().collect()
}

#[test]
fn three_targets_over_two_letters() {
    let targets = vec![target(0, 0), target(50, 50), target(100, 100)];
    let hints = generate_hints(&targets, "ab");
    assert_eq!(hints.len(), 3);
    assert_eq!(hints.get("aa"), Some(targets[0]));
    assert_eq!(hints.get("ab"), Some(targets[1]));
    assert_eq!(hints.get("ba"), Some(targets[2]));
    assert_eq!(hints.get("bb"), None);
    assert_eq!(hints.get("a"), None);
}

#[test]
fn no_targets_give_no_labels() {
    let hints = generate_hints(&[], "ab");
    assert!(hints.is_empty());
    assert_eq!(hints.len(), 0);
}

#[test]
fn empty_alphabet_gives_no_labels() {
    let hints = generate_hints(&[target(1, 2)], "");
    assert!(hints.is_empty());
}

#[test]
fn single_target_gets_one_character() {
    let hints = generate_hints(&[target(7, 8)], "xyz");
    assert_eq!(hints.len(), 1);
    assert_eq!(hints.get("x"), Some(target(7, 8)));
    assert_eq!(hints.get(""), None);
}

#[test]
fn single_target_over_single_character() {
    let hints = generate_hints(&[target(7, 8)], "q");
    assert_eq!(hints.len(), 1);
    assert_eq!(hints.get("q"), Some(target(7, 8)));
}

#[test]
fn as_many_targets_as_letters_need_one_character() {
    let all = targets(3);
    let hints = generate_hints(&all, "abc");
    assert_eq!(hints.len(), 3);
    assert_eq!(hints.get("a"), Some(all[0]));
    assert_eq!(hints.get("b"), Some(all[1]));
    assert_eq!(hints.get("c"), Some(all[2]));
}

#[test]
fn one_target_more_than_letters_needs_two_characters() {
    let all = targets(4);
    let hints = generate_hints(&all, "abc");
    assert_eq!(hints.len(), 4);
    assert_eq!(hints.get("aa"), Some(all[0]));
    assert_eq!(hints.get("ab"), Some(all[1]));
    assert_eq!(hints.get("ac"), Some(all[2]));
    assert_eq!(hints.get("ba"), Some(all[3]));
    assert_eq!(hints.get("a"), None);
}

#[test]
fn width_is_least_power_that_suffices() {
    // (targets, alphabet, width)
    let cases = [
        (1, "ab", 1),
        (2, "ab", 1),
        (3, "ab", 2),
        (4, "ab", 2),
        (5, "ab", 3),
        (8, "ab", 3),
        (9, "ab", 4),
        (26, "asdfgqwertzxcvbhjklyuiopnm", 1),
        (27, "asdfgqwertzxcvbhjklyuiopnm", 2),
        (676, "asdfgqwertzxcvbhjklyuiopnm", 2),
        (677, "asdfgqwertzxcvbhjklyuiopnm", 3),
        (100, "0123456789", 2),
        (101, "0123456789", 3),
    ];
    for (count, alphabet, width) in cases {
        let all = targets(count);
        let hints = generate_hints(&all, alphabet);
        assert_eq!(hints.len(), count as usize);
        for (index, child) in all.iter().enumerate() {
            let label = expected_label(index, alphabet, width);
            assert_eq!(hints.get(&label), Some(*child), "{} of {}", index, count);
        }
    }
}

#[test]
fn labels_are_unique_and_read_back_as_indices() {
    let alphabet = "xyz";
    let all = targets(20);
    let hints = generate_hints(&all, alphabet);
    assert_eq!(hints.len(), 20);
    let mut seen = Vec::new();
    for index in 0..20usize {
        let label = expected_label(index, alphabet, 3);
        let read_back = label
            .chars()
            .fold(0usize, |value, c| value * 3 + alphabet.chars().position(|s| s == c).unwrap());
        assert_eq!(read_back, index);
        assert_eq!(hints.get(&label), Some(all[index]));
        assert!(!seen.contains(&label));
        seen.push(label);
    }
}

#[test]
fn no_label_is_a_proper_prefix_of_another() {
    let alphabet = "ab";
    let all = targets(7);
    let hints = generate_hints(&all, alphabet);
    let labels: Vec<String> = (0..7).map(|i| expected_label(i, alphabet, 3)).collect();
    for shorter in &labels {
        assert!(hints.get(shorter).is_some());
        for longer in &labels {
            if longer.starts_with(shorter.as_str()) {
                assert_eq!(shorter, longer);
            }
        }
        for cut in 0..shorter.len() {
            assert_eq!(hints.get(&shorter[..cut]), None);
        }
    }
}

#[test]
fn alphabet_outside_ascii() {
    let all = targets(3);
    let hints = generate_hints(&all, "äß");
    assert_eq!(hints.get("ää"), Some(all[0]));
    assert_eq!(hints.get("äß"), Some(all[1]));
    assert_eq!(hints.get("ßä"), Some(all[2]));
}

#[test]
fn repeated_letter_makes_later_targets_win() {
    let all = targets(3);
    let hints = generate_hints(&all, "aa");
    assert_eq!(hints.len(), 1);
    assert_eq!(hints.get("aa"), Some(all[2]));
}

#[test]
fn insert_binds_and_rebinds() {
    let mut hints = HintMap::new();
    assert!(hints.is_empty());
    hints.insert("aa".to_string(), target(1, 1));
    hints.insert("ab".to_string(), target(2, 2));
    assert_eq!(hints.len(), 2);
    hints.insert("aa".to_string(), target(3, 3));
    assert_eq!(hints.len(), 2);
    assert_eq!(hints.get("aa"), Some(target(3, 3)));
    assert_eq!(hints.get("ab"), Some(target(2, 2)));
    assert_eq!(hints.get("ac"), None);
}

#[test]
fn lookups_by_characters() {
    let all = targets(5);
    let hints = generate_hints(&all, "ab");
    let chars = |text: &str| text.chars().collect::<Vec<char>>();
    assert_eq!(hints.find(&chars("aaa")), Some(all[0]));
    assert_eq!(hints.find(&chars("baa")), Some(all[4]));
    assert_eq!(hints.find(&chars("bab")), None);
    assert_eq!(hints.find(&chars("")), None);
    assert!(hints.has_prefix(&chars("")));
    assert!(hints.has_prefix(&chars("a")));
    assert!(hints.has_prefix(&chars("ab")));
    assert!(hints.has_prefix(&chars("ba")));
    assert!(hints.has_prefix(&chars("baa")));
    assert!(!hints.has_prefix(&chars("bb")));
    assert!(!hints.has_prefix(&chars("bab")));
    assert!(!hints.has_prefix(&chars("aaaa")));
    assert!(!hints.has_prefix(&chars("c")));
    assert!(!HintMap::new().has_prefix(&chars("")));
}

#[test]
fn entries_list_every_label_once() {
    let all = targets(6);
    let hints = generate_hints(&all, "abc");
    let mut entries = hints.entries();
    entries.sort_by(|left, right| left.0.cmp(&right.0));
    let expected: Vec<(String, Child)> = ["aa", "ab", "ac", "ba", "bb", "bc"]
        .iter()
        .enumerate()
        .map(|(index, label)| (label.to_string(), all[index]))
        .collect();
    assert_eq!(entries, expected);
    assert!(HintMap::new().entries().is_empty());
}

#[test]
fn many_targets_are_labelled_in_one_pass() {
    // 26 * 26 * 26 targets still fit three letters
    let all = targets(17_576);
    let hints = generate_hints(&all, "asdfgqwertzxcvbhjklyuiopnm");
    assert_eq!(hints.len(), 17_576);
    assert_eq!(hints.get("aaa"), Some(all[0]));
    assert_eq!(hints.get("aas"), Some(all[1]));
    assert_eq!(hints.get("mmm"), Some(all[17_575]));
    assert_eq!(hints.get("aaaa"), None);
    // one more needs a fourth
    let all = targets(17_577);
    let hints = generate_hints(&all, "asdfgqwertzxcvbhjklyuiopnm");
    assert_eq!(hints.get("aaaa"), Some(all[0]));
    assert_eq!(hints.get("saaa"), Some(all[17_576]));
    assert_eq!(hints.get("aaa"), None);
}

#[test]
fn distinct_characters() {
    let chars = |text: &str| text.chars().collect::<Vec<char>>();
    assert!(all_distinct(&chars("")));
    assert!(all_distinct(&chars("a")));
    assert!(all_distinct(&chars("asdfgqwertzxcvbhjklyuiopnm")));
    assert!(!all_distinct(&chars("aa")));
    assert!(!all_distinct(&chars("abca")));
    assert!(!all_distinct(&chars("abcc")));
}

#[test]
fn single_character_labels_one_target_at_most() {
    let all = targets(3);
    assert!(label_targets(&all, "q").is_none());
    assert!(label_targets(&all, "ä").is_none());
    let one = label_targets(&all[..1], "q").unwrap();
    assert_eq!(one.get("q"), Some(all[0]));
    assert!(label_targets(&[], "q").unwrap().is_empty());
    assert!(label_targets(&all, "").unwrap().is_empty());
    let three = label_targets(&all, "qw").unwrap();
    assert_eq!(three.len(), 3);
    assert_eq!(three.get("wq"), Some(all[2]));
}
