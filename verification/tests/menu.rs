use rarian::ui::menu::{build_input_message, choose_with_input, ChoiceError};

#[test]
fn the_message_lists_the_choices_from_zero() {
    let choices = vec![
        "add a note".to_string(),
        "show current app".to_string(),
        "show last apps".to_string(),
        "quit rarian".to_string(),
    ];
    assert_eq!(
        build_input_message(&choices),
        "Choose an option:\n0. add a note\n1. show current app\n2. show last apps\n3. quit rarian\n"
    );
    assert_eq!(build_input_message(&Vec::new()), "Choose an option:\n");
}

#[test]
fn indices_are_written_in_decimal() {
    let choices: Vec<String> = (0..112).map(|i| format!("c{}", i)).collect();
    let message = build_input_message(&choices);
    let mut expected = String::from("Choose an option:\n");
    for (index, choice) in choices.iter().enumerate() {
        expected += &format!("{}. {}\n", index, choice);
    }
    assert_eq!(message, expected);
    assert!(message.contains("\n9. c9\n10. c10\n"));
    assert!(message.ends_with("\n111. c111\n"));
}

#[test]
fn an_answer_names_a_choice() {
    assert_eq!(choose_with_input("0\n", 4), Ok(0));
    assert_eq!(choose_with_input(" 3 ", 4), Ok(3));
    assert_eq!(choose_with_input("+2", 4), Ok(2));
    assert_eq!(choose_with_input("007", 8), Ok(7));
    assert_eq!(choose_with_input("12", 100), Ok(12));
}

#[test]
fn an_answer_may_name_no_choice() {
    assert_eq!(choose_with_input("4", 4), Err(ChoiceError::OutOfRange));
    assert_eq!(choose_with_input("0", 0), Err(ChoiceError::OutOfRange));
    assert_eq!(choose_with_input("", 4), Err(ChoiceError::NotANumber));
    assert_eq!(choose_with_input("  \n", 4), Err(ChoiceError::NotANumber));
    assert_eq!(choose_with_input("+", 4), Err(ChoiceError::NotANumber));
    assert_eq!(choose_with_input("-1", 4), Err(ChoiceError::NotANumber));
    assert_eq!(choose_with_input("1 2", 4), Err(ChoiceError::NotANumber));
    assert_eq!(choose_with_input("two", 4), Err(ChoiceError::NotANumber));
    assert_eq!(choose_with_input("++1", 4), Err(ChoiceError::NotANumber));
    assert_eq!(choose_with_input("1.0", 4), Err(ChoiceError::NotANumber));
}

#[test]
fn answers_are_read_as_std_reads_them() {
    let max = usize::MAX.to_string();
    let beyond = format!("{}0", usize::MAX);
    let next = {
        let mut digits: Vec<u8> = max.bytes().collect();
        let last = digits.len() - 1;
        digits[last] += 1;
        String::from_utf8(digits).expect("digits")
    };
    let answers = [
        "0", "9", "10", " 42\n", "+5", "+05", "-0", "", "+", "a", "1a", "\u{661}", max.as_str(),
        beyond.as_str(), next.as_str(), "99999999999999999999999999",
    ];
    for answer in answers {
        let expected = answer.trim().parse::<usize>().ok();
        assert_eq!(choose_with_input(answer, usize::MAX).ok(), expected.filter(|n| *n < usize::MAX));
        match (choose_with_input(answer, 0), expected) {
            (Err(ChoiceError::OutOfRange), Some(_)) => {}
            (Err(ChoiceError::NotANumber), None) => {}
            (got, want) => panic!("{:?}: {:?}, but std reads {:?}", answer, got, want),
        }
    }
}
