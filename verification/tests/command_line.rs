use coursework::command_line::{commands_of_words, parse_line};

#[test]
fn test_parse_line() {
    assert_eq!(
        parse_line("echo hello"),
        Some(vec![vec!["echo".to_string(), "hello".to_string()]])
    );
    assert_eq!(
        parse_line("echo hello; echo world"),
        Some(vec![
            vec!["echo".to_string(), "hello".to_string()],
            vec!["echo".to_string(), "world".to_string()]
        ])
    );
    assert_eq!(
        parse_line("echo hello; echo world;"),
        Some(vec![
            vec!["echo".to_string(), "hello".to_string()],
            vec!["echo".to_string(), "world".to_string()]
        ])
    );
    assert_eq!(
        parse_line("echo hello; echo world; "),
        Some(vec![
            vec!["echo".to_string(), "hello".to_string()],
            vec!["echo".to_string(), "world".to_string()]
        ])
    );
    assert_eq!(
        parse_line("echo hello; echo world; echo"),
        Some(vec![
            vec!["echo".to_string(), "hello".to_string()],
            vec!["echo".to_string(), "world".to_string()],
            vec!["echo".to_string()]
        ])
    );
    assert_eq!(
        parse_line("echo hello ; echo world; echo;"),
        Some(vec![
            vec!["echo".to_string(), "hello".to_string()],
            vec!["echo".to_string(), "world".to_string()],
            vec!["echo".to_string()]
        ])
    );
    assert_eq!(
        parse_line("echo hello ;echo world; echo ;"),
        Some(vec![
            vec!["echo".to_string(), "hello".to_string()],
            vec!["echo".to_string(), "world".to_string()],
            vec!["echo".to_string()]
        ])
    );
    assert_eq!(
        parse_line("echo hello; echo world; echo ; "),
        Some(vec![
            vec!["echo".to_string(), "hello".to_string()],
            vec!["echo".to_string(), "world".to_string()],
            vec!["echo".to_string()]
        ])
    );
    assert_eq!(
        parse_line("echo hello; echo world; echo ; ;"),
        Some(vec![
            vec!["echo".to_string(), "hello".to_string()],
            vec!["echo".to_string(), "world".to_string()],
            vec!["echo".to_string()]
        ])
    );
    assert_eq!(
        parse_line("echo 'hello; yeet'; echo world; echo ; ;"),
        Some(vec![
            vec!["echo".to_string(), "hello; yeet".to_string()],
            vec!["echo".to_string(), "world".to_string()],
            vec!["echo".to_string()]
        ])
    );
}

#[test]
fn unclosed_quotes_cannot_be_split() {
    assert_eq!(parse_line("echo 'oops"), None);
}

#[test]
fn empty_words_and_lone_semicolons_make_no_command() {
    assert_eq!(parse_line(""), Some(vec![]));
    assert_eq!(parse_line(";;; ;"), Some(vec![]));
    assert_eq!(parse_line("echo ''"), Some(vec![vec!["echo".to_string()]]));
    assert_eq!(parse_line(";;a;;b;;"), Some(vec![vec!["a;;b".to_string()]]));
}

fn words(v: &[&str]) -> Vec<String> {
    v.iter().map(|w| w.to_string()).collect()
}

#[test]
fn words_group_into_commands() {
    assert_eq!(
        commands_of_words(&words(&["echo", "hello;", ";echo", "world", ";", "ls"])),
        vec![words(&["echo", "hello"]), words(&["echo", "world"]), words(&["ls"])]
    );
    // a quoted word that holds a `;` inside stays whole
    assert_eq!(
        commands_of_words(&words(&["echo", "hello; yeet", ";;"])),
        vec![words(&["echo", "hello; yeet"])]
    );
    assert_eq!(commands_of_words(&words(&[";", ";;", ""])), Vec::<Vec<String>>::new());
}
