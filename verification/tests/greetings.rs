use coursework::greetings::{speak_all_greetings, Language, Person};

#[test]
fn t() {
    let greeting: Language = Language::from_name("English");
    greeting.greet();
}

#[test]
fn each_language_has_its_greeting() {
    assert_eq!(Language::from_name("English").greet(), "Hello!");
    assert_eq!(Language::from_name("Spanish").greet(), "Hola!");
    assert_eq!(Language::from_name("French").greet(), "Bonjour!");
}

#[test]
fn a_person_says_their_name_then_each_greeting() {
    let john = Person {
        name: "John".to_string(),
        greetings: vec![Language::from_name("English"), Language::from_name("Spanish")],
    };
    assert_eq!(speak_all_greetings(&john), vec!["John says:", "Hello!", "Hola!"]);
    let jane = Person { name: "Jane".to_string(), greetings: vec![] };
    assert_eq!(speak_all_greetings(&jane), vec!["Jane says:"]);
}
