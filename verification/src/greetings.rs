//! People who greet in the languages they speak.

use vstd::prelude::*;
use crate::text::str_equal;

verus! {

/// A language that can greet.
#[derive(Clone, Copy)]
pub enum Language {
    English,
    Spanish,
    French,
}

/// The greeting of a language.
pub open spec fn greeting_of(l: Language) -> Seq<char> {
    match l {
        Language::English => "Hello!"@,
        Language::Spanish => "Hola!"@,
        Language::French => "Bonjour!"@,
    }
}

/// The language a name stands for, if it stands for one.
pub open spec fn language_named(name: Seq<char>) -> Option<Language> {
    if name == "English"@ {
        Some(Language::English)
    } else if name == "Spanish"@ {
        Some(Language::Spanish)
    } else if name == "French"@ {
        Some(Language::French)
    } else {
        None
    }
}

impl Language {
    /// The language called `name`, which must be "English", "Spanish" or "French".
    pub fn from_name(name: &str) -> (r: Language)
        requires
            language_named(name@) is Some,
        ensures
            language_named(name@) == Some(r),
    {
        if str_equal(name, "English") {
            Language::English
        } else if str_equal(name, "Spanish") {
            Language::Spanish
        } else {
            Language::French
        }
    }

    /// The greeting of this language.
    pub fn greet(&self) -> (r: &'static str)
        ensures
            r@ == greeting_of(*self),
    {
        match self {
            Language::English => "Hello!",
            Language::Spanish => "Hola!",
            Language::French => "Bonjour!",
        }
    }
}

/// A person and the languages they greet in.
pub struct Person {
    pub name: String,
    pub greetings: Vec<Language>,
}

/// What a person says: a line with their name, then one greeting per language.
pub fn speak_all_greetings(person: &Person) -> (lines: Vec<String>)
    ensures
        lines@.len() == person.greetings@.len() + 1,
        lines@[0]@ == person.name@ + " says:"@,
        forall|i: int|
            0 <= i < person.greetings@.len() ==> #[trigger] lines@[i + 1]@ == greeting_of(
                person.greetings@[i],
            ),
{
    let mut lines: Vec<String> = Vec::new();
    lines.push(person.name.clone().concat(" says:"));
    let mut i: usize = 0;
    while i < person.greetings.len()
        invariant
            i <= person.greetings@.len(),
            lines@.len() == i + 1,
            lines@[0]@ == person.name@ + " says:"@,
            forall|j: int| 0 <= j < i ==> #[trigger] lines@[j + 1]@ == greeting_of(person.greetings@[j]),
        decreases person.greetings@.len() - i,
    {
        let text = person.greetings[i].greet();
        lines.push(String::from_str(text));
        i = i + 1;
    }
    lines
}

} // verus!
