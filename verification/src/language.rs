//! The names of the languages.

use crate::model::Language;
use crate::text::{lowercase, same_text, to_lowercase};
use std::str::FromStr;
use vstd::prelude::*;
use vstd::string::StringExecFns;

verus! {

/// The language that a name in lower case stands for.
pub open spec fn language_of(lower: Seq<char>) -> Option<Language> {
    if lower == "rust"@ || lower == "rs"@ {
        Some(Language::Rust)
    } else if lower == "go"@ {
        Some(Language::Go)
    } else if lower == "typescript"@ || lower == "ts"@ || lower == "javascript"@ || lower
        == "js"@ {
        Some(Language::Typescript)
    } else if lower == "python"@ || lower == "py"@ {
        Some(Language::Python)
    } else {
        None
    }
}

/// The name under which a language is shown.
pub open spec fn language_label(language: Language) -> Seq<char> {
    match language {
        Language::Rust => "Rust"@,
        Language::Go => "Golang"@,
        Language::Typescript => "Typescript"@,
        Language::Python => "Python"@,
    }
}

/// What the text `s` gives as a language: the language that its lower-case
/// form names, or the complaint that names the text.
pub open spec fn parsed_language(s: Seq<char>) -> Result<Language, Seq<char>> {
    match language_of(lowercase(s)) {
        Some(language) => Ok(language),
        None => Err("Unknown language: "@ + s),
    }
}

impl Language {
    /// The language that `s` names, whatever the case of its letters.
    pub fn parse(s: &str) -> (r: Result<Language, String>)
        ensures
            match r {
                Ok(language) => parsed_language(s@) == Ok::<_, Seq<char>>(language),
                Err(complaint) => parsed_language(s@) == Err::<Language, _>(complaint@),
            },
    {
        let discriminant = to_lowercase(s);
        let lower = discriminant.as_str();
        if same_text(lower, "rust") || same_text(lower, "rs") {
            return Ok(Language::Rust);
        }
        if same_text(lower, "go") {
            return Ok(Language::Go);
        }
        if same_text(lower, "typescript") || same_text(lower, "ts") || same_text(
            lower,
            "javascript",
        ) || same_text(lower, "js") {
            return Ok(Language::Typescript);
        }
        if same_text(lower, "python") || same_text(lower, "py") {
            return Ok(Language::Python);
        }
        Err("Unknown language: ".to_owned().concat(s))
    }

    /// The name under which the language is shown.
    pub fn to_string(&self) -> (label: String)
        ensures
            label@ == language_label(*self),
    {
        match self {
            Language::Rust => "Rust".to_owned(),
            Language::Go => "Golang".to_owned(),
            Language::Typescript => "Typescript".to_owned(),
            Language::Python => "Python".to_owned(),
        }
    }
}

impl FromStr for Language {
    type Err = String;

    fn from_str(s: &str) -> (r: Result<Language, String>)
        ensures
            match r {
                Ok(language) => parsed_language(s@) == Ok::<_, Seq<char>>(language),
                Err(complaint) => parsed_language(s@) == Err::<Language, _>(complaint@),
            },
    {
        Language::parse(s)
    }
}

} // verus!
