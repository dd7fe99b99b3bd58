//! User preferences: colour scheme, interface language and the corpus
//! database location.
use vstd::prelude::*;

verus! {

/// Colour scheme the interface should follow.
#[derive(Debug, Clone, Copy, PartialEq, Eq, Structural)]
pub enum ColorScheme {
    Dark,
    Light,
    Default,
}

impl Default for ColorScheme {
    /// The system scheme is followed unless the user chose one.
    fn default() -> (r: Self)
        ensures
            r == ColorScheme::Default,
    {
        ColorScheme::Default
    }
}

/// Interface language.
#[derive(Debug, Clone, PartialEq, Eq, Structural)]
pub enum Language {
    English,
    Portuguese,
    Spanish,
}

/// The language a two-letter code names, if any.
pub open spec fn spec_language_of(s: Seq<char>) -> Option<Language> {
    if s == "en"@ {
        Some(Language::English)
    } else if s == "pt"@ {
        Some(Language::Portuguese)
    } else if s == "es"@ {
        Some(Language::Spanish)
    } else {
        None
    }
}

/// The two-letter code of a language.
pub open spec fn spec_language_code(l: Language) -> Seq<char> {
    match l {
        Language::English => "en"@,
        Language::Portuguese => "pt"@,
        Language::Spanish => "es"@,
    }
}

/// Reads a two-letter language code; anything else is rejected.
pub fn parse_language(input: &str) -> (r: Result<Language, &'static str>)
    ensures
        spec_language_of(input@) matches Some(l) ==> r == Ok::<Language, &'static str>(l),
        spec_language_of(input@) is None ==> r is Err,
        r matches Ok(l) ==> spec_language_of(input@) == Some(l),
{
    if crate::text::str_eq(input, "en") {
        Ok(Language::English)
    } else if crate::text::str_eq(input, "pt") {
        Ok(Language::Portuguese)
    } else if crate::text::str_eq(input, "es") {
        Ok(Language::Spanish)
    } else {
        Err("Language does not exist")
    }
}

impl core::str::FromStr for Language {
    type Err = &'static str;

    fn from_str(input: &str) -> (r: Result<Self, Self::Err>) {
        parse_language(input)
    }
}

impl Language {
    /// The language's two-letter code.
    pub fn code(&self) -> (r: String)
        ensures
            r@ == spec_language_code(*self),
    {
        match self {
            Language::English => "en".to_owned(),
            Language::Portuguese => "pt".to_owned(),
            Language::Spanish => "es".to_owned(),
        }
    }
}

impl Default for Language {
    /// English, until the user picks another language.
    fn default() -> (r: Self)
        ensures
            r == Language::English,
    {
        Language::English
    }
}

/// The user's saved preferences.
#[derive(Debug, Clone, PartialEq)]
pub struct Preference {
    /// Chosen colour scheme.
    pub color_scheme: ColorScheme,
    /// Chosen interface language.
    pub language: Language,
    /// Directory that holds the corpus database files.
    pub database_path: String,
}

impl Default for Preference {
    /// System colours, English, and no database directory yet.
    fn default() -> (r: Self)
        ensures
            r.color_scheme == ColorScheme::Default,
            r.language == Language::English,
            r.database_path@ == Seq::<char>::empty(),
    {
        let r = Preference {
            color_scheme: ColorScheme::Default,
            language: Language::English,
            database_path: String::new(),
        };
        proof {
            assert(r.database_path@ =~= Seq::<char>::empty());
        }
        r
    }
}

impl Preference {
    /// Preferences from explicit choices.
    pub fn new(color_scheme: ColorScheme, language: Language, database_path: &str) -> (r: Self)
        ensures
            r.color_scheme == color_scheme,
            r.language == language,
            r.database_path@ == database_path@,
    {
        Preference { color_scheme, language, database_path: database_path.to_owned() }
    }

    /// Replaces the colour scheme.
    pub fn set_color_scheme(&mut self, color_scheme: ColorScheme)
        ensures
            final(self).color_scheme == color_scheme,
            final(self).language == old(self).language,
            final(self).database_path == old(self).database_path,
    {
        self.color_scheme = color_scheme;
    }

    /// Replaces the language from its two-letter code; an unknown code
    /// falls back to English.
    pub fn set_language(&mut self, language: &str)
        ensures
            final(self).language == (match spec_language_of(language@) {
                Some(l) => l,
                None => Language::English,
            }),
            final(self).color_scheme == old(self).color_scheme,
            final(self).database_path == old(self).database_path,
    {
        match parse_language(language) {
            Ok(l) => {
                self.language = l;
            },
            _ => {
                self.language = Language::English;
            },
        }
    }

    /// Replaces the database directory.
    pub fn set_database_path(&mut self, database_path: &str)
        ensures
            final(self).database_path@ == database_path@,
            final(self).color_scheme == old(self).color_scheme,
            final(self).language == old(self).language,
    {
        self.database_path = database_path.to_owned();
    }
}

} // verus!
