//! What a session decides: which language to use, which way to run, what to
//! say when something is missing, and when an interactive session ends.
//!
//! Reading the configuration, the terminal and the clipboard is left to the
//! caller; the functions here take and return plain values.

use vstd::prelude::*;
use vstd::string::*;
use crate::casing::{trim, trimmed};
use crate::engine::{translate, translated};
use crate::profile::Language;

verus! {

/// Settings that apply to every language.
#[derive(Debug, PartialEq, Eq)]
pub struct Global {
    /// The language to use when none is asked for.
    pub default_language: Option<String>,
    /// Read from the configuration; nothing consults it.
    pub copy_to_clipboard: Option<bool>,
    /// Inputs that end an interactive session.
    pub quit_keywords: Option<Vec<String>>,
}

/// A loaded configuration.
#[derive(Debug, PartialEq, Eq)]
pub struct Config {
    pub global: Option<Global>,
    pub languages: Vec<Language>,
}

/// A condition that ends the run with a message and no translation.
#[derive(Debug, PartialEq, Eq)]
pub enum Failure {
    /// No configuration file exists at the given path.
    ConfigNotFound(String),
    /// The configuration file exists but could not be read.
    ConfigUnreadable,
    /// The configuration file is not a valid configuration.
    ConfigUnparsable,
    /// No language was asked for and the configuration names no default.
    NoLanguage,
    /// No configured language has the requested name.
    LanguageNotFound(String),
}

/// How the program was asked to run.
#[derive(Debug, PartialEq, Eq)]
pub enum Run {
    /// Translate this one text.
    Once(String),
    /// Translate line after line until a quit keyword is entered.
    Interactive,
    /// Neither was asked for.
    Idle,
}

/// What an interactive session does with one line of input.
#[derive(Debug, PartialEq, Eq)]
pub enum Step {
    /// The line is a quit keyword: the session ends.
    Quit,
    /// The line was translated: show this and go on.
    Reply(String),
}

impl Default for Global {
    fn default() -> (r: Global)
        ensures
            r.default_language is None,
            r.copy_to_clipboard is None,
            r.quit_keywords is None,
    {
        Global { default_language: None, copy_to_clipboard: None, quit_keywords: None }
    }
}

impl Failure {
    /// The message of this failure, as a sequence of characters.
    pub open spec fn text(&self) -> Seq<char> {
        match self {
            Failure::ConfigNotFound(path) => "Could not find `"@ + path@ + "`"@,
            Failure::ConfigUnreadable => "Could not read config file"@,
            Failure::ConfigUnparsable => "Could not parse config file"@,
            Failure::NoLanguage => "No language specified"@,
            Failure::LanguageNotFound(name) => "Language "@ + name@ + " not found"@,
        }
    }

    /// The message to print for this failure. Where a path or a language
    /// name is at fault, the message quotes it in full.
    pub fn message(&self) -> (r: String)
        ensures
            r@ == self.text(),
    {
        match self {
            Failure::ConfigNotFound(path) => {
                let mut out = "Could not find `".to_owned();
                out.append(path.as_str());
                out.append("`");
                out
            },
            Failure::ConfigUnreadable => "Could not read config file".to_owned(),
            Failure::ConfigUnparsable => "Could not parse config file".to_owned(),
            Failure::NoLanguage => "No language specified".to_owned(),
            Failure::LanguageNotFound(name) => {
                let mut out = "Language ".to_owned();
                out.append(name.as_str());
                out.append(" not found");
                out
            },
        }
    }
}

impl Config {
    /// The configured default language, if any.
    pub open spec fn default_name(&self) -> Option<Seq<char>> {
        match self.global {
            Some(global) => match global.default_language {
                Some(name) => Some(name@),
                None => None,
            },
            None => None,
        }
    }

    /// The configured quit keywords; none where the configuration is silent.
    pub open spec fn quit_words(&self) -> Seq<Seq<char>> {
        match self.global {
            Some(global) => match global.quit_keywords {
                Some(words) => texts(words@),
                None => Seq::empty(),
            },
            None => Seq::empty(),
        }
    }

    /// Position of the first language called `name`, or the number of
    /// languages where there is none.
    pub open spec fn position_of(&self, name: Seq<char>) -> int {
        first_named(self.languages@, name, 0)
    }

    /// Whether `line`, once trimmed, is one of the quit keywords, letter
    /// for letter.
    pub open spec fn quits_on(&self, line: Seq<char>) -> bool {
        self.quit_words().contains(trimmed(line))
    }

    /// The name of the language to use: the one asked for, else the
    /// configured default.
    pub fn language_name<'a>(&'a self, requested: Option<&'a String>) -> (r: Option<&'a String>)
        ensures
            requested is Some ==> r == requested,
            match r {
                Some(name) => self.wanted(requested) == Some(name@),
                None => self.wanted(requested) is None,
            },
    {
        match requested {
            Some(name) => Some(name),
            None => match &self.global {
                Some(global) => global.default_language.as_ref(),
                None => None,
            },
        }
    }

    /// The first configured language whose name is exactly `name`.
    pub fn find_language(&self, name: &String) -> (r: Option<&Language>)
        ensures
            r is Some <==> self.position_of(name@) < self.languages.len(),
            r matches Some(language) ==> *language == self.languages[self.position_of(name@)],
    {
        let count: usize = self.languages.len();
        let mut i: usize = 0;
        while i < count
            invariant
                i <= count,
                count == self.languages.len(),
                first_named(self.languages@, name@, 0) == first_named(
                    self.languages@,
                    name@,
                    i as int,
                ),
            decreases count - i,
        {
            if self.languages[i].name == *name {
                return Some(&self.languages[i]);
            }
            i = i + 1;
        }
        None
    }

    /// The name that a session with this request looks for: the one asked
    /// for, else the configured default.
    pub open spec fn wanted(&self, requested: Option<&String>) -> Option<Seq<char>> {
        match requested {
            Some(asked) => Some(asked@),
            None => self.default_name(),
        }
    }

    /// Settles on the language of the session: the requested or default
    /// name must be there, and a language of that name must be configured.
    pub fn resolve<'a>(&'a self, requested: Option<&'a String>) -> (r: Result<&'a Language, Failure>)
        ensures
            match r {
                Ok(language) => {
                    &&& self.wanted(requested) matches Some(name)
                    &&& self.position_of(name) < self.languages.len()
                    &&& *language == self.languages[self.position_of(name)]
                },
                Err(Failure::NoLanguage) => self.wanted(requested) is None,
                Err(Failure::LanguageNotFound(missing)) => {
                    &&& self.wanted(requested) == Some(missing@)
                    &&& self.position_of(missing@) == self.languages.len()
                },
                Err(_) => false,
            },
    {
        match self.language_name(requested) {
            None => Err(Failure::NoLanguage),
            Some(name) => match self.find_language(name) {
                Some(language) => Ok(language),
                None => {
                    proof {
                        lemma_first_named_bounds(self.languages@, name@, 0);
                    }
                    Err(Failure::LanguageNotFound(name.clone()))
                },
            },
        }
    }

    /// Tells whether `line` ends an interactive session: its trimmed form
    /// must equal one of the quit keywords.
    pub fn is_quit(&self, line: &str) -> (r: bool)
        ensures
            r == self.quits_on(line@),
    {
        let entered = trim(line).to_owned();
        match &self.global {
            None => false,
            Some(global) => match &global.quit_keywords {
                None => false,
                Some(words) => holds_text(words, &entered),
            },
        }
    }

    /// One turn of an interactive session: a quit keyword ends it, any
    /// other line is translated with `language`.
    pub fn step(&self, line: &str, language: &Language) -> (r: Step)
        ensures
            match r {
                Step::Quit => self.quits_on(line@),
                Step::Reply(reply) => !self.quits_on(line@) && reply@ == translated(
                    line@,
                    language.lower_mode,
                    language.entries(),
                ),
            },
    {
        if self.is_quit(line) {
            Step::Quit
        } else {
            Step::Reply(translate(line, language))
        }
    }
}

/// The strings of `words` as character sequences.
pub open spec fn texts(words: Seq<String>) -> Seq<Seq<char>> {
    words.map_values(|w: String| w@)
}

/// Tells whether one of `words` equals `wanted`, letter for letter.
pub fn holds_text(words: &Vec<String>, wanted: &String) -> (r: bool)
    ensures
        r == texts(words@).contains(wanted@),
{
    let count: usize = words.len();
    let mut i: usize = 0;
    while i < count
        invariant
            i <= count,
            count == words.len(),
            forall|j: int| 0 <= j < i ==> texts(words@)[j] != wanted@,
        decreases count - i,
    {
        if words[i] == *wanted {
            assert(texts(words@)[i as int] == wanted@);
            return true;
        }
        i = i + 1;
    }
    false
}

/// Position, at or after `from`, of the first language called `name`; the
/// number of languages where there is none.
pub open spec fn first_named(languages: Seq<Language>, name: Seq<char>, from: int) -> int
    decreases languages.len() - from,
{
    if from < 0 || from >= languages.len() {
        languages.len() as int
    } else if languages[from].name@ == name {
        from
    } else {
        first_named(languages, name, from + 1)
    }
}

/// `first_named` finds a language of that name or runs to the end.
pub proof fn lemma_first_named_bounds(languages: Seq<Language>, name: Seq<char>, from: int)
    requires
        0 <= from <= languages.len(),
    ensures
        from <= first_named(languages, name, from) <= languages.len(),
        first_named(languages, name, from) < languages.len() ==> languages[first_named(
            languages,
            name,
            from,
        )].name@ == name,
        forall|j: int|
            from <= j < first_named(languages, name, from) ==> (#[trigger] languages[j]).name@
                != name,
    decreases languages.len() - from,
{
    if from < languages.len() && languages[from].name@ != name {
        lemma_first_named_bounds(languages, name, from + 1);
    }
}

/// Chooses the way to run: a text to translate takes precedence over the
/// request for an interactive session.
pub fn choose_run(text: Option<String>, interactive: bool) -> (r: Run)
    ensures
        match r {
            Run::Once(input) => text == Some(input),
            Run::Interactive => text is None && interactive,
            Run::Idle => text is None && !interactive,
        },
{
    match text {
        Some(input) => Run::Once(input),
        None => if interactive {
            Run::Interactive
        } else {
            Run::Idle
        },
    }
}

} // verus!
