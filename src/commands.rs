//! The bot's slash commands, as plain values: what each takes from an
//! invocation, and what it decides.
use crate::counting::{count_line, counted, fitting, line_syllables, SyllableCounter, Uncountable};
use crate::text::{same_text, split_words, views, words_of};
use vstd::prelude::*;

verus! {

/// Why a command invocation could not be read.
#[derive(Debug, Clone, Copy, PartialEq, Eq, Structural)]
pub enum ParseError {
    MissingOption,
    InvalidOption,
    UnknownCommand,
}

/// A command could not be carried out.
#[derive(Debug, Clone, Copy, PartialEq, Eq, Structural)]
pub struct InvocationError;

/// The value given for a command option.
#[derive(Debug, Clone, PartialEq, Eq)]
pub enum OptionValue {
    String(String),
    Integer(i64),
    Other,
}

/// One option of a command invocation: its name, and its value once resolved.
#[derive(Debug, Clone, PartialEq, Eq)]
pub struct CommandOption {
    pub name: String,
    pub resolved: Option<OptionValue>,
}

/// The position of the first option named `name`.
pub open spec fn first_named(options: Seq<CommandOption>, name: Seq<char>) -> Option<int>
    decreases options.len(),
{
    if options.len() == 0 {
        None
    } else if options[0].name@ == name {
        Some(0)
    } else {
        match first_named(options.drop_first(), name) {
            Some(i) => Some(i + 1),
            None => None,
        }
    }
}

/// The value that an invocation gives for `name`: its first option of that
/// name, which must be resolved.
pub open spec fn option_value(options: Seq<CommandOption>, name: Seq<char>) -> Option<
    OptionValue,
> {
    match first_named(options, name) {
        Some(i) => options[i].resolved,
        None => None,
    }
}

/// Finds the first option named `name`.
fn find_option(options: &[CommandOption], name: &str) -> (r: Option<usize>)
    ensures
        match r {
            Some(i) => first_named(options@, name@) == Some(i as int) && i < options@.len(),
            None => first_named(options@, name@) is None,
        },
{
    let mut i: usize = 0;
    while i < options.len()
        invariant
            i <= options@.len(),
            forall|j: int| 0 <= j < i ==> options@[j].name@ != name@,
        decreases options@.len() - i,
    {
        if same_text(options[i].name.as_str(), name) {
            proof {
                lemma_first_named(options@, name@, i as int);
            }
            return Some(i);
        }
        i = i + 1;
    }
    proof {
        lemma_none_named(options@, name@);
    }
    None
}

proof fn lemma_first_named(options: Seq<CommandOption>, name: Seq<char>, i: int)
    requires
        0 <= i < options.len(),
        options[i].name@ == name,
        forall|j: int| 0 <= j < i ==> options[j].name@ != name,
    ensures
        first_named(options, name) == Some(i),
    decreases i,
{
    if i > 0 {
        lemma_first_named(options.drop_first(), name, i - 1);
    }
}

proof fn lemma_none_named(options: Seq<CommandOption>, name: Seq<char>)
    requires
        forall|j: int| 0 <= j < options.len() ==> options[j].name@ != name,
    ensures
        first_named(options, name) is None,
    decreases options.len(),
{
    if options.len() > 0 {
        lemma_none_named(options.drop_first(), name);
    }
}

/// Reads the string option `name`: `MissingOption` when absent or not
/// resolved, `InvalidOption` when it is not a string.
fn string_option(options: &[CommandOption], name: &str) -> (r: Result<String, ParseError>)
    ensures
        match option_value(options@, name@) {
            Some(OptionValue::String(s)) => r == Ok::<String, ParseError>(s),
            Some(_) => r == Err::<String, ParseError>(ParseError::InvalidOption),
            None => r == Err::<String, ParseError>(ParseError::MissingOption),
        },
{
    match find_option(options, name) {
        None => Err(ParseError::MissingOption),
        Some(i) => match &options[i].resolved {
            None => Err(ParseError::MissingOption),
            Some(OptionValue::String(s)) => Ok(s.clone()),
            Some(_) => Err(ParseError::InvalidOption),
        },
    }
}

/// Reads the integer option `name`: `MissingOption` when absent or not
/// resolved, `InvalidOption` when it is not an integer.
fn integer_option(options: &[CommandOption], name: &str) -> (r: Result<i64, ParseError>)
    ensures
        match option_value(options@, name@) {
            Some(OptionValue::Integer(n)) => r == Ok::<i64, ParseError>(n),
            Some(_) => r == Err::<i64, ParseError>(ParseError::InvalidOption),
            None => r == Err::<i64, ParseError>(ParseError::MissingOption),
        },
{
    match find_option(options, name) {
        None => Err(ParseError::MissingOption),
        Some(i) => match &options[i].resolved {
            None => Err(ParseError::MissingOption),
            Some(OptionValue::Integer(n)) => Ok(*n),
            Some(_) => Err(ParseError::InvalidOption),
        },
    }
}

/// Shows how long since the bot was last restarted.
#[derive(Debug, Clone, Copy, PartialEq, Eq, Structural)]
pub struct UptimeCommand;

/// Whole days, hours and minutes of `seconds`, each rounded toward zero
/// after the larger units are taken away.
pub open spec fn uptime_breakdown(seconds: int) -> (int, int, int) {
    let m = if seconds < 0 {
        -seconds
    } else {
        seconds
    };
    let parts = (m / 86400, (m % 86400) / 3600, (m % 3600) / 60);
    if seconds < 0 {
        (-parts.0, -parts.1, -parts.2)
    } else {
        parts
    }
}

impl UptimeCommand {
    /// The command takes no options.
    pub fn parse(_options: &[CommandOption]) -> (r: Result<UptimeCommand, ParseError>)
        ensures
            r == Ok::<UptimeCommand, ParseError>(UptimeCommand),
    {
        Ok(UptimeCommand)
    }

    /// Days, hours and minutes of an uptime of `seconds`; a negative uptime
    /// gives negative parts.
    pub fn parts(&self, seconds: i64) -> (r: (i64, i64, i64))
        ensures
            (r.0 as int, r.1 as int, r.2 as int) == uptime_breakdown(seconds as int),
    {
        let negative = seconds < 0;
        let m: u64 = if negative {
            (-(seconds as i128)) as u64
        } else {
            seconds as u64
        };
        assert(m as int == (if seconds < 0 {
            -(seconds as int)
        } else {
            seconds as int
        }));
        let days = (m / 86400) as i64;
        let hours = ((m % 86400) / 3600) as i64;
        let minutes = ((m % 3600) / 60) as i64;
        assert(days as int == m as int / 86400);
        assert(hours as int == (m as int % 86400) / 3600);
        assert(minutes as int == (m as int % 3600) / 60);
        if negative {
            (-days, -hours, -minutes)
        } else {
            (days, hours, minutes)
        }
    }
}

/// Counts the syllables of a phrase.
#[derive(Debug, Clone, PartialEq, Eq)]
pub struct CountCommand {
    pub phrase: String,
}

impl CountCommand {
    /// Reads the string option `phrase`.
    pub fn parse(options: &[CommandOption]) -> (r: Result<CountCommand, ParseError>)
        ensures
            match option_value(options@, "phrase"@) {
                Some(OptionValue::String(s)) => r is Ok && r->Ok_0.phrase == s,
                Some(_) => r == Err::<CountCommand, ParseError>(ParseError::InvalidOption),
                None => r == Err::<CountCommand, ParseError>(ParseError::MissingOption),
            },
    {
        match string_option(options, "phrase") {
            Ok(phrase) => Ok(CountCommand { phrase }),
            Err(e) => Err(e),
        }
    }

    /// The syllables of the phrase, counted as a line.
    pub fn count(&self, counter: &mut SyllableCounter) -> (r: Result<usize, Uncountable>)
        requires
            old(counter).wf(),
        ensures
            final(counter).wf(),
            final(counter).dict() == old(counter).dict(),
            counted(r) == fitting(line_syllables(old(counter).dict(), self.phrase@)),
    {
        count_line(counter, self.phrase.as_str())
    }
}

/// Fetches one haiku of a server by its id.
#[derive(Debug, Clone, Copy, PartialEq, Eq, Structural)]
pub struct GetHaikuCommand {
    pub id: i64,
}

impl GetHaikuCommand {
    /// Reads the integer option `id`.
    pub fn parse(options: &[CommandOption]) -> (r: Result<GetHaikuCommand, ParseError>)
        ensures
            match option_value(options@, "id"@) {
                Some(OptionValue::Integer(n)) => r == Ok::<GetHaikuCommand, ParseError>(
                    GetHaikuCommand { id: n },
                ),
                Some(_) => r == Err::<GetHaikuCommand, ParseError>(ParseError::InvalidOption),
                None => r == Err::<GetHaikuCommand, ParseError>(ParseError::MissingOption),
            },
    {
        match integer_option(options, "id") {
            Ok(id) => Ok(GetHaikuCommand { id }),
            Err(e) => Err(e),
        }
    }
}

/// Fetches a random haiku of a server.
#[derive(Debug, Clone, Copy, PartialEq, Eq, Structural)]
pub struct RandomHaikuCommand;

impl RandomHaikuCommand {
    /// The command takes no options.
    pub fn parse(_options: &[CommandOption]) -> (r: Result<RandomHaikuCommand, ParseError>)
        ensures
            r == Ok::<RandomHaikuCommand, ParseError>(RandomHaikuCommand),
    {
        Ok(RandomHaikuCommand)
    }
}

/// A sub-command without options.
#[derive(Debug, Clone, Copy, PartialEq, Eq, Structural)]
pub struct TestSubCommandUnit;

impl TestSubCommandUnit {
    /// The sub-command takes no options.
    pub fn parse(_options: &[CommandOption]) -> (r: Result<TestSubCommandUnit, ParseError>)
        ensures
            r == Ok::<TestSubCommandUnit, ParseError>(TestSubCommandUnit),
    {
        Ok(TestSubCommandUnit)
    }
}

/// Searches the haikus of a server for keywords.
#[derive(Debug, Clone, PartialEq, Eq)]
pub struct SearchCommand {
    pub keywords: String,
}

impl SearchCommand {
    /// Reads the string option `keywords`.
    pub fn parse(options: &[CommandOption]) -> (r: Result<SearchCommand, ParseError>)
        ensures
            match option_value(options@, "keywords"@) {
                Some(OptionValue::String(s)) => r is Ok && r->Ok_0.keywords == s,
                Some(_) => r == Err::<SearchCommand, ParseError>(ParseError::InvalidOption),
                None => r == Err::<SearchCommand, ParseError>(ParseError::MissingOption),
            },
    {
        match string_option(options, "keywords") {
            Ok(keywords) => Ok(SearchCommand { keywords }),
            Err(e) => Err(e),
        }
    }

    /// The keywords to search for: the whitespace-separated words.
    pub fn keyword_list(&self) -> (r: Vec<String>)
        ensures
            views(r@) == words_of(self.keywords@),
    {
        split_words(self.keywords.as_str())
    }
}

/// Which result a search shows after a button press: `next` moves on,
/// `previous` moves back, and a press that would leave the results, or an
/// unknown button, changes nothing.
pub open spec fn page_after(index: nat, count: nat, button: Seq<char>) -> Option<nat> {
    if button == "next"@ && index + 1 < count {
        Some(index + 1)
    } else if button == "previous"@ && index >= 1 && index - 1 < count {
        Some((index - 1) as nat)
    } else {
        None
    }
}

/// The result to show after `button` is pressed on result `index` of `count`.
pub fn next_result_index(index: usize, count: usize, button: &str) -> (r: Option<usize>)
    ensures
        match r {
            Some(i) => page_after(index as nat, count as nat, button@) == Some(i as nat),
            None => page_after(index as nat, count as nat, button@) is None,
        },
{
    proof {
        reveal_strlit("next");
        reveal_strlit("previous");
        assert("next"@.len() == 4 && "previous"@.len() == 8);
    }
    if same_text(button, "next") {
        if index < count && count - index > 1 {
            Some(index + 1)
        } else {
            None
        }
    } else if same_text(button, "previous") {
        if index >= 1 && index - 1 < count {
            Some(index - 1)
        } else {
            None
        }
    } else {
        None
    }
}

/// Whether the previous and the next button are disabled on result `index`
/// of `count`.
pub fn paging_buttons_disabled(index: usize, count: usize) -> (r: (bool, bool))
    ensures
        r.0 == (index < 1),
        r.1 == (index + 1 >= count),
{
    (index < 1, count == 0 || index >= count - 1)
}

} // verus!
