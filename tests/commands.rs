use haikubot::commands::{
    next_result_index, paging_buttons_disabled, CommandOption, CountCommand, GetHaikuCommand,
    InvocationError, OptionValue, ParseError, RandomHaikuCommand, SearchCommand,
    TestSubCommandUnit, UptimeCommand,
};
use haikubot::counting::{SyllableCounter, Uncountable};
use haikubot::dictionary::Dictionary;

fn option(name: &str, resolved: Option<OptionValue>) -> CommandOption {
    CommandOption { name: name.to_owned(), resolved }
}

#[test]
fn count_command_reads_phrase() {
    let options = vec![
        option("other", Some(OptionValue::Integer(3))),
        option("phrase", Some(OptionValue::String("the cat".to_owned()))),
        option("phrase", Some(OptionValue::String("ignored".to_owned()))),
    ];
    let command = CountCommand::parse(&options).unwrap();
    assert_eq!(command.phrase, "the cat");
    let d = Dictionary::new(vec!["CAT  K AE1 T".to_owned(), "THE  DH AH0".to_owned()]);
    let mut counter = SyllableCounter::new(d);
    assert_eq!(command.count(&mut counter), Ok(2));
    let other = CountCommand { phrase: "the dog".to_owned() };
    assert_eq!(other.count(&mut counter), Err(Uncountable));
}

#[test]
fn parse_errors() {
    assert_eq!(CountCommand::parse(&[]), Err(ParseError::MissingOption));
    assert_eq!(CountCommand::parse(&[option("phrase", None)]), Err(ParseError::MissingOption));
    assert_eq!(
        CountCommand::parse(&[option("phrase", Some(OptionValue::Integer(1)))]),
        Err(ParseError::InvalidOption)
    );
    assert_eq!(
        GetHaikuCommand::parse(&[option("id", Some(OptionValue::String("1".to_owned())))]),
        Err(ParseError::InvalidOption)
    );
    assert_eq!(GetHaikuCommand::parse(&[option("ID", Some(OptionValue::Integer(1)))]), Err(ParseError::MissingOption));
    assert_eq!(
        SearchCommand::parse(&[option("keywords", Some(OptionValue::Other))]),
        Err(ParseError::InvalidOption)
    );
    assert_ne!(ParseError::UnknownCommand, ParseError::MissingOption);
    assert_eq!(InvocationError, InvocationError);
}

#[test]
fn get_haiku_command_reads_id() {
    let options = vec![option("id", Some(OptionValue::Integer(42)))];
    assert_eq!(GetHaikuCommand::parse(&options), Ok(GetHaikuCommand { id: 42 }));
}

#[test]
fn commands_without_options() {
    assert_eq!(UptimeCommand::parse(&[]), Ok(UptimeCommand));
    assert_eq!(RandomHaikuCommand::parse(&[]), Ok(RandomHaikuCommand));
    assert_eq!(TestSubCommandUnit::parse(&[]), Ok(TestSubCommandUnit));
}

#[test]
fn uptime_parts() {
    let u = UptimeCommand;
    assert_eq!(u.parts(0), (0, 0, 0));
    assert_eq!(u.parts(59), (0, 0, 0));
    assert_eq!(u.parts(2 * 86400 + 3 * 3600 + 4 * 60 + 5), (2, 3, 4));
    assert_eq!(u.parts(-(86400 + 3600 + 60)), (-1, -1, -1));
    assert_eq!(u.parts(i64::MIN).0, i64::MIN / 86400);
}

#[test]
fn search_command_keywords() {
    let options = vec![option("keywords", Some(OptionValue::String(" winter  birds ".to_owned())))];
    let command = SearchCommand::parse(&options).unwrap();
    assert_eq!(command.keyword_list(), vec!["winter".to_owned(), "birds".to_owned()]);
}

#[test]
fn search_paging() {
    assert_eq!(next_result_index(0, 3, "next"), Some(1));
    assert_eq!(next_result_index(2, 3, "next"), None);
    assert_eq!(next_result_index(0, 3, "previous"), None);
    assert_eq!(next_result_index(2, 3, "previous"), Some(1));
    assert_eq!(next_result_index(1, 3, "other"), None);
    assert_eq!(paging_buttons_disabled(0, 1), (true, true));
    assert_eq!(paging_buttons_disabled(1, 3), (false, false));
    assert_eq!(paging_buttons_disabled(2, 3), (false, true));
}
