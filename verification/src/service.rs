//! A service: a name and the command line that runs it.

use crate::text::{
    chars_of, find_char, first_index_of, lemma_first_index_of_bounds, lemma_trim_trimmed, trim,
    trim_bounds,
};
use vstd::prelude::*;

verus! {

/// A service that the supervisor manages.
#[derive(Debug, PartialEq, Eq, PartialOrd, Ord)]
pub struct Service {
    /// The name by which the service is known.
    pub name: String,
    /// The command line that starts the service.
    pub command: String,
}

/// What a `Service` holds, as sequences of characters.
pub struct ServiceView {
    pub name: Seq<char>,
    pub command: Seq<char>,
}

impl View for Service {
    type V = ServiceView;

    open spec fn view(&self) -> ServiceView {
        ServiceView { name: self.name@, command: self.command@ }
    }
}

impl Clone for Service {
    fn clone(&self) -> (copy: Service)
        ensures
            copy@ == self@,
    {
        Service { name: self.name.clone(), command: self.command.clone() }
    }
}

impl DeepView for Service {
    type V = ServiceView;

    open spec fn deep_view(&self) -> ServiceView {
        self@
    }
}

/// Why a line does not describe a service.
#[derive(Debug, Clone, Copy, PartialEq, Eq)]
pub enum ParseError {
    /// The line holds no colon.
    MissingColon,
    /// Nothing stands before the first colon.
    EmptyName,
    /// Nothing but white space stands after the first colon.
    EmptyCommand,
}

/// The service that a line describes: its name is what stands before the
/// first colon, its command what stands after it, trimmed. A line without
/// a colon describes none, nor does one with nothing before the colon or
/// with nothing but white space after it.
pub open spec fn parse_line(line: Seq<char>) -> Result<ServiceView, ParseError> {
    let colon = first_index_of(line, ':');
    if colon == line.len() {
        Err(ParseError::MissingColon)
    } else if colon == 0 {
        Err(ParseError::EmptyName)
    } else if trim(line.skip(colon + 1)).len() == 0 {
        Err(ParseError::EmptyCommand)
    } else {
        Ok(ServiceView { name: line.take(colon), command: trim(line.skip(colon + 1)) })
    }
}

/// A service that was read from a line has a name, without a colon in it,
/// and a command that is not empty and has no white space at its ends.
pub proof fn lemma_parsed_service(line: Seq<char>)
    requires
        parse_line(line) is Ok,
    ensures
        parse_line(line)->Ok_0.name.len() > 0,
        !parse_line(line)->Ok_0.name.contains(':'),
        parse_line(line)->Ok_0.command.len() > 0,
        trim(parse_line(line)->Ok_0.command) == parse_line(line)->Ok_0.command,
{
    lemma_first_index_of_bounds(line, ':');
    lemma_trim_trimmed(line.skip(first_index_of(line, ':') + 1));
}

/// The line that describes a service: name, colon, blank, command, line feed.
pub open spec fn line_of(service: ServiceView) -> Seq<char> {
    service.name + seq![':', ' '] + service.command + seq!['\n']
}

/// Whether an outcome of parsing is the one that `expected` names.
pub open spec fn parsed_as(
    outcome: Result<Service, ParseError>,
    expected: Result<ServiceView, ParseError>,
) -> bool {
    match outcome {
        Ok(service) => expected == Ok::<ServiceView, ParseError>(service@),
        Err(error) => expected == Err::<ServiceView, ParseError>(error),
    }
}

/// Reads the service that the characters `from..to` of `text` describe.
pub(crate) fn parse_range(text: &str, chars: &Vec<char>, from: usize, to: usize) -> (outcome: Result<
    Service,
    ParseError,
>)
    requires
        chars@ == text@,
        from <= to <= chars.len(),
    ensures
        parsed_as(outcome, parse_line(text@.subrange(from as int, to as int))),
{
    let colon = find_char(chars, from, to, ':');
    if colon == to {
        Err(ParseError::MissingColon)
    } else if colon == from {
        Err(ParseError::EmptyName)
    } else {
        let (start, end) = trim_bounds(chars, colon + 1, to);
        proof {
            let line = text@.subrange(from as int, to as int);
            assert(line.take(colon - from) == text@.subrange(from as int, colon as int));
            assert(line.skip(colon - from + 1) == text@.subrange(colon + 1, to as int));
        }
        if start == end {
            Err(ParseError::EmptyCommand)
        } else {
            let name = text.substring_char(from, colon).to_owned();
            let command = text.substring_char(start, end).to_owned();
            Ok(Service { name, command })
        }
    }
}

impl Service {
    /// A service of the given name and command.
    pub fn new(name: &str, command: &str) -> (service: Service)
        ensures
            service@.name == name@,
            service@.command == command@,
    {
        Service { name: name.to_owned(), command: command.to_owned() }
    }

    /// A service of the given name and command.
    pub fn from_command(name: &str, command: &str) -> (service: Service)
        ensures
            service@.name == name@,
            service@.command == command@,
    {
        Service::new(name, command)
    }

    /// Reads a service from one line of the form `name: command`.
    ///
    /// The line must hold a colon, with something before it and more than
    /// white space after it. The command is what follows the first colon,
    /// without the white space at its ends.
    pub fn from_line(line: &str) -> (outcome: Result<Service, ParseError>)
        ensures
            parsed_as(outcome, parse_line(line@)),
    {
        let chars = chars_of(line);
        assert(line@.subrange(0, line@.len() as int) == line@);
        parse_range(line, &chars, 0, chars.len())
    }

    /// The line that describes this service.
    pub fn to_line(&self) -> (line: String)
        ensures
            line@ == line_of(self@),
    {
        let mut line = self.name.clone();
        line.append(": ");
        line.append(self.command.as_str());
        line.append("\n");
        proof {
            reveal_strlit(": ");
            reveal_strlit("\n");
            assert(": "@ == seq![':', ' ']);
            assert("\n"@ == seq!['\n']);
        }
        line
    }
}

impl std::str::FromStr for Service {
    type Err = ParseError;

    /// Reads a service from one line of the form `name: command`.
    fn from_str(line: &str) -> (outcome: Result<Service, ParseError>)
        ensures
            parsed_as(outcome, parse_line(line@)),
    {
        Service::from_line(line)
    }
}

} // verus!
