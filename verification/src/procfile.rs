//! The Procfile: one service to a line, `name: command`; blank lines and
//! lines that start with `#` say nothing.

use crate::service::{line_of, parse_line, parse_range, ParseError, Service, ServiceView};
use crate::text::{
    chars_of, find_char, first_index_of, is_whitespace, leading_whitespace,
    lemma_first_index_of, lemma_first_index_of_bounds, lemma_leading_whitespace,
    lemma_leading_whitespace_bounds, lemma_trailing_whitespace_bounds, skip_whitespace,
    trailing_whitespace, trim, trim_start,
};
use std::path::PathBuf;
use vstd::prelude::*;
use vstd::utf8::{decode_utf8, encode_utf8, valid_utf8};

verus! {

/// A Procfile, by the path at which it lies.
#[derive(Debug)]
pub struct Procfile(PathBuf);

impl Procfile {
    /// The path at which the Procfile lies.
    pub closed spec fn location(&self) -> PathBuf {
        self.0
    }

    /// The Procfile at the path `procfile`.
    pub fn new(procfile: PathBuf) -> (file: Procfile)
        ensures
            file.location() == procfile,
    {
        Procfile(procfile)
    }

    /// The path at which the Procfile lies.
    pub fn path(&self) -> (path: &PathBuf)
        ensures
            *path == self.location(),
    {
        &self.0
    }
}

/// One line of a Procfile: a name and a command.
#[derive(Debug, PartialEq, Eq)]
pub struct ProcfileJob(pub String, pub String);

impl std::str::FromStr for ProcfileJob {
    type Err = ParseError;

    /// Reads a job from one line of the form `name: command`, as a service
    /// is read from it.
    fn from_str(line: &str) -> (outcome: Result<ProcfileJob, ParseError>)
        ensures
            match outcome {
                Ok(job) => parse_line(line@) == Ok::<ServiceView, ParseError>(
                    ServiceView { name: job.0@, command: job.1@ },
                ),
                Err(error) => parse_line(line@) == Err::<ServiceView, ParseError>(error),
            },
    {
        match Service::from_line(line) {
            Ok(service) => Ok(ProcfileJob(service.name, service.command)),
            Err(error) => Err(error),
        }
    }
}

/// Why a Procfile cannot be read.
#[derive(Debug, Clone, Copy, PartialEq, Eq)]
pub enum ProcfileError {
    /// The bytes are no UTF-8 text.
    InvalidUtf8,
    /// The line of this number, counted from zero, describes no service.
    InvalidLine { line: usize, reason: ParseError },
}

/// The first line of a text that describes no service, and why.
pub struct LineFault {
    pub line: int,
    pub reason: ParseError,
}

/// The lines of a text: what stands between its line feeds. A text that
/// ends in a line feed has no empty line after it.
pub open spec fn split_lines(text: Seq<char>) -> Seq<Seq<char>>
    decreases text.len(),
    via split_lines_ends
{
    if text.len() == 0 {
        Seq::empty()
    } else {
        let end = first_index_of(text, '\n');
        if end >= text.len() {
            seq![text]
        } else {
            seq![text.take(end)] + split_lines(text.skip(end + 1))
        }
    }
}

#[via_fn]
proof fn split_lines_ends(text: Seq<char>) {
    lemma_first_index_of_bounds(text, '\n');
}

/// Whether a line says nothing: it is blank, or a `#` is the first thing on it.
pub open spec fn is_skipped(line: Seq<char>) -> bool {
    let rest = trim_start(line);
    rest.len() == 0 || rest[0] == '#'
}

/// The services that `lines` describe, in their order, or the first line
/// among them that says something and describes none.
pub open spec fn services_of_lines(lines: Seq<Seq<char>>) -> Result<Seq<ServiceView>, LineFault>
    decreases lines.len(),
{
    if lines.len() == 0 {
        Ok(Seq::empty())
    } else {
        match services_of_lines(lines.drop_last()) {
            Err(fault) => Err(fault),
            Ok(services) => if is_skipped(lines.last()) {
                Ok(services)
            } else {
                match parse_line(lines.last()) {
                    Ok(service) => Ok(services.push(service)),
                    Err(reason) => Err(LineFault { line: lines.len() - 1, reason }),
                }
            },
        }
    }
}

/// The services that a Procfile's text describes.
pub open spec fn services_of_text(text: Seq<char>) -> Result<Seq<ServiceView>, LineFault> {
    services_of_lines(split_lines(text))
}

/// Whether an outcome of reading is the one that `expected` names.
pub open spec fn read_as(
    outcome: Result<Vec<Service>, ProcfileError>,
    expected: Result<Seq<ServiceView>, LineFault>,
) -> bool {
    match outcome {
        Ok(services) => expected == Ok::<Seq<ServiceView>, LineFault>(services.deep_view()),
        Err(ProcfileError::InvalidLine { line, reason }) => expected == Err::<
            Seq<ServiceView>,
            LineFault,
        >(LineFault { line: line as int, reason }),
        Err(ProcfileError::InvalidUtf8) => false,
    }
}

/// A fault among the first lines is the fault of the whole.
pub proof fn lemma_fault_stays(lines: Seq<Seq<char>>, more: Seq<Seq<char>>)
    requires
        services_of_lines(lines) is Err,
    ensures
        services_of_lines(lines + more) == services_of_lines(lines),
    decreases more.len(),
{
    if more.len() == 0 {
        assert(lines + more == lines);
    } else {
        lemma_fault_stays(lines, more.drop_last());
        assert((lines + more).drop_last() == lines + more.drop_last());
    }
}

/// The text of a Procfile that describes `services`: their lines, one
/// after the other.
pub open spec fn procfile_text(services: Seq<ServiceView>) -> Seq<char>
    decreases services.len(),
{
    if services.len() == 0 {
        Seq::empty()
    } else {
        procfile_text(services.drop_last()) + line_of(services.last())
    }
}

/// Whether a service can be read back from its line: its name is not
/// empty, holds neither colon nor line feed and has no `#` as its first
/// character after any white space; its command is not empty, holds no
/// line feed and neither starts nor ends with white space.
pub open spec fn is_writable(service: ServiceView) -> bool {
    &&& service.name.len() > 0
    &&& service.command.len() > 0
    &&& !service.name.contains(':')
    &&& !service.name.contains('\n')
    &&& (trim_start(service.name).len() == 0 || trim_start(service.name)[0] != '#')
    &&& !service.command.contains('\n')
    &&& trim(service.command) == service.command
}

/// The line of a writable service, without its line feed, is read as that
/// service, and is not passed over.
pub proof fn lemma_line_round_trip(service: ServiceView)
    requires
        is_writable(service),
    ensures
        parse_line(service.name + seq![':', ' '] + service.command) == Ok::<
            ServiceView,
            ParseError,
        >(service),
        !is_skipped(service.name + seq![':', ' '] + service.command),
        !(service.name + seq![':', ' '] + service.command).contains('\n'),
{
    let name = service.name;
    let command = service.command;
    let line = name + seq![':', ' '] + command;
    assert forall|j: int| 0 <= j < name.len() implies line[j] != ':' && line[j] != '\n' by {
        assert(line[j] == name[j]);
        assert(name.contains(name[j]));
    }
    assert(line[name.len() as int] == ':');
    lemma_first_index_of(line, ':', name.len() as int);
    assert(line.take(name.len() as int) == name);
    let tail = line.skip(name.len() as int + 1);
    assert(tail == seq![' '] + command);
    // The command has no white space at either end.
    lemma_leading_whitespace_bounds(command);
    lemma_trailing_whitespace_bounds(trim_start(command));
    assert(leading_whitespace(command) == 0);
    assert(trim_start(command) == command);
    assert(trailing_whitespace(command) == 0);
    assert(tail[0] == ' ');
    assert forall|j: int| 0 <= j < 1 implies is_whitespace(tail[j]) by {}
    if command.len() > 0 {
        assert(tail[1] == command[0]);
    }
    lemma_leading_whitespace(tail, 1);
    assert(trim_start(tail) == command);
    assert(trim(tail) == command);
    // The line is not passed over.
    lemma_leading_whitespace_bounds(name);
    let lead = leading_whitespace(name);
    assert forall|j: int| 0 <= j < lead implies is_whitespace(line[j]) by {
        assert(line[j] == name[j]);
    }
    if lead < name.len() {
        assert(line[lead] == name[lead]);
        assert(trim_start(name)[0] == name[lead]);
    }
    lemma_leading_whitespace(line, lead);
    assert(trim_start(line)[0] == line[lead]);
    // The line holds no line feed.
    assert forall|j: int| 0 <= j < line.len() implies line[j] != '\n' by {
        if j >= name.len() + 2 {
            assert(line[j] == command[j - name.len() - 2]);
            assert(command.contains(command[j - name.len() - 2]));
        } else if j == name.len() + 1 {
            assert(line[j] == ' ');
        }
    }
}

/// A line and its line feed, put behind a text that is empty or ends in a
/// line feed, add that one line to the text's lines.
pub proof fn lemma_split_lines_push(text: Seq<char>, line: Seq<char>)
    requires
        text.len() == 0 || text.last() == '\n',
        !line.contains('\n'),
    ensures
        split_lines(text + line + seq!['\n']) == split_lines(text).push(line),
    decreases text.len(),
{
    let whole = text + line + seq!['\n'];
    if text.len() == 0 {
        assert(whole == line + seq!['\n']);
        assert forall|j: int| 0 <= j < line.len() implies whole[j] != '\n' by {
            assert(line.contains(line[j]));
        }
        lemma_first_index_of(whole, '\n', line.len() as int);
        assert(whole.take(line.len() as int) =~= line);
        assert(whole.skip(line.len() as int + 1) =~= Seq::<char>::empty());
        assert(split_lines(Seq::<char>::empty()) == Seq::<Seq<char>>::empty());
        assert(split_lines(whole) == seq![line] + split_lines(Seq::<char>::empty()));
        assert(seq![line] + Seq::<Seq<char>>::empty() =~= Seq::<Seq<char>>::empty().push(line));
        assert(text =~= Seq::<char>::empty());
    } else {
        lemma_first_index_of_bounds(text, '\n');
        let end = first_index_of(text, '\n');
        assert(end < text.len()) by {
            if end == text.len() {
                assert(text[text.len() - 1] != '\n');
            }
        }
        assert forall|j: int| 0 <= j < end implies whole[j] != '\n' by {
            assert(whole[j] == text[j]);
        }
        assert(whole[end] == text[end]);
        lemma_first_index_of(whole, '\n', end);
        let rest = text.skip(end + 1);
        assert(whole.take(end) =~= text.take(end));
        assert(whole.skip(end + 1) =~= rest + line + seq!['\n']);
        if rest.len() > 0 {
            assert(rest.last() == text.last());
        }
        lemma_split_lines_push(rest, line);
        assert(split_lines(text) == seq![text.take(end)] + split_lines(rest));
        assert(split_lines(whole) == seq![text.take(end)] + split_lines(rest + line + seq!['\n']));
        assert(seq![text.take(end)] + split_lines(rest).push(line) =~= (seq![text.take(end)]
            + split_lines(rest)).push(line));
    }
}

/// Round trip: the text written for writable services is read as those
/// services, in their order, whether or not their names differ; and so is
/// its UTF-8 encoding.
pub proof fn lemma_procfile_round_trip(services: Seq<ServiceView>)
    requires
        forall|i: int| 0 <= i < services.len() ==> is_writable(#[trigger] services[i]),
    ensures
        services_of_text(procfile_text(services)) == Ok::<Seq<ServiceView>, LineFault>(services),
        procfile_text(services).len() == 0 || procfile_text(services).last() == '\n',
        valid_utf8(encode_utf8(procfile_text(services))),
        decode_utf8(encode_utf8(procfile_text(services))) == procfile_text(services),
    decreases services.len(),
{
    vstd::utf8::encode_utf8_valid_utf8(procfile_text(services));
    vstd::utf8::encode_utf8_decode_utf8(procfile_text(services));
    if services.len() == 0 {
        assert(split_lines(procfile_text(services)) == Seq::<Seq<char>>::empty());
        assert(services =~= Seq::<ServiceView>::empty());
    } else {
        let before = services.drop_last();
        let last = services.last();
        let line = last.name + seq![':', ' '] + last.command;
        assert forall|i: int| 0 <= i < before.len() implies is_writable(#[trigger] before[i]) by {
            assert(before[i] == services[i]);
        }
        lemma_procfile_round_trip(before);
        lemma_line_round_trip(last);
        lemma_split_lines_push(procfile_text(before), line);
        assert(procfile_text(services) =~= procfile_text(before) + line + seq!['\n']);
        let lines = split_lines(procfile_text(before)).push(line);
        assert(split_lines(procfile_text(services)) == lines);
        assert(lines.drop_last() =~= split_lines(procfile_text(before)));
        assert(lines.last() == line);
        assert(before.push(last) =~= services);
        assert(services_of_lines(lines) == Ok::<Seq<ServiceView>, LineFault>(before.push(last)));
    }
}

/// The text of a `str` that holds these bytes, where they are UTF-8.
///
/// Trusted: `core::str::from_utf8` accepts exactly the byte strings that are
/// valid UTF-8, and the `str` it returns holds the characters that they
/// encode.
#[verifier::external_body]
fn text_of_bytes(bytes: &[u8]) -> (text: Option<&str>)
    ensures
        text is Some <==> valid_utf8(bytes@),
        text is Some ==> text->0@ == decode_utf8(bytes@),
{
    core::str::from_utf8(bytes).ok()
}

impl Service {
    /// Reads the services that a Procfile's text describes, in the order of
    /// its lines. Blank lines and lines whose first character after any
    /// white space is `#` are passed over. The first other line that holds
    /// no colon, nothing before its first colon, or nothing but white space
    /// after it, is reported.
    pub fn parse_procfile(text: &str) -> (outcome: Result<Vec<Service>, ProcfileError>)
        ensures
            read_as(outcome, services_of_text(text@)),
    {
        let chars = chars_of(text);
        let len = chars.len();
        let mut services: Vec<Service> = Vec::new();
        let mut pos: usize = 0;
        let mut line_no: usize = 0;
        let ghost mut done: Seq<Seq<char>> = Seq::empty();
        assert(text@.skip(0) == text@);
        assert(services.deep_view() =~= Seq::<ServiceView>::empty());
        while pos < len
            invariant
                chars@ == text@,
                len == chars.len(),
                pos <= len,
                line_no <= pos,
                done.len() == line_no,
                split_lines(text@) == done + split_lines(text@.skip(pos as int)),
                services_of_lines(done) == Ok::<Seq<ServiceView>, LineFault>(
                    services.deep_view(),
                ),
            decreases len - pos,
        {
            let end = find_char(&chars, pos, len, '\n');
            let first = skip_whitespace(&chars, pos, end);
            let ghost rest = text@.skip(pos as int);
            let ghost line = text@.subrange(pos as int, end as int);
            let ghost before = services.deep_view();
            proof {
                assert(rest == text@.subrange(pos as int, len as int));
                assert(rest.take(end - pos) == line);
                assert(trim_start(line) == text@.subrange(first as int, end as int));
                if end < len {
                    assert(rest.skip(end - pos + 1) == text@.skip(end + 1));
                    assert(done + (seq![line] + split_lines(text@.skip(end + 1))) == done.push(
                        line,
                    ) + split_lines(text@.skip(end + 1)));
                } else {
                    assert(rest == line);
                    assert(done + seq![line] == done.push(line) + split_lines(
                        text@.skip(len as int),
                    ));
                }
                assert(done.push(line).drop_last() == done);
            }
            if first < end && chars[first] != '#' {
                match parse_range(text, &chars, pos, end) {
                    Ok(service) => {
                        services.push(service);
                        assert(services.deep_view() =~= before.push(service@));
                    },
                    Err(reason) => {
                        proof {
                            let next = if end < len {
                                end + 1
                            } else {
                                end as int
                            };
                            lemma_fault_stays(done.push(line), split_lines(text@.skip(next)));
                        }
                        return Err(ProcfileError::InvalidLine { line: line_no, reason });
                    },
                }
            }
            proof {
                done = done.push(line);
            }
            line_no += 1;
            pos = if end < len {
                end + 1
            } else {
                end
            };
        }
        assert(done + split_lines(text@.skip(pos as int)) == done);
        Ok(services)
    }

    /// Writes the text of a Procfile that describes `services`: for each, in
    /// their order, its name, a colon, a blank, its command and a line feed.
    pub fn write_procfile(services: &[Service]) -> (text: String)
        ensures
            text@ == procfile_text(services.deep_view()),
    {
        let mut text = String::new();
        let mut at: usize = 0;
        assert(services.deep_view().take(0) =~= Seq::<ServiceView>::empty());
        while at < services.len()
            invariant
                at <= services.len(),
                text@ == procfile_text(services.deep_view().take(at as int)),
            decreases services.len() - at,
        {
            let line = services[at].to_line();
            proof {
                let next = services.deep_view().take(at + 1);
                assert(next.drop_last() == services.deep_view().take(at as int));
                assert(next.last() == services[at as int]@);
            }
            text.append(line.as_str());
            at += 1;
        }
        assert(services.deep_view().take(at as int) == services.deep_view());
        text
    }

    /// Reads the services that the bytes of a Procfile describe. The bytes
    /// must be UTF-8 text; what the text says is read as `parse_procfile`
    /// reads it.
    pub fn read_procfile(input: &[u8]) -> (outcome: Result<Vec<Service>, ProcfileError>)
        ensures
            !valid_utf8(input@) ==> outcome == Err::<Vec<Service>, ProcfileError>(
                ProcfileError::InvalidUtf8,
            ),
            valid_utf8(input@) ==> read_as(outcome, services_of_text(decode_utf8(input@))),
    {
        match text_of_bytes(input) {
            Some(text) => Service::parse_procfile(text),
            None => Err(ProcfileError::InvalidUtf8),
        }
    }
}

} // verus!
