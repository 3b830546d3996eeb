//! From a command line to the pipeline that runs it: the line is split
//! into words as a shell would, the words into commands at each `|`.

use crate::service::Service;
use duct::Expression;
use shellwords::MismatchedQuotes;
use vstd::prelude::*;

verus! {

/// Why a command line cannot be run.
#[derive(Debug, Clone, Copy, PartialEq, Eq)]
pub enum CommandError {
    /// A quote is opened and not closed.
    MismatchedQuotes,
    /// No word stands before, between or after the `|`s somewhere.
    EmptyCommand,
}

/// `shellwords::MismatchedQuotes`, the one error of `shellwords::split`.
#[verifier::external_type_specification]
#[verifier::external_body]
pub struct ExMismatchedQuotes(MismatchedQuotes);

/// `duct::Expression`, carried as it is: nothing is known of what it holds
/// but through `expression_stages`.
#[verifier::external_type_specification]
#[verifier::external_body]
pub struct ExExpression(Expression);

/// The words into which `shellwords::split` splits a command line, or
/// `None` where it reports mismatched quotes.
pub uninterp spec fn shell_words(input: Seq<char>) -> Option<Seq<Seq<char>>>;

/// The commands that a `duct::Expression` runs, from the left of its
/// pipeline to the right, each as its program followed by its arguments.
pub uninterp spec fn expression_stages(expression: Expression) -> Seq<Seq<Seq<char>>>;

/// Trusted: `shellwords::split` is a function of the line alone. It returns
/// the words it finds, or its error where a quote is not closed.
pub assume_specification[ shellwords::split ](input: &str) -> (outcome: Result<
    Vec<String>,
    MismatchedQuotes,
>)
    ensures
        match outcome {
            Ok(words) => shell_words(input@) == Some(words.deep_view()),
            Err(_) => shell_words(input@) is None,
        },
;

/// The expression that runs one command.
///
/// Trusted: `duct::cmd` makes an expression of a single command, whose
/// program is the first word and whose arguments are the others.
#[verifier::external_body]
fn command_expression(argv: &Vec<String>) -> (expression: Expression)
    requires
        argv.len() > 0,
    ensures
        expression_stages(expression) == seq![argv.deep_view()],
{
    duct::cmd(&argv[0], &argv[1..])
}

/// The expression that pipes `left` into `right`.
///
/// Trusted: `Expression::pipe` makes an expression that runs the commands
/// of the left side and then those of the right, each one's output piped
/// into the next.
#[verifier::external_body]
fn piped(left: Expression, right: Expression) -> (expression: Expression)
    ensures
        expression_stages(expression) == expression_stages(left) + expression_stages(right),
{
    left.pipe(right)
}

/// The word that parts one command of a pipeline from the next.
pub open spec fn pipe_word() -> Seq<char> {
    seq!['|']
}

/// The runs of words between the `|`s of `words`: one more than there are
/// `|`s, some of them empty where a `|` has no word beside it.
pub open spec fn split_on_pipes(words: Seq<Seq<char>>) -> Seq<Seq<Seq<char>>>
    decreases words.len(),
{
    if words.len() == 0 {
        seq![Seq::empty()]
    } else {
        let before = split_on_pipes(words.drop_last());
        if words.last() == pipe_word() {
            before.push(Seq::empty())
        } else {
            before.drop_last().push(before.last().push(words.last()))
        }
    }
}

/// Whether one of `commands` has no word.
pub open spec fn has_empty(commands: Seq<Seq<Seq<char>>>) -> bool {
    exists|i: int| 0 <= i < commands.len() && (#[trigger] commands[i]).len() == 0
}

/// The commands of the pipeline that `words` spell, unless one is empty.
pub open spec fn pipeline_of_words(words: Seq<Seq<char>>) -> Result<
    Seq<Seq<Seq<char>>>,
    CommandError,
> {
    let commands = split_on_pipes(words);
    if has_empty(commands) {
        Err(CommandError::EmptyCommand)
    } else {
        Ok(commands)
    }
}

/// The commands of the pipeline that a command line spells.
pub open spec fn pipeline_of_line(line: Seq<char>) -> Result<Seq<Seq<Seq<char>>>, CommandError> {
    match shell_words(line) {
        None => Err(CommandError::MismatchedQuotes),
        Some(words) => pipeline_of_words(words),
    }
}

/// Whether an outcome of splitting is the one that `expected` names.
pub open spec fn split_as(
    outcome: Result<Vec<Vec<String>>, CommandError>,
    expected: Result<Seq<Seq<Seq<char>>>, CommandError>,
) -> bool {
    match outcome {
        Ok(commands) => expected == Ok::<Seq<Seq<Seq<char>>>, CommandError>(
            commands.deep_view(),
        ),
        Err(error) => expected == Err::<Seq<Seq<Seq<char>>>, CommandError>(error),
    }
}

/// `split_on_pipes` never comes back empty.
pub proof fn lemma_split_on_pipes_len(words: Seq<Seq<char>>)
    ensures
        split_on_pipes(words).len() >= 1,
    decreases words.len(),
{
    if words.len() > 0 {
        lemma_split_on_pipes_len(words.drop_last());
    }
}

/// Parts `words` into the commands of a pipeline at each word `|`. The
/// pipeline has one command where there is no `|`. A command without words
/// is an error.
pub fn split_pipeline(words: Vec<String>) -> (outcome: Result<Vec<Vec<String>>, CommandError>)
    ensures
        split_as(outcome, pipeline_of_words(words.deep_view())),
{
    let pipe = "|".to_owned();
    proof {
        reveal_strlit("|");
        assert(pipe@ =~= pipe_word());
    }
    let mut commands: Vec<Vec<String>> = Vec::new();
    let mut current: Vec<String> = Vec::new();
    let mut at: usize = 0;
    proof {
        assert(words.deep_view().take(0) =~= Seq::<Seq<char>>::empty());
        assert(current.deep_view() =~= Seq::<Seq<char>>::empty());
        assert(commands.deep_view() =~= Seq::<Seq<Seq<char>>>::empty());
        assert(commands.deep_view().push(current.deep_view()) =~= seq![Seq::<Seq<char>>::empty()]);
    }
    while at < words.len()
        invariant
            at <= words.len(),
            pipe@ == pipe_word(),
            split_on_pipes(words.deep_view().take(at as int)) == commands.deep_view().push(
                current.deep_view(),
            ),
        decreases words.len() - at,
    {
        let ghost done = commands.deep_view();
        let ghost open = current.deep_view();
        proof {
            let next = words.deep_view().take(at + 1);
            assert(next.drop_last() =~= words.deep_view().take(at as int));
            assert(next.last() == words[at as int]@);
            assert(done.push(open).drop_last() =~= done);
        }
        if words[at] == pipe {
            commands.push(current);
            current = Vec::new();
            proof {
                assert(commands.deep_view() =~= done.push(open));
                assert(current.deep_view() =~= Seq::<Seq<char>>::empty());
            }
        } else {
            let word = words[at].clone();
            current.push(word);
            proof {
                assert(current.deep_view() =~= open.push(word@));
            }
        }
        at += 1;
    }
    let ghost done = commands.deep_view();
    let ghost open = current.deep_view();
    commands.push(current);
    proof {
        assert(words.deep_view().take(at as int) == words.deep_view());
        assert(commands.deep_view() =~= done.push(open));
    }
    let mut check: usize = 0;
    while check < commands.len()
        invariant
            check <= commands.len(),
            commands.deep_view() == split_on_pipes(words.deep_view()),
            forall|j: int| 0 <= j < check ==> (#[trigger] commands.deep_view()[j]).len() > 0,
        decreases commands.len() - check,
    {
        if commands[check].len() == 0 {
            assert(commands.deep_view()[check as int].len() == 0);
            return Err(CommandError::EmptyCommand);
        }
        check += 1;
    }
    Ok(commands)
}

/// Splits a command line into the commands of its pipeline: into words as
/// a shell does, with quotes and backslashes, then into commands at each
/// word `|`. A quote that is not closed is an error, and so is a command
/// without words.
pub fn split_piped_commands(commands: &str) -> (outcome: Result<Vec<Vec<String>>, CommandError>)
    ensures
        split_as(outcome, pipeline_of_line(commands@)),
{
    match shellwords::split(commands) {
        Ok(words) => split_pipeline(words),
        Err(_) => Err(CommandError::MismatchedQuotes),
    }
}

/// The expression that runs `commands` as one pipeline, the output of each
/// piped into the next.
pub fn pipeline_expression(commands: &Vec<Vec<String>>) -> (expression: Expression)
    requires
        commands.len() > 0,
        !has_empty(commands.deep_view()),
    ensures
        expression_stages(expression) == commands.deep_view(),
{
    assert(commands.deep_view()[0].len() > 0);
    let mut expression = command_expression(&commands[0]);
    let mut at: usize = 1;
    assert(seq![commands[0].deep_view()] =~= commands.deep_view().take(1));
    while at < commands.len()
        invariant
            1 <= at <= commands.len(),
            !has_empty(commands.deep_view()),
            expression_stages(expression) == commands.deep_view().take(at as int),
        decreases commands.len() - at,
    {
        assert(commands.deep_view()[at as int].len() > 0);
        let next = command_expression(&commands[at]);
        expression = piped(expression, next);
        assert(commands.deep_view().take(at as int) + seq![commands[at as int].deep_view()]
            =~= commands.deep_view().take(at + 1));
        at += 1;
    }
    assert(commands.deep_view().take(at as int) == commands.deep_view());
    expression
}

impl Service {
    /// The expression that runs this service's command line as a pipeline.
    /// The command line must split into commands, each with a program.
    pub fn to_expression(&self) -> (outcome: Result<Expression, CommandError>)
        ensures
            match outcome {
                Ok(expression) => pipeline_of_line(self@.command) == Ok::<
                    Seq<Seq<Seq<char>>>,
                    CommandError,
                >(expression_stages(expression)),
                Err(error) => pipeline_of_line(self@.command) == Err::<
                    Seq<Seq<Seq<char>>>,
                    CommandError,
                >(error),
            },
    {
        match split_piped_commands(self.command.as_str()) {
            Ok(commands) => {
                proof {
                    lemma_split_on_pipes_len(shell_words(self@.command)->0);
                }
                Ok(pipeline_expression(&commands))
            },
            Err(error) => Err(error),
        }
    }
}

} // verus!
