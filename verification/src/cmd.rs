//! Command lines: a line of several commands cut into its commands, one
//! command cut into the program and its arguments, and what a command that
//! was run came to.
//!
//! Nothing is run here. The caller runs what these functions hand back.

use crate::text::{split, split_seq};
use vstd::prelude::*;

verus! {

/// The commands of a line: the pieces between its semicolons, each as it
/// stands, empty ones included.
pub open spec fn commands_of(line: Seq<char>) -> Seq<Seq<char>> {
    split_seq(line, ';')
}

/// The commands of a line, in the order in which they are to be run. Each is
/// to be run whether or not the ones before it failed.
pub fn run_array(command: &str) -> (commands: Vec<String>)
    ensures
        commands.deep_view() == commands_of(command@),
        commands.len() >= 1,
{
    proof {
        crate::text::lemma_split_pieces_hold_no_separator(command@, ';');
    }
    let commands = split(command, ';');
    assert(commands.deep_view().len() == commands.len());
    commands
}

/// A program and the arguments it is started with.
#[derive(Clone, Debug)]
pub struct CommandLine {
    pub program: String,
    pub args: Vec<String>,
}

/// The words of a command: the pieces between its spaces, empty ones
/// included. The first is the program, the others are its arguments.
pub open spec fn words_of(command: Seq<char>) -> Seq<Seq<char>> {
    split_seq(command, ' ')
}

/// The program and the arguments of a command; `None` for the empty command,
/// which cannot be run.
pub fn command_line(command: &str) -> (line: Option<CommandLine>)
    ensures
        line is None <==> command@.len() == 0,
        line matches Some(l) ==> l.program@ == words_of(command@)[0] && l.args.deep_view()
            == words_of(command@).skip(1),
{
    proof {
        crate::text::lemma_split_pieces_hold_no_separator(command@, ' ');
    }
    let mut words = split(command, ' ');
    assert(words.deep_view().len() == words.len());
    let ghost all = words.deep_view();
    if words.len() == 1 && words[0].as_str().unicode_len() == 0 {
        proof {
            // A command with a single empty word is the empty command.
            crate::text::lemma_first_index(command@, ' ');
            assert(all[0] == words@[0]@);
            if command@.len() > 0 {
                let i = crate::text::first_index(command@, ' ');
                if 0 <= i < command@.len() {
                    crate::text::lemma_split_pieces_hold_no_separator(
                        command@.skip(i + 1),
                        ' ',
                    );
                    assert(split_seq(command@, ' ').len() >= 2);
                } else {
                    assert(split_seq(command@, ' ') == seq![command@]);
                }
            }
        }
        return None;
    }
    proof {
        if command@.len() == 0 {
            assert(split_seq(command@, ' ') == seq![command@]);
            assert(all[0] == words@[0]@);
        }
    }
    let ghost before = words@;
    let program = words.remove(0);
    assert(program@ == all[0]);
    assert(words.deep_view() =~= all.skip(1)) by {
        assert forall|i: int| 0 <= i < words.len() implies #[trigger] words.deep_view()[i]
            == all.skip(1)[i] by {
            assert(words@[i] == before[i + 1]);
            assert(all[i + 1] == before[i + 1]@);
        }
    }
    Some(CommandLine { program, args: words })
}

/// How a command that was started came to its end.
#[derive(Clone, Debug)]
pub struct Finished {
    /// Whether it ended well: with the exit code 0.
    pub success: bool,
    /// How it ended, in words.
    pub status: String,
    /// What it printed.
    pub printed: String,
}

/// What a run of a command came to: what the command printed where it was
/// started and ended well, and else why not, which is why it could not be
/// started or how it ended.
pub open spec fn outcome_of(run: Result<Finished, String>) -> Result<String, String> {
    match run {
        Ok(finished) => if finished.success {
            Ok(finished.printed)
        } else {
            Err(finished.status)
        },
        Err(reason) => Err(reason),
    }
}

/// What a run of a command came to.
pub fn outcome(run: Result<Finished, String>) -> (result: Result<String, String>)
    ensures
        result == outcome_of(run),
{
    match run {
        Ok(finished) => if finished.success {
            Ok(finished.printed)
        } else {
            Err(finished.status)
        },
        Err(reason) => Err(reason),
    }
}

} // verus!
