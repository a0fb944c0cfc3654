//! The chat prompt's commands and their parsing.

use std::str::FromStr;
use vstd::prelude::*;

verus! {

use vstd::utf8::{decode_utf8, encode_utf8};
use crate::logger::Logger;

/// A command typed at the prompt.
#[derive(Debug)]
pub enum Command {
    Connect { address: String },
    Help { command: Option<String> },
    Quit,
}

/// The mathematical content of a [`Command`].
pub enum CommandView {
    Connect { address: Seq<char> },
    Help { command: Option<Seq<char>> },
    Quit,
}

impl View for Command {
    type V = CommandView;

    open spec fn view(&self) -> CommandView {
        match self {
            Command::Connect { address } => CommandView::Connect { address: address@ },
            Command::Help { command } => CommandView::Help {
                command: match command {
                    Some(c) => Some(c@),
                    None => None,
                },
            },
            Command::Quit => CommandView::Quit,
        }
    }
}

/// Why a command line did not parse.
#[derive(Clone, Copy, Debug, PartialEq, Eq, Structural)]
pub enum CommandError {
    /// The line held no token.
    Empty,
    /// `connect` takes exactly one argument.
    ConnectUsage,
    /// `help` takes at most one argument.
    HelpUsage,
    /// The first token is no known command.
    Unknown,
}

/// The whitespace that separates tokens.
pub open spec fn is_ws(c: char) -> bool {
    c == ' ' || c == '\t' || c == '\n' || c == '\r'
}

/// The position right after the token starting at `i`: the first position
/// at or after `i` holding whitespace, or the text's end.
pub open spec fn token_end(s: Seq<char>, i: int) -> int
    decreases s.len() - i,
{
    if i < 0 || i >= s.len() || is_ws(s[i]) {
        i
    } else {
        token_end(s, i + 1)
    }
}

/// The token's end lies between its start and the text's end.
pub proof fn lemma_token_end_bounds(s: Seq<char>, i: int)
    requires
        0 <= i <= s.len(),
    ensures
        i <= token_end(s, i) <= s.len(),
    decreases s.len() - i,
{
    if i < s.len() && !is_ws(s[i]) {
        lemma_token_end_bounds(s, i + 1);
    }
}

/// The text's tokens from position `i` on: maximal runs of non-whitespace.
pub open spec fn tokens_from(s: Seq<char>, i: int) -> Seq<Seq<char>>
    decreases s.len() - i,
    when 0 <= i
    via tokens_from_decreases
{
    if i >= s.len() {
        seq![]
    } else if is_ws(s[i]) {
        tokens_from(s, i + 1)
    } else {
        seq![s.subrange(i, token_end(s, i))] + tokens_from(s, token_end(s, i))
    }
}

#[via_fn]
proof fn tokens_from_decreases(s: Seq<char>, i: int) {
    if 0 <= i < s.len() && !is_ws(s[i]) {
        lemma_token_end_bounds(s, i + 1);
        assert(token_end(s, i) == token_end(s, i + 1));
        assert(token_end(s, i) > i);
    }
}

/// The text's tokens.
pub open spec fn tokens_of(s: Seq<char>) -> Seq<Seq<char>> {
    tokens_from(s, 0)
}

/// What parsing a command line yields.
pub open spec fn parse_command_spec(s: Seq<char>) -> Result<CommandView, CommandError> {
    let toks = tokens_of(s);
    if toks.len() == 0 {
        Err(CommandError::Empty)
    } else if toks[0] == "connect"@ {
        if toks.len() == 2 {
            Ok(CommandView::Connect { address: toks[1] })
        } else {
            Err(CommandError::ConnectUsage)
        }
    } else if toks[0] == "help"@ {
        if toks.len() == 1 {
            Ok(CommandView::Help { command: None })
        } else if toks.len() == 2 {
            Ok(CommandView::Help { command: Some(toks[1]) })
        } else {
            Err(CommandError::HelpUsage)
        }
    } else if toks[0] == "quit"@ {
        Ok(CommandView::Quit)
    } else {
        Err(CommandError::Unknown)
    }
}

/// Whether two pieces of text hold the same characters.
pub fn str_eq(a: &str, b: &str) -> (r: bool)
    ensures
        r == (a@ == b@),
{
    let av: Vec<u8> = a.as_bytes_vec();
    let bv: Vec<u8> = b.as_bytes_vec();
    if av.len() != bv.len() {
        proof {
            assert(encode_utf8(a@).len() != encode_utf8(b@).len());
        }
        return false;
    }
    let mut i: usize = 0;
    while i < av.len()
        invariant
            i <= av@.len(),
            av@.len() == bv@.len(),
            av@.subrange(0, i as int) == bv@.subrange(0, i as int),
            av@ == encode_utf8(a@),
            bv@ == encode_utf8(b@),
        decreases av@.len() - i,
    {
        if av[i] != bv[i] {
            proof {
                assert(av@ != bv@);
            }
            return false;
        }
        proof {
            assert(av@.subrange(0, i + 1) =~= av@.subrange(0, i as int).push(av@[i as int]));
            assert(bv@.subrange(0, i + 1) =~= bv@.subrange(0, i as int).push(bv@[i as int]));
        }
        i = i + 1;
    }
    proof {
        broadcast use vstd::utf8::encode_utf8_decode_utf8;

        assert(av@.subrange(0, av@.len() as int) == av@);
        assert(bv@.subrange(0, bv@.len() as int) == bv@);
        assert(av@ == bv@);
        assert(decode_utf8(encode_utf8(a@)) == decode_utf8(encode_utf8(b@)));
    }
    true
}

/// Splits a line into its whitespace-separated tokens.
pub fn tokenize(s: &str) -> (r: Vec<String>)
    ensures
        r@.len() == tokens_of(s@).len(),
        forall|k: int| 0 <= k < r@.len() ==> #[trigger] r@[k]@ == tokens_of(s@)[k],
{
    let n: usize = s.unicode_len();
    let mut tokens: Vec<String> = Vec::new();
    let mut i: usize = 0;
    while i < n
        invariant
            i <= n == s@.len(),
            tokens_of(s@) =~= tokens@.map_values(|t: String| t@) + tokens_from(s@, i as int),
        decreases n - i,
    {
        let c: char = s.get_char(i);
        if c == ' ' || c == '\t' || c == '\n' || c == '\r' {
            i = i + 1;
            continue ;
        }
        let start: usize = i;
        while i < n
            invariant
                start <= i <= n == s@.len(),
                token_end(s@, start as int) == token_end(s@, i as int),
            ensures
                start <= i <= n == s@.len(),
                token_end(s@, start as int) == i,
            decreases n - i,
        {
            let c2: char = s.get_char(i);
            if c2 == ' ' || c2 == '\t' || c2 == '\n' || c2 == '\r' {
                break ;
            }
            i = i + 1;
        }
        let token: &str = s.substring_char(start, i);
        let ghost before = tokens@;
        tokens.push(token.to_owned());
        proof {
            assert(tokens@.map_values(|t: String| t@) =~= before.map_values(|t: String| t@).push(
                s@.subrange(start as int, i as int),
            ));
        }
    }
    proof {
        assert(tokens_from(s@, i as int) =~= Seq::<Seq<char>>::empty());
        assert(tokens@.map_values(|t: String| t@) =~= tokens_of(s@));
    }
    tokens
}

impl Command {
    /// Parses a command line: `connect <address>`, `help [<command>]`, or
    /// `quit`.
    pub fn parse(line: &str) -> (r: Result<Command, CommandError>)
        ensures
            r matches Ok(c) ==> parse_command_spec(line@) == Ok::<_, CommandError>(c@),
            r matches Err(e) ==> parse_command_spec(line@) == Err::<CommandView, _>(e),
    {
        let tokens: Vec<String> = tokenize(line);
        if tokens.len() == 0 {
            return Err(CommandError::Empty);
        }
        let head: &String = &tokens[0];
        if str_eq(head.as_str(), "connect") {
            if tokens.len() == 2 {
                Ok(Command::Connect { address: tokens[1].clone() })
            } else {
                Err(CommandError::ConnectUsage)
            }
        } else if str_eq(head.as_str(), "help") {
            if tokens.len() == 1 {
                Ok(Command::Help { command: None })
            } else if tokens.len() == 2 {
                Ok(Command::Help { command: Some(tokens[1].clone()) })
            } else {
                Err(CommandError::HelpUsage)
            }
        } else if str_eq(head.as_str(), "quit") {
            // Anything after `quit` is ignored.
            Ok(Command::Quit)
        } else {
            Err(CommandError::Unknown)
        }
    }

    /// Writes the help text for a command, or the command list, to the
    /// logger; an unknown command is reported as an error.
    pub fn get_help<L: Logger + ?Sized>(command: Option<String>, logger: &mut L) {
        match command {
            Some(command) => {
                if str_eq(command.as_str(), "connect") {
                    logger.log_info("Connect to a remote client");
                    logger.log_info("Usage: connect <ONION_ADDRESS>:<PORT>");
                    logger.log_info(
                        "   where <ONION_ADDRESS> is the onion address of the chat client",
                    );
                    logger.log_info("   and <PORT> is the numeric port number");
                    logger.log_info(
                        "Example: connect x7h5ctx2himz7th44wh3mlsyyx2qvw42gwgzbi7zzqeskvj45v47qwyd.onion:3000",
                    );
                } else if str_eq(command.as_str(), "help") {
                    logger.log_info("Get help for a command");
                    logger.log_info("Usage: help [<COMMAND>]");
                    logger.log_info("   where <COMMAND> is an optional command to get help for");
                } else if str_eq(command.as_str(), "quit") {
                    logger.log_info("Quit the chat program");
                    logger.log_info("Usage: quit");
                } else {
                    logger.log_error("Unknown command");
                }
            },
            None => {
                logger.log_info("Commands:");
                logger.log_info("   connect - Connect to a remote client");
                logger.log_info("   help - Get help on a command");
                logger.log_info("   quit - Quit this program");
            },
        }
    }
}

impl FromStr for Command {
    type Err = CommandError;

    /// Parses a command line, as [`Command::parse`] does.
    fn from_str(line: &str) -> Result<Command, CommandError> {
        Command::parse(line)
    }
}

} // verus!
