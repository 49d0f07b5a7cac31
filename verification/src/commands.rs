//! The command grammar: one line of user input becomes one `Command`
//! or one `ParseError`. The grammar is a keyword escape over free text:
//! a line whose first token is no keyword is a prompt, kept verbatim.

use vstd::prelude::*;
use crate::errors::ParseError;
use crate::text::{contains_seq, contains_sub, lower, str_eq, to_lower, tokenize, tokens, views};

verus! {

/// A parsed line of user input.
pub enum Command {
    Exit,
    Help(Option<String>),
    Profile { name: String },
    Prompt(String),
    SetOption { option: String, value: String },
}

/// The mathematical shape of a `Command`, over character sequences.
pub enum CmdModel {
    Exit,
    Help(Option<Seq<char>>),
    Profile(Seq<char>),
    Prompt(Seq<char>),
    SetOption(Seq<char>, Seq<char>),
}

impl View for Command {
    type V = CmdModel;

    open spec fn view(&self) -> CmdModel {
        match self {
            Command::Exit => CmdModel::Exit,
            Command::Help(f) => CmdModel::Help(
                match f {
                    Some(t) => Some(t@),
                    None => None,
                },
            ),
            Command::Profile { name } => CmdModel::Profile(name@),
            Command::Prompt(t) => CmdModel::Prompt(t@),
            Command::SetOption { option, value } => CmdModel::SetOption(option@, value@),
        }
    }
}

/// What `parse` returns on a given line, stated over the line's tokens.
pub open spec fn spec_parse(line: Seq<char>) -> Result<CmdModel, ParseError> {
    let toks = tokens(line);
    if toks.len() == 0 {
        Err(ParseError::CommandNotFound)
    } else if toks[0] == "exit"@ || toks[0] == "quit"@ {
        if toks.len() == 1 {
            Ok(CmdModel::Exit)
        } else {
            Err(ParseError::BadArgument)
        }
    } else if toks[0] == "help"@ {
        if toks.len() == 1 {
            Ok(CmdModel::Help(None))
        } else {
            Ok(CmdModel::Help(Some(lower(toks[1]))))
        }
    } else if toks[0] == "profile"@ {
        if toks.len() == 1 {
            Ok(CmdModel::Profile("list"@))
        } else if toks.len() == 2 {
            Ok(CmdModel::Profile(toks[1]))
        } else {
            Err(ParseError::BadArgument)
        }
    } else if toks[0] == "set"@ {
        if toks.len() >= 3 {
            Ok(CmdModel::SetOption(lower(toks[1]), lower(toks[2])))
        } else {
            Err(ParseError::MissingArgument)
        }
    } else {
        Ok(CmdModel::Prompt(line))
    }
}

/// Whether `t` is one of the grammar's keywords (matched case-sensitively
/// against a line's first token).
pub open spec fn is_keyword(t: Seq<char>) -> bool {
    t == "exit"@ || t == "quit"@ || t == "help"@ || t == "profile"@ || t == "set"@
}

/// A line with at least one token whose first token is no keyword parses
/// to a prompt carrying the line itself, verbatim.
pub proof fn lemma_free_text_is_prompt(line: Seq<char>)
    requires
        tokens(line).len() > 0,
        !is_keyword(tokens(line)[0]),
    ensures
        spec_parse(line) == Ok::<CmdModel, ParseError>(CmdModel::Prompt(line)),
{
}

/// Parses one raw line of input into a command.
pub fn parse(line: &str) -> (r: Result<Command, ParseError>)
    ensures
        ({
            let m = spec_parse(line@);
            match r {
                Ok(c) => m matches Ok(mc) && c@ == mc,
                Err(e) => m matches Err(me) && e == me,
            }
        }),
{
    let toks = tokenize(line);
    proof {
        assert(forall|k: int| 0 <= k < toks@.len() ==> views(toks@)[k] == toks@[k]@);
    }
    if toks.len() == 0 {
        return Err(ParseError::CommandNotFound);
    }
    if str_eq(toks[0].as_str(), "exit") || str_eq(toks[0].as_str(), "quit") {
        if toks.len() == 1 {
            Ok(Command::Exit)
        } else {
            Err(ParseError::BadArgument)
        }
    } else if str_eq(toks[0].as_str(), "help") {
        if toks.len() == 1 {
            Ok(Command::Help(None))
        } else {
            Ok(Command::Help(Some(to_lower(toks[1].as_str()))))
        }
    } else if str_eq(toks[0].as_str(), "profile") {
        if toks.len() == 1 {
            Ok(Command::Profile { name: String::from_str("list") })
        } else if toks.len() == 2 {
            let name = toks[1].as_str().to_owned();
            Ok(Command::Profile { name })
        } else {
            Err(ParseError::BadArgument)
        }
    } else if str_eq(toks[0].as_str(), "set") {
        if toks.len() >= 3 {
            let option = to_lower(toks[1].as_str());
            let value = to_lower(toks[2].as_str());
            Ok(Command::SetOption { option, value })
        } else {
            Err(ParseError::MissingArgument)
        }
    } else {
        Ok(Command::Prompt(line.to_owned()))
    }
}

/// The fixed help lines, in display order.
pub open spec fn help_lines() -> Seq<Seq<char>> {
    seq![
        "exit/quit - exit this program"@,
        "help - show this help message"@,
        "profile [name] - list or change profiles"@,
        "set <option> <value> - change different settings"@,
    ]
}

/// Whether a help line passes the optional filter: no filter keeps
/// everything, a filter keeps the lines that contain it.
pub open spec fn keep_line(l: Seq<char>, f: Option<Seq<char>>) -> bool {
    match f {
        None => true,
        Some(a) => contains_seq(l, a),
    }
}

/// One help line, kept or dropped by the filter.
pub open spec fn maybe_line(l: Seq<char>, f: Option<Seq<char>>) -> Seq<Seq<char>> {
    if keep_line(l, f) {
        seq![l]
    } else {
        Seq::empty()
    }
}

/// The help lines that pass the filter, in display order.
pub open spec fn spec_help(f: Option<Seq<char>>) -> Seq<Seq<char>> {
    maybe_line(help_lines()[0], f) + maybe_line(help_lines()[1], f) + maybe_line(
        help_lines()[2],
        f,
    ) + maybe_line(help_lines()[3], f)
}

/// Whether one help line passes the filter.
fn line_kept(l: &str, arg: &Option<String>) -> (b: bool)
    ensures
        b == keep_line(l@, arg.deep_view()),
{
    match arg {
        None => true,
        Some(a) => contains_sub(l, a.as_str()),
    }
}

impl Command {
    /// The help lines that contain the given filter (all of them when
    /// no filter is given).
    pub fn help(arg: Option<String>) -> (r: Vec<String>)
        ensures
            views(r@) == spec_help(arg.deep_view()),
    {
        let mut out: Vec<String> = Vec::new();
        let l0 = "exit/quit - exit this program";
        let l1 = "help - show this help message";
        let l2 = "profile [name] - list or change profiles";
        let l3 = "set <option> <value> - change different settings";
        if line_kept(l0, &arg) {
            out.push(l0.to_owned());
        }
        if line_kept(l1, &arg) {
            out.push(l1.to_owned());
        }
        if line_kept(l2, &arg) {
            out.push(l2.to_owned());
        }
        if line_kept(l3, &arg) {
            out.push(l3.to_owned());
        }
        proof {
            assert(views(out@) =~= spec_help(arg.deep_view()));
        }
        out
    }
}

} // verus!
