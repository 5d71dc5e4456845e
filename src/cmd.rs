//! External commands: the built-in clean command of each ecosystem, and the
//! `!program arg...` syntax for ad-hoc commands.

use vstd::prelude::*;

use crate::error::Error;
use crate::text::{same_text, split, split_on, views};

verus! {

/// The family of operating system that command names are chosen for.
#[derive(Clone, Copy, Debug, PartialEq, Eq, Structural)]
pub enum Platform {
    /// Every platform but Windows.
    Unix,
    Windows,
}

/// An external process invocation: a program and its arguments.
#[derive(Debug)]
pub struct Cmd {
    pub command: String,
    pub args: Vec<String>,
}

/// What a `Cmd` holds, as character sequences.
pub struct CmdView {
    pub command: Seq<char>,
    pub args: Seq<Seq<char>>,
}

impl View for Cmd {
    type V = CmdView;

    open spec fn view(&self) -> CmdView {
        CmdView { command: self.command@, args: views(self.args@) }
    }
}

/// The view of an optional command.
pub open spec fn opt_view(c: Option<Cmd>) -> Option<CmdView> {
    match c {
        Some(c) => Some(c@),
        None => None,
    }
}

/// `program clean`.
pub open spec fn clean_cmd(program: Seq<char>) -> CmdView {
    CmdView { command: program, args: seq!["clean"@] }
}

/// The clean command of the ecosystem whose marker file is named `name`.
pub open spec fn builtin_cmd(name: Seq<char>, platform: Platform) -> Option<CmdView> {
    if name == "Cargo.toml"@ {
        Some(clean_cmd("cargo"@))
    } else if name == "go.mod"@ {
        Some(clean_cmd("go"@))
    } else if name == "pom.xml"@ {
        Some(
            clean_cmd(
                if platform == Platform::Windows {
                    "mvn.cmd"@
                } else {
                    "mvn"@
                },
            ),
        )
    } else if name == "build.gradle"@ {
        Some(
            clean_cmd(
                if platform == Platform::Windows {
                    "gradle.bat"@
                } else {
                    "gradle"@
                },
            ),
        )
    } else {
        None
    }
}

/// The command whose program is the first word and whose arguments are the rest.
pub open spec fn words_cmd(words: Seq<Seq<char>>) -> CmdView {
    CmdView { command: words[0], args: words.drop_first() }
}

/// The command written `!program arg...`, words separated by single spaces.
pub open spec fn custom_cmd(s: Seq<char>) -> Option<CmdView> {
    if s.len() > 0 && s[0] == '!' {
        Some(words_cmd(split_on(s.drop_first(), ' ')))
    } else {
        None
    }
}

/// The command that an entry name stands for, if any.
pub open spec fn cmd_for(name: Seq<char>, platform: Platform) -> Option<CmdView> {
    if custom_cmd(name) is Some {
        custom_cmd(name)
    } else {
        builtin_cmd(name, platform)
    }
}

/// The description of the error for a name that stands for no command.
pub open spec fn unresolved_message(name: Seq<char>) -> Seq<char> {
    "command can not be resolved: `"@ + name + "`"@
}

/// A copy of a list of strings.
pub(crate) fn copy_strings(v: &Vec<String>) -> (r: Vec<String>)
    ensures
        r@ == v@,
{
    let mut r: Vec<String> = Vec::new();
    let mut i: usize = 0;
    while i < v.len()
        invariant
            i <= v@.len(),
            r@ == v@.subrange(0, i as int),
        decreases v@.len() - i,
    {
        r.push(v[i].clone());
        assert(r@ =~= v@.subrange(0, i + 1));
        i = i + 1;
    }
    assert(r@ =~= v@);
    r
}

impl Cmd {
    pub fn new(command: String, args: Vec<String>) -> (r: Cmd)
        ensures
            r.command == command,
            r.args == args,
    {
        Cmd { command, args }
    }

    /// A copy of this command.
    pub fn duplicate(&self) -> (r: Cmd)
        ensures
            r@ == self@,
    {
        Cmd { command: self.command.clone(), args: copy_strings(&self.args) }
    }

    /// The clean command of the ecosystem whose marker file is named `name`.
    pub fn builtin(name: &str, platform: Platform) -> (r: Option<Cmd>)
        ensures
            opt_view(r) == builtin_cmd(name@, platform),
    {
        let program = if same_text(name, "Cargo.toml") {
            "cargo"
        } else if same_text(name, "go.mod") {
            "go"
        } else if same_text(name, "pom.xml") {
            match platform {
                Platform::Windows => "mvn.cmd",
                Platform::Unix => "mvn",
            }
        } else if same_text(name, "build.gradle") {
            match platform {
                Platform::Windows => "gradle.bat",
                Platform::Unix => "gradle",
            }
        } else {
            return None;
        };
        let args = vec![String::from_str("clean")];
        assert(views(args@) =~= seq!["clean"@]);
        Some(Cmd::new(String::from_str(program), args))
    }

    /// The command whose program is the first space-separated word of `s`
    /// and whose arguments are the other words.
    pub fn from_words(s: &str) -> (r: Cmd)
        ensures
            r@ == words_cmd(split_on(s@, ' ')),
    {
        let mut words = split(s, ' ');
        let ghost all = words@;
        let command = words.remove(0);
        assert(views(words@) =~= views(all).drop_first());
        Cmd::new(command, words)
    }

    /// The command written `!program arg...` in `s`, if `s` starts with `!`.
    pub fn custom(s: &str) -> (r: Option<Cmd>)
        ensures
            opt_view(r) == custom_cmd(s@),
    {
        let n = s.unicode_len();
        if n == 0 || s.get_char(0) != '!' {
            return None;
        }
        let rest = s.substring_char(1, n);
        assert(rest@ =~= s@.drop_first());
        Some(Cmd::from_words(rest))
    }

    /// The command that the entry name `name` stands for: an ad-hoc
    /// `!program arg...` command, else the clean command of the ecosystem
    /// whose marker file it names.
    pub fn resolve(name: &str, platform: Platform) -> (r: Result<Cmd, Error>)
        ensures
            match r {
                Ok(c) => cmd_for(name@, platform) == Some(c@),
                Err(e) => cmd_for(name@, platform) is None && e is Message && e.text()
                    == unresolved_message(name@),
            },
    {
        if let Some(c) = Cmd::custom(name) {
            return Ok(c);
        }
        if let Some(c) = Cmd::builtin(name, platform) {
            return Ok(c);
        }
        let mut message = String::from_str("command can not be resolved: `");
        message.append(name);
        message.append("`");
        Err(Error::other(message))
    }
}

} // verus!
