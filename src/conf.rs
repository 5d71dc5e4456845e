//! Cleanup actions, the rule file that names them, and the resolver that
//! maps a file-system entry to its action.

use vstd::prelude::*;

use crate::cmd::{cmd_for, words_cmd, Cmd, CmdView, Platform};
use crate::error::Error;
use crate::text::{position, position_of, same_text, split, split_on, trim, trimmed, views};

verus! {

/// One cleanup operation. It names no working directory: that is given when
/// it is carried out.
#[derive(Debug)]
pub enum Plan {
    /// Run an external command.
    Cmd(Cmd),
    /// Remove the subdirectory of this name, with everything in it.
    RmDir(String),
}

pub enum PlanView {
    Cmd(CmdView),
    RmDir(Seq<char>),
}

impl View for Plan {
    type V = PlanView;

    open spec fn view(&self) -> PlanView {
        match self {
            Plan::Cmd(c) => PlanView::Cmd(c@),
            Plan::RmDir(d) => PlanView::RmDir(d@),
        }
    }
}

/// The view of an optional plan.
pub open spec fn opt_plan_view(p: Option<Plan>) -> Option<PlanView> {
    match p {
        Some(p) => Some(p@),
        None => None,
    }
}

/// A plan that applies to an entry: a directory removal only to a directory.
pub open spec fn applies(p: PlanView, is_dir: bool) -> bool {
    !(p is RmDir && !is_dir)
}

impl Plan {
    /// A copy of this plan.
    pub fn duplicate(&self) -> (r: Plan)
        ensures
            r@ == self@,
    {
        match self {
            Plan::Cmd(c) => Plan::Cmd(c.duplicate()),
            Plan::RmDir(d) => Plan::RmDir(d.clone()),
        }
    }

    /// This plan, unless it removes a directory and the entry it was found
    /// for is not one.
    pub fn filter(self, is_dir: bool) -> (r: Option<Plan>)
        ensures
            r == (if applies(self@, is_dir) {
                Some(self)
            } else {
                None
            }),
    {
        match self {
            Plan::RmDir(_) if !is_dir => None,
            _ => Some(self),
        }
    }
}

/// What one line of a rule file says.
pub enum LineView {
    /// A blank line or a comment.
    Skip,
    /// A rule for the entries of this name.
    Rule(Seq<char>, PlanView),
    /// A line that is neither.
    Malformed,
}

/// The meaning of one line of a rule file: `name/` removes directories
/// called `name`; `name = program arg...` runs a command where an entry
/// called `name` is found; blank lines and lines starting with `#` say
/// nothing.
pub open spec fn line_rule(line: Seq<char>) -> LineView {
    let t = trimmed(line);
    if t.len() == 0 || t[0] == '#' {
        LineView::Skip
    } else if t.last() == '/' {
        if t.len() == 1 {
            LineView::Malformed
        } else {
            LineView::Rule(t.drop_last(), PlanView::RmDir(t.drop_last()))
        }
    } else {
        let k = position(t, '=');
        let name = trimmed(t.take(k));
        let command = trimmed(t.skip(k + 1));
        if k == t.len() || name.len() == 0 || command.len() == 0 {
            LineView::Malformed
        } else {
            LineView::Rule(name, PlanView::Cmd(words_cmd(split_on(command, ' '))))
        }
    }
}

/// The rules that the lines declare, in order, or `None` where one of them
/// is malformed.
pub open spec fn rules_of(lines: Seq<Seq<char>>) -> Option<Seq<(Seq<char>, PlanView)>>
    decreases lines.len(),
{
    if lines.len() == 0 {
        Some(Seq::empty())
    } else {
        match rules_of(lines.drop_last()) {
            None => None,
            Some(r) => match line_rule(lines.last()) {
                LineView::Skip => Some(r),
                LineView::Rule(name, plan) => Some(r.push((name, plan))),
                LineView::Malformed => None,
            },
        }
    }
}

/// The rules declared by the text of a rule file.
pub open spec fn rules_of_text(text: Seq<char>) -> Option<Seq<(Seq<char>, PlanView)>> {
    rules_of(split_on(text, '\n'))
}

/// The plan of the last rule named `name`: a later rule overrides an
/// earlier one of the same name.
pub open spec fn lookup(rules: Seq<(Seq<char>, PlanView)>, name: Seq<char>) -> Option<PlanView>
    decreases rules.len(),
{
    if rules.len() == 0 {
        None
    } else if rules.last().0 == name {
        Some(rules.last().1)
    } else {
        lookup(rules.drop_last(), name)
    }
}

/// The plan for an entry called `name`: the user's rule of that name if
/// there is one, else the command that the name stands for. A directory
/// removal is dropped where the entry is not a directory.
pub open spec fn resolve(
    rules: Seq<(Seq<char>, PlanView)>,
    name: Seq<char>,
    is_dir: bool,
    platform: Platform,
) -> Option<PlanView> {
    match lookup(rules, name) {
        Some(p) => if applies(p, is_dir) {
            Some(p)
        } else {
            None
        },
        None => match cmd_for(name, platform) {
            Some(c) => Some(PlanView::Cmd(c)),
            None => None,
        },
    }
}

/// The error message of a malformed rule file, which shows how rules are
/// written.
pub open spec fn help_text() -> Seq<char> {
    "\
# Config Examples:

# rm directory recursively
node_modules/

# run custom command
pom.xml = mvn -B clean
"@
}

/// A line of a rule file, parsed.
#[derive(Debug)]
pub enum Line {
    Skip,
    Rule(String, Plan),
    Malformed,
}

impl View for Line {
    type V = LineView;

    open spec fn view(&self) -> LineView {
        match self {
            Line::Skip => LineView::Skip,
            Line::Rule(name, plan) => LineView::Rule(name@, plan@),
            Line::Malformed => LineView::Malformed,
        }
    }
}

/// Parses one line of a rule file.
pub fn parse_line(line: &str) -> (r: Line)
    ensures
        r@ == line_rule(line@),
{
    let t = trim(line);
    let n = t.unicode_len();
    if n == 0 || t.get_char(0) == '#' {
        return Line::Skip;
    }
    if t.get_char(n - 1) == '/' {
        if n == 1 {
            return Line::Malformed;
        }
        let name = t.substring_char(0, n - 1);
        assert(name@ =~= t@.drop_last());
        return Line::Rule(String::from_str(name), Plan::RmDir(String::from_str(name)));
    }
    let k = position_of(t, '=');
    if k == n {
        return Line::Malformed;
    }
    let name = trim(t.substring_char(0, k));
    let command = trim(t.substring_char(k + 1, n));
    assert(t@.subrange(0, k as int) =~= t@.take(k as int));
    assert(t@.subrange(k + 1, n as int) =~= t@.skip(k + 1));
    if name.unicode_len() == 0 || command.unicode_len() == 0 {
        return Line::Malformed;
    }
    Line::Rule(String::from_str(name), Plan::Cmd(Cmd::from_words(command)))
}

/// Once a prefix of the lines holds a malformed line, so do all of them.
proof fn lemma_malformed_spoils(lines: Seq<Seq<char>>, i: int)
    requires
        0 <= i <= lines.len(),
        rules_of(lines.take(i)) is None,
    ensures
        rules_of(lines) is None,
    decreases lines.len() - i,
{
    if i < lines.len() {
        assert(lines.take(i + 1).drop_last() =~= lines.take(i));
        lemma_malformed_spoils(lines, i + 1);
    } else {
        assert(lines.take(i) =~= lines);
    }
}

/// The set of rules for one run: the user's rules, consulted before the
/// built-in ones. It is never changed once built.
#[derive(Debug)]
pub struct Config {
    rules: Vec<(String, Plan)>,
}

impl View for Config {
    type V = Seq<(Seq<char>, PlanView)>;

    closed spec fn view(&self) -> Seq<(Seq<char>, PlanView)> {
        self.rules@.map_values(|e: (String, Plan)| (e.0@, e.1@))
    }
}

impl Config {
    /// No user rules: only the built-in ones apply.
    pub fn empty() -> (r: Config)
        ensures
            r@ == Seq::<(Seq<char>, PlanView)>::empty(),
    {
        let r = Config { rules: Vec::new() };
        assert(r@ =~= Seq::<(Seq<char>, PlanView)>::empty());
        r
    }

    /// The rules declared by the text of a rule file. A malformed line
    /// fails the whole file, with a message that shows how rules are
    /// written.
    pub fn load(text: &str) -> (r: Result<Config, Error>)
        ensures
            match r {
                Ok(c) => rules_of_text(text@) == Some(c@),
                Err(e) => rules_of_text(text@) is None && e is Message && e.text() == help_text(),
            },
    {
        let lines = split(text, '\n');
        let ghost all = views(lines@);
        let mut rules: Vec<(String, Plan)> = Vec::new();
        let mut i: usize = 0;
        assert(all.take(0) =~= Seq::<Seq<char>>::empty());
        assert(Config { rules }@ =~= Seq::<(Seq<char>, PlanView)>::empty());
        while i < lines.len()
            invariant
                i <= lines@.len(),
                all == views(lines@),
                all == split_on(text@, '\n'),
                rules_of(all.take(i as int)) == Some(Config { rules }@),
            decreases lines@.len() - i,
        {
            let line = parse_line(lines[i].as_str());
            assert(all.take(i + 1).drop_last() =~= all.take(i as int));
            assert(all.take(i + 1).last() == lines@[i as int]@);
            match line {
                Line::Skip => {},
                Line::Rule(name, plan) => {
                    let ghost before = Config { rules }@;
                    rules.push((name, plan));
                    assert(Config { rules }@ =~= before.push((name@, plan@)));
                },
                Line::Malformed => {
                    proof {
                        lemma_malformed_spoils(all, i + 1);
                    }
                    return Err(
                        Error::other(
                            String::from_str(
                                "\
# Config Examples:

# rm directory recursively
node_modules/

# run custom command
pom.xml = mvn -B clean
",
                            ),
                        ),
                    );
                },
            }
            i = i + 1;
        }
        assert(all.take(i as int) =~= all);
        Ok(Config { rules })
    }

    /// The plan for the entry called `name`: the user's rule of that name if
    /// there is one, else an ad-hoc `!program arg...` command or the clean
    /// command of the ecosystem whose marker file it names. A directory
    /// removal applies only where the entry is a directory.
    pub fn parse(&self, name: &str, is_dir: bool, platform: Platform) -> (r: Option<Plan>)
        ensures
            opt_plan_view(r) == resolve(self@, name@, is_dir, platform),
    {
        let mut i: usize = self.rules.len();
        assert(self@.take(i as int) =~= self@);
        while i > 0
            invariant
                i <= self.rules@.len(),
                lookup(self@, name@) == lookup(self@.take(i as int), name@),
            decreases i,
        {
            i = i - 1;
            assert(self@.take(i + 1).drop_last() =~= self@.take(i as int));
            if same_text(self.rules[i].0.as_str(), name) {
                return self.rules[i].1.duplicate().filter(is_dir);
            }
        }
        match Cmd::resolve(name, platform) {
            Ok(c) => Some(Plan::Cmd(c)),
            Err(_) => None,
        }
    }
}

} // verus!
