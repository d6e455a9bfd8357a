//! The command-line grammar: an operation word followed by flags, a task id
//! and free words.

use vstd::prelude::*;

use crate::hierarchy::{lower_of, priority_named, Priority};
use crate::text::{decimal_index, parse_index, same_text};

verus! {

/// The kinds of token that the parser tells apart.
#[derive(Debug, Clone, Copy, PartialEq, Eq, Structural)]
pub enum Flag {
    Project,
    Description,
    Priority,
    Force,
    Other,
}

/// The kind of a token: `-p`/`--project`, `-d`/`--description`,
/// `--priority`, `-f`/`--force`, or anything else.
pub open spec fn flag_of(token: Seq<char>) -> Flag {
    if token == "-p"@ || token == "--project"@ {
        Flag::Project
    } else if token == "-d"@ || token == "--description"@ {
        Flag::Description
    } else if token == "--priority"@ {
        Flag::Priority
    } else if token == "-f"@ || token == "--force"@ {
        Flag::Force
    } else {
        Flag::Other
    }
}

impl Flag {
    pub fn classify_flag(flag: &str) -> (r: Self)
        ensures
            r == flag_of(flag@),
    {
        if same_text(flag, "-p") || same_text(flag, "--project") {
            Flag::Project
        } else if same_text(flag, "-d") || same_text(flag, "--description") {
            Flag::Description
        } else if same_text(flag, "--priority") {
            Flag::Priority
        } else if same_text(flag, "-f") || same_text(flag, "--force") {
            Flag::Force
        } else {
            Flag::Other
        }
    }
}

/// What a command's arguments say.
pub ghost struct ParamsModel {
    pub tasks: Seq<Seq<char>>,
    pub project: Option<Seq<char>>,
    pub description: Option<Seq<char>>,
    pub priority: Option<Priority>,
    pub task_id: Option<usize>,
    pub force: bool,
}

/// The parameters of a command with no arguments.
pub open spec fn empty_params() -> ParamsModel {
    ParamsModel {
        tasks: Seq::empty(),
        project: None,
        description: None,
        priority: None,
        task_id: None,
        force: false,
    }
}

/// The characters of an optional string.
pub open spec fn opt_text(o: Option<String>) -> Option<Seq<char>> {
    match o {
        Some(s) => Some(s@),
        None => None,
    }
}

/// The characters of each string.
pub open spec fn texts(v: Seq<String>) -> Seq<Seq<char>> {
    v.map_values(|s: String| s@)
}

/// The parameters that the tokens `args[i..]` give, read left to right from `p`.
/// A value flag takes the token after it, and is dropped when none follows; the
/// first bare decimal integer is the task id; every other token is a free word.
pub open spec fn scan(args: Seq<Seq<char>>, i: int, p: ParamsModel) -> ParamsModel
    decreases args.len() - i,
{
    if i < 0 || i >= args.len() {
        p
    } else {
        let a = args[i];
        match flag_of(a) {
            Flag::Project => if i + 1 < args.len() {
                scan(args, i + 2, ParamsModel { project: Some(args[i + 1]), ..p })
            } else {
                p
            },
            Flag::Priority => if i + 1 < args.len() {
                scan(
                    args,
                    i + 2,
                    ParamsModel { priority: Some(priority_named(lower_of(args[i + 1]))), ..p },
                )
            } else {
                p
            },
            Flag::Description => if i + 1 < args.len() {
                scan(args, i + 2, ParamsModel { description: Some(args[i + 1]), ..p })
            } else {
                p
            },
            Flag::Force => scan(args, i + 1, ParamsModel { force: true, ..p }),
            Flag::Other => if decimal_index(a).is_some() && p.task_id.is_none() {
                scan(args, i + 1, ParamsModel { task_id: decimal_index(a), ..p })
            } else {
                scan(args, i + 1, ParamsModel { tasks: p.tasks.push(a), ..p })
            },
        }
    }
}

/// The parsed arguments of a command.
#[derive(Debug)]
pub struct Parameters {
    tasks: Vec<String>,
    project: Option<String>,
    description: Option<String>,
    priority: Option<Priority>,
    task_id: Option<usize>,
    force: bool,
}

impl View for Parameters {
    type V = ParamsModel;

    closed spec fn view(&self) -> ParamsModel {
        ParamsModel {
            tasks: texts(self.tasks@),
            project: opt_text(self.project),
            description: opt_text(self.description),
            priority: self.priority,
            task_id: self.task_id,
            force: self.force,
        }
    }
}

/// What a command holds.
pub ghost struct CommandModel {
    pub op: Seq<char>,
    pub parameters: ParamsModel,
}

/// An operation word with its parameters.
#[derive(Debug)]
pub struct Command {
    op: String,
    parameters: Parameters,
}

impl View for Command {
    type V = CommandModel;

    closed spec fn view(&self) -> CommandModel {
        CommandModel { op: self.op@, parameters: self.parameters@ }
    }
}

impl Parameters {
    pub fn tasks(&self) -> (r: &Vec<String>)
        ensures
            texts(r@) == self@.tasks,
    {
        &self.tasks
    }

    pub fn fields(&self) -> (r: (&Option<String>, &Option<String>, &Option<Priority>))
        ensures
            opt_text(*r.0) == self@.project,
            opt_text(*r.1) == self@.description,
            *r.2 == self@.priority,
    {
        (&self.project, &self.description, &self.priority)
    }

    pub fn task_id(&self) -> (r: Option<usize>)
        ensures
            r == self@.task_id,
    {
        self.task_id
    }

    pub fn force(&self) -> (r: bool)
        ensures
            r == self@.force,
    {
        self.force
    }

    pub fn new() -> (r: Self)
        ensures
            r@ == empty_params(),
    {
        let r = Parameters {
            tasks: Vec::new(),
            project: None,
            description: None,
            priority: None,
            task_id: None,
            force: false,
        };
        assert(texts(r.tasks@) =~= Seq::empty());
        r
    }
}

impl Command {
    pub fn op(&self) -> (r: &str)
        ensures
            r@ == self@.op,
    {
        self.op.as_str()
    }

    pub fn parameters(&self) -> (r: &Parameters)
        ensures
            r@ == self@.parameters,
    {
        &self.parameters
    }

    /// Parses a command line: `args[0]` is the program, `args[1]` the operation,
    /// and the rest its arguments.
    pub fn new(args: Vec<String>) -> (r: Self)
        requires
            args.len() >= 2,
        ensures
            r@.op == args@[1]@,
            r@.parameters == scan(texts(args@), 2, empty_params()),
    {
        let ghost av = texts(args@);
        let op: String = args[1].clone();
        let mut parameters = Parameters::new();
        let n = args.len();
        let mut i: usize = 2;
        while i < n
            invariant
                2 <= i,
                n == args.len(),
                av == texts(args@),
                scan(av, 2, empty_params()) == scan(av, i as int, parameters@),
            decreases n - i,
        {
            let arg = &args[i];
            assert(av[i as int] == arg@);
            let ghost before = parameters@;
            match Flag::classify_flag(arg.as_str()) {
                Flag::Project => {
                    if i + 1 < n {
                        parameters.project = Some(args[i + 1].clone());
                        assert(parameters@ == (ParamsModel { project: Some(av[i + 1]), ..before }));
                        i = i + 2;
                    } else {
                        i = n;
                    }
                },
                Flag::Priority => {
                    if i + 1 < n {
                        let q = Priority::translate_priority(args[i + 1].as_str());
                        parameters.priority = Some(q);
                        i = i + 2;
                    } else {
                        i = n;
                    }
                },
                Flag::Description => {
                    if i + 1 < n {
                        parameters.description = Some(args[i + 1].clone());
                        i = i + 2;
                    } else {
                        i = n;
                    }
                },
                Flag::Force => {
                    parameters.force = true;
                    i = i + 1;
                },
                Flag::Other => {
                    let id = parse_index(arg.as_str());
                    if id.is_some() && parameters.task_id.is_none() {
                        parameters.task_id = id;
                    } else {
                        parameters.tasks.push(arg.clone());
                        assert(texts(parameters.tasks@) =~= before.tasks.push(arg@));
                    }
                    i = i + 1;
                },
            }
        }
        Command { op, parameters }
    }

    /// A copy of the command's free words.
    pub fn get_tasks(&self) -> (r: Vec<String>)
        ensures
            texts(r@) == self@.parameters.tasks,
    {
        let src = &self.parameters.tasks;
        let mut out: Vec<String> = Vec::new();
        let mut i: usize = 0;
        while i < src.len()
            invariant
                i <= src.len(),
                texts(out@) =~= texts(src@).subrange(0, i as int),
            decreases src.len() - i,
        {
            let ghost prev = out@;
            out.push(src[i].clone());
            assert(out@ == prev.push(src@[i as int]));
            assert(texts(out@) =~= texts(prev).push(src@[i as int]@));
            i = i + 1;
        }
        assert(texts(src@).subrange(0, i as int) =~= texts(src@));
        out
    }
}

} // verus!
