//! Task descriptors and the commands that are built from them.
//!
//! A [`Program`] describes one external program. The command builder turns a
//! descriptor, a [`Mode`] and a [`Timestamp`] into the text to hand to the
//! shell and, where output is captured, the path of the file that receives it.

use vstd::prelude::*;
use vstd::string::StrSliceExecFns;
use vstd::string::StringExecFns;
use vstd::utf8::encode_utf8;

use crate::text::ascii_upper;
use crate::text::blank_string;
use crate::text::blanks;
use crate::text::copy_opt;
use crate::text::lemma_split_equal;
use crate::text::opt_text;
use crate::text::texts;
use crate::text::uppercase_text;
use crate::text::uppercased;
use crate::timestamp::lemma_stamp_injective;
use crate::timestamp::lemma_stamp_len;
use crate::timestamp::stamp_text;
use crate::timestamp::Timestamp;

verus! {

/// Width, in bytes, to which a program name is padded in a progress line.
pub const PLACEHOLDER_THRESHOLD: usize = 8;

/// What every output file name starts with, before the program's name.
pub const OUTPUT_PREFIX: &'static str = "up_output_";

/// Which of a program's two commands a run uses.
#[derive(Clone, Copy, Debug, PartialEq, Eq, Structural)]
pub enum Mode {
    Update,
    Info,
}

/// The shape of a command, chosen once when it is built.
#[derive(Clone, Copy, Debug, PartialEq, Eq, Structural)]
pub enum Invocation {
    /// The program has no command for the mode.
    NoTemplate,
    /// The executable is called in place with the template as its arguments.
    Inline,
    /// The executable is started as a hidden process of its own.
    ExternalLaunch,
    /// As `ExternalLaunch`, with standard output sent to a file.
    ExternalLaunchWithCapture,
}

/// One external program: who it is, how it is called, where its output goes.
#[derive(Clone, Debug)]
pub struct Program {
    pub name: String,
    pub symbol: String,
    pub executer: String,
    pub start_extern: bool,
    pub has_output: bool,
    pub outputfile: String,
    pub update_cmd: Option<String>,
    pub info_cmd: Option<String>,
    pub msg: Vec<String>,
    pub placeholder: String,
}

/// A [`Program`] as plain texts.
pub struct ProgramView {
    pub name: Seq<char>,
    pub symbol: Seq<char>,
    pub executer: Seq<char>,
    pub start_extern: bool,
    pub has_output: bool,
    pub outputfile: Seq<char>,
    pub update_cmd: Option<Seq<char>>,
    pub info_cmd: Option<Seq<char>>,
    pub msg: Seq<Seq<char>>,
    pub placeholder: Seq<char>,
}

impl View for Program {
    type V = ProgramView;

    open spec fn view(&self) -> ProgramView {
        ProgramView {
            name: self.name@,
            symbol: self.symbol@,
            executer: self.executer@,
            start_extern: self.start_extern,
            has_output: self.has_output,
            outputfile: self.outputfile@,
            update_cmd: opt_text(self.update_cmd),
            info_cmd: opt_text(self.info_cmd),
            msg: texts(self.msg@),
            placeholder: self.placeholder@,
        }
    }
}

/// A command ready to run, and the file that receives its output if any does.
#[derive(Clone, Debug)]
pub struct MaterializedCommand {
    pub command: String,
    pub output_path: Option<String>,
}

/// A [`MaterializedCommand`] as plain texts.
pub struct CommandView {
    pub command: Seq<char>,
    pub output_path: Option<Seq<char>>,
}

impl View for MaterializedCommand {
    type V = CommandView;

    open spec fn view(&self) -> CommandView {
        CommandView { command: self.command@, output_path: opt_text(self.output_path) }
    }
}

/// One entry of the configuration: a program as its user describes it.
#[derive(Clone, Debug)]
pub struct App {
    pub name: String,
    pub symbol: Option<String>,
    pub executer: String,
    pub start_extern: bool,
    pub has_output: bool,
    pub cmd_for_update: Option<String>,
    pub cmd_for_info: Option<String>,
}

/// An [`App`] as plain texts.
pub struct AppView {
    pub name: Seq<char>,
    pub symbol: Option<Seq<char>>,
    pub executer: Seq<char>,
    pub start_extern: bool,
    pub has_output: bool,
    pub cmd_for_update: Option<Seq<char>>,
    pub cmd_for_info: Option<Seq<char>>,
}

impl View for App {
    type V = AppView;

    open spec fn view(&self) -> AppView {
        AppView {
            name: self.name@,
            symbol: opt_text(self.symbol),
            executer: self.executer@,
            start_extern: self.start_extern,
            has_output: self.has_output,
            cmd_for_update: opt_text(self.cmd_for_update),
            cmd_for_info: opt_text(self.cmd_for_info),
        }
    }
}

/// The configuration: the programs of a run, in the order in which they are
/// listed.
#[derive(Clone, Debug)]
pub struct Config {
    pub apps: Vec<App>,
}

/// Why a configuration is refused. The number is the position of the entry
/// at fault, counted from 0.
#[derive(Clone, Copy, Debug, PartialEq, Eq, Structural)]
pub enum ConfigError {
    /// The entry has an empty name.
    MissingName(usize),
    /// The entry has an empty executable.
    MissingExecuter(usize),
}

impl AppView {
    /// An entry is valid if it names a program and an executable.
    pub open spec fn valid(self) -> bool {
        self.name.len() > 0 && self.executer.len() > 0
    }

    /// The descriptor of the program of this entry.
    pub open spec fn program(self, tmp_dir: Seq<char>) -> ProgramView {
        described(
            self.name,
            self.symbol,
            self.executer,
            self.start_extern,
            self.has_output,
            self.cmd_for_update,
            self.cmd_for_info,
            tmp_dir,
        )
    }
}

/// Number of blanks that pad a name of `len` bytes up to the threshold;
/// none for a name that is as long or longer.
pub open spec fn placeholder_width(len: nat) -> nat {
    if len >= PLACEHOLDER_THRESHOLD {
        0
    } else {
        (PLACEHOLDER_THRESHOLD - len) as nat
    }
}

/// The blanks that follow `name` in a progress line. The length of a name is
/// counted in bytes of UTF-8.
pub open spec fn placeholder_text(name: Seq<char>) -> Seq<char> {
    blanks(placeholder_width(encode_utf8(name).len()))
}

/// The symbol of a program that was given none: the first character of its
/// name, in upper case.
pub open spec fn default_symbol(name: Seq<char>) -> Seq<char> {
    uppercased(name[0])
}

/// The prefix that the output files of the program `name` share.
pub open spec fn output_base(tmp_dir: Seq<char>, name: Seq<char>) -> Seq<char> {
    tmp_dir + "/"@ + OUTPUT_PREFIX@ + name
}

/// The descriptor that [`Program::new`] builds from its arguments.
pub open spec fn described(
    name: Seq<char>,
    symbol: Option<Seq<char>>,
    executer: Seq<char>,
    start_extern: bool,
    has_output: bool,
    cmd_for_update: Option<Seq<char>>,
    cmd_for_info: Option<Seq<char>>,
    tmp_dir: Seq<char>,
) -> ProgramView {
    ProgramView {
        name,
        symbol: match symbol {
            Some(s) => s,
            None => default_symbol(name),
        },
        executer,
        start_extern,
        has_output,
        outputfile: output_base(tmp_dir, name),
        update_cmd: cmd_for_update,
        info_cmd: cmd_for_info,
        msg: Seq::empty(),
        placeholder: placeholder_text(name),
    }
}

/// The path of the output file of one command: the program's prefix, an
/// underscore, the stamp of the instant, and `.txt`.
pub open spec fn output_path_text(base: Seq<char>, stamp: Timestamp) -> Seq<char> {
    base + "_"@ + stamp_text(stamp) + ".txt"@
}

/// The shape of the command of a program with these settings.
pub open spec fn invocation_of(has_template: bool, start_extern: bool, has_output: bool)
    -> Invocation {
    if !has_template {
        Invocation::NoTemplate
    } else if !start_extern {
        Invocation::Inline
    } else if has_output {
        Invocation::ExternalLaunchWithCapture
    } else {
        Invocation::ExternalLaunch
    }
}

/// The command that calls the executable in place.
pub open spec fn inline_text(executer: Seq<char>, template: Seq<char>) -> Seq<char> {
    executer + " "@ + template + ";"@
}

/// The start of a command that launches the executable as a process of its
/// own, up to and including its argument list.
pub open spec fn launch_head(executer: Seq<char>, template: Seq<char>) -> Seq<char> {
    "Start-Process "@ + executer + " -ArgumentList '"@ + template + "'"@
}

/// The end of every command that launches a process of its own: hidden
/// window, wait for the end.
pub open spec fn launch_tail() -> Seq<char> {
    " -WindowStyle Hidden"@ + " -Wait"@ + ";"@
}

/// The command text of each shape. `NoTemplate` has none.
pub open spec fn command_text(
    shape: Invocation,
    executer: Seq<char>,
    template: Seq<char>,
    path: Seq<char>,
) -> Seq<char> {
    match shape {
        Invocation::NoTemplate => Seq::empty(),
        Invocation::Inline => inline_text(executer, template),
        Invocation::ExternalLaunch => launch_head(executer, template) + launch_tail(),
        Invocation::ExternalLaunchWithCapture => launch_head(executer, template)
            + " -RedirectStandardOutput "@ + path + launch_tail(),
    }
}

/// What the command builder yields: nothing without a template; otherwise the
/// command of the chosen shape, and the output path where output is captured.
pub open spec fn materialized(
    executer: Seq<char>,
    start_extern: bool,
    has_output: bool,
    cmd: Option<Seq<char>>,
    outputfile: Seq<char>,
    stamp: Timestamp,
) -> Option<CommandView> {
    match cmd {
        None => None,
        Some(template) => {
            let path = output_path_text(outputfile, stamp);
            Some(
                CommandView {
                    command: command_text(
                        invocation_of(true, start_extern, has_output),
                        executer,
                        template,
                        path,
                    ),
                    output_path: if has_output {
                        Some(path)
                    } else {
                        None
                    },
                },
            )
        },
    }
}

impl Mode {
    /// The mode that a word of the command line names, if it names one.
    pub open spec fn named(word: Seq<char>) -> Option<Mode> {
        if word == "update"@ {
            Some(Mode::Update)
        } else if word == "info"@ {
            Some(Mode::Info)
        } else {
            None
        }
    }

    /// The headline of a run in this mode.
    pub open spec fn headline_text(self) -> Seq<char> {
        match self {
            Mode::Update => "STARTING UPDATE"@,
            Mode::Info => "GETTING INFORMATION"@,
        }
    }

    /// The headline of a run in this mode.
    pub fn headline(self) -> (line: &'static str)
        ensures
            line@ == self.headline_text(),
    {
        match self {
            Mode::Update => "STARTING UPDATE",
            Mode::Info => "GETTING INFORMATION",
        }
    }

    /// Reads a mode from its name: `update` or `info`.
    pub fn parse(word: &str) -> (r: Option<Mode>)
        ensures
            r == Mode::named(word@),
    {
        if crate::text::same_text(word, "update") {
            Some(Mode::Update)
        } else if crate::text::same_text(word, "info") {
            Some(Mode::Info)
        } else {
            None
        }
    }
}

impl ProgramView {
    /// The fields that are derived from the name agree with it: the prefix of
    /// the output files ends in the mark of output files and the name, and
    /// the placeholder pads the name.
    pub open spec fn wf(self) -> bool {
        &&& self.placeholder == placeholder_text(self.name)
        &&& exists|tmp_dir: Seq<char>| self.outputfile == #[trigger] output_base(tmp_dir, self.name)
    }

    /// The template that a mode selects.
    pub open spec fn template(self, mode: Mode) -> Option<Seq<char>> {
        match mode {
            Mode::Update => self.update_cmd,
            Mode::Info => self.info_cmd,
        }
    }

    /// What the command builder yields for this program.
    pub open spec fn command(self, mode: Mode, stamp: Timestamp) -> Option<CommandView> {
        materialized(
            self.executer,
            self.start_extern,
            self.has_output,
            self.template(mode),
            self.outputfile,
            stamp,
        )
    }
}

/// Chooses the shape of a command from the three settings that decide it.
pub fn select_invocation(has_template: bool, start_extern: bool, has_output: bool) -> (r:
    Invocation)
    ensures
        r == invocation_of(has_template, start_extern, has_output),
{
    if !has_template {
        Invocation::NoTemplate
    } else if !start_extern {
        Invocation::Inline
    } else if has_output {
        Invocation::ExternalLaunchWithCapture
    } else {
        Invocation::ExternalLaunch
    }
}

/// Writes the command of a shape out: for `Inline` the executable and the
/// template; for the two launches the call that starts the executable as a
/// hidden process and waits for it, with the output sent to `path` where it
/// is captured. `NoTemplate` has no command, so its text is empty.
pub fn command_of(shape: Invocation, executer: &str, template: &str, path: &str) -> (text: String)
    ensures
        text@ == command_text(shape, executer@, template@, path@),
{
    let mut text = String::new();
    match shape {
        Invocation::NoTemplate => {},
        Invocation::Inline => {
            text.append(executer);
            text.append(" ");
            text.append(template);
            text.append(";");
        },
        Invocation::ExternalLaunch | Invocation::ExternalLaunchWithCapture => {
            text.append("Start-Process ");
            text.append(executer);
            text.append(" -ArgumentList '");
            text.append(template);
            text.append("'");
            assert(text@ == launch_head(executer@, template@));
            if shape == Invocation::ExternalLaunchWithCapture {
                text.append(" -RedirectStandardOutput ");
                text.append(path);
            }
            let ghost head = text@;
            text.append(" -WindowStyle Hidden");
            text.append(" -Wait");
            text.append(";");
            assert(text@ == head + launch_tail());
        },
    }
    text
}

/// Allocates the path of an output file. Nothing is created: the file comes
/// into being when the command that writes to it runs.
pub fn allocate_output_path(base: &str, stamp: &Timestamp) -> (path: String)
    requires
        stamp.wf(),
    ensures
        path@ == output_path_text(base@, *stamp),
{
    let mut path = String::from_str(base);
    path.append("_");
    let text = stamp.render();
    path.append(text.as_str());
    path.append(".txt");
    path
}

impl Program {
    /// Builds the descriptor of a program. Without a symbol, the first
    /// character of the name stands for it, in upper case, so the name must
    /// then have one.
    pub fn new(
        name: String,
        symbol: Option<String>,
        executer: String,
        start_extern: bool,
        has_output: bool,
        cmd_for_update: Option<String>,
        cmd_for_info: Option<String>,
        tmp_dir: &str,
    ) -> (program: Program)
        requires
            symbol is None ==> name@.len() > 0,
        ensures
            program@ == described(
                name@,
                opt_text(symbol),
                executer@,
                start_extern,
                has_output,
                opt_text(cmd_for_update),
                opt_text(cmd_for_info),
                tmp_dir@,
            ),
            program@.wf(),
            symbol is None && 'a' <= name@[0] && name@[0] <= 'z' ==> program@.symbol
                == seq![ascii_upper(name@[0])],
    {
        proof {
            lemma_described_is_wf(
                name@,
                opt_text(symbol),
                executer@,
                start_extern,
                has_output,
                opt_text(cmd_for_update),
                opt_text(cmd_for_info),
                tmp_dir@,
            );
        }
        let mut outputfile = String::from_str(tmp_dir);
        outputfile.append("/");
        outputfile.append(OUTPUT_PREFIX);
        outputfile.append(name.as_str());
        let placeholder = Self::get_placeholder(name.as_str());
        let symbol = match symbol {
            Some(given) => given,
            None => uppercase_text(name.as_str().get_char(0)),
        };
        let msg: Vec<String> = Vec::new();
        assert(texts(msg@) == Seq::<Seq<char>>::empty());
        Program {
            name,
            symbol,
            executer,
            start_extern,
            has_output,
            outputfile,
            update_cmd: cmd_for_update,
            info_cmd: cmd_for_info,
            msg,
            placeholder,
        }
    }

    /// As [`Program::new`], for any input: a program without a symbol whose
    /// name is empty is rejected.
    pub fn try_new(
        name: String,
        symbol: Option<String>,
        executer: String,
        start_extern: bool,
        has_output: bool,
        cmd_for_update: Option<String>,
        cmd_for_info: Option<String>,
        tmp_dir: &str,
    ) -> (r: Option<Program>)
        ensures
            r is None <==> symbol is None && name@.len() == 0,
            r matches Some(program) ==> (symbol is None && 'a' <= name@[0] && name@[0] <= 'z'
                ==> program@.symbol == seq![ascii_upper(name@[0])]),
            r matches Some(program) ==> program@.wf() && program@ == described(
                name@,
                opt_text(symbol),
                executer@,
                start_extern,
                has_output,
                opt_text(cmd_for_update),
                opt_text(cmd_for_info),
                tmp_dir@,
            ),
    {
        if symbol.is_none() && name.as_str().is_empty() {
            None
        } else {
            Some(
                Program::new(
                    name,
                    symbol,
                    executer,
                    start_extern,
                    has_output,
                    cmd_for_update,
                    cmd_for_info,
                    tmp_dir,
                ),
            )
        }
    }

    /// The blanks that bring `name` to the width of a progress line's name
    /// column. A name that fills the column or more gets none.
    pub fn get_placeholder(name: &str) -> (holder: String)
        ensures
            holder@ == placeholder_text(name@),
    {
        let bytes = name.as_bytes();
        let len = bytes.len();
        let rest_length = if len >= PLACEHOLDER_THRESHOLD {
            0
        } else {
            PLACEHOLDER_THRESHOLD - len
        };
        blank_string(rest_length)
    }

    /// The command builder on its bare inputs: the command for the template
    /// `cmd`, if there is one, with its output file named after `stamp`.
    pub fn collect_cmds(
        executer: &str,
        start_extern: bool,
        has_output: bool,
        cmd: &Option<String>,
        outputfile: &str,
        stamp: &Timestamp,
    ) -> (r: Option<MaterializedCommand>)
        requires
            stamp.wf(),
        ensures
            opt_command(r) == materialized(
                executer@,
                start_extern,
                has_output,
                opt_text(*cmd),
                outputfile@,
                *stamp,
            ),
    {
        match cmd {
            None => None,
            Some(template) => {
                let output = allocate_output_path(outputfile, stamp);
                let shape = select_invocation(true, start_extern, has_output);
                let collected_cmds = command_of(shape, executer, template.as_str(), output.as_str());
                let output_path = if has_output {
                    Some(output)
                } else {
                    None
                };
                Some(MaterializedCommand { command: collected_cmds, output_path })
            },
        }
    }

    /// The template that `mode` selects.
    pub fn template(&self, mode: Mode) -> (cmd: &Option<String>)
        ensures
            opt_text(*cmd) == self@.template(mode),
    {
        match mode {
            Mode::Update => &self.update_cmd,
            Mode::Info => &self.info_cmd,
        }
    }

    /// The command builder: the command of this program for `mode`, built at
    /// the instant `stamp`; `None` where the program has no command for the
    /// mode.
    pub fn command_for(&self, mode: Mode, stamp: &Timestamp) -> (r: Option<MaterializedCommand>)
        requires
            stamp.wf(),
        ensures
            opt_command(r) == self@.command(mode, *stamp),
    {
        Program::collect_cmds(
            self.executer.as_str(),
            self.start_extern,
            self.has_output,
            self.template(mode),
            self.outputfile.as_str(),
            stamp,
        )
    }
}

/// Builds the descriptors of the programs of a configuration, in its order,
/// with their output files below `tmp_dir`. The first entry without a name or
/// without an executable has the whole configuration refused.
pub fn programs_from_config(config: &Config, tmp_dir: &str) -> (r: Result<
    Vec<Program>,
    ConfigError,
>)
    ensures
        match r {
            Ok(programs) => {
                &&& programs@.len() == config.apps@.len()
                &&& forall|i: int|
                    0 <= i < programs@.len() ==> (#[trigger] config.apps@[i])@.valid()
                        && programs@[i]@ == config.apps@[i]@.program(tmp_dir@)
                        && programs@[i]@.wf()
                &&& forall|i: int|
                    0 <= i < programs@.len() && (#[trigger] config.apps@[i])@.symbol is None
                        && 'a' <= config.apps@[i]@.name[0] && config.apps@[i]@.name[0] <= 'z'
                        ==> programs@[i]@.symbol == seq![ascii_upper(config.apps@[i]@.name[0])]
            },
            Err(ConfigError::MissingName(at)) => {
                &&& at < config.apps@.len()
                &&& forall|i: int| 0 <= i < at ==> (#[trigger] config.apps@[i])@.valid()
                &&& config.apps@[at as int]@.name.len() == 0
            },
            Err(ConfigError::MissingExecuter(at)) => {
                &&& at < config.apps@.len()
                &&& forall|i: int| 0 <= i < at ==> (#[trigger] config.apps@[i])@.valid()
                &&& config.apps@[at as int]@.name.len() > 0
                &&& config.apps@[at as int]@.executer.len() == 0
            },
        },
{
    let mut programs: Vec<Program> = Vec::new();
    let mut i: usize = 0;
    while i < config.apps.len()
        invariant
            i <= config.apps@.len(),
            programs@.len() == i,
            forall|k: int|
                0 <= k < i ==> (#[trigger] config.apps@[k])@.valid() && programs@[k]@
                    == config.apps@[k]@.program(tmp_dir@) && programs@[k]@.wf(),
            forall|k: int|
                0 <= k < i && (#[trigger] config.apps@[k])@.symbol is None && 'a'
                    <= config.apps@[k]@.name[0] && config.apps@[k]@.name[0] <= 'z'
                    ==> programs@[k]@.symbol == seq![ascii_upper(config.apps@[k]@.name[0])],
        decreases config.apps@.len() - i,
    {
        let app = &config.apps[i];
        if app.name.as_str().is_empty() {
            return Err(ConfigError::MissingName(i));
        }
        if app.executer.as_str().is_empty() {
            return Err(ConfigError::MissingExecuter(i));
        }
        let program = Program::new(
            app.name.clone(),
            copy_opt(&app.symbol),
            app.executer.clone(),
            app.start_extern,
            app.has_output,
            copy_opt(&app.cmd_for_update),
            copy_opt(&app.cmd_for_info),
            tmp_dir,
        );
        programs.push(program);
        i = i + 1;
    }
    Ok(programs)
}

/// The view of an optional command.
pub open spec fn opt_command(c: Option<MaterializedCommand>) -> Option<CommandView> {
    match c {
        Some(c) => Some(c@),
        None => None,
    }
}

/// A descriptor that is built from its arguments is consistent.
pub proof fn lemma_described_is_wf(
    name: Seq<char>,
    symbol: Option<Seq<char>>,
    executer: Seq<char>,
    start_extern: bool,
    has_output: bool,
    cmd_for_update: Option<Seq<char>>,
    cmd_for_info: Option<Seq<char>>,
    tmp_dir: Seq<char>,
)
    ensures
        described(
            name,
            symbol,
            executer,
            start_extern,
            has_output,
            cmd_for_update,
            cmd_for_info,
            tmp_dir,
        ).wf(),
{
    assert(output_base(tmp_dir, name) == output_base(tmp_dir, name));
}

/// Two output paths with the same prefix, allocated at different instants,
/// differ.
pub proof fn lemma_distinct_instants_distinct_paths(base: Seq<char>, s: Timestamp, t: Timestamp)
    requires
        s.wf(),
        t.wf(),
        s != t,
    ensures
        output_path_text(base, s) != output_path_text(base, t),
{
    if output_path_text(base, s) == output_path_text(base, t) {
        lemma_stamp_len(s);
        lemma_stamp_len(t);
        lemma_split_equal(
            base + "_"@ + stamp_text(s),
            ".txt"@,
            base + "_"@ + stamp_text(t),
            ".txt"@,
        );
        lemma_split_equal(base + "_"@, stamp_text(s), base + "_"@, stamp_text(t));
        lemma_stamp_injective(s, t);
    }
}

/// The command builder, called twice for one program in one mode at two
/// different instants, names two different output files, provided that the
/// program has a command for the mode and captures its output.
pub proof fn lemma_builds_at_distinct_instants_never_collide(
    program: ProgramView,
    mode: Mode,
    s: Timestamp,
    t: Timestamp,
)
    requires
        s.wf(),
        t.wf(),
        s != t,
        program.template(mode) is Some,
        program.has_output,
    ensures
        program.command(mode, s) is Some,
        program.command(mode, t) is Some,
        program.command(mode, s)->0.output_path is Some,
        program.command(mode, t)->0.output_path is Some,
        program.command(mode, s)->0.output_path != program.command(mode, t)->0.output_path,
{
    lemma_distinct_instants_distinct_paths(program.outputfile, s, t);
}

} // verus!
