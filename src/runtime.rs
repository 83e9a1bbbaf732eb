//! The command-VM runtime: configuration of the engine process and its translators, and the
//! bridge's decisions between uniform commands, the engine's lines and output events.
use vstd::prelude::*;
use crate::output::{
    cmd_text, default_input_translate, default_output_translate, input_translate, ona_input,
    ona_output, output_kind, output_translate, Cmd, Output, OutputKind, TranslateError,
};

verus! {

/// A dialect whose translators the library provides.
#[derive(Clone, Copy, PartialEq, Eq, Structural, Debug)]
pub enum Dialect {
    /// The ONA shell.
    Ona,
}

/// The text that a command becomes under an input translator; `None` when it has none.
pub open spec fn translated_input(t: Option<Dialect>, c: Cmd) -> Option<Seq<char>> {
    match t {
        None => Some(cmd_text(c)),
        Some(Dialect::Ona) => ona_input(c),
    }
}

/// Builder of a command-VM runtime: the program to start, its arguments, its translators.
pub struct CommandVm {
    pub program_path: String,
    pub args: Vec<String>,
    pub input_dialect: Option<Dialect>,
    pub output_dialect: Option<Dialect>,
}

impl CommandVm {
    /// A builder for a program, with no arguments and the default translators.
    pub fn new(program_path: String) -> (r: CommandVm)
        ensures
            r.program_path == program_path,
            r.args@.len() == 0,
            r.input_dialect is None,
            r.output_dialect is None,
    {
        CommandVm { program_path, args: Vec::new(), input_dialect: None, output_dialect: None }
    }

    /// Adds a command-line argument.
    pub fn arg(self, arg: String) -> (r: CommandVm)
        ensures
            r.program_path == self.program_path,
            r.args@ == self.args@.push(arg),
            r.input_dialect == self.input_dialect,
            r.output_dialect == self.output_dialect,
    {
        let mut s = self;
        s.args.push(arg);
        s
    }

    /// Sets the input translator.
    pub fn input_translator(self, dialect: Dialect) -> (r: CommandVm)
        ensures
            r.program_path == self.program_path,
            r.args == self.args,
            r.input_dialect == Some(dialect),
            r.output_dialect == self.output_dialect,
    {
        CommandVm { input_dialect: Some(dialect), ..self }
    }

    /// Sets the output translator.
    pub fn output_translator(self, dialect: Dialect) -> (r: CommandVm)
        ensures
            r.program_path == self.program_path,
            r.args == self.args,
            r.input_dialect == self.input_dialect,
            r.output_dialect == Some(dialect),
    {
        CommandVm { output_dialect: Some(dialect), ..self }
    }

    /// Translates a command with the configured input translator.
    pub fn translate_input(&self, cmd: Cmd) -> (r: Result<String, TranslateError>)
        ensures
            match r {
                Ok(text) => translated_input(self.input_dialect, cmd) == Some(text@),
                Err(_) => translated_input(self.input_dialect, cmd) is None,
            },
    {
        match self.input_dialect {
            None => default_input_translate(cmd),
            Some(Dialect::Ona) => input_translate(cmd),
        }
    }

    /// Translates a line of the engine with the configured output translator.
    pub fn translate_output(&self, line: String) -> (r: Result<Output, TranslateError>)
        ensures
            self.output_dialect is None ==> r == Ok::<Output, TranslateError>(
                Output::OTHER { content: line },
            ),
            self.output_dialect == Some(Dialect::Ona) ==> r is Ok && ona_output(line@, r->Ok_0),
    {
        match self.output_dialect {
            None => default_output_translate(line),
            Some(Dialect::Ona) => output_translate(line),
        }
    }
}

/// The bridge between uniform commands and one engine process: it decides what is written
/// to the process and what each line read from it becomes. The process itself is driven by
/// the caller.
pub struct CommandVmRuntime {
    vm: CommandVm,
    terminated: bool,
    reported: bool,
}

impl CommandVmRuntime {
    pub closed spec fn config(&self) -> CommandVm {
        self.vm
    }

    /// Whether `terminate` has been called.
    pub closed spec fn is_terminated(&self) -> bool {
        self.terminated
    }

    /// Whether the terminated event has been handed out.
    pub closed spec fn has_reported(&self) -> bool {
        self.reported
    }

    /// The runtime of a configured builder, before any command.
    pub fn launch(vm: CommandVm) -> (r: CommandVmRuntime)
        ensures
            r.config() == vm,
            !r.is_terminated(),
            !r.has_reported(),
    {
        CommandVmRuntime { vm, terminated: false, reported: false }
    }

    /// The configuration the runtime was launched with.
    pub fn vm(&self) -> (r: &CommandVm)
        ensures
            *r == self.config(),
    {
        &self.vm
    }

    /// The line to write to the process for a command: its translation and a newline. A
    /// command that the translator cannot render is an error, and nothing is to be written.
    pub fn input_cmd(&self, cmd: Cmd) -> (r: Result<String, TranslateError>)
        ensures
            match translated_input(self.config().input_dialect, cmd) {
                Some(text) => r is Ok && r->Ok_0@ == text + seq!['\n'],
                None => r is Err,
            },
    {
        proof {
            reveal_strlit("\n");
        }
        match self.vm.translate_input(cmd) {
            Ok(text) => Ok(text.concat("\n")),
            Err(e) => Err(e),
        }
    }

    /// What a fetch gives, from the line that the process has ready, if any. Once the runtime
    /// is terminated, the next fetch gives the terminated event and later ones give nothing.
    pub fn fetch_output(&mut self, line: Option<String>) -> (r: Result<Option<Output>, TranslateError>)
        ensures
            final(self).config() == old(self).config(),
            final(self).is_terminated() == old(self).is_terminated(),
            old(self).is_terminated() ==> final(self).has_reported(),
            old(self).is_terminated() && !old(self).has_reported() ==> r is Ok && r->Ok_0 is Some
                && output_kind(r->Ok_0->Some_0) == OutputKind::Terminated,
            old(self).is_terminated() && old(self).has_reported() ==> r == Ok::<
                Option<Output>,
                TranslateError,
            >(None),
            !old(self).is_terminated() ==> final(self).has_reported() == old(self).has_reported(),
            !old(self).is_terminated() && line is None ==> r == Ok::<Option<Output>, TranslateError>(
                None,
            ),
            !old(self).is_terminated() && line is Some && old(self).config().output_dialect is None
                ==> r == Ok::<Option<Output>, TranslateError>(
                Some(Output::OTHER { content: line->Some_0 }),
            ),
            !old(self).is_terminated() && line is Some && old(self).config().output_dialect
                == Some(Dialect::Ona) ==> r is Ok && r->Ok_0 is Some && ona_output(
                line->Some_0@,
                r->Ok_0->Some_0,
            ),
    {
        if self.terminated {
            if self.reported {
                return Ok(None);
            }
            self.reported = true;
            return Ok(Some(Output::TERMINATED { description: String::new() }));
        }
        match line {
            None => Ok(None),
            Some(l) => match self.vm.translate_output(l) {
                Ok(o) => Ok(Some(o)),
                Err(e) => Err(e),
            },
        }
    }

    /// Marks the runtime terminated; the caller kills the process.
    pub fn terminate(&mut self)
        ensures
            final(self).config() == old(self).config(),
            final(self).is_terminated(),
            final(self).has_reported() == old(self).has_reported(),
    {
        self.terminated = true;
    }

    pub fn terminated(&self) -> (r: bool)
        ensures
            r == self.is_terminated(),
    {
        self.terminated
    }
}

} // verus!
