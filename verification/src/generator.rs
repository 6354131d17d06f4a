//! The generator for one target: the artifact of a workspace member, and
//! the umbrella artifact that re-exports every member.

use crate::ast::Module;
use crate::codegen::{codegen, surface};
use crate::forest::forest_of;
use crate::output::{Emitted, Scope};
use crate::text::texts;
use vstd::prelude::*;
use vstd::string::*;

verus! {

/// What wraps the modules of the workspace members.
#[derive(Clone, Copy, PartialEq, Eq, Structural, Debug)]
pub enum RustTargetWrapper {
    /// No umbrella artifact.
    NoWrapper,
    /// An umbrella module.
    Mod,
    /// An umbrella library root.
    Lib,
}

/// The configuration of the target.
#[derive(Clone, Copy, Debug)]
pub struct RustTarget {
    pub wrapper: RustTargetWrapper,
}

/// The options of one run.
#[derive(Clone, Copy, Debug)]
pub struct Opts {
    pub verbose: bool,
}

/// The generator for one target.
pub struct Generator<'a> {
    pub target: RustTarget,
    pub opts: &'a Opts,
}

/// The file name of the umbrella artifact, if the target asks for one.
pub open spec fn wrapper_file(wrapper: RustTargetWrapper) -> Option<Seq<char>> {
    match wrapper {
        RustTargetWrapper::NoWrapper => None,
        RustTargetWrapper::Mod => Some("mod.rs"@),
        RustTargetWrapper::Lib => Some("lib.rs"@),
    }
}

/// The head of an umbrella artifact.
pub open spec fn prelude(e: Emitted) -> Emitted {
    e.line("// This file is generated by lavish: DO NOT EDIT")
        .line("// https://github.com/fasterthanlime/lavish")
        .lf()
        .line("#![cfg_attr(rustfmt, rustfmt_skip)]")
        .line("#![allow(clippy::all, unknown_lints, unused, non_snake_case)]")
        .lf()
}

/// The declaration that re-exports the module of one member.
pub open spec fn member_line(name: Seq<char>) -> Seq<char> {
    "pub mod "@ + name + ";"@
}

/// The declarations that re-export `members`, in order.
pub open spec fn member_lines(members: Seq<Seq<char>>) -> Seq<Seq<char>> {
    Seq::new(members.len(), |i: int| member_line(members[i]))
}

/// The umbrella artifact: the head, and one declaration per member.
pub open spec fn wrapper(e: Emitted, members: Seq<Seq<char>>) -> Emitted {
    prelude(e).lines(member_lines(members), members.len())
}

impl<'a> Generator<'a> {
    pub fn new(opts: &'a Opts, target: RustTarget) -> (g: Generator<'a>)
        ensures
            g.opts == opts,
            g.target == target,
    {
        Generator { opts, target }
    }

    /// The file name of the umbrella artifact, if the target asks for one.
    pub fn wrapper_name(&self) -> (r: Option<&'static str>)
        ensures
            match r {
                Some(n) => wrapper_file(self.target.wrapper) == Some(n@),
                None => wrapper_file(self.target.wrapper) is None,
            },
    {
        match self.target.wrapper {
            RustTargetWrapper::NoWrapper => None,
            RustTargetWrapper::Mod => Some("mod.rs"),
            RustTargetWrapper::Lib => Some("lib.rs"),
        }
    }

    /// Writes the head of an umbrella artifact.
    pub fn write_prelude(&self, s: &mut Scope)
        ensures
            final(s)@ == prelude(old(s)@),
            *final(final(s).writer) == *final(old(s).writer),
    {
        s.line("// This file is generated by lavish: DO NOT EDIT");
        s.line("// https://github.com/fasterthanlime/lavish");
        s.lf();
        s.line("#![cfg_attr(rustfmt, rustfmt_skip)]");
        s.line("#![allow(clippy::all, unknown_lints, unused, non_snake_case)]");
        s.lf();
    }

    /// Writes the umbrella artifact for the members named `members`.
    pub fn write_wrapper(&self, s: &mut Scope, members: &Vec<String>)
        ensures
            final(s)@ == wrapper(old(s)@, texts(members@)),
            *final(final(s).writer) == *final(old(s).writer),
    {
        self.write_prelude(s);
        let ghost head = s@;
        let ghost lines = member_lines(texts(members@));
        let mut i: usize = 0;
        while i < members.len()
            invariant
                i <= members.len(),
                lines == member_lines(texts(members@)),
                s@ == head.lines(lines, i as nat),
                *final(s.writer) == *final(old(s).writer),
            decreases members.len() - i,
        {
            let mut line = String::from_str("pub mod ");
            line.append(members[i].as_str());
            line.append(";");
            s.line(line.as_str());
            i += 1;
        }
    }

    /// The artifact of one workspace member: the surface of the forest of
    /// its modules.
    pub fn emit(&self, modules: &Vec<Module>) -> (out: String)
        ensures
            out@ == surface(Emitted::start(), forest_of(modules@)).text,
    {
        codegen(modules)
    }

    /// The umbrella artifact of a workspace, if the target asks for one:
    /// its file name and its text.
    pub fn emit_workspace(&self, members: &Vec<String>) -> (r: Option<(&'static str, String)>)
        ensures
            match r {
                Some((name, out)) => {
                    &&& wrapper_file(self.target.wrapper) == Some(name@)
                    &&& out@ == wrapper(Emitted::start(), texts(members@)).text
                },
                None => wrapper_file(self.target.wrapper) is None,
            },
    {
        match self.wrapper_name() {
            Some(name) => {
                let mut w = Scope::writer();
                {
                    let mut s = Scope::new(&mut w);
                    self.write_wrapper(&mut s, members);
                }
                Some((name, w.into_inner()))
            },
            None => None,
        }
    }
}

} // verus!
