//! Declarations of the arguments that a program accepts.

use vstd::prelude::*;

verus! {

/// The type of value that an argument takes.
#[derive(Clone, Copy, Debug, PartialEq, Eq, Structural)]
pub enum ArgKind {
    /// Any text that does not begin with a dash.
    String,
    /// A 32-bit signed integer in base ten.
    Integer,
    /// A floating point number.
    Float,
    /// A flag: it takes no value, its presence is the value.
    Boolean,
}

impl Default for ArgKind {
    fn default() -> (kind: ArgKind)
        ensures
            kind == ArgKind::String,
    {
        ArgKind::String
    }
}

/// What an [`Arg`] declares.
pub struct ArgView {
    /// The long name, written after `--` on the command line.
    pub name: Seq<char>,
    /// The one-character short form, written after `-`.
    pub alias: Option<char>,
    pub kind: ArgKind,
    /// Whether parsing fails when the argument is not given.
    pub required: bool,
    /// Text for the help page.
    pub description: Seq<char>,
}

/// One argument that a program accepts: its name, its short form, the type
/// of its value, whether it must be given, and a line of help.
#[derive(Debug, PartialEq, Eq)]
pub struct Arg {
    long_name: String,
    short_name: Option<char>,
    kind: ArgKind,
    required: bool,
    description: String,
}

impl View for Arg {
    type V = ArgView;

    closed spec fn view(&self) -> ArgView {
        ArgView {
            name: self.long_name@,
            alias: self.short_name,
            kind: self.kind,
            required: self.required,
            description: self.description@,
        }
    }
}

impl Default for Arg {
    fn default() -> (arg: Arg)
        ensures
            arg@ == Arg::empty_view(),
    {
        Arg::new()
    }
}

impl Arg {
    /// The declaration that [`Arg::new`] gives: an optional string argument
    /// with an empty name.
    pub open spec fn empty_view() -> ArgView {
        ArgView {
            name: Seq::empty(),
            alias: None,
            kind: ArgKind::String,
            required: false,
            description: Seq::empty(),
        }
    }

    /// An optional string argument without a name, to be filled in.
    pub fn new() -> (arg: Arg)
        ensures
            arg@ == Arg::empty_view(),
    {
        Arg {
            long_name: String::new(),
            short_name: None,
            kind: ArgKind::String,
            required: false,
            description: String::new(),
        }
    }

    /// A flag. A flag is never required: giving it is what sets it.
    pub fn boolean(name: &str, short_name: Option<char>, desc: &str) -> (arg: Arg)
        ensures
            arg@ == (ArgView {
                name: name@,
                alias: short_name,
                kind: ArgKind::Boolean,
                required: false,
                description: desc@,
            }),
    {
        Arg {
            long_name: name.to_owned(),
            short_name,
            kind: ArgKind::Boolean,
            required: false,
            description: desc.to_owned(),
        }
    }

    /// An argument whose value is taken as it is written.
    pub fn string(long_name: &str, short_name: Option<char>, required: bool, desc: &str) -> (arg:
        Arg)
        ensures
            arg@ == (ArgView {
                name: long_name@,
                alias: short_name,
                kind: ArgKind::String,
                required,
                description: desc@,
            }),
    {
        Arg {
            long_name: long_name.to_owned(),
            short_name,
            kind: ArgKind::String,
            required,
            description: desc.to_owned(),
        }
    }

    /// An argument whose value must be a 32-bit signed integer.
    pub fn integer(long_name: &str, short_name: Option<char>, required: bool, desc: &str) -> (arg:
        Arg)
        ensures
            arg@ == (ArgView {
                name: long_name@,
                alias: short_name,
                kind: ArgKind::Integer,
                required,
                description: desc@,
            }),
    {
        Arg {
            long_name: long_name.to_owned(),
            short_name,
            kind: ArgKind::Integer,
            required,
            description: desc.to_owned(),
        }
    }

    /// An argument whose value must be a floating point number.
    pub fn float(long_name: &str, short_name: Option<char>, required: bool, desc: &str) -> (arg:
        Arg)
        ensures
            arg@ == (ArgView {
                name: long_name@,
                alias: short_name,
                kind: ArgKind::Float,
                required,
                description: desc@,
            }),
    {
        Arg {
            long_name: long_name.to_owned(),
            short_name,
            kind: ArgKind::Float,
            required,
            description: desc.to_owned(),
        }
    }

    /// The long name.
    pub fn name(&self) -> (name: &String)
        ensures
            name@ == self@.name,
    {
        &self.long_name
    }

    /// The short form, if the argument has one.
    pub fn alias(&self) -> (alias: Option<char>)
        ensures
            alias == self@.alias,
    {
        self.short_name
    }

    /// The type of the value.
    pub fn kind(&self) -> (kind: ArgKind)
        ensures
            kind == self@.kind,
    {
        self.kind
    }

    /// Whether the argument must be given.
    pub fn is_required(&self) -> (required: bool)
        ensures
            required == self@.required,
    {
        self.required
    }

    /// The line of help.
    pub fn description(&self) -> (text: &String)
        ensures
            text@ == self@.description,
    {
        &self.description
    }
}

/// What a list of arguments declares, in order.
pub open spec fn arg_views(args: Seq<Arg>) -> Seq<ArgView> {
    Seq::new(args.len(), |i: int| args[i]@)
}

} // verus!
