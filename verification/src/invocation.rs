//! The command line of one run of the tool.
use vstd::prelude::*;

verus! {

/// The parameters of one run, fixed once it is made. Nothing in them is
/// validated: the tool judges the path and the layout itself.
#[derive(Clone, Debug, PartialEq, Eq)]
pub struct Invocation {
    path: String,
    normalize: bool,
    trim: bool,
    layout: String,
}

impl View for Invocation {
    /// The path, the two flags in the order normalize, trim, and the layout.
    type V = (Seq<char>, bool, bool, Seq<char>);

    closed spec fn view(&self) -> (Seq<char>, bool, bool, Seq<char>) {
        (self.path@, self.normalize, self.trim, self.layout@)
    }
}

/// The characters of each string of a sequence.
pub open spec fn texts(items: Seq<String>) -> Seq<Seq<char>> {
    Seq::new(items.len(), |i: int| items[i]@)
}

/// How a flag's value is written on the command line.
pub open spec fn flag_token(flag: bool) -> Seq<char> {
    if flag {
        "true"@
    } else {
        "false"@
    }
}

/// The arguments that the tool is started with, program name excluded.
pub open spec fn argument_seq(
    path: Seq<char>,
    normalize: bool,
    trim: bool,
    layout: Seq<char>,
) -> Seq<Seq<char>> {
    seq![
        "repack"@,
        "--path"@,
        path,
        "--normalize"@,
        flag_token(normalize),
        "--trim"@,
        flag_token(trim),
        "--layout"@,
        layout,
    ]
}

/// The name under which the tool is looked up on the search path.
pub fn program_name() -> (name: &'static str)
    ensures
        name@ == "samplem"@,
{
    "samplem"
}

/// The literal token for a flag's value.
pub fn flag_text(flag: bool) -> (token: &'static str)
    ensures
        token@ == flag_token(flag),
{
    if flag {
        "true"
    } else {
        "false"
    }
}

impl Invocation {
    /// The arguments of this run, as sequences of characters.
    pub open spec fn arguments(&self) -> Seq<Seq<char>> {
        argument_seq(self@.0, self@.1, self@.2, self@.3)
    }

    pub fn new(path: String, normalize: bool, trim: bool, layout: String) -> (inv: Self)
        ensures
            inv@ == (path@, normalize, trim, layout@),
    {
        Invocation { path, normalize, trim, layout }
    }

    /// Builds the argument list: nine strings in a fixed order, with the path
    /// and the layout passed through unchanged.
    pub fn to_args(&self) -> (args: Vec<String>)
        ensures
            texts(args@) == self.arguments(),
    {
        let mut args: Vec<String> = Vec::new();
        args.push("repack".to_owned());
        args.push("--path".to_owned());
        args.push(self.path.clone());
        args.push("--normalize".to_owned());
        args.push(flag_text(self.normalize).to_owned());
        args.push("--trim".to_owned());
        args.push(flag_text(self.trim).to_owned());
        args.push("--layout".to_owned());
        args.push(self.layout.clone());
        assert(texts(args@) =~= self.arguments());
        args
    }

    pub fn path(&self) -> (path: &str)
        ensures
            path@ == self@.0,
    {
        self.path.as_str()
    }

    pub fn normalize(&self) -> (normalize: bool)
        ensures
            normalize == self@.1,
    {
        self.normalize
    }

    pub fn trim(&self) -> (trim: bool)
        ensures
            trim == self@.2,
    {
        self.trim
    }

    pub fn layout(&self) -> (layout: &str)
        ensures
            layout@ == self@.3,
    {
        self.layout.as_str()
    }
}

/// The argument list has nine entries. The path and the layout stand in it
/// unchanged, and each flag as the characters of `true` or of `false`.
pub proof fn lemma_argument_form(path: Seq<char>, normalize: bool, trim: bool, layout: Seq<char>)
    ensures
        argument_seq(path, normalize, trim, layout).len() == 9,
        argument_seq(path, normalize, trim, layout)[2] == path,
        argument_seq(path, normalize, trim, layout)[8] == layout,
        argument_seq(path, normalize, trim, layout)[4] == (if normalize {
            seq!['t', 'r', 'u', 'e']
        } else {
            seq!['f', 'a', 'l', 's', 'e']
        }),
        argument_seq(path, normalize, trim, layout)[6] == (if trim {
            seq!['t', 'r', 'u', 'e']
        } else {
            seq!['f', 'a', 'l', 's', 'e']
        }),
{
    reveal_strlit("true");
    reveal_strlit("false");
    assert("true"@ =~= seq!['t', 'r', 'u', 'e']);
    assert("false"@ =~= seq!['f', 'a', 'l', 's', 'e']);
}

} // verus!
