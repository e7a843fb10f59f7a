//! External commands as values: the library decides which programs to run
//! with which arguments, and the daemon runs them.
use vstd::prelude::*;

verus! {

/// A program and its arguments.
#[derive(Debug, Clone)]
pub struct CommandLine {
    pub program: String,
    pub args: Vec<String>,
}

/// The text of each string in `v`.
pub open spec fn strings_view(v: Seq<String>) -> Seq<Seq<char>> {
    v.map_values(|a: String| a@)
}

impl View for CommandLine {
    type V = (Seq<char>, Seq<Seq<char>>);

    open spec fn view(&self) -> (Seq<char>, Seq<Seq<char>>) {
        (self.program@, strings_view(self.args@))
    }
}

/// The program and arguments of each command in `v`.
pub open spec fn commands_view(v: Seq<CommandLine>) -> Seq<(Seq<char>, Seq<Seq<char>>)> {
    v.map_values(|c: CommandLine| c@)
}

/// An owned copy of `s`.
pub fn owned(s: &str) -> (r: String)
    ensures
        r@ == s@,
{
    let mut r = String::new();
    r.append(s);
    assert(r@ =~= s@);
    r
}

/// The command `program` with the arguments `args`.
pub fn command(program: &str, args: Vec<String>) -> (c: CommandLine)
    ensures
        c@ == (program@, strings_view(args@)),
{
    CommandLine { program: owned(program), args }
}

/// A vector of owned copies of `a`.
pub fn strings1(a: &str) -> (v: Vec<String>)
    ensures
        strings_view(v@) == seq![a@],
{
    let v = vec![owned(a)];
    assert(strings_view(v@) =~= seq![a@]);
    v
}

/// Appends an owned copy of `a` to `v`.
pub fn push_str(v: &mut Vec<String>, a: &str)
    ensures
        strings_view(final(v)@) == strings_view(old(v)@).push(a@),
{
    v.push(owned(a));
    assert(strings_view(final(v)@) =~= strings_view(old(v)@).push(a@));
}

/// Appends `a` to `v`.
pub fn push_string(v: &mut Vec<String>, a: String)
    ensures
        strings_view(final(v)@) == strings_view(old(v)@).push(a@),
{
    let ghost a_view = a@;
    v.push(a);
    assert(strings_view(final(v)@) =~= strings_view(old(v)@).push(a_view));
}

} // verus!
