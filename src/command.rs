//! Commands and the lines that carry them.
use vstd::prelude::*;

use crate::codec::{encode_spec, push_arg};

verus! {

/// What the characters of each string are.
pub open spec fn strings_view(v: Seq<String>) -> Seq<Seq<char>> {
    v.map_values(|s: String| s@)
}

/// The arguments as they follow the verb: each after one space, quoted as needed.
pub open spec fn args_text(args: Seq<Seq<char>>) -> Seq<char>
    decreases args.len(),
{
    if args.len() == 0 {
        Seq::empty()
    } else {
        args_text(args.drop_last()) + seq![' '] + encode_spec(args.last())
    }
}

/// The line that carries a command, without its newline.
pub open spec fn command_line(verb: Seq<char>, args: Seq<Seq<char>>) -> Seq<char> {
    verb + args_text(args)
}

/// A verb and its arguments.
#[derive(Clone, Debug)]
pub struct Command {
    pub verb: String,
    pub args: Vec<String>,
}

impl Command {
    pub open spec fn line(&self) -> Seq<char> {
        command_line(self.verb@, strings_view(self.args@))
    }

    /// A command with no arguments yet.
    pub fn new(verb: &str) -> (r: Command)
        ensures
            r.verb@ == verb@,
            r.args@.len() == 0,
    {
        Command { verb: verb.to_owned(), args: Vec::new() }
    }

    /// The same command with one more argument at the end.
    pub fn arg(self, a: &str) -> (r: Command)
        ensures
            r.verb == self.verb,
            strings_view(r.args@) == strings_view(self.args@).push(a@),
    {
        let mut c = self;
        c.args.push(a.to_owned());
        assert(strings_view(c.args@) =~= strings_view(self.args@).push(a@));
        c
    }

    /// The same command with a number, in decimal, as one more argument.
    pub fn arg_num(self, n: u64) -> (r: Command)
        ensures
            r.verb == self.verb,
            strings_view(r.args@) == strings_view(self.args@).push(decimal_spec(n as nat)),
    {
        let d = decimal(n);
        let mut c = self;
        c.args.push(d);
        assert(strings_view(c.args@) =~= strings_view(self.args@).push(decimal_spec(n as nat)));
        c
    }

    /// The same command with a flag, as `1` or `0`, as one more argument.
    pub fn arg_bool(self, b: bool) -> (r: Command)
        ensures
            r.verb == self.verb,
            strings_view(r.args@) == strings_view(self.args@).push(
                decimal_spec(if b { 1 } else { 0 }),
            ),
    {
        self.arg_num(if b { 1 } else { 0 })
    }

    /// Appends the command's line, without a newline, to `out`.
    pub fn write_line(&self, out: &mut String)
        ensures
            final(out)@ == old(out)@ + self.line(),
    {
        write_command(out, self.verb.as_str(), &self.args);
    }

    /// The command's line, without a newline.
    pub fn to_line(&self) -> (r: String)
        ensures
            r@ == self.line(),
    {
        let mut out = String::new();
        self.write_line(&mut out);
        assert(out@ =~= self.line());
        out
    }
}

/// Appends the line of `verb` with `args`, without a newline, to `out`.
pub fn write_command(out: &mut String, verb: &str, args: &Vec<String>)
    ensures
        final(out)@ == old(out)@ + command_line(verb@, strings_view(args@)),
{
    let ghost start = out@;
    let ghost a = strings_view(args@);
    out.append(verb);
    let mut i: usize = 0;
    while i < args.len()
        invariant
            a == strings_view(args@),
            i <= args@.len(),
            out@ == start + verb@ + args_text(a.take(i as int)),
        decreases args@.len() - i,
    {
        proof {
            let t = a.take(i + 1);
            assert(t.drop_last() =~= a.take(i as int));
            assert(t.last() == args@[i as int]@);
        }
        out.push(' ');
        push_arg(out, args[i].as_str());
        i = i + 1;
    }
    assert(a.take(i as int) =~= a);
    assert(out@ =~= start + command_line(verb@, a));
}

pub open spec fn digit_char(d: nat) -> char {
    (('0' as nat) + d) as char
}

/// A number in decimal, with no leading zeros.
pub open spec fn decimal_spec(n: nat) -> Seq<char>
    decreases n,
{
    if n < 10 {
        seq![digit_char(n)]
    } else {
        decimal_spec(n / 10) + seq![digit_char(n % 10)]
    }
}

fn digit(d: u64) -> (c: char)
    requires
        d < 10,
    ensures
        c == digit_char(d as nat),
{
    if d == 0 { '0' }
    else if d == 1 { '1' }
    else if d == 2 { '2' }
    else if d == 3 { '3' }
    else if d == 4 { '4' }
    else if d == 5 { '5' }
    else if d == 6 { '6' }
    else if d == 7 { '7' }
    else if d == 8 { '8' }
    else { '9' }
}

/// A number in decimal.
pub fn decimal(n: u64) -> (r: String)
    ensures
        r@ == decimal_spec(n as nat),
    decreases n,
{
    if n < 10 {
        let mut s = String::new();
        s.push(digit(n));
        assert(s@ =~= decimal_spec(n as nat));
        s
    } else {
        let mut s = decimal(n / 10);
        s.push(digit(n % 10));
        s
    }
}

} // verus!
