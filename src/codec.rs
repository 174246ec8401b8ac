//! Quoting of command arguments and of quoted values.
use vstd::prelude::*;

verus! {

/// The whitespace characters of the protocol.
pub open spec fn is_space(c: char) -> bool {
    c == ' ' || c == '\t' || c == '\n' || c == '\r' || c == '\x0b' || c == '\x0c'
}

/// Whether a character is escaped inside a quoted argument.
pub open spec fn is_special(c: char) -> bool {
    c == '"' || c == '\\'
}

/// Whether a character forces an argument into quotes.
pub open spec fn needs_quote(c: char) -> bool {
    is_space(c) || is_special(c)
}

/// An argument that can be sent as it is: not empty, no whitespace, quote or backslash.
pub open spec fn is_bare(s: Seq<char>) -> bool {
    s.len() > 0 && forall|i: int| 0 <= i < s.len() ==> !needs_quote(#[trigger] s[i])
}

/// What one character becomes inside quotes.
pub open spec fn escape_char(c: char) -> Seq<char> {
    if is_special(c) {
        seq!['\\', c]
    } else {
        seq![c]
    }
}

/// Each quote and backslash preceded by a backslash.
pub open spec fn escape(s: Seq<char>) -> Seq<char>
    decreases s.len(),
{
    if s.len() == 0 {
        Seq::empty()
    } else {
        escape_char(s[0]) + escape(s.drop_first())
    }
}

/// The inverse of `escape`: a backslash takes the next character literally.
pub open spec fn unescape(s: Seq<char>) -> Seq<char>
    decreases s.len(),
{
    if s.len() == 0 {
        Seq::empty()
    } else if s[0] == '\\' && s.len() >= 2 {
        seq![s[1]] + unescape(s.subrange(2, s.len() as int))
    } else {
        seq![s[0]] + unescape(s.drop_first())
    }
}

/// An argument as it stands on a command line.
pub open spec fn encode_spec(s: Seq<char>) -> Seq<char> {
    if is_bare(s) {
        s
    } else {
        seq!['"'] + escape(s) + seq!['"']
    }
}

/// Whether a value is wrapped in double quotes.
pub open spec fn is_quoted(t: Seq<char>) -> bool {
    t.len() >= 2 && t[0] == '"' && t[t.len() - 1] == '"'
}

/// A value read back: a quoted one is unwrapped and unescaped, any other is kept.
pub open spec fn decode_spec(t: Seq<char>) -> Seq<char> {
    if is_quoted(t) {
        unescape(t.subrange(1, t.len() - 1))
    } else {
        t
    }
}

pub proof fn lemma_escape_append(a: Seq<char>, b: Seq<char>)
    ensures
        escape(a + b) == escape(a) + escape(b),
    decreases a.len(),
{
    if a.len() == 0 {
        assert(a + b =~= b);
    } else {
        assert((a + b).drop_first() =~= a.drop_first() + b);
        lemma_escape_append(a.drop_first(), b);
    }
}

proof fn lemma_escape_push(s: Seq<char>, c: char)
    ensures
        escape(s.push(c)) == escape(s) + escape_char(c),
{
    lemma_escape_append(s, seq![c]);
    assert(s.push(c) =~= s + seq![c]);
    let one = seq![c];
    assert(one.drop_first() =~= Seq::<char>::empty());
    assert(escape(one.drop_first()) == Seq::<char>::empty());
    assert(escape(one) =~= escape_char(c));
}

pub proof fn lemma_unescape_escape(s: Seq<char>)
    ensures
        unescape(escape(s)) == s,
    decreases s.len(),
{
    if s.len() > 0 {
        let c = s[0];
        let rest = escape(s.drop_first());
        lemma_unescape_escape(s.drop_first());
        let e = escape(s);
        if is_special(c) {
            assert(e =~= seq!['\\', c] + rest);
            assert(e.subrange(2, e.len() as int) =~= rest);
        } else {
            assert(e =~= seq![c] + rest);
            assert(e.drop_first() =~= rest);
        }
        assert(s =~= seq![c] + s.drop_first());
    }
}

/// Decoding an encoded argument gives the argument back, for every string.
pub proof fn lemma_round_trip(s: Seq<char>)
    ensures
        decode_spec(encode_spec(s)) == s,
{
    if is_bare(s) {
        if is_quoted(s) {
            assert(needs_quote(s[0]));
        }
    } else {
        let t = encode_spec(s);
        assert(t.subrange(1, t.len() - 1) =~= escape(s));
        lemma_unescape_escape(s);
    }
}

/// Relies on `String::push`: the character is appended at the end.
pub assume_specification[ String::push ](s: &mut String, c: char)
    ensures
        final(s)@ == old(s)@.push(c),
;

fn char_needs_quote(c: char) -> (r: bool)
    ensures
        r == needs_quote(c),
{
    c == ' ' || c == '\t' || c == '\n' || c == '\r' || c == '\x0b' || c == '\x0c' || c == '"'
        || c == '\\'
}

/// Whether `s` can be sent without quotes.
pub fn arg_is_bare(s: &str) -> (r: bool)
    ensures
        r == is_bare(s@),
{
    let n = s.unicode_len();
    if n == 0 {
        return false;
    }
    let mut i: usize = 0;
    while i < n
        invariant
            n == s@.len(),
            i <= n,
            forall|j: int| 0 <= j < i ==> !needs_quote(#[trigger] s@[j]),
        decreases n - i,
    {
        if char_needs_quote(s.get_char(i)) {
            return false;
        }
        i = i + 1;
    }
    true
}

/// Appends `s` to `out` as one argument: bare where it can be, else quoted and escaped.
pub fn push_arg(out: &mut String, s: &str)
    ensures
        final(out)@ == old(out)@ + encode_spec(s@),
{
    if arg_is_bare(s) {
        out.append(s);
        return;
    }
    let ghost start = out@;
    let n = s.unicode_len();
    out.push('"');
    let mut i: usize = 0;
    while i < n
        invariant
            n == s@.len(),
            i <= n,
            out@ == start + seq!['"'] + escape(s@.subrange(0, i as int)),
        decreases n - i,
    {
        let c = s.get_char(i);
        proof {
            assert(s@.subrange(0, i + 1) =~= s@.subrange(0, i as int).push(c));
            lemma_escape_push(s@.subrange(0, i as int), c);
        }
        if c == '"' || c == '\\' {
            out.push('\\');
        }
        out.push(c);
        i = i + 1;
    }
    out.push('"');
    assert(s@.subrange(0, n as int) =~= s@);
    assert(out@ =~= start + encode_spec(s@));
}

/// An argument as it stands on a command line.
pub fn encode(s: &str) -> (r: String)
    ensures
        r@ == encode_spec(s@),
{
    let mut out = String::new();
    push_arg(&mut out, s);
    assert(out@ =~= encode_spec(s@));
    out
}

/// Reads back a value: one wrapped in double quotes loses them and its escapes, any
/// other is returned as it is.
pub fn decode(t: &str) -> (r: String)
    ensures
        r@ == decode_spec(t@),
{
    let n = t.unicode_len();
    if !(n >= 2 && t.get_char(0) == '"' && t.get_char(n - 1) == '"') {
        return t.to_owned();
    }
    let ghost inner = t@.subrange(1, n - 1);
    let end = n - 1;
    let mut out = String::new();
    let mut i: usize = 1;
    while i < end
        invariant
            n == t@.len(),
            end == n - 1,
            1 <= i <= end,
            inner == t@.subrange(1, end as int),
            unescape(inner) == out@ + unescape(t@.subrange(i as int, end as int)),
        decreases end - i,
    {
        let ghost rest = t@.subrange(i as int, end as int);
        let c = t.get_char(i);
        if c == '\\' && i + 1 < end {
            let d = t.get_char(i + 1);
            proof {
                assert(rest.subrange(2, rest.len() as int) =~= t@.subrange(i + 2, end as int));
            }
            out.push(d);
            i = i + 2;
        } else {
            proof {
                assert(rest.drop_first() =~= t@.subrange(i + 1, end as int));
            }
            out.push(c);
            i = i + 1;
        }
    }
    proof {
        assert(t@.subrange(i as int, end as int).len() == 0);
        assert(out@ + Seq::<char>::empty() =~= out@);
    }
    out
}

} // verus!
