//! The lines of a reply: key/value pairs and the markers that end a reply.
use vstd::prelude::*;

verus! {

/// An error that the server reported in an `ACK` line.
#[derive(Clone, Debug)]
pub struct AckError {
    pub code: u32,
    /// Position of the failing command inside a command list.
    pub index: u32,
    pub command: String,
    pub message: String,
}

/// The parts of an `ACK` line.
pub struct AckModel {
    pub code: int,
    pub index: int,
    pub command: Seq<char>,
    pub message: Seq<char>,
}

impl View for AckError {
    type V = AckModel;

    open spec fn view(&self) -> AckModel {
        AckModel {
            code: self.code as int,
            index: self.index as int,
            command: self.command@,
            message: self.message@,
        }
    }
}

/// One line of a reply.
#[derive(Clone, Debug)]
pub enum Reply {
    /// A `key: value` line.
    Pair(String, String),
    /// `OK`: the reply ended in success.
    Success,
    /// `list_OK`: one member of a command list succeeded.
    ListOk,
    /// `ACK ...`: the reply ended in an error.
    Ack(AckError),
}

pub enum ReplyModel {
    Pair(Seq<char>, Seq<char>),
    Success,
    ListOk,
    Ack(AckModel),
}

impl View for Reply {
    type V = ReplyModel;

    open spec fn view(&self) -> ReplyModel {
        match self {
            Reply::Pair(k, v) => ReplyModel::Pair(k@, v@),
            Reply::Success => ReplyModel::Success,
            Reply::ListOk => ReplyModel::ListOk,
            Reply::Ack(e) => ReplyModel::Ack(e@),
        }
    }
}

pub open spec fn ok_text() -> Seq<char> {
    seq!['O', 'K']
}

pub open spec fn list_ok_text() -> Seq<char> {
    seq!['l', 'i', 's', 't', '_', 'O', 'K']
}

pub open spec fn ack_prefix() -> Seq<char> {
    seq!['A', 'C', 'K', ' ']
}

/// The greeting's fixed start, `OK MPD `.
pub open spec fn greeting_prefix() -> Seq<char> {
    seq!['O', 'K', ' ', 'M', 'P', 'D', ' ']
}

pub open spec fn has_prefix(s: Seq<char>, p: Seq<char>) -> bool {
    p.len() <= s.len() && s.subrange(0, p.len() as int) == p
}

/// The first position at or after `i` that holds `c`, or the length where none does.
pub open spec fn find_char(s: Seq<char>, c: char, i: int) -> int
    decreases s.len() - i,
{
    if i < 0 || i >= s.len() {
        s.len() as int
    } else if s[i] == c {
        i
    } else {
        find_char(s, c, i + 1)
    }
}

pub open spec fn is_digit(c: char) -> bool {
    '0' <= c && c <= '9'
}

pub open spec fn all_digits(s: Seq<char>) -> bool {
    forall|i: int| 0 <= i < s.len() ==> is_digit(#[trigger] s[i])
}

/// Decimal digits whose value fits in a `u32`.
pub open spec fn is_number(s: Seq<char>) -> bool {
    1 <= s.len() && all_digits(s) && digits_value(s) <= u32::MAX
}

pub open spec fn digits_value(s: Seq<char>) -> int
    decreases s.len(),
{
    if s.len() == 0 {
        0
    } else {
        digits_value(s.drop_last()) * 10 + (s.last() as int - '0' as int)
    }
}

/// The parts of `ACK [<code>@<index>] {<command>} <message>`, where the line has
/// that form.
pub open spec fn parse_ack_spec(l: Seq<char>) -> Option<AckModel> {
    let at = find_char(l, '@', 5);
    let rb = find_char(l, ']', at + 1);
    let cb = find_char(l, '}', rb + 3);
    if has_prefix(l, ack_prefix()) && l.len() > 4 && l[4] == '[' && at < l.len() && rb
        < l.len() && is_number(l.subrange(5, at)) && is_number(l.subrange(at + 1, rb)) && rb
        + 2 < l.len() && l[rb + 1] == ' ' && l[rb + 2] == '{' && cb + 1 < l.len() && l[cb + 1]
        == ' ' {
        Some(
            AckModel {
                code: digits_value(l.subrange(5, at)),
                index: digits_value(l.subrange(at + 1, rb)),
                command: l.subrange(rb + 3, cb),
                message: l.subrange(cb + 2, l.len() as int),
            },
        )
    } else {
        None
    }
}

/// Split at the first `:`, which a space must follow.
pub open spec fn parse_pair_spec(l: Seq<char>) -> Option<(Seq<char>, Seq<char>)> {
    let k = find_char(l, ':', 0);
    if k + 1 < l.len() && l[k + 1] == ' ' {
        Some((l.subrange(0, k), l.subrange(k + 2, l.len() as int)))
    } else {
        None
    }
}

/// What a reply line means; `None` where it breaks the grammar.
pub open spec fn parse_reply_spec(l: Seq<char>) -> Option<ReplyModel> {
    if l == ok_text() {
        Some(ReplyModel::Success)
    } else if l == list_ok_text() {
        Some(ReplyModel::ListOk)
    } else if has_prefix(l, ack_prefix()) {
        match parse_ack_spec(l) {
            Some(a) => Some(ReplyModel::Ack(a)),
            None => None,
        }
    } else {
        match parse_pair_spec(l) {
            Some(p) => Some(ReplyModel::Pair(p.0, p.1)),
            None => None,
        }
    }
}

/// The version in a greeting `OK MPD <version>`, where the line is one.
pub open spec fn parse_greeting_spec(l: Seq<char>) -> Option<Seq<char>> {
    if has_prefix(l, greeting_prefix()) && l.len() > greeting_prefix().len() {
        Some(l.subrange(greeting_prefix().len() as int, l.len() as int))
    } else {
        None
    }
}

proof fn lemma_digits_nonneg(s: Seq<char>)
    requires
        all_digits(s),
    ensures
        digits_value(s) >= 0,
    decreases s.len(),
{
    if s.len() > 0 {
        assert(is_digit(s[s.len() - 1]));
        lemma_digits_nonneg(s.drop_last());
    }
}

/// A number is at least as large as any of its leading parts.
proof fn lemma_digits_prefix(s: Seq<char>, k: int)
    requires
        all_digits(s),
        0 <= k <= s.len(),
    ensures
        digits_value(s.take(k)) <= digits_value(s),
    decreases s.len(),
{
    if k == s.len() {
        assert(s.take(k) =~= s);
    } else {
        let t = s.drop_last();
        assert(t.take(k) =~= s.take(k));
        assert(is_digit(s[s.len() - 1]));
        lemma_digits_prefix(t, k);
        lemma_digits_nonneg(t);
    }
}

/// Whether `s` holds `p` at position `at`.
fn matches_at(s: &str, n: usize, at: usize, p: &str) -> (r: bool)
    requires
        n == s@.len(),
    ensures
        r == (at + p@.len() <= n && s@.subrange(at as int, at + p@.len()) == p@),
{
    let m = p.unicode_len();
    if at > n || m > n - at {
        return false;
    }
    let mut i: usize = 0;
    while i < m
        invariant
            m == p@.len(),
            at + m <= n,
            n == s@.len(),
            i <= m,
            forall|j: int| 0 <= j < i ==> s@[at + j] == p@[j],
        decreases m - i,
    {
        if s.get_char(at + i) != p.get_char(i) {
            assert(s@.subrange(at as int, at + m)[i as int] != p@[i as int]);
            return false;
        }
        i = i + 1;
    }
    assert(s@.subrange(at as int, at + m) =~= p@);
    true
}

/// The first position at or after `from` that holds `c`, or `n` where none does.
fn find(s: &str, n: usize, c: char, from: usize) -> (r: usize)
    requires
        n == s@.len(),
    ensures
        r == find_char(s@, c, from as int),
        r <= n,
        from <= r || r == n,
{
    if from >= n {
        return n;
    }
    let mut i = from;
    while i < n
        invariant
            n == s@.len(),
            from <= i <= n,
            find_char(s@, c, from as int) == find_char(s@, c, i as int),
        decreases n - i,
    {
        if s.get_char(i) == c {
            return i;
        }
        i = i + 1;
    }
    i
}

/// The value of the digits between `a` and `b`, where they form a number.
fn parse_number(s: &str, n: usize, a: usize, b: usize) -> (r: Option<u32>)
    requires
        n == s@.len(),
        a <= b <= n,
    ensures
        r is Some <==> is_number(s@.subrange(a as int, b as int)),
        r matches Some(v) ==> v == digits_value(s@.subrange(a as int, b as int)),
{
    let ghost d = s@.subrange(a as int, b as int);
    if b == a {
        return None;
    }
    let mut v: u64 = 0;
    let mut i = a;
    while i < b
        invariant
            n == s@.len(),
            a <= i <= b <= n,
            d == s@.subrange(a as int, b as int),
            forall|j: int| 0 <= j < i - a ==> is_digit(#[trigger] d[j]),
            v == digits_value(d.take(i - a)),
            v <= u32::MAX,
        decreases b - i,
    {
        let c = s.get_char(i);
        if !('0' <= c && c <= '9') {
            assert(!is_digit(d[i - a]));
            return None;
        }
        let digit = (c as u32 - '0' as u32) as u64;
        proof {
            let next = d.take(i + 1 - a);
            assert(next.drop_last() =~= d.take(i - a));
            assert(next.last() == c);
        }
        v = v * 10 + digit;
        i = i + 1;
        if v > 0xffff_ffff {
            proof {
                if all_digits(d) {
                    lemma_digits_prefix(d, i - a);
                }
            }
            return None;
        }
    }
    assert(d.take(b - a) =~= d);
    Some(v as u32)
}

/// Parses an `ACK` line; `None` where it does not have the form.
fn parse_ack(l: &str, n: usize) -> (r: Option<AckError>)
    requires
        n == l@.len(),
    ensures
        match parse_ack_spec(l@) {
            Some(m) => r matches Some(e) && e@ == m,
            None => r is None,
        },
{
    if !(matches_at(l, n, 0, "ACK [")) {
        proof {
            reveal_strlit("ACK [");
            if has_prefix(l@, ack_prefix()) && l@.len() > 4 && l@[4] == '[' {
                assert(l@.subrange(0, 5) =~= "ACK ["@);
            }
        }
        return None;
    }
    proof {
        reveal_strlit("ACK [");
        assert(l@.subrange(0, 4) =~= ack_prefix());
        assert(l@[4] == l@.subrange(0, 5)[4]);
    }
    let at = find(l, n, '@', 5);
    if at >= n {
        return None;
    }
    let rb = find(l, n, ']', at + 1);
    if rb >= n {
        return None;
    }
    let code = match parse_number(l, n, 5, at) {
        Some(v) => v,
        None => return None,
    };
    let index = match parse_number(l, n, at + 1, rb) {
        Some(v) => v,
        None => return None,
    };
    if !(n - rb > 2 && l.get_char(rb + 1) == ' ' && l.get_char(rb + 2) == '{') {
        return None;
    }
    let cb = find(l, n, '}', rb + 3);
    if !(cb < n && cb + 1 < n && l.get_char(cb + 1) == ' ') {
        return None;
    }
    let command = l.substring_char(rb + 3, cb).to_owned();
    let message = l.substring_char(cb + 2, n).to_owned();
    Some(AckError { code, index, command, message })
}

/// Parses one line of a reply. A line that breaks the grammar is a protocol error.
pub fn parse_reply(line: &str) -> (r: Option<Reply>)
    ensures
        match parse_reply_spec(line@) {
            Some(m) => r matches Some(x) && x@ == m,
            None => r is None,
        },
{
    proof {
        reveal_strlit("OK");
        reveal_strlit("list_OK");
        reveal_strlit("ACK ");
    }
    let n = line.unicode_len();
    if n == 2 && matches_at(line, n, 0, "OK") {
        assert(line@ =~= ok_text()) by {
            assert(line@.subrange(0, 2) =~= line@);
        }
        return Some(Reply::Success);
    }
    if n == 7 && matches_at(line, n, 0, "list_OK") {
        assert(line@ =~= list_ok_text()) by {
            assert(line@.subrange(0, 7) =~= line@);
        }
        return Some(Reply::ListOk);
    }
    proof {
        if line@ == ok_text() {
            assert(line@.subrange(0, 2) =~= "OK"@);
        }
        if line@ == list_ok_text() {
            assert(line@.subrange(0, 7) =~= "list_OK"@);
        }
    }
    if matches_at(line, n, 0, "ACK ") {
        assert(line@.subrange(0, 4) =~= ack_prefix());
        return match parse_ack(line, n) {
            Some(e) => Some(Reply::Ack(e)),
            None => None,
        };
    }
    proof {
        if has_prefix(line@, ack_prefix()) {
            assert(line@.subrange(0, 4) =~= "ACK "@);
        }
    }
    let k = find(line, n, ':', 0);
    if !(k < n && k + 1 < n && line.get_char(k + 1) == ' ') {
        return None;
    }
    let key = line.substring_char(0, k).to_owned();
    let value = line.substring_char(k + 2, n).to_owned();
    Some(Reply::Pair(key, value))
}

/// The version that a greeting line announces, where the line is a greeting.
pub fn parse_greeting(line: &str) -> (r: Option<String>)
    ensures
        match parse_greeting_spec(line@) {
            Some(v) => r matches Some(s) && s@ == v,
            None => r is None,
        },
{
    proof {
        reveal_strlit("OK MPD ");
    }
    let n = line.unicode_len();
    if n > 7 && matches_at(line, n, 0, "OK MPD ") {
        assert(line@.subrange(0, 7) =~= greeting_prefix());
        Some(line.substring_char(7, n).to_owned())
    } else {
        proof {
            if has_prefix(line@, greeting_prefix()) {
                assert(line@.subrange(0, 7) =~= "OK MPD "@);
            }
        }
        None
    }
}

} // verus!
