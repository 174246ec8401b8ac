//! The protocol state of one connection, kept apart from the transport: lines that
//! arrive are handed to `receive_line`, and the text to write collects in an output
//! buffer that the owner of the transport drains with `take_output`.
use vstd::prelude::*;

use crate::command::{command_line, strings_view, write_command, Command};
use crate::error::{ErrorModel, MpdError, MpdResult};
use crate::response::{ok_text, parse_greeting, parse_greeting_spec, parse_reply, parse_reply_spec, AckError, AckModel, Reply, ReplyModel};

verus! {

#[derive(Clone, Copy, Debug, PartialEq, Eq, Structural)]
pub enum State {
    /// Waiting for the server's greeting.
    Handshaking,
    /// No command in flight.
    Ready,
    /// One command sent, its reply not yet ended.
    InFlight,
    /// A command list sent, its reply not yet ended.
    ListInFlight,
    /// `idle` sent, waiting for a change.
    IdleBlocked,
    /// `noidle` sent while idle, waiting for the reply.
    Cancelling,
    /// Closed by the owner or by a broken reply.
    Closed,
}

/// What one reply line meant.
#[derive(Clone, Debug)]
pub enum Event {
    /// A `key: value` pair of the current reply.
    Pair(String, String),
    /// One member of a command list succeeded.
    MemberOk,
    /// The reply ended in success.
    Done,
    /// The reply ended in an error that the server reported.
    Failed(AckError),
    /// A subsystem reported changed during an idle wait.
    Changed(String),
    /// The idle wait ended, with the subsystems that changed, each once.
    Idle(Vec<String>),
}

pub enum EventModel {
    Pair(Seq<char>, Seq<char>),
    MemberOk,
    Done,
    Failed(AckModel),
    Changed(Seq<char>),
    Idle(Seq<Seq<char>>),
}

impl View for Event {
    type V = EventModel;

    open spec fn view(&self) -> EventModel {
        match self {
            Event::Pair(k, v) => EventModel::Pair(k@, v@),
            Event::MemberOk => EventModel::MemberOk,
            Event::Done => EventModel::Done,
            Event::Failed(a) => EventModel::Failed(a@),
            Event::Changed(s) => EventModel::Changed(s@),
            Event::Idle(v) => EventModel::Idle(strings_view(v@)),
        }
    }
}

/// The abstract state of a connection.
pub struct ConnView {
    pub state: State,
    /// The version that the greeting announced.
    pub version: Seq<char>,
    /// Text queued for the transport.
    pub out: Seq<char>,
    /// The subsystems reported so far in the current idle wait.
    pub changes: Seq<Seq<char>>,
    /// Requests written: commands, command lists and idle waits.
    pub sent: nat,
    /// Requests whose reply has ended.
    pub answered: nat,
}

pub open spec fn is_busy(s: State) -> bool {
    s == State::InFlight || s == State::ListInFlight || s == State::IdleBlocked || s
        == State::Cancelling
}

pub open spec fn is_idle(s: State) -> bool {
    s == State::IdleBlocked || s == State::Cancelling
}

pub open spec fn newline() -> Seq<char> {
    seq!['\n']
}

pub open spec fn changed_key() -> Seq<char> {
    seq!['c', 'h', 'a', 'n', 'g', 'e', 'd']
}

pub open spec fn noidle_line() -> Seq<char> {
    seq!['n', 'o', 'i', 'd', 'l', 'e', '\n']
}

pub open spec fn idle_verb() -> Seq<char> {
    seq!['i', 'd', 'l', 'e']
}

pub open spec fn password_verb() -> Seq<char> {
    seq!['p', 'a', 's', 's', 'w', 'o', 'r', 'd']
}

pub open spec fn list_begin_line() -> Seq<char> {
    seq![
        'c', 'o', 'm', 'm', 'a', 'n', 'd', '_', 'l', 'i', 's', 't', '_', 'o', 'k', '_', 'b', 'e',
        'g', 'i', 'n', '\n',
    ]
}

pub open spec fn list_end_line() -> Seq<char> {
    seq!['c', 'o', 'm', 'm', 'a', 'n', 'd', '_', 'l', 'i', 's', 't', '_', 'e', 'n', 'd', '\n']
}

/// The lines of each command, each with its newline.
pub open spec fn lines_text(cmds: Seq<Command>) -> Seq<char>
    decreases cmds.len(),
{
    if cmds.len() == 0 {
        Seq::empty()
    } else {
        lines_text(cmds.drop_last()) + cmds.last().line() + newline()
    }
}

/// The envelope that sends several commands as one request.
pub open spec fn list_text(cmds: Seq<Command>) -> Seq<char> {
    list_begin_line() + lines_text(cmds) + list_end_line()
}

/// What holds of every reachable connection.
pub open spec fn conn_inv(v: ConnView) -> bool {
    &&& (v.state == State::Handshaking ==> v.sent == 0 && v.answered == 0)
    &&& (v.state == State::Ready ==> v.answered == v.sent)
    &&& (is_busy(v.state) ==> v.answered + 1 == v.sent)
    &&& v.answered <= v.sent
    &&& (!is_idle(v.state) ==> v.changes.len() == 0)
    &&& v.changes.no_duplicates()
}

/// Writing a request: only from `Ready`; otherwise nothing changes and nothing is
/// written.
pub open spec fn start_spec(v: ConnView, text: Seq<char>, next: State) -> (
    ConnView,
    Result<(), ErrorModel>,
) {
    if v.state == State::Ready {
        (ConnView { state: next, out: v.out + text, sent: v.sent + 1, ..v }, Ok(()))
    } else {
        (v, Err(ErrorModel::State))
    }
}

/// A reply ended: the connection is ready for the next request.
pub open spec fn finish(v: ConnView) -> ConnView {
    ConnView { state: State::Ready, changes: Seq::empty(), answered: v.answered + 1, ..v }
}

/// A broken reply closes the connection.
pub open spec fn poison(v: ConnView) -> ConnView {
    ConnView { state: State::Closed, changes: Seq::empty(), ..v }
}

pub open spec fn add_change(cs: Seq<Seq<char>>, x: Seq<char>) -> Seq<Seq<char>> {
    if cs.contains(x) {
        cs
    } else {
        cs.push(x)
    }
}

/// What one line from the server does.
pub open spec fn recv_spec(v: ConnView, l: Seq<char>) -> (ConnView, Result<EventModel, ErrorModel>) {
    if !is_busy(v.state) {
        (v, Err(ErrorModel::State))
    } else {
        match parse_reply_spec(l) {
            None => (poison(v), Err(ErrorModel::Protocol)),
            Some(ReplyModel::Success) => (
                finish(v),
                Ok(
                    if is_idle(v.state) {
                        EventModel::Idle(v.changes)
                    } else {
                        EventModel::Done
                    },
                ),
            ),
            Some(ReplyModel::Ack(a)) => (finish(v), Ok(EventModel::Failed(a))),
            Some(ReplyModel::ListOk) => if v.state == State::ListInFlight {
                (v, Ok(EventModel::MemberOk))
            } else {
                (poison(v), Err(ErrorModel::Protocol))
            },
            Some(ReplyModel::Pair(k, x)) => if !is_idle(v.state) {
                (v, Ok(EventModel::Pair(k, x)))
            } else if k == changed_key() {
                (ConnView { changes: add_change(v.changes, x), ..v }, Ok(EventModel::Changed(x)))
            } else {
                (poison(v), Err(ErrorModel::Protocol))
            },
        }
    }
}

/// What `noidle` does: from an idle wait it is written and the wait is being
/// cancelled; a second request while cancelling writes nothing more.
pub open spec fn noidle_spec(v: ConnView) -> (ConnView, Result<(), ErrorModel>) {
    if v.state == State::IdleBlocked {
        (ConnView { state: State::Cancelling, out: v.out + noidle_line(), ..v }, Ok(()))
    } else if v.state == State::Cancelling {
        (v, Ok(()))
    } else {
        (v, Err(ErrorModel::State))
    }
}

/// What the greeting line does.
pub open spec fn handshake_spec(v: ConnView, l: Seq<char>) -> (ConnView, Result<(), ErrorModel>) {
    if v.state != State::Handshaking {
        (v, Err(ErrorModel::State))
    } else {
        match parse_greeting_spec(l) {
            Some(ver) => (ConnView { state: State::Ready, version: ver, ..v }, Ok(())),
            None => (ConnView { state: State::Closed, ..v }, Err(ErrorModel::Handshake)),
        }
    }
}

pub open spec fn unit_view(r: MpdResult<()>) -> Result<(), ErrorModel> {
    match r {
        Ok(_) => Ok(()),
        Err(e) => Err(e@),
    }
}

pub open spec fn event_view(r: MpdResult<Event>) -> Result<EventModel, ErrorModel> {
    match r {
        Ok(e) => Ok(e@),
        Err(e) => Err(e@),
    }
}

/// One connection to the server, as far as the protocol goes.
pub struct Connection {
    state: State,
    version: String,
    out: String,
    changes: Vec<String>,
    sent: Ghost<nat>,
    answered: Ghost<nat>,
}

impl View for Connection {
    type V = ConnView;

    closed spec fn view(&self) -> ConnView {
        ConnView {
            state: self.state,
            version: self.version@,
            out: self.out@,
            changes: strings_view(self.changes@),
            sent: self.sent@,
            answered: self.answered@,
        }
    }
}

fn string_eq(a: &String, b: &String) -> (r: bool)
    ensures
        r == (a@ == b@),
{
    a.eq(b)
}

impl Connection {
    /// A connection that waits for the server's greeting.
    pub fn new() -> (r: Connection)
        ensures
            r@.state == State::Handshaking,
            r@.out.len() == 0,
            r@.changes.len() == 0,
            r@.sent == 0,
            r@.answered == 0,
            conn_inv(r@),
    {
        Connection {
            state: State::Handshaking,
            version: String::new(),
            out: String::new(),
            changes: Vec::new(),
            sent: Ghost(0),
            answered: Ghost(0),
        }
    }

    pub fn state(&self) -> (r: State)
        ensures
            r == self@.state,
    {
        self.state
    }

    /// The version that the greeting announced.
    pub fn version(&self) -> (r: &String)
        ensures
            r@ == self@.version,
    {
        &self.version
    }

    /// Hands over the text queued for the transport, leaving none.
    pub fn take_output(&mut self) -> (r: String)
        ensures
            r@ == old(self)@.out,
            final(self)@ == (ConnView { out: Seq::empty(), ..old(self)@ }),
    {
        let mut r = String::new();
        core::mem::swap(&mut r, &mut self.out);
        assert(self@ =~= (ConnView { out: Seq::empty(), ..old(self)@ }));
        r
    }

    /// Reads the greeting `OK MPD <version>`; any other first line closes the
    /// connection with a handshake error.
    pub fn handshake(&mut self, line: &str) -> (r: MpdResult<()>)
        requires
            conn_inv(old(self)@),
        ensures
            (final(self)@, unit_view(r)) == handshake_spec(old(self)@, line@),
            conn_inv(final(self)@),
    {
        if self.state != State::Handshaking {
            return Err(MpdError::State);
        }
        match parse_greeting(line) {
            Some(v) => {
                self.version = v;
                self.state = State::Ready;
                Ok(())
            },
            None => {
                self.state = State::Closed;
                Err(MpdError::Handshake)
            },
        }
    }

    /// Queues `text` as a new request, where the connection is ready for one.
    fn start(&mut self, text: &String, next: State) -> (r: MpdResult<()>)
        requires
            conn_inv(old(self)@),
            is_busy(next),
        ensures
            (final(self)@, unit_view(r)) == start_spec(old(self)@, text@, next),
    {
        if self.state != State::Ready {
            return Err(MpdError::State);
        }
        self.out.append(text.as_str());
        self.state = next;
        self.sent = Ghost(self.sent@ + 1);
        Ok(())
    }

    /// Sends one command. Only a ready connection takes it: otherwise the result is a
    /// state error and nothing is written.
    pub fn send(&mut self, cmd: &Command) -> (r: MpdResult<()>)
        requires
            conn_inv(old(self)@),
        ensures
            (final(self)@, unit_view(r)) == start_spec(
                old(self)@,
                cmd.line() + newline(),
                State::InFlight,
            ),
            conn_inv(final(self)@),
    {
        self.send_command_as(cmd, State::InFlight)
    }

    /// Sends several commands as one request, each member's success marked by
    /// `list_OK`; the reply stops at the first member that fails.
    pub fn send_list(&mut self, cmds: &Vec<Command>) -> (r: MpdResult<()>)
        requires
            conn_inv(old(self)@),
        ensures
            (final(self)@, unit_view(r)) == start_spec(
                old(self)@,
                list_text(cmds@),
                State::ListInFlight,
            ),
            conn_inv(final(self)@),
    {
        let mut text = String::new();
        proof {
            reveal_strlit("command_list_ok_begin\n");
            reveal_strlit("command_list_end\n");
        }
        text.append("command_list_ok_begin\n");
        let mut i: usize = 0;
        while i < cmds.len()
            invariant
                i <= cmds@.len(),
                text@ == list_begin_line() + lines_text(cmds@.take(i as int)),
            decreases cmds@.len() - i,
        {
            proof {
                let t = cmds@.take(i + 1);
                assert(t.drop_last() =~= cmds@.take(i as int));
            }
            cmds[i].write_line(&mut text);
            text.push('\n');
            i = i + 1;
        }
        assert(cmds@.take(i as int) =~= cmds@);
        text.append("command_list_end\n");
        assert(text@ =~= list_text(cmds@));
        self.start(&text, State::ListInFlight)
    }

    /// Starts an idle wait, for the given subsystems or, with none, for all.
    pub fn idle(&mut self, subsystems: &Vec<String>) -> (r: MpdResult<()>)
        requires
            conn_inv(old(self)@),
        ensures
            (final(self)@, unit_view(r)) == start_spec(
                old(self)@,
                command_line(idle_verb(), strings_view(subsystems@)) + newline(),
                State::IdleBlocked,
            ),
            conn_inv(final(self)@),
    {
        let mut text = String::new();
        write_command(&mut text, "idle", subsystems);
        text.push('\n');
        proof {
            reveal_strlit("idle");
            assert("idle"@ =~= idle_verb());
            assert(text@ =~= command_line(idle_verb(), strings_view(subsystems@)) + newline());
        }
        self.start(&text, State::IdleBlocked)
    }

    fn send_command_as(&mut self, cmd: &Command, next: State) -> (r: MpdResult<()>)
        requires
            conn_inv(old(self)@),
            is_busy(next),
        ensures
            (final(self)@, unit_view(r)) == start_spec(old(self)@, cmd.line() + newline(), next),
            conn_inv(final(self)@),
    {
        let mut text = cmd.to_line();
        text.push('\n');
        assert(text@ =~= cmd.line() + newline());
        self.start(&text, next)
    }

    /// Sends the password, before any other command.
    pub fn authenticate(&mut self, password: &str) -> (r: MpdResult<()>)
        requires
            conn_inv(old(self)@),
        ensures
            (final(self)@, unit_view(r)) == start_spec(
                old(self)@,
                command_line(password_verb(), seq![password@]) + newline(),
                State::InFlight,
            ),
            conn_inv(final(self)@),
    {
        let cmd = Command::new("password").arg(password);
        proof {
            reveal_strlit("password");
            assert(cmd.verb@ =~= password_verb());
            assert(strings_view(cmd.args@) =~= seq![password@]);
        }
        self.send_command_as(&cmd, State::InFlight)
    }

    /// Cancels an idle wait. A change already reported is still delivered by the
    /// reply that follows.
    pub fn noidle(&mut self) -> (r: MpdResult<()>)
        requires
            conn_inv(old(self)@),
        ensures
            (final(self)@, unit_view(r)) == noidle_spec(old(self)@),
            conn_inv(final(self)@),
    {
        if self.state == State::IdleBlocked {
            proof {
                reveal_strlit("noidle\n");
                assert("noidle\n"@ =~= noidle_line());
            }
            self.out.append("noidle\n");
            self.state = State::Cancelling;
            Ok(())
        } else if self.state == State::Cancelling {
            Ok(())
        } else {
            Err(MpdError::State)
        }
    }

    /// Closes the connection; closing twice is the same as once.
    pub fn close(&mut self)
        requires
            conn_inv(old(self)@),
        ensures
            final(self)@ == (ConnView { state: State::Closed, changes: Seq::empty(), ..old(self)@ }),
            conn_inv(final(self)@),
    {
        self.state = State::Closed;
        self.changes = Vec::new();
        assert(strings_view(self.changes@) =~= Seq::<Seq<char>>::empty());
    }

    fn poison(&mut self)
        ensures
            final(self)@ == poison(old(self)@),
    {
        self.state = State::Closed;
        self.changes = Vec::new();
        assert(strings_view(self.changes@) =~= Seq::<Seq<char>>::empty());
    }

    fn finish(&mut self) -> (r: Vec<String>)
        ensures
            final(self)@ == finish(old(self)@),
            strings_view(r@) == old(self)@.changes,
    {
        let mut r = Vec::new();
        core::mem::swap(&mut r, &mut self.changes);
        self.state = State::Ready;
        self.answered = Ghost(self.answered@ + 1);
        assert(strings_view(self.changes@) =~= Seq::<Seq<char>>::empty());
        r
    }

    fn note_change(&mut self, x: &String)
        requires
            old(self)@.changes.no_duplicates(),
        ensures
            final(self)@ == (ConnView { changes: add_change(old(self)@.changes, x@), ..old(self)@ }),
            final(self)@.changes.no_duplicates(),
    {
        let ghost cs = self@.changes;
        let mut i: usize = 0;
        while i < self.changes.len()
            invariant
                cs == strings_view(self.changes@),
                cs == old(self)@.changes,
                self@ == old(self)@,
                cs.no_duplicates(),
                i <= self.changes@.len(),
                forall|j: int| 0 <= j < i ==> cs[j] != x@,
            decreases self.changes@.len() - i,
        {
            if string_eq(&self.changes[i], x) {
                assert(cs[i as int] == x@);
                assert(cs.contains(x@));
                return;
            }
            i = i + 1;
        }
        assert(!cs.contains(x@));
        self.changes.push(x.clone());
        assert(strings_view(self.changes@) =~= cs.push(x@));
    }

    /// Takes one line from the server, while a reply is expected.
    pub fn receive_line(&mut self, line: &str) -> (r: MpdResult<Event>)
        requires
            conn_inv(old(self)@),
        ensures
            (final(self)@, event_view(r)) == recv_spec(old(self)@, line@),
            conn_inv(final(self)@),
    {
        let busy = self.state == State::InFlight || self.state == State::ListInFlight
            || self.state == State::IdleBlocked || self.state == State::Cancelling;
        if !busy {
            return Err(MpdError::State);
        }
        let idle = self.state == State::IdleBlocked || self.state == State::Cancelling;
        match parse_reply(line) {
            None => {
                self.poison();
                Err(MpdError::Protocol)
            },
            Some(Reply::Success) => {
                let cs = self.finish();
                if idle {
                    Ok(Event::Idle(cs))
                } else {
                    Ok(Event::Done)
                }
            },
            Some(Reply::Ack(a)) => {
                self.finish();
                Ok(Event::Failed(a))
            },
            Some(Reply::ListOk) => {
                if self.state == State::ListInFlight {
                    Ok(Event::MemberOk)
                } else {
                    self.poison();
                    Err(MpdError::Protocol)
                }
            },
            Some(Reply::Pair(k, x)) => {
                if !idle {
                    Ok(Event::Pair(k, x))
                } else {
                    proof {
                        reveal_strlit("changed");
                    }
                    let key = String::from_str("changed");
                    assert(key@ =~= changed_key());
                    if string_eq(&k, &key) {
                        self.note_change(&x);
                        Ok(Event::Changed(x))
                    } else {
                        self.poison();
                        Err(MpdError::Protocol)
                    }
                }
            },
        }
    }
}

/// Every step keeps the connection's invariant.
pub proof fn lemma_steps_keep_inv(v: ConnView, l: Seq<char>, t: Seq<char>, next: State)
    requires
        conn_inv(v),
        is_busy(next),
    ensures
        conn_inv(recv_spec(v, l).0),
        conn_inv(start_spec(v, t, next).0),
        conn_inv(noidle_spec(v).0),
        conn_inv(handshake_spec(v, l).0),
{
}

/// Replies come back in the order the requests went out, one for one: a request can be
/// written only once every earlier one is answered, and the reply that ends answers
/// the request written last.
pub proof fn lemma_replies_in_order(v: ConnView, l: Seq<char>, t: Seq<char>, next: State)
    requires
        conn_inv(v),
        is_busy(next),
    ensures
        start_spec(v, t, next).1 is Ok ==> v.answered == v.sent && start_spec(v, t, next).0.sent
            == v.sent + 1,
        is_busy(v.state) && recv_spec(v, l).0.state == State::Ready ==> recv_spec(v, l).0.answered
            == v.sent && recv_spec(v, l).0.sent == v.sent,
        recv_spec(v, l).0.state != State::Ready ==> recv_spec(v, l).0.answered == v.answered,
{
}

/// While a reply is still being read, a second request is refused with a state error
/// and nothing more is written.
pub proof fn lemma_second_request_refused(
    v: ConnView,
    first: Seq<char>,
    second: Seq<char>,
    a: State,
    b: State,
)
    requires
        conn_inv(v),
        is_busy(a),
    ensures
        ({
            let w = start_spec(v, first, a).0;
            start_spec(w, second, b) == (w, Err::<(), ErrorModel>(ErrorModel::State))
        }),
{
}

/// Entering an idle wait and cancelling it at once, with nothing changed on the
/// server, gives an empty set of changes and a ready connection.
pub proof fn lemma_idle_then_noidle(v: ConnView, subsystems: Seq<Seq<char>>)
    requires
        conn_inv(v),
        v.state == State::Ready,
    ensures
        ({
            let text = command_line(idle_verb(), subsystems) + newline();
            let w1 = start_spec(v, text, State::IdleBlocked).0;
            let w2 = noidle_spec(w1).0;
            let (w3, r) = recv_spec(w2, ok_text());
            &&& r == Ok::<EventModel, ErrorModel>(EventModel::Idle(Seq::empty()))
            &&& w3.state == State::Ready
            &&& w3.out == v.out + text + noidle_line()
            &&& w3.answered == w3.sent
        }),
{
    let text = command_line(idle_verb(), subsystems) + newline();
    let w2 = noidle_spec(start_spec(v, text, State::IdleBlocked).0).0;
    assert(v.changes =~= Seq::<Seq<char>>::empty());
    assert(w2.changes == v.changes);
    assert(parse_reply_spec(ok_text()) == Some(ReplyModel::Success));
}

/// In a command list, the first member that fails ends the reply: no later member is
/// reported, and the connection takes new requests.
pub proof fn lemma_list_stops_at_failure(v: ConnView, l: Seq<char>, later: Seq<char>)
    requires
        conn_inv(v),
        v.state == State::ListInFlight,
        parse_reply_spec(l) matches Some(ReplyModel::Ack(_)),
    ensures
        ({
            let (w, r) = recv_spec(v, l);
            &&& r matches Ok(EventModel::Failed(a)) && parse_reply_spec(l) == Some(
                ReplyModel::Ack(a),
            )
            &&& w.state == State::Ready
            &&& recv_spec(w, later) == (w, Err::<EventModel, ErrorModel>(ErrorModel::State))
        }),
{
}

/// A line that breaks the grammar is a protocol error and closes the connection: what
/// follows is refused with a state error and writes nothing.
pub proof fn lemma_malformed_poisons(
    v: ConnView,
    l: Seq<char>,
    later: Seq<char>,
    t: Seq<char>,
    next: State,
)
    requires
        conn_inv(v),
        is_busy(v.state),
        parse_reply_spec(l) is None,
    ensures
        ({
            let (w, r) = recv_spec(v, l);
            &&& r == Err::<EventModel, ErrorModel>(ErrorModel::Protocol)
            &&& w.state == State::Closed
            &&& start_spec(w, t, next) == (w, Err::<(), ErrorModel>(ErrorModel::State))
            &&& recv_spec(w, later) == (w, Err::<EventModel, ErrorModel>(ErrorModel::State))
            &&& noidle_spec(w) == (w, Err::<(), ErrorModel>(ErrorModel::State))
        }),
{
}

/// A first line that is not a greeting fails with a handshake error, and no command
/// can be sent before a greeting nor after such a failure.
pub proof fn lemma_handshake_required(v: ConnView, l: Seq<char>, t: Seq<char>, next: State)
    requires
        conn_inv(v),
        v.state == State::Handshaking,
    ensures
        start_spec(v, t, next) == (v, Err::<(), ErrorModel>(ErrorModel::State)),
        parse_greeting_spec(l) is None ==> ({
            let (w, r) = handshake_spec(v, l);
            &&& r == Err::<(), ErrorModel>(ErrorModel::Handshake)
            &&& w.state == State::Closed
            &&& start_spec(w, t, next) == (w, Err::<(), ErrorModel>(ErrorModel::State))
        }),
{
}

/// The connection after a run of lines, with what each line gave.
pub open spec fn recv_all(v: ConnView, lines: Seq<Seq<char>>) -> (
    ConnView,
    Seq<Result<EventModel, ErrorModel>>,
)
    decreases lines.len(),
{
    if lines.len() == 0 {
        (v, Seq::empty())
    } else {
        let (w, rs) = recv_all(v, lines.drop_last());
        let (w2, r) = recv_spec(w, lines.last());
        (w2, rs.push(r))
    }
}

/// Requests written one after another, each followed by the lines of its reply: the
/// connection at the end, and for each request what the lines of its reply gave.
pub open spec fn session(v: ConnView, reqs: Seq<(Seq<char>, Seq<Seq<char>>)>) -> (
    ConnView,
    Seq<Seq<Result<EventModel, ErrorModel>>>,
)
    decreases reqs.len(),
{
    if reqs.len() == 0 {
        (v, Seq::empty())
    } else {
        let (w, rs) = session(v, reqs.drop_last());
        let (w2, r) = recv_all(start_spec(w, reqs.last().0, State::InFlight).0, reqs.last().1);
        (w2, rs.push(r))
    }
}

pub open spec fn is_pair_line(l: Seq<char>) -> bool {
    parse_reply_spec(l) matches Some(ReplyModel::Pair(_, _))
}

pub open spec fn is_end_line(l: Seq<char>) -> bool {
    match parse_reply_spec(l) {
        Some(ReplyModel::Success) => true,
        Some(ReplyModel::Ack(_)) => true,
        _ => false,
    }
}

/// The lines of one well-formed reply: pairs, then `OK` or an `ACK` line.
pub open spec fn is_reply(lines: Seq<Seq<char>>) -> bool {
    &&& lines.len() >= 1
    &&& forall|j: int| 0 <= j < lines.len() - 1 ==> is_pair_line(#[trigger] lines[j])
    &&& is_end_line(lines.last())
}

/// What the last line of a reply makes of the command: success on `OK`, the server's
/// error on `ACK`.
pub open spec fn outcome_of(l: Seq<char>) -> Result<EventModel, ErrorModel> {
    match parse_reply_spec(l) {
        Some(ReplyModel::Ack(a)) => Ok(EventModel::Failed(a)),
        _ => Ok(EventModel::Done),
    }
}

proof fn lemma_pairs_keep_state(v: ConnView, lines: Seq<Seq<char>>)
    requires
        conn_inv(v),
        v.state == State::InFlight,
        forall|j: int| 0 <= j < lines.len() ==> is_pair_line(#[trigger] lines[j]),
    ensures
        recv_all(v, lines).0 == v,
        recv_all(v, lines).1.len() == lines.len(),
    decreases lines.len(),
{
    if lines.len() > 0 {
        let t = lines.drop_last();
        assert forall|j: int| 0 <= j < t.len() implies is_pair_line(#[trigger] t[j]) by {
            assert(t[j] == lines[j]);
        }
        lemma_pairs_keep_state(v, t);
        assert(is_pair_line(lines[lines.len() - 1]));
    }
}

proof fn lemma_one_exchange(v: ConnView, t: Seq<char>, lines: Seq<Seq<char>>)
    requires
        conn_inv(v),
        v.state == State::Ready,
        is_reply(lines),
    ensures
        ({
            let (w, r) = recv_all(start_spec(v, t, State::InFlight).0, lines);
            &&& conn_inv(w)
            &&& w.state == State::Ready
            &&& w.sent == v.sent + 1
            &&& w.answered == w.sent
            &&& r.len() == lines.len()
            &&& r.last() == outcome_of(lines.last())
        }),
{
    let w0 = start_spec(v, t, State::InFlight).0;
    let body = lines.drop_last();
    assert forall|j: int| 0 <= j < body.len() implies is_pair_line(#[trigger] body[j]) by {
        assert(body[j] == lines[j]);
    }
    lemma_pairs_keep_state(w0, body);
}

/// Replies come back one for one, in the order of the commands: when commands are sent
/// one after another on a ready connection and each gets a well-formed reply, the
/// result of the i-th command is decided by the last line of the i-th reply alone
/// (success on `OK`, the server's error on `ACK`), no reply is skipped or counted
/// twice, and the connection ends ready with every request answered.
pub proof fn lemma_replies_one_for_one(v: ConnView, reqs: Seq<(Seq<char>, Seq<Seq<char>>)>)
    requires
        conn_inv(v),
        v.state == State::Ready,
        forall|i: int| 0 <= i < reqs.len() ==> is_reply(#[trigger] reqs[i].1),
    ensures
        ({
            let (w, rs) = session(v, reqs);
            &&& conn_inv(w)
            &&& w.state == State::Ready
            &&& w.sent == v.sent + reqs.len()
            &&& w.answered == w.sent
            &&& rs.len() == reqs.len()
            &&& forall|i: int| 0 <= i < reqs.len() ==> (#[trigger] rs[i]).len() == reqs[i].1.len()
                && rs[i].last() == outcome_of(reqs[i].1.last())
        }),
    decreases reqs.len(),
{
    if reqs.len() > 0 {
        let init = reqs.drop_last();
        assert forall|i: int| 0 <= i < init.len() implies is_reply(#[trigger] init[i].1) by {
            assert(init[i] == reqs[i]);
        }
        lemma_replies_one_for_one(v, init);
        let (w, rs) = session(v, init);
        assert(is_reply(reqs[reqs.len() - 1].1));
        lemma_one_exchange(w, reqs.last().0, reqs.last().1);
        let (w2, rs2) = session(v, reqs);
        assert forall|i: int| 0 <= i < reqs.len() implies (#[trigger] rs2[i]).len() == reqs[i].1.len()
            && rs2[i].last() == outcome_of(reqs[i].1.last()) by {
            if i < init.len() {
                assert(rs2[i] == rs[i]);
                assert(init[i] == reqs[i]);
            }
        }
    }
}

} // verus!
