//! Stored playlists: records read from a `listplaylists` reply, and the commands that
//! act on one playlist.
use vstd::prelude::*;

use crate::command::{command_line, decimal_spec, strings_view, Command};
use crate::connection::{conn_inv, newline, start_spec, unit_view, Connection, State};
use crate::error::MpdResult;
use crate::timestamp::{iso_seconds, parse_iso_seconds};

verus! {

pub open spec fn playlist_key() -> Seq<char> {
    seq!['p', 'l', 'a', 'y', 'l', 'i', 's', 't']
}

pub open spec fn last_modified_key() -> Seq<char> {
    seq!['L', 'a', 's', 't', '-', 'M', 'o', 'd', 'i', 'f', 'i', 'e', 'd']
}

/// The time a `Last-Modified` value stands for; zero where it does not parse.
pub open spec fn last_mod_of(value: Seq<char>) -> i64 {
    match iso_seconds(value) {
        Some(t) => t as i64,
        None => 0,
    }
}

/// A stored playlist: its path and when it was last changed, in seconds since 1970
/// (zero where the server gave no time).
#[derive(Clone, Debug)]
pub struct MpdPlaylist {
    path: String,
    last_mod: i64,
}

pub struct PlaylistModel {
    pub path: Seq<char>,
    pub last_mod: i64,
}

impl View for MpdPlaylist {
    type V = PlaylistModel;

    closed spec fn view(&self) -> PlaylistModel {
        PlaylistModel { path: self.path@, last_mod: self.last_mod }
    }
}

/// The playlists after one more pair of a `listplaylists` reply: `playlist` starts a
/// new record, `Last-Modified` dates the current one, any other key is passed over.
pub open spec fn accept_spec(ps: Seq<PlaylistModel>, key: Seq<char>, value: Seq<char>) -> Seq<
    PlaylistModel,
> {
    if key == playlist_key() {
        ps.push(PlaylistModel { path: value, last_mod: 0 })
    } else if key == last_modified_key() && ps.len() > 0 {
        ps.update(
            ps.len() - 1,
            PlaylistModel { path: ps.last().path, last_mod: last_mod_of(value) },
        )
    } else {
        ps
    }
}

/// The playlists of a `listplaylists` reply, gathered pair by pair.
pub struct MpdPlaylists {
    items: Vec<MpdPlaylist>,
}

impl View for MpdPlaylists {
    type V = Seq<PlaylistModel>;

    closed spec fn view(&self) -> Seq<PlaylistModel> {
        self.items@.map_values(|p: MpdPlaylist| p@)
    }
}

/// Sends `verb` with `args` as one command.
fn send_command(conn: &mut Connection, verb: &str, args: Vec<String>) -> (r: MpdResult<()>)
    requires
        conn_inv(old(conn)@),
    ensures
        (final(conn)@, unit_view(r)) == start_spec(
            old(conn)@,
            command_line(verb@, strings_view(args@)) + newline(),
            State::InFlight,
        ),
        conn_inv(final(conn)@),
{
    let cmd = Command { verb: verb.to_owned(), args };
    conn.send(&cmd)
}

impl MpdPlaylists {
    /// Asks for the stored playlists; the pairs of the reply go to `accept`.
    pub fn from_conn(conn: &mut Connection) -> (r: MpdResult<MpdPlaylists>)
        requires
            conn_inv(old(conn)@),
        ensures
            final(conn)@ == start_spec(
                old(conn)@,
                command_line("listplaylists"@, Seq::empty()) + newline(),
                State::InFlight,
            ).0,
            r is Ok <==> old(conn)@.state == State::Ready,
            r matches Ok(p) ==> p@.len() == 0,
            r matches Err(e) ==> e is State,
            conn_inv(final(conn)@),
    {
        let args: Vec<String> = Vec::new();
        assert(strings_view(args@) =~= Seq::<Seq<char>>::empty());
        let res = send_command(conn, "listplaylists", args);
        match res {
            Ok(()) => {
                let p = MpdPlaylists { items: Vec::new() };
                assert(p@ =~= Seq::<PlaylistModel>::empty());
                Ok(p)
            },
            Err(e) => Err(e),
        }
    }

    /// No playlists yet.
    pub fn new() -> (r: MpdPlaylists)
        ensures
            r@.len() == 0,
    {
        let p = MpdPlaylists { items: Vec::new() };
        assert(p@ =~= Seq::<PlaylistModel>::empty());
        p
    }

    /// Takes one pair of the reply.
    pub fn accept(&mut self, key: &str, value: &str)
        ensures
            final(self)@ == accept_spec(old(self)@, key@, value@),
    {
        proof {
            reveal_strlit("playlist");
            reveal_strlit("Last-Modified");
        }
        let ghost ps = self@;
        if str_eq(key, "playlist") {
            assert(key@ == playlist_key());
            self.items.push(MpdPlaylist { path: value.to_owned(), last_mod: 0 });
            assert(self@ =~= ps.push(PlaylistModel { path: value@, last_mod: 0 }));
        } else if str_eq(key, "Last-Modified") && self.items.len() > 0 {
            assert(key@ == last_modified_key()) by {
                assert(key@ =~= last_modified_key());
            }
            assert(key@ != playlist_key());
            let t = match parse_iso_seconds(value) {
                Some(t) => t,
                None => 0,
            };
            let last = self.items.len() - 1;
            let path = self.items[last].path.clone();
            self.items.set(last, MpdPlaylist { path, last_mod: t });
            assert(self@ =~= ps.update(
                ps.len() - 1,
                PlaylistModel { path: ps.last().path, last_mod: last_mod_of(value@) },
            ));
        } else {
            proof {
                if key@ == playlist_key() {
                    assert(key@ =~= "playlist"@);
                }
                if key@ == last_modified_key() {
                    assert(key@ =~= "Last-Modified"@);
                }
            }
        }
    }

    /// The playlists gathered so far.
    pub fn items(&self) -> (r: &Vec<MpdPlaylist>)
        ensures
            r@.map_values(|p: MpdPlaylist| p@) == self@,
    {
        &self.items
    }
}

/// Whether two strings hold the same characters.
pub(crate) fn str_eq(a: &str, b: &str) -> (r: bool)
    ensures
        r == (a@ == b@),
{
    let n = a.unicode_len();
    if n != b.unicode_len() {
        return false;
    }
    let mut i: usize = 0;
    while i < n
        invariant
            n == a@.len(),
            n == b@.len(),
            i <= n,
            forall|j: int| 0 <= j < i ==> a@[j] == b@[j],
        decreases n - i,
    {
        if a.get_char(i) != b.get_char(i) {
            return false;
        }
        i = i + 1;
    }
    assert(a@ =~= b@);
    true
}

impl MpdPlaylist {
    /// A playlist with the given path and time.
    pub fn new(path: &str, last_mod: i64) -> (r: MpdPlaylist)
        ensures
            r@.path == path@,
            r@.last_mod == last_mod,
    {
        MpdPlaylist { path: path.to_owned(), last_mod }
    }

    pub fn path(&self) -> (r: String)
        ensures
            r@ == self@.path,
    {
        self.path.clone()
    }

    /// When the playlist last changed, in seconds since 1970.
    pub fn last_mod(&self) -> (r: i64)
        ensures
            r == self@.last_mod,
    {
        self.last_mod
    }

    /// The command that asks for the songs of the playlist; it can be sent alone or in a
    /// command list.
    pub fn iter_command(&self) -> (r: Command)
        ensures
            r.line() == command_line("listplaylist"@, seq![self@.path]),
    {
        let cmd = Command::new("listplaylist").arg(self.path.as_str());
        proof {
            reveal_strlit("listplaylist");
            assert(strings_view(cmd.args@) =~= seq![self@.path]);
        }
        cmd
    }

    /// Asks for the songs of the playlist.
    pub fn iter(&self, conn: &mut Connection) -> (r: MpdResult<()>)
        requires
            conn_inv(old(conn)@),
        ensures
            (final(conn)@, unit_view(r)) == start_spec(
                old(conn)@,
                command_line("listplaylist"@, seq![self@.path]) + newline(),
                State::InFlight,
            ),
            conn_inv(final(conn)@),
    {
        let cmd = self.iter_command();
        conn.send(&cmd)
    }

    /// The command that adds a song, by its URI, at the end of the playlist; it can be sent alone or in a
    /// command list.
    pub fn push_command(&self, song: &str) -> (r: Command)
        ensures
            r.line() == command_line("playlistadd"@, seq![self@.path, song@]),
    {
        let cmd = Command::new("playlistadd").arg(self.path.as_str()).arg(song);
        proof {
            reveal_strlit("playlistadd");
            assert(strings_view(cmd.args@) =~= seq![self@.path, song@]);
        }
        cmd
    }

    /// Adds a song, by its URI, at the end of the playlist.
    pub fn push(&mut self, conn: &mut Connection, song: &str) -> (r: MpdResult<()>)
        requires
            conn_inv(old(conn)@),
        ensures
            (final(conn)@, unit_view(r)) == start_spec(
                old(conn)@,
                command_line("playlistadd"@, seq![old(self)@.path, song@]) + newline(),
                State::InFlight,
            ),
            final(self)@ == old(self)@,
            conn_inv(final(conn)@),
    {
        let cmd = self.push_command(song);
        conn.send(&cmd)
    }

    /// The command that removes every song of the playlist; it can be sent alone or in a
    /// command list.
    pub fn clear_command(&self) -> (r: Command)
        ensures
            r.line() == command_line("playlistclear"@, seq![self@.path]),
    {
        let cmd = Command::new("playlistclear").arg(self.path.as_str());
        proof {
            reveal_strlit("playlistclear");
            assert(strings_view(cmd.args@) =~= seq![self@.path]);
        }
        cmd
    }

    /// Removes every song of the playlist.
    pub fn clear(&mut self, conn: &mut Connection) -> (r: MpdResult<()>)
        requires
            conn_inv(old(conn)@),
        ensures
            (final(conn)@, unit_view(r)) == start_spec(
                old(conn)@,
                command_line("playlistclear"@, seq![old(self)@.path]) + newline(),
                State::InFlight,
            ),
            final(self)@ == old(self)@,
            conn_inv(final(conn)@),
    {
        let cmd = self.clear_command();
        conn.send(&cmd)
    }

    /// The command that removes the song at position `pos`; it can be sent alone or in a
    /// command list.
    pub fn remove_command(&self, pos: u32) -> (r: Command)
        ensures
            r.line() == command_line("playlistdelete"@, seq![self@.path, decimal_spec(pos as nat)]),
    {
        let cmd = Command::new("playlistdelete").arg(self.path.as_str()).arg_num(pos as u64);
        proof {
            reveal_strlit("playlistdelete");
            assert(strings_view(cmd.args@) =~= seq![self@.path, decimal_spec(pos as nat)]);
        }
        cmd
    }

    /// Removes the song at position `pos`.
    pub fn remove(&mut self, conn: &mut Connection, pos: u32) -> (r: MpdResult<()>)
        requires
            conn_inv(old(conn)@),
        ensures
            (final(conn)@, unit_view(r)) == start_spec(
                old(conn)@,
                command_line("playlistdelete"@, seq![old(self)@.path, decimal_spec(pos as nat)]) + newline(),
                State::InFlight,
            ),
            final(self)@ == old(self)@,
            conn_inv(final(conn)@),
    {
        let cmd = self.remove_command(pos);
        conn.send(&cmd)
    }

    /// The command that moves the song at position `from` to position `to`; it can be sent alone or in a
    /// command list.
    pub fn move_command(&self, from: u32, to: u32) -> (r: Command)
        ensures
            r.line() == command_line("playlistmove"@, seq![self@.path, decimal_spec(from as nat), decimal_spec(to as nat)]),
    {
        let cmd = Command::new("playlistmove").arg(self.path.as_str()).arg_num(from as u64).arg_num(to as u64);
        proof {
            reveal_strlit("playlistmove");
            assert(strings_view(cmd.args@) =~= seq![self@.path, decimal_spec(from as nat), decimal_spec(to as nat)]);
        }
        cmd
    }

    /// Moves the song at position `from` to position `to`.
    pub fn move_pos(&mut self, conn: &mut Connection, from: u32, to: u32) -> (r: MpdResult<()>)
        requires
            conn_inv(old(conn)@),
        ensures
            (final(conn)@, unit_view(r)) == start_spec(
                old(conn)@,
                command_line("playlistmove"@, seq![old(self)@.path, decimal_spec(from as nat), decimal_spec(to as nat)]) + newline(),
                State::InFlight,
            ),
            final(self)@ == old(self)@,
            conn_inv(final(conn)@),
    {
        let cmd = self.move_command(from, to);
        conn.send(&cmd)
    }

    /// The command that gives the playlist a new name; it can be sent alone or in a
    /// command list.
    pub fn rename_command(&self, name: &str) -> (r: Command)
        ensures
            r.line() == command_line("rename"@, seq![self@.path, name@]),
    {
        let cmd = Command::new("rename").arg(self.path.as_str()).arg(name);
        proof {
            reveal_strlit("rename");
            assert(strings_view(cmd.args@) =~= seq![self@.path, name@]);
        }
        cmd
    }

    /// Gives the playlist a new name.
    pub fn rename(&mut self, conn: &mut Connection, name: &str) -> (r: MpdResult<()>)
        requires
            conn_inv(old(conn)@),
        ensures
            (final(conn)@, unit_view(r)) == start_spec(
                old(conn)@,
                command_line("rename"@, seq![old(self)@.path, name@]) + newline(),
                State::InFlight,
            ),
            final(self)@ == old(self)@,
            conn_inv(final(conn)@),
    {
        let cmd = self.rename_command(name);
        conn.send(&cmd)
    }

    /// The command that deletes the playlist from the server; it can be sent alone or in a
    /// command list.
    pub fn delete_command(&self) -> (r: Command)
        ensures
            r.line() == command_line("rm"@, seq![self@.path]),
    {
        let cmd = Command::new("rm").arg(self.path.as_str());
        proof {
            reveal_strlit("rm");
            assert(strings_view(cmd.args@) =~= seq![self@.path]);
        }
        cmd
    }

    /// Deletes the playlist from the server.
    pub fn delete(self, conn: &mut Connection) -> (r: MpdResult<()>)
        requires
            conn_inv(old(conn)@),
        ensures
            (final(conn)@, unit_view(r)) == start_spec(
                old(conn)@,
                command_line("rm"@, seq![self@.path]) + newline(),
                State::InFlight,
            ),
            conn_inv(final(conn)@),
    {
        let cmd = self.delete_command();
        conn.send(&cmd)
    }

    /// The command that appends the playlist's songs to the queue; it can be sent alone or in a
    /// command list.
    pub fn load_command(&self) -> (r: Command)
        ensures
            r.line() == command_line("load"@, seq![self@.path]),
    {
        let cmd = Command::new("load").arg(self.path.as_str());
        proof {
            reveal_strlit("load");
            assert(strings_view(cmd.args@) =~= seq![self@.path]);
        }
        cmd
    }

    /// Appends the playlist's songs to the queue.
    pub fn load(&self, conn: &mut Connection) -> (r: MpdResult<()>)
        requires
            conn_inv(old(conn)@),
        ensures
            (final(conn)@, unit_view(r)) == start_spec(
                old(conn)@,
                command_line("load"@, seq![self@.path]) + newline(),
                State::InFlight,
            ),
            conn_inv(final(conn)@),
    {
        let cmd = self.load_command();
        conn.send(&cmd)
    }

    /// The command that saves the queue under the playlist's name; it can be sent alone or in a
    /// command list.
    pub fn save_command(&self) -> (r: Command)
        ensures
            r.line() == command_line("save"@, seq![self@.path]),
    {
        let cmd = Command::new("save").arg(self.path.as_str());
        proof {
            reveal_strlit("save");
            assert(strings_view(cmd.args@) =~= seq![self@.path]);
        }
        cmd
    }

    /// Saves the queue under the playlist's name.
    pub fn save(&mut self, conn: &mut Connection) -> (r: MpdResult<()>)
        requires
            conn_inv(old(conn)@),
        ensures
            (final(conn)@, unit_view(r)) == start_spec(
                old(conn)@,
                command_line("save"@, seq![old(self)@.path]) + newline(),
                State::InFlight,
            ),
            final(self)@ == old(self)@,
            conn_inv(final(conn)@),
    {
        let cmd = self.save_command();
        conn.send(&cmd)
    }
}

} // verus!
