//! The subsystems that an idle wait reports as changed.
use vstd::prelude::*;

use crate::playlists::str_eq;

verus! {

#[derive(Clone, Copy, Debug, PartialEq, Eq, Structural)]
pub enum Subsystem {
    Database,
    Update,
    StoredPlaylist,
    Playlist,
    Player,
    Mixer,
    Output,
    Options,
    Partition,
    Sticker,
    Subscription,
    Message,
    Neighbor,
    Mount,
}

/// The name by which the server reports a subsystem.
pub open spec fn subsystem_name(s: Subsystem) -> Seq<char> {
    match s {
        Subsystem::Database => seq!['d', 'a', 't', 'a', 'b', 'a', 's', 'e'],
        Subsystem::Update => seq!['u', 'p', 'd', 'a', 't', 'e'],
        Subsystem::StoredPlaylist => seq!['s', 't', 'o', 'r', 'e', 'd', '_', 'p', 'l', 'a', 'y', 'l', 'i', 's', 't'],
        Subsystem::Playlist => seq!['p', 'l', 'a', 'y', 'l', 'i', 's', 't'],
        Subsystem::Player => seq!['p', 'l', 'a', 'y', 'e', 'r'],
        Subsystem::Mixer => seq!['m', 'i', 'x', 'e', 'r'],
        Subsystem::Output => seq!['o', 'u', 't', 'p', 'u', 't'],
        Subsystem::Options => seq!['o', 'p', 't', 'i', 'o', 'n', 's'],
        Subsystem::Partition => seq!['p', 'a', 'r', 't', 'i', 't', 'i', 'o', 'n'],
        Subsystem::Sticker => seq!['s', 't', 'i', 'c', 'k', 'e', 'r'],
        Subsystem::Subscription => seq!['s', 'u', 'b', 's', 'c', 'r', 'i', 'p', 't', 'i', 'o', 'n'],
        Subsystem::Message => seq!['m', 'e', 's', 's', 'a', 'g', 'e'],
        Subsystem::Neighbor => seq!['n', 'e', 'i', 'g', 'h', 'b', 'o', 'r'],
        Subsystem::Mount => seq!['m', 'o', 'u', 'n', 't'],
    }
}

impl Subsystem {
    /// The subsystem with the given name, where there is one.
    pub fn from_name(name: &str) -> (r: Option<Subsystem>)
        ensures
            r matches Some(s) ==> subsystem_name(s) == name@,
            r is None ==> forall|s: Subsystem| subsystem_name(s) != name@,
    {
        proof {
            reveal_strlit("database");
            reveal_strlit("update");
            reveal_strlit("stored_playlist");
            reveal_strlit("playlist");
            reveal_strlit("player");
            reveal_strlit("mixer");
            reveal_strlit("output");
            reveal_strlit("options");
            reveal_strlit("partition");
            reveal_strlit("sticker");
            reveal_strlit("subscription");
            reveal_strlit("message");
            reveal_strlit("neighbor");
            reveal_strlit("mount");
        }
        if str_eq(name, "database") {
            assert(name@ =~= subsystem_name(Subsystem::Database));
            return Some(Subsystem::Database);
        }
        if str_eq(name, "update") {
            assert(name@ =~= subsystem_name(Subsystem::Update));
            return Some(Subsystem::Update);
        }
        if str_eq(name, "stored_playlist") {
            assert(name@ =~= subsystem_name(Subsystem::StoredPlaylist));
            return Some(Subsystem::StoredPlaylist);
        }
        if str_eq(name, "playlist") {
            assert(name@ =~= subsystem_name(Subsystem::Playlist));
            return Some(Subsystem::Playlist);
        }
        if str_eq(name, "player") {
            assert(name@ =~= subsystem_name(Subsystem::Player));
            return Some(Subsystem::Player);
        }
        if str_eq(name, "mixer") {
            assert(name@ =~= subsystem_name(Subsystem::Mixer));
            return Some(Subsystem::Mixer);
        }
        if str_eq(name, "output") {
            assert(name@ =~= subsystem_name(Subsystem::Output));
            return Some(Subsystem::Output);
        }
        if str_eq(name, "options") {
            assert(name@ =~= subsystem_name(Subsystem::Options));
            return Some(Subsystem::Options);
        }
        if str_eq(name, "partition") {
            assert(name@ =~= subsystem_name(Subsystem::Partition));
            return Some(Subsystem::Partition);
        }
        if str_eq(name, "sticker") {
            assert(name@ =~= subsystem_name(Subsystem::Sticker));
            return Some(Subsystem::Sticker);
        }
        if str_eq(name, "subscription") {
            assert(name@ =~= subsystem_name(Subsystem::Subscription));
            return Some(Subsystem::Subscription);
        }
        if str_eq(name, "message") {
            assert(name@ =~= subsystem_name(Subsystem::Message));
            return Some(Subsystem::Message);
        }
        if str_eq(name, "neighbor") {
            assert(name@ =~= subsystem_name(Subsystem::Neighbor));
            return Some(Subsystem::Neighbor);
        }
        if str_eq(name, "mount") {
            assert(name@ =~= subsystem_name(Subsystem::Mount));
            return Some(Subsystem::Mount);
        }
        proof {
            assert forall|s: Subsystem| subsystem_name(s) != name@ by {
                match s {
                    Subsystem::Database => {
                        if subsystem_name(s) == name@ {
                            assert(name@ =~= "database"@);
                        }
                    },
                    Subsystem::Update => {
                        if subsystem_name(s) == name@ {
                            assert(name@ =~= "update"@);
                        }
                    },
                    Subsystem::StoredPlaylist => {
                        if subsystem_name(s) == name@ {
                            assert(name@ =~= "stored_playlist"@);
                        }
                    },
                    Subsystem::Playlist => {
                        if subsystem_name(s) == name@ {
                            assert(name@ =~= "playlist"@);
                        }
                    },
                    Subsystem::Player => {
                        if subsystem_name(s) == name@ {
                            assert(name@ =~= "player"@);
                        }
                    },
                    Subsystem::Mixer => {
                        if subsystem_name(s) == name@ {
                            assert(name@ =~= "mixer"@);
                        }
                    },
                    Subsystem::Output => {
                        if subsystem_name(s) == name@ {
                            assert(name@ =~= "output"@);
                        }
                    },
                    Subsystem::Options => {
                        if subsystem_name(s) == name@ {
                            assert(name@ =~= "options"@);
                        }
                    },
                    Subsystem::Partition => {
                        if subsystem_name(s) == name@ {
                            assert(name@ =~= "partition"@);
                        }
                    },
                    Subsystem::Sticker => {
                        if subsystem_name(s) == name@ {
                            assert(name@ =~= "sticker"@);
                        }
                    },
                    Subsystem::Subscription => {
                        if subsystem_name(s) == name@ {
                            assert(name@ =~= "subscription"@);
                        }
                    },
                    Subsystem::Message => {
                        if subsystem_name(s) == name@ {
                            assert(name@ =~= "message"@);
                        }
                    },
                    Subsystem::Neighbor => {
                        if subsystem_name(s) == name@ {
                            assert(name@ =~= "neighbor"@);
                        }
                    },
                    Subsystem::Mount => {
                        if subsystem_name(s) == name@ {
                            assert(name@ =~= "mount"@);
                        }
                    },
                }
            }
        }
        None
    }

    /// The name by which the server reports the subsystem.
    pub fn name(&self) -> (r: &'static str)
        ensures
            r@ == subsystem_name(*self),
    {
        proof {
            reveal_strlit("database");
            reveal_strlit("update");
            reveal_strlit("stored_playlist");
            reveal_strlit("playlist");
            reveal_strlit("player");
            reveal_strlit("mixer");
            reveal_strlit("output");
            reveal_strlit("options");
            reveal_strlit("partition");
            reveal_strlit("sticker");
            reveal_strlit("subscription");
            reveal_strlit("message");
            reveal_strlit("neighbor");
            reveal_strlit("mount");
        }
        match self {
            Subsystem::Database => {
                let r = "database";
                assert(r@ =~= subsystem_name(*self));
                r
            },
            Subsystem::Update => {
                let r = "update";
                assert(r@ =~= subsystem_name(*self));
                r
            },
            Subsystem::StoredPlaylist => {
                let r = "stored_playlist";
                assert(r@ =~= subsystem_name(*self));
                r
            },
            Subsystem::Playlist => {
                let r = "playlist";
                assert(r@ =~= subsystem_name(*self));
                r
            },
            Subsystem::Player => {
                let r = "player";
                assert(r@ =~= subsystem_name(*self));
                r
            },
            Subsystem::Mixer => {
                let r = "mixer";
                assert(r@ =~= subsystem_name(*self));
                r
            },
            Subsystem::Output => {
                let r = "output";
                assert(r@ =~= subsystem_name(*self));
                r
            },
            Subsystem::Options => {
                let r = "options";
                assert(r@ =~= subsystem_name(*self));
                r
            },
            Subsystem::Partition => {
                let r = "partition";
                assert(r@ =~= subsystem_name(*self));
                r
            },
            Subsystem::Sticker => {
                let r = "sticker";
                assert(r@ =~= subsystem_name(*self));
                r
            },
            Subsystem::Subscription => {
                let r = "subscription";
                assert(r@ =~= subsystem_name(*self));
                r
            },
            Subsystem::Message => {
                let r = "message";
                assert(r@ =~= subsystem_name(*self));
                r
            },
            Subsystem::Neighbor => {
                let r = "neighbor";
                assert(r@ =~= subsystem_name(*self));
                r
            },
            Subsystem::Mount => {
                let r = "mount";
                assert(r@ =~= subsystem_name(*self));
                r
            },
        }
    }
}

} // verus!
