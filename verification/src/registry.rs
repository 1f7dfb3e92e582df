//! The media players that are on the bus, and which of them is shown.

use vstd::prelude::*;
use crate::chars::{chars_of, starts_with, texts};

verus! {

/// Bus names in this namespace belong to media players.
pub open spec fn player_namespace() -> Seq<char> {
    "org.mpris.MediaPlayer2."@
}

/// Whether a bus name is that of a media player.
pub open spec fn is_player_name(name: Seq<char>) -> bool {
    player_namespace().is_prefix_of(name)
}

/// The media players among `names`, in the order in which `names` has them.
pub open spec fn players_among(names: Seq<Seq<char>>) -> Seq<Seq<char>>
    decreases names.len(),
{
    if names.len() == 0 {
        names
    } else if is_player_name(names.last()) {
        players_among(names.drop_last()).push(names.last())
    } else {
        players_among(names.drop_last())
    }
}

/// Every name that is kept is a player's, and no player's name is left out.
pub proof fn lemma_players_among(names: Seq<Seq<char>>)
    ensures
        players_among(names).len() <= names.len(),
        forall|i: int|
            0 <= i < players_among(names).len() ==> is_player_name(
                #[trigger] players_among(names)[i],
            ),
        forall|i: int|
            0 <= i < names.len() && is_player_name(#[trigger] names[i]) ==> players_among(
                names,
            ).contains(names[i]),
    decreases names.len(),
{
    if names.len() > 0 {
        let earlier = names.drop_last();
        lemma_players_among(earlier);
        let kept = players_among(names);
        assert forall|i: int| 0 <= i < names.len() && is_player_name(
            #[trigger] names[i],
        ) implies kept.contains(names[i]) by {
            if i < names.len() - 1 {
                assert(earlier[i] == names[i]);
                let j = choose|j: int|
                    0 <= j < players_among(earlier).len() && players_among(earlier)[j] == names[i];
                assert(kept[j] == names[i]);
            } else {
                assert(kept[kept.len() - 1] == names[i]);
            }
        }
    }
}

/// One media player on the bus, known by its bus name.
pub struct PlayerHandle {
    pub name: String,
}

/// The names of a sequence of players.
pub open spec fn handle_names(players: Seq<PlayerHandle>) -> Seq<Seq<char>> {
    players.map_values(|p: PlayerHandle| p.name@)
}

/// The players found at the last refresh, and the index of the one that is
/// shown.
pub struct PlayerRegistry {
    pub players: Vec<PlayerHandle>,
    pub current: usize,
}

/// Whether the bus name `name` is that of a media player.
pub fn is_player(name: &str) -> (r: bool)
    ensures
        r == is_player_name(name@),
{
    let text = chars_of(name);
    let namespace = chars_of("org.mpris.MediaPlayer2.");
    starts_with(&text, &namespace)
}

impl PlayerRegistry {
    /// The index is in range, or it is 0.
    pub open spec fn wf(&self) -> bool {
        self.current == 0 || self.current < self.players.len()
    }

    /// The names of the players, in order.
    pub open spec fn names(&self) -> Seq<Seq<char>> {
        handle_names(self.players@)
    }

    /// The name of the player that is shown, if there is a player.
    pub open spec fn current_name(&self) -> Option<Seq<char>> {
        if self.current < self.players.len() {
            Some(self.players[self.current as int].name@)
        } else {
            None
        }
    }

    /// A registry without players.
    pub fn new() -> (r: Self)
        ensures
            r.wf(),
            r.names() == Seq::<Seq<char>>::empty(),
            r.current == 0,
    {
        let r = PlayerRegistry { players: Vec::new(), current: 0 };
        assert(r.names() =~= Seq::<Seq<char>>::empty());
        r
    }

    /// Replaces the players by those among the bus names `names`, in the
    /// order of `names`. The index of the shown player stays if it is still
    /// in range and falls back to 0 if it is not.
    pub fn refresh(&mut self, names: &Vec<String>)
        ensures
            final(self).wf(),
            final(self).names() == players_among(texts(names@)),
            final(self).current == if old(self).current < final(self).players.len() {
                old(self).current
            } else {
                0
            },
    {
        let mut players: Vec<PlayerHandle> = Vec::new();
        let mut i: usize = 0;
        assert(handle_names(players@) =~= players_among(texts(names@).take(0)));
        while i < names.len()
            invariant
                i <= names.len(),
                handle_names(players@) == players_among(texts(names@).take(i as int)),
            decreases names.len() - i,
        {
            let ghost before = handle_names(players@);
            proof {
                let upto = texts(names@).take(i + 1);
                assert(upto.drop_last() =~= texts(names@).take(i as int));
                assert(upto.last() == names@[i as int]@);
            }
            if is_player(names[i].as_str()) {
                players.push(PlayerHandle { name: names[i].clone() });
                assert(handle_names(players@) =~= before.push(names@[i as int]@));
            }
            i += 1;
        }
        assert(texts(names@).take(names.len() as int) =~= texts(names@));
        if self.current >= players.len() {
            self.current = 0;
        }
        self.players = players;
    }

    /// Whether no player is on the bus.
    pub fn is_empty(&self) -> (r: bool)
        ensures
            r == (self.names().len() == 0),
    {
        self.players.len() == 0
    }

    /// The player that is shown; `None` exactly if the index is out of
    /// range, which in a well-formed registry means that there is no player.
    pub fn current_player(&self) -> (r: Option<&PlayerHandle>)
        ensures
            r is Some == (self.current < self.players.len()),
            r matches Some(p) ==> *p == self.players[self.current as int],
            self.wf() ==> (r is None <==> self.names().len() == 0),
    {
        if self.current < self.players.len() {
            Some(&self.players[self.current])
        } else {
            None
        }
    }

    /// Makes the player at `index` the one that is shown, if there is one.
    pub fn select(&mut self, index: usize) -> (r: bool)
        ensures
            r == (index < old(self).players.len()),
            final(self).players == old(self).players,
            final(self).current == if r {
                index
            } else {
                old(self).current
            },
            old(self).wf() ==> final(self).wf(),
    {
        if index < self.players.len() {
            self.current = index;
            true
        } else {
            false
        }
    }
}

} // verus!
