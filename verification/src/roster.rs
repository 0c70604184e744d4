//! The players of a battle, as the value tree of a roster packet lists
//! them.

use crate::pickle::{debug_text, trees_of, PickleTree, PickleValue};
use std::collections::HashMap;
use vstd::prelude::*;
use vstd::string::*;

verus! {

broadcast use vstd::std_specs::hash::group_hash_axioms;

/// What a roster tells of one player.
#[derive(Debug)]
pub struct ReceivedPlayer {
    /// The name that the player shows.
    pub username: String,
    /// The tag of the player's clan.
    pub clan: String,
    /// The avatar of the player.
    pub avatarid: i64,
    /// The ship of the player.
    pub shipid: i64,
    /// The number under which chat names the player.
    pub playerid: i64,
    /// The team of the player.
    pub teamid: i64,
    /// The health that the player's ship starts with.
    pub health: i64,
    /// Every property that the roster gives of the player, under its number,
    /// as `{:?}` shows its value.
    pub raw: HashMap<i64, String>,
}

/// The mathematical model of a player.
pub struct PlayerView {
    pub username: Seq<char>,
    pub clan: Seq<char>,
    pub avatarid: i64,
    pub shipid: i64,
    pub playerid: i64,
    pub teamid: i64,
    pub health: i64,
    pub raw: Map<i64, Seq<char>>,
}

/// The texts of a map of strings.
pub open spec fn texts_of(m: Map<i64, String>) -> Map<i64, Seq<char>> {
    Map::new(|k: i64| m.contains_key(k), |k: i64| m[k]@)
}

impl View for ReceivedPlayer {
    type V = PlayerView;

    open spec fn view(&self) -> PlayerView {
        PlayerView {
            username: self.username@,
            clan: self.clan@,
            avatarid: self.avatarid,
            shipid: self.shipid,
            playerid: self.playerid,
            teamid: self.teamid,
            health: self.health,
            raw: texts_of(self.raw@),
        }
    }
}

/// The models of a run of players.
pub open spec fn player_views(players: Seq<ReceivedPlayer>) -> Seq<PlayerView> {
    Seq::new(players.len(), |i: int| players[i]@)
}

/// The properties that the first `n` elements of a player's list give. An
/// element that is a tuple gives a number and a value, and replaces what an
/// earlier one gave under that number; an element that is no tuple gives
/// nothing. There are no properties at all where a tuple does not start with
/// an integer that a value follows.
pub open spec fn properties_upto(elements: Seq<PickleTree>, n: nat) -> Option<
    Map<i64, PickleTree>,
>
    decreases n,
{
    if n == 0 || n > elements.len() {
        Some(Map::empty())
    } else {
        match properties_upto(elements, (n - 1) as nat) {
            None => None,
            Some(m) => match elements[n - 1] {
                PickleTree::Tuple(kv) => if kv.len() >= 2 && kv[0] is Int {
                    Some(m.insert(kv[0]->Int_0, kv[1]))
                } else {
                    None
                },
                _ => Some(m),
            },
        }
    }
}

/// The properties that a player's tree gives: those of its elements where it
/// is a list, none where it is anything else.
pub open spec fn properties_of(player: PickleTree) -> Option<Map<i64, PickleTree>> {
    match player {
        PickleTree::List(elements) => properties_upto(elements, elements.len()),
        _ => Some(Map::empty()),
    }
}

/// Whether the properties hold an integer under a number.
pub open spec fn holds_int(m: Map<i64, PickleTree>, number: i64) -> bool {
    m.contains_key(number) && m[number] is Int
}

/// Whether the properties hold a text under a number.
pub open spec fn holds_text(m: Map<i64, PickleTree>, number: i64) -> bool {
    m.contains_key(number) && m[number] is Text
}

/// Whether the properties are those of a player: name (27) and clan tag (6)
/// as texts; avatar (2), ship (35), player number (12), team (38) and health
/// (26) as integers; and a skin (37) of any kind.
pub open spec fn is_player(m: Map<i64, PickleTree>) -> bool {
    &&& holds_int(m, 2)
    &&& holds_text(m, 27)
    &&& holds_text(m, 6)
    &&& holds_int(m, 35)
    &&& holds_int(m, 12)
    &&& m.contains_key(37)
    &&& holds_int(m, 38)
    &&& holds_int(m, 26)
}

/// Every property as `{:?}` shows its value.
pub open spec fn dump_of(m: Map<i64, PickleTree>) -> Map<i64, Seq<char>> {
    Map::new(|k: i64| m.contains_key(k), |k: i64| debug_text(m[k]))
}

/// The player that properties describe.
pub open spec fn player_with(m: Map<i64, PickleTree>) -> PlayerView {
    PlayerView {
        username: m[27]->Text_0,
        clan: m[6]->Text_0,
        avatarid: m[2]->Int_0,
        shipid: m[35]->Int_0,
        playerid: m[12]->Int_0,
        teamid: m[38]->Int_0,
        health: m[26]->Int_0,
        raw: dump_of(m),
    }
}

/// The player that a tree describes, if it describes one.
pub open spec fn player_of(player: PickleTree) -> Option<PlayerView> {
    match properties_of(player) {
        Some(m) => if is_player(m) {
            Some(player_with(m))
        } else {
            None
        },
        None => None,
    }
}

/// The players that a roster tree lists: one for each item of the list, in
/// its order, if every item describes a player. A tree that is no list
/// lists no players.
pub open spec fn players_of(roster: PickleTree) -> Option<Seq<PlayerView>> {
    match roster {
        PickleTree::List(items) => if forall|i: int|
            0 <= i < items.len() ==> (#[trigger] player_of(items[i])) is Some {
            Some(Seq::new(items.len(), |i: int| player_of(items[i])->Some_0))
        } else {
            None
        },
        _ => Some(Seq::empty()),
    }
}

/// Once the elements of a list give no properties, more of them give none
/// either.
proof fn lemma_no_properties_from(elements: Seq<PickleTree>, n: nat, m: nat)
    requires
        n <= m <= elements.len(),
        properties_upto(elements, n) is None,
    ensures
        properties_upto(elements, m) is None,
    decreases m,
{
    if n < m {
        lemma_no_properties_from(elements, n, (m - 1) as nat);
    }
}

/// The integer that the properties hold under a number.
fn int_property(values: &HashMap<i64, &PickleValue>, number: i64) -> (r: Option<i64>)
    ensures
        match r {
            Some(i) => values@.contains_key(number) && values@[number]@ == PickleTree::Int(i),
            None => !(values@.contains_key(number) && values@[number]@ is Int),
        },
{
    match values.get(&number) {
        Some(v) => v.as_int(),
        None => None,
    }
}

/// The text that the properties hold under a number.
fn text_property(values: &HashMap<i64, &PickleValue>, number: i64) -> (r: Option<String>)
    ensures
        match r {
            Some(t) => values@.contains_key(number) && values@[number]@ == PickleTree::Text(t@),
            None => !(values@.contains_key(number) && values@[number]@ is Text),
        },
{
    match values.get(&number) {
        Some(v) => match v.as_text() {
            Some(t) => Some(t.clone()),
            None => None,
        },
        None => None,
    }
}

impl ReceivedPlayer {
    /// The player that a tree of a roster describes; nothing where it
    /// describes none.
    pub fn from_tree(player: &PickleValue) -> (r: Option<ReceivedPlayer>)
        ensures
            match r {
                Some(p) => player_of(player@) == Some(p@),
                None => player_of(player@) is None,
            },
    {
        let mut values: HashMap<i64, &PickleValue> = HashMap::new();
        let mut raw: HashMap<i64, String> = HashMap::new();
        let ghost mut model: Map<i64, PickleTree> = Map::empty();
        if let Some(elements) = player.as_list() {
            let mut i: usize = 0;
            while i < elements.len()
                invariant
                    i <= elements.len(),
                    player@ == PickleTree::List(trees_of(elements@)),
                    properties_upto(trees_of(elements@), i as nat) == Some(model),
                    forall|k: i64| model.contains_key(k) <==> values@.contains_key(k),
                    forall|k: i64| model.contains_key(k) <==> raw@.contains_key(k),
                    forall|k: i64| model.contains_key(k) ==> values@[k]@ == model[k],
                    forall|k: i64| model.contains_key(k) ==> raw@[k]@ == debug_text(model[k]),
                decreases elements.len() - i,
            {
                if let Some(kv) = elements[i].as_tuple() {
                    if kv.len() < 2 {
                        proof {
                            let trees = trees_of(elements@);
                            assert(properties_upto(trees, (i + 1) as nat) is None);
                            lemma_no_properties_from(trees, (i + 1) as nat, trees.len());
                        }
                        return None;
                    }
                    match kv[0].as_int() {
                        None => {
                            proof {
                                let trees = trees_of(elements@);
                                assert(properties_upto(trees, (i + 1) as nat) is None);
                                lemma_no_properties_from(trees, (i + 1) as nat, trees.len());
                            }
                            return None;
                        },
                        Some(number) => {
                            values.insert(number, &kv[1]);
                            raw.insert(number, kv[1].debug_string());
                            proof {
                                model = model.insert(number, kv[1]@);
                            }
                        },
                    }
                }
                i += 1;
            }
        }
        assert(properties_of(player@) == Some(model));
        let avatarid = int_property(&values, 2);
        let username = text_property(&values, 27);
        let clan = text_property(&values, 6);
        let shipid = int_property(&values, 35);
        let playerid = int_property(&values, 12);
        let skin = values.contains_key(&37);
        let teamid = int_property(&values, 38);
        let health = int_property(&values, 26);
        match (avatarid, username, clan, shipid, playerid, teamid, health) {
            (
                Some(avatarid),
                Some(username),
                Some(clan),
                Some(shipid),
                Some(playerid),
                Some(teamid),
                Some(health),
            ) => {
                if skin {
                    let p = ReceivedPlayer {
                        username,
                        clan,
                        avatarid,
                        shipid,
                        playerid,
                        teamid,
                        health,
                        raw,
                    };
                    assert(p@.raw =~= dump_of(model));
                    Some(p)
                } else {
                    None
                }
            },
            _ => None,
        }
    }

    /// The players that a roster tree lists; nothing where an item of the
    /// list describes no player.
    pub fn all_from_tree(roster: &PickleValue) -> (r: Option<Vec<ReceivedPlayer>>)
        ensures
            match r {
                Some(players) => players_of(roster@) == Some(player_views(players@)),
                None => players_of(roster@) is None,
            },
    {
        let mut out: Vec<ReceivedPlayer> = Vec::new();
        if let Some(items) = roster.as_list() {
            let mut i: usize = 0;
            while i < items.len()
                invariant
                    i <= items.len(),
                    roster@ == PickleTree::List(trees_of(items@)),
                    out@.len() == i,
                    forall|j: int|
                        0 <= j < i ==> player_of(#[trigger] trees_of(items@)[j]) == Some(out@[j]@),
                decreases items.len() - i,
            {
                match ReceivedPlayer::from_tree(&items[i]) {
                    Some(p) => {
                        out.push(p);
                    },
                    None => {
                        assert(player_of(trees_of(items@)[i as int]) is None);
                        return None;
                    },
                }
                i += 1;
            }
            assert(players_of(roster@)->Some_0 =~= player_views(out@));
        } else {
            assert(player_views(out@) =~= Seq::empty());
        }
        Some(out)
    }
}

} // verus!
