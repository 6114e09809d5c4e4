//! Handlers for classified log events; each keeps a server's state well formed.
use vstd::prelude::*;
use crate::text::{contains, contains_str, str_eq};
use crate::types::{
    count_ready, distinct_ids, position, position_from, roster, CsctrlDataPlayer, CsctrlDataServer,
    PlayerView,
};

verus! {

#[derive(Clone, Copy, Debug, PartialEq, Eq, Structural)]
pub enum TeamSide {
    Ct,
    Terrorist,
}

/// 1 for a ready player, 0 otherwise.
pub open spec fn ready_bit(p: PlayerView) -> nat {
    if p.is_ready {
        1
    } else {
        0
    }
}

/// The player at `i` with the ready flag set to `b`.
pub open spec fn set_ready(ps: Seq<PlayerView>, i: int, b: bool) -> Seq<PlayerView> {
    ps.update(i, PlayerView { name: ps[i].name, steam3: ps[i].steam3, is_ready: b })
}

/// The readiness a chat line asks for: `.unready` wins over `.ready`.
pub open spec fn say_target(chat: Seq<char>) -> Option<bool> {
    if contains(chat, ".unready"@) {
        Some(false)
    } else if contains(chat, ".ready"@) {
        Some(true)
    } else {
        None
    }
}

/// Where the player with this Steam3 id stands: CT is looked at first.
pub open spec fn team_position(ct: Seq<PlayerView>, t: Seq<PlayerView>, id: Seq<char>) -> Option<(TeamSide, int)> {
    match position(ct, id) {
        Some(i) => Some((TeamSide::Ct, i)),
        None => match position(t, id) {
            Some(i) => Some((TeamSide::Terrorist, i)),
            None => None,
        },
    }
}

/// The CT roster after a chat line from `id`.
pub open spec fn ct_after_say(ct: Seq<PlayerView>, t: Seq<PlayerView>, id: Seq<char>, chat: Seq<char>) -> Seq<PlayerView> {
    match (say_target(chat), team_position(ct, t, id)) {
        (Some(b), Some((TeamSide::Ct, i))) => set_ready(ct, i, b),
        _ => ct,
    }
}

/// The T roster after a chat line from `id`.
pub open spec fn t_after_say(ct: Seq<PlayerView>, t: Seq<PlayerView>, id: Seq<char>, chat: Seq<char>) -> Seq<PlayerView> {
    match (say_target(chat), team_position(ct, t, id)) {
        (Some(b), Some((TeamSide::Terrorist, i))) => set_ready(t, i, b),
        _ => t,
    }
}

/// A roster without the player at the given position, if any.
pub open spec fn without(ps: Seq<PlayerView>, pos: Option<int>) -> Seq<PlayerView> {
    match pos {
        Some(i) => ps.remove(i),
        None => ps,
    }
}

/// The record of a player who just joined a team.
pub open spec fn joined(username: Seq<char>, id: Seq<char>) -> PlayerView {
    PlayerView { name: username, steam3: id, is_ready: false }
}

/// The CT roster once the player with this Steam3 id has left it.
pub open spec fn ct_rest(ct: Seq<PlayerView>, id: Seq<char>) -> Seq<PlayerView> {
    without(ct, position(ct, id))
}

/// The T roster once the player with this Steam3 id has left it; CT is
/// looked at first.
pub open spec fn t_rest(ct: Seq<PlayerView>, t: Seq<PlayerView>, id: Seq<char>) -> Seq<PlayerView> {
    if position(ct, id) is Some {
        t
    } else {
        without(t, position(t, id))
    }
}

/// Whether one more player can still be counted.
pub open spec fn has_room(ct: Seq<PlayerView>, t: Seq<PlayerView>) -> bool {
    ct.len() + t.len() < usize::MAX
}

/// The CT roster after `id` moved to `team_to`.
pub open spec fn ct_after_switch(
    ct: Seq<PlayerView>,
    t: Seq<PlayerView>,
    username: Seq<char>,
    id: Seq<char>,
    team_to: Seq<char>,
) -> Seq<PlayerView> {
    let rest = ct_rest(ct, id);
    if team_to == "CT"@ && has_room(rest, t_rest(ct, t, id)) {
        rest.push(joined(username, id))
    } else {
        rest
    }
}

/// The T roster after `id` moved to `team_to`.
pub open spec fn t_after_switch(
    ct: Seq<PlayerView>,
    t: Seq<PlayerView>,
    username: Seq<char>,
    id: Seq<char>,
    team_to: Seq<char>,
) -> Seq<PlayerView> {
    let rest = t_rest(ct, t, id);
    if team_to == "TERRORIST"@ && has_room(ct_rest(ct, id), rest) {
        rest.push(joined(username, id))
    } else {
        rest
    }
}

proof fn lemma_remove_keeps_distinct(all: Seq<PlayerView>, k: int)
    requires
        distinct_ids(all),
        0 <= k < all.len(),
    ensures
        distinct_ids(all.remove(k)),
        forall|a: int| 0 <= a < all.remove(k).len() ==> #[trigger] all.remove(k)[a].steam3 != all[k].steam3,
{
    let r = all.remove(k);
    assert forall|a: int, b: int| 0 <= a < r.len() && 0 <= b < r.len() && a != b implies r[a].steam3
        != r[b].steam3 by {
        let a2 = if a < k { a } else { a + 1 };
        let b2 = if b < k { b } else { b + 1 };
        assert(r[a] == all[a2]);
        assert(r[b] == all[b2]);
    }
    assert forall|a: int| 0 <= a < r.len() implies #[trigger] r[a].steam3 != all[k].steam3 by {
        let a2 = if a < k { a } else { a + 1 };
        assert(r[a] == all[a2]);
    }
}

proof fn lemma_push_keeps_distinct(ct: Seq<PlayerView>, t: Seq<PlayerView>, q: PlayerView)
    requires
        distinct_ids(ct + t),
        forall|a: int| 0 <= a < (ct + t).len() ==> #[trigger] (ct + t)[a].steam3 != q.steam3,
    ensures
        distinct_ids(ct.push(q) + t),
        distinct_ids(ct + t.push(q)),
{
    assert(ct + t.push(q) =~= (ct + t).push(q));
    let all = ct.push(q) + t;
    assert forall|a: int, b: int| 0 <= a < all.len() && 0 <= b < all.len() && a != b implies all[a].steam3
        != all[b].steam3 by {
        let a2 = if a < ct.len() { a } else if a == ct.len() { -1 } else { a - 1 };
        let b2 = if b < ct.len() { b } else if b == ct.len() { -1 } else { b - 1 };
        if a2 >= 0 {
            assert(all[a] == (ct + t)[a2]);
        }
        if b2 >= 0 {
            assert(all[b] == (ct + t)[b2]);
        }
    }
}

pub proof fn lemma_position(ps: Seq<PlayerView>, id: Seq<char>, from: int)
    requires
        from >= 0,
    ensures
        position_from(ps, id, from) matches Some(i) ==> from <= i < ps.len() && ps[i].steam3 == id,
        position_from(ps, id, from) is None ==> forall|j: int| from <= j < ps.len() ==> ps[j].steam3 != id,
    decreases ps.len() - from,
{
    if from < ps.len() && ps[from].steam3 != id {
        lemma_position(ps, id, from + 1);
    }
}

proof fn lemma_count_bound(ps: Seq<PlayerView>)
    ensures
        count_ready(ps) <= ps.len(),
    decreases ps.len(),
{
    if ps.len() > 0 {
        lemma_count_bound(ps.drop_last());
    }
}

proof fn lemma_count_push(ps: Seq<PlayerView>, q: PlayerView)
    ensures
        count_ready(ps.push(q)) == count_ready(ps) + ready_bit(q),
{
    assert(ps.push(q).drop_last() =~= ps);
}

proof fn lemma_count_update(ps: Seq<PlayerView>, i: int, q: PlayerView)
    requires
        0 <= i < ps.len(),
    ensures
        count_ready(ps.update(i, q)) + ready_bit(ps[i]) == count_ready(ps) + ready_bit(q),
    decreases ps.len(),
{
    if i == ps.len() - 1 {
        assert(ps.update(i, q).drop_last() =~= ps.drop_last());
    } else {
        assert(ps.update(i, q).drop_last() =~= ps.drop_last().update(i, q));
        lemma_count_update(ps.drop_last(), i, q);
    }
}

proof fn lemma_count_remove(ps: Seq<PlayerView>, i: int)
    requires
        0 <= i < ps.len(),
    ensures
        count_ready(ps.remove(i)) + ready_bit(ps[i]) == count_ready(ps),
    decreases ps.len(),
{
    if i == ps.len() - 1 {
        assert(ps.remove(i) =~= ps.drop_last());
    } else {
        assert(ps.remove(i).drop_last() =~= ps.drop_last().remove(i));
        lemma_count_remove(ps.drop_last(), i);
    }
}

/// The position of the player with this Steam3 id among `ps`.
fn position_in(ps: &Vec<CsctrlDataPlayer>, steam_id: &str) -> (r: Option<usize>)
    ensures
        r matches Some(i) ==> position(roster(ps@), steam_id@) == Some(i as int),
        r is None ==> position(roster(ps@), steam_id@) is None,
{
    let ghost rs = roster(ps@);
    let id = steam_id.to_owned();
    let mut i: usize = 0;
    while i < ps.len()
        invariant
            i <= ps@.len(),
            rs == roster(ps@),
            id@ == steam_id@,
            position(rs, id@) == position_from(rs, id@, i as int),
        decreases ps@.len() - i,
    {
        if ps[i].steam3 == id {
            return Some(i);
        }
        i = i + 1;
    }
    None
}

/// Which team holds the player with this Steam3 id, and where; CT is
/// looked at first.
pub fn find_player_index_and_team_with_steamid3(server_data: &CsctrlDataServer, steam_id_3: &str) -> (r: Option<(TeamSide, usize)>)
    ensures
        match r {
            Some((side, i)) => team_position(server_data.team_ct.roster(), server_data.team_t.roster(), steam_id_3@)
                == Some((side, i as int)),
            None => team_position(server_data.team_ct.roster(), server_data.team_t.roster(), steam_id_3@) is None,
        },
{
    match position_in(&server_data.team_ct.players, steam_id_3) {
        Some(i) => Some((TeamSide::Ct, i)),
        None => match position_in(&server_data.team_t.players, steam_id_3) {
            Some(i) => Some((TeamSide::Terrorist, i)),
            None => None,
        },
    }
}

/// Sets the ready flag of player `i` and keeps the count in step.
fn mark_ready(players: &mut Vec<CsctrlDataPlayer>, i: usize, b: bool)
    requires
        i < old(players)@.len(),
    ensures
        roster(final(players)@) == set_ready(roster(old(players)@), i as int, b),
{
    let p = CsctrlDataPlayer { name: players[i].name.clone(), steam3: players[i].steam3.clone(), is_ready: b };
    players.set(i, p);
    assert(roster(players@) =~= set_ready(roster(old(players)@), i as int, b));
}

/// Applies a chat line from the player with this Steam3 id: `.ready` marks
/// the player ready and `.unready` not ready. Returns whether anything changed.
pub fn player_say(server_data: &mut CsctrlDataServer, steam_id: &str, chat: &str) -> (changed: bool)
    requires
        old(server_data).wf(),
    ensures
        final(server_data).wf(),
        final(server_data).team_ct.roster() == ct_after_say(
            old(server_data).team_ct.roster(),
            old(server_data).team_t.roster(),
            steam_id@,
            chat@,
        ),
        final(server_data).team_t.roster() == t_after_say(
            old(server_data).team_ct.roster(),
            old(server_data).team_t.roster(),
            steam_id@,
            chat@,
        ),
        final(server_data).config == old(server_data).config,
        final(server_data).is_online == old(server_data).is_online,
        final(server_data).status == old(server_data).status,
        final(server_data).logs@ == old(server_data).logs@,
        final(server_data).match_setup == old(server_data).match_setup,
        final(server_data).team_ct.name@ == old(server_data).team_ct.name@,
        final(server_data).team_ct.score == old(server_data).team_ct.score,
        final(server_data).team_t.name@ == old(server_data).team_t.name@,
        final(server_data).team_t.score == old(server_data).team_t.score,
        changed == (final(server_data).team_ct.roster() != old(server_data).team_ct.roster()
            || final(server_data).team_t.roster() != old(server_data).team_t.roster()),
{
    let ghost ct0 = server_data.team_ct.roster();
    let ghost t0 = server_data.team_t.roster();
    let unready_command = contains_str(chat, ".unready");
    let ready_command = contains_str(chat, ".ready");
    if !ready_command && !unready_command {
        return false;
    }
    let is_player_ready = !unready_command;
    let found = find_player_index_and_team_with_steamid3(server_data, steam_id);
    proof {
        lemma_position(ct0, steam_id@, 0);
        lemma_position(t0, steam_id@, 0);
    }
    let (side, i) = match found {
        Some(f) => f,
        None => {
            return false;
        },
    };
    let current = match side {
        TeamSide::Ct => server_data.team_ct.players[i].is_ready,
        TeamSide::Terrorist => server_data.team_t.players[i].is_ready,
    };
    if current == is_player_ready {
        proof {
            match side {
                TeamSide::Ct => {
                    assert(set_ready(ct0, i as int, is_player_ready) =~= ct0);
                },
                TeamSide::Terrorist => {
                    assert(set_ready(t0, i as int, is_player_ready) =~= t0);
                },
            }
        }
        return false;
    }
    match side {
        TeamSide::Ct => {
            mark_ready(&mut server_data.team_ct.players, i, is_player_ready);
            proof {
                let q = set_ready(ct0, i as int, is_player_ready)[i as int];
                lemma_count_update(ct0, i as int, q);
                lemma_count_bound(set_ready(ct0, i as int, is_player_ready));
                lemma_count_bound(t0);
                assert(set_ready(ct0, i as int, is_player_ready)[i as int] != ct0[i as int]);
            }
        },
        TeamSide::Terrorist => {
            mark_ready(&mut server_data.team_t.players, i, is_player_ready);
            proof {
                let q = set_ready(t0, i as int, is_player_ready)[i as int];
                lemma_count_update(t0, i as int, q);
                lemma_count_bound(ct0);
                lemma_count_bound(set_ready(t0, i as int, is_player_ready));
                assert(set_ready(t0, i as int, is_player_ready)[i as int] != t0[i as int]);
            }
        },
    }
    if is_player_ready {
        server_data.player_ready_amount = server_data.player_ready_amount + 1;
    } else {
        server_data.player_ready_amount = server_data.player_ready_amount - 1;
    }
    proof {
        let ct1 = server_data.team_ct.roster();
        let t1 = server_data.team_t.roster();
        assert forall|a: int, b: int|
            0 <= a < (ct1 + t1).len() && 0 <= b < (ct1 + t1).len() && a != b implies (ct1 + t1)[a].steam3 != (ct1
                + t1)[b].steam3 by {
            assert((ct1 + t1)[a].steam3 == (ct0 + t0)[a].steam3);
            assert((ct1 + t1)[b].steam3 == (ct0 + t0)[b].steam3);
        }
    }
    true
}

/// Whether moving `id` to `team_to` removes or adds a record.
pub open spec fn switch_changes(ct: Seq<PlayerView>, t: Seq<PlayerView>, id: Seq<char>, team_to: Seq<char>) -> bool {
    team_position(ct, t, id) is Some || ((team_to == "CT"@ || team_to == "TERRORIST"@) && has_room(
        ct_rest(ct, id),
        t_rest(ct, t, id),
    ))
}

/// Takes the player with this Steam3 id off whichever team holds them.
fn remove_player(server_data: &mut CsctrlDataServer, steam_id: &str) -> (removed: bool)
    requires
        old(server_data).wf(),
    ensures
        final(server_data).wf(),
        final(server_data).team_ct.roster() == ct_rest(old(server_data).team_ct.roster(), steam_id@),
        final(server_data).team_t.roster() == t_rest(
            old(server_data).team_ct.roster(),
            old(server_data).team_t.roster(),
            steam_id@,
        ),
        forall|a: int|
            0 <= a < (final(server_data).team_ct.roster() + final(server_data).team_t.roster()).len()
                ==> #[trigger] (final(server_data).team_ct.roster() + final(server_data).team_t.roster())[a].steam3
                != steam_id@,
        final(server_data).config == old(server_data).config,
        final(server_data).is_online == old(server_data).is_online,
        final(server_data).status == old(server_data).status,
        final(server_data).logs@ == old(server_data).logs@,
        final(server_data).match_setup == old(server_data).match_setup,
        final(server_data).team_ct.name@ == old(server_data).team_ct.name@,
        final(server_data).team_ct.score == old(server_data).team_ct.score,
        final(server_data).team_t.name@ == old(server_data).team_t.name@,
        final(server_data).team_t.score == old(server_data).team_t.score,
        removed == team_position(old(server_data).team_ct.roster(), old(server_data).team_t.roster(), steam_id@) is Some,
{
    let ghost ct0 = server_data.team_ct.roster();
    let ghost t0 = server_data.team_t.roster();
    let ghost id = steam_id@;
    proof {
        lemma_position(ct0, id, 0);
        lemma_position(t0, id, 0);
    }
    match find_player_index_and_team_with_steamid3(server_data, steam_id) {
        Some((TeamSide::Ct, i)) => {
            assert(i < ct0.len());
            let removed = server_data.team_ct.players.remove(i);
            proof {
                assert(server_data.team_ct.roster() =~= ct0.remove(i as int));
                lemma_count_remove(ct0, i as int);
                assert(ct0.remove(i as int) + t0 =~= (ct0 + t0).remove(i as int));
                lemma_remove_keeps_distinct(ct0 + t0, i as int);
            }
            if removed.is_ready {
                server_data.player_ready_amount = server_data.player_ready_amount - 1;
            }
            true
        },
        Some((TeamSide::Terrorist, i)) => {
            assert(i < t0.len());
            let removed = server_data.team_t.players.remove(i);
            proof {
                assert(server_data.team_t.roster() =~= t0.remove(i as int));
                lemma_count_remove(t0, i as int);
                assert(ct0 + t0.remove(i as int) =~= (ct0 + t0).remove(ct0.len() + i));
                lemma_remove_keeps_distinct(ct0 + t0, ct0.len() + i);
                assert((ct0 + t0)[ct0.len() + i] == t0[i as int]);
            }
            if removed.is_ready {
                server_data.player_ready_amount = server_data.player_ready_amount - 1;
            }
            true
        },
        None => {
            proof {
                assert forall|a: int| 0 <= a < (ct0 + t0).len() implies #[trigger] (ct0 + t0)[a].steam3 != id by {
                    if a >= ct0.len() {
                        assert((ct0 + t0)[a] == t0[a - ct0.len()]);
                    }
                }
            }
            false
        },
    }
}

/// Moves the player with this Steam3 id to `team_to` as a new, not ready
/// record named `username`: the player leaves whichever team held them, and
/// joins CT or TERRORIST (another destination, such as a spectator slot, only
/// removes). Returns whether a record was removed or added.
pub fn player_switch_team(server_data: &mut CsctrlDataServer, username: &str, steam_id: &str, team_to: &str) -> (changed: bool)
    requires
        old(server_data).wf(),
    ensures
        final(server_data).wf(),
        final(server_data).team_ct.roster() == ct_after_switch(
            old(server_data).team_ct.roster(),
            old(server_data).team_t.roster(),
            username@,
            steam_id@,
            team_to@,
        ),
        final(server_data).team_t.roster() == t_after_switch(
            old(server_data).team_ct.roster(),
            old(server_data).team_t.roster(),
            username@,
            steam_id@,
            team_to@,
        ),
        final(server_data).config == old(server_data).config,
        final(server_data).is_online == old(server_data).is_online,
        final(server_data).status == old(server_data).status,
        final(server_data).logs@ == old(server_data).logs@,
        final(server_data).match_setup == old(server_data).match_setup,
        final(server_data).team_ct.name@ == old(server_data).team_ct.name@,
        final(server_data).team_ct.score == old(server_data).team_ct.score,
        final(server_data).team_t.name@ == old(server_data).team_t.name@,
        final(server_data).team_t.score == old(server_data).team_t.score,
        changed == switch_changes(old(server_data).team_ct.roster(), old(server_data).team_t.roster(), steam_id@, team_to@),
{
    let removed = remove_player(server_data, steam_id);
    let ghost ct1 = server_data.team_ct.roster();
    let ghost t1 = server_data.team_t.roster();
    let room = server_data.team_ct.players.len() < usize::MAX - server_data.team_t.players.len();
    let to_ct = str_eq(team_to, "CT");
    let to_t = str_eq(team_to, "TERRORIST");
    proof {
        reveal_strlit("CT");
        reveal_strlit("TERRORIST");
        assert("CT"@ != "TERRORIST"@) by {
            assert("CT"@.len() != "TERRORIST"@.len());
        }
    }
    if room && (to_ct || to_t) {
        let player = CsctrlDataPlayer { name: username.to_owned(), steam3: steam_id.to_owned(), is_ready: false };
        proof {
            lemma_push_keeps_distinct(ct1, t1, player@);
            lemma_count_push(ct1, player@);
            lemma_count_push(t1, player@);
        }
        if to_ct {
            server_data.team_ct.players.push(player);
            assert(server_data.team_ct.roster() =~= ct1.push(player@));
        } else {
            server_data.team_t.players.push(player);
            assert(server_data.team_t.roster() =~= t1.push(player@));
        }
        return true;
    }
    removed
}

} // verus!
