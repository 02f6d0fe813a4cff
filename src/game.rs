use vstd::prelude::*;

use crate::card::{Card, CardId, CardInfo, CardInfoKind};
use crate::field::Field;

verus! {

/// A player and the cards in their hand.
#[derive(Clone, Debug)]
pub struct PlayerInfo {
    pub player_id: usize,
    pub hands: Vec<Card>,
}

/// Whether a card with identity `id` is in `hand`.
pub open spec fn has_card(hand: Seq<Card>, id: CardId) -> bool {
    exists|j: int| 0 <= j < hand.len() && (#[trigger] hand[j]).id == id
}

/// Whether `i` is the first position of `hand` holding the card `id`.
pub open spec fn is_first_index(hand: Seq<Card>, id: CardId, i: int) -> bool {
    &&& 0 <= i < hand.len()
    &&& hand[i].id == id
    &&& forall|j: int| 0 <= j < i ==> (#[trigger] hand[j]).id != id
}

/// The first position of `hand` holding the card `id` (meaningful when it is there).
pub open spec fn first_index(hand: Seq<Card>, id: CardId) -> int {
    choose|i: int| is_first_index(hand, id, i)
}

/// The first position is unique, so `first_index` names it.
pub proof fn lemma_first_index(hand: Seq<Card>, id: CardId, i: int)
    requires
        is_first_index(hand, id, i),
    ensures
        first_index(hand, id) == i,
{
    let k = first_index(hand, id);
    assert(is_first_index(hand, id, k));
    if k < i {
        assert(hand[k].id != id);
    } else if i < k {
        assert(hand[i].id != id);
    }
}

/// The identities of the cards of `hand` that `kind` designates, in hand order.
pub open spec fn matching_ids(hand: Seq<Card>, kind: CardInfoKind) -> Seq<CardId>
    decreases hand.len(),
{
    if hand.len() == 0 {
        Seq::empty()
    } else {
        let rest = matching_ids(hand.drop_last(), kind);
        if kind.matches(hand.last()) {
            rest.push(hand.last().id)
        } else {
            rest
        }
    }
}

/// The cards of all hands, player after player.
pub open spec fn all_hands(players: Seq<PlayerInfo>) -> Seq<Card>
    decreases players.len(),
{
    if players.len() == 0 {
        Seq::empty()
    } else {
        all_hands(players.drop_last()) + players.last().hands@
    }
}

/// A hint designates exactly the cards of the hand that it matches: an
/// identity is in its result when, and only when, a matching card of the hand
/// carries it; and the result is empty exactly when no card matches.
pub proof fn lemma_matching_ids(hand: Seq<Card>, kind: CardInfoKind)
    ensures
        forall|id: CardId|
            matching_ids(hand, kind).contains(id) <==> exists|j: int|
                0 <= j < hand.len() && (#[trigger] hand[j]).id == id && kind.matches(hand[j]),
        matching_ids(hand, kind).len() == 0 <==> forall|j: int|
            0 <= j < hand.len() ==> !kind.matches(#[trigger] hand[j]),
        matching_ids(hand, kind).len() <= hand.len(),
    decreases hand.len(),
{
    if hand.len() > 0 {
        let init = hand.drop_last();
        let last = hand.len() - 1;
        lemma_matching_ids(init, kind);
        let rest = matching_ids(init, kind);
        assert forall|id: CardId|
            matching_ids(hand, kind).contains(id) <==> exists|j: int|
                0 <= j < hand.len() && (#[trigger] hand[j]).id == id && kind.matches(hand[j]) by {
            if matching_ids(hand, kind).contains(id) {
                if rest.contains(id) {
                    let j = choose|j: int|
                        0 <= j < init.len() && (#[trigger] init[j]).id == id && kind.matches(init[j]);
                    assert(hand[j] == init[j]);
                } else {
                    assert(kind.matches(hand[last]) && hand[last].id == id);
                }
            }
            if exists|j: int| 0 <= j < hand.len() && (#[trigger] hand[j]).id == id && kind.matches(hand[j]) {
                let j = choose|j: int|
                    0 <= j < hand.len() && (#[trigger] hand[j]).id == id && kind.matches(hand[j]);
                if j < last {
                    assert(init[j] == hand[j]);
                    assert(rest.contains(id));
                    if kind.matches(hand.last()) {
                        assert(rest.push(hand.last().id).contains(id)) by {
                            let k = choose|k: int| 0 <= k < rest.len() && rest[k] == id;
                            assert(rest.push(hand.last().id)[k] == id);
                        }
                    }
                } else {
                    assert(matching_ids(hand, kind) == rest.push(hand.last().id));
                    assert(matching_ids(hand, kind)[rest.len() as int] == id);
                }
            }
        }
        if matching_ids(hand, kind).len() == 0 {
            assert forall|j: int| 0 <= j < hand.len() implies !kind.matches(#[trigger] hand[j]) by {
                if j < last {
                    assert(init[j] == hand[j]);
                }
            }
        } else {
            if !kind.matches(hand.last()) {
                let j = choose|j: int| 0 <= j < init.len() && kind.matches(#[trigger] init[j]);
                assert(hand[j] == init[j]);
            }
        }
    }
}

impl PlayerInfo {
    pub fn new(id: usize, hands: Vec<Card>) -> (r: PlayerInfo)
        ensures
            r.player_id == id,
            r.hands@ == hands@,
    {
        PlayerInfo { player_id: id, hands }
    }

    /// The position of the card `id` in the hand, if it is there.
    pub fn card_idx(&self, id: CardId) -> (r: Option<usize>)
        ensures
            r.is_none() <==> !has_card(self.hands@, id),
            r matches Some(i) ==> is_first_index(self.hands@, id, i as int),
    {
        let mut i: usize = 0;
        while i < self.hands.len()
            invariant
                i <= self.hands@.len(),
                forall|j: int| 0 <= j < i ==> (#[trigger] self.hands@[j]).id != id,
            decreases self.hands@.len() - i,
        {
            if self.hands[i].id == id {
                return Some(i);
            }
            i = i + 1;
        }
        None
    }

    /// Takes the card at position `idx` out of the hand.
    pub fn remove_card(&mut self, idx: usize) -> (r: Card)
        requires
            idx < old(self).hands@.len(),
        ensures
            r == old(self).hands@[idx as int],
            final(self).hands@ == old(self).hands@.remove(idx as int),
            final(self).player_id == old(self).player_id,
    {
        self.hands.remove(idx)
    }
}

/// A player's action.
#[derive(Copy, Clone, Debug, PartialEq, Eq, Structural)]
pub enum Action {
    Tell(CardInfo),
    Discard(CardId),
    Play(CardId),
}

/// The outcome of a valid hint: the cards of the target player that it designates.
#[derive(Clone, Debug)]
pub struct CardInfoInner {
    pub kind: CardInfoKind,
    pub cards: Vec<CardId>,
    pub player: usize,
}

/// Why an action was refused.
#[derive(Copy, Clone, Debug, PartialEq, Eq, Structural)]
pub enum CoreError {
    InvalidCard(CardId),
    InvalidPlayer(usize),
    IncorrectInfo(CardInfo),
}

/// The state of a running game.
#[derive(Clone, Debug)]
pub struct Game {
    /// player informations
    pub players: Vec<PlayerInfo>,
    /// stack of cards still to draw
    pub stack: Vec<Card>,
    /// discarded cards
    pub discards: Vec<Card>,
    /// cards played on the field
    pub field: Field,
    player_num: usize,
    is_multi: bool,
    is_grand_finale: bool,
}

impl Game {
    pub closed spec fn players_seq(&self) -> Seq<PlayerInfo> {
        self.players@
    }

    pub closed spec fn stack_seq(&self) -> Seq<Card> {
        self.stack@
    }

    pub closed spec fn discards_seq(&self) -> Seq<Card> {
        self.discards@
    }

    pub closed spec fn field_state(&self) -> Field {
        self.field
    }

    pub closed spec fn player_count(&self) -> nat {
        self.player_num as nat
    }

    pub closed spec fn multi(&self) -> bool {
        self.is_multi
    }

    pub closed spec fn grand_finale(&self) -> bool {
        self.is_grand_finale
    }

    /// The hand of player `p`.
    pub open spec fn hand(&self, p: int) -> Seq<Card> {
        self.players_seq()[p].hands@
    }

    /// Every card held by a player or left to draw.
    pub open spec fn dealt_cards(&self) -> Seq<Card> {
        all_hands(self.players_seq()) + self.stack_seq()
    }

    /// One entry per player, and a well-formed field.
    pub open spec fn wf(&self) -> bool {
        &&& self.players_seq().len() == self.player_count()
        &&& self.field_state().wf()
    }

    /// `post` is `pre` with the card at position `i` taken out of the hand of player `p`.
    pub open spec fn removed_from_hand(pre: Game, post: Game, p: int, i: int) -> bool {
        &&& post.players_seq().len() == pre.players_seq().len()
        &&& forall|q: int| 0 <= q < pre.players_seq().len() && q != p ==> #[trigger] post.players_seq()[q] == pre.players_seq()[q]
        &&& post.players_seq()[p].player_id == pre.players_seq()[p].player_id
        &&& post.hand(p) == pre.hand(p).remove(i)
        &&& post.stack_seq() == pre.stack_seq()
        &&& post.player_count() == pre.player_count()
        &&& post.multi() == pre.multi()
        &&& post.grand_finale() == pre.grand_finale()
    }

    pub(crate) fn from_parts(
        players: Vec<PlayerInfo>,
        stack: Vec<Card>,
        player_num: usize,
        is_multi: bool,
        is_grand_finale: bool,
    ) -> (r: Game)
        requires
            players@.len() == player_num,
        ensures
            r.wf(),
            r.players_seq() == players@,
            r.stack_seq() == stack@,
            r.discards_seq().len() == 0,
            forall|c: crate::card::Color| #[trigger] r.field_state().stack(c).len() == 0,
            r.player_count() == player_num,
            r.multi() == is_multi,
            r.grand_finale() == is_grand_finale,
    {
        Game {
            players,
            stack,
            discards: Vec::new(),
            field: Field::new(),
            player_num,
            is_multi,
            is_grand_finale,
        }
    }

    pub fn player_num(&self) -> (r: usize)
        ensures
            r == self.player_count(),
    {
        self.player_num
    }

    pub fn is_multi(&self) -> (r: bool)
        ensures
            r == self.multi(),
    {
        self.is_multi
    }

    pub fn is_grand_finale(&self) -> (r: bool)
        ensures
            r == self.grand_finale(),
    {
        self.is_grand_finale
    }

    /// The identities of the cards in the target's hand that the hint designates,
    /// or `None` when the target is no player of this game.
    pub fn construct_info(&self, info: &CardInfo) -> (r: Option<Vec<CardId>>)
        requires
            self.wf(),
        ensures
            r.is_none() <==> info.player >= self.player_count(),
            r matches Some(ids) ==> ids@ == matching_ids(self.hand(info.player as int), info.kind),
    {
        if !self.is_valid_player(info.player) {
            return None;
        }
        let hand = &self.players[info.player].hands;
        let mut ids: Vec<CardId> = Vec::new();
        let mut i: usize = 0;
        while i < hand.len()
            invariant
                i <= hand@.len(),
                ids@ == matching_ids(hand@.subrange(0, i as int), info.kind),
            decreases hand@.len() - i,
        {
            proof {
                assert(hand@.subrange(0, i + 1).drop_last() =~= hand@.subrange(0, i as int));
            }
            if info.kind.is_match(&hand[i]) {
                ids.push(hand[i].id);
            }
            i = i + 1;
        }
        proof {
            assert(hand@.subrange(0, hand@.len() as int) =~= hand@);
        }
        Some(ids)
    }

    /// Takes the card at position `idx` out of the hand of player `p`.
    fn take_card(&mut self, p: usize, idx: usize) -> (r: Card)
        requires
            old(self).wf(),
            p < old(self).player_count(),
            idx < old(self).hand(p as int).len(),
        ensures
            final(self).wf(),
            r == old(self).hand(p as int)[idx as int],
            Game::removed_from_hand(*old(self), *final(self), p as int, idx as int),
            final(self).discards_seq() == old(self).discards_seq(),
            final(self).field_state() == old(self).field_state(),
    {
        let ghost pre = self.players@;
        let mut info = self.players.remove(p);
        let card = info.remove_card(idx);
        self.players.insert(p, info);
        proof {
            assert forall|q: int| 0 <= q < pre.len() && q != p implies #[trigger] self.players@[q] == pre[q] by {
                if q < p {
                } else {
                }
            }
        }
        card
    }

    /// Checks `act`, requested by `player`, against the state of the game and
    /// carries it out. A refused action leaves the game unchanged.
    /// - An acting player out of range is `InvalidPlayer`.
    /// - `Discard(id)`: the first card `id` of the actor's hand moves to the
    ///   discards; a card that is not there is `InvalidCard`.
    /// - `Play(id)`: the first card `id` of the actor's hand moves onto the
    ///   field when its rank is one more than its stack's top; a card that is
    ///   not there, or that the field refuses, is `InvalidCard`.
    /// - `Tell(info)`: returns the identities of the cards of the target's hand
    ///   that the hint designates; a target out of range, or a hint that
    ///   designates no card, is `IncorrectInfo`.
    pub fn process_action(&mut self, player: usize, act: Action) -> (r: Result<
        Option<CardInfoInner>,
        CoreError,
    >)
        requires
            old(self).wf(),
        ensures
            final(self).wf(),
            player >= old(self).player_count() ==> {
                &&& r == Err::<Option<CardInfoInner>, CoreError>(CoreError::InvalidPlayer(player))
                &&& *final(self) == *old(self)
            },
            player < old(self).player_count() ==> match act {
                Action::Discard(id) => {
                    let hand = old(self).hand(player as int);
                    let i = first_index(hand, id);
                    if has_card(hand, id) {
                        &&& r matches Ok(None)
                        &&& Game::removed_from_hand(*old(self), *final(self), player as int, i)
                        &&& final(self).discards_seq() == old(self).discards_seq().push(hand[i])
                        &&& final(self).hand(player as int).len() == hand.len() - 1
                        &&& final(self).discards_seq().len() == old(self).discards_seq().len() + 1
                        &&& final(self).discards_seq().last().id == id
                        &&& final(self).field_state() == old(self).field_state()
                    } else {
                        &&& r == Err::<Option<CardInfoInner>, CoreError>(CoreError::InvalidCard(id))
                        &&& *final(self) == *old(self)
                    }
                },
                Action::Play(id) => {
                    let hand = old(self).hand(player as int);
                    let i = first_index(hand, id);
                    if has_card(hand, id) && old(self).field_state().accepts(hand[i]) {
                        &&& r matches Ok(None)
                        &&& Game::removed_from_hand(*old(self), *final(self), player as int, i)
                        &&& final(self).discards_seq() == old(self).discards_seq()
                        &&& Field::placed(old(self).field_state(), final(self).field_state(), hand[i])
                    } else {
                        &&& r == Err::<Option<CardInfoInner>, CoreError>(CoreError::InvalidCard(id))
                        &&& *final(self) == *old(self)
                    }
                },
                Action::Tell(info) => {
                    &&& *final(self) == *old(self)
                    &&& if info.player >= old(self).player_count() || matching_ids(
                        old(self).hand(info.player as int),
                        info.kind,
                    ).len() == 0 {
                        r == Err::<Option<CardInfoInner>, CoreError>(CoreError::IncorrectInfo(info))
                    } else {
                        r matches Ok(Some(x)) && x.kind == info.kind && x.player == info.player
                            && x.cards@ == matching_ids(old(self).hand(info.player as int), info.kind)
                    }
                },
            },
    {
        if !self.is_valid_player(player) {
            return Err(CoreError::InvalidPlayer(player));
        }
        match act {
            Action::Discard(id) => {
                match self.players[player].card_idx(id) {
                    None => Err(CoreError::InvalidCard(id)),
                    Some(idx) => {
                        proof {
                            lemma_first_index(self.hand(player as int), id, idx as int);
                        }
                        let card = self.take_card(player, idx);
                        self.discards.push(card);
                        Ok(None)
                    },
                }
            },
            Action::Play(id) => {
                match self.players[player].card_idx(id) {
                    None => Err(CoreError::InvalidCard(id)),
                    Some(idx) => {
                        proof {
                            lemma_first_index(self.hand(player as int), id, idx as int);
                        }
                        if !self.field.can_add(&self.players[player].hands[idx]) {
                            return Err(CoreError::InvalidCard(id));
                        }
                        let card = self.take_card(player, idx);
                        let placed = self.field.add(card);
                        Ok(None)
                    },
                }
            },
            Action::Tell(info) => {
                match self.construct_info(&info) {
                    None => Err(CoreError::IncorrectInfo(info)),
                    Some(cards) => {
                        if cards.len() == 0 {
                            return Err(CoreError::IncorrectInfo(info));
                        }
                        Ok(Some(CardInfoInner { kind: info.kind, player: info.player, cards }))
                    },
                }
            },
        }
    }

    pub fn is_valid_player(&self, n: usize) -> (r: bool)
        ensures
            r == (n < self.player_count()),
    {
        n < self.player_num
    }
}

} // verus!
