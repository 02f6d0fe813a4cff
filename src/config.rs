use vstd::prelude::*;

use crate::card::Card;
use crate::deck::{hand_size, is_full_deck, shuffled_deck};
use crate::game::{all_hands, Game, PlayerInfo};

verus! {

/// Settings of a game to create: player count, and the variant flags.
#[derive(Clone, Debug)]
pub struct Config {
    player_num: usize,
    is_multi: bool,
    is_grand_finale: bool,
}

/// The players of `players` hold consecutive runs of `h` cards of `deck`, from its start.
pub open spec fn hands_are_runs(players: Seq<PlayerInfo>, deck: Seq<Card>, h: nat) -> bool {
    forall|i: int|
        0 <= i < players.len() ==> {
            &&& (#[trigger] players[i]).player_id == i
            &&& players[i].hands@ == deck.subrange(i * h, i * h + h)
        }
}

proof fn lemma_all_hands_runs(players: Seq<PlayerInfo>, deck: Seq<Card>, h: nat)
    requires
        hands_are_runs(players, deck, h),
        players.len() * h <= deck.len(),
    ensures
        all_hands(players) == deck.subrange(0, (players.len() * h) as int),
    decreases players.len(),
{
    if players.len() > 0 {
        let n = players.len() as int;
        let init = players.drop_last();
        assert((n - 1) * h + h == n * h) by (nonlinear_arith);
        assert((n - 1) * h <= n * h) by (nonlinear_arith);
        assert forall|i: int| 0 <= i < init.len() implies {
            &&& (#[trigger] init[i]).player_id == i
            &&& init[i].hands@ == deck.subrange(i * h, i * h + h)
        } by {
            assert(init[i] == players[i]);
        }
        lemma_all_hands_runs(init, deck, h);
        assert(players.last() == players[n - 1]);
        assert(deck.subrange(0, (n - 1) * h) + deck.subrange((n - 1) * h, n * h) =~= deck.subrange(
            0,
            n * h,
        ));
    }
}

impl Config {
    pub closed spec fn player_count(&self) -> nat {
        self.player_num as nat
    }

    pub closed spec fn multi_flag(&self) -> bool {
        self.is_multi
    }

    pub closed spec fn grand_finale_flag(&self) -> bool {
        self.is_grand_finale
    }

    /// A configuration for `n` players, without variants; `None` unless `n` is 2 to 5.
    pub fn new(n: usize) -> (r: Option<Config>)
        ensures
            r.is_some() <==> 2 <= n <= 5,
            r matches Some(c) ==> c.player_count() == n && !c.multi_flag() && !c.grand_finale_flag(),
    {
        if n < 2 || n > 5 {
            return None;
        }
        Some(Config { player_num: n, is_multi: false, is_grand_finale: false })
    }

    /// Sets the multi variant.
    pub fn multi(&mut self, f: bool)
        ensures
            final(self).multi_flag() == f,
            final(self).player_count() == old(self).player_count(),
            final(self).grand_finale_flag() == old(self).grand_finale_flag(),
    {
        self.is_multi = f;
    }

    /// Sets the grand-finale variant.
    pub fn grand_finale(&mut self, f: bool)
        ensures
            final(self).grand_finale_flag() == f,
            final(self).player_count() == old(self).player_count(),
            final(self).multi_flag() == old(self).multi_flag(),
    {
        self.is_grand_finale = f;
    }

    /// A new game dealt from `deck` as it lies: player `i` gets the `i`-th run
    /// of hand-size cards, and what is left is the draw stack.
    pub fn build_with_deck(self, deck: Vec<Card>) -> (g: Game)
        requires
            2 <= self.player_count() <= 5,
            self.player_count() * hand_size(self.player_count()) <= deck@.len(),
        ensures
            g.wf(),
            g.player_count() == self.player_count(),
            g.multi() == self.multi_flag(),
            g.grand_finale() == self.grand_finale_flag(),
            hands_are_runs(g.players_seq(), deck@, hand_size(self.player_count())),
            g.stack_seq() == deck@.subrange(
                self.player_count() * hand_size(self.player_count()) as int,
                deck@.len() as int,
            ),
            g.dealt_cards() == deck@,
            g.discards_seq().len() == 0,
            forall|c: crate::card::Color| #[trigger] g.field_state().stack(c).len() == 0,
    {
        let n = self.player_num;
        let h: usize = if n <= 3 { 5 } else { 4 };
        let ghost hs = hand_size(n as nat);
        let total = deck.len();
        let mut players: Vec<PlayerInfo> = Vec::new();
        let mut pos: usize = 0;
        let mut i: usize = 0;
        while i < n
            invariant
                2 <= n <= 5,
                h == hs,
                total == deck@.len(),
                n * h <= deck@.len(),
                i <= n,
                pos == i * h,
                players@.len() == i,
                hands_are_runs(players@, deck@, hs),
            decreases n - i,
        {
            assert((i + 1) * h == i * h + h) by (nonlinear_arith);
            assert((i + 1) * h <= n * h) by (nonlinear_arith)
                requires
                    i < n,
            ;
            let mut hand: Vec<Card> = Vec::new();
            let mut j: usize = 0;
            while j < h
                invariant
                    h == hs,
                    total == deck@.len(),
                    pos + h <= deck@.len(),
                    j <= h,
                    hand@ == deck@.subrange(pos as int, pos + j),
                decreases h - j,
            {
                hand.push(deck[pos + j]);
                j = j + 1;
                assert(hand@ =~= deck@.subrange(pos as int, pos + j));
            }
            players.push(PlayerInfo::new(i, hand));
            pos = pos + h;
            i = i + 1;
        }
        let mut stack: Vec<Card> = Vec::new();
        let mut k: usize = pos;
        while k < deck.len()
            invariant
                pos <= k <= deck@.len(),
                stack@ == deck@.subrange(pos as int, k as int),
            decreases deck@.len() - k,
        {
            stack.push(deck[k]);
            k = k + 1;
            assert(stack@ =~= deck@.subrange(pos as int, k as int));
        }
        proof {
            lemma_all_hands_runs(players@, deck@, hs);
            assert(deck@.subrange(0, pos as int) + deck@.subrange(pos as int, deck@.len() as int)
                =~= deck@);
        }
        Game::from_parts(players, stack, n, self.is_multi, self.is_grand_finale)
    }

    /// A new game: the variant's cards are shuffled, each player is dealt a
    /// hand (5 cards for 2 or 3 players, 4 for 4 or 5), and the rest is the
    /// draw stack. The discards and the field start empty.
    pub fn build(self) -> (g: Game)
        requires
            2 <= self.player_count() <= 5,
        ensures
            g.wf(),
            g.player_count() == self.player_count(),
            g.multi() == self.multi_flag(),
            g.grand_finale() == self.grand_finale_flag(),
            forall|i: int|
                0 <= i < g.players_seq().len() ==> (#[trigger] g.players_seq()[i]).player_id == i
                    && g.hand(i).len() == hand_size(self.player_count()),
            is_full_deck(g.dealt_cards(), self.multi_flag()),
            g.discards_seq().len() == 0,
            forall|c: crate::card::Color| #[trigger] g.field_state().stack(c).len() == 0,
    {
        let deck = shuffled_deck(self.is_multi);
        proof {
            broadcast use vstd::seq_lib::group_to_multiset_ensures;

            let kinds = deck@.map_values(|c: Card| crate::deck::kind_of(c));
            assert(kinds.len() == deck@.len());
            assert(kinds.to_multiset().len() == kinds.len());
            assert(crate::deck::universe(self.is_multi).to_multiset().len() == crate::deck::universe(
                self.is_multi,
            ).len());
        }
        let ghost hs = hand_size(self.player_count());
        assert(self.player_count() * hs <= 20) by {
            if self.player_count() <= 3 {
                assert(self.player_count() * 5 <= 15);
            } else {
                assert(self.player_count() * 4 <= 20);
            }
        }
        let g = self.build_with_deck(deck);
        proof {
            assert forall|i: int| 0 <= i < g.players_seq().len() implies (
                #[trigger] g.players_seq()[i]).player_id == i && g.hand(i).len() == hs by {
                assert(i * hs + hs <= 5 * hs) by (nonlinear_arith)
                    requires
                        0 <= i < 5,
                ;
            }
        }
        g
    }
}

} // verus!
