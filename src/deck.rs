use vstd::prelude::*;

use crate::card::{Card, CardId, Color, Number, COLOR_COUNT, NUMBER_COUNT};

verus! {

/// A card's color and rank, without its identity.
pub open spec fn kind_of(c: Card) -> (Color, Number) {
    (c.color, c.number)
}

/// The number of suits in play: the multi variant leaves out the Multi suit.
pub open spec fn suit_count(is_multi: bool) -> nat {
    if is_multi {
        5
    } else {
        6
    }
}

/// The number of cards in each starting hand.
pub open spec fn hand_size(player_count: nat) -> nat {
    if player_count <= 3 {
        5
    } else {
        4
    }
}

/// Whether a color and rank belong to the variant's card universe.
pub open spec fn in_variant(k: (Color, Number), is_multi: bool) -> bool {
    k.0.index() < suit_count(is_multi)
}

/// Every (color, rank) pair of the variant, suit by suit, ranks ascending.
pub open spec fn universe(is_multi: bool) -> Seq<(Color, Number)> {
    Seq::new(
        suit_count(is_multi) * 5,
        |j: int| (Color::from_index((j / 5) as nat), Number::from_value((j % 5 + 1) as nat)),
    )
}

/// `deck` holds every pair of the variant's universe once, under identities
/// that are pairwise distinct.
pub open spec fn is_full_deck(deck: Seq<Card>, is_multi: bool) -> bool {
    &&& deck.map_values(|c: Card| kind_of(c)).to_multiset() == universe(is_multi).to_multiset()
    &&& deck.map_values(|c: Card| c.id.0).no_duplicates()
}

proof fn lemma_from_index(i: nat)
    requires
        i < COLOR_COUNT,
    ensures
        Color::from_index(i).index() == i,
{
}

proof fn lemma_from_value(v: nat)
    requires
        1 <= v <= NUMBER_COUNT,
    ensures
        Number::from_value(v).value() == v,
{
}

/// The universe lists each pair of the variant exactly once, and nothing else.
pub proof fn lemma_universe(is_multi: bool)
    ensures
        universe(is_multi).len() == suit_count(is_multi) * 5,
        universe(is_multi).no_duplicates(),
        forall|k: (Color, Number)| universe(is_multi).contains(k) <==> in_variant(k, is_multi),
{
    let u = universe(is_multi);
    assert forall|i: int, j: int| 0 <= i < u.len() && 0 <= j < u.len() && i != j implies u[i]
        != u[j] by {
        lemma_from_index((i / 5) as nat);
        lemma_from_index((j / 5) as nat);
        lemma_from_value((i % 5 + 1) as nat);
        lemma_from_value((j % 5 + 1) as nat);
        if u[i] == u[j] {
            assert(i / 5 == j / 5);
            assert(i % 5 == j % 5);
            assert(i == 5 * (i / 5) + i % 5);
            assert(j == 5 * (j / 5) + j % 5);
        }
    }
    assert forall|k: (Color, Number)| u.contains(k) <==> in_variant(k, is_multi) by {
        if u.contains(k) {
            let i = choose|i: int| 0 <= i < u.len() && u[i] == k;
            lemma_from_index((i / 5) as nat);
        }
        if in_variant(k, is_multi) {
            let j = k.0.index() * 5 + k.1.value() - 1;
            assert(j / 5 == k.0.index());
            assert(j % 5 == k.1.value() - 1);
            crate::card::lemma_color_index_injective(k.0, k.0);
            assert(Number::from_value(k.1.value()) == k.1);
            assert(u[j] == k);
        }
    }
}

/// A full deck has 30 cards (25 in the multi variant), no two with the same
/// identity, and holds each (color, rank) pair of the variant exactly once.
pub proof fn lemma_deck_conservation(deck: Seq<Card>, is_multi: bool)
    requires
        is_full_deck(deck, is_multi),
    ensures
        deck.len() == suit_count(is_multi) * 5,
        deck.map_values(|c: Card| c.id.0).no_duplicates(),
        deck.map_values(|c: Card| kind_of(c)).no_duplicates(),
        forall|k: (Color, Number)|
            deck.map_values(|c: Card| kind_of(c)).contains(k) <==> in_variant(k, is_multi),
{
    broadcast use vstd::seq_lib::group_to_multiset_ensures;

    let kinds = deck.map_values(|c: Card| kind_of(c));
    let u = universe(is_multi);
    lemma_universe(is_multi);
    assert(kinds.to_multiset().len() == kinds.len());
    assert(u.to_multiset().len() == u.len());
    u.lemma_multiset_has_no_duplicates();
    kinds.lemma_multiset_has_no_duplicates_conv();
    assert forall|k: (Color, Number)| kinds.contains(k) <==> in_variant(k, is_multi) by {
        assert(kinds.contains(k) <==> kinds.to_multiset().count(k) > 0);
        assert(u.contains(k) <==> u.to_multiset().count(k) > 0);
    }
}

/// Every pair of the variant's universe, suit by suit, ranks ascending.
pub fn card_kinds(is_multi: bool) -> (r: Vec<(Color, Number)>)
    ensures
        r@ == universe(is_multi),
{
    let total: usize = if is_multi { 25 } else { 30 };
    let mut r: Vec<(Color, Number)> = Vec::new();
    let mut j: usize = 0;
    while j < total
        invariant
            total == suit_count(is_multi) * 5,
            j <= total,
            r@ =~= universe(is_multi).subrange(0, j as int),
        decreases total - j,
    {
        let c = Color::of_index(j / 5);
        let n = Number::of_value(j % 5 + 1);
        r.push((c, n));
        j = j + 1;
    }
    r
}

/// Relies on rand's `SliceRandom::shuffle` with the thread-local generator,
/// which permutes the slice in place by swaps.
#[verifier::external_body]
fn shuffle_kinds(v: &mut Vec<(Color, Number)>)
    ensures
        final(v)@.to_multiset() == old(v)@.to_multiset(),
{
    rand::seq::SliceRandom::shuffle(v.as_mut_slice(), &mut rand::thread_rng())
}

/// Relies on uuid's `Uuid::new_v4`, a random identifier, read as an integer.
#[verifier::external_body]
fn random_id() -> (r: u128) {
    uuid::Uuid::new_v4().as_u128()
}

/// Whether the values of `ids` are pairwise distinct.
pub fn all_distinct(ids: &Vec<u128>) -> (r: bool)
    ensures
        r == ids@.no_duplicates(),
{
    let mut i: usize = 0;
    while i < ids.len()
        invariant
            i <= ids@.len(),
            forall|a: int, b: int| 0 <= a < i && 0 <= b < ids@.len() && a != b ==> ids@[a] != ids@[b],
        decreases ids@.len() - i,
    {
        let mut j: usize = 0;
        while j < ids.len()
            invariant
                i < ids@.len(),
                j <= ids@.len(),
                forall|a: int, b: int| 0 <= a < i && 0 <= b < ids@.len() && a != b ==> ids@[a] != ids@[b],
                forall|b: int| 0 <= b < j && b != i ==> ids@[i as int] != ids@[b],
            decreases ids@.len() - j,
        {
            if j != i && ids[i] == ids[j] {
                return false;
            }
            j = j + 1;
        }
        i = i + 1;
    }
    true
}

/// The cards with the given colors and ranks, and the given identities, in order.
pub fn make_cards(kinds: &Vec<(Color, Number)>, ids: &Vec<u128>) -> (r: Vec<Card>)
    requires
        kinds@.len() == ids@.len(),
    ensures
        r@.len() == kinds@.len(),
        forall|i: int|
            0 <= i < r@.len() ==> #[trigger] r@[i] == (Card {
                number: kinds@[i].1,
                color: kinds@[i].0,
                id: CardId(ids@[i]),
            }),
{
    let mut r: Vec<Card> = Vec::new();
    let mut i: usize = 0;
    while i < kinds.len()
        invariant
            kinds@.len() == ids@.len(),
            i <= kinds@.len(),
            r@.len() == i,
            forall|k: int|
                0 <= k < i ==> #[trigger] r@[k] == (Card {
                    number: kinds@[k].1,
                    color: kinds@[k].0,
                    id: CardId(ids@[k]),
                }),
        decreases kinds@.len() - i,
    {
        let (c, n) = kinds[i];
        r.push(Card::new(n, c, CardId::new(ids[i])));
        i = i + 1;
    }
    r
}

/// `len` identifiers: random ones when they are pairwise distinct, else the
/// numbers `0 .. len`.
fn fresh_ids(len: usize) -> (r: Vec<u128>)
    ensures
        r@.len() == len,
        r@.no_duplicates(),
{
    let mut ids: Vec<u128> = Vec::new();
    let mut i: usize = 0;
    while i < len
        invariant
            i <= len,
            ids@.len() == i,
        decreases len - i,
    {
        ids.push(random_id());
        i = i + 1;
    }
    if all_distinct(&ids) {
        return ids;
    }
    let mut seq_ids: Vec<u128> = Vec::new();
    let mut k: usize = 0;
    while k < len
        invariant
            k <= len,
            seq_ids@.len() == k,
            forall|a: int| 0 <= a < k ==> #[trigger] seq_ids@[a] == a,
        decreases len - k,
    {
        seq_ids.push(k as u128);
        k = k + 1;
    }
    seq_ids
}

/// The variant's full set of cards in a random order, with distinct identities.
pub fn shuffled_deck(is_multi: bool) -> (r: Vec<Card>)
    ensures
        is_full_deck(r@, is_multi),
{
    let mut kinds = card_kinds(is_multi);
    shuffle_kinds(&mut kinds);
    let ids = fresh_ids(kinds.len());
    let r = make_cards(&kinds, &ids);
    assert(r@.map_values(|c: Card| kind_of(c)) =~= kinds@);
    assert(r@.map_values(|c: Card| c.id.0) =~= ids@);
    r
}

} // verus!
