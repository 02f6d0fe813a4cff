use vstd::prelude::*;

use crate::card::{Card, Color, COLOR_COUNT, NUMBER_COUNT};

verus! {

/// The cards played so far: one ascending stack per color.
#[derive(Clone, Debug)]
pub struct Field {
    inner: Vec<Vec<Card>>,
}

impl Field {
    /// The stacks, addressed by color index.
    pub closed spec fn stacks(&self) -> Seq<Seq<Card>> {
        self.inner@.map_values(|v: Vec<Card>| v@)
    }

    /// The stack of color `c`.
    pub open spec fn stack(&self, c: Color) -> Seq<Card> {
        self.stacks()[c.index() as int]
    }

    /// One stack per color; stack `i` holds cards of color `i` with ranks
    /// 1, 2, 3, ... in order, without gaps.
    pub open spec fn wf(&self) -> bool {
        &&& self.stacks().len() == COLOR_COUNT
        &&& forall|i: int, j: int|
            0 <= i < COLOR_COUNT && 0 <= j < self.stacks()[i].len() ==> {
                &&& (#[trigger] self.stacks()[i][j]).color.index() == i
                &&& self.stacks()[i][j].number.value() == j + 1
            }
    }

    /// The rank of the top card of the stack of color `c`, 0 when it is empty.
    pub open spec fn top(&self, c: Color) -> nat {
        self.stack(c).len()
    }

    /// Whether `card` may be placed next on its stack.
    pub open spec fn accepts(&self, card: Card) -> bool {
        card.number.value() == self.top(card.color) + 1
    }

    /// `post` is `pre` with `card` placed on top of its stack.
    pub open spec fn placed(pre: Field, post: Field, card: Card) -> bool {
        post.stacks() == pre.stacks().update(card.color.index() as int, pre.stack(card.color).push(card))
    }

    pub fn new() -> (r: Field)
        ensures
            r.wf(),
            forall|c: Color| #[trigger] r.stack(c).len() == 0,
    {
        let mut inner: Vec<Vec<Card>> = Vec::new();
        let mut i: usize = 0;
        while i < COLOR_COUNT
            invariant
                i <= COLOR_COUNT,
                inner@.len() == i,
                forall|k: int| 0 <= k < i ==> (#[trigger] inner@[k])@.len() == 0,
            decreases COLOR_COUNT - i,
        {
            inner.push(Vec::new());
            i = i + 1;
        }
        let r = Field { inner };
        assert forall|c: Color| #[trigger] r.stack(c).len() == 0 by {
            assert(c.index() < COLOR_COUNT);
        }
        r
    }

    /// The stack of color `c`, bottom card first.
    pub fn cards(&self, c: Color) -> (r: &Vec<Card>)
        requires
            self.wf(),
        ensures
            r@ == self.stack(c),
    {
        &self.inner[c.to_usize()]
    }

    /// The rank of the top card of the stack of color `c`.
    pub fn top_number(&self, c: Color) -> (r: usize)
        requires
            self.wf(),
        ensures
            r == self.top(c),
            r <= NUMBER_COUNT,
    {
        let i = c.to_usize();
        let stack = &self.inner[i];
        proof {
            assert(self.stacks()[i as int] == stack@);
        }
        let len = stack.len();
        if len == 0 {
            0
        } else {
            let last = stack[len - 1].number.to_usize();
            proof {
                assert(self.stacks()[i as int][len - 1] == stack@[len - 1]);
            }
            last
        }
    }

    /// Whether `card` may be placed next on its stack.
    pub fn can_add(&self, card: &Card) -> (r: bool)
        requires
            self.wf(),
        ensures
            r == self.accepts(*card),
    {
        let top = self.top_number(card.color);
        top + 1 == card.number.to_usize()
    }

    /// Places `card` on its stack when its rank is one more than the stack's
    /// top (0 for an empty stack), and reports whether it did. A rejected card
    /// leaves the field unchanged; every stack stays ascending and gapless.
    pub fn add(&mut self, card: Card) -> (r: bool)
        requires
            old(self).wf(),
        ensures
            final(self).wf(),
            r == old(self).accepts(card),
            r ==> Field::placed(*old(self), *final(self), card),
            r ==> final(self).stack(card.color) == old(self).stack(card.color).push(card),
            r ==> forall|c: Color|
                c != card.color ==> #[trigger] final(self).stack(c) == old(self).stack(c),
            !r ==> final(self).stacks() == old(self).stacks(),
    {
        if self.can_add(&card) {
            let i = card.color.to_usize();
            let ghost pre = self.stacks();
            let mut stack = self.inner.remove(i);
            stack.push(card);
            self.inner.insert(i, stack);
            proof {
                assert(self.stacks() =~= pre.update(i as int, pre[i as int].push(card)));
                assert forall|c: Color| c != card.color implies #[trigger] self.stack(c) == pre[c.index() as int] by {
                    crate::card::lemma_color_index_injective(c, card.color);
                }
            }
            true
        } else {
            false
        }
    }
}

} // verus!
