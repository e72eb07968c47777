//! A turn-based card-game ("goldfish") simulator: a deck of lands and
//! creatures is drawn from and played each turn, and the damage dealt per
//! turn is accumulated.  All quantities are whole counts; additions that
//! would overflow a machine word saturate instead.
use vstd::prelude::*;

verus! {

/// Capping of a nonnegative mathematical integer at `usize::MAX`.
pub open spec fn cap_usize(x: int) -> int {
    if x > usize::MAX as int {
        usize::MAX as int
    } else {
        x
    }
}

/// Saturating addition on counts.
pub fn add_cap(a: usize, b: usize) -> (r: usize)
    ensures
        r as int == cap_usize(a as int + b as int),
{
    if a > usize::MAX - b {
        usize::MAX
    } else {
        a + b
    }
}

/// Saturating multiplication on counts.
pub fn mul_cap(a: usize, b: usize) -> (r: usize)
    ensures
        r as int == cap_usize(a as int * b as int),
{
    proof {
        vstd::arithmetic::mul::lemma_mul_upper_bound(
            a as int,
            u64::MAX as int,
            b as int,
            u64::MAX as int,
        );
    }
    let p: u128 = (a as u128) * (b as u128);
    if p > usize::MAX as u128 {
        usize::MAX
    } else {
        p as usize
    }
}

/// Sum of the first `i` entries of a sequence of counts.
pub open spec fn sum_to(s: Seq<usize>, i: int) -> int
    decreases i,
{
    if i <= 0 {
        0
    } else {
        sum_to(s, i - 1) + s[i - 1]
    }
}

/// Sum of a whole sequence of counts.
pub open spec fn sum_counts(s: Seq<usize>) -> int {
    sum_to(s, s.len() as int)
}

/// One card of the game: a land, a creature ("summon"), or anything else.
#[derive(Clone, Copy, Debug, PartialEq, Eq, Structural, Hash)]
pub enum Card {
    Land,
    Other,
    Summon { cost: usize, power: usize, toughness: usize, ability_tap_mana: bool },
}

impl Card {
    /// The mana cost of a summon; other cards have none.
    pub fn cost(&self) -> (r: Option<usize>)
        ensures
            r == (match *self {
                Card::Summon { cost, .. } => Some(cost),
                _ => None::<usize>,
            }),
    {
        match self {
            Card::Summon { cost, .. } => Some(*cost),
            _ => None,
        }
    }

    /// The combat power of a summon; other cards have none.
    pub fn power(&self) -> (r: Option<usize>)
        ensures
            r == (match *self {
                Card::Summon { power, .. } => Some(power),
                _ => None::<usize>,
            }),
    {
        match self {
            Card::Summon { power, .. } => Some(*power),
            _ => None,
        }
    }

    /// Whether the card can be tapped as a mana source.
    pub fn taps_for_mana(&self) -> (r: bool)
        ensures
            r == (match *self {
                Card::Land => true,
                Card::Summon { ability_tap_mana, .. } => ability_tap_mana,
                Card::Other => false,
            }),
    {
        match self {
            Card::Land => true,
            Card::Summon { ability_tap_mana, .. } => *ability_tap_mana,
            _ => false,
        }
    }

    /// A plain creature with equal power and toughness and no abilities.
    pub fn simple_summon(cost: usize, power: usize) -> (r: Card)
        ensures
            r == (Card::Summon { cost, power, toughness: power, ability_tap_mana: false }),
    {
        Card::Summon { cost, power, toughness: power, ability_tap_mana: false }
    }
}

/// A handle into a `FixedCounter`: the position of a card and the card itself.
#[derive(Clone, Copy, Debug, PartialEq, Eq, Structural)]
pub struct FixedCounterEntry {
    pub index: usize,
    pub item: Card,
}

/// A multiset over a fixed universe of cards: the universe `items` is chosen
/// at construction and never changes, and `counter` holds one count per item.
#[derive(Clone, Debug)]
pub struct FixedCounter {
    pub items: Vec<Card>,
    pub counter: Vec<usize>,
}

/// First position of a card in a universe, or -1 when absent.
pub open spec fn find_idx(items: Seq<Card>, c: Card) -> int
    decreases items.len(),
{
    if items.len() == 0 {
        -1
    } else if items[0] == c {
        0
    } else {
        let r = find_idx(items.drop_first(), c);
        if r == -1 {
            -1
        } else {
            r + 1
        }
    }
}

pub proof fn lemma_find_idx(items: Seq<Card>, c: Card)
    ensures
        find_idx(items, c) == -1 ==> forall|i: int| 0 <= i < items.len() ==> items[i] != c,
        find_idx(items, c) != -1 ==> 0 <= find_idx(items, c) < items.len() && items[find_idx(
            items,
            c,
        )] == c && forall|i: int| 0 <= i < find_idx(items, c) ==> items[i] != c,
    decreases items.len(),
{
    if items.len() == 0 {
    } else if items[0] == c {
    } else {
        lemma_find_idx(items.drop_first(), c);
        assert(forall|i: int|
            1 <= i < items.len() ==> items[i] == #[trigger] items.drop_first()[i - 1]);
        let rd = find_idx(items.drop_first(), c);
        if rd == -1 {
            assert(find_idx(items, c) == -1);
            assert forall|i: int| 0 <= i < items.len() implies items[i] != c by {
                if i >= 1 {
                    assert(items[i] == items.drop_first()[i - 1]);
                }
            }
        } else {
            assert(find_idx(items, c) == rd + 1);
            assert(items[rd + 1] == items.drop_first()[rd]);
            assert forall|i: int| 0 <= i < rd + 1 implies items[i] != c by {
                if i >= 1 {
                    assert(items[i] == items.drop_first()[i - 1]);
                }
            }
        }
    }
}

impl FixedCounter {
    /// Well-formedness: one count per item.
    pub open spec fn wf(&self) -> bool {
        self.items@.len() == self.counter@.len()
    }

    /// An entry is a valid handle into this counter.
    pub open spec fn owns(&self, e: FixedCounterEntry) -> bool {
        e.index < self.items@.len() && self.items@[e.index as int] == e.item
    }

    /// A counter over the given universe, with every count zero.
    pub fn new(items: Vec<Card>) -> (r: FixedCounter)
        ensures
            r.wf(),
            r.items@ == items@,
            forall|i: int| 0 <= i < r.counter@.len() ==> r.counter@[i] == 0,
    {
        let n: usize = items.len();
        let mut counter: Vec<usize> = Vec::new();
        let mut i: usize = 0;
        while i < n
            invariant
                i <= n,
                counter@.len() == i,
                forall|j: int| 0 <= j < i ==> counter@[j] == 0,
            decreases n - i,
        {
            counter.push(0);
            i = i + 1;
        }
        FixedCounter { items, counter }
    }

    /// A counter whose universe and counts are given pairwise.
    pub fn from(cards: &[(Card, usize)]) -> (r: FixedCounter)
        ensures
            r.wf(),
            r.items@.len() == cards@.len(),
            r.counter@.len() == cards@.len(),
            forall|i: int|
                0 <= i < cards@.len() ==> r.items@[i] == cards@[i].0 && r.counter@[i]
                    == cards@[i].1,
    {
        let n: usize = cards.len();
        let mut items: Vec<Card> = Vec::new();
        let mut counter: Vec<usize> = Vec::new();
        let mut i: usize = 0;
        while i < n
            invariant
                i <= n,
                n == cards@.len(),
                items@.len() == i,
                counter@.len() == i,
                forall|j: int|
                    0 <= j < i ==> items@[j] == cards@[j].0 && counter@[j] == cards@[j].1,
            decreases n - i,
        {
            let pair: (Card, usize) = cards[i];
            items.push(pair.0);
            counter.push(pair.1);
            i = i + 1;
        }
        FixedCounter { items, counter }
    }

    /// A counter with the same universe and every count zero.
    pub fn empty_clone(&self) -> (r: FixedCounter)
        requires
            self.wf(),
        ensures
            r.wf(),
            r.items@ == self.items@,
            forall|i: int| 0 <= i < r.counter@.len() ==> r.counter@[i] == 0,
    {
        let mut c: FixedCounter = self.duplicate();
        c.clear();
        c
    }

    /// An equal copy (the derived clone is opaque to the verifier, so the
    /// copy is rebuilt element by element).
    pub fn duplicate(&self) -> (r: FixedCounter)
        ensures
            r.items@ == self.items@,
            r.counter@ == self.counter@,
    {
        let mut items: Vec<Card> = Vec::new();
        let mut counter: Vec<usize> = Vec::new();
        let mut i: usize = 0;
        let n: usize = self.items.len();
        while i < n
            invariant
                i <= n,
                n == self.items@.len(),
                items@ == self.items@.take(i as int),
            decreases n - i,
        {
            items.push(self.items[i]);
            i = i + 1;
        }
        let mut j: usize = 0;
        let m: usize = self.counter.len();
        while j < m
            invariant
                j <= m,
                m == self.counter@.len(),
                counter@ == self.counter@.take(j as int),
            decreases m - j,
        {
            counter.push(self.counter[j]);
            j = j + 1;
        }
        proof {
            assert(items@ == self.items@);
            assert(counter@ == self.counter@);
        }
        FixedCounter { items, counter }
    }

    /// The item/count pairs, in universe order.
    pub fn iter(&self) -> (r: Vec<(Card, usize)>)
        requires
            self.wf(),
        ensures
            r@.len() == self.items@.len(),
            forall|i: int|
                0 <= i < r@.len() ==> r@[i] == (self.items@[i], self.counter@[i]),
    {
        let n: usize = self.items.len();
        let mut r: Vec<(Card, usize)> = Vec::new();
        let mut i: usize = 0;
        while i < n
            invariant
                i <= n,
                self.wf(),
                n == self.items@.len(),
                r@.len() == i,
                forall|j: int| 0 <= j < i ==> r@[j] == (self.items@[j], self.counter@[j]),
            decreases n - i,
        {
            r.push((self.items[i], self.counter[i]));
            i = i + 1;
        }
        r
    }

    /// Resets every count to zero.
    pub fn clear(&mut self)
        ensures
            final(self).items@ == old(self).items@,
            final(self).counter@.len() == old(self).counter@.len(),
            forall|i: int| 0 <= i < final(self).counter@.len() ==> final(self).counter@[i] == 0,
    {
        let n: usize = self.counter.len();
        let mut i: usize = 0;
        while i < n
            invariant
                i <= n,
                self.items@ == old(self).items@,
                self.counter@.len() == n,
                forall|j: int| 0 <= j < i ==> self.counter@[j] == 0,
            decreases n - i,
        {
            self.counter.set(i, 0);
            i = i + 1;
        }
    }

    /// Total number of cards counted, capped at `usize::MAX`.
    pub fn total(&self) -> (r: usize)
        ensures
            r as int == cap_usize(sum_counts(self.counter@)),
    {
        let n: usize = self.counter.len();
        let mut acc: usize = 0;
        let mut i: usize = 0;
        while i < n
            invariant
                i <= n,
                n == self.counter@.len(),
                acc as int == cap_usize(sum_to(self.counter@, i as int)),
            decreases n - i,
        {
            acc = add_cap(acc, self.counter[i]);
            i = i + 1;
        }
        acc
    }

    /// A handle for a card of the universe, or `None` when it is not there.
    pub fn get_entry(&self, item: &Card) -> (r: Option<FixedCounterEntry>)
        ensures
            r is Some <==> find_idx(self.items@, *item) != -1,
            r is Some ==> {
                let e = r->Some_0;
                e.index as int == find_idx(self.items@, *item) && e.item == *item && self.owns(e)
            },
    {
        proof {
            lemma_find_idx(self.items@, *item);
        }
        let n: usize = self.items.len();
        let mut i: usize = 0;
        while i < n
            invariant
                i <= n,
                n == self.items@.len(),
                forall|j: int| 0 <= j < i ==> self.items@[j] != *item,
            decreases n - i,
        {
            if self.items[i] == *item {
                proof {
                    assert(find_idx(self.items@, *item) == i as int) by {
                        lemma_find_idx(self.items@, *item);
                        assert(self.items@[i as int] == *item);
                    }
                }
                return Some(FixedCounterEntry { index: i, item: *item });
            }
            i = i + 1;
        }
        None
    }

    /// The count held for a handle.
    pub fn count_of(&self, e: &FixedCounterEntry) -> (r: usize)
        requires
            self.wf(),
            self.owns(*e),
        ensures
            r == self.counter@[e.index as int],
    {
        self.counter[e.index]
    }

    /// Raises the count of a handle, saturating.
    pub fn inc(&mut self, e: &FixedCounterEntry, n: usize)
        requires
            old(self).wf(),
            old(self).owns(*e),
        ensures
            final(self).wf(),
            final(self).items@ == old(self).items@,
            final(self).counter@ == old(self).counter@.update(
                e.index as int,
                (cap_usize(old(self).counter@[e.index as int] + n) as usize),
            ),
    {
        let c: usize = add_cap(self.counter[e.index], n);
        self.counter.set(e.index, c);
    }

    /// Lowers the count of a handle; the count must cover the decrease.
    pub fn dec(&mut self, e: &FixedCounterEntry, n: usize)
        requires
            old(self).wf(),
            old(self).owns(*e),
            n <= old(self).counter@[e.index as int],
        ensures
            final(self).wf(),
            final(self).items@ == old(self).items@,
            final(self).counter@ == old(self).counter@.update(
                e.index as int,
                (old(self).counter@[e.index as int] - n) as usize,
            ),
    {
        let c: usize = self.counter[e.index] - n;
        self.counter.set(e.index, c);
    }

    /// Adds another counter over the same universe, pointwise, saturating.
    pub fn add_all(&mut self, rhs: &FixedCounter)
        requires
            old(self).wf(),
            rhs.wf(),
            old(self).items@ == rhs.items@,
        ensures
            final(self).wf(),
            final(self).items@ == old(self).items@,
            final(self).counter@.len() == old(self).counter@.len(),
            forall|i: int|
                0 <= i < final(self).counter@.len() ==> final(self).counter@[i] as int == cap_usize(
                    old(self).counter@[i] + rhs.counter@[i],
                ),
    {
        let n: usize = self.counter.len();
        let mut i: usize = 0;
        while i < n
            invariant
                i <= n,
                self.wf(),
                rhs.wf(),
                self.items@ == old(self).items@,
                self.counter@.len() == n,
                old(self).counter@.len() == n,
                rhs.counter@.len() == n,
                forall|j: int|
                    i <= j < n ==> self.counter@[j] == old(self).counter@[j],
                forall|j: int|
                    0 <= j < i ==> self.counter@[j] as int == cap_usize(
                        old(self).counter@[j] + rhs.counter@[j],
                    ),
            decreases n - i,
        {
            let c: usize = add_cap(self.counter[i], rhs.counter[i]);
            self.counter.set(i, c);
            i = i + 1;
        }
    }
}

/// Contribution of position `k` of a pile to the total combat power.
pub open spec fn power_at(items: Seq<Card>, counts: Seq<usize>, k: int) -> int {
    match items[k] {
        Card::Summon { power, .. } => power * counts[k],
        _ => 0,
    }
}

/// Total combat power of the first `i` positions of a pile.
pub open spec fn power_to(items: Seq<Card>, counts: Seq<usize>, i: int) -> int
    decreases i,
{
    if i <= 0 {
        0
    } else {
        power_to(items, counts, i - 1) + power_at(items, counts, i - 1)
    }
}

/// Contribution of position `k` to the total toughness.
pub open spec fn toughness_at(items: Seq<Card>, counts: Seq<usize>, k: int) -> int {
    match items[k] {
        Card::Summon { toughness, .. } => toughness * counts[k],
        _ => 0,
    }
}

pub open spec fn toughness_to(items: Seq<Card>, counts: Seq<usize>, i: int) -> int
    decreases i,
{
    if i <= 0 {
        0
    } else {
        toughness_to(items, counts, i - 1) + toughness_at(items, counts, i - 1)
    }
}

/// Number of lands among the first `i` positions of a pile.
pub open spec fn lands_to(items: Seq<Card>, counts: Seq<usize>, i: int) -> int
    decreases i,
{
    if i <= 0 {
        0
    } else {
        lands_to(items, counts, i - 1) + (if items[i - 1] is Land {
            counts[i - 1] as int
        } else {
            0
        })
    }
}

/// Number of summons among the first `i` positions of a pile.
pub open spec fn summons_to(items: Seq<Card>, counts: Seq<usize>, i: int) -> int
    decreases i,
{
    if i <= 0 {
        0
    } else {
        summons_to(items, counts, i - 1) + (if items[i - 1] is Summon {
            counts[i - 1] as int
        } else {
            0
        })
    }
}

/// Totals of what has been played so far, plus hand size and damage.
#[derive(Clone, Copy, Debug, PartialEq, Eq, Structural)]
pub struct FieldStats {
    pub lands: usize,
    pub power: usize,
    pub toughness: usize,
    pub summons: usize,
    pub hand: usize,
    pub damage: usize,
}

/// Mirror of the greedy mana-tapping walk: sources are visited in order and
/// each is tapped for as much of the still-needed cost as it holds.
/// Returns the untapped counts, tapped counts and total spent after the
/// first `i` sources.
pub open spec fn tap_walk(
    unt: Seq<usize>,
    tap: Seq<usize>,
    srcs: Seq<FixedCounterEntry>,
    cost: int,
    i: int,
) -> (Seq<usize>, Seq<usize>, int)
    decreases i,
{
    if i <= 0 {
        (unt, tap, 0)
    } else {
        let prev = tap_walk(unt, tap, srcs, cost, i - 1);
        let u = prev.0;
        let t = prev.1;
        let sum = prev.2;
        let idx = srcs[i - 1].index as int;
        let avail = u[idx] as int;
        let needed = cost - sum;
        let spend = if needed <= avail {
            needed
        } else {
            avail
        };
        (
            u.update(idx, (avail - spend) as usize),
            t.update(idx, cap_usize(t[idx] + spend) as usize),
            sum + spend,
        )
    }
}

/// Capped sum of the untapped counts held by the first `i` sources.
pub open spec fn src_total(counts: Seq<usize>, srcs: Seq<FixedCounterEntry>, i: int) -> int
    decreases i,
{
    if i <= 0 {
        0
    } else {
        cap_usize(src_total(counts, srcs, i - 1) + counts[srcs[i - 1].index as int])
    }
}

/// No two sources name the same position.
pub open spec fn distinct_sources(srcs: Seq<FixedCounterEntry>) -> bool {
    forall|i: int, j: int|
        0 <= i < j < srcs.len() ==> #[trigger] srcs[i].index != #[trigger] srcs[j].index
}

/// The battlefield of one player: the deck, the hand, and the played cards
/// split into tapped and untapped piles, all over one universe of cards.
pub struct Field {
    pub deck: FixedCounter,
    pub hand: FixedCounter,
    pub tapped: FixedCounter,
    pub untapped: FixedCounter,
    pub damage: usize,
    pub turn: usize,
}

impl Field {
    /// All four piles are well-formed and share the deck's universe.
    pub open spec fn wf(&self) -> bool {
        &&& self.deck.wf()
        &&& self.hand.wf()
        &&& self.tapped.wf()
        &&& self.untapped.wf()
        &&& self.hand.items@ == self.deck.items@
        &&& self.tapped.items@ == self.deck.items@
        &&& self.untapped.items@ == self.deck.items@
    }

    /// A fresh battlefield: everything still in the deck.
    pub fn new(deck: FixedCounter) -> (r: Field)
        requires
            deck.wf(),
        ensures
            r.wf(),
            r.deck.items@ == deck.items@,
            r.deck.counter@ == deck.counter@,
            r.damage == 0,
            r.turn == 0,
            forall|i: int| 0 <= i < r.hand.counter@.len() ==> r.hand.counter@[i] == 0,
            forall|i: int| 0 <= i < r.tapped.counter@.len() ==> r.tapped.counter@[i] == 0,
            forall|i: int| 0 <= i < r.untapped.counter@.len() ==> r.untapped.counter@[i] == 0,
    {
        Field {
            hand: deck.empty_clone(),
            tapped: deck.empty_clone(),
            untapped: deck.empty_clone(),
            deck,
            damage: 0,
            turn: 0,
        }
    }

    /// Returns every tapped card to the untapped pile.
    pub fn untap(&mut self)
        requires
            old(self).wf(),
        ensures
            final(self).wf(),
            final(self).deck == old(self).deck,
            final(self).hand == old(self).hand,
            final(self).damage == old(self).damage,
            final(self).turn == old(self).turn,
            forall|i: int|
                0 <= i < final(self).untapped.counter@.len() ==> final(self).untapped.counter@[i] as int
                    == cap_usize(old(self).untapped.counter@[i] + old(self).tapped.counter@[i]),
            forall|i: int| 0 <= i < final(self).tapped.counter@.len() ==> final(self).tapped.counter@[i] == 0,
    {
        let tapped: FixedCounter = self.tapped.duplicate();
        self.untapped.add_all(&tapped);
        self.tapped.clear();
    }

    /// Every untapped creature deals its power in damage.
    pub fn combat(&mut self)
        requires
            old(self).wf(),
        ensures
            final(self).wf(),
            final(self).deck == old(self).deck,
            final(self).hand == old(self).hand,
            final(self).tapped == old(self).tapped,
            final(self).untapped == old(self).untapped,
            final(self).turn == old(self).turn,
            final(self).damage as int == cap_usize(
                old(self).damage + power_to(
                    old(self).untapped.items@,
                    old(self).untapped.counter@,
                    old(self).untapped.items@.len() as int,
                ),
            ),
    {
        let n: usize = self.untapped.items.len();
        let mut i: usize = 0;
        while i < n
            invariant
                i <= n,
                self.wf(),
                n == self.untapped.items@.len(),
                self.deck == old(self).deck,
                self.hand == old(self).hand,
                self.tapped == old(self).tapped,
                self.untapped == old(self).untapped,
                self.turn == old(self).turn,
                self.damage as int == cap_usize(
                    old(self).damage + power_to(self.untapped.items@, self.untapped.counter@, i as int),
                ),
            decreases n - i,
        {
            match self.untapped.items[i] {
                Card::Summon { power, .. } => {
                    let d: usize = mul_cap(power, self.untapped.counter[i]);
                    self.damage = add_cap(self.damage, d);
                },
                _ => {},
            }
            i = i + 1;
        }
    }

    /// Closes the turn.
    pub fn end(&mut self)
        requires
            old(self).turn < usize::MAX,
        ensures
            final(self).turn == old(self).turn + 1,
            final(self).deck == old(self).deck,
            final(self).hand == old(self).hand,
            final(self).tapped == old(self).tapped,
            final(self).untapped == old(self).untapped,
            final(self).damage == old(self).damage,
    {
        self.turn = self.turn + 1;
    }

    /// Totals over both played piles, the hand size and the damage so far.
    pub fn played_stats(&self) -> (r: FieldStats)
        requires
            self.wf(),
        ensures
            ({
                let items = self.deck.items@;
                let n = items.len() as int;
                let u = self.untapped.counter@;
                let t = self.tapped.counter@;
                &&& r.lands as int == cap_usize(lands_to(items, u, n) + lands_to(items, t, n))
                &&& r.power as int == cap_usize(power_to(items, u, n) + power_to(items, t, n))
                &&& r.toughness as int == cap_usize(
                    toughness_to(items, u, n) + toughness_to(items, t, n),
                )
                &&& r.summons as int == cap_usize(
                    summons_to(items, u, n) + summons_to(items, t, n),
                )
                &&& r.hand as int == cap_usize(sum_counts(self.hand.counter@))
                &&& r.damage == self.damage
            }),
    {
        let n: usize = self.deck.items.len();
        let mut lands: usize = 0;
        let mut power: usize = 0;
        let mut toughness: usize = 0;
        let mut summons: usize = 0;
        let mut i: usize = 0;
        while i < n
            invariant
                i <= n,
                self.wf(),
                n == self.deck.items@.len(),
                lands as int == cap_usize(lands_to(self.deck.items@, self.untapped.counter@, i as int)),
                power as int == cap_usize(power_to(self.deck.items@, self.untapped.counter@, i as int)),
                toughness as int == cap_usize(
                    toughness_to(self.deck.items@, self.untapped.counter@, i as int),
                ),
                summons as int == cap_usize(
                    summons_to(self.deck.items@, self.untapped.counter@, i as int),
                ),
            decreases n - i,
        {
            match self.deck.items[i] {
                Card::Land => {
                    lands = add_cap(lands, self.untapped.counter[i]);
                },
                Card::Summon { power: p, toughness: t, .. } => {
                    summons = add_cap(summons, self.untapped.counter[i]);
                    power = add_cap(power, mul_cap(p, self.untapped.counter[i]));
                    toughness = add_cap(toughness, mul_cap(t, self.untapped.counter[i]));
                },
                Card::Other => {},
            }
            i = i + 1;
        }
        let ghost items = self.deck.items@;
        let ghost u = self.untapped.counter@;
        let ghost t = self.tapped.counter@;
        let ghost nn = n as int;
        let mut j: usize = 0;
        while j < n
            invariant
                j <= n,
                self.wf(),
                n == self.deck.items@.len(),
                items == self.deck.items@,
                u == self.untapped.counter@,
                t == self.tapped.counter@,
                nn == n as int,
                lands as int == cap_usize(lands_to(items, u, nn) + lands_to(items, t, j as int)),
                power as int == cap_usize(power_to(items, u, nn) + power_to(items, t, j as int)),
                toughness as int == cap_usize(
                    toughness_to(items, u, nn) + toughness_to(items, t, j as int),
                ),
                summons as int == cap_usize(
                    summons_to(items, u, nn) + summons_to(items, t, j as int),
                ),
            decreases n - j,
        {
            match self.deck.items[j] {
                Card::Land => {
                    lands = add_cap(lands, self.tapped.counter[j]);
                },
                Card::Summon { power: p, toughness: t2, .. } => {
                    summons = add_cap(summons, self.tapped.counter[j]);
                    power = add_cap(power, mul_cap(p, self.tapped.counter[j]));
                    toughness = add_cap(toughness, mul_cap(t2, self.tapped.counter[j]));
                },
                Card::Other => {},
            }
            j = j + 1;
        }
        let hand: usize = self.hand.total();
        FieldStats { lands, power, toughness, summons, hand, damage: self.damage }
    }

    /// Taps the given sources, in order, until `cost` mana is paid.
    /// Fails, changing nothing, when the sources do not hold enough.
    pub fn tap_for_mana(&mut self, mana_sources: &[FixedCounterEntry], cost: usize) -> (r: bool)
        requires
            old(self).wf(),
            forall|k: int|
                0 <= k < mana_sources@.len() ==> old(self).untapped.owns(
                    #[trigger] mana_sources@[k],
                ),
            distinct_sources(mana_sources@),
        ensures
            final(self).wf(),
            final(self).deck == old(self).deck,
            final(self).hand == old(self).hand,
            final(self).damage == old(self).damage,
            final(self).turn == old(self).turn,
            r == (src_total(
                old(self).untapped.counter@,
                mana_sources@,
                mana_sources@.len() as int,
            ) >= cost),
            !r ==> final(self).untapped == old(self).untapped && final(self).tapped == old(self).tapped,
            r ==> ({
                let w = tap_walk(
                    old(self).untapped.counter@,
                    old(self).tapped.counter@,
                    mana_sources@,
                    cost as int,
                    mana_sources@.len() as int,
                );
                final(self).untapped.counter@ == w.0 && final(self).tapped.counter@ == w.1
            }),
    {
        let n: usize = mana_sources.len();
        let mut total: usize = 0;
        let mut i: usize = 0;
        while i < n
            invariant
                i <= n,
                old(self).wf(),
                self == old(self),
                n == mana_sources@.len(),
                forall|k: int|
                    0 <= k < n ==> old(self).untapped.owns(#[trigger] mana_sources@[k]),
                total as int == src_total(old(self).untapped.counter@, mana_sources@, i as int),
            decreases n - i,
        {
            let e: FixedCounterEntry = mana_sources[i];
            total = add_cap(total, self.untapped.count_of(&e));
            i = i + 1;
        }
        if total < cost {
            return false;
        }
        let mut sum: usize = 0;
        let mut j: usize = 0;
        while j < n
            invariant
                j <= n,
                self.wf(),
                n == mana_sources@.len(),
                sum <= cost,
                distinct_sources(mana_sources@),
                self.deck == old(self).deck,
                self.hand == old(self).hand,
                self.damage == old(self).damage,
                self.turn == old(self).turn,
                forall|k: int|
                    0 <= k < n ==> self.untapped.owns(#[trigger] mana_sources@[k]),
                forall|k: int|
                    0 <= k < n ==> self.tapped.owns(#[trigger] mana_sources@[k]),
                ({
                    let w = tap_walk(
                        old(self).untapped.counter@,
                        old(self).tapped.counter@,
                        mana_sources@,
                        cost as int,
                        j as int,
                    );
                    self.untapped.counter@ == w.0 && self.tapped.counter@ == w.1 && sum as int
                        == w.2
                }),
            decreases n - j,
        {
            let m: FixedCounterEntry = mana_sources[j];
            let available: usize = self.untapped.count_of(&m);
            let needed: usize = cost - sum;
            let to_spend: usize = if needed <= available {
                needed
            } else {
                available
            };
            self.untapped.dec(&m, to_spend);
            self.tapped.inc(&m, to_spend);
            sum = sum + to_spend;
            j = j + 1;
        }
        true
    }

    /// Plays one copy of a card from the hand: a land goes to the untapped
    /// pile; a summon is paid for from the mana sources and goes to the
    /// tapped pile.  Fails, changing nothing, when the card is not in hand
    /// or the mana does not suffice.
    pub fn play(&mut self, card: &FixedCounterEntry, mana_sources: &[FixedCounterEntry]) -> (r:
        bool)
        requires
            old(self).wf(),
            old(self).hand.owns(*card),
            card.item != Card::Other,
            forall|k: int|
                0 <= k < mana_sources@.len() ==> old(self).untapped.owns(
                    #[trigger] mana_sources@[k],
                ),
            distinct_sources(mana_sources@),
        ensures
            final(self).wf(),
            final(self).deck == old(self).deck,
            final(self).damage == old(self).damage,
            final(self).turn == old(self).turn,
            !r ==> *final(self) == *old(self),
            r ==> final(self).hand.counter@ == old(self).hand.counter@.update(
                card.index as int,
                (old(self).hand.counter@[card.index as int] - 1) as usize,
            ),
            r ==> old(self).hand.counter@[card.index as int] > 0,
            card.item is Land ==> {
                &&& r == (old(self).hand.counter@[card.index as int] > 0)
                &&& (r ==> final(self).tapped == old(self).tapped
                    && final(self).untapped.counter@ == old(self).untapped.counter@.update(
                    card.index as int,
                    cap_usize(old(self).untapped.counter@[card.index as int] + 1) as usize,
                ))
            },
            card.item matches Card::Summon { cost, .. } ==> {
                &&& r == (old(self).hand.counter@[card.index as int] > 0 && src_total(
                    old(self).untapped.counter@,
                    mana_sources@,
                    mana_sources@.len() as int,
                ) >= cost)
                &&& (r ==> {
                    let w = tap_walk(
                        old(self).untapped.counter@,
                        old(self).tapped.counter@,
                        mana_sources@,
                        cost as int,
                        mana_sources@.len() as int,
                    );
                    final(self).untapped.counter@ == w.0 && final(self).tapped.counter@
                        == w.1.update(
                        card.index as int,
                        cap_usize(w.1[card.index as int] + 1) as usize,
                    )
                })
            },
    {
        if self.hand.count_of(card) == 0 {
            return false;
        }
        match card.item {
            Card::Land => {
                self.hand.dec(card, 1);
                self.untapped.inc(card, 1);
                true
            },
            Card::Summon { cost, .. } => {
                if self.tap_for_mana(mana_sources, cost) {
                    self.hand.dec(card, 1);
                    self.tapped.inc(card, 1);
                    true
                } else {
                    false
                }
            },
            Card::Other => false,
        }
    }

    /// Plays one copy of a card named by value, paying with lands.
    /// Fails when the card or `Land` is missing from the deck's universe.
    pub fn play_card(&mut self, card: Card) -> (r: bool)
        requires
            old(self).wf(),
            card != Card::Other,
        ensures
            final(self).wf(),
            final(self).deck == old(self).deck,
            final(self).damage == old(self).damage,
            final(self).turn == old(self).turn,
            find_idx(old(self).deck.items@, Card::Land) == -1 ==> *final(self) == *old(self) && !r,
            find_idx(old(self).deck.items@, card) == -1 ==> *final(self) == *old(self) && !r,
    {
        proof {
            lemma_find_idx(self.deck.items@, Card::Land);
            lemma_find_idx(self.deck.items@, card);
        }
        let land: Option<FixedCounterEntry> = self.deck.get_entry(&Card::Land);
        match land {
            None => false,
            Some(land) => {
                match self.deck.get_entry(&card) {
                    Some(entry) => {
                        let sources: [FixedCounterEntry; 1] = [land];
                        self.play(&entry, &sources)
                    },
                    None => false,
                }
            },
        }
    }

    /// Plays copies of the card until a play fails.
    pub fn play_while_possible(
        &mut self,
        card: &FixedCounterEntry,
        mana_sources: &[FixedCounterEntry],
    )
        requires
            old(self).wf(),
            old(self).hand.owns(*card),
            card.item != Card::Other,
            forall|k: int|
                0 <= k < mana_sources@.len() ==> old(self).untapped.owns(
                    #[trigger] mana_sources@[k],
                ),
            distinct_sources(mana_sources@),
        ensures
            final(self).wf(),
            final(self).deck == old(self).deck,
            final(self).damage == old(self).damage,
            final(self).turn == old(self).turn,
    {
        let mut res: bool = self.play(card, mana_sources);
        while res
            invariant
                self.wf(),
                self.hand.owns(*card),
                card.item != Card::Other,
                forall|k: int|
                    0 <= k < mana_sources@.len() ==> self.untapped.owns(
                        #[trigger] mana_sources@[k],
                    ),
                distinct_sources(mana_sources@),
                self.deck == old(self).deck,
                self.damage == old(self).damage,
                self.turn == old(self).turn,
            decreases self.hand.counter@[card.index as int] + (if res {
                1int
            } else {
                0int
            }),
        {
            res = self.play(card, mana_sources);
        }
    }

    /// Plays copies of a card named by value until a play fails.
    pub fn play_card_while_possible(&mut self, card: Card)
        requires
            old(self).wf(),
            card != Card::Other,
        ensures
            final(self).wf(),
            final(self).deck == old(self).deck,
            final(self).damage == old(self).damage,
            final(self).turn == old(self).turn,
    {
        proof {
            lemma_find_idx(self.deck.items@, Card::Land);
            lemma_find_idx(self.deck.items@, card);
        }
        let land: Option<FixedCounterEntry> = self.deck.get_entry(&Card::Land);
        match land {
            None => {},
            Some(land) => {
                match self.deck.get_entry(&card) {
                    Some(entry) => {
                        let sources: [FixedCounterEntry; 1] = [land];
                        self.play_while_possible(&entry, &sources);
                    },
                    None => {},
                }
            },
        }
    }
}

/// The pseudo-random generator used for shuffled draws, declared so that
/// verified signatures can carry it; its inner state is opaque here.
#[verifier::external_type_specification]
#[verifier::external_body]
pub struct ExStdRng(rand::rngs::StdRng);

/// Relies on `rand::Rng::gen_range` over `0..n`: returns a draw below `n`.
/// Nothing more is assumed of the value: callers hold for every outcome.
#[verifier::external_body]
pub(crate) fn rng_below(r: &mut rand::rngs::StdRng, n: usize) -> (s: usize)
    requires
        n > 0,
    ensures
        s < n,
{
    rand::Rng::gen_range(r, 0..n)
}

pub proof fn lemma_sum_to_nonneg(s: Seq<usize>, i: int)
    ensures
        sum_to(s, i) >= 0,
    decreases i,
{
    if i > 0 {
        lemma_sum_to_nonneg(s, i - 1);
    }
}

/// How a count sequence's sum changes under a pointwise update.
pub proof fn lemma_sum_update(s: Seq<usize>, j: int, v: usize, i: int)
    requires
        0 <= j < s.len(),
        i <= s.len(),
    ensures
        sum_to(s.update(j, v), i) == sum_to(s, i) + (if j < i {
            v - s[j]
        } else {
            0int
        }),
    decreases i,
{
    if i > 0 {
        lemma_sum_update(s, j, v, i - 1);
        if j == i - 1 {
            assert(s.update(j, v)[i - 1] == v);
        } else {
            assert(s.update(j, v)[i - 1] == s[i - 1]);
        }
    }
}

/// Picks the weighted bucket a sample value falls in: bucket `r` covers the
/// samples from `sum_to(weights, r)` up to (not including) `sum_to(weights, r+1)`.
pub fn sample_categorical_at(weights: &[usize], sample: usize) -> (r: usize)
    requires
        (sample as int) < sum_counts(weights@),
    ensures
        r < weights@.len(),
        sum_to(weights@, r as int) <= sample as int,
        (sample as int) < sum_to(weights@, r as int + 1),
        weights@[r as int] > 0,
{
    let n: usize = weights.len();
    let mut idx: usize = 0;
    let mut s: usize = sample;
    while idx < n
        invariant
            idx <= n,
            n == weights@.len(),
            (sample as int) < sum_counts(weights@),
            s as int == sample as int - sum_to(weights@, idx as int),
            s >= 0,
        decreases n - idx,
    {
        if s < weights[idx] {
            return idx;
        }
        s = s - weights[idx];
        idx = idx + 1;
    }
    proof {
        assert(sum_counts(weights@) == sum_to(weights@, n as int));
        assert(false);
    }
    0
}

/// Draws one card at random, weighted by the remaining deck counts.
/// Relies only on the draw being below the deck total: the contract holds
/// for every outcome.
pub fn sample_deck(deck: &FixedCounter, r: &mut rand::rngs::StdRng) -> (e: FixedCounterEntry)
    requires
        deck.wf(),
        sum_counts(deck.counter@) > 0,
    ensures
        deck.owns(e),
        deck.counter@[e.index as int] > 0,
{
    proof {
        lemma_sum_to_nonneg(deck.counter@, deck.counter@.len() as int);
    }
    let total: usize = deck.total();
    let s: usize = rng_below(r, total);
    proof {
        if sum_counts(deck.counter@) > usize::MAX as int {
            assert((s as int) < sum_counts(deck.counter@));
        }
    }
    let idx: usize = sample_categorical_at(self_counter_slice(deck), s);
    FixedCounterEntry { index: idx, item: deck.items[idx] }
}

/// The counter vector as a slice (a view helper).
fn self_counter_slice(deck: &FixedCounter) -> (r: &[usize])
    ensures
        r@ == deck.counter@,
{
    deck.counter.as_slice()
}

impl Field {
    /// Moves one randomly drawn card from the deck to the hand.
    pub fn draw_card(&mut self, r: &mut rand::rngs::StdRng) -> (e: FixedCounterEntry)
        requires
            old(self).wf(),
            sum_counts(old(self).deck.counter@) > 0,
        ensures
            final(self).wf(),
            old(self).deck.owns(e),
            final(self).hand.items@ == old(self).hand.items@,
            final(self).hand.counter@ == old(self).hand.counter@.update(
                e.index as int,
                cap_usize(old(self).hand.counter@[e.index as int] + 1) as usize,
            ),
            final(self).deck.items@ == old(self).deck.items@,
            final(self).deck.counter@ == old(self).deck.counter@.update(
                e.index as int,
                (old(self).deck.counter@[e.index as int] - 1) as usize,
            ),
            old(self).deck.counter@[e.index as int] > 0,
            sum_counts(final(self).deck.counter@) == sum_counts(old(self).deck.counter@) - 1,
            final(self).tapped == old(self).tapped,
            final(self).untapped == old(self).untapped,
            final(self).damage == old(self).damage,
            final(self).turn == old(self).turn,
    {
        let e: FixedCounterEntry = sample_deck(&self.deck, r);
        self.deck.dec(&e, 1);
        self.hand.inc(&e, 1);
        proof {
            lemma_sum_update(
                old(self).deck.counter@,
                e.index as int,
                (old(self).deck.counter@[e.index as int] - 1) as usize,
                old(self).deck.counter@.len() as int,
            );
        }
        e
    }

    /// Draws the opening hand of seven cards.
    pub fn init(&mut self, r: &mut rand::rngs::StdRng)
        requires
            old(self).wf(),
            sum_counts(old(self).deck.counter@) >= 7,
        ensures
            final(self).wf(),
            sum_counts(final(self).deck.counter@) == sum_counts(old(self).deck.counter@) - 7,
            final(self).deck.items@ == old(self).deck.items@,
            final(self).tapped == old(self).tapped,
            final(self).untapped == old(self).untapped,
            final(self).damage == old(self).damage,
            final(self).turn == old(self).turn,
    {
        let mut i: usize = 0;
        while i < 7
            invariant
                i <= 7,
                self.wf(),
                sum_counts(old(self).deck.counter@) >= 7,
                sum_counts(self.deck.counter@) == sum_counts(old(self).deck.counter@) - i,
                self.deck.items@ == old(self).deck.items@,
                self.tapped == old(self).tapped,
                self.untapped == old(self).untapped,
                self.damage == old(self).damage,
                self.turn == old(self).turn,
            decreases 7 - i,
        {
            self.draw_card(r);
            i = i + 1;
        }
    }

    /// Starts a turn: draws a card and untaps everything.
    pub fn begin(&mut self, r: &mut rand::rngs::StdRng)
        requires
            old(self).wf(),
            sum_counts(old(self).deck.counter@) > 0,
        ensures
            final(self).wf(),
            sum_counts(final(self).deck.counter@) == sum_counts(old(self).deck.counter@) - 1,
            final(self).deck.items@ == old(self).deck.items@,
            final(self).damage == old(self).damage,
            final(self).turn == old(self).turn,
            forall|i: int| 0 <= i < final(self).tapped.counter@.len() ==> final(self).tapped.counter@[i] == 0,
    {
        self.draw_card(r);
        self.untap();
    }
}

/// A partial mana-spending plan: how much is spent so far, and which card
/// of the deck list is decided next.
#[derive(Clone, Copy, Debug, PartialEq, Eq, Structural, Hash)]
pub struct ManaSpend {
    pub spend: usize,
    pub curr_idx: usize,
}

/// The mana-spending search problem: which multiples of each card to play
/// so that at most `total` mana is spent.
pub struct Problem {
    pub cards: Vec<Card>,
    pub counts: Vec<usize>,
    pub total: usize,
}

impl Problem {
    /// One count per card.
    pub open spec fn wf(&self) -> bool {
        self.cards@.len() == self.counts@.len()
    }

    pub fn new(cards: &[Card], counts: &[usize], total: usize) -> (r: Problem)
        requires
            cards@.len() == counts@.len(),
        ensures
            r.wf(),
            r.cards@ == cards@,
            r.counts@ == counts@,
            r.total == total,
    {
        let mut cv: Vec<Card> = Vec::new();
        let mut nv: Vec<usize> = Vec::new();
        let mut i: usize = 0;
        let n: usize = cards.len();
        while i < n
            invariant
                i <= n,
                n == cards@.len(),
                n == counts@.len(),
                cv@ == cards@.take(i as int),
                nv@ == counts@.take(i as int),
            decreases n - i,
        {
            cv.push(cards[i]);
            nv.push(counts[i]);
            i = i + 1;
        }
        proof {
            assert(cv@ == cards@);
            assert(nv@ == counts@);
        }
        Problem { cards: cv, counts: nv, total }
    }

    /// Nothing spent, first card up next.
    pub fn initial_state(&self) -> (r: ManaSpend)
        ensures
            r == (ManaSpend { spend: 0, curr_idx: 0 }),
    {
        ManaSpend { spend: 0, curr_idx: 0 }
    }

    /// A state is terminal once every card has been decided.
    pub fn is_terminal(&self, state: &ManaSpend) -> (r: bool)
        ensures
            r == (state.curr_idx == self.cards@.len()),
    {
        state.curr_idx == self.cards.len()
    }

    /// The inclusive range of how many copies of the current card may be
    /// played: `(1, 0)` is the empty range of a terminal state.
    pub fn actions(&self, state: &ManaSpend) -> (r: (usize, usize))
        requires
            self.wf(),
            state.curr_idx <= self.cards@.len(),
            state.spend <= self.total,
        ensures
            state.curr_idx == self.cards@.len() ==> r == (1usize, 0usize),
            state.curr_idx < self.cards@.len() ==> {
                let cost = (match self.cards@[state.curr_idx as int] {
                    Card::Summon { cost, .. } => cost as int,
                    _ => 0,
                });
                if state.spend == self.total {
                    r == (0usize, 0usize)
                } else if cost == 0 {
                    r == (0usize, 0usize)
                } else {
                    r.0 == 0 && r.1 as int == (if self.counts@[state.curr_idx as int] as int
                        <= (self.total - state.spend) / cost {
                        self.counts@[state.curr_idx as int] as int
                    } else {
                        (self.total - state.spend) / cost
                    })
                }
            },
    {
        if self.is_terminal(state) {
            return (1, 0);
        }
        if state.spend == self.total {
            return (0, 0);
        }
        let card: Card = self.cards[state.curr_idx];
        let cost: usize = match card.cost() {
            Some(c) => c,
            None => 0,
        };
        if cost == 0 {
            return (0, 0);
        }
        let left: usize = self.total - state.spend;
        let max_before_goal: usize = left / cost;
        let max_available: usize = self.counts[state.curr_idx];
        let limit: usize = if max_available <= max_before_goal {
            max_available
        } else {
            max_before_goal
        };
        (0, limit)
    }

    /// Plays `action` copies of the current card: the successor state and
    /// the combat power gained.
    pub fn next_state(&self, state: &ManaSpend, action: usize) -> (r: (ManaSpend, usize))
        requires
            self.wf(),
            state.curr_idx < self.cards@.len(),
        ensures
            ({
                let cost = (match self.cards@[state.curr_idx as int] {
                    Card::Summon { cost, .. } => cost as int,
                    _ => 0,
                });
                let power = (match self.cards@[state.curr_idx as int] {
                    Card::Summon { power, .. } => power as int,
                    _ => 0,
                });
                &&& r.0.spend as int == cap_usize(state.spend + cap_usize(cost * action))
                &&& r.0.curr_idx == state.curr_idx + 1
                &&& r.1 as int == cap_usize(power * action)
            }),
    {
        let _len: usize = self.cards.len();
        let card: Card = self.cards[state.curr_idx];
        let cost: usize = match card.cost() {
            Some(c) => c,
            None => 0,
        };
        let power: usize = match card.power() {
            Some(p) => p,
            None => 0,
        };
        (
            ManaSpend {
                spend: add_cap(state.spend, mul_cap(cost, action)),
                curr_idx: state.curr_idx + 1,
            },
            mul_cap(power, action),
        )
    }
}

/// Index of the first entry with the greatest score among the first `i`.
pub open spec fn first_max_idx<T>(s: Seq<(i64, T)>, i: int) -> int
    decreases i,
{
    if i <= 1 {
        0
    } else {
        let m = first_max_idx(s, i - 1);
        if s[i - 1].0 > s[m].0 {
            i - 1
        } else {
            m
        }
    }
}

/// Keeps the `size` lowest-scored items pushed so far: a full container
/// rejects a pushed item unless its score beats the worst one held, which
/// is then evicted.
pub struct SmallestK<T> {
    pub size: usize,
    pub entries: Vec<(i64, T)>,
}

impl<T: Copy> SmallestK<T> {
    pub fn new(size: usize) -> (r: SmallestK<T>)
        ensures
            r.size == size,
            r.entries@.len() == 0,
    {
        SmallestK { size, entries: Vec::new() }
    }

    /// Offers an item with a score.
    pub fn push(&mut self, item: T, score: i64)
        requires
            old(self).size > 0,
            old(self).entries@.len() <= old(self).size,
        ensures
            final(self).size == old(self).size,
            final(self).entries@.len() <= final(self).size,
            old(self).entries@.len() < old(self).size ==> final(self).entries@ == old(
                self,
            ).entries@.push((score, item)),
            old(self).entries@.len() == old(self).size ==> {
                let m = first_max_idx(old(self).entries@, old(self).entries@.len() as int);
                if score < old(self).entries@[m].0 {
                    final(self).entries@ == old(self).entries@.update(m, (score, item))
                } else {
                    final(self).entries@ == old(self).entries@
                }
            },
    {
        let n: usize = self.entries.len();
        if n < self.size {
            self.entries.push((score, item));
        } else {
            let mut m: usize = 0;
            let mut i: usize = 1;
            while i < n
                invariant
                    1 <= i <= n,
                    m < i,
                    n == self.entries@.len(),
                    m as int == first_max_idx(self.entries@, i as int),
                decreases n - i,
            {
                if self.entries[i].0 > self.entries[m].0 {
                    m = i;
                }
                i = i + 1;
            }
            if score < self.entries[m].0 {
                self.entries.set(m, (score, item));
            }
        }
    }

    /// The items held, in internal order.
    pub fn items(&self) -> (r: Vec<T>)
        ensures
            r@.len() == self.entries@.len(),
            forall|i: int| 0 <= i < r@.len() ==> r@[i] == self.entries@[i].1,
    {
        let n: usize = self.entries.len();
        let mut r: Vec<T> = Vec::new();
        let mut i: usize = 0;
        while i < n
            invariant
                i <= n,
                n == self.entries@.len(),
                r@.len() == i,
                forall|j: int| 0 <= j < i ==> r@[j] == self.entries@[j].1,
            decreases n - i,
        {
            r.push(self.entries[i].1);
            i = i + 1;
        }
        r
    }
}

/// Running totals of a count sequence: entry `i` holds the sum of the
/// first `i + 1` inputs, capped at `usize::MAX`.
pub fn cumulative_sum(data: &Vec<usize>) -> (r: Vec<usize>)
    ensures
        r@.len() == data@.len(),
        forall|i: int| 0 <= i < r@.len() ==> r@[i] as int == cap_usize(sum_to(data@, i + 1)),
{
    let n: usize = data.len();
    let mut r: Vec<usize> = Vec::new();
    let mut acc: usize = 0;
    let mut i: usize = 0;
    while i < n
        invariant
            i <= n,
            n == data@.len(),
            r@.len() == i,
            acc as int == cap_usize(sum_to(data@, i as int)),
            forall|j: int| 0 <= j < i ==> r@[j] as int == cap_usize(sum_to(data@, j + 1)),
        decreases n - i,
    {
        proof {
            lemma_sum_to_nonneg(data@, i as int);
        }
        acc = add_cap(acc, data[i]);
        r.push(acc);
        i = i + 1;
    }
    r
}

/// Exact character-for-character equality of two string slices.
pub fn str_eq(a: &str, b: &str) -> (r: bool)
    ensures
        r == (a@ == b@),
{
    let na: usize = a.unicode_len();
    let nb: usize = b.unicode_len();
    if na != nb {
        proof {
            assert(a@ != b@);
        }
        return false;
    }
    let mut i: usize = 0;
    while i < na
        invariant
            i <= na,
            na == a@.len(),
            na == b@.len(),
            forall|j: int| 0 <= j < i ==> a@[j] == b@[j],
        decreases na - i,
    {
        if a.get_char(i) != b.get_char(i) {
            return false;
        }
        i = i + 1;
    }
    proof {
        assert(a@ =~= b@);
    }
    true
}

/// A plain creature card costing and hitting `k`.
pub open spec fn s_simple_summon(k: usize) -> Card {
    Card::Summon { cost: k, power: k, toughness: k, ability_tap_mana: false }
}

/// A creature card that can also tap for mana.
pub open spec fn s_mana_summon(k: usize) -> Card {
    Card::Summon { cost: k, power: k, toughness: k, ability_tap_mana: true }
}

/// The "mono" deck: lands, three creature drops on a halving curve, and
/// filler up to sixty cards.
pub open spec fn mono_deck_items() -> Seq<Card> {
    seq![Card::Land, s_simple_summon(1), s_simple_summon(2), s_simple_summon(3), Card::Other]
}

pub open spec fn mono_deck_counts(n_lands: usize) -> Seq<usize>
    recommends
        n_lands <= 60,
{
    let nc = 60 - n_lands as int;
    seq![
        n_lands,
        (nc / 2) as usize,
        (nc / 3) as usize,
        (nc / 6) as usize,
        (60 - (n_lands + nc / 2 + nc / 3 + nc / 6)) as usize,
    ]
}

/// The "mono2" deck: six drops on a published sixteenth-based curve.
pub open spec fn mono2_deck_items() -> Seq<Card> {
    seq![
        Card::Land,
        s_simple_summon(1),
        s_simple_summon(2),
        s_simple_summon(3),
        s_simple_summon(4),
        s_simple_summon(5),
        s_simple_summon(6),
        Card::Other,
    ]
}

pub open spec fn mono2_deck_counts(n_lands: usize) -> Seq<usize>
    recommends
        n_lands <= 60,
{
    let nc = 60 - n_lands as int;
    let q1 = (nc * 1) / 16;
    let q5 = (nc * 5) / 16;
    let q4 = (nc * 4) / 16;
    let q3 = (nc * 3) / 16;
    let q2 = (nc * 2) / 16;
    seq![
        n_lands,
        q1 as usize,
        q5 as usize,
        q4 as usize,
        q3 as usize,
        q2 as usize,
        q1 as usize,
        (60 - (n_lands + q1 + q5 + q4 + q3 + q2 + q1)) as usize,
    ]
}

/// The "pow1" deck: lands and one-drops only.
pub open spec fn pow1_deck_items() -> Seq<Card> {
    seq![Card::Land, s_simple_summon(1)]
}

/// The "ramp" deck: two mana creatures and the six drops, four copies
/// each, lands filling the rest.
pub open spec fn ramp_deck_items() -> Seq<Card> {
    seq![
        Card::Land,
        s_mana_summon(1),
        s_mana_summon(2),
        s_simple_summon(1),
        s_simple_summon(2),
        s_simple_summon(3),
        s_simple_summon(4),
        s_simple_summon(5),
        s_simple_summon(6),
    ]
}

/// A quotient is nonnegative and covers at most the dividend.
proof fn lemma_div_part(n: int, d: int)
    requires
        n >= 0,
        d > 0,
    ensures
        n / d >= 0,
        d * (n / d) <= n,
{
    vstd::arithmetic::div_mod::lemma_div_pos_is_pos(n, d);
    vstd::arithmetic::div_mod::lemma_fundamental_div_mod(n, d);
    vstd::arithmetic::div_mod::lemma_mod_bound(n, d);
}

/// One of four fixed 60-card decks, named: "mono" and "mono2" follow two
/// published mana curves, "pow1" is all lands and one-drops, and "ramp"
/// mixes mana creatures in.  `n_lands` picks the land count (ignored by
/// "ramp", which fills lands up to 60).
#[verifier::rlimit(100)]
pub fn make_deck(name: &str, n_lands: usize) -> (deck: FixedCounter)
    requires
        n_lands <= 60,
        name@ == "mono"@ || name@ == "mono2"@ || name@ == "pow1"@ || name@ == "ramp"@,
    ensures
        deck.wf(),
        sum_counts(deck.counter@) == 60,
        find_idx(deck.items@, Card::Land) != -1,
        name@ == "mono"@ ==> deck.items@ == mono_deck_items() && deck.counter@ == mono_deck_counts(
            n_lands,
        ),
        name@ == "mono2"@ ==> deck.items@ == mono2_deck_items() && deck.counter@
            == mono2_deck_counts(n_lands),
        name@ == "pow1"@ ==> deck.items@ == pow1_deck_items() && deck.counter@ == seq![
            n_lands,
            ((60 - n_lands) as usize),
        ],
        name@ == "ramp"@ ==> deck.items@ == ramp_deck_items() && deck.counter@ == seq![
            28usize,
            4usize,
            4usize,
            4usize,
            4usize,
            4usize,
            4usize,
            4usize,
            4usize,
        ],
{
    let c1: Card = Card::simple_summon(1, 1);
    let c2: Card = Card::simple_summon(2, 2);
    let c3: Card = Card::simple_summon(3, 3);
    let c4: Card = Card::simple_summon(4, 4);
    let c5: Card = Card::simple_summon(5, 5);
    let c6: Card = Card::simple_summon(6, 6);
    if str_eq(name, "mono") {
        let n_creatures: usize = 60 - n_lands;
        let q2: usize = n_creatures / 2;
        let q3: usize = n_creatures / 3;
        let q6: usize = n_creatures / 6;
        proof {
            lemma_div_part(n_creatures as int, 2);
            lemma_div_part(n_creatures as int, 3);
            lemma_div_part(n_creatures as int, 6);
        }
        let mut v: Vec<(Card, usize)> = Vec::new();
        v.push((Card::Land, n_lands));
        v.push((c1, q2));
        v.push((c2, q3));
        v.push((c3, q6));
        v.push((Card::Other, 0));
        let mut deck: FixedCounter = FixedCounter::from(v.as_slice());
        let t: usize = deck.total();
        proof {
            reveal_with_fuel(sum_to, 8);
            assert(sum_counts(deck.counter@) == n_lands + q2 + q3 + q6);
            assert(6 * (q2 as int) <= 3 * n_creatures);
            assert(6 * (q3 as int) <= 2 * n_creatures);
            lemma_find_idx(deck.items@, Card::Other);
            lemma_find_idx(deck.items@, Card::Land);
        }
        let land: Option<FixedCounterEntry> = deck.get_entry(&Card::Other);
        let other: FixedCounterEntry = land.unwrap();
        deck.inc(&other, 60 - t);
        proof {
            reveal_with_fuel(sum_to, 8);
            lemma_sum_update(
                seq![n_lands, q2, q3, q6, 0usize],
                other.index as int,
                ((60 - t) as usize),
                5,
            );
            assert(deck.counter@ =~= seq![n_lands, q2, q3, q6, 0usize].update(
                other.index as int,
                ((60 - t) as usize),
            ));
            reveal_strlit("mono");
            reveal_strlit("mono2");
            reveal_strlit("pow1");
            reveal_strlit("ramp");
            assert("mono"@.len() == 4);
            assert("mono2"@.len() == 5);
            assert("mono"@[0] == 'm');
            assert("pow1"@[0] == 'p');
            assert("ramp"@[0] == 'r');
            assert(name@ != "mono2"@);
            assert(name@ != "pow1"@);
            assert(name@ != "ramp"@);
            assert(other.index == 4);
            assert(deck.items@ =~= mono_deck_items());
            assert(deck.counter@ =~= mono_deck_counts(n_lands));
        }
        deck
    } else if str_eq(name, "mono2") {
        let n_creatures: usize = 60 - n_lands;
        let q1: usize = (n_creatures * 1) / 16;
        let q5: usize = (n_creatures * 5) / 16;
        let q4: usize = (n_creatures * 4) / 16;
        let q3: usize = (n_creatures * 3) / 16;
        let q2: usize = (n_creatures * 2) / 16;
        proof {
            lemma_div_part((n_creatures * 1) as int, 16);
            lemma_div_part((n_creatures * 5) as int, 16);
            lemma_div_part((n_creatures * 4) as int, 16);
            lemma_div_part((n_creatures * 3) as int, 16);
            lemma_div_part((n_creatures * 2) as int, 16);
        }
        let mut v: Vec<(Card, usize)> = Vec::new();
        v.push((Card::Land, n_lands));
        v.push((c1, q1));
        v.push((c2, q5));
        v.push((c3, q4));
        v.push((c4, q3));
        v.push((c5, q2));
        v.push((c6, q1));
        v.push((Card::Other, 0));
        let mut deck: FixedCounter = FixedCounter::from(v.as_slice());
        let t: usize = deck.total();
        proof {
            reveal_with_fuel(sum_to, 10);
            assert(sum_counts(deck.counter@) == n_lands + q1 + q5 + q4 + q3 + q2 + q1);
            lemma_find_idx(deck.items@, Card::Other);
            lemma_find_idx(deck.items@, Card::Land);
        }
        let other: FixedCounterEntry = deck.get_entry(&Card::Other).unwrap();
        deck.inc(&other, 60 - t);
        proof {
            reveal_with_fuel(sum_to, 10);
            lemma_sum_update(
                seq![n_lands, q1, q5, q4, q3, q2, q1, 0usize],
                other.index as int,
                ((60 - t) as usize),
                8,
            );
            assert(deck.counter@ =~= seq![n_lands, q1, q5, q4, q3, q2, q1, 0usize].update(
                other.index as int,
                ((60 - t) as usize),
            ));
            reveal_strlit("mono2");
            reveal_strlit("pow1");
            reveal_strlit("ramp");
            assert("mono2"@.len() == 5);
            assert("pow1"@.len() == 4);
            assert("ramp"@.len() == 4);
            assert(name@ != "pow1"@);
            assert(name@ != "ramp"@);
            assert(other.index == 7);
            assert(deck.items@ =~= mono2_deck_items());
            assert(deck.counter@ =~= mono2_deck_counts(n_lands));
        }
        deck
    } else if str_eq(name, "pow1") {
        let mut v: Vec<(Card, usize)> = Vec::new();
        v.push((Card::Land, n_lands));
        v.push((c1, 60 - n_lands));
        let deck: FixedCounter = FixedCounter::from(v.as_slice());
        proof {
            reveal_with_fuel(sum_to, 4);
            lemma_find_idx(deck.items@, Card::Land);
            reveal_strlit("pow1");
            reveal_strlit("ramp");
            assert("pow1"@[0] == 'p');
            assert("ramp"@[0] == 'r');
            assert(name@ != "ramp"@);
            assert(deck.items@ =~= pow1_deck_items());
            assert(deck.counter@ =~= seq![n_lands, ((60 - n_lands) as usize)]);
        }
        deck
    } else {
        let r1: Card = Card::Summon { cost: 1, power: 1, toughness: 1, ability_tap_mana: true };
        let r2: Card = Card::Summon { cost: 2, power: 2, toughness: 2, ability_tap_mana: true };
        let mut v: Vec<(Card, usize)> = Vec::new();
        v.push((Card::Land, 0));
        v.push((r1, 4));
        v.push((r2, 4));
        v.push((c1, 4));
        v.push((c2, 4));
        v.push((c3, 4));
        v.push((c4, 4));
        v.push((c5, 4));
        v.push((c6, 4));
        let mut deck: FixedCounter = FixedCounter::from(v.as_slice());
        let t: usize = deck.total();
        proof {
            reveal_with_fuel(sum_to, 11);
            assert(t == 32);
            lemma_find_idx(deck.items@, Card::Land);
        }
        let land: FixedCounterEntry = deck.get_entry(&Card::Land).unwrap();
        deck.inc(&land, 60 - t);
        proof {
            reveal_with_fuel(sum_to, 11);
            lemma_sum_update(
                seq![0usize, 4, 4, 4, 4, 4, 4, 4, 4],
                land.index as int,
                ((60 - t) as usize),
                9,
            );
            assert(deck.counter@ =~= seq![0usize, 4, 4, 4, 4, 4, 4, 4, 4].update(
                land.index as int,
                ((60 - t) as usize),
            ));
            assert(land.index == 0);
            assert(deck.items@ =~= ramp_deck_items());
            assert(deck.counter@ =~= seq![
                28usize,
                4usize,
                4usize,
                4usize,
                4usize,
                4usize,
                4usize,
                4usize,
                4usize,
            ]);
        }
        deck
    }
}

/// Which condition ends a simulated game.
pub enum Termination {
    Damage(usize),
    Turns(usize),
}

impl Termination {
    /// Whether the game is over on the given battlefield.
    pub fn is_done(&self, field: &Field) -> (r: bool)
        ensures
            r == (match *self {
                Termination::Damage(damage) => field.damage >= damage,
                Termination::Turns(turns) => field.turn >= turns,
            }),
    {
        match self {
            Termination::Damage(damage) => field.damage >= *damage,
            Termination::Turns(turns) => field.turn >= *turns,
        }
    }
}

} // verus!
