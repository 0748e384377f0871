use rand::seq::SliceRandom;
use rand::SeedableRng;
use vstd::prelude::*;

verus! {

#[verifier::external_type_specification]
#[verifier::external_body]
pub struct ExStdRng(rand::rngs::StdRng);

#[derive(Clone, Copy, Debug, PartialEq, Eq, Structural)]
pub enum Rank {
    Two,
    Three,
    Four,
    Five,
    Six,
    Seven,
    Eight,
    Nine,
    Ten,
    Jack,
    Queen,
    King,
    Ace,
}

#[derive(Clone, Copy, Debug, PartialEq, Eq, Structural)]
pub enum Suit {
    Spades,
    Hearts,
    Diamonds,
    Clubs,
}

#[derive(Clone, Copy, Debug, PartialEq, Eq, Structural)]
pub struct Card {
    pub rank: Rank,
    pub suit: Suit,
}

/// A pile of cards; cards are dealt from the end.
pub struct Deck {
    pub cards: Vec<Card>,
}

/// The ranks in ascending order.
pub open spec fn rank_at(i: int) -> Rank {
    if i == 0 {
        Rank::Two
    } else if i == 1 {
        Rank::Three
    } else if i == 2 {
        Rank::Four
    } else if i == 3 {
        Rank::Five
    } else if i == 4 {
        Rank::Six
    } else if i == 5 {
        Rank::Seven
    } else if i == 6 {
        Rank::Eight
    } else if i == 7 {
        Rank::Nine
    } else if i == 8 {
        Rank::Ten
    } else if i == 9 {
        Rank::Jack
    } else if i == 10 {
        Rank::Queen
    } else if i == 11 {
        Rank::King
    } else {
        Rank::Ace
    }
}

/// The suits in the order a fresh deck holds them.
pub open spec fn suit_at(i: int) -> Suit {
    if i == 0 {
        Suit::Spades
    } else if i == 1 {
        Suit::Hearts
    } else if i == 2 {
        Suit::Diamonds
    } else {
        Suit::Clubs
    }
}

pub const RANK_COUNT: usize = 13;

pub const SUIT_COUNT: usize = 4;

/// A fresh deck: the suits in order, each with its ranks in ascending order.
pub open spec fn full_deck() -> Seq<Card> {
    Seq::new(
        (SUIT_COUNT * RANK_COUNT) as nat,
        |i: int|
            Card {
                rank: rank_at(i % RANK_COUNT as int),
                suit: suit_at(i / RANK_COUNT as int),
            },
    )
}

pub open spec fn rank_value(r: Rank) -> u8 {
    match r {
        Rank::Two => 2,
        Rank::Three => 3,
        Rank::Four => 4,
        Rank::Five => 5,
        Rank::Six => 6,
        Rank::Seven => 7,
        Rank::Eight => 8,
        Rank::Nine => 9,
        Rank::Ten | Rank::Jack | Rank::Queen | Rank::King => 10,
        Rank::Ace => 11,
    }
}

pub open spec fn rank_label(r: Rank) -> Seq<char> {
    match r {
        Rank::Two => seq!['2'],
        Rank::Three => seq!['3'],
        Rank::Four => seq!['4'],
        Rank::Five => seq!['5'],
        Rank::Six => seq!['6'],
        Rank::Seven => seq!['7'],
        Rank::Eight => seq!['8'],
        Rank::Nine => seq!['9'],
        Rank::Ten => seq!['1', '0'],
        Rank::Jack => seq!['J'],
        Rank::Queen => seq!['Q'],
        Rank::King => seq!['K'],
        Rank::Ace => seq!['A'],
    }
}

pub open spec fn suit_symbol(s: Suit) -> Seq<char> {
    match s {
        Suit::Spades => seq!['\u{2660}'],
        Suit::Hearts => seq!['\u{2665}'],
        Suit::Diamonds => seq!['\u{2666}'],
        Suit::Clubs => seq!['\u{2663}'],
    }
}

impl Rank {
    /// The rank's worth in points: its number, ten for a face card, eleven for an ace.
    pub fn value(&self) -> (r: u8)
        ensures
            r == rank_value(*self),
    {
        match self {
            Rank::Two => 2,
            Rank::Three => 3,
            Rank::Four => 4,
            Rank::Five => 5,
            Rank::Six => 6,
            Rank::Seven => 7,
            Rank::Eight => 8,
            Rank::Nine => 9,
            Rank::Ten => 10,
            Rank::Jack => 10,
            Rank::Queen => 10,
            Rank::King => 10,
            Rank::Ace => 11,
        }
    }

    /// The rank as printed on a card: its number, or J, Q, K, A.
    pub fn label(&self) -> (r: &'static str)
        ensures
            r@ == rank_label(*self),
    {
        match self {
            Rank::Two => {
                proof { reveal_strlit("2"); }
                "2"
            },
            Rank::Three => {
                proof { reveal_strlit("3"); }
                "3"
            },
            Rank::Four => {
                proof { reveal_strlit("4"); }
                "4"
            },
            Rank::Five => {
                proof { reveal_strlit("5"); }
                "5"
            },
            Rank::Six => {
                proof { reveal_strlit("6"); }
                "6"
            },
            Rank::Seven => {
                proof { reveal_strlit("7"); }
                "7"
            },
            Rank::Eight => {
                proof { reveal_strlit("8"); }
                "8"
            },
            Rank::Nine => {
                proof { reveal_strlit("9"); }
                "9"
            },
            Rank::Ten => {
                proof { reveal_strlit("10"); }
                "10"
            },
            Rank::Jack => {
                proof { reveal_strlit("J"); }
                "J"
            },
            Rank::Queen => {
                proof { reveal_strlit("Q"); }
                "Q"
            },
            Rank::King => {
                proof { reveal_strlit("K"); }
                "K"
            },
            Rank::Ace => {
                proof { reveal_strlit("A"); }
                "A"
            },
        }
    }
}

impl Suit {
    /// The suit's symbol: a spade, heart, diamond or club.
    pub fn symbol(&self) -> (r: &'static str)
        ensures
            r@ == suit_symbol(*self),
    {
        match self {
            Suit::Spades => {
                proof { reveal_strlit("\u{2660}"); }
                "\u{2660}"
            },
            Suit::Hearts => {
                proof { reveal_strlit("\u{2665}"); }
                "\u{2665}"
            },
            Suit::Diamonds => {
                proof { reveal_strlit("\u{2666}"); }
                "\u{2666}"
            },
            Suit::Clubs => {
                proof { reveal_strlit("\u{2663}"); }
                "\u{2663}"
            },
        }
    }
}


fn rank_of_index(i: usize) -> (r: Rank)
    requires
        i < RANK_COUNT,
    ensures
        r == rank_at(i as int),
{
    match i {
        0 => Rank::Two,
        1 => Rank::Three,
        2 => Rank::Four,
        3 => Rank::Five,
        4 => Rank::Six,
        5 => Rank::Seven,
        6 => Rank::Eight,
        7 => Rank::Nine,
        8 => Rank::Ten,
        9 => Rank::Jack,
        10 => Rank::Queen,
        11 => Rank::King,
        _ => Rank::Ace,
    }
}

fn suit_of_index(i: usize) -> (r: Suit)
    requires
        i < SUIT_COUNT,
    ensures
        r == suit_at(i as int),
{
    match i {
        0 => Suit::Spades,
        1 => Suit::Hearts,
        2 => Suit::Diamonds,
        _ => Suit::Clubs,
    }
}

impl Card {
    pub fn new(suit: Suit, rank: Rank) -> (r: Self)
        ensures
            r == (Card { rank, suit }),
    {
        Self { suit, rank }
    }

    /// The ace of spades.
    pub fn default() -> (r: Card)
        ensures
            r == (Card { rank: Rank::Ace, suit: Suit::Spades }),
    {
        Card { rank: Rank::Ace, suit: Suit::Spades }
    }

    /// The card as text: its rank and suit in square brackets, such as `[10♥]`.
    pub fn label(&self) -> (r: String)
        ensures
            r@ == seq!['['] + rank_label(self.rank) + suit_symbol(self.suit) + seq![']'],
    {
        proof {
            reveal_strlit("[");
            reveal_strlit("]");
        }
        let mut r = String::from_str("[");
        r.append(self.rank.label());
        r.append(self.suit.symbol());
        r.append("]");
        r
    }
}

/// Relies on rand's `SeedableRng::seed_from_u64` for `StdRng`: a generator whose
/// output is fixed by `seed`.
#[verifier::external_body]
fn rng_from_seed(seed: u64) -> rand::rngs::StdRng {
    rand::rngs::StdRng::seed_from_u64(seed)
}

/// Relies on rand's `SeedableRng::from_rng` for `StdRng`, fed by `OsRng`: a generator
/// seeded from the operating system's randomness source, or `None` where that source
/// reports an error.
#[verifier::external_body]
fn rng_from_os() -> Option<rand::rngs::StdRng> {
    rand::rngs::StdRng::from_rng(rand::rngs::OsRng).ok()
}

/// Relies on rand's `SliceRandom::shuffle`: it reorders the cards in place by swaps,
/// so the same cards stay, each as often as before.
#[verifier::external_body]
fn shuffle_cards(cards: &mut Vec<Card>, rng: &mut rand::rngs::StdRng)
    ensures
        final(cards)@.len() == old(cards)@.len(),
        final(cards)@.to_multiset() == old(cards)@.to_multiset(),
{
    cards.as_mut_slice().shuffle(rng)
}

impl Deck {
    /// A fresh deck of all 52 cards.
    pub fn new() -> (r: Self)
        ensures
            r.cards@ == full_deck(),
    {
        let mut deck = Self { cards: Vec::new() };
        deck.load();
        assert(deck.cards@ =~= full_deck());
        deck
    }

    /// Puts all 52 cards back, in the order of a fresh deck.
    pub fn reset(&mut self)
        ensures
            final(self).cards@ == full_deck(),
    {
        self.cards.clear();
        self.load();
        assert(self.cards@ =~= full_deck());
    }

    /// Takes the card at the end of the deck, if any is left.
    pub fn deal_card(&mut self) -> (r: Option<Card>)
        ensures
            old(self).cards@.len() == 0 ==> r is None && final(self).cards@ == old(self).cards@,
            old(self).cards@.len() > 0 ==> r == Some(old(self).cards@.last())
                && final(self).cards@ == old(self).cards@.drop_last(),
    {
        self.cards.pop()
    }

    /// Adds the cards of a fresh deck after those already held.
    pub fn load(&mut self)
        ensures
            final(self).cards@ == old(self).cards@ + full_deck(),
    {
        let ghost start = self.cards@;
        let mut s: usize = 0;
        while s < SUIT_COUNT
            invariant
                s <= SUIT_COUNT,
                self.cards@ == start + full_deck().take(s * RANK_COUNT),
            decreases SUIT_COUNT - s,
        {
            let suit = suit_of_index(s);
            let mut r: usize = 0;
            while r < RANK_COUNT
                invariant
                    s < SUIT_COUNT,
                    r <= RANK_COUNT,
                    suit == suit_at(s as int),
                    self.cards@ == start + full_deck().take(s * RANK_COUNT + r),
                decreases RANK_COUNT - r,
            {
                let ghost k = s * RANK_COUNT + r;
                self.cards.push(Card { rank: rank_of_index(r), suit });
                assert(k / 13 == s && k % 13 == r) by (nonlinear_arith)
                    requires k == s * 13 + r, r < 13;
                assert(full_deck().take(k + 1) =~= full_deck().take(k).push(full_deck()[k]));
                assert(self.cards@ =~= start + full_deck().take(k + 1));
                r = r + 1;
            }
            s = s + 1;
        }
        assert(full_deck().take(SUIT_COUNT * RANK_COUNT) =~= full_deck());
    }

    /// Puts the cards in a random order, seeded from the operating system. Returns
    /// `false`, leaving the cards as they were, where no randomness could be had.
    pub fn shuffle(&mut self) -> (ok: bool)
        ensures
            !ok ==> final(self).cards@ == old(self).cards@,
            ok ==> final(self).cards@.len() == old(self).cards@.len(),
            ok ==> final(self).cards@.to_multiset() == old(self).cards@.to_multiset(),
    {
        self.shuffle_seed(None)
    }

    /// Puts the cards in a random order: from `seed` where one is given, else seeded
    /// from the operating system. Returns `false`, leaving the cards as they were,
    /// where no seed was given and no randomness could be had.
    pub fn shuffle_seed(&mut self, seed: Option<u64>) -> (ok: bool)
        ensures
            seed is Some ==> ok,
            !ok ==> final(self).cards@ == old(self).cards@,
            ok ==> final(self).cards@.len() == old(self).cards@.len(),
            ok ==> final(self).cards@.to_multiset() == old(self).cards@.to_multiset(),
    {
        let rng = match seed {
            None => rng_from_os(),
            Some(s) => Some(rng_from_seed(s)),
        };
        match rng {
            Some(mut rng) => {
                shuffle_cards(&mut self.cards, &mut rng);
                true
            },
            None => false,
        }
    }
}

} // verus!
