use vstd::prelude::*;

verus! {

/// The number of cards in a full deck.
pub const DECK_SIZE: usize = 52;

/// A playing card.
///
/// `value` runs from 0 (two) to 12 (ace); `suit` is 0 (spades), 1 (clubs),
/// 2 (hearts) or 3 (diamonds). Cards order by value first.
#[derive(Clone, Copy, Debug, PartialEq, Eq, Structural, PartialOrd, Ord, Hash)]
pub struct Card {
    pub value: u8,
    pub suit: u8,
}

impl Card {
    /// A card names one of the 13 values and one of the 4 suits.
    pub open spec fn wf(self) -> bool {
        self.value < 13 && self.suit < 4
    }

    pub fn new(value: u8, suit: u8) -> (c: Card)
        requires
            value < 13,
            suit < 4,
        ensures
            c == (Card { value, suit }),
    {
        Card { value, suit }
    }
}

/// Every card of the sequence is a valid card.
pub open spec fn all_wf(cards: Seq<Card>) -> bool {
    forall|i: int| 0 <= i < cards.len() ==> (#[trigger] cards[i]).wf()
}

/// The character that names a card value: `2`..`9`, `T`, `J`, `Q`, `K`, `A`.
pub open spec fn value_char(value: u8) -> char {
    if value == 0 {
        '2'
    } else if value == 1 {
        '3'
    } else if value == 2 {
        '4'
    } else if value == 3 {
        '5'
    } else if value == 4 {
        '6'
    } else if value == 5 {
        '7'
    } else if value == 6 {
        '8'
    } else if value == 7 {
        '9'
    } else if value == 8 {
        'T'
    } else if value == 9 {
        'J'
    } else if value == 10 {
        'Q'
    } else if value == 11 {
        'K'
    } else {
        'A'
    }
}

/// The character that names a suit: `s`, `c`, `h`, `d`.
pub open spec fn suit_char(suit: u8) -> char {
    if suit == 0 {
        's'
    } else if suit == 1 {
        'c'
    } else if suit == 2 {
        'h'
    } else {
        'd'
    }
}

/// The two-character code of a card: value character, then suit character.
pub open spec fn card_code(card: Card) -> Seq<char> {
    seq![value_char(card.value), suit_char(card.suit)]
}

/// The codes of the cards, concatenated in order.
pub open spec fn cards_code(cards: Seq<Card>) -> Seq<char>
    decreases cards.len(),
{
    if cards.len() == 0 {
        seq![]
    } else {
        cards_code(cards.drop_last()) + card_code(cards.last())
    }
}

fn value_str(value: u8) -> (s: &'static str)
    requires
        value < 13,
    ensures
        s@ == seq![value_char(value)],
{
    proof {
        reveal_strlit("2");
        reveal_strlit("3");
        reveal_strlit("4");
        reveal_strlit("5");
        reveal_strlit("6");
        reveal_strlit("7");
        reveal_strlit("8");
        reveal_strlit("9");
        reveal_strlit("T");
        reveal_strlit("J");
        reveal_strlit("Q");
        reveal_strlit("K");
        reveal_strlit("A");
    }
    let s = match value {
        0 => "2",
        1 => "3",
        2 => "4",
        3 => "5",
        4 => "6",
        5 => "7",
        6 => "8",
        7 => "9",
        8 => "T",
        9 => "J",
        10 => "Q",
        11 => "K",
        _ => "A",
    };
    assert(s@ =~= seq![value_char(value)]);
    s
}

fn suit_str(suit: u8) -> (s: &'static str)
    requires
        suit < 4,
    ensures
        s@ == seq![suit_char(suit)],
{
    proof {
        reveal_strlit("s");
        reveal_strlit("c");
        reveal_strlit("h");
        reveal_strlit("d");
    }
    let s = match suit {
        0 => "s",
        1 => "c",
        2 => "h",
        _ => "d",
    };
    assert(s@ =~= seq![suit_char(suit)]);
    s
}

/// The two-character code of a card, as sent to the table contract.
pub fn card_to_string(card: Card) -> (s: String)
    requires
        card.wf(),
    ensures
        s@ == card_code(card),
{
    let mut s = String::new();
    s.append(value_str(card.value));
    s.append(suit_str(card.suit));
    assert(s@ =~= card_code(card));
    s
}

/// The codes of the cards of a hand, in order; empty for an empty hand.
pub fn hand_to_string(hand: &[Card]) -> (s: String)
    requires
        all_wf(hand@),
    ensures
        s@ == cards_code(hand@),
{
    let mut s = String::new();
    let mut i: usize = 0;
    while i < hand.len()
        invariant
            i <= hand@.len(),
            all_wf(hand@),
            s@ == cards_code(hand@.take(i as int)),
        decreases hand@.len() - i,
    {
        let card = hand[i];
        s.append(value_str(card.value));
        s.append(suit_str(card.suit));
        assert(hand@.take(i + 1).drop_last() =~= hand@.take(i as int));
        assert(s@ =~= cards_code(hand@.take(i + 1)));
        i += 1;
    }
    assert(hand@.take(hand@.len() as int) =~= hand@);
    s
}

/// Relies on rs_poker's `FlatDeck::default`: the 52 cards of a standard deck
/// (each value in each suit, once), shuffled with the thread's random generator.
#[verifier::external_body]
fn shuffled_cards() -> (cards: Vec<Card>)
    ensures
        cards@.len() == DECK_SIZE,
        cards@.no_duplicates(),
        all_wf(cards@),
{
    let deck = rs_poker::core::FlatDeck::default();
    deck[..].iter().map(|c| Card { value: u8::from(c.value), suit: u8::from(c.suit) }).collect()
}

/// A deck of cards to deal from.
pub struct Deck {
    cards: Vec<Card>,
}

impl View for Deck {
    type V = Seq<Card>;

    /// The cards in the order in which they will be dealt.
    closed spec fn view(&self) -> Seq<Card> {
        self.cards@.reverse()
    }
}

impl Deck {
    /// A full deck in random order.
    pub fn shuffled() -> (d: Deck)
        ensures
            d@.len() == DECK_SIZE,
            d@.no_duplicates(),
            all_wf(d@),
    {
        let cards = shuffled_cards();
        let d = Deck { cards };
        proof {
            assert forall|i: int, j: int|
                0 <= i < d@.len() && 0 <= j < d@.len() && i != j implies d@[i] != d@[j] by {
                assert(d@[i] == cards@[cards@.len() - 1 - i]);
                assert(d@[j] == cards@[cards@.len() - 1 - j]);
            }
            assert forall|i: int| 0 <= i < d@.len() implies (#[trigger] d@[i]).wf() by {
                assert(d@[i] == cards@[cards@.len() - 1 - i]);
            }
        }
        d
    }

    /// A deck that deals the given cards, first card first.
    pub fn from_cards(cards: Vec<Card>) -> (d: Deck)
        ensures
            d@ == cards@,
    {
        let n = cards.len();
        let mut stack: Vec<Card> = Vec::new();
        let mut i: usize = n;
        while i > 0
            invariant
                i <= n,
                n == cards@.len(),
                stack@.len() == n - i,
                forall|k: int| 0 <= k < n - i ==> stack@[k] == cards@[n - 1 - k],
            decreases i,
        {
            i -= 1;
            stack.push(cards[i]);
        }
        let d = Deck { cards: stack };
        assert(d@ =~= cards@);
        d
    }

    pub fn len(&self) -> (n: usize)
        ensures
            n == self@.len(),
    {
        self.cards.len()
    }

    /// Removes and returns the next card; `None` once the deck is empty.
    pub fn deal(&mut self) -> (c: Option<Card>)
        ensures
            old(self)@.len() == 0 ==> c is None && final(self)@ == old(self)@,
            old(self)@.len() > 0 ==> c == Some(old(self)@[0]) && final(self)@ == old(self)@.skip(1),
    {
        let c = self.cards.pop();
        proof {
            if old(self)@.len() > 0 {
                assert(final(self)@ =~= old(self)@.skip(1));
            }
        }
        c
    }
}

} // verus!
