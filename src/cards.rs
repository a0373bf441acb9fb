use rand::seq::SliceRandom;
use vstd::multiset::Multiset;
use vstd::prelude::*;

verus! {

broadcast use vstd::seq_lib::group_to_multiset_ensures;

/// The four suits, in ascending order; Spades is the trump suit.
#[derive(Default, Clone, Copy, PartialEq, Eq, Structural, PartialOrd, Ord, Debug, Hash)]
pub enum Suit {
    #[default]
    Clubs,
    Diamonds,
    Hearts,
    Spades,
}

/// The thirteen ranks, in ascending order.
#[derive(Default, Clone, Copy, PartialEq, Eq, Structural, PartialOrd, Ord, Debug, Hash)]
pub enum Rank {
    #[default]
    Two,
    Three,
    Four,
    Five,
    Six,
    Seven,
    Eight,
    Nine,
    Ten,
    Jack,
    Queen,
    King,
    Ace,
}

/// Position of a suit in the suit order: Clubs 0 up to Spades 3.
pub open spec fn suit_index(s: Suit) -> int {
    match s {
        Suit::Clubs => 0,
        Suit::Diamonds => 1,
        Suit::Hearts => 2,
        Suit::Spades => 3,
    }
}

/// Numeric value of a rank: Two is 2 up to Ace, which is 14.
pub open spec fn rank_value(r: Rank) -> int {
    match r {
        Rank::Two => 2,
        Rank::Three => 3,
        Rank::Four => 4,
        Rank::Five => 5,
        Rank::Six => 6,
        Rank::Seven => 7,
        Rank::Eight => 8,
        Rank::Nine => 9,
        Rank::Ten => 10,
        Rank::Jack => 11,
        Rank::Queen => 12,
        Rank::King => 13,
        Rank::Ace => 14,
    }
}

/// The suit with the given index; indices above 3 give Spades.
pub open spec fn suit_of(v: int) -> Suit {
    if v <= 0 {
        Suit::Clubs
    } else if v == 1 {
        Suit::Diamonds
    } else if v == 2 {
        Suit::Hearts
    } else {
        Suit::Spades
    }
}

/// The rank with the given value; values below 2 give Two, above 14 give Ace.
pub open spec fn rank_of(v: int) -> Rank {
    if v <= 2 {
        Rank::Two
    } else if v == 3 {
        Rank::Three
    } else if v == 4 {
        Rank::Four
    } else if v == 5 {
        Rank::Five
    } else if v == 6 {
        Rank::Six
    } else if v == 7 {
        Rank::Seven
    } else if v == 8 {
        Rank::Eight
    } else if v == 9 {
        Rank::Nine
    } else if v == 10 {
        Rank::Ten
    } else if v == 11 {
        Rank::Jack
    } else if v == 12 {
        Rank::Queen
    } else if v == 13 {
        Rank::King
    } else {
        Rank::Ace
    }
}

impl Suit {
    /// Position of the suit in the suit order.
    pub fn index(self) -> (r: u8)
        ensures
            r == suit_index(self),
    {
        match self {
            Suit::Clubs => 0,
            Suit::Diamonds => 1,
            Suit::Hearts => 2,
            Suit::Spades => 3,
        }
    }

    /// The symbol of the suit: a club, diamond, heart or spade sign.
    pub fn symbol(self) -> (r: &'static str)
        ensures
            r@ == suit_symbol(self),
    {
        match self {
            Suit::Clubs => {
                proof {
                    reveal_strlit("\u{2663}");
                }
                "\u{2663}"
            },
            Suit::Diamonds => {
                proof {
                    reveal_strlit("\u{2666}");
                }
                "\u{2666}"
            },
            Suit::Hearts => {
                proof {
                    reveal_strlit("\u{2665}");
                }
                "\u{2665}"
            },
            Suit::Spades => {
                proof {
                    reveal_strlit("\u{2660}");
                }
                "\u{2660}"
            },
        }
    }
}

impl Rank {
    /// Numeric value of the rank.
    pub fn value(self) -> (r: u8)
        ensures
            r == rank_value(self),
    {
        match self {
            Rank::Two => 2,
            Rank::Three => 3,
            Rank::Four => 4,
            Rank::Five => 5,
            Rank::Six => 6,
            Rank::Seven => 7,
            Rank::Eight => 8,
            Rank::Nine => 9,
            Rank::Ten => 10,
            Rank::Jack => 11,
            Rank::Queen => 12,
            Rank::King => 13,
            Rank::Ace => 14,
        }
    }

    /// The symbol of the rank: its number, or J, Q, K, A for the face cards and the ace.
    pub fn symbol(self) -> (r: &'static str)
        ensures
            r@ == rank_symbol(self),
    {
        match self {
            Rank::Two => {
                proof {
                    reveal_strlit("2");
                }
                "2"
            },
            Rank::Three => {
                proof {
                    reveal_strlit("3");
                }
                "3"
            },
            Rank::Four => {
                proof {
                    reveal_strlit("4");
                }
                "4"
            },
            Rank::Five => {
                proof {
                    reveal_strlit("5");
                }
                "5"
            },
            Rank::Six => {
                proof {
                    reveal_strlit("6");
                }
                "6"
            },
            Rank::Seven => {
                proof {
                    reveal_strlit("7");
                }
                "7"
            },
            Rank::Eight => {
                proof {
                    reveal_strlit("8");
                }
                "8"
            },
            Rank::Nine => {
                proof {
                    reveal_strlit("9");
                }
                "9"
            },
            Rank::Ten => {
                proof {
                    reveal_strlit("10");
                }
                "10"
            },
            Rank::Jack => {
                proof {
                    reveal_strlit("J");
                }
                "J"
            },
            Rank::Queen => {
                proof {
                    reveal_strlit("Q");
                }
                "Q"
            },
            Rank::King => {
                proof {
                    reveal_strlit("K");
                }
                "K"
            },
            Rank::Ace => {
                proof {
                    reveal_strlit("A");
                }
                "A"
            },
        }
    }
}

pub open spec fn suit_symbol(s: Suit) -> Seq<char> {
    match s {
        Suit::Clubs => seq!['\u{2663}'],
        Suit::Diamonds => seq!['\u{2666}'],
        Suit::Hearts => seq!['\u{2665}'],
        Suit::Spades => seq!['\u{2660}'],
    }
}

pub open spec fn rank_symbol(r: Rank) -> Seq<char> {
    match r {
        Rank::Two => seq!['2'],
        Rank::Three => seq!['3'],
        Rank::Four => seq!['4'],
        Rank::Five => seq!['5'],
        Rank::Six => seq!['6'],
        Rank::Seven => seq!['7'],
        Rank::Eight => seq!['8'],
        Rank::Nine => seq!['9'],
        Rank::Ten => seq!['1', '0'],
        Rank::Jack => seq!['J'],
        Rank::Queen => seq!['Q'],
        Rank::King => seq!['K'],
        Rank::Ace => seq!['A'],
    }
}

impl From<u8> for Suit {
    /// 0 Clubs, 1 Diamonds, 2 Hearts, 3 Spades; larger values give Spades.
    fn from(f: u8) -> (r: Suit)
        ensures
            r == suit_of(f as int),
    {
        match f {
            0 => Suit::Clubs,
            1 => Suit::Diamonds,
            2 => Suit::Hearts,
            _ => Suit::Spades,
        }
    }
}

impl vstd::std_specs::convert::FromSpecImpl<u8> for Suit {
    open spec fn obeys_from_spec() -> bool {
        true
    }

    open spec fn from_spec(v: u8) -> Suit {
        suit_of(v as int)
    }
}

impl From<u8> for Rank {
    /// 2 to 14 give Two up to Ace; smaller values give Two, larger ones Ace.
    fn from(u: u8) -> (r: Rank)
        ensures
            r == rank_of(u as int),
    {
        match u {
            0 | 1 | 2 => Rank::Two,
            3 => Rank::Three,
            4 => Rank::Four,
            5 => Rank::Five,
            6 => Rank::Six,
            7 => Rank::Seven,
            8 => Rank::Eight,
            9 => Rank::Nine,
            10 => Rank::Ten,
            11 => Rank::Jack,
            12 => Rank::Queen,
            13 => Rank::King,
            _ => Rank::Ace,
        }
    }
}

impl vstd::std_specs::convert::FromSpecImpl<u8> for Rank {
    open spec fn obeys_from_spec() -> bool {
        true
    }

    open spec fn from_spec(v: u8) -> Rank {
        rank_of(v as int)
    }
}

/// A playing card. Cards are ordered by suit first, then by rank.
#[derive(Default, Clone, Copy, PartialEq, Eq, Structural, PartialOrd, Ord, Debug, Hash)]
pub struct Card {
    pub suit: Suit,
    pub rank: Rank,
}

/// The sort key of a card: suit-major, rank-minor.
pub open spec fn card_key(c: Card) -> int {
    suit_index(c.suit) * 15 + rank_value(c.rank)
}

/// The one-byte code of a card, `rank + 15 * suit`, ranging over 2 to 59.
pub open spec fn card_code(c: Card) -> int {
    card_key(c)
}

/// The card that a one-byte code stands for, when it stands for one.
pub open spec fn card_of_code(v: int) -> Option<Card> {
    if 0 <= v / 15 <= 3 && 2 <= v % 15 <= 14 {
        Some(Card { suit: suit_of(v / 15), rank: rank_of(v % 15) })
    } else {
        None
    }
}

/// True when the cards of `s` are in ascending card order.
pub open spec fn is_sorted(s: Seq<Card>) -> bool {
    forall|i: int, j: int| 0 <= i < j < s.len() ==> card_key(s[i]) <= card_key(s[j])
}

impl Card {
    pub fn new(suit: Suit, rank: Rank) -> (r: Card)
        ensures
            r.suit == suit,
            r.rank == rank,
    {
        Card { suit, rank }
    }

    /// The rank symbol followed by the suit symbol, e.g. "A" and a heart sign.
    pub fn to_string(&self) -> (r: String)
        ensures
            r@ == rank_symbol(self.rank) + suit_symbol(self.suit),
    {
        let mut s = String::from_str(self.rank.symbol());
        s.append(self.suit.symbol());
        s
    }

    /// The one-byte code of the card, `rank + 15 * suit`.
    pub fn to_code(&self) -> (r: u8)
        ensures
            r == card_code(*self),
    {
        self.rank.value() + 15 * self.suit.index()
    }

    /// The card with the given one-byte code, or `None` when no card has it.
    pub fn from_code(v: u8) -> (r: Option<Card>)
        ensures
            r == card_of_code(v as int),
            r matches Some(c) ==> card_code(c) == v,
    {
        let s = v / 15;
        let k = v % 15;
        if s <= 3 && 2 <= k {
            Some(Card { suit: Suit::from(s), rank: Rank::from(k) })
        } else {
            None
        }
    }
}

/// True when `c` takes the trick away from the card `best` that holds it so far:
/// a higher card of the same suit, or a spade over a card of another suit.
pub open spec fn beats(c: Card, best: Card) -> bool {
    if c.suit == best.suit {
        rank_value(c.rank) > rank_value(best.rank)
    } else {
        c.suit == Suit::Spades
    }
}

/// Position, among the first `n` cards of a trick in the order played, of the card
/// that holds the trick after them.
pub open spec fn holder_after(cards: Seq<Card>, n: int) -> int
    decreases n,
{
    if n <= 1 {
        0
    } else {
        let w = holder_after(cards, n - 1);
        if beats(cards[n - 1], cards[w]) {
            n - 1
        } else {
            w
        }
    }
}

/// Seat of the winner of a full trick whose four cards were played in seat order
/// starting from seat `leader`.
pub open spec fn trick_winner(leader: int, cards: Seq<Card>) -> int {
    (holder_after(cards, 4) + leader) % 4
}

/// True when `a` ranks above `b` in a trick whose led suit is `led`: same suit and
/// higher rank, a spade over a non-spade, or the led suit over a third suit.
pub open spec fn outranks(a: Card, b: Card, led: Suit) -> bool {
    ||| (a.suit == b.suit && rank_value(a.rank) > rank_value(b.rank))
    ||| (a.suit == Suit::Spades && b.suit != Suit::Spades)
    ||| (a.suit == led && b.suit != led && b.suit != Suit::Spades)
}

/// Given the four cards of a trick in the order played and the seat of the player who
/// led it, returns the seat of the player who wins the trick.
///
/// Spades trump all other suits; the led card sets the suit of the trick; the highest
/// spade, or failing one the highest card of the led suit, wins.
pub fn get_trick_winner(leading_player_index: usize, others: &Vec<Card>) -> (r: usize)
    requires
        others@.len() == 4,
    ensures
        r == trick_winner(leading_player_index as int, others@),
        r < 4,
{
    let mut winning_index: usize = 0;
    let mut best_card = others[0];
    let mut i: usize = 0;
    while i < 4
        invariant
            others@.len() == 4,
            0 <= i <= 4,
            winning_index == holder_after(others@, if i == 0 { 1 } else { i as int }),
            best_card == others@[winning_index as int],
            winning_index < 4,
        decreases 4 - i,
    {
        let other = others[i];
        if other.suit == best_card.suit {
            if other.rank.value() > best_card.rank.value() {
                best_card = other;
                winning_index = i;
            }
        } else if other.suit == Suit::Spades {
            best_card = other;
            winning_index = i;
        }
        i = i + 1;
    }
    (winning_index + leading_player_index % 4) % 4
}

/// For a trick of four distinct cards, the card of the winning seat outranks each of
/// the other three with respect to the led suit. In particular, where all four cards
/// share a suit the highest rank wins, and where any spade was played a spade wins.
pub proof fn lemma_trick_winner_outranks(leader: int, cards: Seq<Card>)
    requires
        cards.len() == 4,
        cards.no_duplicates(),
        0 <= leader < 4,
    ensures
        ({
            let w = holder_after(cards, 4);
            &&& 0 <= w < 4
            &&& trick_winner(leader, cards) == (w + leader) % 4
            &&& forall|j: int|
                0 <= j < 4 && j != w ==> outranks(cards[w], cards[j], cards[0].suit)
            &&& (forall|j: int| 0 <= j < 4 ==> #[trigger] cards[j].suit == cards[0].suit) ==> forall|j: int|
                0 <= j < 4 && j != w ==> rank_value(cards[w].rank) > rank_value(cards[j].rank)
            &&& (exists|j: int| 0 <= j < 4 && cards[j].suit == Suit::Spades) ==> cards[w].suit
                == Suit::Spades
        }),
{
    lemma_holder_outranks(cards, 4);
    let w = holder_after(cards, 4);
    let led = cards[0].suit;
    if forall|j: int| 0 <= j < 4 ==> #[trigger] cards[j].suit == cards[0].suit {
        assert forall|j: int| 0 <= j < 4 && j != w implies rank_value(cards[w].rank) > rank_value(
            cards[j].rank,
        ) by {
            assert(outranks(cards[w], cards[j], led));
            assert(cards[j].suit == led && cards[w].suit == led);
        }
    }
    if exists|j: int| 0 <= j < 4 && cards[j].suit == Suit::Spades {
        let j = choose|j: int| 0 <= j < 4 && cards[j].suit == Suit::Spades;
        if j != w {
            assert(outranks(cards[w], cards[j], led));
        }
    }
}

proof fn lemma_holder_outranks(cards: Seq<Card>, n: int)
    requires
        1 <= n <= cards.len(),
        cards.no_duplicates(),
    ensures
        0 <= holder_after(cards, n) < n,
        cards[holder_after(cards, n)].suit == cards[0].suit || cards[holder_after(
            cards,
            n,
        )].suit == Suit::Spades,
        forall|j: int|
            0 <= j < n && j != holder_after(cards, n) ==> outranks(
                cards[holder_after(cards, n)],
                cards[j],
                cards[0].suit,
            ),
    decreases n,
{
    if n > 1 {
        lemma_holder_outranks(cards, n - 1);
        let w = holder_after(cards, n - 1);
        let c = cards[n - 1];
        let b = cards[w];
        let led = cards[0].suit;
        assert(c != b);
        if beats(c, b) {
            assert forall|j: int| 0 <= j < n && j != n - 1 implies outranks(c, cards[j], led) by {
                if j != w {
                    assert(outranks(b, cards[j], led));
                }
            }
        } else {
            assert(outranks(b, c, led));
            assert forall|j: int| 0 <= j < n && j != w implies outranks(b, cards[j], led) by {
                if j != n - 1 {
                    assert(outranks(b, cards[j], led));
                }
            }
        }
    }
}

/// The seat that wins a trick is a seat.
pub proof fn lemma_winner_is_seat(leader: int, cards: Seq<Card>)
    requires
        0 <= leader,
    ensures
        0 <= trick_winner(leader, cards) < 4,
{
    lemma_holder_nonneg(cards, 4);
}

proof fn lemma_holder_nonneg(cards: Seq<Card>, n: int)
    ensures
        0 <= holder_after(cards, n),
    decreases n,
{
    if n > 1 {
        lemma_holder_nonneg(cards, n - 1);
    }
}

/// Shuffles the cards in place.
///
/// Relies on rand's `SliceRandom::shuffle` with the thread-local generator, which
/// only swaps elements: the result is a permutation of the input.
#[verifier::external_body]
pub fn shuffle(cards: &mut [Card])
    ensures
        final(cards)@.len() == old(cards)@.len(),
        final(cards)@.to_multiset() == old(cards)@.to_multiset(),
{
    let mut rng = rand::thread_rng();
    cards.shuffle(&mut rng);
}

/// The 52 cards in order: Clubs Two to Ace, then Diamonds, Hearts and Spades.
pub open spec fn ordered_deck() -> Seq<Card> {
    Seq::new(52, |i: int| Card { suit: suit_of(i / 13), rank: rank_of(i % 13 + 2) })
}

/// True when `s` holds each of the 52 cards exactly once, in any order.
pub open spec fn is_full_deck(s: Seq<Card>) -> bool {
    s.to_multiset() == ordered_deck().to_multiset()
}

/// Returns a shuffled deck of the 52 cards.
pub fn new_deck() -> (r: Vec<Card>)
    ensures
        r@.len() == 52,
        is_full_deck(r@),
{
    let mut cards: Vec<Card> = Vec::new();
    let mut s: u8 = 0;
    while s < 4
        invariant
            s <= 4,
            cards@ == ordered_deck().take(13 * s as int),
        decreases 4 - s,
    {
        let mut k: u8 = 0;
        while k < 13
            invariant
                s < 4,
                k <= 13,
                cards@ == ordered_deck().take(13 * s as int + k as int),
            decreases 13 - k,
        {
            let card = Card { suit: Suit::from(s), rank: Rank::from(k + 2) };
            proof {
                let idx = 13 * s as int + k as int;
                assert(idx / 13 == s as int && idx % 13 == k as int) by (nonlinear_arith)
                    requires
                        idx == 13 * s as int + k as int,
                        0 <= k < 13,
                        0 <= s,
                ;
                assert(ordered_deck().take(idx + 1) =~= ordered_deck().take(idx).push(card));
            }
            cards.push(card);
            k = k + 1;
        }
        s = s + 1;
    }
    assert(cards@ =~= ordered_deck());
    shuffle(cards.as_mut_slice());
    cards
}

/// Shuffles a full deck and deals it out to four players, one card at a time from the
/// top of the deck, leaving the deck empty. Each hand holds 13 cards, and together the
/// hands hold exactly the cards the deck held.
pub fn deal_four_players(cards: &mut Vec<Card>) -> (r: Vec<Vec<Card>>)
    requires
        old(cards)@.len() == 52,
    ensures
        final(cards)@.len() == 0,
        r@.len() == 4,
        forall|k: int| 0 <= k < 4 ==> (#[trigger] r@[k])@.len() == 13,
        r@[0]@.to_multiset().add(r@[1]@.to_multiset()).add(r@[2]@.to_multiset()).add(
            r@[3]@.to_multiset(),
        ) == old(cards)@.to_multiset(),
{
    shuffle(cards.as_mut_slice());
    let ghost all = cards@.to_multiset();
    let mut h0: Vec<Card> = Vec::new();
    let mut h1: Vec<Card> = Vec::new();
    let mut h2: Vec<Card> = Vec::new();
    let mut h3: Vec<Card> = Vec::new();
    let mut round: usize = 0;
    while round < 13
        invariant
            round <= 13,
            cards@.len() == 52 - 4 * round,
            h0@.len() == round,
            h1@.len() == round,
            h2@.len() == round,
            h3@.len() == round,
            cards@.to_multiset().add(h0@.to_multiset()).add(h1@.to_multiset()).add(
                h2@.to_multiset(),
            ).add(h3@.to_multiset()) == all,
        decreases 13 - round,
    {
        move_top_card(cards, &mut h0);
        move_top_card(cards, &mut h1);
        move_top_card(cards, &mut h2);
        move_top_card(cards, &mut h3);
        proof {
            assert(cards@.to_multiset().add(h0@.to_multiset()).add(h1@.to_multiset()).add(
                h2@.to_multiset(),
            ).add(h3@.to_multiset()) =~= all);
        }
        round = round + 1;
    }
    let mut hands: Vec<Vec<Card>> = Vec::new();
    hands.push(h0);
    hands.push(h1);
    hands.push(h2);
    hands.push(h3);
    proof {
        assert(cards@.to_multiset() =~= Multiset::empty());
        assert(hands@[0]@.to_multiset().add(hands@[1]@.to_multiset()).add(
            hands@[2]@.to_multiset(),
        ).add(hands@[3]@.to_multiset()) =~= all);
    }
    hands
}

/// Moves the top card of `from` onto `to`.
fn move_top_card(from: &mut Vec<Card>, to: &mut Vec<Card>)
    requires
        old(from)@.len() > 0,
    ensures
        final(from)@ == old(from)@.drop_last(),
        final(to)@ == old(to)@.push(old(from)@.last()),
        old(from)@.to_multiset() == final(from)@.to_multiset().insert(old(from)@.last()),
        final(to)@.to_multiset() == old(to)@.to_multiset().insert(old(from)@.last()),
{
    let ghost f = from@;
    match from.pop() {
        Some(card) => {
            proof {
                assert(f =~= f.drop_last().push(card));
            }
            to.push(card);
        },
        None => {},
    }
}

/// Puts the cards in ascending card order.
pub fn sort_cards(cards: &mut Vec<Card>)
    ensures
        is_sorted(final(cards)@),
        final(cards)@.to_multiset() == old(cards)@.to_multiset(),
        final(cards)@.len() == old(cards)@.len(),
{
    let ghost orig = cards@.to_multiset();
    let mut sorted: Vec<Card> = Vec::new();
    while cards.len() > 0
        invariant
            is_sorted(sorted@),
            sorted@.to_multiset().add(cards@.to_multiset()) == orig,
            forall|i: int, j: int|
                0 <= i < sorted@.len() && 0 <= j < cards@.len() ==> card_key(#[trigger] sorted@[i])
                    <= card_key(#[trigger] cards@[j]),
        decreases cards@.len(),
    {
        let mut m: usize = 0;
        let mut i: usize = 1;
        while i < cards.len()
            invariant
                0 <= m < cards@.len(),
                1 <= i <= cards@.len(),
                forall|j: int| 0 <= j < i ==> card_key(cards@[m as int]) <= card_key(
                    #[trigger] cards@[j],
                ),
            decreases cards@.len() - i,
        {
            if card_order_key(&cards[i]) < card_order_key(&cards[m]) {
                m = i;
            }
            i = i + 1;
        }
        let ghost before = cards@;
        let c = cards.remove(m);
        proof {
            assert(before.remove(m as int).to_multiset() == before.to_multiset().remove(c));
            assert forall|j: int| 0 <= j < cards@.len() implies card_key(c) <= card_key(
                #[trigger] cards@[j],
            ) by {
                if j < m {
                    assert(cards@[j] == before[j]);
                } else {
                    assert(cards@[j] == before[j + 1]);
                }
            }
        }
        sorted.push(c);
        proof {
            assert(sorted@.to_multiset().add(cards@.to_multiset()) =~= orig);
        }
    }
    proof {
        assert(cards@.to_multiset() =~= Multiset::empty());
        assert(sorted@.to_multiset() =~= orig);
        assert(sorted@.to_multiset().len() == sorted@.len());
    }
    *cards = sorted;
}

/// The sort key of a card, suit-major and rank-minor.
fn card_order_key(c: &Card) -> (r: u8)
    ensures
        r == card_key(*c),
{
    c.suit.index() * 15 + c.rank.value()
}

} // verus!
