//! What the parser was looking for where it could get no further.

use vstd::prelude::*;

verus! {

/// Something the grammar can ask for at a position of the input.
#[derive(Debug, PartialEq, Eq, Clone, Copy, Hash, Structural)]
pub enum Token {
    /// `+`
    Plus,
    /// `-`
    Minus,
    /// `*`
    Star,
    /// `/`
    Slash,
    /// `!`
    Bang,
    /// `(`
    LeftParen,
    /// `)`
    RightParen,
    /// `,`
    Comma,
    /// `.`
    Dot,
    /// A space.
    Space,
    /// A line feed.
    LineFeed,
    /// A carriage return.
    CarriageReturn,
    /// The digit `0`, as a whole integer part.
    Zero,
    /// A digit `1` to `9`, opening an integer part.
    NonZeroDigit,
    /// A digit `0` to `9`.
    Digit,
    /// A letter or `_`, opening an identifier.
    IdentStart,
    /// A letter, a digit or `_`, continuing an identifier.
    IdentContinue,
    /// The end of the input.
    EndOfInput,
}

/// How many tokens there are.
pub const TOKEN_COUNT: u32 = 18;

impl Token {
    /// The position of the token in the order of declaration.
    pub open spec fn index(self) -> nat {
        match self {
            Token::Plus => 0,
            Token::Minus => 1,
            Token::Star => 2,
            Token::Slash => 3,
            Token::Bang => 4,
            Token::LeftParen => 5,
            Token::RightParen => 6,
            Token::Comma => 7,
            Token::Dot => 8,
            Token::Space => 9,
            Token::LineFeed => 10,
            Token::CarriageReturn => 11,
            Token::Zero => 12,
            Token::NonZeroDigit => 13,
            Token::Digit => 14,
            Token::IdentStart => 15,
            Token::IdentContinue => 16,
            Token::EndOfInput => 17,
        }
    }

    /// The position of the token in the order of declaration.
    pub fn ordinal(self) -> (i: u32)
        ensures
            i == self.index(),
            i < TOKEN_COUNT,
    {
        match self {
            Token::Plus => 0,
            Token::Minus => 1,
            Token::Star => 2,
            Token::Slash => 3,
            Token::Bang => 4,
            Token::LeftParen => 5,
            Token::RightParen => 6,
            Token::Comma => 7,
            Token::Dot => 8,
            Token::Space => 9,
            Token::LineFeed => 10,
            Token::CarriageReturn => 11,
            Token::Zero => 12,
            Token::NonZeroDigit => 13,
            Token::Digit => 14,
            Token::IdentStart => 15,
            Token::IdentContinue => 16,
            Token::EndOfInput => 17,
        }
    }

    /// The token at a position of the order of declaration.
    pub fn from_ordinal(i: u32) -> (token: Option<Token>)
        ensures
            i < TOKEN_COUNT ==> token is Some && token->0.index() == i,
            i >= TOKEN_COUNT ==> token is None,
    {
        match i {
            0 => Some(Token::Plus),
            1 => Some(Token::Minus),
            2 => Some(Token::Star),
            3 => Some(Token::Slash),
            4 => Some(Token::Bang),
            5 => Some(Token::LeftParen),
            6 => Some(Token::RightParen),
            7 => Some(Token::Comma),
            8 => Some(Token::Dot),
            9 => Some(Token::Space),
            10 => Some(Token::LineFeed),
            11 => Some(Token::CarriageReturn),
            12 => Some(Token::Zero),
            13 => Some(Token::NonZeroDigit),
            14 => Some(Token::Digit),
            15 => Some(Token::IdentStart),
            16 => Some(Token::IdentContinue),
            17 => Some(Token::EndOfInput),
            _ => None,
        }
    }

    /// How the token reads in a message.
    pub fn describe(self) -> (text: &'static str)
        ensures
            text@ == self.description(),
    {
        match self {
            Token::Plus => "\"+\"",
            Token::Minus => "\"-\"",
            Token::Star => "\"*\"",
            Token::Slash => "\"/\"",
            Token::Bang => "\"!\"",
            Token::LeftParen => "\"(\"",
            Token::RightParen => "\")\"",
            Token::Comma => "\",\"",
            Token::Dot => "\".\"",
            Token::Space => "\" \"",
            Token::LineFeed => "\"\\n\"",
            Token::CarriageReturn => "\"\\r\"",
            Token::Zero => "\"0\"",
            Token::NonZeroDigit => "['1'..='9']",
            Token::Digit => "['0'..='9']",
            Token::IdentStart => "['a'..='z' | 'A'..='Z' | '_']",
            Token::IdentContinue => "['a'..='z' | 'A'..='Z' | '0'..='9' | '_']",
            Token::EndOfInput => "EOF",
        }
    }

    /// How the token reads in a message.
    pub open spec fn description(self) -> Seq<char> {
        match self {
            Token::Plus => "\"+\""@,
            Token::Minus => "\"-\""@,
            Token::Star => "\"*\""@,
            Token::Slash => "\"/\""@,
            Token::Bang => "\"!\""@,
            Token::LeftParen => "\"(\""@,
            Token::RightParen => "\")\""@,
            Token::Comma => "\",\""@,
            Token::Dot => "\".\""@,
            Token::Space => "\" \""@,
            Token::LineFeed => "\"\\n\""@,
            Token::CarriageReturn => "\"\\r\""@,
            Token::Zero => "\"0\""@,
            Token::NonZeroDigit => "['1'..='9']"@,
            Token::Digit => "['0'..='9']"@,
            Token::IdentStart => "['a'..='z' | 'A'..='Z' | '_']"@,
            Token::IdentContinue => "['a'..='z' | 'A'..='Z' | '0'..='9' | '_']"@,
            Token::EndOfInput => "EOF"@,
        }
    }
}

/// Whether bit `i` of `bits` is set.
pub open spec fn bit_set(bits: u32, i: nat) -> bool {
    i < 32 && bits & (1u32 << (i as u32)) != 0
}

proof fn lemma_bit_of_single(i: u32, j: u32)
    requires
        i < 32,
        j < 32,
    ensures
        (1u32 << i) & (1u32 << j) != 0 <==> i == j,
{
    assert((1u32 << i) & (1u32 << j) != 0 <==> i == j) by (bit_vector)
        requires
            i < 32,
            j < 32,
    ;
}

proof fn lemma_bit_of_union(a: u32, b: u32, m: u32)
    ensures
        (a | b) & m != 0 <==> (a & m != 0 || b & m != 0),
        0u32 & m == 0,
{
    assert((a | b) & m != 0 <==> (a & m != 0 || b & m != 0)) by (bit_vector);
    assert(0u32 & m == 0) by (bit_vector);
}

/// A set of tokens.
#[derive(Debug, PartialEq, Eq, Clone, Copy, Structural)]
pub struct ExpectedSet {
    bits: u32,
}

impl View for ExpectedSet {
    type V = Set<Token>;

    closed spec fn view(&self) -> Set<Token> {
        Set::new(|token: Token| bit_set(self.bits, token.index()))
    }
}

impl ExpectedSet {
    /// The set without tokens.
    pub fn empty() -> (set: Self)
        ensures
            set@ == Set::<Token>::empty(),
    {
        let set = ExpectedSet { bits: 0 };
        proof {
            assert forall|token: Token| !bit_set(0u32, token.index()) by {
                lemma_bit_of_union(0, 0, 1u32 << (token.index() as u32));
            }
            assert(set@ =~= Set::<Token>::empty());
        }
        set
    }

    /// The set of one token.
    pub fn single(token: Token) -> (set: Self)
        ensures
            set@ == set![token],
    {
        let set = ExpectedSet { bits: 1u32 << token.ordinal() };
        proof {
            assert forall|other: Token|
                bit_set(set.bits, other.index()) <==> other == token by {
                lemma_bit_of_single(token.index() as u32, other.index() as u32);
            }
            assert(set@ =~= set![token]);
        }
        set
    }

    /// The tokens of either set.
    pub fn union(self, other: Self) -> (set: Self)
        ensures
            set@ == self@.union(other@),
    {
        let set = ExpectedSet { bits: self.bits | other.bits };
        proof {
            assert forall|token: Token|
                bit_set(set.bits, token.index()) <==> (bit_set(self.bits, token.index())
                    || bit_set(other.bits, token.index())) by {
                lemma_bit_of_union(self.bits, other.bits, 1u32 << (token.index() as u32));
            }
            assert(set@ =~= self@.union(other@));
        }
        set
    }

    /// Whether `token` is in the set.
    pub fn contains(&self, token: Token) -> (found: bool)
        ensures
            found == self@.contains(token),
    {
        self.bits & (1u32 << token.ordinal()) != 0
    }

    /// Whether the set holds no token.
    pub fn is_empty(&self) -> (none: bool)
        ensures
            none == (self@ == Set::<Token>::empty()),
    {
        let mut i: u32 = 0;
        while i < TOKEN_COUNT
            invariant
                i <= TOKEN_COUNT,
                forall|token: Token| token.index() < i ==> !self@.contains(token),
            decreases TOKEN_COUNT - i,
        {
            match Token::from_ordinal(i) {
                Some(token) => {
                    if self.contains(token) {
                        assert(self@ != Set::<Token>::empty());
                        return false;
                    }
                },
                None => {},
            }
            i += 1;
        }
        assert(self@ =~= Set::<Token>::empty());
        true
    }

    /// The tokens of the set, in the order of declaration.
    pub fn tokens(&self) -> (list: Vec<Token>)
        ensures
            forall|token: Token| list@.contains(token) <==> self@.contains(token),
            forall|i: int, j: int|
                0 <= i < j < list@.len() ==> list@[i].index() < list@[j].index(),
    {
        let mut list: Vec<Token> = Vec::new();
        let mut i: u32 = 0;
        while i < TOKEN_COUNT
            invariant
                i <= TOKEN_COUNT,
                forall|token: Token|
                    list@.contains(token) <==> (self@.contains(token) && token.index() < i),
                forall|k: int| 0 <= k < list@.len() ==> list@[k].index() < i,
                forall|a: int, b: int|
                    0 <= a < b < list@.len() ==> list@[a].index() < list@[b].index(),
            decreases TOKEN_COUNT - i,
        {
            match Token::from_ordinal(i) {
                Some(token) => {
                    if self.contains(token) {
                        let ghost before = list@;
                        list.push(token);
                        proof {
                            assert(list@[before.len() as int] == token);
                            assert forall|other: Token|
                                list@.contains(other) <==> (self@.contains(other) && other.index()
                                    < i + 1) by {
                                if list@.contains(other) {
                                    let k = choose|k: int|
                                        0 <= k < list@.len() && list@[k] == other;
                                    if k < before.len() {
                                        assert(before[k] == other);
                                        assert(before.contains(other));
                                    }
                                }
                                if self@.contains(other) && other.index() < i + 1 {
                                    if other.index() < i {
                                        assert(before.contains(other));
                                        let k = choose|k: int|
                                            0 <= k < before.len() && before[k] == other;
                                        assert(list@[k] == other);
                                    } else {
                                        assert(other == token);
                                    }
                                }
                            }
                        }
                    }
                },
                None => {},
            }
            i += 1;
        }
        list
    }
}

/// The furthest position at which the input failed to offer what the grammar
/// asked for, with everything that was asked for there.
pub struct Frontier {
    /// The position.
    pub at: nat,
    /// What was asked for there.
    pub tokens: Set<Token>,
}

/// The frontier before anything has been asked for.
pub open spec fn quiet() -> Frontier {
    Frontier { at: 0, tokens: Set::empty() }
}

/// The frontier of one token asked for in vain at `at`.
pub open spec fn miss(at: nat, token: Token) -> Frontier {
    Frontier { at, tokens: set![token] }
}

/// The frontier of two: the further one, or, where they meet, both.
#[verifier::opaque]
pub open spec fn join(a: Frontier, b: Frontier) -> Frontier {
    if a.at > b.at {
        a
    } else if b.at > a.at {
        b
    } else {
        Frontier { at: a.at, tokens: a.tokens.union(b.tokens) }
    }
}

/// Joining is associative.
pub proof fn lemma_join_associative(a: Frontier, b: Frontier, c: Frontier)
    ensures
        join(a, join(b, c)) == join(join(a, b), c),
{
    reveal(join);
    assert(a.tokens.union(b.tokens.union(c.tokens)) =~= a.tokens.union(b.tokens).union(c.tokens));
}

} // verus!
