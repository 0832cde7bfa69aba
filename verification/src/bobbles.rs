//! The colour alphabet, guess parsing, and secret generation.
//!
//! Raw guess text is tokenized one character per token: ASCII whitespace
//! characters are separators and are ignored, every other character must be
//! one of the single-letter colour codes. More than five valid tokens are
//! truncated to the first five; fewer than five is not an error here (the
//! session decides what an incomplete guess means).

use crate::app::GUESS_LEN;
use crate::error::ParseBobbleStrError;
use rand::Rng;
use vstd::prelude::*;

verus! {

/// One of the eight colours a code peg can take.
#[derive(Debug, PartialEq, Eq, Structural, Clone, Copy)]
pub enum Bobble {
    Red,
    Green,
    Blue,
    Purple,
    Pink,
    Yellow,
    White,
    Orange,
}

/// The eight colours, in the fixed order the secret is drawn from.
pub open spec fn alphabet() -> Seq<Bobble> {
    seq![
        Bobble::Red,
        Bobble::Green,
        Bobble::Blue,
        Bobble::Purple,
        Bobble::Pink,
        Bobble::Yellow,
        Bobble::White,
        Bobble::Orange,
    ]
}

/// Characters that separate tokens in raw guess text.
pub open spec fn is_separator(c: char) -> bool {
    c == ' ' || c == '\t' || c == '\n' || c == '\r'
}

/// The single-letter colour codes: R/r, G/g, B/b, Y/y, W/w and O/o pair the
/// upper and lower case; P alone means Purple and p alone means Pink.
pub open spec fn colour_of(c: char) -> Option<Bobble> {
    if c == 'R' || c == 'r' {
        Some(Bobble::Red)
    } else if c == 'G' || c == 'g' {
        Some(Bobble::Green)
    } else if c == 'B' || c == 'b' {
        Some(Bobble::Blue)
    } else if c == 'P' {
        Some(Bobble::Purple)
    } else if c == 'p' {
        Some(Bobble::Pink)
    } else if c == 'Y' || c == 'y' {
        Some(Bobble::Yellow)
    } else if c == 'W' || c == 'w' {
        Some(Bobble::White)
    } else if c == 'O' || c == 'o' {
        Some(Bobble::Orange)
    } else {
        None
    }
}

/// The token characters of raw guess text: everything but the separators,
/// in order.
pub open spec fn tokens(s: Seq<char>) -> Seq<char>
    decreases s.len(),
{
    if s.len() == 0 {
        Seq::empty()
    } else {
        let rest = tokens(s.drop_last());
        if is_separator(s.last()) {
            rest
        } else {
            rest.push(s.last())
        }
    }
}

/// Every token is one of the colour codes.
pub open spec fn all_tokens_valid(toks: Seq<char>) -> bool {
    forall|i: int| 0 <= i < toks.len() ==> colour_of(#[trigger] toks[i]) is Some
}

/// The colours the tokens stand for, assuming they are all valid.
pub open spec fn colours_of(toks: Seq<char>) -> Seq<Bobble> {
    toks.map_values(|c: char| colour_of(c).unwrap())
}

/// What a successful parse of raw guess text returns: the colours of its
/// tokens, truncated to the first five.
pub open spec fn parsed_guess(s: Seq<char>) -> Seq<Bobble> {
    let all = colours_of(tokens(s));
    if all.len() > GUESS_LEN {
        all.take(GUESS_LEN as int)
    } else {
        all
    }
}

/// Splitting text anywhere splits its token characters the same way.
pub proof fn lemma_tokens_concat(a: Seq<char>, b: Seq<char>)
    ensures
        tokens(a + b) == tokens(a) + tokens(b),
    decreases b.len(),
{
    if b.len() == 0 {
        assert(a + b =~= a);
        assert(tokens(a) + tokens(b) =~= tokens(a));
    } else {
        lemma_tokens_concat(a, b.drop_last());
        assert((a + b).drop_last() =~= a + b.drop_last());
        if !is_separator(b.last()) {
            assert((tokens(a) + tokens(b.drop_last())).push(b.last()) =~= tokens(a) + tokens(
                b.drop_last(),
            ).push(b.last()));
        }
    }
}

impl Bobble {
    /// The colour a single code letter stands for, if any.
    pub fn from_char(c: char) -> (r: Option<Bobble>)
        ensures
            r == colour_of(c),
    {
        if c == 'R' || c == 'r' {
            Some(Bobble::Red)
        } else if c == 'G' || c == 'g' {
            Some(Bobble::Green)
        } else if c == 'B' || c == 'b' {
            Some(Bobble::Blue)
        } else if c == 'P' {
            Some(Bobble::Purple)
        } else if c == 'p' {
            Some(Bobble::Pink)
        } else if c == 'Y' || c == 'y' {
            Some(Bobble::Yellow)
        } else if c == 'W' || c == 'w' {
            Some(Bobble::White)
        } else if c == 'O' || c == 'o' {
            Some(Bobble::Orange)
        } else {
            None
        }
    }
}

/// Whether the character is a token separator.
fn is_separator_char(c: char) -> (r: bool)
    ensures
        r == is_separator(c),
{
    c == ' ' || c == '\t' || c == '\n' || c == '\r'
}

/// Relies on String::push: appends the character to the end of the string.
#[verifier::external_body]
fn push_char(s: &mut String, c: char)
    ensures
        final(s)@ == old(s)@.push(c),
{
    s.push(c);
}

/// Parse a buffer of characters into colours.
///
/// Succeeds exactly when every non-separator character is a colour code, and
/// then returns their colours truncated to the first five. Fails on the
/// leftmost character outside the mapping, carried in the error.
pub fn parse_chars(input: &Vec<char>) -> (r: Result<Vec<Bobble>, ParseBobbleStrError>)
    ensures
        r is Ok <==> all_tokens_valid(tokens(input@)),
        r matches Ok(v) ==> v@ == parsed_guess(input@),
        r matches Err(e) ==> exists|i: int|
            0 <= i < tokens(input@).len() && colour_of(#[trigger] tokens(input@)[i]) is None && (
            forall|j: int| 0 <= j < i ==> colour_of(#[trigger] tokens(input@)[j]) is Some)
                && e.0@ == seq![tokens(input@)[i]],
{
    let ghost full = input@;
    let mut colours: Vec<Bobble> = Vec::new();
    let n = input.len();
    let mut i: usize = 0;
    while i < n
        invariant
            i <= n,
            n == full.len(),
            full == input@,
            all_tokens_valid(tokens(full.take(i as int))),
            colours@ == colours_of(tokens(full.take(i as int))),
        decreases n - i,
    {
        let c = input[i];
        proof {
            assert(full.take(i + 1).drop_last() =~= full.take(i as int));
            assert(full.take(i + 1).last() == c);
        }
        if !is_separator_char(c) {
            match Bobble::from_char(c) {
                Some(b) => {
                    colours.push(b);
                    proof {
                        let tk = tokens(full.take(i as int));
                        assert(tokens(full.take(i + 1)) == tk.push(c));
                        assert(tk.push(c).map_values(|ch: char| colour_of(ch).unwrap()) =~= tk
                            .map_values(|ch: char| colour_of(ch).unwrap()).push(b));
                    }
                },
                None => {
                    proof {
                        let pre = full.take(i as int);
                        let rest = full.skip(i + 1);
                        lemma_tokens_concat(pre, full.skip(i as int));
                        assert(pre + full.skip(i as int) =~= full);
                        assert(seq![c] + rest =~= full.skip(i as int));
                        lemma_tokens_concat(seq![c], rest);
                        assert(seq![c].drop_last() =~= Seq::<char>::empty());
                        assert(tokens(Seq::<char>::empty()) == Seq::<char>::empty());
                        assert(tokens(seq![c]) =~= seq![c]);
                        let k = tokens(pre).len() as int;
                        assert(tokens(full) == tokens(pre) + (seq![c] + tokens(rest)));
                        assert(tokens(full)[k] == c);
                        assert(forall|j: int|
                            0 <= j < k ==> #[trigger] tokens(full)[j] == tokens(pre)[j]);
                    }
                    let mut token = String::new();
                    push_char(&mut token, c);
                    return Err(ParseBobbleStrError(token));
                },
            }
        }
        i = i + 1;
    }
    proof {
        assert(full.take(n as int) =~= full);
    }
    if colours.len() > GUESS_LEN {
        colours.truncate(GUESS_LEN);
        proof {
            assert(colours@ =~= colours_of(tokens(full)).take(GUESS_LEN as int));
        }
    }
    Ok(colours)
}

/// Turn a string into its characters.
fn string_to_chars(s: &str) -> (r: Vec<char>)
    ensures
        r@ == s@,
{
    let n = s.unicode_len();
    let mut out: Vec<char> = Vec::new();
    let mut i: usize = 0;
    while i < n
        invariant
            i <= n,
            n == s@.len(),
            out@ == s@.take(i as int),
        decreases n - i,
    {
        let c = s.get_char(i);
        out.push(c);
        proof {
            assert(s@.take(i as int).push(c) =~= s@.take(i + 1));
        }
        i = i + 1;
    }
    proof {
        assert(s@.take(n as int) =~= s@);
    }
    out
}

/// Parse raw guess text into colours.
///
/// One character is one token; separators (ASCII whitespace) are ignored.
/// Succeeds exactly when every token is a colour code, returning the colours
/// truncated to the first five; fails on the leftmost bad token.
pub fn parse_guess(guess: String) -> (r: Result<Vec<Bobble>, ParseBobbleStrError>)
    ensures
        r is Ok <==> all_tokens_valid(tokens(guess@)),
        r matches Ok(v) ==> v@ == parsed_guess(guess@),
        r matches Err(e) ==> exists|i: int|
            0 <= i < tokens(guess@).len() && colour_of(#[trigger] tokens(guess@)[i]) is None && (
            forall|j: int| 0 <= j < i ==> colour_of(#[trigger] tokens(guess@)[j]) is Some)
                && e.0@ == seq![tokens(guess@)[i]],
{
    let cs = string_to_chars(guess.as_str());
    parse_chars(&cs)
}

/// A sequence of colours with no colour repeated.
pub open spec fn distinct(s: Seq<Bobble>) -> bool {
    forall|i: int, j: int| 0 <= i < j < s.len() ==> s[i] != s[j]
}

/// Relies on rand::Rng::gen_range on the thread-local generator: returns a
/// value drawn from the half-open range below `bound`.
#[verifier::external_body]
fn random_below(bound: usize) -> (r: usize)
    requires
        0 < bound,
    ensures
        r < bound,
{
    rand::thread_rng().gen_range(0..bound)
}

/// Draw a secret: five distinct colours sampled without replacement from the
/// eight-colour alphabet.
pub fn make_secret() -> (secret: Vec<Bobble>)
    ensures
        secret@.len() == GUESS_LEN,
        distinct(secret@),
        forall|i: int| 0 <= i < secret@.len() ==> alphabet().contains(#[trigger] secret@[i]),
{
    let mut options: Vec<Bobble> = vec![
        Bobble::Red,
        Bobble::Green,
        Bobble::Blue,
        Bobble::Purple,
        Bobble::Pink,
        Bobble::Yellow,
        Bobble::White,
        Bobble::Orange,
    ];
    proof {
        assert(options@ =~= alphabet());
        assert(distinct(options@));
    }
    let mut chosen: Vec<Bobble> = Vec::new();
    while chosen.len() < GUESS_LEN
        invariant
            chosen@.len() + options@.len() == alphabet().len(),
            chosen@.len() <= GUESS_LEN,
            distinct(options@),
            distinct(chosen@),
            forall|i: int, j: int|
                0 <= i < options@.len() && 0 <= j < chosen@.len() ==> options@[i] != chosen@[j],
            forall|i: int| 0 <= i < options@.len() ==> alphabet().contains(#[trigger] options@[i]),
            forall|i: int| 0 <= i < chosen@.len() ==> alphabet().contains(#[trigger] chosen@[i]),
        decreases GUESS_LEN - chosen.len(),
    {
        let idx = random_below(options.len());
        let choice = options.swap_remove(idx);
        chosen.push(choice);
    }
    chosen
}

} // verus!
