//! The game session: secret, turn counter, input buffer, history, outcome.
//!
//! The session gates itself: every editing and submission operation is a
//! no-op once the game is over, so turn counter, history and secret are
//! frozen in a terminal state. The loss transition is folded into
//! submission: the session moves to `Loss` exactly when a non-winning
//! submission brings the turn counter to `MAX_TURNS`.

use crate::bobbles::{
    all_tokens_valid, colour_of, distinct, make_secret, parse_chars, parsed_guess, tokens, Bobble,
};
use crate::error::ParseBobbleStrError;
use vstd::prelude::*;

verus! {

/// How many colours a full guess and the secret hold.
pub const GUESS_LEN: usize = 5;

/// How many submissions a session allows before it is lost.
pub const MAX_TURNS: u8 = 15;

/// The session's phase. `InProgress` is initial; `Win` and `Loss` are
/// terminal: no editing or submission changes the session afterwards.
#[derive(Debug, PartialEq, Eq, Structural, Clone, Copy)]
pub enum GameState {
    Win,
    Loss,
    InProgress,
}

/// How many of the first `n` positions hold the same colour in guess and
/// secret.
pub open spec fn exact_matches(guess: Seq<Bobble>, secret: Seq<Bobble>, n: int) -> int
    decreases n,
{
    if n <= 0 {
        0
    } else {
        exact_matches(guess, secret, n - 1) + if guess[n - 1] == secret[n - 1] {
            1int
        } else {
            0int
        }
    }
}

/// How many of the first `n` guess positions hold a colour that occurs
/// anywhere in the secret. Because the secret never repeats a colour, this
/// per-position membership count stands in for multiset accounting; a guess
/// that repeats a secret colour counts it at each of its positions.
pub open spec fn present_matches(guess: Seq<Bobble>, secret: Seq<Bobble>, n: int) -> int
    decreases n,
{
    if n <= 0 {
        0
    } else {
        present_matches(guess, secret, n - 1) + if secret.contains(guess[n - 1]) {
            1int
        } else {
            0int
        }
    }
}

/// Every prefix scores between nothing and everything: the exact count is at
/// most the present count, which is at most the prefix length.
pub proof fn lemma_matches_bounds(guess: Seq<Bobble>, secret: Seq<Bobble>, n: int)
    requires
        0 <= n <= guess.len(),
        n <= secret.len(),
    ensures
        0 <= exact_matches(guess, secret, n),
        exact_matches(guess, secret, n) <= present_matches(guess, secret, n),
        present_matches(guess, secret, n) <= n,
    decreases n,
{
    if n > 0 {
        lemma_matches_bounds(guess, secret, n - 1);
    }
}

/// Guessing the secret itself matches exactly at every position.
pub proof fn lemma_exact_self(secret: Seq<Bobble>, n: int)
    requires
        0 <= n <= secret.len(),
    ensures
        exact_matches(secret, secret, n) == n,
    decreases n,
{
    if n > 0 {
        lemma_exact_self(secret, n - 1);
    }
}

/// For any full-length guess and secret the three mark counts — exact,
/// colour-only, and none — are each within bounds and sum to the guess
/// length: exact is in 0..=5, colour-only in 0..=(5-exact).
pub proof fn lemma_marks_partition(guess: Seq<Bobble>, secret: Seq<Bobble>)
    requires
        guess.len() == GUESS_LEN,
        secret.len() == GUESS_LEN,
    ensures
        0 <= exact_matches(guess, secret, GUESS_LEN as int) <= GUESS_LEN,
        0 <= present_matches(guess, secret, GUESS_LEN as int) - exact_matches(
            guess,
            secret,
            GUESS_LEN as int,
        ) <= GUESS_LEN - exact_matches(guess, secret, GUESS_LEN as int),
        exact_matches(guess, secret, GUESS_LEN as int) + (present_matches(
            guess,
            secret,
            GUESS_LEN as int,
        ) - exact_matches(guess, secret, GUESS_LEN as int)) + (GUESS_LEN - present_matches(
            guess,
            secret,
            GUESS_LEN as int,
        )) == GUESS_LEN,
{
    lemma_matches_bounds(guess, secret, GUESS_LEN as int);
}

/// Whether the secret holds this colour anywhere.
fn secret_contains(secret: &Vec<Bobble>, b: Bobble) -> (r: bool)
    ensures
        r == secret@.contains(b),
{
    let n = secret.len();
    let mut i: usize = 0;
    while i < n
        invariant
            i <= n,
            n == secret@.len(),
            forall|k: int| 0 <= k < i ==> secret@[k] != b,
        decreases n - i,
    {
        if secret[i] == b {
            return true;
        }
        i = i + 1;
    }
    false
}

/// Score a full guess against the secret: the count of exact-position
/// matches, of colour-only matches, and of positions matching nothing. The
/// result is a function of the two sequences alone, and the three counts
/// partition the five positions.
pub fn score_guess(secret: &Vec<Bobble>, guess: &Vec<Bobble>) -> (r: (u8, u8, u8))
    requires
        secret@.len() == GUESS_LEN,
        guess@.len() == GUESS_LEN,
    ensures
        r.0 == exact_matches(guess@, secret@, GUESS_LEN as int),
        r.1 == present_matches(guess@, secret@, GUESS_LEN as int) - exact_matches(
            guess@,
            secret@,
            GUESS_LEN as int,
        ),
        r.2 == GUESS_LEN - present_matches(guess@, secret@, GUESS_LEN as int),
{
    let mut exact: u8 = 0;
    let mut present: u8 = 0;
    let mut i: usize = 0;
    while i < GUESS_LEN
        invariant
            i <= GUESS_LEN,
            secret@.len() == GUESS_LEN,
            guess@.len() == GUESS_LEN,
            exact == exact_matches(guess@, secret@, i as int),
            present == present_matches(guess@, secret@, i as int),
            exact <= i,
            present <= i,
        decreases GUESS_LEN - i,
    {
        if secret[i] == guess[i] {
            exact = exact + 1;
        }
        if secret_contains(secret, guess[i]) {
            present = present + 1;
        }
        i = i + 1;
    }
    proof {
        lemma_matches_bounds(guess@, secret@, GUESS_LEN as int);
    }
    (exact, present - exact, (GUESS_LEN as u8) - present)
}

/// The mark summary of a scored guess: exact marks first, then colour-only
/// marks, then blanks. A count summary, not a per-position annotation.
pub open spec fn marks_seq(exact: nat, colour_only: nat, none: nat) -> Seq<char> {
    Seq::new(exact, |i: int| 'Y') + Seq::new(colour_only, |i: int| 'y') + Seq::new(
        none,
        |i: int| '-',
    )
}

/// One completed submission: the guess, its mark counts, and the turn it was
/// submitted on. Never changed once appended to the history.
#[derive(Debug, Clone)]
pub struct ScoredGuess {
    pub guess: Vec<Bobble>,
    pub exact: u8,
    pub colour_only: u8,
    pub none: u8,
    pub turn: u8,
}

impl ScoredGuess {
    /// The record correctly scores its guess against this secret as the
    /// `k`-th entry of the history.
    pub open spec fn wf_at(self, secret: Seq<Bobble>, k: int) -> bool {
        &&& self.guess@.len() == GUESS_LEN
        &&& self.exact == exact_matches(self.guess@, secret, GUESS_LEN as int)
        &&& self.colour_only == present_matches(self.guess@, secret, GUESS_LEN as int)
            - exact_matches(self.guess@, secret, GUESS_LEN as int)
        &&& self.none == GUESS_LEN - present_matches(self.guess@, secret, GUESS_LEN as int)
        &&& self.turn == k + 1
    }

    /// Render the marks of this record: `exact` high marks, then
    /// `colour_only` low marks, then blanks.
    pub fn marks(&self) -> (r: Vec<char>)
        ensures
            r@ == marks_seq(self.exact as nat, self.colour_only as nat, self.none as nat),
    {
        let mut out: Vec<char> = Vec::new();
        let mut i: u8 = 0;
        while i < self.exact
            invariant
                i <= self.exact,
                out@ == Seq::new(i as nat, |k: int| 'Y'),
            decreases self.exact - i,
        {
            out.push('Y');
            proof {
                assert(Seq::new(i as nat, |k: int| 'Y').push('Y') =~= Seq::new(
                    (i + 1) as nat,
                    |k: int| 'Y',
                ));
            }
            i = i + 1;
        }
        let mut j: u8 = 0;
        while j < self.colour_only
            invariant
                j <= self.colour_only,
                out@ == Seq::new(self.exact as nat, |k: int| 'Y') + Seq::new(
                    j as nat,
                    |k: int| 'y',
                ),
            decreases self.colour_only - j,
        {
            out.push('y');
            proof {
                assert((Seq::new(self.exact as nat, |k: int| 'Y') + Seq::new(
                    j as nat,
                    |k: int| 'y',
                )).push('y') =~= Seq::new(self.exact as nat, |k: int| 'Y') + Seq::new(
                    (j + 1) as nat,
                    |k: int| 'y',
                ));
            }
            j = j + 1;
        }
        let mut m: u8 = 0;
        while m < self.none
            invariant
                m <= self.none,
                out@ == Seq::new(self.exact as nat, |k: int| 'Y') + Seq::new(
                    self.colour_only as nat,
                    |k: int| 'y',
                ) + Seq::new(m as nat, |k: int| '-'),
            decreases self.none - m,
        {
            out.push('-');
            proof {
                assert((Seq::new(self.exact as nat, |k: int| 'Y') + Seq::new(
                    self.colour_only as nat,
                    |k: int| 'y',
                ) + Seq::new(m as nat, |k: int| '-')).push('-') =~= Seq::new(
                    self.exact as nat,
                    |k: int| 'Y',
                ) + Seq::new(self.colour_only as nat, |k: int| 'y') + Seq::new(
                    (m + 1) as nat,
                    |k: int| '-',
                ));
            }
            m = m + 1;
        }
        proof {
            assert(Seq::new(0nat, |k: int| 'Y') =~= Seq::<char>::empty());
            assert(Seq::new(self.exact as nat, |k: int| 'Y') + Seq::new(0nat, |k: int| 'y')
                =~= Seq::new(self.exact as nat, |k: int| 'Y'));
        }
        out
    }
}

/// A game session. The fields are readable state for a rendering
/// collaborator; `wf` is the invariant every operation preserves.
pub struct App {
    /// The input buffer being edited.
    pub input: Vec<char>,
    /// Where the next character lands; always within `0..=input.len()`.
    pub input_cursor: usize,
    /// The hidden code: five distinct colours, fixed at session start.
    pub secret: Vec<Bobble>,
    /// Completed submissions; grows by one per accepted guess.
    pub turn: u8,
    /// The session's phase.
    pub game_state: GameState,
    /// The scored history, one entry per completed submission.
    pub guesses: Vec<ScoredGuess>,
}

impl App {
    /// The session invariant: a five-colour distinct secret, a cursor within
    /// the buffer, a turn counter within budget that equals the history
    /// length, correctly scored history entries, and a phase consistent with
    /// the turn counter — in progress only below the budget, lost exactly at
    /// it.
    pub open spec fn wf(self) -> bool {
        &&& self.secret@.len() == GUESS_LEN
        &&& distinct(self.secret@)
        &&& self.input_cursor <= self.input@.len()
        &&& self.turn <= MAX_TURNS
        &&& self.guesses@.len() == self.turn as int
        &&& (self.game_state == GameState::InProgress ==> self.turn < MAX_TURNS)
        &&& (self.game_state == GameState::Loss ==> self.turn == MAX_TURNS)
        &&& forall|k: int|
            0 <= k < self.guesses@.len() ==> (#[trigger] self.guesses@[k]).wf_at(self.secret@, k)
    }

    /// Everything but the input buffer and cursor is the same in both.
    pub open spec fn same_game(self, other: App) -> bool {
        &&& self.secret@ == other.secret@
        &&& self.turn == other.turn
        &&& self.game_state == other.game_state
        &&& self.guesses@ == other.guesses@
    }

    /// Start a session over a given secret.
    pub fn with_secret(secret: Vec<Bobble>) -> (app: App)
        requires
            secret@.len() == GUESS_LEN,
            distinct(secret@),
        ensures
            app.wf(),
            app.secret@ == secret@,
            app.turn == 0,
            app.game_state == GameState::InProgress,
            app.input@ == Seq::<char>::empty(),
            app.input_cursor == 0,
            app.guesses@ == Seq::<ScoredGuess>::empty(),
    {
        App {
            input: Vec::new(),
            input_cursor: 0,
            secret,
            turn: 0,
            game_state: GameState::InProgress,
            guesses: Vec::new(),
        }
    }

    /// Start a session over a freshly drawn random secret.
    pub fn new() -> (app: App)
        ensures
            app.wf(),
            app.turn == 0,
            app.game_state == GameState::InProgress,
            app.input@ == Seq::<char>::empty(),
            app.input_cursor == 0,
            app.guesses@ == Seq::<ScoredGuess>::empty(),
    {
        App::with_secret(make_secret())
    }

    /// The input buffer contents.
    pub fn input(&self) -> (r: &[char])
        ensures
            r@ == self.input@,
    {
        self.input.as_slice()
    }

    /// Append a character to the end of the input buffer, leaving the cursor
    /// where it is. A no-op once the game is over.
    pub fn store(&mut self, c: char)
        requires
            old(self).wf(),
        ensures
            final(self).wf(),
            old(self).same_game(*final(self)),
            final(self).input_cursor == old(self).input_cursor,
            old(self).game_state == GameState::InProgress ==> final(self).input@ == old(self).input@.push(c),
            old(self).game_state != GameState::InProgress ==> *final(self) == *old(self),
    {
        if self.game_state == GameState::InProgress {
            self.input.push(c);
        }
    }

    /// Insert a character at the cursor and move the cursor past it. A no-op
    /// once the game is over.
    pub fn input_write(&mut self, character: char)
        requires
            old(self).wf(),
        ensures
            final(self).wf(),
            old(self).same_game(*final(self)),
            old(self).game_state == GameState::InProgress ==> {
                &&& final(self).input@ == old(self).input@.insert(
                    old(self).input_cursor as int,
                    character,
                )
                &&& final(self).input_cursor == old(self).input_cursor + 1
            },
            old(self).game_state != GameState::InProgress ==> *final(self) == *old(self),
    {
        if self.game_state == GameState::InProgress {
            self.input.insert(self.input_cursor, character);
            let grown = self.input.len();
            proof {
                assert(self.input_cursor < grown);
            }
            self.input_cursor = self.input_cursor + 1;
        }
    }

    /// Delete the character at the cursor, if there is one. A no-op at the
    /// end of the buffer and once the game is over.
    pub fn input_remove(&mut self)
        requires
            old(self).wf(),
        ensures
            final(self).wf(),
            old(self).same_game(*final(self)),
            final(self).input_cursor == old(self).input_cursor,
            old(self).game_state == GameState::InProgress && old(self).input_cursor < old(self).input@.len() ==> final(self).input@ == old(self).input@.remove(
                old(self).input_cursor as int,
            ),
            old(self).game_state != GameState::InProgress || old(self).input_cursor >= old(self).input@.len() ==> *final(self) == *old(self),
    {
        if self.game_state == GameState::InProgress {
            if self.input_cursor < self.input.len() {
                self.input.remove(self.input_cursor);
            }
        }
    }

    /// Delete the character before the cursor and move the cursor back, as
    /// backspace does. A no-op at the start of the buffer and once the game
    /// is over.
    pub fn input_remove_previous(&mut self)
        requires
            old(self).wf(),
        ensures
            final(self).wf(),
            old(self).same_game(*final(self)),
            old(self).game_state == GameState::InProgress && old(self).input_cursor > 0 ==> {
                &&& final(self).input_cursor == old(self).input_cursor - 1
                &&& final(self).input@ == old(self).input@.remove(old(self).input_cursor - 1)
            },
            old(self).game_state != GameState::InProgress || old(self).input_cursor == 0 ==> *final(self) == *old(self),
    {
        if self.game_state == GameState::InProgress {
            if self.input_cursor > 0 {
                self.input_cursor = self.input_cursor - 1;
                self.input.remove(self.input_cursor);
            }
        }
    }

    /// Move the cursor one place left; a no-op at the start of the buffer
    /// and once the game is over.
    pub fn left(&mut self)
        requires
            old(self).wf(),
        ensures
            final(self).wf(),
            old(self).same_game(*final(self)),
            final(self).input@ == old(self).input@,
            old(self).game_state == GameState::InProgress && old(self).input_cursor > 0 ==> final(self).input_cursor == old(self).input_cursor - 1,
            old(self).game_state != GameState::InProgress || old(self).input_cursor == 0 ==> *final(self) == *old(self),
    {
        if self.game_state == GameState::InProgress {
            if self.input_cursor > 0 {
                self.input_cursor = self.input_cursor - 1;
            }
        }
    }

    /// What one accepted submission does to the session: the parsed guess
    /// is scored against the secret, the turn counter grows by one, the
    /// buffer and cursor are cleared, the scored record joins the history,
    /// and the phase becomes `Win` on a full exact match, `Loss` when this
    /// submission spends the turn budget, and stays `InProgress` otherwise.
    pub open spec fn submission_effect(pre: App, post: App) -> bool {
        let g = parsed_guess(pre.input@);
        let e = exact_matches(g, pre.secret@, GUESS_LEN as int);
        let p = present_matches(g, pre.secret@, GUESS_LEN as int);
        &&& post.secret@ == pre.secret@
        &&& post.turn == pre.turn + 1
        &&& post.input@ == Seq::<char>::empty()
        &&& post.input_cursor == 0
        &&& post.guesses@.len() == pre.guesses@.len() + 1
        &&& (forall|k: int| 0 <= k < pre.guesses@.len() ==> post.guesses@[k] == pre.guesses@[k])
        &&& post.guesses@.last().guess@ == g
        &&& post.guesses@.last().exact == e
        &&& post.guesses@.last().colour_only == p - e
        &&& post.guesses@.last().none == GUESS_LEN - p
        &&& post.guesses@.last().turn == pre.turn + 1
        &&& post.game_state == (if e == GUESS_LEN {
            GameState::Win
        } else if pre.turn + 1 == MAX_TURNS {
            GameState::Loss
        } else {
            GameState::InProgress
        })
    }

    /// The session is still running and the buffer holds a full guess:
    /// every token a colour code, and at least five of them.
    pub open spec fn submission_accepted(self) -> bool {
        &&& self.game_state == GameState::InProgress
        &&& all_tokens_valid(tokens(self.input@))
        &&& tokens(self.input@).len() >= GUESS_LEN
    }

    /// Submit the input buffer as a guess.
    ///
    /// Once the game is over nothing happens. Otherwise the buffer is
    /// parsed; a bad token fails with the parse error and leaves the
    /// session unchanged, and a valid buffer of fewer than five colours —
    /// the empty buffer included — leaves the session unchanged too, so an
    /// incomplete guess can be edited further. A full guess completes a
    /// turn, as `submission_effect` states.
    pub fn submit_guess(&mut self) -> (r: Result<(), ParseBobbleStrError>)
        requires
            old(self).wf(),
        ensures
            final(self).wf(),
            final(self).secret@ == old(self).secret@,
            r is Ok <==> (old(self).game_state != GameState::InProgress || all_tokens_valid(
                tokens(old(self).input@),
            )),
            r matches Err(e) ==> *final(self) == *old(self) && exists|i: int|
                0 <= i < tokens(old(self).input@).len() && colour_of(
                    #[trigger] tokens(old(self).input@)[i],
                ) is None && (forall|j: int|
                    0 <= j < i ==> colour_of(#[trigger] tokens(old(self).input@)[j]) is Some)
                    && e.0@ == seq![tokens(old(self).input@)[i]],
            !old(self).submission_accepted() ==> *final(self) == *old(self),
            old(self).submission_accepted() ==> App::submission_effect(*old(self), *final(self)),
    {
        if self.game_state != GameState::InProgress {
            return Ok(());
        }
        let parsed = match parse_chars(&self.input) {
            Ok(v) => v,
            Err(e) => {
                return Err(e);
            },
        };
        if parsed.len() < GUESS_LEN {
            return Ok(());
        }
        let (exact, colour_only, blank) = score_guess(&self.secret, &parsed);
        let turn = self.turn + 1;
        self.turn = turn;
        self.input.clear();
        self.input_cursor = 0;
        let state = if (exact as usize) == GUESS_LEN {
            GameState::Win
        } else if turn == MAX_TURNS {
            GameState::Loss
        } else {
            GameState::InProgress
        };
        self.guesses.push(
            ScoredGuess { guess: parsed, exact, colour_only, none: blank, turn },
        );
        self.game_state = state;
        Ok(())
    }

    /// Move the cursor one place right; a no-op at the end of the buffer
    /// and once the game is over.
    pub fn right(&mut self)
        requires
            old(self).wf(),
        ensures
            final(self).wf(),
            old(self).same_game(*final(self)),
            final(self).input@ == old(self).input@,
            old(self).game_state == GameState::InProgress && old(self).input_cursor < old(self).input@.len() ==> final(self).input_cursor == old(self).input_cursor + 1,
            old(self).game_state != GameState::InProgress || old(self).input_cursor >= old(self).input@.len() ==> *final(self) == *old(self),
    {
        if self.game_state == GameState::InProgress {
            if self.input_cursor < self.input.len() {
                self.input_cursor = self.input_cursor + 1;
            }
        }
    }
}

/// Guessing the secret wins: an accepted submission whose parsed guess is
/// the secret itself scores five exact matches and leaves the session in
/// `Win`.
pub proof fn lemma_guessing_secret_wins(pre: App, post: App)
    requires
        pre.wf(),
        parsed_guess(pre.input@) == pre.secret@,
        App::submission_effect(pre, post),
    ensures
        post.game_state == GameState::Win,
{
    lemma_exact_self(pre.secret@, GUESS_LEN as int);
}

/// An empty input buffer is never an accepted submission, so submitting it
/// leaves turn counter, history and phase unchanged.
pub proof fn lemma_empty_buffer_not_accepted(app: App)
    requires
        app.input@ == Seq::<char>::empty(),
    ensures
        !app.submission_accepted(),
{
    assert(tokens(app.input@) == Seq::<char>::empty());
}

/// Each accepted submission advances the turn counter by exactly one, and
/// the session is lost exactly when a non-winning submission spends the
/// last turn of the budget.
pub proof fn lemma_turns_and_loss(pre: App, post: App)
    requires
        pre.wf(),
        App::submission_effect(pre, post),
    ensures
        post.turn == pre.turn + 1,
        post.game_state == GameState::Loss <==> (exact_matches(
            parsed_guess(pre.input@),
            pre.secret@,
            GUESS_LEN as int,
        ) != GUESS_LEN && post.turn == MAX_TURNS),
{
}

/// The cursor sits within the input buffer in every well-formed session,
/// and every operation keeps the session well-formed.
pub proof fn lemma_cursor_in_bounds(app: App)
    requires
        app.wf(),
    ensures
        app.input_cursor <= app.input@.len(),
{
}

} // verus!

