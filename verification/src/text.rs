//! The textual move grammar: case-insensitive tokens for cards, bids,
//! widow decisions and declarations, and the rendering of move codes back
//! to text.

use vstd::prelude::*;
use vstd::math::max;
use crate::cards::{Card, CardValue, OptCard, Suit};
use crate::decl::{Declaration, GameLevel, NormalMode};
use crate::codec::DeclarationMove;

verus! {

/// ASCII lower-casing of one character; everything but the letters stays.
pub open spec fn spec_lower(c: char) -> char {
    if c == 'A' {
        'a'
    } else if c == 'B' {
        'b'
    } else if c == 'C' {
        'c'
    } else if c == 'D' {
        'd'
    } else if c == 'E' {
        'e'
    } else if c == 'F' {
        'f'
    } else if c == 'G' {
        'g'
    } else if c == 'H' {
        'h'
    } else if c == 'I' {
        'i'
    } else if c == 'J' {
        'j'
    } else if c == 'K' {
        'k'
    } else if c == 'L' {
        'l'
    } else if c == 'M' {
        'm'
    } else if c == 'N' {
        'n'
    } else if c == 'O' {
        'o'
    } else if c == 'P' {
        'p'
    } else if c == 'Q' {
        'q'
    } else if c == 'R' {
        'r'
    } else if c == 'S' {
        's'
    } else if c == 'T' {
        't'
    } else if c == 'U' {
        'u'
    } else if c == 'V' {
        'v'
    } else if c == 'W' {
        'w'
    } else if c == 'X' {
        'x'
    } else if c == 'Y' {
        'y'
    } else if c == 'Z' {
        'z'
    } else {
        c
    }
}

pub open spec fn spec_lower_seq(s: Seq<char>) -> Seq<char> {
    s.map_values(|c: char| spec_lower(c))
}

fn lower_char(c: char) -> (r: char)
    ensures
        r == spec_lower(c),
{
    match c {
        'A' => 'a',
        'B' => 'b',
        'C' => 'c',
        'D' => 'd',
        'E' => 'e',
        'F' => 'f',
        'G' => 'g',
        'H' => 'h',
        'I' => 'i',
        'J' => 'j',
        'K' => 'k',
        'L' => 'l',
        'M' => 'm',
        'N' => 'n',
        'O' => 'o',
        'P' => 'p',
        'Q' => 'q',
        'R' => 'r',
        'S' => 's',
        'T' => 't',
        'U' => 'u',
        'V' => 'v',
        'W' => 'w',
        'X' => 'x',
        'Y' => 'y',
        'Z' => 'z',
        other => other,
    }
}

/// The input's characters, lower-cased.
fn str_chars_lower(s: &str) -> (r: Vec<char>)
    ensures
        r@ == spec_lower_seq(s@),
{
    let n = s.unicode_len();
    let mut r: Vec<char> = Vec::new();
    let mut i: usize = 0;
    while i < n
        invariant
            i <= n,
            n == s@.len(),
            r@ == spec_lower_seq(s@.take(i as int)),
        decreases n - i,
    {
        r.push(lower_char(s.get_char(i)));
        proof {
            assert(spec_lower_seq(s@.take(i as int + 1)) =~= spec_lower_seq(
                s@.take(i as int),
            ).push(spec_lower(s@[i as int])));
        }
        i += 1;
    }
    proof {
        assert(s@.take(s@.len() as int) =~= s@);
    }
    r
}

/// Index right after the whitespace-free run starting at `i`.
pub open spec fn token_end(s: Seq<char>, i: int) -> int
    decreases s.len() - i,
{
    if i < 0 || i >= s.len() || s[i] == ' ' {
        i
    } else {
        token_end(s, i + 1)
    }
}

/// The space-separated tokens of `s` from position `i` on.
pub open spec fn spec_tokens_from(s: Seq<char>, i: int) -> Seq<Seq<char>>
    decreases s.len() - i,
    via spec_tokens_from_decreases
{
    if i < 0 || i >= s.len() {
        Seq::empty()
    } else if s[i] == ' ' {
        spec_tokens_from(s, i + 1)
    } else {
        let e = max(token_end(s, i), i + 1);
        seq![s.subrange(i, e)] + spec_tokens_from(s, e)
    }
}

/// The space-separated tokens of the whole lower-cased input.
pub open spec fn spec_tokens(s: Seq<char>) -> Seq<Seq<char>> {
    spec_tokens_from(spec_lower_seq(s), 0)
}

#[via_fn]
proof fn spec_tokens_from_decreases(s: Seq<char>, i: int) {
    if 0 <= i < s.len() && s[i] != ' ' {
        lemma_token_end(s, i);
    }
}

proof fn lemma_token_end(s: Seq<char>, i: int)
    requires
        0 <= i <= s.len(),
    ensures
        i <= token_end(s, i) <= s.len(),
        forall|j: int| i <= j < token_end(s, i) ==> s[j] != ' ',
        token_end(s, i) < s.len() ==> s[token_end(s, i)] == ' ',
    decreases s.len() - i,
{
    if i < s.len() && s[i] != ' ' {
        lemma_token_end(s, i + 1);
    }
}

/// Split the characters into their space-separated tokens.
fn tokenize(chars: &Vec<char>) -> (r: Vec<Vec<char>>)
    ensures
        r@.map_values(|t: Vec<char>| t@) == spec_tokens_from(chars@, 0),
{
    let s = chars;
    let n = s.len();
    let mut r: Vec<Vec<char>> = Vec::new();
    let mut i: usize = 0;
    while i < n
        invariant
            i <= n,
            n == s@.len(),
            spec_tokens_from(s@, 0) == r@.map_values(|t: Vec<char>| t@) + spec_tokens_from(
                s@,
                i as int,
            ),
        decreases n - i,
    {
        if s[i] == ' ' {
            i += 1;
        } else {
            let start = i;
            let mut j = i;
            while j < n && s[j] != ' '
                invariant
                    start <= j <= n,
                    n == s@.len(),
                    token_end(s@, start as int) == token_end(s@, j as int),
                decreases n - j,
            {
                j += 1;
            }
            proof {
                lemma_token_end(s@, j as int);
                assert(token_end(s@, j as int) == j);
            }
            let mut tok: Vec<char> = Vec::new();
            let mut k = start;
            while k < j
                invariant
                    start <= k <= j <= n,
                    n == s@.len(),
                    tok@ == s@.subrange(start as int, k as int),
                decreases j - k,
            {
                tok.push(s[k]);
                proof {
                    assert(s@.subrange(start as int, k as int + 1) =~= s@.subrange(
                        start as int,
                        k as int,
                    ).push(s@[k as int]));
                }
                k += 1;
            }
            let ghost before = r@;
            r.push(tok);
            proof {
                assert(r@.map_values(|t: Vec<char>| t@) =~= before.map_values(
                    |t: Vec<char>| t@,
                ).push(tok@));
                assert(max(token_end(s@, start as int), start as int + 1) == j);
                assert(spec_tokens_from(s@, start as int) == seq![
                    s@.subrange(start as int, j as int),
                ] + spec_tokens_from(s@, j as int));
                assert(before.map_values(|t: Vec<char>| t@).push(tok@) + spec_tokens_from(
                    s@,
                    j as int,
                ) =~= before.map_values(|t: Vec<char>| t@) + spec_tokens_from(
                    s@,
                    start as int,
                ));
            }
            i = j;
        }
    }
    r
}

pub open spec fn kw_hidden() -> Seq<char> {
    "?"@
}

pub open spec fn kw_pass() -> Seq<char> {
    "pass"@
}

pub open spec fn kw_accept() -> Seq<char> {
    "accept"@
}

pub open spec fn kw_yes() -> Seq<char> {
    "yes"@
}

pub open spec fn kw_hand() -> Seq<char> {
    "hand"@
}

pub open spec fn kw_pick() -> Seq<char> {
    "pick"@
}

pub open spec fn kw_null() -> Seq<char> {
    "null"@
}

pub open spec fn kw_ouvert() -> Seq<char> {
    "ouvert"@
}

pub open spec fn kw_schneider() -> Seq<char> {
    "schneider"@
}

pub open spec fn kw_schwarz() -> Seq<char> {
    "schwarz"@
}

pub open spec fn kw_grand() -> Seq<char> {
    "grand"@
}

pub open spec fn kw_clubs() -> Seq<char> {
    "clubs"@
}

pub open spec fn kw_spades() -> Seq<char> {
    "spades"@
}

pub open spec fn kw_hearts() -> Seq<char> {
    "hearts"@
}

pub open spec fn kw_diamonds() -> Seq<char> {
    "diamonds"@
}

pub open spec fn kw_overbidden() -> Seq<char> {
    "overbidden"@
}

/// Whether the token equals the expected character run.
fn token_is(t: &Vec<char>, kw: &Vec<char>) -> (r: bool)
    ensures
        r == (t@ == kw@),
{
    if t.len() != kw.len() {
        return false;
    }
    let mut i: usize = 0;
    while i < t.len()
        invariant
            i <= t@.len(),
            t@.len() == kw@.len(),
            forall|j: int| 0 <= j < i ==> t@[j] == kw@[j],
        decreases t@.len() - i,
    {
        if t[i] != kw[i] {
            return false;
        }
        i += 1;
    }
    proof {
        assert(t@ =~= kw@);
    }
    true
}

/// The lower-cased rank of a single rank character, if any.
pub open spec fn spec_rank_of_char(c: char) -> Option<CardValue> {
    if c == '7' {
        Some(CardValue::Num7)
    } else if c == '8' {
        Some(CardValue::Num8)
    } else if c == '9' {
        Some(CardValue::Num9)
    } else if c == 'j' {
        Some(CardValue::Jack)
    } else if c == 'q' {
        Some(CardValue::Queen)
    } else if c == 'k' {
        Some(CardValue::King)
    } else if c == 'a' {
        Some(CardValue::Ace)
    } else {
        None
    }
}

pub open spec fn spec_suit_of_char(c: char) -> Option<Suit> {
    if c == 'c' {
        Some(Suit::Clubs)
    } else if c == 's' {
        Some(Suit::Spades)
    } else if c == 'h' {
        Some(Suit::Hearts)
    } else if c == 'd' {
        Some(Suit::Diamonds)
    } else {
        None
    }
}

/// The card a lower-cased token names: a rank character, or `10`, followed
/// directly by a suit character.
pub open spec fn spec_card_of_token(t: Seq<char>) -> Option<Card> {
    if t.len() == 2 {
        match (spec_rank_of_char(t[0]), spec_suit_of_char(t[1])) {
            (Some(v), Some(s)) => Some(Card { value: v, suit: s }),
            _ => None,
        }
    } else if t.len() == 3 && t[0] == '1' && t[1] == '0' {
        match spec_suit_of_char(t[2]) {
            Some(s) => Some(Card { value: CardValue::Num10, suit: s }),
            _ => None,
        }
    } else {
        None
    }
}

fn rank_of_char(c: char) -> (r: Option<CardValue>)
    ensures
        r == spec_rank_of_char(c),
{
    match c {
        '7' => Some(CardValue::Num7),
        '8' => Some(CardValue::Num8),
        '9' => Some(CardValue::Num9),
        'j' => Some(CardValue::Jack),
        'q' => Some(CardValue::Queen),
        'k' => Some(CardValue::King),
        'a' => Some(CardValue::Ace),
        _ => None,
    }
}

fn suit_of_char(c: char) -> (r: Option<Suit>)
    ensures
        r == spec_suit_of_char(c),
{
    match c {
        'c' => Some(Suit::Clubs),
        's' => Some(Suit::Spades),
        'h' => Some(Suit::Hearts),
        'd' => Some(Suit::Diamonds),
        _ => None,
    }
}

fn card_of_token(t: &Vec<char>) -> (r: Option<Card>)
    ensures
        r == spec_card_of_token(t@),
{
    if t.len() == 2 {
        match (rank_of_char(t[0]), suit_of_char(t[1])) {
            (Some(v), Some(s)) => Some(Card { value: v, suit: s }),
            _ => None,
        }
    } else if t.len() == 3 && t[0] == '1' && t[1] == '0' {
        match suit_of_char(t[2]) {
            Some(s) => Some(Card { value: CardValue::Num10, suit: s }),
            _ => None,
        }
    } else {
        None
    }
}

/// Numeric value of a digit character, or a negative marker.
pub open spec fn spec_digit(c: char) -> int {
    if c == '0' {
        0
    } else if c == '1' {
        1
    } else if c == '2' {
        2
    } else if c == '3' {
        3
    } else if c == '4' {
        4
    } else if c == '5' {
        5
    } else if c == '6' {
        6
    } else if c == '7' {
        7
    } else if c == '8' {
        8
    } else if c == '9' {
        9
    } else {
        -1
    }
}

pub open spec fn spec_is_digits(t: Seq<char>) -> bool {
    t.len() > 0 && forall|i: int| 0 <= i < t.len() ==> spec_digit(#[trigger] t[i]) >= 0
}

/// Value of a digit run, most significant first.
pub open spec fn spec_digits_val(t: Seq<char>) -> int
    decreases t.len(),
{
    if t.len() == 0 {
        0
    } else {
        spec_digits_val(t.drop_last()) * 10 + spec_digit(t.last())
    }
}

proof fn lemma_digits_val_mono(t: Seq<char>, i: int, j: int)
    requires
        0 <= i <= j <= t.len(),
        forall|k: int| 0 <= k < t.len() ==> spec_digit(#[trigger] t[k]) >= 0,
    ensures
        0 <= spec_digits_val(t.take(i)) <= spec_digits_val(t.take(j)),
    decreases j - i,
{
    if i == j {
        lemma_digits_val_nonneg(t, i);
    } else {
        lemma_digits_val_mono(t, i, j - 1);
        assert(t.take(j).drop_last() =~= t.take(j - 1));
        assert(spec_digit(t.take(j).last()) >= 0);
        assert(spec_digits_val(t.take(j)) >= spec_digits_val(t.take(j - 1))) by (nonlinear_arith)
            requires
                spec_digits_val(t.take(j)) == spec_digits_val(t.take(j - 1)) * 10 + spec_digit(
                    t.take(j).last(),
                ),
                spec_digits_val(t.take(j - 1)) >= 0,
                spec_digit(t.take(j).last()) >= 0,
        ;
    }
}

proof fn lemma_digits_val_nonneg(t: Seq<char>, i: int)
    requires
        0 <= i <= t.len(),
        forall|k: int| 0 <= k < t.len() ==> spec_digit(#[trigger] t[k]) >= 0,
    ensures
        spec_digits_val(t.take(i)) >= 0,
    decreases i,
{
    if i > 0 {
        lemma_digits_val_nonneg(t, i - 1);
        assert(t.take(i).drop_last() =~= t.take(i - 1));
        assert(spec_digits_val(t.take(i)) >= 0) by (nonlinear_arith)
            requires
                spec_digits_val(t.take(i)) == spec_digits_val(t.take(i - 1)) * 10 + spec_digit(
                    t.take(i).last(),
                ),
                spec_digits_val(t.take(i - 1)) >= 0,
                spec_digit(t.take(i).last()) >= 0,
        ;
    }
}

fn digit_of(c: char) -> (r: Option<u64>)
    ensures
        spec_digit(c) >= 0 ==> r == Some(spec_digit(c) as u64),
        spec_digit(c) < 0 ==> r is None,
{
    match c {
        '0' => Some(0),
        '1' => Some(1),
        '2' => Some(2),
        '3' => Some(3),
        '4' => Some(4),
        '5' => Some(5),
        '6' => Some(6),
        '7' => Some(7),
        '8' => Some(8),
        '9' => Some(9),
        _ => None,
    }
}

/// Reads a token as an unsigned number, rejecting anything that is not all
/// digits or does not fit.
fn parse_u64(t: &Vec<char>) -> (r: Option<u64>)
    ensures
        r == (if spec_is_digits(t@) && spec_digits_val(t@) <= u64::MAX {
            Some(spec_digits_val(t@) as u64)
        } else {
            Option::<u64>::None
        }),
{
    if t.len() == 0 {
        return None;
    }
    let mut acc: u64 = 0;
    let mut i: usize = 0;
    while i < t.len()
        invariant
            i <= t@.len(),
            t@.len() > 0,
            forall|k: int| 0 <= k < i ==> spec_digit(#[trigger] t@[k]) >= 0,
            acc == spec_digits_val(t@.take(i as int)),
        decreases t@.len() - i,
    {
        let d = match digit_of(t[i]) {
            Some(d) => d,
            None => {
                return None;
            },
        };
        proof {
            assert(t@.take(i as int + 1).drop_last() =~= t@.take(i as int));
            assert(t@.take(i as int + 1).last() == t@[i as int]);
        }
        if acc > (u64::MAX - d) / 10 {
            proof {
                assert(spec_digits_val(t@.take(i as int + 1)) > u64::MAX) by (nonlinear_arith)
                    requires
                        spec_digits_val(t@.take(i as int + 1)) == (acc as int) * 10 + d,
                        acc > vstd::prelude::sub(u64::MAX as int, d as int) / 10,
                        0 <= d <= 9,
                ;
                if spec_is_digits(t@) {
                    lemma_digits_val_mono(t@, i as int + 1, t@.len() as int);
                    assert(t@.take(t@.len() as int) =~= t@);
                    assert(spec_digits_val(t@) > u64::MAX);
                }
            }
            return None;
        }
        proof {
            assert((acc as int) * 10 + d <= u64::MAX) by (nonlinear_arith)
                requires
                    acc <= vstd::prelude::sub(u64::MAX as int, d as int) / 10,
                    0 <= acc,
                    0 <= d <= 9,
            ;
        }
        acc = acc * 10 + d;
        i += 1;
    }
    proof {
        assert(t@.take(t@.len() as int) =~= t@);
    }
    Some(acc)
}

/// The card-or-hidden slot the input names: a single `?`, or a card token.
pub open spec fn spec_parse_opt_card_text(s: Seq<char>) -> Option<OptCard> {
    let toks = spec_tokens(s);
    if toks.len() != 1 {
        None
    } else if toks[0] == kw_hidden() {
        Some(OptCard::Hidden)
    } else {
        match spec_card_of_token(toks[0]) {
            Some(c) => Some(OptCard::Known(c)),
            None => None,
        }
    }
}

/// The concrete card the input names.
pub open spec fn spec_parse_card_text(s: Seq<char>) -> Option<Card> {
    let toks = spec_tokens(s);
    if toks.len() != 1 {
        None
    } else {
        spec_card_of_token(toks[0])
    }
}

/// The bidding move the input names: `pass`, `accept`/`yes`, or a number.
pub open spec fn spec_parse_bid_text(s: Seq<char>) -> Option<u64> {
    let toks = spec_tokens(s);
    if toks.len() != 1 {
        None
    } else if toks[0] == kw_pass() {
        Some(0)
    } else if toks[0] == kw_accept() || toks[0] == kw_yes() {
        Some(1)
    } else if spec_is_digits(toks[0]) && spec_digits_val(toks[0]) <= u64::MAX {
        Some(spec_digits_val(toks[0]) as u64)
    } else {
        None
    }
}

/// The widow decision the input names: `hand` is 0, `pick` is 1.
pub open spec fn spec_parse_skat_decision_text(s: Seq<char>) -> Option<u64> {
    let toks = spec_tokens(s);
    if toks.len() != 1 {
        None
    } else if toks[0] == kw_hand() {
        Some(0)
    } else if toks[0] == kw_pick() {
        Some(1)
    } else {
        None
    }
}

pub open spec fn spec_mode_of_token(t: Seq<char>) -> Option<NormalMode> {
    if t == kw_clubs() {
        Some(NormalMode::Color(Suit::Clubs))
    } else if t == kw_spades() {
        Some(NormalMode::Color(Suit::Spades))
    } else if t == kw_hearts() {
        Some(NormalMode::Color(Suit::Hearts))
    } else if t == kw_diamonds() {
        Some(NormalMode::Color(Suit::Diamonds))
    } else if t == kw_grand() {
        Some(NormalMode::Grand)
    } else {
        None
    }
}

pub open spec fn spec_level_of_token(t: Seq<char>) -> Option<GameLevel> {
    if t == kw_hand() {
        Some(GameLevel::Hand)
    } else if t == kw_schneider() {
        Some(GameLevel::Schneider)
    } else if t == kw_schwarz() {
        Some(GameLevel::Schwarz)
    } else if t == kw_ouvert() {
        Some(GameLevel::Ouvert)
    } else {
        None
    }
}

/// The declaration move the input names: `overbidden`, a Null form
/// (`null`, `null hand`, `null ouvert`, `null ouvert hand`), or a mode
/// optionally followed by a level.
pub open spec fn spec_parse_declaration_move_text(s: Seq<char>) -> Option<DeclarationMove> {
    let toks = spec_tokens(s);
    if toks.len() == 1 && toks[0] == kw_overbidden() {
        Some(DeclarationMove::Overbidden)
    } else if toks.len() == 1 && toks[0] == kw_null() {
        Some(DeclarationMove::Declare(Declaration::Null))
    } else if toks.len() == 2 && toks[0] == kw_null() && toks[1] == kw_hand() {
        Some(DeclarationMove::Declare(Declaration::NullHand))
    } else if toks.len() == 2 && toks[0] == kw_null() && toks[1] == kw_ouvert() {
        Some(DeclarationMove::Declare(Declaration::NullOuvert))
    } else if toks.len() == 3 && toks[0] == kw_null() && toks[1] == kw_ouvert() && toks[2]
        == kw_hand() {
        Some(DeclarationMove::Declare(Declaration::NullOuvertHand))
    } else if toks.len() == 1 {
        match spec_mode_of_token(toks[0]) {
            Some(mode) => Some(
                DeclarationMove::Declare(Declaration::Normal(mode, GameLevel::Normal)),
            ),
            None => None,
        }
    } else if toks.len() == 2 {
        match (spec_mode_of_token(toks[0]), spec_level_of_token(toks[1])) {
            (Some(mode), Some(level)) => Some(
                DeclarationMove::Declare(Declaration::Normal(mode, level)),
            ),
            _ => None,
        }
    } else {
        None
    }
}

/// Whether the token equals the keyword, character for character.
fn token_is_str(t: &Vec<char>, kw: &str) -> (r: bool)
    ensures
        r == (t@ == kw@),
{
    let n = kw.unicode_len();
    if t.len() != n {
        return false;
    }
    let mut i: usize = 0;
    while i < n
        invariant
            i <= n,
            n == kw@.len(),
            t@.len() == n,
            forall|j: int| 0 <= j < i ==> t@[j] == kw@[j],
        decreases n - i,
    {
        if t[i] != kw.get_char(i) {
            return false;
        }
        i += 1;
    }
    proof {
        assert(t@ =~= kw@);
    }
    true
}

/// The lower-cased tokens of the input.
fn input_tokens(s: &str) -> (r: Vec<Vec<char>>)
    ensures
        r@.map_values(|t: Vec<char>| t@) == spec_tokens(s@),
{
    let chars = str_chars_lower(s);
    tokenize(&chars)
}

/// Parse a card-or-hidden slot, `?` standing for a hidden one.
pub fn parse_opt_card_text(s: &str) -> (r: Option<OptCard>)
    ensures
        r == spec_parse_opt_card_text(s@),
{
    let toks = input_tokens(s);
    if toks.len() != 1 {
        return None;
    }
    proof {
        assert(toks@.map_values(|t: Vec<char>| t@)[0] == toks@[0]@);
    }
    let t = &toks[0];
    if token_is_str(t, "?") {
        Some(OptCard::Hidden)
    } else {
        match card_of_token(t) {
            Some(c) => Some(OptCard::Known(c)),
            None => None,
        }
    }
}

/// Parse a concrete card token such as `10S` or `aH`.
pub fn parse_card_text(s: &str) -> (r: Option<Card>)
    ensures
        r == spec_parse_card_text(s@),
{
    let toks = input_tokens(s);
    if toks.len() != 1 {
        return None;
    }
    proof {
        assert(toks@.map_values(|t: Vec<char>| t@)[0] == toks@[0]@);
    }
    card_of_token(&toks[0])
}

/// Parse a bidding statement: `pass`, `accept` or `yes`, or a number.
pub fn parse_bid_text(s: &str) -> (r: Option<u64>)
    ensures
        r == spec_parse_bid_text(s@),
{
    let toks = input_tokens(s);
    if toks.len() != 1 {
        return None;
    }
    proof {
        assert(toks@.map_values(|t: Vec<char>| t@)[0] == toks@[0]@);
    }
    let t = &toks[0];
    if token_is_str(t, "pass") {
        Some(0)
    } else if token_is_str(t, "accept") || token_is_str(t, "yes") {
        Some(1)
    } else {
        parse_u64(t)
    }
}

/// Parse the widow decision: `hand` or `pick`.
pub fn parse_skat_decision_text(s: &str) -> (r: Option<u64>)
    ensures
        r == spec_parse_skat_decision_text(s@),
{
    let toks = input_tokens(s);
    if toks.len() != 1 {
        return None;
    }
    proof {
        assert(toks@.map_values(|t: Vec<char>| t@)[0] == toks@[0]@);
    }
    let t = &toks[0];
    if token_is_str(t, "hand") {
        Some(0)
    } else if token_is_str(t, "pick") {
        Some(1)
    } else {
        None
    }
}

fn mode_of_token(t: &Vec<char>) -> (r: Option<NormalMode>)
    ensures
        r == spec_mode_of_token(t@),
{
    if token_is_str(t, "clubs") {
        Some(NormalMode::Color(Suit::Clubs))
    } else if token_is_str(t, "spades") {
        Some(NormalMode::Color(Suit::Spades))
    } else if token_is_str(t, "hearts") {
        Some(NormalMode::Color(Suit::Hearts))
    } else if token_is_str(t, "diamonds") {
        Some(NormalMode::Color(Suit::Diamonds))
    } else if token_is_str(t, "grand") {
        Some(NormalMode::Grand)
    } else {
        None
    }
}

fn level_of_token(t: &Vec<char>) -> (r: Option<GameLevel>)
    ensures
        r == spec_level_of_token(t@),
{
    if token_is_str(t, "hand") {
        Some(GameLevel::Hand)
    } else if token_is_str(t, "schneider") {
        Some(GameLevel::Schneider)
    } else if token_is_str(t, "schwarz") {
        Some(GameLevel::Schwarz)
    } else if token_is_str(t, "ouvert") {
        Some(GameLevel::Ouvert)
    } else {
        None
    }
}

/// Parse a declaration move: `overbidden`, a Null form, or a mode with an
/// optional level.
#[verifier::rlimit(100)]
#[verifier::spinoff_prover]
pub fn parse_declaration_move_text(s: &str) -> (r: Option<DeclarationMove>)
    ensures
        r == spec_parse_declaration_move_text(s@),
{
    let toks = input_tokens(s);
    proof {
        assert(forall|k: int| 0 <= k < toks@.len() ==> toks@.map_values(|t: Vec<char>| t@)[k]
            == (#[trigger] toks@[k])@);
        reveal_strlit("null");
        reveal_strlit("hand");
        reveal_strlit("ouvert");
        reveal_strlit("schneider");
        reveal_strlit("schwarz");
        reveal_strlit("overbidden");
        reveal_strlit("clubs");
        reveal_strlit("spades");
        reveal_strlit("hearts");
        reveal_strlit("diamonds");
        reveal_strlit("grand");
    }
    if toks.len() == 1 {
        let t = &toks[0];
        if token_is_str(t, "overbidden") {
            return Some(DeclarationMove::Overbidden);
        }
        if token_is_str(t, "null") {
            return Some(DeclarationMove::Declare(Declaration::Null));
        }
        return match mode_of_token(t) {
            Some(mode) => Some(
                DeclarationMove::Declare(Declaration::Normal(mode, GameLevel::Normal)),
            ),
            None => None,
        };
    }
    if toks.len() == 2 {
        let a = &toks[0];
        let b = &toks[1];
        if token_is_str(a, "null") {
            if token_is_str(b, "hand") {
                return Some(DeclarationMove::Declare(Declaration::NullHand));
            }
            if token_is_str(b, "ouvert") {
                return Some(DeclarationMove::Declare(Declaration::NullOuvert));
            }
            proof {
                // `null` names no mode, so nothing else reads these tokens
                assert(a@ == "null"@);
                assert("null"@.len() == 4);
                assert(kw_clubs().len() == 5);
                assert(spec_mode_of_token(a@) is None);
                assert(spec_parse_declaration_move_text(s@) is None);
            }
            return None;
        }
        return match (mode_of_token(a), level_of_token(b)) {
            (Some(mode), Some(level)) => Some(
                DeclarationMove::Declare(Declaration::Normal(mode, level)),
            ),
            _ => None,
        };
    }
    if toks.len() == 3 {
        let ok = token_is_str(&toks[0], "null") && token_is_str(&toks[1], "ouvert")
            && token_is_str(&toks[2], "hand");
        if ok {
            return Some(DeclarationMove::Declare(Declaration::NullOuvertHand));
        }
        return None;
    }
    None
}

/// Canonical text of a rank: `7` to `9`, `10`, or the letter.
pub open spec fn spec_rank_str(v: CardValue) -> Seq<char> {
    match v {
        CardValue::Num7 => "7"@,
        CardValue::Num8 => "8"@,
        CardValue::Num9 => "9"@,
        CardValue::Jack => "J"@,
        CardValue::Queen => "Q"@,
        CardValue::King => "K"@,
        CardValue::Num10 => "10"@,
        CardValue::Ace => "A"@,
    }
}

pub open spec fn spec_suit_str(s: Suit) -> Seq<char> {
    match s {
        Suit::Clubs => "C"@,
        Suit::Spades => "S"@,
        Suit::Hearts => "H"@,
        Suit::Diamonds => "D"@,
    }
}

/// Canonical text of a card: the rank followed by the suit letter.
pub open spec fn spec_card_str(c: Card) -> Seq<char> {
    spec_rank_str(c.value) + spec_suit_str(c.suit)
}

/// Canonical text of a card slot: `?` when hidden.
pub open spec fn spec_opt_card_str(oc: OptCard) -> Seq<char> {
    match oc {
        OptCard::Hidden => "?"@,
        OptCard::Known(c) => spec_card_str(c),
    }
}

/// Decimal text of a number, most significant digit first.
pub open spec fn spec_dec_str(n: int) -> Seq<char>
    decreases n,
{
    let digit = spec_digit_str(n % 10);
    if n < 10 {
        digit
    } else {
        spec_dec_str(n / 10) + digit
    }
}

pub open spec fn spec_digit_str(d: int) -> Seq<char> {
    if d == 0 {
        "0"@
    } else if d == 1 {
        "1"@
    } else if d == 2 {
        "2"@
    } else if d == 3 {
        "3"@
    } else if d == 4 {
        "4"@
    } else if d == 5 {
        "5"@
    } else if d == 6 {
        "6"@
    } else if d == 7 {
        "7"@
    } else if d == 8 {
        "8"@
    } else {
        "9"@
    }
}

/// Canonical text of a declaration, the mode in lower case and the level
/// capitalised.
pub open spec fn spec_declaration_str(d: Declaration) -> Seq<char> {
    match d {
        Declaration::Normal(mode, level) => (match mode {
            NormalMode::Color(Suit::Clubs) => "clubs"@,
            NormalMode::Color(Suit::Spades) => "spades"@,
            NormalMode::Color(Suit::Hearts) => "hearts"@,
            NormalMode::Color(Suit::Diamonds) => "diamonds"@,
            NormalMode::Grand => "grand"@,
        }) + (match level {
            GameLevel::Normal => ""@,
            GameLevel::Hand => " Hand"@,
            GameLevel::Schneider => " Schneider"@,
            GameLevel::Schwarz => " Schwarz"@,
            GameLevel::Ouvert => " Ouvert"@,
        }),
        Declaration::Null => "Null"@,
        Declaration::NullHand => "Null Hand"@,
        Declaration::NullOuvert => "Null Ouvert"@,
        Declaration::NullOuvertHand => "Null Ouvert Hand"@,
    }
}

pub open spec fn spec_declaration_move_str(dm: DeclarationMove) -> Seq<char> {
    match dm {
        DeclarationMove::Declare(d) => spec_declaration_str(d),
        DeclarationMove::Overbidden => "overbidden"@,
    }
}

/// Render a card into its canonical text.
pub fn render_card(c: Card) -> (r: String)
    ensures
        r@ == spec_card_str(c),
{
    let mut out = String::new();
    match c.value {
        CardValue::Num7 => out.append("7"),
        CardValue::Num8 => out.append("8"),
        CardValue::Num9 => out.append("9"),
        CardValue::Jack => out.append("J"),
        CardValue::Queen => out.append("Q"),
        CardValue::King => out.append("K"),
        CardValue::Num10 => out.append("10"),
        CardValue::Ace => out.append("A"),
    }
    match c.suit {
        Suit::Clubs => out.append("C"),
        Suit::Spades => out.append("S"),
        Suit::Hearts => out.append("H"),
        Suit::Diamonds => out.append("D"),
    }
    proof {
        assert(out@ =~= spec_card_str(c));
    }
    out
}

/// Render a card slot, `?` standing for a hidden one.
pub fn render_opt_card(oc: OptCard) -> (r: String)
    ensures
        r@ == spec_opt_card_str(oc),
{
    match oc {
        OptCard::Hidden => {
            let mut out = String::new();
            out.append("?");
            proof {
                assert(out@ =~= "?"@);
            }
            out
        },
        OptCard::Known(c) => render_card(c),
    }
}

fn digit_str(d: u64) -> (r: &'static str)
    requires
        d < 10,
    ensures
        r@ == spec_digit_str(d as int),
{
    match d {
        0 => "0",
        1 => "1",
        2 => "2",
        3 => "3",
        4 => "4",
        5 => "5",
        6 => "6",
        7 => "7",
        8 => "8",
        _ => "9",
    }
}

/// Render a number in decimal.
pub fn render_u64(n: u64) -> (r: String)
    ensures
        r@ == spec_dec_str(n as int),
    decreases n,
{
    if n < 10 {
        let mut out = String::new();
        out.append(digit_str(n));
        proof {
            assert(out@ =~= spec_digit_str(n as int));
        }
        out
    } else {
        let mut out = render_u64(n / 10);
        out.append(digit_str(n % 10));
        out
    }
}

/// Render a declaration into its canonical text.
pub fn render_declaration(d: Declaration) -> (r: String)
    ensures
        r@ == spec_declaration_str(d),
{
    let mut out = String::new();
    match d {
        Declaration::Normal(mode, level) => {
            match mode {
                NormalMode::Color(Suit::Clubs) => out.append("clubs"),
                NormalMode::Color(Suit::Spades) => out.append("spades"),
                NormalMode::Color(Suit::Hearts) => out.append("hearts"),
                NormalMode::Color(Suit::Diamonds) => out.append("diamonds"),
                NormalMode::Grand => out.append("grand"),
            }
            match level {
                GameLevel::Normal => (),
                GameLevel::Hand => out.append(" Hand"),
                GameLevel::Schneider => out.append(" Schneider"),
                GameLevel::Schwarz => out.append(" Schwarz"),
                GameLevel::Ouvert => out.append(" Ouvert"),
            }
            proof {
                reveal_strlit("");
                assert(out@ =~= spec_declaration_str(d));
            }
        },
        Declaration::Null => out.append("Null"),
        Declaration::NullHand => out.append("Null Hand"),
        Declaration::NullOuvert => out.append("Null Ouvert"),
        Declaration::NullOuvertHand => out.append("Null Ouvert Hand"),
    }
    proof {
        assert(out@ =~= spec_declaration_str(d));
    }
    out
}

/// Render a declaration move into its canonical text.
pub fn render_declaration_move(dm: DeclarationMove) -> (r: String)
    ensures
        r@ == spec_declaration_move_str(dm),
{
    match dm {
        DeclarationMove::Declare(d) => render_declaration(d),
        DeclarationMove::Overbidden => {
            let mut out = String::new();
            out.append("overbidden");
            proof {
                assert(out@ =~= "overbidden"@);
            }
            out
        },
    }
}

} // verus!
