use crate::token::{keyword, TokenType, TokenView};
use vstd::prelude::*;

verus! {

/// Letters are the ASCII letters and the underscore; digits are not.
pub open spec fn letter(ch: char) -> bool {
    'a' <= ch <= 'z' || 'A' <= ch <= 'Z' || ch == '_'
}

/// The decimal digits.
pub open spec fn digit(ch: char) -> bool {
    '0' <= ch <= '9'
}

/// Space, tab, newline and carriage return.
pub open spec fn blank(ch: char) -> bool {
    ch == ' ' || ch == '\t' || ch == '\n' || ch == '\r'
}

/// The category of an operator or punctuation mark that is one character
/// long, and `None` for every other character. `=` and `!` are listed here
/// with the category they have when no `=` follows them.
pub open spec fn punctuation(ch: char) -> Option<TokenType> {
    if ch == '=' {
        Some(TokenType::Assign)
    } else if ch == '+' {
        Some(TokenType::Plus)
    } else if ch == '-' {
        Some(TokenType::Minus)
    } else if ch == '!' {
        Some(TokenType::Bang)
    } else if ch == '/' {
        Some(TokenType::Slash)
    } else if ch == '*' {
        Some(TokenType::Asterisk)
    } else if ch == '<' {
        Some(TokenType::LT)
    } else if ch == '>' {
        Some(TokenType::GT)
    } else if ch == ';' {
        Some(TokenType::Semicolon)
    } else if ch == '(' {
        Some(TokenType::Lparen)
    } else if ch == ')' {
        Some(TokenType::Rparen)
    } else if ch == ',' {
        Some(TokenType::Comma)
    } else if ch == '{' {
        Some(TokenType::Lbrace)
    } else if ch == '}' {
        Some(TokenType::Rbrace)
    } else {
        None
    }
}

/// The first position at or after `i` that holds no whitespace, or the
/// length of `s` when only whitespace is left.
pub open spec fn skip_blanks(s: Seq<u8>, i: int) -> int
    decreases s.len() - i,
{
    if 0 <= i < s.len() && blank(s[i] as char) {
        skip_blanks(s, i + 1)
    } else {
        i
    }
}

/// The end of the longest run of letters that starts at `i`.
pub open spec fn letters_end(s: Seq<u8>, i: int) -> int
    decreases s.len() - i,
{
    if 0 <= i < s.len() && letter(s[i] as char) {
        letters_end(s, i + 1)
    } else {
        i
    }
}

/// The end of the longest run of digits that starts at `i`.
pub open spec fn digits_end(s: Seq<u8>, i: int) -> int
    decreases s.len() - i,
{
    if 0 <= i < s.len() && digit(s[i] as char) {
        digits_end(s, i + 1)
    } else {
        i
    }
}

/// The bytes of `s` from `i` up to `j`, each read as one character.
pub open spec fn text(s: Seq<u8>, i: int, j: int) -> Seq<char> {
    Seq::new((j - i) as nat, |k: int| s[i + k] as char)
}

/// The end-of-input token: it carries no text.
pub open spec fn end_token() -> TokenView {
    TokenView { typ: TokenType::EOF, literal: Seq::empty() }
}

/// The token that begins exactly at `i`, and the position just behind it.
/// At or behind the end of `s` this is the end-of-input token, and the
/// position is the length of `s`. Only the end of `s` ends the input: a
/// zero byte inside `s` is a character like any other that begins no token,
/// and gives an illegal token.
pub open spec fn token_at(s: Seq<u8>, i: int) -> (TokenView, int) {
    if !(0 <= i < s.len()) {
        (end_token(), s.len() as int)
    } else {
        let ch = s[i] as char;
        let followed_by_assign = i + 1 < s.len() && s[i + 1] as char == '=';
        if ch == '=' && followed_by_assign {
            (TokenView { typ: TokenType::Equal, literal: seq!['=', '='] }, i + 2)
        } else if ch == '!' && followed_by_assign {
            (TokenView { typ: TokenType::NotEqual, literal: seq!['!', '='] }, i + 2)
        } else if punctuation(ch) is Some {
            (TokenView { typ: punctuation(ch)->0, literal: seq![ch] }, i + 1)
        } else if letter(ch) {
            let j = letters_end(s, i);
            (TokenView { typ: keyword(text(s, i, j)), literal: text(s, i, j) }, j)
        } else if digit(ch) {
            let j = digits_end(s, i);
            (TokenView { typ: TokenType::Int, literal: text(s, i, j) }, j)
        } else {
            (TokenView { typ: TokenType::Illegal, literal: seq![ch] }, i + 1)
        }
    }
}

/// What one pull yields with the cursor at `i`: whitespace is passed over,
/// then one token is read.
pub open spec fn next_token_at(s: Seq<u8>, i: int) -> (TokenView, int) {
    token_at(s, skip_blanks(s, i))
}

/// The tokens that successive pulls yield from position `i` on, up to and
/// including the first end-of-input token.
pub open spec fn tokens_from(s: Seq<u8>, i: int) -> Seq<TokenView>
    decreases s.len() - i,
{
    let (t, j) = next_token_at(s, i);
    if t.typ == TokenType::EOF {
        seq![t]
    } else {
        proof {
            lemma_pull_moves_forward(s, i);
        }
        seq![t] + tokens_from(s, j)
    }
}

/// The whole token stream of an input text.
pub open spec fn tokens(s: Seq<u8>) -> Seq<TokenView> {
    tokens_from(s, 0)
}

/// A token stream holds at least one token, ends with the end-of-input
/// token, and holds no end-of-input token before that.
pub open spec fn is_stream(ts: Seq<TokenView>) -> bool {
    &&& ts.len() >= 1
    &&& ts.last() == end_token()
    &&& forall|k: int| 0 <= k < ts.len() - 1 ==> (#[trigger] ts[k]).typ != TokenType::EOF
}

/// What is left of a stream after one pull: the first token is gone, but
/// the end-of-input token stays for good.
pub open spec fn advance(ts: Seq<TokenView>) -> Seq<TokenView> {
    if ts.len() > 1 {
        ts.drop_first()
    } else {
        ts
    }
}

/// An input made of one-character operators and punctuation only, in which
/// no `=` stands directly behind a `=` or a `!`.
pub open spec fn plain_punctuation(s: Seq<u8>) -> bool {
    forall|k: int|
        0 <= k < s.len() ==> {
            &&& punctuation(#[trigger] s[k] as char) is Some
            &&& (s[k] as char == '=' || s[k] as char == '!') ==> !(k + 1 < s.len() && s[k + 1] as char
                == '=')
        }
}

/// The token that a one-character operator or punctuation mark gives.
pub open spec fn punctuation_token(ch: char) -> TokenView {
    TokenView { typ: punctuation(ch)->0, literal: seq![ch] }
}

pub proof fn lemma_skip_blanks_bounds(s: Seq<u8>, i: int)
    requires
        0 <= i <= s.len(),
    ensures
        i <= skip_blanks(s, i) <= s.len(),
        skip_blanks(s, i) < s.len() ==> !blank(s[skip_blanks(s, i)] as char),
    decreases s.len() - i,
{
    if i < s.len() && blank(s[i] as char) {
        lemma_skip_blanks_bounds(s, i + 1);
    }
}

pub proof fn lemma_letters_end_bounds(s: Seq<u8>, i: int)
    requires
        0 <= i <= s.len(),
    ensures
        i <= letters_end(s, i) <= s.len(),
        letters_end(s, i) < s.len() ==> !letter(s[letters_end(s, i)] as char),
        forall|k: int| i <= k < letters_end(s, i) ==> letter(#[trigger] s[k] as char),
    decreases s.len() - i,
{
    if i < s.len() && letter(s[i] as char) {
        lemma_letters_end_bounds(s, i + 1);
    }
}

pub proof fn lemma_digits_end_bounds(s: Seq<u8>, i: int)
    requires
        0 <= i <= s.len(),
    ensures
        i <= digits_end(s, i) <= s.len(),
        digits_end(s, i) < s.len() ==> !digit(s[digits_end(s, i)] as char),
        forall|k: int| i <= k < digits_end(s, i) ==> digit(#[trigger] s[k] as char),
    decreases s.len() - i,
{
    if i < s.len() && digit(s[i] as char) {
        lemma_digits_end_bounds(s, i + 1);
    }
}

/// A pull never moves the cursor back. A pull that yields anything but the
/// end-of-input token moves it forward; one that yields the end-of-input
/// token leaves it at the end of the input.
pub proof fn lemma_pull_moves_forward(s: Seq<u8>, i: int)
    ensures
        next_token_at(s, i).0.typ == TokenType::EOF ==> next_token_at(s, i) == (
            end_token(),
            s.len() as int,
        ),
        next_token_at(s, i).0.typ != TokenType::EOF ==> 0 <= i < next_token_at(s, i).1 <= s.len(),
        0 <= i <= s.len() ==> i <= next_token_at(s, i).1,
{
    if 0 <= i <= s.len() {
        lemma_skip_blanks_bounds(s, i);
        let k = skip_blanks(s, i);
        lemma_letters_end_bounds(s, k);
        lemma_digits_end_bounds(s, k);
    }
}

/// A letter begins a token that carries the longest run of letters from
/// there on, digits not among them. Its category is that of the keyword
/// which the run spells, and `Ident` where it spells none.
pub proof fn lemma_word_token(s: Seq<u8>, i: int)
    requires
        0 <= i < s.len(),
        letter(s[i] as char),
    ensures
        i < token_at(s, i).1 <= s.len(),
        forall|k: int| i <= k < token_at(s, i).1 ==> letter(#[trigger] s[k] as char),
        token_at(s, i).1 < s.len() ==> !letter(s[token_at(s, i).1] as char),
        token_at(s, i).0.literal == text(s, i, token_at(s, i).1),
        token_at(s, i).0.typ == keyword(token_at(s, i).0.literal),
{
    lemma_letters_end_bounds(s, i);
}

/// Once a pull has yielded the end-of-input token, every later pull yields
/// it again.
pub proof fn lemma_end_of_input_repeats(s: Seq<u8>, i: int)
    requires
        next_token_at(s, i).0.typ == TokenType::EOF,
    ensures
        next_token_at(s, next_token_at(s, i).1) == next_token_at(s, i),
{
}

/// The tokens from any position on form a token stream.
pub proof fn lemma_tokens_from_is_stream(s: Seq<u8>, i: int)
    ensures
        is_stream(tokens_from(s, i)),
    decreases s.len() - i,
{
    lemma_pull_moves_forward(s, i);
    let (t, j) = next_token_at(s, i);
    if t.typ != TokenType::EOF {
        lemma_tokens_from_is_stream(s, j);
        let all = seq![t] + tokens_from(s, j);
        assert forall|k: int| 0 <= k < all.len() - 1 implies (#[trigger] all[k]).typ
            != TokenType::EOF by {}
    }
}

/// A pull yields the first token of the stream that lies ahead, and leaves
/// the rest of that stream ahead.
pub proof fn lemma_pull_takes_first(s: Seq<u8>, i: int)
    ensures
        tokens_from(s, i).len() >= 1,
        tokens_from(s, i)[0] == next_token_at(s, i).0,
        tokens_from(s, next_token_at(s, i).1) == advance(tokens_from(s, i)),
{
}

proof fn lemma_punctuation_tokens_from(s: Seq<u8>, i: int)
    requires
        plain_punctuation(s),
        0 <= i <= s.len(),
    ensures
        tokens_from(s, i) == Seq::new(
            (s.len() - i + 1) as nat,
            |k: int|
                if i + k < s.len() {
                    punctuation_token(s[i + k] as char)
                } else {
                    end_token()
                },
        ),
    decreases s.len() - i,
{
    if i < s.len() {
        lemma_punctuation_tokens_from(s, i + 1);
    }
}

/// An input of one-character operators and punctuation gives one token for
/// each of its characters, in order, each with the character as its text
/// and with the character's category, and then one end-of-input token.
pub proof fn lemma_punctuation_tokens(s: Seq<u8>)
    requires
        plain_punctuation(s),
    ensures
        tokens(s) == Seq::new(
            s.len() + 1,
            |k: int|
                if k < s.len() {
                    punctuation_token(s[k] as char)
                } else {
                    end_token()
                },
        ),
{
    lemma_punctuation_tokens_from(s, 0);
}

} // verus!
