//! The tokenizer: turns a raw input line into a flat sequence of lexical
//! tokens. It is total: unrecognized characters become
//! [`Token::UnexpectedToken`], and an unterminated quote still yields a word.

use vstd::prelude::*;

use crate::commands::CommandType;

verus! {

/// A lexical token of the command language.
#[derive(Debug, PartialEq, Eq)]
pub enum Token {
    /// A recognized command keyword.
    Command(CommandType),
    /// A bare or quoted word.
    Word(String),
    /// The parent-directory marker `..`.
    PreviousDir,
    /// A single space.
    Space,
    /// A single `.`.
    Dot,
    /// A single `/`.
    Slash,
    /// The chaining operator `&&`.
    And,
    /// A maximal run of ASCII digits.
    Number(usize),
    /// Any character no other rule recognizes.
    UnexpectedToken(char),
}

/// The mathematical shape of a [`Token`]: words are character sequences.
pub enum TokenV {
    Command(CommandType),
    Word(Seq<char>),
    PreviousDir,
    Space,
    Dot,
    Slash,
    And,
    Number(usize),
    UnexpectedToken(char),
}

impl View for Token {
    type V = TokenV;

    open spec fn view(&self) -> TokenV {
        match self {
            Token::Command(c) => TokenV::Command(*c),
            Token::Word(w) => TokenV::Word(w@),
            Token::PreviousDir => TokenV::PreviousDir,
            Token::Space => TokenV::Space,
            Token::Dot => TokenV::Dot,
            Token::Slash => TokenV::Slash,
            Token::And => TokenV::And,
            Token::Number(n) => TokenV::Number(*n),
            Token::UnexpectedToken(c) => TokenV::UnexpectedToken(*c),
        }
    }
}

impl Clone for Token {
    fn clone(&self) -> (res: Self)
        ensures
            res@ == self@,
    {
        match self {
            Token::Command(c) => Token::Command(*c),
            Token::Word(w) => Token::Word(w.clone()),
            Token::PreviousDir => Token::PreviousDir,
            Token::Space => Token::Space,
            Token::Dot => Token::Dot,
            Token::Slash => Token::Slash,
            Token::And => Token::And,
            Token::Number(n) => Token::Number(*n),
            Token::UnexpectedToken(c) => Token::UnexpectedToken(*c),
        }
    }
}

/// The view of a whole token sequence.
pub open spec fn tokens_view(ts: Seq<Token>) -> Seq<TokenV> {
    ts.map_values(|t: Token| t@)
}

/// The characters at which a bare word ends: `.`, `/`, `&` and space.
pub open spec fn is_structural_char(c: char) -> bool {
    c == '.' || c == '/' || c == '&' || c == ' '
}

/// An ASCII decimal digit.
pub open spec fn is_digit_char(c: char) -> bool {
    '0' <= c && c <= '9'
}

/// Whether `char::is_alphabetic` holds of `c`; left unspecified beyond the
/// ASCII range (see [`char_is_alphabetic`]).
pub uninterp spec fn is_alpha(c: char) -> bool;

/// Relies on `char::is_alphabetic`: the result depends on the character
/// alone, and on ASCII characters it holds exactly of the letters.
#[verifier::external_body]
fn char_is_alphabetic(c: char) -> (r: bool)
    ensures
        r == is_alpha(c),
        (c as u32) < 128 ==> (r <==> ('a' <= c && c <= 'z') || ('A' <= c && c <= 'Z')),
{
    c.is_alphabetic()
}

/// Number of characters of the bare word starting at `i`: the run up to the
/// next structural character or the end of input.
pub open spec fn word_run_len(s: Seq<char>, i: int) -> nat
    decreases s.len() - i,
{
    if i < 0 || i >= s.len() || is_structural_char(s[i]) {
        0
    } else {
        (1 + word_run_len(s, i + 1)) as nat
    }
}

/// Number of ASCII digits in the maximal digit run starting at `i`.
pub open spec fn digit_run_len(s: Seq<char>, i: int) -> nat
    decreases s.len() - i,
{
    if i < 0 || i >= s.len() || !is_digit_char(s[i]) {
        0
    } else {
        (1 + digit_run_len(s, i + 1)) as nat
    }
}

/// Number of characters of a quoted word starting at `i` (one past the
/// opening quote): the run up to the closing quote or the end of input.
pub open spec fn quote_run_len(s: Seq<char>, i: int) -> nat
    decreases s.len() - i,
{
    if i < 0 || i >= s.len() || s[i] == '"' {
        0
    } else {
        (1 + quote_run_len(s, i + 1)) as nat
    }
}

/// The numeric value of the digits `s[i..j)`, read in base ten.
pub open spec fn digits_value(s: Seq<char>, i: int, j: int) -> nat
    decreases j - i,
{
    if i >= j {
        0
    } else {
        (digits_value(s, i, j - 1) * 10 + (s[j - 1] as u32 - 48)) as nat
    }
}

/// A numeric value clipped to what a `usize` can hold.
pub open spec fn saturate_usize(n: nat) -> usize {
    if n > usize::MAX {
        usize::MAX
    } else {
        n as usize
    }
}

/// Whether the fixed text `kw` occurs in `s` starting at position `i`.
pub open spec fn matches_at(s: Seq<char>, i: int, kw: Seq<char>) -> bool {
    0 <= i && i + kw.len() <= s.len() && s.subrange(i, i + kw.len()) == kw
}

/// The token beginning at position `i` of `s`, together with the position
/// one past its end. Fixed multi-character literals are tried first, in a
/// fixed priority order; then the single-character structural tokens, the
/// quoted-word rule and the digit rule; a remaining alphabetic character
/// opens a bare word, and anything else is a single unexpected character.
pub open spec fn spec_next_token(s: Seq<char>, i: int) -> (TokenV, int) {
    if matches_at(s, i, "&&"@) {
        (TokenV::And, i + 2)
    } else if matches_at(s, i, ".."@) {
        (TokenV::PreviousDir, i + 2)
    } else if matches_at(s, i, "touch"@) {
        (TokenV::Command(CommandType::Touch), i + 5)
    } else if matches_at(s, i, "cd"@) {
        (TokenV::Command(CommandType::Cd), i + 2)
    } else if matches_at(s, i, "ls"@) {
        (TokenV::Command(CommandType::Ls), i + 2)
    } else if matches_at(s, i, "mkdir"@) {
        (TokenV::Command(CommandType::Mkdir), i + 5)
    } else if matches_at(s, i, "rmdir"@) {
        (TokenV::Command(CommandType::Rmdir), i + 5)
    } else if matches_at(s, i, "rm"@) {
        (TokenV::Command(CommandType::Rm), i + 2)
    } else if s[i] == '.' {
        (TokenV::Dot, i + 1)
    } else if s[i] == '/' {
        (TokenV::Slash, i + 1)
    } else if s[i] == ' ' {
        (TokenV::Space, i + 1)
    } else if s[i] == '"' {
        let n = quote_run_len(s, i + 1);
        let close = if i + 1 + n < s.len() {
            1int
        } else {
            0int
        };
        (TokenV::Word(s.subrange(i + 1, i + 1 + n)), i + 1 + n + close)
    } else if is_digit_char(s[i]) {
        let n = digit_run_len(s, i);
        (TokenV::Number(saturate_usize(digits_value(s, i, i + n))), i + n)
    } else if !is_structural_char(s[i]) && is_alpha(s[i]) {
        let n = word_run_len(s, i);
        (TokenV::Word(s.subrange(i, i + n)), i + n)
    } else {
        (TokenV::UnexpectedToken(s[i]), i + 1)
    }
}

/// The token sequence of `s` from position `i` on: repeated greedy scans of
/// [`spec_next_token`] until the end of the input.
pub open spec fn spec_tokenize_from(s: Seq<char>, i: int) -> Seq<TokenV>
    decreases s.len() - i,
    via spec_tokenize_from_decreases
{
    if i < 0 || i >= s.len() {
        Seq::empty()
    } else {
        let (t, j) = spec_next_token(s, i);
        seq![t] + spec_tokenize_from(s, j)
    }
}

/// A bare-word run never runs past the end of the input.
pub proof fn lemma_word_run_len_bound(s: Seq<char>, i: int)
    requires
        0 <= i <= s.len(),
    ensures
        i + word_run_len(s, i) <= s.len(),
    decreases s.len() - i,
{
    if i < s.len() && !is_structural_char(s[i]) {
        lemma_word_run_len_bound(s, i + 1);
    }
}

/// A digit run never runs past the end of the input.
pub proof fn lemma_digit_run_len_bound(s: Seq<char>, i: int)
    requires
        0 <= i <= s.len(),
    ensures
        i + digit_run_len(s, i) <= s.len(),
    decreases s.len() - i,
{
    if i < s.len() && is_digit_char(s[i]) {
        lemma_digit_run_len_bound(s, i + 1);
    }
}

/// A quoted run never runs past the end of the input, and when it stops
/// short of the end, the stopping character is the closing quote.
pub proof fn lemma_quote_run_len_bound(s: Seq<char>, i: int)
    requires
        0 <= i <= s.len(),
    ensures
        i + quote_run_len(s, i) <= s.len(),
        i + quote_run_len(s, i) < s.len() ==> s[i + quote_run_len(s, i)] == '"',
    decreases s.len() - i,
{
    if i < s.len() && s[i] != '"' {
        lemma_quote_run_len_bound(s, i + 1);
    }
}

#[via_fn]
proof fn spec_tokenize_from_decreases(s: Seq<char>, i: int) {
    reveal_strlit("&&");
    reveal_strlit("..");
    reveal_strlit("touch");
    reveal_strlit("cd");
    reveal_strlit("ls");
    reveal_strlit("mkdir");
    reveal_strlit("rmdir");
    reveal_strlit("rm");
    if 0 <= i && i < s.len() {
        if is_digit_char(s[i]) {
            assert(digit_run_len(s, i) == 1 + digit_run_len(s, i + 1));
        }
        if !is_structural_char(s[i]) {
            assert(word_run_len(s, i) == 1 + word_run_len(s, i + 1));
        }
        lemma_word_run_len_bound(s, i);
        lemma_digit_run_len_bound(s, i);
        lemma_quote_run_len_bound(s, i + 1);
    }
}

/// The token sequence of a whole input line.
pub open spec fn spec_tokenize(s: Seq<char>) -> Seq<TokenV> {
    spec_tokenize_from(s, 0)
}

/// Turns the raw input line into the sequence of tokens that
/// [`spec_tokenize`] describes, by a single greedy left-to-right scan.
pub struct Lexer<'s> {
    /// The input line.
    pub input: &'s str,
    /// Current character position in the input line.
    pub cursor: usize,
}

impl<'s> Lexer<'s> {
    /// The cursor never points past the end of the input.
    pub open spec fn wf(&self) -> bool {
        self.cursor <= self.input@.len()
    }

    /// Create a new `Lexer` over the given input line.
    pub fn new(input: &'s str) -> (r: Self)
        ensures
            r.input@ == input@,
            r.cursor == 0,
            r.wf(),
    {
        Self { input, cursor: 0 }
    }

    /// Check whether the fixed text `token` starts at the cursor; if so,
    /// consume it.
    fn check_multi_token(&mut self, token: &str) -> (b: bool)
        requires
            old(self).wf(),
        ensures
            final(self).input == old(self).input,
            final(self).wf(),
            b == matches_at(old(self).input@, old(self).cursor as int, token@),
            b ==> final(self).cursor == old(self).cursor + token@.len(),
            !b ==> *final(self) == *old(self),
    {
        let ghost s = self.input@;
        let ghost start = self.cursor as int;
        let n = token.unicode_len();
        let len = self.input.unicode_len();
        if n > len - self.cursor {
            return false;
        }
        let mut j: usize = 0;
        while j < n
            invariant
                self == old(self),
                start == self.cursor as int,
                self.cursor + n <= len,
                len == s.len(),
                s == self.input@,
                n == token@.len(),
                j <= n,
                forall|k: int| 0 <= k < j ==> s[start + k] == token@[k],
            decreases n - j,
        {
            if self.input.get_char(self.cursor + j) != token.get_char(j) {
                proof {
                    assert(!matches_at(s, start, token@)) by {
                        if matches_at(s, start, token@) {
                            let k = j as int;
                            assert(s.subrange(start, start + token@.len())[k] == token@[k]);
                        }
                    }
                }
                return false;
            }
            proof {
                let k = j as int;
                assert(s[start + k] == token@[k]);
            }
            j += 1;
        }
        proof {
            assert(s.subrange(start, start + token@.len()) =~= token@);
        }
        self.cursor = self.cursor + n;
        true
    }

    /// Read the quoted word whose opening quote the cursor has just passed,
    /// consuming the closing quote when there is one.
    fn get_in_quotes(&mut self) -> (w: String)
        requires
            old(self).wf(),
        ensures
            final(self).input == old(self).input,
            final(self).wf(),
            ({
                let s = old(self).input@;
                let start = old(self).cursor as int;
                let q = quote_run_len(s, start) as int;
                &&& w@ == s.subrange(start, start + q)
                &&& final(self).cursor == start + q + (if start + q < s.len() {
                    1int
                } else {
                    0int
                })
            }),
    {
        let ghost s = self.input@;
        let start = self.cursor;
        let len = self.input.unicode_len();
        while self.cursor < len && self.input.get_char(self.cursor) != '"'
            invariant
                self.input == old(self).input,
                s == self.input@,
                len == s.len(),
                start <= self.cursor <= len,
                quote_run_len(s, start as int) == self.cursor - start + quote_run_len(
                    s,
                    self.cursor as int,
                ),
            decreases len - self.cursor,
        {
            self.cursor += 1;
        }
        let w = self.input.substring_char(start, self.cursor).to_owned();
        if self.cursor < len {
            self.cursor += 1;
        }
        w
    }

    /// Read the maximal run of ASCII digits at the cursor as a number,
    /// clipped to what a `usize` can hold.
    fn get_number_token(&mut self) -> (n: usize)
        requires
            old(self).wf(),
            old(self).cursor < old(self).input@.len(),
            is_digit_char(old(self).input@[old(self).cursor as int]),
        ensures
            final(self).input == old(self).input,
            final(self).wf(),
            ({
                let s = old(self).input@;
                let start = old(self).cursor as int;
                let r = digit_run_len(s, start) as int;
                &&& final(self).cursor == start + r
                &&& n == saturate_usize(digits_value(s, start, start + r))
            }),
    {
        let ghost s = self.input@;
        let ghost start = self.cursor as int;
        let len = self.input.unicode_len();
        let mut acc: usize = 0;
        let mut sat = false;
        loop
            invariant
                self.input == old(self).input,
                s == self.input@,
                len == s.len(),
                start <= self.cursor <= len,
                digit_run_len(s, start) == self.cursor - start + digit_run_len(
                    s,
                    self.cursor as int,
                ),
                !sat ==> acc == digits_value(s, start, self.cursor as int),
                sat ==> digits_value(s, start, self.cursor as int) > usize::MAX && acc
                    == usize::MAX,
            ensures
                self.input == old(self).input,
                start <= self.cursor <= len,
                self.cursor == start + digit_run_len(s, start),
                acc == saturate_usize(digits_value(s, start, self.cursor as int)),
            decreases len - self.cursor,
        {
            if self.cursor >= len {
                break ;
            }
            let c = self.input.get_char(self.cursor);
            if !('0' <= c && c <= '9') {
                break ;
            }
            let d = (c as u32 - 48) as usize;
            proof {
                assert(digits_value(s, start, self.cursor + 1) == digits_value(
                    s,
                    start,
                    self.cursor as int,
                ) * 10 + d);
            }
            if !sat && acc <= (usize::MAX - d) / 10 {
                proof {
                    assert(acc * 10 + d <= usize::MAX) by (nonlinear_arith)
                        requires
                            acc <= (usize::MAX - d) / 10,
                            d <= 9,
                    ;
                }
                acc = acc * 10 + d;
            } else {
                proof {
                    if !sat {
                        assert(acc * 10 + d > usize::MAX) by (nonlinear_arith)
                            requires
                                acc > (usize::MAX - d) / 10,
                                d <= 9,
                        ;
                    } else {
                        assert(digits_value(s, start, self.cursor as int) * 10 + d > usize::MAX)
                            by (nonlinear_arith)
                            requires
                                digits_value(s, start, self.cursor as int) > usize::MAX,
                                d >= 0,
                        ;
                    }
                }
                sat = true;
                acc = usize::MAX;
            }
            self.cursor += 1;
        }
        acc
    }

    /// The position where the bare word at the cursor ends: the next
    /// structural character, or the end of the input.
    fn next_token_index(&self) -> (r: usize)
        requires
            self.wf(),
        ensures
            r == self.cursor + word_run_len(self.input@, self.cursor as int),
    {
        let ghost s = self.input@;
        let len = self.input.unicode_len();
        let mut i = self.cursor;
        loop
            invariant
                s == self.input@,
                len == s.len(),
                self.cursor <= i <= len,
                word_run_len(s, self.cursor as int) == i - self.cursor + word_run_len(s, i as int),
            ensures
                i == self.cursor + word_run_len(s, self.cursor as int),
            decreases len - i,
        {
            if i >= len {
                break ;
            }
            let c = self.input.get_char(i);
            if c == '.' || c == '/' || c == '&' || c == ' ' {
                break ;
            }
            i += 1;
        }
        i
    }

    /// Identify the token at the cursor, per [`spec_next_token`], and
    /// consume it; `None` once the whole input has been read.
    fn read_next_token(&mut self) -> (r: Option<Token>)
        requires
            old(self).wf(),
        ensures
            final(self).input == old(self).input,
            final(self).wf(),
            (r is None) == (old(self).cursor == old(self).input@.len()),
            r is None ==> *final(self) == *old(self),
            r matches Some(t) ==> ({
                let (tv, j) = spec_next_token(old(self).input@, old(self).cursor as int);
                &&& t@ == tv
                &&& final(self).cursor == j
                &&& old(self).cursor < j
            }),
    {
        let ghost s = self.input@;
        let ghost start = self.cursor as int;
        let len = self.input.unicode_len();
        if self.cursor == len {
            return None;
        }
        proof {
            reveal_strlit("&&");
            reveal_strlit("..");
            reveal_strlit("touch");
            reveal_strlit("cd");
            reveal_strlit("ls");
            reveal_strlit("mkdir");
            reveal_strlit("rmdir");
            reveal_strlit("rm");
        }
        // fixed multi-character literals, in priority order
        if self.check_multi_token("&&") {
            return Some(Token::And);
        } else if self.check_multi_token("..") {
            return Some(Token::PreviousDir);
        } else if self.check_multi_token("touch") {
            return Some(Token::Command(CommandType::Touch));
        } else if self.check_multi_token("cd") {
            return Some(Token::Command(CommandType::Cd));
        } else if self.check_multi_token("ls") {
            return Some(Token::Command(CommandType::Ls));
        } else if self.check_multi_token("mkdir") {
            return Some(Token::Command(CommandType::Mkdir));
        } else if self.check_multi_token("rmdir") {
            return Some(Token::Command(CommandType::Rmdir));
        } else if self.check_multi_token("rm") {
            return Some(Token::Command(CommandType::Rm));
        }
        // single-character tokens, then quotes, digits and words
        let c = self.input.get_char(self.cursor);
        if c == '.' {
            self.cursor += 1;
            Some(Token::Dot)
        } else if c == '/' {
            self.cursor += 1;
            Some(Token::Slash)
        } else if c == ' ' {
            self.cursor += 1;
            Some(Token::Space)
        } else if c == '"' {
            self.cursor += 1;
            let word = self.get_in_quotes();
            Some(Token::Word(word))
        } else if '0' <= c && c <= '9' {
            let n = self.get_number_token();
            Some(Token::Number(n))
        } else if !(c == '&') && char_is_alphabetic(c) {
            let next = self.next_token_index();
            proof {
                lemma_word_run_len_bound(s, start);
            }
            let word_contents = self.input.substring_char(self.cursor, next);
            self.cursor = next;
            Some(Token::Word(word_contents.to_owned()))
        } else {
            self.cursor += 1;
            Some(Token::UnexpectedToken(c))
        }
    }

    /// Converts the input line into the vector of its tokens.
    pub fn tokenize(&mut self) -> (r: Vec<Token>)
        requires
            old(self).wf(),
        ensures
            tokens_view(r@) == spec_tokenize_from(old(self).input@, old(self).cursor as int),
    {
        let ghost s = self.input@;
        let mut accumulator: Vec<Token> = Vec::new();
        loop
            invariant
                self.wf(),
                self.input == old(self).input,
                s == self.input@,
                spec_tokenize_from(s, old(self).cursor as int) == tokens_view(accumulator@)
                    + spec_tokenize_from(s, self.cursor as int),
            ensures
                tokens_view(accumulator@) == spec_tokenize_from(s, old(self).cursor as int),
            decreases s.len() - self.cursor,
        {
            let ghost pre = self.cursor as int;
            match self.read_next_token() {
                None => {
                    proof {
                        assert(tokens_view(accumulator@) + spec_tokenize_from(s, self.cursor as int)
                            =~= tokens_view(accumulator@));
                    }
                    break ;
                },
                Some(token) => {
                    proof {
                        let (tv, j) = spec_next_token(s, pre);
                        assert(tokens_view(accumulator@.push(token)) =~= tokens_view(accumulator@)
                            + seq![token@]);
                        assert(tokens_view(accumulator@) + (seq![tv] + spec_tokenize_from(s, j))
                            =~= (tokens_view(accumulator@) + seq![tv]) + spec_tokenize_from(s, j));
                    }
                    accumulator.push(token);
                },
            }
        }
        accumulator
    }
}

} // verus!
