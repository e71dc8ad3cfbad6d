//! The lexer: from source text to tokens.
//!
//! A numeral is read by the host: the lexer hands its text out, takes the
//! number back, and goes on where it stopped.
use vstd::prelude::*;
use crate::frontend::chars::alphabetic;
use crate::frontend::chars::alphanumeric;
use crate::frontend::chars::ascii_digit;
use crate::frontend::chars::chars_of;
use crate::frontend::chars::whitespace;
use crate::frontend::token::Token;
use crate::frontend::token::TokenView;
use crate::frontend::token::token_views;
use crate::shared::error::LumaError;
use crate::shared::error::LumaErrorView;
use crate::shared::host::HostReply;
use crate::shared::host::HostReplyView;
use crate::shared::host::HostRequest;
use crate::shared::host::HostRequestView;
use crate::shared::host::reply_view;
use crate::shared::number;
use crate::shared::text;

verus! {

/// A place in the source: an offset in characters and the line it is on.
pub struct Cursor {
    pub position: int,
    pub line: usize,
}

/// What the lexer finds next.
pub enum Lexeme {
    Token(TokenView),
    /// The text of a numeral, which the host is to read.
    Numeral(Seq<char>),
    /// Nothing but blanks and comments is left.
    End,
    Fail(LumaErrorView),
}

/// What the lexer waits for.
pub enum Pending {
    Nothing,
    /// The number of the numeral with this text.
    Numeral(String),
    /// The text of this number.
    Rendering(u64),
}

pub enum PendingView {
    Nothing,
    Numeral(Seq<char>),
    Rendering(u64),
}

impl View for Pending {
    type V = PendingView;

    open spec fn view(&self) -> PendingView {
        match self {
            Pending::Nothing => PendingView::Nothing,
            Pending::Numeral(text) => PendingView::Numeral(text@),
            Pending::Rendering(bits) => PendingView::Rendering(*bits),
        }
    }
}

/// How a call of `tokenize` ended, short of an error.
#[derive(Debug)]
pub enum Scanned {
    /// The whole text was read: its tokens, with `Eof` last.
    Done(Vec<Token>),
    /// The host is asked for something; the next call takes its reply.
    Ask(HostRequest),
}

pub enum ScannedView {
    Done(Seq<TokenView>),
    Ask(HostRequestView),
}

impl View for Scanned {
    type V = ScannedView;

    open spec fn view(&self) -> ScannedView {
        match self {
            Scanned::Done(tokens) => ScannedView::Done(token_views(tokens@)),
            Scanned::Ask(request) => ScannedView::Ask(request@),
        }
    }
}

pub struct Lexer {
    input: Vec<char>,
    position: usize,
    line: usize,
    tokens: Vec<Token>,
    pending: Pending,
}

/// The state of a lexer: the text, the offset of the next character, the
/// line that character is on, the tokens read since the last `Done`, and
/// what the host is asked for.
pub struct LexerView {
    pub input: Seq<char>,
    pub position: int,
    pub line: usize,
    pub tokens: Seq<TokenView>,
    pub pending: PendingView,
}

impl View for Lexer {
    type V = LexerView;

    closed spec fn view(&self) -> LexerView {
        LexerView {
            input: self.input@,
            position: self.position as int,
            line: self.line,
            tokens: token_views(self.tokens@),
            pending: self.pending@,
        }
    }
}

pub open spec fn lex_failure(message: Seq<char>, line: usize) -> LumaErrorView {
    LumaErrorView::LexError { message, line }
}

/// The line after `line`.
pub open spec fn next_line(line: usize) -> usize {
    if line < usize::MAX {
        (line + 1) as usize
    } else {
        line
    }
}

/// The end of the blanks from `from` on; a line end is no blank.
pub open spec fn blanks_end(input: Seq<char>, from: int) -> int
    decreases input.len() - from,
{
    if 0 <= from < input.len() && whitespace(input[from]) && input[from] != '\n' {
        blanks_end(input, from + 1)
    } else {
        from
    }
}

/// The end of the line that `from` is on.
pub open spec fn line_end(input: Seq<char>, from: int) -> int
    decreases input.len() - from,
{
    if 0 <= from < input.len() && input[from] != '\n' {
        line_end(input, from + 1)
    } else {
        from
    }
}

/// The place after the `##` that closes a comment which is open at
/// `from`, or `None` if nothing closes it.
pub open spec fn comment_end(input: Seq<char>, from: Cursor) -> Option<Cursor>
    decreases input.len() - from.position,
{
    if from.position < 0 || from.position >= input.len() {
        None
    } else if input[from.position] == '#' {
        if from.position + 1 < input.len() && input[from.position + 1] == '#' {
            Some(Cursor { position: from.position + 2, line: from.line })
        } else {
            comment_end(input, Cursor { position: from.position + 1, line: from.line })
        }
    } else if input[from.position] == '\n' {
        comment_end(input, Cursor { position: from.position + 1, line: next_line(from.line) })
    } else {
        comment_end(input, Cursor { position: from.position + 1, line: from.line })
    }
}

/// The end of the digits and dots from `from` on.
pub open spec fn numeral_end(input: Seq<char>, from: int) -> int
    decreases input.len() - from,
{
    if 0 <= from < input.len() && (ascii_digit(input[from]) || input[from] == '.') {
        numeral_end(input, from + 1)
    } else {
        from
    }
}

/// The end of the letters, digits and underscores from `from` on.
pub open spec fn word_end(input: Seq<char>, from: int) -> int
    decreases input.len() - from,
{
    if 0 <= from < input.len() && (alphanumeric(input[from]) || input[from] == '_') {
        word_end(input, from + 1)
    } else {
        from
    }
}

/// The end of the letters and digits from `from` on.
pub open spec fn plain_word_end(input: Seq<char>, from: int) -> int
    decreases input.len() - from,
{
    if 0 <= from < input.len() && alphanumeric(input[from]) {
        plain_word_end(input, from + 1)
    } else {
        from
    }
}

/// The place of the first `quote` from `from` on, or the end of the text;
/// the lines in between are counted.
pub open spec fn quote_end(input: Seq<char>, from: Cursor, quote: char) -> Cursor
    decreases input.len() - from.position,
{
    if 0 <= from.position < input.len() && input[from.position] != quote {
        quote_end(
            input,
            Cursor {
                position: from.position + 1,
                line: if input[from.position] == '\n' {
                    next_line(from.line)
                } else {
                    from.line
                },
            },
            quote,
        )
    } else {
        from
    }
}

/// The token of the word that starts at `from`, and where it ends: a
/// keyword or an identifier. `is` takes a following `not` with it, and
/// `else` a following `if`.
pub open spec fn word_token(input: Seq<char>, from: int) -> (TokenView, int) {
    let end = word_end(input, from);
    let word = input.subrange(from, end);
    if word == "let"@ {
        (TokenView::Let, end)
    } else if word == "be"@ {
        (TokenView::Be, end)
    } else if word == "is"@ {
        let next = blanks_end(input, end);
        if next < input.len() && alphabetic(input[next]) && input.subrange(next, plain_word_end(input, next))
            == "not"@ {
            (TokenView::IsNot, plain_word_end(input, next))
        } else {
            (TokenView::Is, end)
        }
    } else if word == "show"@ {
        (TokenView::Show, end)
    } else if word == "true"@ {
        (TokenView::True, end)
    } else if word == "false"@ {
        (TokenView::False, end)
    } else if word == "and"@ {
        (TokenView::And, end)
    } else if word == "or"@ {
        (TokenView::Or, end)
    } else if word == "not"@ {
        (TokenView::Not, end)
    } else if word == "if"@ {
        (TokenView::If, end)
    } else if word == "then"@ {
        (TokenView::Then, end)
    } else if word == "while"@ {
        (TokenView::While, end)
    } else if word == "repeat"@ {
        (TokenView::Repeat, end)
    } else if word == "times"@ {
        (TokenView::Times, end)
    } else if word == "else"@ {
        let next = blanks_end(input, end);
        if end < input.len() && input.subrange(next, word_end(input, next)) == "if"@ {
            (TokenView::ElseIf, word_end(input, next))
        } else {
            (TokenView::Else, end)
        }
    } else {
        (TokenView::Identifier(word), end)
    }
}

pub open spec fn colon_failure(line: usize) -> LumaErrorView {
    lex_failure("Unexpected character ':'. Use 'then' instead for control structures."@, line)
}

pub open spec fn bang_failure(line: usize) -> LumaErrorView {
    lex_failure("Unexpected character '!'. Did you mean '!='?"@, line)
}

/// The token that a character makes alone, if it makes one.
pub open spec fn single(ch: char) -> Option<TokenView> {
    if ch == '+' {
        Some(TokenView::Plus)
    } else if ch == '-' {
        Some(TokenView::Minus)
    } else if ch == '*' {
        Some(TokenView::Multiply)
    } else if ch == '/' {
        Some(TokenView::Divide)
    } else if ch == '%' {
        Some(TokenView::Modulo)
    } else if ch == '(' {
        Some(TokenView::LeftParen)
    } else if ch == ')' {
        Some(TokenView::RightParen)
    } else if ch == ',' {
        Some(TokenView::Comma)
    } else {
        None
    }
}

/// The token that a character makes with a `=` behind it, and the token
/// it makes without: `None` where it makes none.
pub open spec fn paired(ch: char) -> Option<(TokenView, Option<TokenView>)> {
    if ch == '=' {
        Some((TokenView::Equal, Some(TokenView::Assign)))
    } else if ch == '!' {
        Some((TokenView::NotEqual, None))
    } else if ch == '>' {
        Some((TokenView::GreaterEqual, Some(TokenView::GreaterThan)))
    } else if ch == '<' {
        Some((TokenView::LessEqual, Some(TokenView::LessThan)))
    } else {
        None
    }
}

pub proof fn blanks_end_bounds(input: Seq<char>, from: int)
    requires
        0 <= from <= input.len(),
    ensures
        from <= blanks_end(input, from) <= input.len(),
    decreases input.len() - from,
{
    if from < input.len() && whitespace(input[from]) && input[from] != '\n' {
        blanks_end_bounds(input, from + 1);
    }
}

pub proof fn line_end_bounds(input: Seq<char>, from: int)
    requires
        0 <= from <= input.len(),
    ensures
        from <= line_end(input, from) <= input.len(),
    decreases input.len() - from,
{
    if from < input.len() && input[from] != '\n' {
        line_end_bounds(input, from + 1);
    }
}

pub proof fn comment_end_bounds(input: Seq<char>, from: Cursor)
    requires
        0 <= from.position <= input.len(),
    ensures
        comment_end(input, from) matches Some(end) ==> from.position < end.position <= input.len(),
    decreases input.len() - from.position,
{
    if from.position < input.len() {
        if input[from.position] == '#' {
            if from.position + 1 < input.len() && input[from.position + 1] == '#' {
            } else {
                comment_end_bounds(input, Cursor { position: from.position + 1, line: from.line });
            }
        } else if input[from.position] == '\n' {
            comment_end_bounds(input, Cursor { position: from.position + 1, line: next_line(from.line) });
        } else {
            comment_end_bounds(input, Cursor { position: from.position + 1, line: from.line });
        }
    }
}

pub proof fn numeral_end_bounds(input: Seq<char>, from: int)
    requires
        0 <= from <= input.len(),
    ensures
        from <= numeral_end(input, from) <= input.len(),
    decreases input.len() - from,
{
    if from < input.len() && (ascii_digit(input[from]) || input[from] == '.') {
        numeral_end_bounds(input, from + 1);
    }
}

pub proof fn word_end_bounds(input: Seq<char>, from: int)
    requires
        0 <= from <= input.len(),
    ensures
        from <= word_end(input, from) <= input.len(),
    decreases input.len() - from,
{
    if from < input.len() && (alphanumeric(input[from]) || input[from] == '_') {
        word_end_bounds(input, from + 1);
    }
}

pub proof fn plain_word_end_bounds(input: Seq<char>, from: int)
    requires
        0 <= from <= input.len(),
    ensures
        from <= plain_word_end(input, from) <= input.len(),
    decreases input.len() - from,
{
    if from < input.len() && alphanumeric(input[from]) {
        plain_word_end_bounds(input, from + 1);
    }
}

pub proof fn quote_end_bounds(input: Seq<char>, from: Cursor, quote: char)
    requires
        0 <= from.position <= input.len(),
    ensures
        from.position <= quote_end(input, from, quote).position <= input.len(),
    decreases input.len() - from.position,
{
    if from.position < input.len() && input[from.position] != quote {
        quote_end_bounds(
            input,
            Cursor {
                position: from.position + 1,
                line: if input[from.position] == '\n' {
                    next_line(from.line)
                } else {
                    from.line
                },
            },
            quote,
        );
    }
}

/// What comes next in `input` from `from` on, and where the lexer stands
/// after it. Blanks, comments and characters that start no token are
/// passed over.
pub open spec fn next_lexeme(input: Seq<char>, from: Cursor) -> (Lexeme, Cursor)
    decreases input.len() - from.position,
{
    if from.position < 0 || from.position > input.len() {
        (Lexeme::End, from)
    } else {
        let at = blanks_end(input, from.position);
        let line = from.line;
        if at >= input.len() {
            (Lexeme::End, Cursor { position: at, line })
        } else {
            let ch = input[at];
            let next = at + 1;
            proof {
                blanks_end_bounds(input, from.position);
            }
            if ch == '\n' {
                (Lexeme::Token(TokenView::Newline), Cursor { position: next, line: next_line(line) })
            } else if single(ch) is Some {
                (Lexeme::Token(single(ch)->Some_0), Cursor { position: next, line })
            } else if ch == ':' {
                (Lexeme::Fail(colon_failure(line)), Cursor { position: next, line })
            } else if paired(ch) is Some {
                let (with_equals, alone) = paired(ch)->Some_0;
                if next < input.len() && input[next] == '=' {
                    (Lexeme::Token(with_equals), Cursor { position: next + 1, line })
                } else {
                    match alone {
                        Some(token) => (Lexeme::Token(token), Cursor { position: next, line }),
                        None => (Lexeme::Fail(bang_failure(line)), Cursor { position: next, line }),
                    }
                }
            } else if ch == '"' || ch == '\'' {
                let close = quote_end(input, Cursor { position: next, line }, ch);
                if close.position >= input.len() {
                    (Lexeme::Fail(lex_failure("Unterminated string"@, close.line)), close)
                } else {
                    (
                        Lexeme::Token(TokenView::String(input.subrange(next, close.position))),
                        Cursor { position: close.position + 1, line: close.line },
                    )
                }
            } else if ch == '#' {
                if next < input.len() && input[next] == '#' {
                    match comment_end(input, Cursor { position: next + 1, line }) {
                        None => (
                            Lexeme::Fail(lex_failure("Unterminated multi-line comment"@, line)),
                            Cursor { position: input.len() as int, line },
                        ),
                        Some(end) => {
                            proof {
                                comment_end_bounds(input, Cursor { position: next + 1, line });
                            }
                            next_lexeme(input, end)
                        },
                    }
                } else {
                    proof {
                        line_end_bounds(input, next);
                    }
                    next_lexeme(input, Cursor { position: line_end(input, next), line })
                }
            } else if ascii_digit(ch) || (ch == '.' && next < input.len() && ascii_digit(input[next])) {
                (
                    Lexeme::Numeral(input.subrange(at, numeral_end(input, at))),
                    Cursor { position: numeral_end(input, at), line },
                )
            } else if alphabetic(ch) || ch == '_' {
                (Lexeme::Token(word_token(input, at).0), Cursor { position: word_token(input, at).1, line })
            } else {
                next_lexeme(input, Cursor { position: next, line })
            }
        }
    }
}

/// The lexeme after `from` ends after `from`, within the text, unless
/// it is the end of the text.
pub proof fn next_lexeme_advances(input: Seq<char>, from: Cursor)
    requires
        0 <= from.position <= input.len(),
    ensures
        from.position <= next_lexeme(input, from).1.position <= input.len(),
        next_lexeme(input, from).0 is Token || next_lexeme(input, from).0 is Numeral ==> from.position
            < next_lexeme(input, from).1.position,
    decreases input.len() - from.position,
{
    let at = blanks_end(input, from.position);
    let line = from.line;
    blanks_end_bounds(input, from.position);
    if at < input.len() {
        let ch = input[at];
        let next = at + 1;
        if ch == '\n' {
        } else if single(ch) is Some {
        } else if ch == ':' {
        } else if paired(ch) is Some {
        } else if ch == '"' || ch == '\'' {
            quote_end_bounds(input, Cursor { position: next, line }, ch);
        } else if ch == '#' {
            if next < input.len() && input[next] == '#' {
                comment_end_bounds(input, Cursor { position: next + 1, line });
                match comment_end(input, Cursor { position: next + 1, line }) {
                    None => {},
                    Some(end) => {
                        next_lexeme_advances(input, end);
                    },
                }
            } else {
                line_end_bounds(input, next);
                next_lexeme_advances(input, Cursor { position: line_end(input, next), line });
            }
        } else if ascii_digit(ch) || (ch == '.' && next < input.len() && ascii_digit(input[next])) {
            numeral_end_bounds(input, at);
            assert(numeral_end(input, at) > at) by {
                numeral_end_bounds(input, at + 1);
            }
        } else if alphabetic(ch) || ch == '_' {
            word_end_bounds(input, at);
            word_end_bounds(input, at + 1);
            let end = word_end(input, at);
            assert(end > at);
            blanks_end_bounds(input, end);
            let after = blanks_end(input, end);
            plain_word_end_bounds(input, after);
            word_end_bounds(input, after);
        } else {
            next_lexeme_advances(input, Cursor { position: next, line });
        }
    }
}

impl LexerView {
    /// A lexer at the start of `input`.
    pub open spec fn start(input: Seq<char>) -> LexerView {
        LexerView { input, position: 0, line: 1, tokens: Seq::empty(), pending: PendingView::Nothing }
    }

    pub open spec fn cursor(self) -> Cursor {
        Cursor { position: self.position, line: self.line }
    }

    pub open spec fn at(self, cursor: Cursor) -> LexerView {
        LexerView { position: cursor.position, line: cursor.line, ..self }
    }

    /// The lexer hands out its tokens, with `Eof` last, and keeps none.
    pub open spec fn done(self) -> (LexerView, Result<ScannedView, LumaErrorView>) {
        (LexerView { tokens: Seq::empty(), ..self }, Ok(ScannedView::Done(self.tokens.push(TokenView::Eof))))
    }

    /// Reads on until the end of the text, the next numeral or the first
    /// error.
    pub open spec fn scan_on(self) -> (LexerView, Result<ScannedView, LumaErrorView>)
        decreases self.input.len() - self.position,
    {
        if self.position < 0 || self.position >= self.input.len() {
            self.done()
        } else {
            let (lexeme, cursor) = next_lexeme(self.input, self.cursor());
            proof {
                next_lexeme_advances(self.input, self.cursor());
            }
            match lexeme {
                Lexeme::Token(token) => LexerView { tokens: self.tokens.push(token), ..self.at(cursor) }.scan_on(),
                Lexeme::Numeral(text) => (
                    LexerView { pending: PendingView::Numeral(text), ..self.at(cursor) },
                    Ok(ScannedView::Ask(HostRequestView::ReadNumber(text))),
                ),
                Lexeme::End => self.at(cursor).done(),
                Lexeme::Fail(e) => (self.at(cursor), Err(e)),
            }
        }
    }

    /// The lexer takes the number `bits`, shown as `text`, as its next
    /// token and reads on.
    pub open spec fn accept(self, bits: u64, text: Seq<char>) -> (LexerView, Result<ScannedView, LumaErrorView>) {
        LexerView {
            tokens: self.tokens.push(TokenView::Number(bits, text)),
            pending: PendingView::Nothing,
            ..self
        }.scan_on()
    }

    /// One call of `tokenize`. A lexer that waits for the host takes the
    /// reply: the number of a numeral becomes a token, with its decimal
    /// text where the number is a plain integer and else once the host
    /// has written it out; a numeral that is no number is an error. A
    /// reply that does not answer the request is asked for again.
    pub open spec fn scan(self, reply: Option<HostReplyView>) -> (LexerView, Result<ScannedView, LumaErrorView>) {
        match self.pending {
            PendingView::Nothing => self.scan_on(),
            PendingView::Numeral(text) => match reply {
                Some(HostReplyView::Number(bits)) => match number::plain_integer(bits) {
                    Some(value) => self.accept(bits, text::decimal(value as nat)),
                    None => (
                        LexerView { pending: PendingView::Rendering(bits), ..self },
                        Ok(ScannedView::Ask(HostRequestView::WriteNumber(bits))),
                    ),
                },
                Some(HostReplyView::NotANumber) => (
                    LexerView { pending: PendingView::Nothing, ..self },
                    Err(lex_failure("Invalid number '"@ + text + "'"@, self.line)),
                ),
                _ => (self, Ok(ScannedView::Ask(HostRequestView::ReadNumber(text)))),
            },
            PendingView::Rendering(bits) => match reply {
                Some(HostReplyView::Text(written)) => self.accept(bits, written),
                _ => (self, Ok(ScannedView::Ask(HostRequestView::WriteNumber(bits)))),
            },
        }
    }
}

/// What `next_token` found.
enum Found {
    Token(Token),
    Numeral(String),
    End,
    Fail(LumaError),
}

impl View for Found {
    type V = Lexeme;

    closed spec fn view(&self) -> Lexeme {
        match self {
            Found::Token(token) => Lexeme::Token(token@),
            Found::Numeral(text) => Lexeme::Numeral(text@),
            Found::End => Lexeme::End,
            Found::Fail(e) => Lexeme::Fail(e@),
        }
    }
}

fn lex_failure_of(message: &str, line: usize) -> (e: LumaError)
    ensures
        e@ == lex_failure(message@, line),
{
    LumaError::lex_error(String::from_str(message), line)
}

fn line_after(line: usize) -> (next: usize)
    ensures
        next == next_line(line),
{
    if line < usize::MAX {
        line + 1
    } else {
        line
    }
}

impl Lexer {
    pub fn new(input: &str) -> (lexer: Lexer)
        ensures
            lexer@ == LexerView::start(input@),
    {
        let lexer = Lexer {
            input: chars_of(input),
            position: 0,
            line: 1,
            tokens: Vec::new(),
            pending: Pending::Nothing,
        };
        assert(lexer@.tokens =~= Seq::empty());
        lexer
    }

    /// Reads the text on. It ends with all the tokens of the text, `Eof`
    /// last, or with a request to the host, whose reply the next call
    /// takes, or with the first error in the text.
    pub fn tokenize(&mut self, reply: Option<HostReply>) -> (r: Result<Scanned, LumaError>)
        ensures
            final(self)@ == old(self)@.scan(reply_view(reply)).0,
            match r {
                Ok(scanned) => old(self)@.scan(reply_view(reply)).1 == Ok::<
                    ScannedView,
                    LumaErrorView,
                >(scanned@),
                Err(e) => old(self)@.scan(reply_view(reply)).1 == Err::<
                    ScannedView,
                    LumaErrorView,
                >(e@),
            },
    {
        let mut pending = Pending::Nothing;
        std::mem::swap(&mut pending, &mut self.pending);
        match pending {
            Pending::Nothing => {},
            Pending::Numeral(numeral) => match reply {
                Some(HostReply::Number(bits)) => match number::number_plain_integer(bits) {
                    Some(value) => {
                        self.tokens.push(Token::Number(bits, text::format_unsigned(value)));
                        proof {
                            let token = TokenView::Number(bits, text::decimal(value as nat));
                            assert(self@.tokens =~= old(self)@.tokens.push(token));
                        }
                    },
                    None => {
                        self.pending = Pending::Rendering(bits);
                        return Ok(Scanned::Ask(HostRequest::WriteNumber(bits)));
                    },
                },
                Some(HostReply::NotANumber) => {
                    let mut message = String::from_str("Invalid number '");
                    message.append(numeral.as_str());
                    message.append("'");
                    return Err(LumaError::lex_error(message, self.line));
                },
                _ => {
                    let request = HostRequest::ReadNumber(numeral.clone());
                    self.pending = Pending::Numeral(numeral);
                    return Ok(Scanned::Ask(request));
                },
            },
            Pending::Rendering(bits) => match reply {
                Some(HostReply::Text(written)) => {
                    self.tokens.push(Token::Number(bits, written));
                    proof {
                        let token = TokenView::Number(bits, written@);
                        assert(self@.tokens =~= old(self)@.tokens.push(token));
                    }
                },
                _ => {
                    self.pending = Pending::Rendering(bits);
                    return Ok(Scanned::Ask(HostRequest::WriteNumber(bits)));
                },
            },
        }
        let ghost resumed = self@;
        loop
            invariant
                self@.pending is Nothing,
                old(self)@.scan(reply_view(reply)) == resumed.scan_on(),
                resumed.scan_on() == self@.scan_on(),
            decreases self.input.len() - self.position,
        {
            if self.position >= self.input.len() {
                return Ok(self.done());
            }
            let ghost before = self@;
            proof {
                next_lexeme_advances(before.input, before.cursor());
            }
            match self.next_token() {
                Found::Token(token) => {
                    self.tokens.push(token);
                    proof {
                        assert(self@.tokens =~= before.tokens.push(token@));
                    }
                },
                Found::Numeral(numeral) => {
                    let request = HostRequest::ReadNumber(numeral.clone());
                    self.pending = Pending::Numeral(numeral);
                    return Ok(Scanned::Ask(request));
                },
                Found::End => {
                    return Ok(self.done());
                },
                Found::Fail(e) => {
                    return Err(e);
                },
            }
        }
    }

    /// Hands out the tokens, with `Eof` last.
    fn done(&mut self) -> (scanned: Scanned)
        ensures
            (final(self)@, Ok::<ScannedView, LumaErrorView>(scanned@)) == old(self)@.done(),
    {
        let mut tokens: Vec<Token> = Vec::new();
        std::mem::swap(&mut tokens, &mut self.tokens);
        let ghost gathered = tokens@;
        tokens.push(Token::Eof);
        proof {
            assert(token_views(tokens@) =~= token_views(gathered).push(TokenView::Eof));
            assert(self@.tokens =~= Seq::empty());
        }
        Scanned::Done(tokens)
    }

    /// The next token, numeral, error or end of the text, from the
    /// lexer's place on.
    fn next_token(&mut self) -> (found: Found)
        requires
            old(self)@.position <= old(self)@.input.len(),
        ensures
            (found@, final(self)@.cursor()) == next_lexeme(old(self)@.input, old(self)@.cursor()),
            final(self)@.input == old(self)@.input,
            final(self)@.tokens == old(self)@.tokens,
            final(self)@.pending == old(self)@.pending,
    {
        loop
            invariant
                self.position <= self.input.len(),
                next_lexeme(old(self)@.input, old(self)@.cursor()) == next_lexeme(self@.input, self@.cursor()),
                self@.input == old(self)@.input,
                self@.tokens == old(self)@.tokens,
                self@.pending == old(self)@.pending,
            decreases self.input.len() - self.position,
        {
            let end: usize = self.input.len();
            let at: usize = self.skip_whitespace(self.position);
            let line: usize = self.line;
            proof {
                blanks_end_bounds(self.input@, self.position as int);
            }
            if at >= end {
                self.position = at;
                return Found::End;
            }
            let ch: char = self.input[at];
            let next: usize = at + 1;
            if ch == '\n' {
                self.position = next;
                self.line = line_after(line);
                return Found::Token(Token::Newline);
            }
            match single_token(ch) {
                Some(token) => {
                    self.position = next;
                    return Found::Token(token);
                },
                None => {},
            }
            if ch == ':' {
                self.position = next;
                return Found::Fail(
                    lex_failure_of("Unexpected character ':'. Use 'then' instead for control structures.", line),
                );
            }
            match paired_tokens(ch) {
                Some((with_equals, alone)) => {
                    if next < end && self.input[next] == '=' {
                        self.position = next + 1;
                        return Found::Token(with_equals);
                    }
                    self.position = next;
                    return match alone {
                        Some(token) => Found::Token(token),
                        None => Found::Fail(lex_failure_of("Unexpected character '!'. Did you mean '!='?", line)),
                    };
                },
                None => {},
            }
            if ch == '"' || ch == '\'' {
                return self.read_string(next, ch);
            }
            if ch == '#' {
                if next < end && self.input[next] == '#' {
                    proof {
                        comment_end_bounds(self.input@, Cursor { position: next + 1, line });
                    }
                    match self.skip_multiline_comment(next + 1, line) {
                        None => {
                            self.position = end;
                            return Found::Fail(lex_failure_of("Unterminated multi-line comment", line));
                        },
                        Some((position, line)) => {
                            self.position = position;
                            self.line = line;
                        },
                    }
                } else {
                    proof {
                        line_end_bounds(self.input@, next as int);
                    }
                    self.position = self.skip_comment(next);
                }
                continue ;
            }
            if ch.is_ascii_digit() || (ch == '.' && next < end && self.input[next].is_ascii_digit()) {
                return self.read_number(at);
            }
            if ch.is_alphabetic() || ch == '_' {
                return self.read_identifier(at);
            }
            self.position = next;
        }
    }

    fn skip_whitespace(&self, from: usize) -> (end: usize)
        ensures
            end == blanks_end(self@.input, from as int),
    {
        let mut at: usize = from;
        while at < self.input.len() && self.input[at].is_whitespace() && self.input[at] != '\n'
            invariant
                blanks_end(self@.input, from as int) == blanks_end(self@.input, at as int),
            decreases self.input.len() - at,
        {
            at = at + 1;
        }
        at
    }

    fn skip_comment(&self, from: usize) -> (end: usize)
        ensures
            end == line_end(self@.input, from as int),
    {
        let mut at: usize = from;
        while at < self.input.len() && self.input[at] != '\n'
            invariant
                line_end(self@.input, from as int) == line_end(self@.input, at as int),
            decreases self.input.len() - at,
        {
            at = at + 1;
        }
        at
    }

    /// The place after the end of the comment that is open at `from`.
    fn skip_multiline_comment(&self, from: usize, line: usize) -> (r: Option<(usize, usize)>)
        requires
            from <= self@.input.len(),
        ensures
            match r {
                Some(end) => comment_end(self@.input, Cursor { position: from as int, line }) == Some(
                    Cursor { position: end.0 as int, line: end.1 },
                ),
                None => comment_end(self@.input, Cursor { position: from as int, line }) is None,
            },
    {
        let mut at: usize = from;
        let mut line_now: usize = line;
        while at < self.input.len()
            invariant
                at <= self.input.len(),
                comment_end(self@.input, Cursor { position: from as int, line }) == comment_end(
                    self@.input,
                    Cursor { position: at as int, line: line_now },
                ),
            decreases self.input.len() - at,
        {
            let ch: char = self.input[at];
            if ch == '#' {
                if at + 1 < self.input.len() && self.input[at + 1] == '#' {
                    return Some((at + 2, line_now));
                }
            } else if ch == '\n' {
                line_now = line_after(line_now);
            }
            at = at + 1;
        }
        None
    }

    /// The text from `from` up to `to`.
    fn text_between(&self, from: usize, to: usize) -> (text: String)
        requires
            from <= to <= self@.input.len(),
        ensures
            text@ == self@.input.subrange(from as int, to as int),
    {
        let mut text = String::new();
        let mut at: usize = from;
        while at < to
            invariant
                from <= at <= to <= self.input.len(),
                text@ == self@.input.subrange(from as int, at as int),
            decreases to - at,
        {
            text.push(self.input[at]);
            assert(text@ =~= self@.input.subrange(from as int, at + 1));
            at = at + 1;
        }
        text
    }

    fn read_number(&mut self, from: usize) -> (found: Found)
        requires
            from <= old(self)@.input.len(),
        ensures
            found@ == Lexeme::Numeral(
                old(self)@.input.subrange(from as int, numeral_end(old(self)@.input, from as int)),
            ),
            final(self)@ == (LexerView { position: numeral_end(old(self)@.input, from as int), ..old(self)@ }),
    {
        let mut at: usize = from;
        while at < self.input.len() && (self.input[at].is_ascii_digit() || self.input[at] == '.')
            invariant
                from <= at <= self.input.len(),
                numeral_end(self@.input, from as int) == numeral_end(self@.input, at as int),
            decreases self.input.len() - at,
        {
            at = at + 1;
        }
        let text = self.text_between(from, at);
        self.position = at;
        Found::Numeral(text)
    }

    fn word_end(&self, from: usize) -> (end: usize)
        requires
            from <= self@.input.len(),
        ensures
            end == word_end(self@.input, from as int),
            from <= end <= self@.input.len(),
    {
        let mut at: usize = from;
        while at < self.input.len() && (self.input[at].is_alphanumeric() || self.input[at] == '_')
            invariant
                from <= at <= self.input.len(),
                word_end(self@.input, from as int) == word_end(self@.input, at as int),
            decreases self.input.len() - at,
        {
            at = at + 1;
        }
        at
    }

    fn plain_word_end(&self, from: usize) -> (end: usize)
        requires
            from <= self@.input.len(),
        ensures
            end == plain_word_end(self@.input, from as int),
            from <= end <= self@.input.len(),
    {
        let mut at: usize = from;
        while at < self.input.len() && self.input[at].is_alphanumeric()
            invariant
                from <= at <= self.input.len(),
                plain_word_end(self@.input, from as int) == plain_word_end(self@.input, at as int),
            decreases self.input.len() - at,
        {
            at = at + 1;
        }
        at
    }

    fn read_identifier(&mut self, from: usize) -> (found: Found)
        requires
            from <= old(self)@.input.len(),
        ensures
            found@ == Lexeme::Token(word_token(old(self)@.input, from as int).0),
            final(self)@ == (LexerView { position: word_token(old(self)@.input, from as int).1, ..old(self)@ }),
    {
        let end: usize = self.word_end(from);
        let word: String = self.text_between(from, end);
        self.position = end;
        let token: Token = if text::same_text(word.as_str(), "let") {
            Token::Let
        } else if text::same_text(word.as_str(), "be") {
            Token::Be
        } else if text::same_text(word.as_str(), "is") {
            let next: usize = self.skip_whitespace(end);
            proof {
                blanks_end_bounds(self.input@, end as int);
            }
            if next < self.input.len() && self.input[next].is_alphabetic() {
                let next_end: usize = self.plain_word_end(next);
                let next_word: String = self.text_between(next, next_end);
                if text::same_text(next_word.as_str(), "not") {
                    self.position = next_end;
                    Token::IsNot
                } else {
                    Token::Is
                }
            } else {
                Token::Is
            }
        } else if text::same_text(word.as_str(), "show") {
            Token::Show
        } else if text::same_text(word.as_str(), "true") {
            Token::True
        } else if text::same_text(word.as_str(), "false") {
            Token::False
        } else if text::same_text(word.as_str(), "and") {
            Token::And
        } else if text::same_text(word.as_str(), "or") {
            Token::Or
        } else if text::same_text(word.as_str(), "not") {
            Token::Not
        } else if text::same_text(word.as_str(), "if") {
            Token::If
        } else if text::same_text(word.as_str(), "then") {
            Token::Then
        } else if text::same_text(word.as_str(), "while") {
            Token::While
        } else if text::same_text(word.as_str(), "repeat") {
            Token::Repeat
        } else if text::same_text(word.as_str(), "times") {
            Token::Times
        } else if text::same_text(word.as_str(), "else") {
            if end < self.input.len() {
                let next: usize = self.skip_whitespace(end);
                proof {
                    blanks_end_bounds(self.input@, end as int);
                }
                let next_end: usize = self.word_end(next);
                let next_word: String = self.text_between(next, next_end);
                if text::same_text(next_word.as_str(), "if") {
                    self.position = next_end;
                    Token::ElseIf
                } else {
                    Token::Else
                }
            } else {
                Token::Else
            }
        } else {
            Token::Identifier(word)
        };
        Found::Token(token)
    }

    /// The string whose text starts at `from`, after the opening `quote`.
    fn read_string(&mut self, from: usize, quote: char) -> (found: Found)
        requires
            from <= old(self)@.input.len(),
        ensures
            ({
                let input = old(self)@.input;
                let close = quote_end(input, Cursor { position: from as int, line: old(self)@.line }, quote);
                if close.position >= input.len() {
                    found@ == Lexeme::Fail(lex_failure("Unterminated string"@, close.line)) && final(self)@
                        == old(self)@.at(close)
                } else {
                    found@ == Lexeme::Token(TokenView::String(input.subrange(from as int, close.position)))
                        && final(self)@ == old(self)@.at(
                        Cursor { position: close.position + 1, line: close.line },
                    )
                }
            }),
    {
        let mut at: usize = from;
        let mut line: usize = self.line;
        while at < self.input.len() && self.input[at] != quote
            invariant
                from <= at <= self.input.len(),
                quote_end(self@.input, Cursor { position: from as int, line: self.line }, quote) == quote_end(
                    self@.input,
                    Cursor { position: at as int, line },
                    quote,
                ),
            decreases self.input.len() - at,
        {
            if self.input[at] == '\n' {
                line = line_after(line);
            }
            at = at + 1;
        }
        if at >= self.input.len() {
            self.position = at;
            self.line = line;
            return Found::Fail(lex_failure_of("Unterminated string", line));
        }
        let content: String = self.text_between(from, at);
        self.position = at + 1;
        self.line = line;
        Found::Token(Token::String(content))
    }
}

fn single_token(ch: char) -> (r: Option<Token>)
    ensures
        match r {
            Some(token) => single(ch) == Some(token@),
            None => single(ch) is None,
        },
{
    if ch == '+' {
        Some(Token::Plus)
    } else if ch == '-' {
        Some(Token::Minus)
    } else if ch == '*' {
        Some(Token::Multiply)
    } else if ch == '/' {
        Some(Token::Divide)
    } else if ch == '%' {
        Some(Token::Modulo)
    } else if ch == '(' {
        Some(Token::LeftParen)
    } else if ch == ')' {
        Some(Token::RightParen)
    } else if ch == ',' {
        Some(Token::Comma)
    } else {
        None
    }
}

fn paired_tokens(ch: char) -> (r: Option<(Token, Option<Token>)>)
    ensures
        match r {
            Some(pair) => paired(ch) == Some(
                (
                    pair.0@,
                    match pair.1 {
                        Some(token) => Some(token@),
                        None => None,
                    },
                ),
            ),
            None => paired(ch) is None,
        },
{
    if ch == '=' {
        Some((Token::Equal, Some(Token::Assign)))
    } else if ch == '!' {
        Some((Token::NotEqual, None))
    } else if ch == '>' {
        Some((Token::GreaterEqual, Some(Token::GreaterThan)))
    } else if ch == '<' {
        Some((Token::LessEqual, Some(Token::LessThan)))
    } else {
        None
    }
}

} // verus!
