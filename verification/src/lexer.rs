//! The scanner: a single left-to-right pass turning a source string into a
//! flat token sequence, aborting at the first illegal character or
//! unterminated string.
//!
//! The scan is specified by [`spec_scan`], a recursive function over the
//! source's character sequence; [`MythicScanner::scan_tokens`] is proved to
//! return exactly what it describes.

use vstd::prelude::*;

use crate::error_registry::SyntaxError;
use crate::positions_and_ranges::{
    lemma_line_char_bounds, line_of, spec_position_from_offset, CustomPosition, CustomRange,
};

verus! {

/// All types of tokens for the skill-line scanner.
#[derive(Clone, Copy, Debug, PartialEq, Eq, PartialOrd, Hash, Structural)]
pub enum TokenType {
    LeftSquareBracket,
    RightSquareBracket,
    LeftBrace,
    RightBrace,
    Semicolon,
    Equal,
    Dash,
    At,
    Tilde,
    Question,
    Exclamation,
    Colon,
    LessThan,
    GreaterThan,
    Dot,
    Percent,
    Identifier,
    String,
    Number,
    Space,
    Eof,
}

/// Mathematical model of a [`MythicToken`]: offsets are character indices
/// into the token's source.
pub struct TokenModel {
    pub source: Seq<char>,
    pub type_: TokenType,
    pub lexeme: Option<Seq<char>>,
    pub literal: Option<Seq<char>>,
    pub line: int,
    pub start: int,
    pub current: int,
}

/// One scanned token. `start` and `current` delimit its lexeme as character
/// offsets into `source`; every token of a scan shares the whole document as
/// its `source`.
#[derive(Debug)]
pub struct MythicToken {
    pub source: String,
    pub type_: TokenType,
    pub lexeme: Option<String>,
    pub literal: Option<String>,
    pub line: u32,
    pub start: u32,
    pub current: u32,
}

impl View for MythicToken {
    type V = TokenModel;

    open spec fn view(&self) -> TokenModel {
        TokenModel {
            source: self.source@,
            type_: self.type_,
            lexeme: match self.lexeme {
                Some(s) => Some(s@),
                None => None,
            },
            literal: match self.literal {
                Some(s) => Some(s@),
                None => None,
            },
            line: self.line as int,
            start: self.start as int,
            current: self.current as int,
        }
    }
}

impl Clone for MythicToken {
    fn clone(&self) -> (r: Self)
        ensures
            r@ == self@,
    {
        MythicToken {
            source: self.source.clone(),
            type_: self.type_,
            lexeme: match &self.lexeme {
                Some(s) => Some(s.clone()),
                None => None,
            },
            literal: match &self.literal {
                Some(s) => Some(s.clone()),
                None => None,
            },
            line: self.line,
            start: self.start,
            current: self.current,
        }
    }
}

impl MythicToken {
    pub fn new(
        source: String,
        type_: TokenType,
        lexeme: Option<String>,
        literal: Option<String>,
        line: u32,
        start: u32,
        current: u32,
    ) -> (r: Self)
        ensures
            r@ == (TokenModel {
                source: source@,
                type_,
                lexeme: match lexeme {
                    Some(s) => Some(s@),
                    None => None,
                },
                literal: match literal {
                    Some(s) => Some(s@),
                    None => None,
                },
                line: line as int,
                start: start as int,
                current: current as int,
            }),
    {
        Self { source, type_, lexeme, literal, line, start, current }
    }

    /// The character length of the token's lexeme; zero when it has none.
    pub fn length(&self) -> (r: usize)
        ensures
            r == match self@.lexeme {
                Some(l) => l.len(),
                None => 0nat,
            },
    {
        match &self.lexeme {
            Some(s) => s.as_str().unicode_len(),
            None => 0,
        }
    }

    /// The range the token covers in its source.
    pub fn get_range(&self) -> (r: CustomRange)
        ensures
            r.start == spec_position_from_offset(self@.source, self@.start),
            r.end == spec_position_from_offset(self@.source, self@.current),
    {
        CustomRange::new(
            CustomPosition::from_offset(self.start, &self.source),
            CustomPosition::from_offset(self.current, &self.source),
        )
    }
}

/// The view of a token sequence.
pub open spec fn view_tokens(ts: Seq<MythicToken>) -> Seq<TokenModel> {
    ts.map_values(|t: MythicToken| t@)
}

/// Whether `c` has the Unicode `Alphabetic` property; a function of the
/// character alone, named rather than restated.
pub uninterp spec fn char_alphabetic(c: char) -> bool;

/// Whether `c` is Unicode alphanumeric; a function of the character alone,
/// named rather than restated.
pub uninterp spec fn char_alphanumeric(c: char) -> bool;

/// Relies on char::is_alphabetic: whether `c` has the Unicode `Alphabetic`
/// property, a pure function of the character.
#[verifier::external_body]
fn is_alphabetic_char(c: char) -> (r: bool)
    ensures
        r == char_alphabetic(c),
{
    c.is_alphabetic()
}

/// Relies on char::is_alphanumeric: whether `c` is Unicode alphanumeric, a
/// pure function of the character. A control character such as a newline or
/// NUL is not alphanumeric.
#[verifier::external_body]
fn is_alphanumeric_char(c: char) -> (r: bool)
    ensures
        r == char_alphanumeric(c),
        c == '\n' ==> !r,
        c == '\0' ==> !r,
{
    c.is_alphanumeric()
}

/// Relies on String::from(char): the returned string holds exactly the one
/// character given.
#[verifier::external_body]
fn char_to_string(c: char) -> (r: String)
    ensures
        r@ == seq![c],
{
    String::from(c)
}

/// An ASCII decimal digit.
pub open spec fn is_digit_char(c: char) -> bool {
    48 <= c as u32 <= 57
}

/// A character that may open an identifier.
pub open spec fn is_ident_start(c: char) -> bool {
    char_alphabetic(c) || c == '_'
}

/// A character that may continue an identifier.
pub open spec fn is_ident_cont(c: char) -> bool {
    char_alphanumeric(c) || c == '_'
}

/// The token type a single structural character scans to, if any.
pub open spec fn single_char_token_type(c: char) -> Option<TokenType> {
    if c == '[' {
        Some(TokenType::LeftSquareBracket)
    } else if c == ']' {
        Some(TokenType::RightSquareBracket)
    } else if c == '{' {
        Some(TokenType::LeftBrace)
    } else if c == '}' {
        Some(TokenType::RightBrace)
    } else if c == ';' {
        Some(TokenType::Semicolon)
    } else if c == '=' {
        Some(TokenType::Equal)
    } else if c == '-' {
        Some(TokenType::Dash)
    } else if c == '@' {
        Some(TokenType::At)
    } else if c == '~' {
        Some(TokenType::Tilde)
    } else if c == '?' {
        Some(TokenType::Question)
    } else if c == '!' {
        Some(TokenType::Exclamation)
    } else if c == ':' {
        Some(TokenType::Colon)
    } else if c == '<' {
        Some(TokenType::LessThan)
    } else if c == '>' {
        Some(TokenType::GreaterThan)
    } else if c == '.' {
        Some(TokenType::Dot)
    } else if c == '%' {
        Some(TokenType::Percent)
    } else if c == ' ' {
        Some(TokenType::Space)
    } else {
        None
    }
}

/// First offset at or after `i` whose character is not a digit.
pub open spec fn digits_end(s: Seq<char>, i: int) -> int
    decreases s.len() - i,
{
    if i < 0 || i >= s.len() || !is_digit_char(s[i]) {
        i
    } else {
        digits_end(s, i + 1)
    }
}

/// First offset at or after `i` whose character cannot continue an
/// identifier.
pub open spec fn ident_end(s: Seq<char>, i: int) -> int
    decreases s.len() - i,
{
    if i < 0 || i >= s.len() || !is_ident_cont(s[i]) {
        i
    } else {
        ident_end(s, i + 1)
    }
}

/// Offset of the first `delim` at or after `i`; the length of `s` when none
/// follows.
pub open spec fn string_close(s: Seq<char>, i: int, delim: char) -> int
    decreases s.len() - i,
{
    if i < 0 || i >= s.len() {
        s.len() as int
    } else if s[i] == delim {
        i
    } else {
        string_close(s, i + 1, delim)
    }
}

/// End of the number starting at `i`: a digit run, continued past a `.` only
/// when a digit follows it.
pub open spec fn number_end(s: Seq<char>, i: int) -> int {
    let j = digits_end(s, i);
    if j + 1 < s.len() && s[j] == '.' && is_digit_char(s[j + 1]) {
        digits_end(s, j + 2)
    } else {
        j
    }
}

pub proof fn lemma_digits_end_bounds(s: Seq<char>, i: int)
    requires
        0 <= i <= s.len(),
    ensures
        i <= digits_end(s, i) <= s.len(),
    decreases s.len() - i,
{
    if i < s.len() && is_digit_char(s[i]) {
        lemma_digits_end_bounds(s, i + 1);
    }
}

pub proof fn lemma_ident_end_bounds(s: Seq<char>, i: int)
    requires
        0 <= i <= s.len(),
    ensures
        i <= ident_end(s, i) <= s.len(),
    decreases s.len() - i,
{
    if i < s.len() && is_ident_cont(s[i]) {
        lemma_ident_end_bounds(s, i + 1);
    }
}

pub proof fn lemma_string_close_bounds(s: Seq<char>, i: int, delim: char)
    requires
        0 <= i <= s.len(),
    ensures
        i <= string_close(s, i, delim) <= s.len(),
    decreases s.len() - i,
{
    if i < s.len() && s[i] != delim {
        lemma_string_close_bounds(s, i + 1, delim);
    }
}

pub proof fn lemma_number_end_bounds(s: Seq<char>, i: int)
    requires
        0 <= i < s.len(),
        is_digit_char(s[i]),
    ensures
        i < number_end(s, i) <= s.len(),
{
    lemma_digits_end_bounds(s, i + 1);
    let j = digits_end(s, i);
    if j + 1 < s.len() && s[j] == '.' && is_digit_char(s[j + 1]) {
        lemma_digits_end_bounds(s, j + 2);
    }
}

/// A run of digits over `[i, j)` with a non-digit (or the end) at `j` pins
/// `digits_end` down.
pub proof fn lemma_digits_end_is(s: Seq<char>, i: int, j: int)
    requires
        0 <= i <= j <= s.len(),
        forall|k: int| i <= k < j ==> is_digit_char(s[k]),
        j == s.len() || !is_digit_char(s[j]),
    ensures
        digits_end(s, i) == j,
    decreases j - i,
{
    if i < j {
        lemma_digits_end_is(s, i + 1, j);
    }
}

/// A run of identifier characters over `[i, j)` with a non-continuation (or
/// the end) at `j` pins `ident_end` down.
pub proof fn lemma_ident_end_is(s: Seq<char>, i: int, j: int)
    requires
        0 <= i <= j <= s.len(),
        forall|k: int| i <= k < j ==> is_ident_cont(s[k]),
        j == s.len() || !is_ident_cont(s[j]),
    ensures
        ident_end(s, i) == j,
    decreases j - i,
{
    if i < j {
        lemma_ident_end_is(s, i + 1, j);
    }
}

/// A delimiter-free run over `[i, j)` with the delimiter (or the end) at `j`
/// pins `string_close` down.
pub proof fn lemma_string_close_is(s: Seq<char>, i: int, j: int, delim: char)
    requires
        0 <= i <= j <= s.len(),
        forall|k: int| i <= k < j ==> s[k] != delim,
        j == s.len() || s[j] == delim,
    ensures
        string_close(s, i, delim) == j,
    decreases j - i,
{
    if i < j {
        lemma_string_close_is(s, i + 1, j, delim);
    }
}

/// The model of a token covering `[start, end)` of `s`, stamped with the
/// line reached at `end`.
pub open spec fn spec_token(
    s: Seq<char>,
    ty: TokenType,
    start: int,
    end: int,
    literal: Option<Seq<char>>,
) -> TokenModel {
    TokenModel {
        source: s,
        type_: ty,
        lexeme: Some(s.subrange(start, end)),
        literal,
        line: 1 + line_of(s, end),
        start,
        current: end,
    }
}

/// The zero-width end-of-input token every scan appends.
pub open spec fn spec_eof_token(s: Seq<char>) -> TokenModel {
    TokenModel {
        source: s,
        type_: TokenType::Eof,
        lexeme: None,
        literal: None,
        line: 1 + line_of(s, s.len() as int),
        start: s.len() as int,
        current: s.len() as int,
    }
}

/// Model of a fatal lexical error: the offsets consumed and the message.
pub struct ScanErrorModel {
    pub start: int,
    pub end: int,
    pub message: Seq<char>,
}

/// The tokens of `s` from offset `i` on (ending in the end-of-input token),
/// or the first lexical error.
pub open spec fn spec_scan_from(s: Seq<char>, i: int) -> Result<Seq<TokenModel>, ScanErrorModel>
    decreases s.len() - i, if i < 0 { 1int } else { 0int },
        via spec_scan_from_decreases
{
    if i < 0 {
        spec_scan_from(s, 0)
    } else if i >= s.len() {
        Ok(seq![spec_eof_token(s)])
    } else {
        let c = s[i];
        match single_char_token_type(c) {
            Some(ty) => match spec_scan_from(s, i + 1) {
                Ok(rest) => Ok(seq![spec_token(s, ty, i, i + 1, None)] + rest),
                Err(e) => Err(e),
            },
            None => {
                if c == '\r' || c == '\t' || c == '\n' {
                    spec_scan_from(s, i + 1)
                } else if c == '"' || c == '\'' {
                    let close = string_close(s, i + 1, c);
                    if close >= s.len() {
                        Err(
                            ScanErrorModel {
                                start: i,
                                end: s.len() as int,
                                message: "Unterminated string."@,
                            },
                        )
                    } else {
                        match spec_scan_from(s, close + 1) {
                            Ok(rest) => Ok(
                                seq![
                                    spec_token(
                                        s,
                                        TokenType::String,
                                        i,
                                        close + 1,
                                        Some(s.subrange(i + 1, close)),
                                    ),
                                ] + rest,
                            ),
                            Err(e) => Err(e),
                        }
                    }
                } else if is_digit_char(c) {
                    let end = number_end(s, i);
                    match spec_scan_from(s, end) {
                        Ok(rest) => Ok(
                            seq![
                                spec_token(s, TokenType::Number, i, end, Some(s.subrange(i, end))),
                            ] + rest,
                        ),
                        Err(e) => Err(e),
                    }
                } else if is_ident_start(c) {
                    let end = ident_end(s, i + 1);
                    match spec_scan_from(s, end) {
                        Ok(rest) => Ok(
                            seq![
                                spec_token(
                                    s,
                                    TokenType::Identifier,
                                    i,
                                    end,
                                    Some(s.subrange(i, end)),
                                ),
                            ] + rest,
                        ),
                        Err(e) => Err(e),
                    }
                } else {
                    Err(
                        ScanErrorModel {
                            start: i,
                            end: i + 1,
                            message: "Unexpected character: "@ + seq![c],
                        },
                    )
                }
            },
        }
    }
}

#[via_fn]
proof fn spec_scan_from_decreases(s: Seq<char>, i: int) {
    if 0 <= i < s.len() {
        lemma_string_close_bounds(s, i + 1, s[i]);
        if is_digit_char(s[i]) {
            lemma_number_end_bounds(s, i);
        }
        lemma_ident_end_bounds(s, i + 1);
    }
}

/// The full scan of `s`: its token sequence ending in the end-of-input
/// token, or the first lexical error.
pub open spec fn spec_scan(s: Seq<char>) -> Result<Seq<TokenModel>, ScanErrorModel> {
    spec_scan_from(s, 0)
}

proof fn lemma_view_tokens_push(ts: Seq<MythicToken>, t: MythicToken)
    ensures
        view_tokens(ts.push(t)) == view_tokens(ts).push(t@),
{
    assert(view_tokens(ts.push(t)) =~= view_tokens(ts).push(t@));
}

/// One scanner step: emitting the single token the scan prescribes at `i`
/// keeps the accumulated view consistent with the remaining scan.
proof fn lemma_scan_step(
    s: Seq<char>,
    i: int,
    next: int,
    m: TokenModel,
    vt0: Seq<TokenModel>,
    vt1: Seq<TokenModel>,
)
    requires
        vt1 == vt0.push(m),
        spec_scan_from(s, i) == (match spec_scan_from(s, next) {
            Ok(rest) => Ok::<Seq<TokenModel>, ScanErrorModel>(seq![m] + rest),
            Err(e) => Err::<Seq<TokenModel>, ScanErrorModel>(e),
        }),
    ensures
        match spec_scan_from(s, i) {
            Ok(all) => spec_scan_from(s, next) matches Ok(rest) && vt1 + rest == vt0 + all,
            Err(e) => spec_scan_from(s, next) == Err::<Seq<TokenModel>, ScanErrorModel>(e),
        },
{
    match spec_scan_from(s, next) {
        Ok(rest) => {
            assert(vt0.push(m) + rest =~= vt0 + (seq![m] + rest));
        },
        Err(e) => {},
    }
}

fn is_digit(c: char) -> (r: bool)
    ensures
        r == is_digit_char(c),
{
    let u = c as u32;
    48 <= u && u <= 57
}

fn is_ident_continue(c: char) -> (r: bool)
    ensures
        r == is_ident_cont(c),
        c == '\n' ==> !r,
        c == '\0' ==> !r,
{
    is_alphanumeric_char(c) || c == '_'
}

/// The scanner: consumes a source string left to right, one character class
/// at a time, and yields the token sequence or the first lexical error.
pub struct MythicScanner {
    source: String,
    tokens: Vec<MythicToken>,
    start: u32,
    current: u32,
    line: u32,
}

impl MythicScanner {
    /// The character sequence being scanned.
    pub closed spec fn spec_source(&self) -> Seq<char> {
        self.source@
    }

    /// A freshly constructed scanner that has consumed nothing yet.
    pub closed spec fn ready(&self) -> bool {
        &&& self.tokens@.len() == 0
        &&& self.start == 0
        &&& self.current == 0
        &&& self.line == 1
        &&& self.source@.len() < u32::MAX
    }

    pub fn new(source: String) -> (r: Self)
        requires
            source@.len() < u32::MAX,
        ensures
            r.ready(),
            r.spec_source() == source@,
    {
        Self { source, tokens: Vec::new(), start: 0, current: 0, line: 1 }
    }

    fn is_at_end(&self) -> (r: bool)
        ensures
            r == (self.current >= self.spec_source().len()),
    {
        self.current as usize >= self.source.as_str().unicode_len()
    }

    fn peek(&self) -> (c: char)
        requires
            self.current <= self.spec_source().len(),
        ensures
            c == if self.current < self.spec_source().len() {
                self.spec_source()[self.current as int]
            } else {
                '\0'
            },
    {
        if self.is_at_end() {
            '\0'
        } else {
            self.source.as_str().get_char(self.current as usize)
        }
    }

    fn peek_next(&self) -> (c: char)
        requires
            self.current <= self.spec_source().len(),
            self.spec_source().len() < u32::MAX,
        ensures
            c == if self.current + 1 < self.spec_source().len() {
                self.spec_source()[self.current + 1]
            } else {
                '\0'
            },
    {
        let n = self.source.as_str().unicode_len();
        if self.current as usize + 1 >= n {
            '\0'
        } else {
            self.source.as_str().get_char(self.current as usize + 1)
        }
    }

    fn advance(&mut self) -> (c: char)
        requires
            old(self).current < old(self).spec_source().len(),
            old(self).spec_source().len() < u32::MAX,
        ensures
            final(self).source == old(self).source,
            final(self).tokens == old(self).tokens,
            final(self).start == old(self).start,
            final(self).line == old(self).line,
            final(self).current == old(self).current + 1,
            c == old(self).spec_source()[old(self).current as int],
    {
        let c = self.source.as_str().get_char(self.current as usize);
        self.current = self.current + 1;
        c
    }

    fn get_range(&self) -> (r: CustomRange)
        ensures
            r.start == spec_position_from_offset(self.spec_source(), self.start as int),
            r.end == spec_position_from_offset(self.spec_source(), self.current as int),
    {
        CustomRange::new(
            CustomPosition::from_offset(self.start, &self.source),
            CustomPosition::from_offset(self.current, &self.source),
        )
    }

    fn add_token(&mut self, type_: TokenType, literal: Option<&str>)
        requires
            old(self).start <= old(self).current <= old(self).spec_source().len(),
            old(self).spec_source().len() < u32::MAX,
        ensures
            final(self).source == old(self).source,
            final(self).start == old(self).start,
            final(self).current == old(self).current,
            final(self).line == old(self).line,
            view_tokens(final(self).tokens@) == view_tokens(old(self).tokens@).push(
                TokenModel {
                    source: old(self).spec_source(),
                    type_,
                    lexeme: Some(
                        old(self).spec_source().subrange(
                            old(self).start as int,
                            old(self).current as int,
                        ),
                    ),
                    literal: match literal {
                        Some(l) => Some(l@),
                        None => None,
                    },
                    line: old(self).line as int,
                    start: old(self).start as int,
                    current: old(self).current as int,
                },
            ),
    {
        let lexeme = self.source.as_str().substring_char(
            self.start as usize,
            self.current as usize,
        ).to_owned();
        let literal_owned = match literal {
            Some(l) => Some(l.to_owned()),
            None => None,
        };
        let token = MythicToken::new(
            self.source.clone(),
            type_,
            Some(lexeme),
            literal_owned,
            self.line,
            self.start,
            self.current,
        );
        proof {
            lemma_view_tokens_push(self.tokens@, token);
        }
        self.tokens.push(token);
    }

    /// Scans the whole source. On success the token sequence ends in the
    /// zero-width end-of-input token; on the first illegal character or
    /// unterminated string the scan aborts with the error the scan model
    /// prescribes, its range covering the characters consumed.
    pub fn scan_tokens(&mut self) -> (r: Result<Vec<MythicToken>, SyntaxError>)
        requires
            old(self).ready(),
        ensures
            ({
                let s = old(self).spec_source();
                match spec_scan(s) {
                    Ok(toks) => r matches Ok(v) && view_tokens(v@) == toks,
                    Err(em) => r matches Err(e) && e.range.start == spec_position_from_offset(
                        s,
                        em.start,
                    ) && e.range.end == spec_position_from_offset(s, em.end) && e.message@
                        == em.message,
                }
            }),
    {
        let ghost s = self.source@;
        proof {
            assert(view_tokens(self.tokens@) =~= Seq::<TokenModel>::empty());
        }
        while !self.is_at_end()
            invariant
                self.source == old(self).source,
                self.source@ == s,
                s.len() < u32::MAX,
                self.current <= s.len(),
                self.line as int == 1 + line_of(s, self.current as int),
                spec_scan(s) == (match spec_scan_from(s, self.current as int) {
                    Ok(rest) => Ok::<Seq<TokenModel>, ScanErrorModel>(
                        view_tokens(self.tokens@) + rest,
                    ),
                    Err(e) => Err::<Seq<TokenModel>, ScanErrorModel>(e),
                }),
            decreases s.len() - self.current,
        {
            self.start = self.current;
            let ghost vt0 = view_tokens(self.tokens@);
            match self.scan_token() {
                Ok(_) => {},
                Err(e) => {
                    return Err(e);
                },
            }
        }
        let n = self.source.as_str().unicode_len();
        let eof = MythicToken::new(
            self.source.clone(),
            TokenType::Eof,
            None,
            None,
            self.line,
            n as u32,
            n as u32,
        );
        proof {
            lemma_view_tokens_push(self.tokens@, eof);
            assert(view_tokens(self.tokens@).push(spec_eof_token(s)) =~= view_tokens(self.tokens@)
                + seq![spec_eof_token(s)]);
        }
        self.tokens.push(eof);
        let result = self.tokens.clone();
        proof {
            assert(view_tokens(result@) =~= view_tokens(self.tokens@));
        }
        Ok(result)
    }

    /// Scans the single token (or dropped character) at the current offset.
    fn scan_token(&mut self) -> (r: Result<(), SyntaxError>)
        requires
            old(self).start == old(self).current,
            old(self).current < old(self).spec_source().len(),
            old(self).spec_source().len() < u32::MAX,
            old(self).line as int == 1 + line_of(old(self).spec_source(), old(self).current as int),
        ensures
            final(self).source == old(self).source,
            ({
                let s = old(self).spec_source();
                match r {
                    Ok(_) => {
                        &&& old(self).current < final(self).current <= s.len()
                        &&& final(self).line as int == 1 + line_of(s, final(self).current as int)
                        &&& match spec_scan_from(s, old(self).current as int) {
                            Ok(all) => spec_scan_from(s, final(self).current as int) matches Ok(
                                rest,
                            ) && view_tokens(final(self).tokens@) + rest == view_tokens(
                                old(self).tokens@,
                            ) + all,
                            Err(e) => spec_scan_from(s, final(self).current as int) == Err::<
                                Seq<TokenModel>,
                                ScanErrorModel,
                            >(e),
                        }
                    },
                    Err(e) => spec_scan_from(s, old(self).current as int) matches Err(em)
                        && e.range.start == spec_position_from_offset(s, em.start) && e.range.end
                        == spec_position_from_offset(s, em.end) && e.message@ == em.message,
                }
            }),
    {
        let ghost s = self.source@;
        let ghost i = self.current as int;
        let ghost vt0 = view_tokens(self.tokens@);
        proof {
            lemma_line_char_bounds(s, i);
        }
        let c = self.advance();
        match c {
            '[' => {
                self.add_token(TokenType::LeftSquareBracket, None);
                proof {
                    lemma_scan_step(
                        s,
                        i,
                        i + 1,
                        spec_token(s, TokenType::LeftSquareBracket, i, i + 1, None),
                        vt0,
                        view_tokens(self.tokens@),
                    );
                }
                Ok(())
            },
            ']' => {
                self.add_token(TokenType::RightSquareBracket, None);
                proof {
                    lemma_scan_step(
                        s,
                        i,
                        i + 1,
                        spec_token(s, TokenType::RightSquareBracket, i, i + 1, None),
                        vt0,
                        view_tokens(self.tokens@),
                    );
                }
                Ok(())
            },
            '{' => {
                self.add_token(TokenType::LeftBrace, None);
                proof {
                    lemma_scan_step(
                        s,
                        i,
                        i + 1,
                        spec_token(s, TokenType::LeftBrace, i, i + 1, None),
                        vt0,
                        view_tokens(self.tokens@),
                    );
                }
                Ok(())
            },
            '}' => {
                self.add_token(TokenType::RightBrace, None);
                proof {
                    lemma_scan_step(
                        s,
                        i,
                        i + 1,
                        spec_token(s, TokenType::RightBrace, i, i + 1, None),
                        vt0,
                        view_tokens(self.tokens@),
                    );
                }
                Ok(())
            },
            ';' => {
                self.add_token(TokenType::Semicolon, None);
                proof {
                    lemma_scan_step(
                        s,
                        i,
                        i + 1,
                        spec_token(s, TokenType::Semicolon, i, i + 1, None),
                        vt0,
                        view_tokens(self.tokens@),
                    );
                }
                Ok(())
            },
            '=' => {
                self.add_token(TokenType::Equal, None);
                proof {
                    lemma_scan_step(
                        s,
                        i,
                        i + 1,
                        spec_token(s, TokenType::Equal, i, i + 1, None),
                        vt0,
                        view_tokens(self.tokens@),
                    );
                }
                Ok(())
            },
            '-' => {
                self.add_token(TokenType::Dash, None);
                proof {
                    lemma_scan_step(
                        s,
                        i,
                        i + 1,
                        spec_token(s, TokenType::Dash, i, i + 1, None),
                        vt0,
                        view_tokens(self.tokens@),
                    );
                }
                Ok(())
            },
            '@' => {
                self.add_token(TokenType::At, None);
                proof {
                    lemma_scan_step(
                        s,
                        i,
                        i + 1,
                        spec_token(s, TokenType::At, i, i + 1, None),
                        vt0,
                        view_tokens(self.tokens@),
                    );
                }
                Ok(())
            },
            '~' => {
                self.add_token(TokenType::Tilde, None);
                proof {
                    lemma_scan_step(
                        s,
                        i,
                        i + 1,
                        spec_token(s, TokenType::Tilde, i, i + 1, None),
                        vt0,
                        view_tokens(self.tokens@),
                    );
                }
                Ok(())
            },
            '?' => {
                self.add_token(TokenType::Question, None);
                proof {
                    lemma_scan_step(
                        s,
                        i,
                        i + 1,
                        spec_token(s, TokenType::Question, i, i + 1, None),
                        vt0,
                        view_tokens(self.tokens@),
                    );
                }
                Ok(())
            },
            '!' => {
                self.add_token(TokenType::Exclamation, None);
                proof {
                    lemma_scan_step(
                        s,
                        i,
                        i + 1,
                        spec_token(s, TokenType::Exclamation, i, i + 1, None),
                        vt0,
                        view_tokens(self.tokens@),
                    );
                }
                Ok(())
            },
            ':' => {
                self.add_token(TokenType::Colon, None);
                proof {
                    lemma_scan_step(
                        s,
                        i,
                        i + 1,
                        spec_token(s, TokenType::Colon, i, i + 1, None),
                        vt0,
                        view_tokens(self.tokens@),
                    );
                }
                Ok(())
            },
            '<' => {
                self.add_token(TokenType::LessThan, None);
                proof {
                    lemma_scan_step(
                        s,
                        i,
                        i + 1,
                        spec_token(s, TokenType::LessThan, i, i + 1, None),
                        vt0,
                        view_tokens(self.tokens@),
                    );
                }
                Ok(())
            },
            '>' => {
                self.add_token(TokenType::GreaterThan, None);
                proof {
                    lemma_scan_step(
                        s,
                        i,
                        i + 1,
                        spec_token(s, TokenType::GreaterThan, i, i + 1, None),
                        vt0,
                        view_tokens(self.tokens@),
                    );
                }
                Ok(())
            },
            '.' => {
                self.add_token(TokenType::Dot, None);
                proof {
                    lemma_scan_step(
                        s,
                        i,
                        i + 1,
                        spec_token(s, TokenType::Dot, i, i + 1, None),
                        vt0,
                        view_tokens(self.tokens@),
                    );
                }
                Ok(())
            },
            '%' => {
                self.add_token(TokenType::Percent, None);
                proof {
                    lemma_scan_step(
                        s,
                        i,
                        i + 1,
                        spec_token(s, TokenType::Percent, i, i + 1, None),
                        vt0,
                        view_tokens(self.tokens@),
                    );
                }
                Ok(())
            },
            ' ' => {
                self.add_token(TokenType::Space, None);
                proof {
                    lemma_scan_step(
                        s,
                        i,
                        i + 1,
                        spec_token(s, TokenType::Space, i, i + 1, None),
                        vt0,
                        view_tokens(self.tokens@),
                    );
                }
                Ok(())
            },
            '\r' => Ok(()),
            '\t' => Ok(()),
            '\n' => {
                self.line = self.line + 1;
                Ok(())
            },
            '"' => {
                match self.string('"') {
                    Ok(_) => {
                        proof {
                            lemma_string_close_bounds(s, i + 1, '"');
                            lemma_scan_step(
                                s,
                                i,
                                string_close(s, i + 1, '"') + 1,
                                spec_token(
                                    s,
                                    TokenType::String,
                                    i,
                                    string_close(s, i + 1, '"') + 1,
                                    Some(s.subrange(i + 1, string_close(s, i + 1, '"'))),
                                ),
                                vt0,
                                view_tokens(self.tokens@),
                            );
                        }
                        Ok(())
                    },
                    Err(e) => Err(e),
                }
            },
            '\'' => {
                match self.string('\'') {
                    Ok(_) => {
                        proof {
                            lemma_string_close_bounds(s, i + 1, '\'');
                            lemma_scan_step(
                                s,
                                i,
                                string_close(s, i + 1, '\'') + 1,
                                spec_token(
                                    s,
                                    TokenType::String,
                                    i,
                                    string_close(s, i + 1, '\'') + 1,
                                    Some(s.subrange(i + 1, string_close(s, i + 1, '\''))),
                                ),
                                vt0,
                                view_tokens(self.tokens@),
                            );
                        }
                        Ok(())
                    },
                    Err(e) => Err(e),
                }
            },
            _ => {
                if is_digit(c) {
                    match self.number() {
                        Ok(_) => {
                            proof {
                                lemma_number_end_bounds(s, i);
                                lemma_scan_step(
                                    s,
                                    i,
                                    number_end(s, i),
                                    spec_token(
                                        s,
                                        TokenType::Number,
                                        i,
                                        number_end(s, i),
                                        Some(s.subrange(i, number_end(s, i))),
                                    ),
                                    vt0,
                                    view_tokens(self.tokens@),
                                );
                            }
                            Ok(())
                        },
                        Err(e) => Err(e),
                    }
                } else if is_alphabetic_char(c) || c == '_' {
                    match self.identifier() {
                        Ok(_) => {
                            proof {
                                lemma_ident_end_bounds(s, i + 1);
                                lemma_scan_step(
                                    s,
                                    i,
                                    ident_end(s, i + 1),
                                    spec_token(
                                        s,
                                        TokenType::Identifier,
                                        i,
                                        ident_end(s, i + 1),
                                        Some(s.subrange(i, ident_end(s, i + 1))),
                                    ),
                                    vt0,
                                    view_tokens(self.tokens@),
                                );
                            }
                            Ok(())
                        },
                        Err(e) => Err(e),
                    }
                } else {
                    let prefix = String::from_str("Unexpected character: ");
                    let suffix = char_to_string(c);
                    let message = prefix.concat(suffix.as_str());
                    Err(SyntaxError::new(self.get_range(), message))
                }
            },
        }
    }

    /// Scans the rest of a number after its first digit was consumed.
    fn number(&mut self) -> (r: Result<(), SyntaxError>)
        requires
            old(self).start + 1 == old(self).current,
            old(self).current <= old(self).spec_source().len(),
            old(self).spec_source().len() < u32::MAX,
            is_digit_char(old(self).spec_source()[old(self).start as int]),
            old(self).line as int == 1 + line_of(old(self).spec_source(), old(self).current as int),
        ensures
            r is Ok,
            final(self).source == old(self).source,
            final(self).start == old(self).start,
            final(self).current as int == number_end(
                old(self).spec_source(),
                old(self).start as int,
            ),
            final(self).line as int == 1 + line_of(
                old(self).spec_source(),
                final(self).current as int,
            ),
            view_tokens(final(self).tokens@) == view_tokens(old(self).tokens@).push(
                spec_token(
                    old(self).spec_source(),
                    TokenType::Number,
                    old(self).start as int,
                    number_end(old(self).spec_source(), old(self).start as int),
                    Some(
                        old(self).spec_source().subrange(
                            old(self).start as int,
                            number_end(old(self).spec_source(), old(self).start as int),
                        ),
                    ),
                ),
            ),
    {
        let ghost s = self.source@;
        let ghost start = self.start as int;
        while is_digit(self.peek())
            invariant
                self.source == old(self).source,
                self.source@ == s,
                s.len() < u32::MAX,
                self.start as int == start,
                start < self.current <= s.len(),
                self.tokens == old(self).tokens,
                self.line == old(self).line,
                forall|k: int| start <= k < self.current ==> is_digit_char(s[k]),
                self.line as int == 1 + line_of(s, self.current as int),
            decreases s.len() - self.current,
        {
            self.advance();
        }
        proof {
            lemma_digits_end_is(s, start, self.current as int);
        }
        let ghost j = self.current as int;
        if self.peek() == '.' && is_digit(self.peek_next()) {
            self.advance();
            while is_digit(self.peek())
                invariant
                    self.source == old(self).source,
                    self.source@ == s,
                    s.len() < u32::MAX,
                    self.start as int == start,
                    j < self.current <= s.len(),
                    self.tokens == old(self).tokens,
                    self.line == old(self).line,
                    forall|k: int| j + 1 <= k < self.current ==> is_digit_char(s[k]),
                    self.line as int == 1 + line_of(s, self.current as int),
                decreases s.len() - self.current,
            {
                self.advance();
            }
            proof {
                lemma_digits_end_is(s, j + 1, self.current as int);
            }
        }
        let value = self.source.as_str().substring_char(
            self.start as usize,
            self.current as usize,
        ).to_owned();
        self.add_token(TokenType::Number, Some(value.as_str()));
        Ok(())
    }

    /// Scans the rest of an identifier after its first character was
    /// consumed.
    fn identifier(&mut self) -> (r: Result<(), SyntaxError>)
        requires
            old(self).start + 1 == old(self).current,
            old(self).current <= old(self).spec_source().len(),
            old(self).spec_source().len() < u32::MAX,
            !(old(self).spec_source()[old(self).start as int] == '\n'),
            old(self).line as int == 1 + line_of(old(self).spec_source(), old(self).current as int),
        ensures
            r is Ok,
            final(self).source == old(self).source,
            final(self).start == old(self).start,
            final(self).current as int == ident_end(
                old(self).spec_source(),
                old(self).current as int,
            ),
            final(self).line as int == 1 + line_of(
                old(self).spec_source(),
                final(self).current as int,
            ),
            view_tokens(final(self).tokens@) == view_tokens(old(self).tokens@).push(
                spec_token(
                    old(self).spec_source(),
                    TokenType::Identifier,
                    old(self).start as int,
                    ident_end(old(self).spec_source(), old(self).current as int),
                    Some(
                        old(self).spec_source().subrange(
                            old(self).start as int,
                            ident_end(old(self).spec_source(), old(self).current as int),
                        ),
                    ),
                ),
            ),
    {
        let ghost s = self.source@;
        let ghost start = self.start as int;
        while is_ident_continue(self.peek())
            invariant
                self.source == old(self).source,
                self.source@ == s,
                s.len() < u32::MAX,
                self.start as int == start,
                start < self.current <= s.len(),
                self.tokens == old(self).tokens,
                self.line == old(self).line,
                forall|k: int| start + 1 <= k < self.current ==> is_ident_cont(s[k]),
                self.line as int == 1 + line_of(s, self.current as int),
            decreases s.len() - self.current,
        {
            proof {
                assert(s[self.current as int] != '\n');
            }
            self.advance();
        }
        proof {
            lemma_ident_end_is(s, start + 1, self.current as int);
        }
        let value = self.source.as_str().substring_char(
            self.start as usize,
            self.current as usize,
        ).to_owned();
        self.add_token(TokenType::Identifier, Some(value.as_str()));
        Ok(())
    }

    /// Scans the rest of a quoted string after its opening delimiter was
    /// consumed; reaching the end of input before the closing delimiter is a
    /// fatal error covering the consumed range.
    fn string(&mut self, end: char) -> (r: Result<(), SyntaxError>)
        requires
            old(self).start + 1 == old(self).current,
            old(self).current <= old(self).spec_source().len(),
            old(self).spec_source().len() < u32::MAX,
            old(self).spec_source()[old(self).start as int] == end,
            end == '"' || end == '\'',
            old(self).line as int == 1 + line_of(old(self).spec_source(), old(self).current as int),
        ensures
            final(self).source == old(self).source,
            ({
                let s = old(self).spec_source();
                let close = string_close(s, old(self).current as int, end);
                if close >= s.len() {
                    r matches Err(e) && e.range.start == spec_position_from_offset(
                        s,
                        old(self).start as int,
                    ) && e.range.end == spec_position_from_offset(s, s.len() as int) && e.message@
                        == "Unterminated string."@
                } else {
                    r is Ok && final(self).current as int == close + 1 && final(self).line as int
                        == 1 + line_of(s, close + 1) && view_tokens(final(self).tokens@)
                        == view_tokens(old(self).tokens@).push(
                        spec_token(
                            s,
                            TokenType::String,
                            old(self).start as int,
                            close + 1,
                            Some(s.subrange(old(self).start as int + 1, close)),
                        ),
                    )
                }
            }),
    {
        let ghost s = self.source@;
        let ghost start = self.start as int;
        while self.peek() != end && !self.is_at_end()
            invariant
                self.source == old(self).source,
                self.source@ == s,
                s.len() < u32::MAX,
                self.start as int == start,
                start < self.current <= s.len(),
                self.tokens == old(self).tokens,
                forall|k: int| start + 1 <= k < self.current ==> s[k] != end,
                self.line as int == 1 + line_of(s, self.current as int),
            decreases s.len() - self.current,
        {
            proof {
                lemma_line_char_bounds(s, self.current as int);
            }
            if self.peek() == '\n' {
                self.line = self.line + 1;
            }
            self.advance();
        }
        proof {
            lemma_string_close_is(s, start + 1, self.current as int, end);
        }
        if self.is_at_end() {
            let range = self.get_range();
            return Err(SyntaxError::new(range, String::from_str("Unterminated string.")));
        }
        self.advance();
        let value = self.source.as_str().substring_char(
            self.start as usize + 1,
            self.current as usize - 1,
        ).to_owned();
        self.add_token(TokenType::String, Some(value.as_str()));
        Ok(())
    }
}

} // verus!
