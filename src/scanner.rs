use vstd::prelude::*;

use crate::error::{ErrorKind, ErrorView, LoxError};
use crate::number::{digit, Number};
use crate::token::{Kind, Token, TokenType, TokenView};

verus! {

pub open spec fn alpha(c: char) -> bool {
    ('a' <= c && c <= 'z') || ('A' <= c && c <= 'Z') || c == '_'
}

pub open spec fn alpha_numeric(c: char) -> bool {
    alpha(c) || digit(c)
}

/// The keyword that a word is reserved for, if any.
pub open spec fn keyword(w: Seq<char>) -> Option<Kind> {
    if w == "and"@ {
        Some(Kind::And)
    } else if w == "or"@ {
        Some(Kind::Or)
    } else if w == "true"@ {
        Some(Kind::True)
    } else if w == "false"@ {
        Some(Kind::False)
    } else if w == "class"@ {
        Some(Kind::Class)
    } else if w == "super"@ {
        Some(Kind::Super)
    } else if w == "this"@ {
        Some(Kind::This)
    } else if w == "var"@ {
        Some(Kind::Var)
    } else if w == "fun"@ {
        Some(Kind::Fun)
    } else if w == "return"@ {
        Some(Kind::Return)
    } else if w == "if"@ {
        Some(Kind::If)
    } else if w == "else"@ {
        Some(Kind::Else)
    } else if w == "while"@ {
        Some(Kind::While)
    } else if w == "for"@ {
        Some(Kind::For)
    } else if w == "print"@ {
        Some(Kind::Print)
    } else {
        None
    }
}

/// End of the run of digits that starts at `i`.
pub open spec fn digits_end(s: Seq<char>, i: int) -> int
    decreases s.len() - i,
{
    if 0 <= i < s.len() && digit(s[i]) {
        digits_end(s, i + 1)
    } else {
        i
    }
}

/// End of the run of letters, digits and underscores that starts at `i`.
pub open spec fn word_end(s: Seq<char>, i: int) -> int
    decreases s.len() - i,
{
    if 0 <= i < s.len() && alpha_numeric(s[i]) {
        word_end(s, i + 1)
    } else {
        i
    }
}

/// Position of the first `stop` at or after `i`, or the length.
pub open spec fn find_from(s: Seq<char>, i: int, stop: char) -> int
    decreases s.len() - i,
{
    if 0 <= i < s.len() && s[i] != stop {
        find_from(s, i + 1, stop)
    } else {
        i
    }
}

/// End of a number literal starting at `i`: digits, then `.` and digits only
/// where a digit follows the `.`.
pub open spec fn number_end(s: Seq<char>, i: int) -> int {
    let j = digits_end(s, i);
    if j + 1 < s.len() && s[j] == '.' && digit(s[j + 1]) {
        digits_end(s, j + 1)
    } else {
        j
    }
}

pub open spec fn newlines(s: Seq<char>) -> nat
    decreases s.len(),
{
    if s.len() == 0 {
        0
    } else {
        newlines(s.drop_last()) + if s.last() == '\n' {
            1nat
        } else {
            0
        }
    }
}

/// The operator or punctuation mark at `i` and its length, longest first.
pub open spec fn punctuation(s: Seq<char>, i: int) -> Option<(Kind, int)> {
    let c = s[i];
    let eq_next = i + 1 < s.len() && s[i + 1] == '=';
    if c == '(' {
        Some((Kind::LeftParen, 1))
    } else if c == ')' {
        Some((Kind::RightParen, 1))
    } else if c == '{' {
        Some((Kind::LeftBrace, 1))
    } else if c == '}' {
        Some((Kind::RightBrace, 1))
    } else if c == ',' {
        Some((Kind::Comma, 1))
    } else if c == '.' {
        Some((Kind::Dot, 1))
    } else if c == '-' {
        Some((Kind::Minus, 1))
    } else if c == '+' {
        Some((Kind::Plus, 1))
    } else if c == ';' {
        Some((Kind::Semicolon, 1))
    } else if c == '*' {
        Some((Kind::Star, 1))
    } else if c == '/' {
        Some((Kind::Slash, 1))
    } else if c == '!' {
        if eq_next {
            Some((Kind::BangEqual, 2))
        } else {
            Some((Kind::Bang, 1))
        }
    } else if c == '=' {
        if eq_next {
            Some((Kind::EqualEqual, 2))
        } else {
            Some((Kind::Equal, 1))
        }
    } else if c == '<' {
        if eq_next {
            Some((Kind::LessEqual, 2))
        } else {
            Some((Kind::Less, 1))
        }
    } else if c == '>' {
        if eq_next {
            Some((Kind::GreaterEqual, 2))
        } else {
            Some((Kind::Greater, 1))
        }
    } else {
        None
    }
}

/// `ts` followed by the tokens of `rest`, or the error of `rest`.
pub open spec fn prepend(ts: Seq<TokenView>, rest: Result<Seq<TokenView>, ErrorView>) -> Result<
    Seq<TokenView>,
    ErrorView,
> {
    match rest {
        Ok(r) => Ok(ts + r),
        Err(e) => Err(e),
    }
}

pub open spec fn scan_error(kind: ErrorKind, line: nat) -> ErrorView {
    ErrorView {
        kind,
        line,
        location: Seq::empty(),
        message: if kind == ErrorKind::UnterminatedString {
            "Unterminated string."@
        } else {
            "Unexpected character."@
        },
    }
}

pub proof fn lemma_digits_end_bounds(s: Seq<char>, i: int)
    requires
        0 <= i <= s.len(),
    ensures
        i <= digits_end(s, i) <= s.len(),
        forall|k: int| i <= k < digits_end(s, i) ==> digit(#[trigger] s[k]),
        digits_end(s, i) < s.len() ==> !digit(s[digits_end(s, i)]),
    decreases s.len() - i,
{
    if i < s.len() && digit(s[i]) {
        lemma_digits_end_bounds(s, i + 1);
    }
}

pub proof fn lemma_word_end_bounds(s: Seq<char>, i: int)
    requires
        0 <= i <= s.len(),
    ensures
        i <= word_end(s, i) <= s.len(),
        forall|k: int| i <= k < word_end(s, i) ==> alpha_numeric(#[trigger] s[k]),
        word_end(s, i) < s.len() ==> !alpha_numeric(s[word_end(s, i)]),
    decreases s.len() - i,
{
    if i < s.len() && alpha_numeric(s[i]) {
        lemma_word_end_bounds(s, i + 1);
    }
}

pub proof fn lemma_find_from_bounds(s: Seq<char>, i: int, stop: char)
    requires
        0 <= i <= s.len(),
    ensures
        i <= find_from(s, i, stop) <= s.len(),
        forall|k: int| i <= k < find_from(s, i, stop) ==> #[trigger] s[k] != stop,
        find_from(s, i, stop) < s.len() ==> s[find_from(s, i, stop)] == stop,
    decreases s.len() - i,
{
    if i < s.len() && s[i] != stop {
        lemma_find_from_bounds(s, i + 1, stop);
    }
}

pub proof fn lemma_number_end_bounds(s: Seq<char>, i: int)
    requires
        0 <= i <= s.len(),
    ensures
        digits_end(s, i) <= number_end(s, i) <= s.len(),
{
    lemma_digits_end_bounds(s, i);
    let j = digits_end(s, i);
    if j + 1 < s.len() && s[j] == '.' && digit(s[j + 1]) {
        lemma_digits_end_bounds(s, j + 1);
    }
}

/// One step of scanning at `i < s.len()`, on line `line`: the token it
/// makes (none for a blank, a newline or a comment), the position after it and
/// the line there; or the error at `i`.
pub open spec fn step_from(s: Seq<char>, i: int, line: nat) -> Result<(Option<TokenView>, int, nat), ErrorView> {
    let c = s[i];
    if c == ' ' || c == '\r' || c == '\t' {
        Ok((None, i + 1, line))
    } else if c == '\n' {
        Ok((None, i + 1, line + 1))
    } else if c == '/' && i + 1 < s.len() && s[i + 1] == '/' {
        Ok((None, find_from(s, i + 2, '\n'), line))
    } else if c == '"' {
        let j = find_from(s, i + 1, '"');
        if j >= s.len() {
            Err(scan_error(ErrorKind::UnterminatedString, line))
        } else {
            let body = s.subrange(i + 1, j);
            let end_line = line + newlines(body);
            Ok(
                (
                    Some(TokenView { kind: Kind::String(body), lexeme: s.subrange(i, j + 1), line: end_line }),
                    j + 1,
                    end_line,
                ),
            )
        }
    } else if digit(c) {
        let j = number_end(s, i);
        let text = s.subrange(i, j);
        Ok((Some(TokenView { kind: Kind::Number(text), lexeme: text, line }), j, line))
    } else if alpha(c) {
        let j = word_end(s, i);
        let w = s.subrange(i, j);
        let kind = match keyword(w) {
            Some(k) => k,
            None => Kind::Identifier(w),
        };
        Ok((Some(TokenView { kind, lexeme: w, line }), j, line))
    } else {
        match punctuation(s, i) {
            Some((kind, n)) => Ok(
                (Some(TokenView { kind, lexeme: s.subrange(i, i + n), line }), i + n, line),
            ),
            None => Err(scan_error(ErrorKind::UnexpectedCharacter, line)),
        }
    }
}

/// A step moves forward, and stays within the text.
pub proof fn lemma_step_advances(s: Seq<char>, i: int, line: nat)
    requires
        0 <= i < s.len(),
    ensures
        step_from(s, i, line) matches Ok((_, j, _)) ==> i < j <= s.len(),
{
    let c = s[i];
    if c == '/' && i + 1 < s.len() && s[i + 1] == '/' {
        lemma_find_from_bounds(s, i + 2, '\n');
    } else if c == '"' {
        lemma_find_from_bounds(s, i + 1, '"');
    } else if digit(c) {
        lemma_number_end_bounds(s, i);
        lemma_digits_end_bounds(s, i + 1);
    } else if alpha(c) {
        lemma_word_end_bounds(s, i + 1);
    }
}

/// The tokens a step makes: none or one.
pub open spec fn made(t: Option<TokenView>) -> Seq<TokenView> {
    match t {
        Some(tv) => seq![tv],
        None => Seq::empty(),
    }
}

/// The tokens of `s` from position `i` on, with `line` the line at `i`.
pub open spec fn scan_from(s: Seq<char>, i: int, line: nat) -> Result<Seq<TokenView>, ErrorView>
    decreases s.len() - i,
{
    if i < 0 || i >= s.len() {
        Ok(seq![TokenView { kind: Kind::EOF, lexeme: Seq::empty(), line }])
    } else {
        proof {
            lemma_step_advances(s, i, line);
        }
        match step_from(s, i, line) {
            Err(e) => Err(e),
            Ok((t, j, l)) => prepend(made(t), scan_from(s, j, l)),
        }
    }
}

/// The tokens of a whole source text, or the first error in it.
pub open spec fn scan_spec(s: Seq<char>) -> Result<Seq<TokenView>, ErrorView> {
    scan_from(s, 0, 1)
}

pub open spec fn tokens_view(ts: Seq<Token>) -> Seq<TokenView> {
    ts.map_values(|t: Token| t@)
}

pub open spec fn scan_result_view(r: Result<Vec<Token>, LoxError>) -> Result<
    Seq<TokenView>,
    ErrorView,
> {
    match r {
        Ok(ts) => Ok(tokens_view(ts@)),
        Err(e) => Err(e@),
    }
}

pub proof fn lemma_emit(ts: Seq<Token>, t: Token, rest: Result<Seq<TokenView>, ErrorView>)
    ensures
        prepend(tokens_view(ts), prepend(seq![t@], rest)) == prepend(tokens_view(ts.push(t)), rest),
{
    assert(tokens_view(ts.push(t)) =~= tokens_view(ts).push(t@));
    if rest is Ok {
        assert(tokens_view(ts) + (seq![t@] + rest->Ok_0) =~= tokens_view(ts).push(t@)
            + rest->Ok_0);
    }
}

proof fn lemma_prepend_made(
    ts: Seq<TokenView>,
    t: Option<TokenView>,
    rest: Result<Seq<TokenView>, ErrorView>,
)
    ensures
        prepend(ts, prepend(made(t), rest)) == prepend(ts + made(t), rest),
{
    if rest is Ok {
        assert(ts + (made(t) + rest->Ok_0) =~= (ts + made(t)) + rest->Ok_0);
    }
}

proof fn lemma_newlines_step(s: Seq<char>, a: int, c: int)
    requires
        0 <= a <= c < s.len(),
    ensures
        newlines(s.subrange(a, c + 1)) == newlines(s.subrange(a, c)) + if s[c] == '\n' {
            1nat
        } else {
            0
        },
{
    assert(s.subrange(a, c + 1).drop_last() =~= s.subrange(a, c));
}

/// The punctuation marks: `( ) { } , . - + ; * / ! = < >`.
pub open spec fn mark(c: char) -> bool {
    c == '(' || c == ')' || c == '{' || c == '}' || c == ',' || c == '.' || c == '-' || c == '+'
        || c == ';' || c == '*' || c == '/' || c == '!' || c == '=' || c == '<' || c == '>'
}

/// Only punctuation marks, and no two of them that scan as one token or
/// open a comment (`!=`, `==`, `<=`, `>=`, `//`).
pub open spec fn separate_marks(s: Seq<char>) -> bool {
    &&& forall|k: int| 0 <= k < s.len() ==> mark(#[trigger] s[k])
    &&& forall|k: int|
        0 <= k < s.len() - 1 ==> !(#[trigger] s[k] == '/' && s[k + 1] == '/') && !((s[k] == '!'
            || s[k] == '=' || s[k] == '<' || s[k] == '>') && s[k + 1] == '=')
}

proof fn lemma_marks_from(s: Seq<char>, i: int)
    requires
        0 <= i <= s.len(),
        separate_marks(s),
    ensures
        scan_from(s, i, 1) is Ok,
        scan_from(s, i, 1)->Ok_0.len() == s.len() - i + 1,
        forall|k: int|
            0 <= k < s.len() - i ==> {
                let t = #[trigger] scan_from(s, i, 1)->Ok_0[k];
                &&& t.lexeme == seq![s[i + k]]
                &&& t.line == 1
                &&& punctuation(s, i + k) == Some((t.kind, 1int))
            },
        scan_from(s, i, 1)->Ok_0[s.len() - i] == (TokenView {
            kind: Kind::EOF,
            lexeme: Seq::empty(),
            line: 1,
        }),
    decreases s.len() - i,
{
    if i < s.len() {
        lemma_marks_from(s, i + 1);
        assert(mark(s[i]));
        if i + 1 < s.len() {
            assert(!(s[i] == '/' && s[i + 1] == '/'));
        }
        let rest = scan_from(s, i + 1, 1)->Ok_0;
        let r = scan_from(s, i, 1)->Ok_0;
        assert(s.subrange(i, i + 1) =~= seq![s[i]]);
        assert forall|k: int| 1 <= k < s.len() - i implies #[trigger] r[k] == rest[k - 1] by {}
        assert(r[s.len() - i] == rest[s.len() - i - 1]);
    }
}

/// A source made only of punctuation marks scans to one token per mark,
/// each on line 1 with the mark as its lexeme and the mark's kind, and then a
/// single `EOF` with an empty lexeme on line 1 (where no two marks make one
/// token or a comment).
pub proof fn lemma_punctuation_only(s: Seq<char>)
    requires
        separate_marks(s),
    ensures
        scan_spec(s) is Ok,
        scan_spec(s)->Ok_0.len() == s.len() + 1,
        forall|k: int|
            0 <= k < s.len() ==> {
                let t = #[trigger] scan_spec(s)->Ok_0[k];
                &&& t.lexeme == seq![s[k]]
                &&& t.line == 1
                &&& punctuation(s, k) == Some((t.kind, 1int))
            },
        scan_spec(s)->Ok_0[s.len() as int] == (TokenView {
            kind: Kind::EOF,
            lexeme: Seq::empty(),
            line: 1,
        }),
        forall|k: int| 0 <= k < s.len() ==> !(#[trigger] scan_spec(s)->Ok_0[k].kind is EOF),
{
    lemma_marks_from(s, 0);
}

/// One `EOF` closes the tokens, none comes before it, and lines never go
/// down from one token to the next.
pub open spec fn well_terminated(ts: Seq<TokenView>) -> bool {
    &&& ts.len() > 0
    &&& ts.last().kind is EOF
    &&& forall|k: int| 0 <= k < ts.len() - 1 ==> !(#[trigger] ts[k].kind is EOF)
    &&& forall|k: int| 0 <= k < ts.len() - 1 ==> #[trigger] ts[k].line <= ts[k + 1].line
}

proof fn lemma_scan_from_shape(s: Seq<char>, i: int, line: nat)
    requires
        0 <= i <= s.len(),
    ensures
        scan_from(s, i, line) is Ok ==> {
            let r = scan_from(s, i, line)->Ok_0;
            &&& well_terminated(r)
            &&& r[0].line >= line
        },
    decreases s.len() - i,
{
    if i < s.len() {
        let c = s[i];
        if c == ' ' || c == '\r' || c == '\t' {
            lemma_scan_from_shape(s, i + 1, line);
        } else if c == '\n' {
            lemma_scan_from_shape(s, i + 1, line + 1);
        } else if c == '/' && i + 1 < s.len() && s[i + 1] == '/' {
            lemma_find_from_bounds(s, i + 2, '\n');
            lemma_scan_from_shape(s, find_from(s, i + 2, '\n'), line);
        } else if c == '"' {
            lemma_find_from_bounds(s, i + 1, '"');
            let j = find_from(s, i + 1, '"');
            if j < s.len() {
                let end_line = line + newlines(s.subrange(i + 1, j));
                lemma_scan_from_shape(s, j + 1, end_line);
                lemma_prepend_shape(scan_from(s, i, line), scan_from(s, j + 1, end_line));
            }
        } else if digit(c) {
            lemma_number_end_bounds(s, i);
            lemma_digits_end_bounds(s, i + 1);
            lemma_scan_from_shape(s, number_end(s, i), line);
            lemma_prepend_shape(scan_from(s, i, line), scan_from(s, number_end(s, i), line));
        } else if alpha(c) {
            lemma_word_end_bounds(s, i + 1);
            lemma_scan_from_shape(s, word_end(s, i), line);
            lemma_prepend_shape(scan_from(s, i, line), scan_from(s, word_end(s, i), line));
        } else if let Some((kind, n)) = punctuation(s, i) {
            lemma_scan_from_shape(s, i + n, line);
            lemma_prepend_shape(scan_from(s, i, line), scan_from(s, i + n, line));
        }
    }
}

/// One token put before a well-terminated rest whose lines start no lower.
proof fn lemma_prepend_shape(
    whole: Result<Seq<TokenView>, ErrorView>,
    rest: Result<Seq<TokenView>, ErrorView>,
)
    requires
        rest is Ok ==> well_terminated(rest->Ok_0),
        whole is Ok ==> rest is Ok && exists|t: TokenView|
            !(t.kind is EOF) && t.line <= rest->Ok_0[0].line && whole->Ok_0 == seq![t]
                + rest->Ok_0,
    ensures
        whole is Ok ==> well_terminated(whole->Ok_0),
{
    if whole is Ok {
        let t = choose|t: TokenView|
            !(t.kind is EOF) && t.line <= rest->Ok_0[0].line && whole->Ok_0 == seq![t]
                + rest->Ok_0;
        let r = rest->Ok_0;
        let w = whole->Ok_0;
        assert forall|k: int| 1 <= k < w.len() implies #[trigger] w[k] == r[k - 1] by {}
        assert forall|k: int| 0 <= k < w.len() - 1 implies #[trigger] w[k].line <= w[k + 1].line by {
            if k > 0 {
                assert(w[k] == r[k - 1]);
                assert(w[k + 1] == r[k]);
            }
        }
        assert forall|k: int| 0 <= k < w.len() - 1 implies !(#[trigger] w[k].kind is EOF) by {
            if k > 0 {
                assert(w[k] == r[k - 1]);
            }
        }
    }
}

/// Every successful scan ends in exactly one `EOF`, its lines never
/// decrease, and the first one is at least 1.
pub proof fn lemma_scan_well_terminated(s: Seq<char>)
    ensures
        scan_spec(s) is Ok ==> well_terminated(scan_spec(s)->Ok_0) && scan_spec(s)->Ok_0[0].line
            >= 1,
{
    lemma_scan_from_shape(s, 0, 1);
}

/// A string whose closing quote never comes fails at the line where the
/// string began, however many lines it runs over.
pub proof fn lemma_unterminated_string(s: Seq<char>, i: int, line: nat)
    requires
        0 <= i < s.len(),
        s[i] == '"',
        forall|k: int| i < k < s.len() ==> #[trigger] s[k] != '"',
    ensures
        scan_from(s, i, line) == Err::<Seq<TokenView>, ErrorView>(
            scan_error(ErrorKind::UnterminatedString, line),
        ),
{
    lemma_find_from_bounds(s, i + 1, '"');
}

/// Characters that begin some token, blank or comment.
pub open spec fn recognized(c: char) -> bool {
    c == ' ' || c == '\r' || c == '\t' || c == '\n' || c == '"' || mark(c) || digit(c) || alpha(c)
}

/// A character that begins nothing (such as `@`) fails at the line it is on.
pub proof fn lemma_unexpected_character(s: Seq<char>, i: int, line: nat)
    requires
        0 <= i < s.len(),
        !recognized(s[i]),
    ensures
        scan_from(s, i, line) == Err::<Seq<TokenView>, ErrorView>(
            scan_error(ErrorKind::UnexpectedCharacter, line),
        ),
{
}

/// No `//` in `a`: nothing in it opens a comment.
pub open spec fn no_comment(a: Seq<char>) -> bool {
    forall|k: int| 0 <= k < a.len() - 1 ==> !(#[trigger] a[k] == '/' && a[k + 1] == '/')
}

/// A character that cannot continue a token before it.
pub open spec fn inert(c: char) -> bool {
    !digit(c) && !alpha(c) && c != '=' && c != '/' && c != '.'
}

proof fn lemma_find_from_prefix(a: Seq<char>, s: Seq<char>, i: int, stop: char)
    requires
        a.len() < s.len(),
        forall|k: int| 0 <= k < a.len() ==> s[k] == a[k],
        0 <= i <= a.len(),
        find_from(a, i, stop) < a.len(),
    ensures
        find_from(s, i, stop) == find_from(a, i, stop),
    decreases a.len() - i,
{
    if i < a.len() && a[i] != stop {
        lemma_find_from_prefix(a, s, i + 1, stop);
    }
}

proof fn lemma_digits_end_prefix(a: Seq<char>, s: Seq<char>, i: int)
    requires
        a.len() < s.len(),
        forall|k: int| 0 <= k < a.len() ==> s[k] == a[k],
        !digit(s[a.len() as int]),
        0 <= i <= a.len(),
    ensures
        digits_end(s, i) == digits_end(a, i),
    decreases a.len() - i,
{
    if i < a.len() && digit(a[i]) {
        lemma_digits_end_prefix(a, s, i + 1);
    }
}

proof fn lemma_word_end_prefix(a: Seq<char>, s: Seq<char>, i: int)
    requires
        a.len() < s.len(),
        forall|k: int| 0 <= k < a.len() ==> s[k] == a[k],
        !alpha_numeric(s[a.len() as int]),
        0 <= i <= a.len(),
    ensures
        word_end(s, i) == word_end(a, i),
    decreases a.len() - i,
{
    if i < a.len() && alpha_numeric(a[i]) {
        lemma_word_end_prefix(a, s, i + 1);
    }
}

/// A step inside `a` is the same step inside any `s` that continues `a` with
/// an inert character.
proof fn lemma_step_prefix(a: Seq<char>, s: Seq<char>, i: int, line: nat)
    requires
        a.len() < s.len(),
        forall|k: int| 0 <= k < a.len() ==> s[k] == a[k],
        inert(s[a.len() as int]),
        no_comment(a),
        0 <= i < a.len(),
        step_from(a, i, line) is Ok,
    ensures
        step_from(s, i, line) == step_from(a, i, line),
{
    let c = a[i];
    assert(s[i] == c);
    if i + 1 < a.len() {
        assert(s[i + 1] == a[i + 1]);
    }
    if c == '"' {
        lemma_find_from_bounds(a, i + 1, '"');
        lemma_find_from_prefix(a, s, i + 1, '"');
        let j = find_from(a, i + 1, '"');
        assert(s.subrange(i + 1, j) =~= a.subrange(i + 1, j));
        assert(s.subrange(i, j + 1) =~= a.subrange(i, j + 1));
    } else if digit(c) {
        lemma_digits_end_prefix(a, s, i);
        lemma_digits_end_bounds(a, i);
        let j = digits_end(a, i);
        if j + 1 < a.len() {
            assert(s[j] == a[j] && s[j + 1] == a[j + 1]);
            lemma_digits_end_prefix(a, s, j + 1);
        } else if j + 1 == a.len() {
            assert(s[j] == a[j]);
        }
        lemma_number_end_bounds(a, i);
        let e = number_end(a, i);
        assert(s.subrange(i, e) =~= a.subrange(i, e));
    } else if alpha(c) {
        lemma_word_end_prefix(a, s, i);
        lemma_word_end_bounds(a, i);
        let j = word_end(a, i);
        assert(s.subrange(i, j) =~= a.subrange(i, j));
    } else if !(c == ' ' || c == '\r' || c == '\t' || c == '\n') {
        if let Some((kind, n)) = punctuation(a, i) {
            assert(s.subrange(i, i + n) =~= a.subrange(i, i + n));
        }
    }
}

/// Scanning `s` from a position in `a` reaches the end of `a`, where it
/// fails, on the line where scanning `a` ends.
proof fn lemma_fails_after_prefix(a: Seq<char>, s: Seq<char>, i: int, line: nat)
    requires
        a.len() < s.len(),
        forall|k: int| 0 <= k < a.len() ==> s[k] == a[k],
        inert(s[a.len() as int]),
        no_comment(a),
        0 <= i <= a.len(),
        scan_from(a, i, line) is Ok,
        forall|l: nat| #[trigger] scan_from(s, a.len() as int, l) is Err,
    ensures
        scan_from(s, i, line) == scan_from(s, a.len() as int, scan_from(a, i, line)->Ok_0.last().line),
    decreases a.len() - i,
{
    if i < a.len() {
        lemma_step_advances(a, i, line);
        lemma_step_prefix(a, s, i, line);
        let (t, j, l) = step_from(a, i, line)->Ok_0;
        lemma_fails_after_prefix(a, s, j, l);
        let rest = scan_from(a, j, l)->Ok_0;
        assert(rest.len() > 0) by {
            lemma_scan_from_shape(a, j, l);
        }
        assert((made(t) + rest).last() == rest.last());
        assert(scan_from(s, j, l) is Err);
    }
}

proof fn lemma_newlines_none(x: Seq<char>)
    requires
        forall|k: int| 0 <= k < x.len() ==> #[trigger] x[k] != '\n',
    ensures
        newlines(x) == 0,
    decreases x.len(),
{
    if x.len() > 0 {
        lemma_newlines_none(x.drop_last());
    }
}

proof fn lemma_newlines_split(x: Seq<char>, y: Seq<char>)
    ensures
        newlines(x + y) == newlines(x) + newlines(y),
    decreases y.len(),
{
    if y.len() > 0 {
        lemma_newlines_split(x, y.drop_last());
        assert((x + y).drop_last() =~= x + y.drop_last());
    } else {
        assert(x + y =~= x);
    }
}

/// A step's line is the line before it plus the newlines it passes over.
proof fn lemma_step_lines(a: Seq<char>, i: int, line: nat)
    requires
        0 <= i < a.len(),
        step_from(a, i, line) is Ok,
    ensures
        step_from(a, i, line)->Ok_0.2 == line + newlines(
            a.subrange(i, step_from(a, i, line)->Ok_0.1),
        ),
{
    lemma_step_advances(a, i, line);
    let c = a[i];
    let j = step_from(a, i, line)->Ok_0.1;
    if c == '\n' {
        assert(a.subrange(i, j).drop_last() =~= Seq::<char>::empty());
        assert(newlines(Seq::<char>::empty()) == 0);
        assert(a.subrange(i, j).last() == '\n');
        assert(newlines(a.subrange(i, j)) == 1);
    } else if c == '"' {
        lemma_find_from_bounds(a, i + 1, '"');
        let body = a.subrange(i + 1, j - 1);
        assert(a.subrange(i, j) =~= seq!['"'] + body + seq!['"']);
        lemma_newlines_split(seq!['"'] + body, seq!['"']);
        lemma_newlines_split(seq!['"'], body);
        lemma_newlines_none(seq!['"']);
        assert(body =~= a.subrange(i + 1, find_from(a, i + 1, '"')));
    } else if c == '/' && i + 1 < a.len() && a[i + 1] == '/' {
        lemma_find_from_bounds(a, i + 2, '\n');
        lemma_newlines_none(a.subrange(i, j));
    } else if digit(c) {
        lemma_number_end_bounds(a, i);
        lemma_digits_end_bounds(a, i);
        let d = digits_end(a, i);
        if d + 1 < a.len() && a[d] == '.' && digit(a[d + 1]) {
            lemma_digits_end_bounds(a, d + 1);
        }
        assert forall|k: int| 0 <= k < j - i implies #[trigger] a.subrange(i, j)[k] != '\n' by {
            assert(a.subrange(i, j)[k] == a[i + k]);
        }
        lemma_newlines_none(a.subrange(i, j));
    } else if alpha(c) {
        lemma_word_end_bounds(a, i);
        assert forall|k: int| 0 <= k < j - i implies #[trigger] a.subrange(i, j)[k] != '\n' by {
            assert(a.subrange(i, j)[k] == a[i + k]);
        }
        lemma_newlines_none(a.subrange(i, j));
    } else {
        assert forall|k: int| 0 <= k < j - i implies #[trigger] a.subrange(i, j)[k] != '\n' by {
            assert(a.subrange(i, j)[k] == a[i + k]);
        }
        lemma_newlines_none(a.subrange(i, j));
    }
}

proof fn lemma_end_line_from(a: Seq<char>, i: int, line: nat)
    requires
        0 <= i <= a.len(),
        scan_from(a, i, line) is Ok,
    ensures
        scan_from(a, i, line)->Ok_0.last().line == line + newlines(a.subrange(i, a.len() as int)),
    decreases a.len() - i,
{
    if i < a.len() {
        lemma_step_advances(a, i, line);
        lemma_step_lines(a, i, line);
        let (t, j, l) = step_from(a, i, line)->Ok_0;
        lemma_end_line_from(a, j, l);
        lemma_scan_from_shape(a, j, l);
        let rest = scan_from(a, j, l)->Ok_0;
        assert((made(t) + rest).last() == rest.last());
        assert(a.subrange(i, a.len() as int) =~= a.subrange(i, j) + a.subrange(j, a.len() as int));
        lemma_newlines_split(a.subrange(i, j), a.subrange(j, a.len() as int));
    } else {
        assert(a.subrange(i, a.len() as int) =~= Seq::<char>::empty());
    }
}

/// When a text scans, its scan ends on line 1 plus the number of newlines in it.
pub proof fn lemma_end_line(a: Seq<char>)
    requires
        scan_spec(a) is Ok,
    ensures
        scan_spec(a)->Ok_0.last().line == 1 + newlines(a),
{
    lemma_end_line_from(a, 0, 1);
    assert(a.subrange(0, a.len() as int) =~= a);
}

/// A string that never closes, after text that scans, fails at the line
/// the string began on (1 plus the newlines before it), however many lines
/// the rest runs over.
pub proof fn lemma_unterminated_after(a: Seq<char>, b: Seq<char>)
    requires
        scan_spec(a) is Ok,
        no_comment(a),
        forall|k: int| 0 <= k < b.len() ==> #[trigger] b[k] != '"',
    ensures
        scan_spec(a + seq!['"'] + b) == Err::<Seq<TokenView>, ErrorView>(
            scan_error(ErrorKind::UnterminatedString, 1 + newlines(a)),
        ),
{
    lemma_end_line(a);
    let s = a + seq!['"'] + b;
    assert forall|k: int| 0 <= k < a.len() implies s[k] == a[k] by {}
    assert(s[a.len() as int] == '"');
    assert forall|l: nat| #[trigger] scan_from(s, a.len() as int, l) is Err by {
        assert forall|k: int| a.len() < k < s.len() implies #[trigger] s[k] != '"' by {
            assert(s[k] == b[k - a.len() - 1]);
        }
        lemma_unterminated_string(s, a.len() as int, l);
    }
    lemma_fails_after_prefix(a, s, 0, 1);
    assert forall|k: int| a.len() < k < s.len() implies #[trigger] s[k] != '"' by {
        assert(s[k] == b[k - a.len() - 1]);
    }
    lemma_unterminated_string(s, a.len() as int, scan_spec(a)->Ok_0.last().line);
}

/// A character that begins nothing (such as `@`), after text that scans,
/// fails at its own line (1 plus the newlines before it), whatever follows.
pub proof fn lemma_unexpected_after(a: Seq<char>, c: char, b: Seq<char>)
    requires
        scan_spec(a) is Ok,
        no_comment(a),
        !recognized(c),
    ensures
        scan_spec(a + seq![c] + b) == Err::<Seq<TokenView>, ErrorView>(
            scan_error(ErrorKind::UnexpectedCharacter, 1 + newlines(a)),
        ),
{
    lemma_end_line(a);
    let s = a + seq![c] + b;
    assert forall|k: int| 0 <= k < a.len() implies s[k] == a[k] by {}
    assert(s[a.len() as int] == c);
    assert forall|l: nat| #[trigger] scan_from(s, a.len() as int, l) is Err by {
        lemma_unexpected_character(s, a.len() as int, l);
    }
    lemma_fails_after_prefix(a, s, 0, 1);
    lemma_unexpected_character(s, a.len() as int, scan_spec(a)->Ok_0.last().line);
}

/// Turns source text into tokens, one call per text.
pub struct Scanner {
    source: String,
    chars: Vec<char>,
    tokens: Vec<Token>,
    start: usize,
    current: usize,
    line: usize,
}

impl Scanner {
    pub closed spec fn source(&self) -> Seq<char> {
        self.source@
    }

    /// What is left to scan: the tokens found so far, then those from the cursor on.
    pub closed spec fn outcome(&self) -> Result<Seq<TokenView>, ErrorView> {
        prepend(tokens_view(self.tokens@), scan_from(self.source@, self.current as int, self.line as nat))
    }

    pub closed spec fn wf(&self) -> bool {
        &&& self.chars@ == self.source@
        &&& self.chars@.len() < usize::MAX
        &&& self.current <= self.chars@.len()
        &&& self.start <= self.current
        &&& 1 <= self.line <= self.current + 1
    }

    pub fn new(source: &str) -> (r: Self)
        requires
            source@.len() < usize::MAX,
        ensures
            r.wf(),
            r.source() == source@,
            r.outcome() == scan_spec(source@),
    {
        let len = source.unicode_len();
        let mut chars: Vec<char> = Vec::new();
        let mut i: usize = 0;
        while i < len
            invariant
                len == source@.len(),
                i <= len,
                chars@ == source@.take(i as int),
            decreases len - i,
        {
            chars.push(source.get_char(i));
            i = i + 1;
            proof {
                assert(chars@ =~= source@.take(i as int));
            }
        }
        proof {
            assert(chars@ =~= source@);
            assert(tokens_view(Seq::<Token>::empty()) =~= Seq::empty());
            assert(Seq::<TokenView>::empty() + scan_spec(source@)->Ok_0 =~= scan_spec(
                source@,
            )->Ok_0);
        }
        Scanner {
            source: String::from_str(source),
            chars,
            tokens: Vec::new(),
            start: 0,
            current: 0,
            line: 1,
        }
    }

    fn is_at_end(&self) -> (r: bool)
        requires
            self.wf(),
        ensures
            r == (self.current >= self.chars@.len()),
    {
        self.current >= self.chars.len()
    }

    fn peek(&self) -> (r: char)
        requires
            self.wf(),
        ensures
            self.current < self.chars@.len() ==> r == self.chars@[self.current as int],
            self.current >= self.chars@.len() ==> r == '\0',
    {
        if self.is_at_end() {
            '\0'
        } else {
            self.chars[self.current]
        }
    }

    fn peek_next(&self) -> (r: char)
        requires
            self.wf(),
        ensures
            self.current + 1 < self.chars@.len() ==> r == self.chars@[self.current + 1],
            self.current + 1 >= self.chars@.len() ==> r == '\0',
    {
        if self.current + 1 >= self.chars.len() {
            '\0'
        } else {
            self.chars[self.current + 1]
        }
    }

    fn advance(&mut self) -> (r: char)
        requires
            old(self).wf(),
            old(self).current < old(self).chars@.len(),
        ensures
            final(self).wf(),
            r == old(self).chars@[old(self).current as int],
            final(self).current == old(self).current + 1,
            final(self).line == old(self).line,
            final(self).start == old(self).start,
            final(self).chars == old(self).chars,
            final(self).source == old(self).source,
            final(self).tokens == old(self).tokens,
    {
        let c = self.chars[self.current];
        self.current = self.current + 1;
        c
    }

    /// Consumes the next character when it is `expected`.
    fn match_(&mut self, expected: char) -> (r: bool)
        requires
            old(self).wf(),
        ensures
            final(self).wf(),
            r == (old(self).current < old(self).chars@.len() && old(self).chars@[old(
                self,
            ).current as int] == expected),
            final(self).current == old(self).current + if r {
                1usize
            } else {
                0
            },
            final(self).line == old(self).line,
            final(self).start == old(self).start,
            final(self).chars == old(self).chars,
            final(self).source == old(self).source,
            final(self).tokens == old(self).tokens,
    {
        if self.is_at_end() {
            return false;
        }
        if self.chars[self.current] != expected {
            return false;
        }
        self.current = self.current + 1;
        true
    }

    /// The source text between the lexeme start and the cursor.
    fn lexeme(&self, from: usize, to: usize) -> (r: String)
        requires
            self.wf(),
            from <= to <= self.chars@.len(),
        ensures
            r@ == self.source@.subrange(from as int, to as int),
    {
        String::from_str(self.source.as_str().substring_char(from, to))
    }

    fn add_token(&mut self, ty: TokenType)
        requires
            old(self).wf(),
        ensures
            final(self).wf(),
            final(self).tokens@ == old(self).tokens@.push(
                Token {
                    ty,
                    lexeme: final(self).tokens@.last().lexeme,
                    line: old(self).line,
                },
            ),
            final(self).tokens@.last().lexeme@ == old(self).source@.subrange(
                old(self).start as int,
                old(self).current as int,
            ),
            final(self).current == old(self).current,
            final(self).line == old(self).line,
            final(self).start == old(self).start,
            final(self).chars == old(self).chars,
            final(self).source == old(self).source,
    {
        let text = self.lexeme(self.start, self.current);
        self.tokens.push(Token::new(ty, text, self.line));
    }

    /// Consumes the whole source: the tokens with a closing `EOF`, or the first error.
    pub fn scan_tokens(self) -> (r: Result<Vec<Token>, LoxError>)
        requires
            self.wf(),
        ensures
            scan_result_view(r) == self.outcome(),
    {
        let mut scanner = self;
        let ghost out = scanner.outcome();
        while !scanner.is_at_end()
            invariant
                scanner.wf(),
                scanner.outcome() == out,
                out == self.outcome(),
            decreases scanner.chars@.len() - scanner.current,
        {
            scanner.start = scanner.current;
            let ghost before = scanner;
            match scanner.scan_token() {
                Ok(()) => {
                    proof {
                        lemma_step_advances(before.source@, before.current as int, before.line as nat);
                        lemma_prepend_made(
                            tokens_view(before.tokens@),
                            step_from(before.source@, before.current as int, before.line as nat)->Ok_0.0,
                            scan_from(scanner.source@, scanner.current as int, scanner.line as nat),
                        );
                    }
                },
                Err(e) => {
                    return Err(e);
                },
            }
        }
        let eof = Token::new(TokenType::EOF, String::new(), scanner.line);
        proof {
            assert(eof@.lexeme =~= Seq::<char>::empty());
            lemma_emit(scanner.tokens@, eof, Ok(Seq::empty()));
            assert(seq![eof@] + Seq::<TokenView>::empty() =~= seq![eof@]);
        }
        scanner.tokens.push(eof);
        proof {
            assert(tokens_view(scanner.tokens@) + Seq::<TokenView>::empty() =~= tokens_view(
                scanner.tokens@,
            ));
        }
        Ok(scanner.tokens)
    }

    /// Scans one lexeme from the cursor: adds its token, or skips it when it
    /// is blank or a comment, exactly as one step of the lexical grammar says.
    fn scan_token(&mut self) -> (r: Result<(), LoxError>)
        requires
            old(self).wf(),
            old(self).start == old(self).current,
            old(self).current < old(self).chars@.len(),
        ensures
            final(self).source == old(self).source,
            final(self).chars == old(self).chars,
            match step_from(old(self).source@, old(self).current as int, old(self).line as nat) {
                Ok((t, j, l)) => {
                    &&& r is Ok
                    &&& final(self).wf()
                    &&& final(self).current == j
                    &&& final(self).line == l
                    &&& tokens_view(final(self).tokens@) == tokens_view(old(self).tokens@) + made(t)
                },
                Err(e) => r is Err && r->Err_0@ == e,
            },
    {
        let ghost s = self.source@;
        let ghost i = self.current as int;
        let ghost line = self.line as nat;
        let ghost ts = self.tokens@;
        let c = self.advance();
        let ty = match c {
            '(' => TokenType::LeftParen,
            ')' => TokenType::RightParen,
            '{' => TokenType::LeftBrace,
            '}' => TokenType::RightBrace,
            ',' => TokenType::Comma,
            '.' => TokenType::Dot,
            '-' => TokenType::Minus,
            '+' => TokenType::Plus,
            ';' => TokenType::Semicolon,
            '*' => TokenType::Star,
            '!' => {
                if self.match_('=') {
                    TokenType::BangEqual
                } else {
                    TokenType::Bang
                }
            },
            '=' => {
                if self.match_('=') {
                    TokenType::EqualEqual
                } else {
                    TokenType::Equal
                }
            },
            '<' => {
                if self.match_('=') {
                    TokenType::LessEqual
                } else {
                    TokenType::Less
                }
            },
            '>' => {
                if self.match_('=') {
                    TokenType::GreaterEqual
                } else {
                    TokenType::Greater
                }
            },
            '/' => {
                if self.match_('/') {
                    // A comment goes until the end of the line.
                    proof {
                        lemma_find_from_bounds(s, i + 2, '\n');
                    }
                    while self.peek() != '\n' && !self.is_at_end()
                        invariant
                            self.wf(),
                            self.source == old(self).source,
                            self.chars == old(self).chars,
                            self.tokens == old(self).tokens,
                            self.line == old(self).line,
                            s == self.source@,
                            0 <= i,
                            i + 2 <= self.current,
                            find_from(s, i + 2, '\n') == find_from(s, self.current as int, '\n'),
                        decreases s.len() - self.current,
                    {
                        self.advance();
                    }
                    assert(tokens_view(ts) + Seq::<TokenView>::empty() =~= tokens_view(ts));
                    return Ok(());
                } else {
                    TokenType::Slash
                }
            },
            ' ' | '\r' | '\t' => {
                assert(tokens_view(ts) + Seq::<TokenView>::empty() =~= tokens_view(ts));
                return Ok(());
            },
            '\n' => {
                self.line = self.line + 1;
                assert(tokens_view(ts) + Seq::<TokenView>::empty() =~= tokens_view(ts));
                return Ok(());
            },
            '"' => {
                proof {
                    lemma_find_from_bounds(s, i + 1, '"');
                }
                match self.string() {
                    Ok(text) => TokenType::String(text),
                    Err(e) => {
                        return Err(e);
                    },
                }
            },
            _ => {
                if Self::is_digit(c) {
                    proof {
                        lemma_number_end_bounds(s, i);
                        lemma_digits_end_bounds(s, i + 1);
                    }
                    TokenType::Number(self.number())
                } else if Self::is_alpha(c) {
                    proof {
                        lemma_word_end_bounds(s, i + 1);
                    }
                    self.identifier()
                } else {
                    let e = LoxError::new(ErrorKind::UnexpectedCharacter, self.line, "Unexpected character.");
                    return Err(e);
                }
            },
        };
        self.add_token(ty);
        proof {
            let t = self.tokens@.last();
            assert(self.tokens@ == ts.push(t));
            assert(tokens_view(ts.push(t)) =~= tokens_view(ts) + seq![t@]);
        }
        Ok(())
    }

    fn is_digit(c: char) -> (r: bool)
        ensures
            r == digit(c),
    {
        '0' <= c && c <= '9'
    }

    fn is_alpha(c: char) -> (r: bool)
        ensures
            r == alpha(c),
    {
        ('a' <= c && c <= 'z') || ('A' <= c && c <= 'Z') || c == '_'
    }

    fn is_alpha_numeric(c: char) -> (r: bool)
        ensures
            r == alpha_numeric(c),
    {
        Self::is_alpha(c) || Self::is_digit(c)
    }

    /// The rest of a string literal, after its opening quote.
    fn string(&mut self) -> (r: Result<String, LoxError>)
        requires
            old(self).wf(),
            old(self).current == old(self).start + 1,
            old(self).line <= old(self).current,
        ensures
            final(self).wf(),
            final(self).source == old(self).source,
            final(self).chars == old(self).chars,
            final(self).tokens == old(self).tokens,
            final(self).start == old(self).start,
            ({
                let s = old(self).source@;
                let j = find_from(s, old(self).current as int, '"');
                match r {
                    Ok(v) => {
                        &&& j < s.len()
                        &&& v@ == s.subrange(old(self).current as int, j)
                        &&& final(self).current == j + 1
                        &&& final(self).line == old(self).line + newlines(
                            s.subrange(old(self).current as int, j),
                        )
                    },
                    Err(e) => j >= s.len() && e@ == scan_error(
                        ErrorKind::UnterminatedString,
                        old(self).line as nat,
                    ),
                }
            }),
    {
        let ghost s = self.source@;
        let ghost from = self.current as int;
        let start_line = self.line;
        proof {
            lemma_find_from_bounds(s, from, '"');
            assert(s.subrange(from, from) =~= Seq::<char>::empty());
        }
        while self.peek() != '"' && !self.is_at_end()
            invariant
                self.wf(),
                self.source == old(self).source,
                self.source@ == s,
                self.chars == old(self).chars,
                self.tokens == old(self).tokens,
                self.start == old(self).start,
                0 <= from <= self.current,
                self.line <= self.current,
                find_from(s, from, '"') == find_from(s, self.current as int, '"'),
                self.line == start_line + newlines(s.subrange(from, self.current as int)),
            decreases s.len() - self.current,
        {
            proof {
                lemma_newlines_step(s, from, self.current as int);
            }
            if self.peek() == '\n' {
                self.line = self.line + 1;
            }
            self.advance();
        }
        if self.is_at_end() {
            return Err(LoxError::new(ErrorKind::UnterminatedString, start_line, "Unterminated string."));
        }
        let end = self.current;
        self.advance();
        Ok(self.lexeme(self.start + 1, end))
    }

    /// The rest of a number literal, after its first digit.
    fn number(&mut self) -> (r: Number)
        requires
            old(self).wf(),
            old(self).current == old(self).start + 1,
            digit(old(self).chars@[old(self).start as int]),
        ensures
            final(self).wf(),
            final(self).source == old(self).source,
            final(self).chars == old(self).chars,
            final(self).tokens == old(self).tokens,
            final(self).start == old(self).start,
            final(self).line == old(self).line,
            final(self).current == number_end(old(self).source@, old(self).start as int),
            r@ == old(self).source@.subrange(old(self).start as int, final(self).current as int),
    {
        let ghost s = self.source@;
        let ghost st = self.start as int;
        while Self::is_digit(self.peek())
            invariant
                self.wf(),
                self.source == old(self).source,
                self.source@ == s,
                self.chars == old(self).chars,
                self.tokens == old(self).tokens,
                self.start == old(self).start,
                self.line == old(self).line,
                st < self.current,
                digits_end(s, st) == digits_end(s, self.current as int),
            decreases s.len() - self.current,
        {
            self.advance();
        }
        if self.peek() == '.' && Self::is_digit(self.peek_next()) {
            self.advance();
            proof {
                assert(digits_end(s, self.current as int) == digits_end(s, self.current + 1));
            }
            while Self::is_digit(self.peek())
                invariant
                    self.wf(),
                    self.source == old(self).source,
                self.source@ == s,
                    self.chars == old(self).chars,
                    self.tokens == old(self).tokens,
                    self.start == old(self).start,
                    self.line == old(self).line,
                    st < self.current,
                    number_end(s, st) == digits_end(s, self.current as int),
                decreases s.len() - self.current,
            {
                self.advance();
            }
        }
        Number::from_lexeme(self.lexeme(self.start, self.current))
    }

    /// The rest of an identifier or keyword, after its first character.
    fn identifier(&mut self) -> (r: TokenType)
        requires
            old(self).wf(),
            old(self).current == old(self).start + 1,
            alpha(old(self).chars@[old(self).start as int]),
        ensures
            final(self).wf(),
            final(self).source == old(self).source,
            final(self).chars == old(self).chars,
            final(self).tokens == old(self).tokens,
            final(self).start == old(self).start,
            final(self).line == old(self).line,
            final(self).current == word_end(old(self).source@, old(self).start as int),
            ({
                let w = old(self).source@.subrange(old(self).start as int, final(self).current as int);
                r@ == match keyword(w) {
                    Some(k) => k,
                    None => Kind::Identifier(w),
                }
            }),
    {
        let ghost s = self.source@;
        let ghost st = self.start as int;
        while Self::is_alpha_numeric(self.peek())
            invariant
                self.wf(),
                self.source == old(self).source,
                self.source@ == s,
                self.chars == old(self).chars,
                self.tokens == old(self).tokens,
                self.start == old(self).start,
                self.line == old(self).line,
                st < self.current,
                word_end(s, st) == word_end(s, self.current as int),
            decreases s.len() - self.current,
        {
            self.advance();
        }
        let text = self.lexeme(self.start, self.current);
        match keyword_type(&text) {
            Some(ty) => ty,
            None => TokenType::Identifier(text),
        }
    }
}

/// Scans a whole source text: its tokens, closed by `EOF`, or its first error.
pub fn scan(source: &str) -> (r: Result<Vec<Token>, LoxError>)
    requires
        source@.len() < usize::MAX,
    ensures
        scan_result_view(r) == scan_spec(source@),
{
    let scanner = Scanner::new(source);
    scanner.scan_tokens()
}

/// The keyword token for a reserved word.
fn keyword_type(text: &String) -> (r: Option<TokenType>)
    ensures
        match r {
            Some(t) => keyword(text@) == Some(t@),
            None => keyword(text@) is None,
        },
{
    if text.eq(&String::from_str("and")) {
        Some(TokenType::And)
    } else if text.eq(&String::from_str("or")) {
        Some(TokenType::Or)
    } else if text.eq(&String::from_str("true")) {
        Some(TokenType::True)
    } else if text.eq(&String::from_str("false")) {
        Some(TokenType::False)
    } else if text.eq(&String::from_str("class")) {
        Some(TokenType::Class)
    } else if text.eq(&String::from_str("super")) {
        Some(TokenType::Super)
    } else if text.eq(&String::from_str("this")) {
        Some(TokenType::This)
    } else if text.eq(&String::from_str("var")) {
        Some(TokenType::Var)
    } else if text.eq(&String::from_str("fun")) {
        Some(TokenType::Fun)
    } else if text.eq(&String::from_str("return")) {
        Some(TokenType::Return)
    } else if text.eq(&String::from_str("if")) {
        Some(TokenType::If)
    } else if text.eq(&String::from_str("else")) {
        Some(TokenType::Else)
    } else if text.eq(&String::from_str("while")) {
        Some(TokenType::While)
    } else if text.eq(&String::from_str("for")) {
        Some(TokenType::For)
    } else if text.eq(&String::from_str("print")) {
        Some(TokenType::Print)
    } else {
        None
    }
}

} // verus!
