//! Glob patterns for link targets.
//!
//! A pattern is matched against a whole path. `?` stands for one
//! character and `*` for any run of characters, neither of them for a
//! separator; `[...]` stands for one character out of a set, which may
//! hold ranges such as `a-z` and is negated by a leading `!`. Every other
//! character stands for itself. A `[` that is never closed makes the
//! pattern malformed.

use vstd::prelude::*;
use vstd::string::StringExecFns;
use crate::error::{Error, ErrorKind, ErrorView};
use crate::text::chars_of;

verus! {

/// One unit of a pattern.
#[derive(Clone, Debug, PartialEq, Eq)]
pub enum Token {
    /// This character.
    Literal(char),
    /// Any one character but a separator.
    AnyChar,
    /// Any run of characters without a separator, the empty one too.
    AnyRun,
    /// One character but a separator that lies in one of the inclusive
    /// ranges, or in none of them where `negated`.
    Class { negated: bool, ranges: Vec<(char, char)> },
}

/// A `Token` as mathematical values, over characters of type `C`.
pub enum TokenView<C> {
    Literal(C),
    AnyChar,
    AnyRun,
    Class { negated: bool, ranges: Seq<(C, C)> },
}

impl DeepView for Token {
    type V = TokenView<char>;

    open spec fn deep_view(&self) -> TokenView<char> {
        match *self {
            Token::Literal(c) => TokenView::Literal(c),
            Token::AnyChar => TokenView::AnyChar,
            Token::AnyRun => TokenView::AnyRun,
            Token::Class { negated, ranges } => TokenView::Class { negated, ranges: ranges@ },
        }
    }
}

impl View for Token {
    type V = TokenView<char>;

    open spec fn view(&self) -> TokenView<char> {
        self.deep_view()
    }
}

/// Whether `path` is a pattern rather than a plain path: it holds one of
/// `*`, `?` and `[`.
pub open spec fn spec_is_glob(path: Seq<char>) -> bool {
    exists|i: int| 0 <= i < path.len() && is_meta(#[trigger] path[i])
}

/// Whether `c` is one of the characters that make a pattern.
pub open spec fn is_meta(c: char) -> bool {
    c == '*' || c == '?' || c == '['
}

/// Whether the character at index `i` of `p` starts a range `a-z`: a dash
/// follows, and after the dash a character that does not close the set.
pub open spec fn starts_range(p: Seq<char>, i: int) -> bool {
    i + 2 < p.len() && p[i + 1] == '-' && p[i + 2] != ']'
}

/// The members of a set whose text starts at index `i` of `p`, after the
/// members `acc` that were read before; with them the index after the
/// closing `]`. `None` where the set is never closed.
pub open spec fn class_from(p: Seq<char>, i: int, acc: Seq<(char, char)>) -> Option<
    (Seq<(char, char)>, int),
>
    decreases p.len() - i,
{
    if i < 0 || i >= p.len() {
        None
    } else if p[i] == ']' {
        Some((acc, i + 1))
    } else if starts_range(p, i) {
        class_from(p, i + 3, acc.push((p[i], p[i + 2])))
    } else {
        class_from(p, i + 1, acc.push((p[i], p[i])))
    }
}

/// The tokens of the pattern `p` from index `i` on, after the tokens
/// `acc` that were read before. `None` where a set is never closed.
pub open spec fn tokens_from(p: Seq<char>, i: int, acc: Seq<TokenView<char>>) -> Option<Seq<TokenView<char>>>
    decreases p.len() - i,
{
    if i < 0 || i >= p.len() {
        Some(acc)
    } else if p[i] == '*' {
        tokens_from(p, i + 1, acc.push(TokenView::AnyRun))
    } else if p[i] == '?' {
        tokens_from(p, i + 1, acc.push(TokenView::AnyChar))
    } else if p[i] == '[' {
        let negated = i + 1 < p.len() && p[i + 1] == '!';
        let start = if negated {
            i + 2
        } else {
            i + 1
        };
        match class_from(p, start, Seq::empty()) {
            Some((ranges, next)) => if i < next <= p.len() {
                tokens_from(p, next, acc.push(TokenView::Class { negated, ranges }))
            } else {
                None
            },
            None => None,
        }
    } else {
        tokens_from(p, i + 1, acc.push(TokenView::Literal(p[i])))
    }
}

/// The tokens of the pattern `p`; `None` where it is malformed.
pub open spec fn spec_tokens(p: Seq<char>) -> Option<Seq<TokenView<char>>> {
    tokens_from(p, 0, Seq::empty())
}

/// The error for a malformed pattern.
pub open spec fn malformed(pattern: Seq<char>) -> ErrorView {
    ErrorView {
        kind: ErrorKind::Pattern,
        ctx: "invalid pattern "@ + pattern + ": a set is opened by [ and never closed"@,
    }
}

/// Whether `path` is a pattern rather than a plain path.
pub fn is_glob(path: &str) -> (b: bool)
    ensures
        b == spec_is_glob(path@),
{
    let chars = chars_of(path);
    let mut i: usize = 0;
    while i < chars.len()
        invariant
            i <= chars.len(),
            chars@ == path@,
            forall|k: int| 0 <= k < i ==> !is_meta(#[trigger] path@[k]),
        decreases chars.len() - i,
    {
        let c = chars[i];
        if c == '*' || c == '?' || c == '[' {
            assert(is_meta(path@[i as int]));
            return true;
        }
        i = i + 1;
    }
    false
}

/// Reads the members of a set from index `start` of `p` on.
fn read_class(p: &Vec<char>, start: usize) -> (r: Option<(Vec<(char, char)>, usize)>)
    ensures
        match r {
            Some((ranges, next)) => class_from(p@, start as int, Seq::empty()) == Some(
                (ranges@, next as int),
            ) && start < next <= p.len(),
            None => class_from(p@, start as int, Seq::empty()) is None,
        },
{
    let n = p.len();
    let mut ranges: Vec<(char, char)> = Vec::new();
    let mut i: usize = start;
    while i < n
        invariant
            start <= i,
            n == p.len(),
            class_from(p@, i as int, ranges@) == class_from(p@, start as int, Seq::empty()),
        decreases n - i,
    {
        if p[i] == ']' {
            return Some((ranges, i + 1));
        }
        if n - i > 2 && p[i + 1] == '-' && p[i + 2] != ']' {
            ranges.push((p[i], p[i + 2]));
            i = i + 3;
        } else {
            ranges.push((p[i], p[i]));
            i = i + 1;
        }
    }
    None
}

fn push_token(tokens: &mut Vec<Token>, token: Token)
    ensures
        final(tokens).deep_view() == old(tokens).deep_view().push(token.deep_view()),
{
    tokens.push(token);
    assert(tokens.deep_view() =~= old(tokens).deep_view().push(token.deep_view()));
}

/// Reads the tokens of the pattern `pattern`; a malformed pattern is a
/// pattern error.
pub fn tokens(pattern: &str) -> (r: Result<Vec<Token>, Error>)
    ensures
        match r {
            Ok(tokens) => spec_tokens(pattern@) == Some(tokens.deep_view()),
            Err(e) => spec_tokens(pattern@) is None && e@ == malformed(pattern@),
        },
{
    let p = chars_of(pattern);
    let n = p.len();
    let mut tokens: Vec<Token> = Vec::new();
    let mut i: usize = 0;
    assert(tokens.deep_view() =~= Seq::<TokenView<char>>::empty());
    while i < n
        invariant
            n == p.len(),
            p@ == pattern@,
            tokens_from(p@, i as int, tokens.deep_view()) == spec_tokens(p@),
        decreases n - i,
    {
        let c = p[i];
        if c == '*' {
            push_token(&mut tokens, Token::AnyRun);
            i = i + 1;
        } else if c == '?' {
            push_token(&mut tokens, Token::AnyChar);
            i = i + 1;
        } else if c == '[' {
            let negated = n - i > 1 && p[i + 1] == '!';
            let start = if negated {
                i + 2
            } else {
                i + 1
            };
            match read_class(&p, start) {
                Some((ranges, next)) => {
                    push_token(&mut tokens, Token::Class { negated, ranges });
                    i = next;
                },
                None => {
                    let mut ctx = String::from_str("invalid pattern ");
                    ctx.append(pattern);
                    ctx.append(": a set is opened by [ and never closed");
                    return Err(Error::new(ErrorKind::Pattern, ctx));
                },
            }
        } else {
            push_token(&mut tokens, Token::Literal(c));
            i = i + 1;
        }
    }
    Ok(tokens)
}

/// Whether `c` lies in one of the inclusive ranges `ranges`.
pub open spec fn in_ranges(ranges: Seq<(char, char)>, c: char) -> bool {
    exists|k: int|
        0 <= k < ranges.len() && (#[trigger] ranges[k]).0 as u32 <= c as u32 <= ranges[k].1 as u32
}

/// Whether the token `t` stands for the character `c`, taken alone.
pub open spec fn token_accepts(t: TokenView<char>, c: char) -> bool {
    match t {
        TokenView::Literal(x) => c == x,
        TokenView::AnyChar => c != '/',
        TokenView::AnyRun => c != '/',
        TokenView::Class { negated, ranges } => c != '/' && (in_ranges(ranges, c) != negated),
    }
}

/// Whether the tokens from index `i` on match the text from index `j` on,
/// all of it.
pub open spec fn matches_from(tokens: Seq<TokenView<char>>, text: Seq<char>, i: int, j: int) -> bool
    decreases tokens.len() - i, text.len() - j,
{
    if i < 0 || j < 0 {
        false
    } else if i >= tokens.len() {
        j >= text.len()
    } else if tokens[i] is AnyRun {
        matches_from(tokens, text, i + 1, j) || (j < text.len() && text[j] != '/' && matches_from(
            tokens,
            text,
            i,
            j + 1,
        ))
    } else {
        j < text.len() && token_accepts(tokens[i], text[j]) && matches_from(
            tokens,
            text,
            i + 1,
            j + 1,
        )
    }
}

/// Whether the tokens match the whole of `text`.
pub open spec fn spec_matches(tokens: Seq<TokenView<char>>, text: Seq<char>) -> bool {
    matches_from(tokens, text, 0, 0)
}

/// Whether the token stands for the character `c`, taken alone.
pub fn accepts(token: &Token, c: char) -> (b: bool)
    ensures
        b == token_accepts(token@, c),
{
    match token {
        Token::Literal(x) => c == *x,
        Token::AnyChar => c != '/',
        Token::AnyRun => c != '/',
        Token::Class { negated, ranges } => {
            if c == '/' {
                return false;
            }
            let mut found = false;
            let mut k: usize = 0;
            while k < ranges.len() && !found
                invariant
                    k <= ranges.len(),
                    found ==> in_ranges(ranges@, c),
                    !found ==> forall|j: int|
                        0 <= j < k ==> !((#[trigger] ranges@[j]).0 as u32 <= c as u32
                            <= ranges@[j].1 as u32),
                decreases ranges.len() - k + if found { 0int } else { 1int },
            {
                if ranges[k].0 as u32 <= c as u32 && c as u32 <= ranges[k].1 as u32 {
                    found = true;
                } else {
                    k = k + 1;
                }
            }
            found != *negated
        },
    }
}

/// Whether the tokens match the whole of `text`.
///
/// The answer is built up from the end of the pattern, one token at a
/// time, for every suffix of the text at once; the work is the product of
/// the two lengths, whatever the pattern.
pub fn is_match(tokens: &Vec<Token>, text: &str) -> (b: bool)
    ensures
        b == spec_matches(tokens.deep_view(), text@),
{
    let text = chars_of(text);
    let ghost ts = tokens.deep_view();
    let n = tokens.len();
    let m = text.len();
    let mut tail = true;
    let mut row: Vec<bool> = Vec::new();
    let mut j: usize = 0;
    while j < m
        invariant
            j <= m,
            row.len() == j,
            forall|k: int| 0 <= k < j ==> !(#[trigger] row[k]),
        decreases m - j,
    {
        row.push(false);
        j = j + 1;
    }
    let mut i: usize = n;
    while i > 0
        invariant
            i <= n,
            n == tokens.len(),
            m == text.len(),
            ts == tokens.deep_view(),
            row.len() == m,
            tail == matches_from(ts, text@, i as int, m as int),
            forall|k: int| 0 <= k < m ==> (#[trigger] row[k]) == matches_from(ts, text@, i as int, k),
        decreases i,
    {
        i = i - 1;
        let token = &tokens[i];
        let run = matches!(token, Token::AnyRun);
        assert(run == (ts[i as int] is AnyRun));
        let next_tail = run && tail;
        let ghost above = row@;
        let ghost above_tail = tail;
        let mut j: usize = m;
        let mut right_above = tail;
        let mut right = next_tail;
        while j > 0
            invariant
                j <= m,
                i < n,
                n == tokens.len(),
                m == text.len(),
                ts == tokens.deep_view(),
                token@ == ts[i as int],
                run == (ts[i as int] is AnyRun),
                row.len() == m,
                above.len() == m,
                above_tail == matches_from(ts, text@, i + 1, m as int),
                next_tail == matches_from(ts, text@, i as int, m as int),
                forall|k: int|
                    0 <= k < m ==> (#[trigger] above[k]) == matches_from(ts, text@, i + 1, k),
                forall|k: int| 0 <= k < j ==> (#[trigger] row[k]) == above[k],
                forall|k: int|
                    j <= k < m ==> (#[trigger] row[k]) == matches_from(ts, text@, i as int, k),
                right == matches_from(ts, text@, i as int, j as int),
                right_above == matches_from(ts, text@, i + 1, j as int),
            decreases j,
        {
            j = j - 1;
            let c = text[j];
            let here_above = row[j];
            assert(here_above == above[j as int]);
            let here = if run {
                here_above || (c != '/' && right)
            } else {
                accepts(token, c) && right_above
            };
            assert(here == matches_from(ts, text@, i as int, j as int));
            row.set(j, here);
            right = here;
            right_above = here_above;
        }
        tail = next_tail;
    }
    if m == 0 {
        tail
    } else {
        row[0]
    }
}

/// The index at which the last component of `path` starts: the index
/// after its last separator, or zero where it has none.
pub open spec fn name_start(path: Seq<char>) -> int
    decreases path.len(),
{
    if path.len() == 0 {
        0
    } else if path.last() == '/' {
        path.len() as int
    } else {
        name_start(path.drop_last())
    }
}

/// The last component of `path`: what follows its last separator.
pub open spec fn spec_file_name(path: Seq<char>) -> Seq<char> {
    path.skip(name_start(path))
}

/// The index of the first character of `p` from index `i` on that makes a
/// pattern; the length of `p` where there is none.
pub open spec fn first_meta(p: Seq<char>, i: int) -> int
    decreases p.len() - i,
{
    if i < 0 || i >= p.len() {
        p.len() as int
    } else if is_meta(p[i]) {
        i
    } else {
        first_meta(p, i + 1)
    }
}

/// The directory under which every match of the pattern `p` lies: the
/// pattern up to the last separator before its first `*`, `?` or `[`.
/// It is empty where the first component already holds one of them.
pub open spec fn spec_root(p: Seq<char>) -> Seq<char> {
    p.take(name_start(p.take(first_meta(p, 0))))
}

/// The links for the first `n` of the paths `candidates`: each path that
/// the tokens match is linked under `dest` by its own name.
pub open spec fn spec_pairs(
    tokens: Seq<TokenView<char>>,
    candidates: Seq<Seq<char>>,
    dest: Seq<char>,
    n: int,
) -> Seq<(Seq<char>, Seq<char>)>
    decreases n,
{
    if n <= 0 {
        Seq::empty()
    } else {
        let before = spec_pairs(tokens, candidates, dest, n - 1);
        let path = candidates[n - 1];
        if spec_matches(tokens, path) {
            before.push((path, crate::paths::spec_join(dest, spec_file_name(path))))
        } else {
            before
        }
    }
}

fn last_component_start(path: &Vec<char>, end: usize) -> (k: usize)
    requires
        end <= path.len(),
    ensures
        k == name_start(path@.take(end as int)),
        k <= end,
{
    let mut k: usize = end;
    while k > 0 && path[k - 1] != '/'
        invariant
            k <= end <= path.len(),
            name_start(path@.take(k as int)) == name_start(path@.take(end as int)),
        decreases k,
    {
        assert(path@.take(k as int).drop_last() =~= path@.take(k - 1));
        k = k - 1;
    }
    k
}

/// The last component of `path`.
pub fn file_name(path: &str) -> (name: String)
    ensures
        name@ == spec_file_name(path@),
{
    let chars = chars_of(path);
    let n = chars.len();
    assert(chars@.take(n as int) =~= chars@);
    let k = last_component_start(&chars, n);
    assert(path@.subrange(k as int, n as int) =~= path@.skip(k as int));
    String::from_str(vstd::string::StrSliceExecFns::substring_char(path, k, n))
}

/// The directory under which every match of `pattern` lies.
pub fn root(pattern: &str) -> (dir: String)
    ensures
        dir@ == spec_root(pattern@),
{
    let p = chars_of(pattern);
    let n = p.len();
    let mut i: usize = 0;
    while i < n && !(p[i] == '*' || p[i] == '?' || p[i] == '[')
        invariant
            i <= n,
            n == p.len(),
            first_meta(p@, i as int) == first_meta(p@, 0),
        decreases n - i,
    {
        i = i + 1;
    }
    let k = last_component_start(&p, i);
    assert(pattern@.subrange(0, k as int) =~= pattern@.take(k as int));
    String::from_str(vstd::string::StrSliceExecFns::substring_char(pattern, 0, k))
}

/// The links to make for a pattern: each of the paths `candidates` that
/// the tokens match, with its destination under `dest`, in the order of
/// the candidates.
pub fn pairs(tokens: &Vec<Token>, candidates: &Vec<String>, dest: &str) -> (links: Vec<
    (String, String),
>)
    ensures
        links.deep_view() == spec_pairs(
            tokens.deep_view(),
            candidates.deep_view(),
            dest@,
            candidates.len() as int,
        ),
{
    let mut links: Vec<(String, String)> = Vec::new();
    let mut k: usize = 0;
    assert(links.deep_view() =~= Seq::<(Seq<char>, Seq<char>)>::empty());
    while k < candidates.len()
        invariant
            k <= candidates.len(),
            links.deep_view() == spec_pairs(
                tokens.deep_view(),
                candidates.deep_view(),
                dest@,
                k as int,
            ),
        decreases candidates.len() - k,
    {
        let path = candidates[k].as_str();
        if is_match(tokens, path) {
            let ghost before = links.deep_view();
            let name = file_name(path);
            let link = (candidates[k].clone(), crate::paths::join_path(dest, name.as_str()));
            links.push(link);
            assert(links.deep_view() =~= before.push(
                (path@, crate::paths::spec_join(dest@, spec_file_name(path@))),
            ));
        }
        k = k + 1;
    }
    links
}

/// How many separators `text` holds from index `j` on.
pub open spec fn separators_in(text: Seq<char>, j: int) -> nat
    decreases text.len() - j,
{
    if j < 0 || j >= text.len() {
        0
    } else if text[j] == '/' {
        1 + separators_in(text, j + 1)
    } else {
        separators_in(text, j + 1)
    }
}

/// How many of the tokens from index `i` on are a literal separator.
pub open spec fn separator_tokens(tokens: Seq<TokenView<char>>, i: int) -> nat
    decreases tokens.len() - i,
{
    if i < 0 || i >= tokens.len() {
        0
    } else if tokens[i] == TokenView::Literal('/') {
        1 + separator_tokens(tokens, i + 1)
    } else {
        separator_tokens(tokens, i + 1)
    }
}

/// A pattern matches only paths of its own depth: a path that the tokens
/// match holds as many separators as the pattern spells out, since no
/// wildcard stands for one.
pub proof fn lemma_match_keeps_depth(tokens: Seq<TokenView<char>>, text: Seq<char>, i: int, j: int)
    requires
        0 <= i,
        0 <= j,
        matches_from(tokens, text, i, j),
    ensures
        separators_in(text, j) == separator_tokens(tokens, i),
    decreases tokens.len() - i, text.len() - j,
{
    if i >= tokens.len() {
    } else if tokens[i] is AnyRun {
        if matches_from(tokens, text, i + 1, j) {
            lemma_match_keeps_depth(tokens, text, i + 1, j);
        } else {
            lemma_match_keeps_depth(tokens, text, i, j + 1);
        }
    } else {
        lemma_match_keeps_depth(tokens, text, i + 1, j + 1);
    }
}

/// The depth of a pattern: how many separators it spells out, and so how
/// many every path has that it matches.
pub fn depth(tokens: &Vec<Token>) -> (d: usize)
    ensures
        d == separator_tokens(tokens.deep_view(), 0),
{
    let n = tokens.len();
    let mut d: usize = 0;
    let mut i: usize = n;
    while i > 0
        invariant
            i <= n,
            n == tokens.len(),
            d <= n - i,
            d == separator_tokens(tokens.deep_view(), i as int),
        decreases i,
    {
        i = i - 1;
        match &tokens[i] {
            Token::Literal(c) => {
                if *c == '/' {
                    d = d + 1;
                }
            },
            _ => {},
        }
    }
    d
}

proof fn lemma_name_start_bounds(path: Seq<char>)
    ensures
        0 <= name_start(path) <= path.len(),
    decreases path.len(),
{
    if path.len() > 0 && path.last() != '/' {
        lemma_name_start_bounds(path.drop_last());
    }
}

proof fn lemma_first_meta(p: Seq<char>, i: int)
    requires
        0 <= i <= p.len(),
    ensures
        i <= first_meta(p, i) <= p.len(),
        forall|j: int| i <= j < first_meta(p, i) ==> !is_meta(#[trigger] p[j]),
    decreases p.len() - i,
{
    if i < p.len() && !is_meta(p[i]) {
        lemma_first_meta(p, i + 1);
    }
}

proof fn lemma_tokens_extend(p: Seq<char>, i: int, acc: Seq<TokenView<char>>)
    requires
        0 <= i,
        tokens_from(p, i, acc) is Some,
    ensures
        tokens_from(p, i, acc)->0.len() >= acc.len(),
        forall|j: int| 0 <= j < acc.len() ==> tokens_from(p, i, acc)->0[j] == acc[j],
    decreases p.len() - i,
{
    if i < p.len() {
        let token = if p[i] == '*' {
            TokenView::AnyRun
        } else if p[i] == '?' {
            TokenView::AnyChar
        } else if p[i] == '[' {
            let negated = i + 1 < p.len() && p[i + 1] == '!';
            let start = if negated {
                i + 2
            } else {
                i + 1
            };
            let set = class_from(p, start, Seq::empty())->0;
            TokenView::Class { negated, ranges: set.0 }
        } else {
            TokenView::Literal(p[i])
        };
        let next = if p[i] == '[' {
            let negated = i + 1 < p.len() && p[i + 1] == '!';
            let start = if negated {
                i + 2
            } else {
                i + 1
            };
            let set = class_from(p, start, Seq::empty())->0;
            set.1
        } else {
            i + 1
        };
        assert(tokens_from(p, i, acc) == tokens_from(p, next, acc.push(token)));
        lemma_tokens_extend(p, next, acc.push(token));
        assert forall|j: int| 0 <= j < acc.len() implies tokens_from(p, i, acc)->0[j]
            == acc[j] by {
            assert(acc.push(token)[j] == acc[j]);
        }
    }
}

proof fn lemma_literal_tokens(p: Seq<char>, i: int, acc: Seq<TokenView<char>>, k: int)
    requires
        0 <= i <= k <= p.len(),
        forall|j: int| i <= j < k ==> !is_meta(#[trigger] p[j]),
        acc.len() == i,
        forall|j: int| 0 <= j < i ==> (#[trigger] acc[j]) == TokenView::Literal(p[j]),
        tokens_from(p, i, acc) is Some,
    ensures
        tokens_from(p, i, acc)->0.len() >= k,
        forall|j: int| 0 <= j < k ==> tokens_from(p, i, acc)->0[j] == TokenView::Literal(p[j]),
    decreases k - i,
{
    if i < k {
        assert(!is_meta(p[i]));
        let more = acc.push(TokenView::Literal(p[i]));
        assert(tokens_from(p, i, acc) == tokens_from(p, i + 1, more));
        assert forall|j: int| 0 <= j < i + 1 implies (#[trigger] more[j]) == TokenView::Literal(
            p[j],
        ) by {
            if j < i {
                assert(more[j] == acc[j]);
            }
        }
        lemma_literal_tokens(p, i + 1, more, k);
    } else {
        lemma_tokens_extend(p, i, acc);
        let tokens = tokens_from(p, i, acc)->0;
        assert forall|j: int| 0 <= j < k implies tokens[j] == TokenView::Literal(p[j]) by {
            assert(tokens[j] == acc[j]);
        }
    }
}

proof fn lemma_literals_match_themselves(
    tokens: Seq<TokenView<char>>,
    text: Seq<char>,
    p: Seq<char>,
    j: int,
    k: int,
)
    requires
        0 <= j <= k <= tokens.len(),
        k <= p.len(),
        j <= text.len(),
        forall|x: int| 0 <= x < k ==> tokens[x] == TokenView::Literal(p[x]),
        matches_from(tokens, text, j, j),
    ensures
        text.len() >= k,
        forall|x: int| j <= x < k ==> text[x] == p[x],
    decreases k - j,
{
    if j < k {
        assert(tokens[j] == TokenView::Literal(p[j]));
        lemma_literals_match_themselves(tokens, text, p, j + 1, k);
    }
}

/// Every match of a pattern lies under the pattern's root: a path that
/// the tokens of the pattern match starts with the root.
pub proof fn lemma_match_under_root(pattern: Seq<char>, text: Seq<char>)
    requires
        spec_tokens(pattern) is Some,
        spec_matches(spec_tokens(pattern)->0, text),
    ensures
        spec_root(pattern).is_prefix_of(text),
{
    let k = first_meta(pattern, 0);
    let tokens = spec_tokens(pattern)->0;
    lemma_first_meta(pattern, 0);
    lemma_literal_tokens(pattern, 0, Seq::empty(), k);
    lemma_literals_match_themselves(tokens, text, pattern, 0, k);
    lemma_name_start_bounds(pattern.take(k));
    let root = spec_root(pattern);
    assert(root =~= text.subrange(0, root.len() as int));
}

} // verus!
