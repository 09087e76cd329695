use vstd::prelude::*;

use crate::code_gen::names::copy_of;

verus! {

/// The Diesel backend the `LoadFrom` impls are written for.
#[derive(Debug, Clone, Copy, PartialEq, Eq, Structural)]
pub enum Backend {
    /// PostgreSQL.
    Pg,
    /// MySQL.
    Mysql,
    /// SQLite.
    Sqlite,
}

/// The delimiter of a token group.
#[derive(Debug, Clone, Copy, PartialEq, Eq, Structural)]
pub enum Delimiter {
    /// `( ... )`
    Parenthesis,
    /// `{ ... }`
    Brace,
    /// `[ ... ]`
    Bracket,
    /// A group without visible delimiters.
    Invisible,
}

/// A token of the macro input.
#[derive(Debug)]
pub enum TokenTree {
    /// Tokens in delimiters.
    Group {
        /// The delimiter.
        delimiter: Delimiter,
        /// The whole group as source text.
        text: String,
        /// The tokens inside the delimiters.
        stream: Vec<TokenTree>,
    },
    /// An identifier or keyword.
    Ident(String),
    /// A punctuation character; `joint` when the next character belongs to the same operator,
    /// as `-` in `->`.
    Punct {
        /// The character.
        ch: char,
        /// Is it joined to the next punctuation character?
        joint: bool,
    },
    /// A literal.
    Literal(String),
}

/// The source text of a token.
pub open spec fn token_text(token: TokenTree) -> Seq<char> {
    match token {
        TokenTree::Group { text, .. } => text@,
        TokenTree::Ident(name) => name@,
        TokenTree::Punct { ch, .. } => seq![ch],
        TokenTree::Literal(text) => text@,
    }
}

/// What stands in source text between a token and the next: nothing after a punctuation
/// character joined to the next one (as `:` in `::`), a space otherwise.
pub open spec fn separator_after(token: TokenTree) -> Seq<char> {
    match token {
        TokenTree::Punct { joint, .. } => if joint {
            Seq::empty()
        } else {
            " "@
        },
        _ => " "@,
    }
}

/// The source text of tokens, separated by spaces but where a punctuation character is joined
/// to the next.
pub open spec fn tokens_text(tokens: Seq<TokenTree>) -> Seq<char>
    decreases tokens.len(),
{
    if tokens.len() == 0 {
        Seq::empty()
    } else if tokens.len() == 1 {
        token_text(tokens[0])
    } else {
        tokens_text(tokens.drop_last()) + separator_after(tokens[tokens.len() - 2]) + token_text(
            tokens.last(),
        )
    }
}

/// Does the text read as a Rust type, as `syn` reads it?
pub uninterp spec fn is_rust_type(text: Seq<char>) -> bool;

/// Does the text read as a Rust type?
///
/// Calls `syn::parse_str::<syn::Type>`; the contract names its verdict and says nothing more of
/// it.
#[verifier::external_body]
fn reads_as_type(text: &str) -> (r: bool)
    ensures
        r == is_rust_type(text@),
{
    syn::parse_str::<syn::Type>(text).is_ok()
}

/// Is the token the punctuation character `c`?
pub open spec fn is_punct(token: TokenTree, c: char) -> bool {
    token matches TokenTree::Punct { ch, .. } && ch == c
}

/// Is the token the identifier `name`?
pub open spec fn is_ident(token: TokenTree, name: Seq<char>) -> bool {
    token matches TokenTree::Ident(ident) && ident@ == name
}

/// Do the tokens at `i` spell `->`?
pub open spec fn is_arrow_at(tokens: Seq<TokenTree>, i: int) -> bool {
    &&& 0 <= i && i + 1 < tokens.len()
    &&& tokens[i] matches TokenTree::Punct { ch, joint } && ch == '-' && joint
    &&& is_punct(tokens[i + 1], '>')
}

/// Do the tokens at `i` spell `=>`?
pub open spec fn is_fat_arrow_at(tokens: Seq<TokenTree>, i: int) -> bool {
    &&& 0 <= i && i + 1 < tokens.len()
    &&& tokens[i] matches TokenTree::Punct { ch, joint } && ch == '=' && joint
    &&& is_punct(tokens[i + 1], '>')
}

/// Where a type that starts at `i` ends: at the first `,`, `.`, `->` or `=>` outside angle
/// brackets, or at the end of the tokens. `depth` counts the angle brackets open at `i`.
pub open spec fn type_end(tokens: Seq<TokenTree>, i: int, depth: nat) -> int
    decreases tokens.len() - i,
{
    if i < 0 || i >= tokens.len() {
        i
    } else if depth == 0 && (is_punct(tokens[i], ',') || is_punct(tokens[i], '.') || is_arrow_at(
        tokens,
        i,
    ) || is_fat_arrow_at(tokens, i)) {
        i
    } else if is_arrow_at(tokens, i) {
        type_end(tokens, i + 2, depth)
    } else if is_punct(tokens[i], '<') {
        type_end(tokens, i + 1, depth + 1)
    } else if is_punct(tokens[i], '>') && depth > 0 {
        type_end(tokens, i + 1, (depth - 1) as nat)
    } else {
        type_end(tokens, i + 1, depth)
    }
}

/// A type that starts inside the tokens ends inside them, and not before it starts.
pub proof fn lemma_type_end_bounds(tokens: Seq<TokenTree>, i: int, depth: nat)
    ensures
        0 <= i <= tokens.len() ==> i <= type_end(tokens, i, depth) <= tokens.len(),
        (i < 0 || i > tokens.len()) ==> type_end(tokens, i, depth) == i,
    decreases tokens.len() - i,
{
    if 0 <= i < tokens.len() {
        if depth == 0 && (is_punct(tokens[i], ',') || is_punct(tokens[i], '.') || is_arrow_at(
            tokens,
            i,
        ) || is_fat_arrow_at(tokens, i)) {
        } else if is_arrow_at(tokens, i) {
            lemma_type_end_bounds(tokens, i + 2, depth);
        } else if is_punct(tokens[i], '<') {
            lemma_type_end_bounds(tokens, i + 1, depth + 1);
        } else if is_punct(tokens[i], '>') && depth > 0 {
            lemma_type_end_bounds(tokens, i + 1, (depth - 1) as nat);
        } else {
            lemma_type_end_bounds(tokens, i + 1, depth);
        }
    }
}

/// The type that starts at `start` and ends at the boundary `e` or at a later one, and where it
/// ends: the last such boundary up to which the tokens read as a type. A type only reaches past
/// a boundary at `->`, as in `fn() -> i32`.
pub open spec fn type_from(tokens: Seq<TokenTree>, start: int, e: int) -> Option<(Seq<char>, int)>
    decreases tokens.len() - e,
{
    let later = if 0 <= e && is_arrow_at(tokens, e) {
        proof {
            lemma_type_end_bounds(tokens, e + 2, 0);
        }
        type_from(tokens, start, type_end(tokens, e + 2, 0))
    } else {
        None
    };
    match later {
        Some(found) => Some(found),
        None => {
            let text = tokens_text(tokens.subrange(start, e));
            if 0 <= start < e <= tokens.len() && is_rust_type(text) {
                Some((text, e))
            } else {
                None
            }
        },
    }
}

/// The text of the type that starts at `i`, when the tokens there read as one, and where it
/// ends: the type reaches as far as the tokens read as a type.
pub open spec fn type_at(tokens: Seq<TokenTree>, i: int) -> Option<(Seq<char>, int)> {
    type_from(tokens, i, type_end(tokens, i, 0))
}

/// A type found from a boundary ends inside the tokens, after it starts.
proof fn lemma_type_from_bounds(tokens: Seq<TokenTree>, start: int, e: int)
    ensures
        type_from(tokens, start, e) matches Some((_, end)) ==> 0 <= start < end <= tokens.len(),
    decreases tokens.len() - e,
{
    if 0 <= e && is_arrow_at(tokens, e) {
        lemma_type_end_bounds(tokens, e + 2, 0);
        lemma_type_from_bounds(tokens, start, type_end(tokens, e + 2, 0));
    }
}

/// A type that reads ends inside the tokens, after it starts.
pub proof fn lemma_type_at_bounds(tokens: Seq<TokenTree>, i: int)
    ensures
        type_at(tokens, i) matches Some((_, end)) ==> 0 <= i < end <= tokens.len(),
{
    lemma_type_from_bounds(tokens, i, type_end(tokens, i, 0));
}

/// A `LoadFrom` impl that loads models by their ids: `id_ty -> (table, self_ty)`.
#[derive(Debug)]
pub struct HasOne {
    /// The id type.
    pub id_ty: String,
    /// The table the models are in.
    pub table: String,
    /// The model type.
    pub self_ty: String,
}

/// A `LoadFrom` impl that loads models from other models:
/// `join_ty.join_from -> (table.join_to, self_ty)`.
#[derive(Debug)]
pub struct HasMany {
    /// The type of the models the ids are taken from.
    pub join_ty: String,
    /// The field of those models that holds the ids.
    pub join_from: String,
    /// The table the loaded models are in.
    pub table: String,
    /// The column of that table that holds the ids.
    pub join_to: String,
    /// The type of the loaded models.
    pub self_ty: String,
}

/// One `LoadFrom` impl the macro is asked for.
#[derive(Debug)]
pub enum InputImpl {
    /// Load models by their ids.
    HasOne(HasOne),
    /// Load models from other models.
    HasMany(HasMany),
}

/// The whole macro input: `(error = E, context = C) => { impl, impl, ... }`.
#[derive(Debug)]
pub struct Input {
    /// The error type.
    pub error_ty: String,
    /// The context type.
    pub context_ty: String,
    /// The impls asked for.
    pub impls: Vec<InputImpl>,
}

/// Why the macro input does not read.
#[derive(Debug)]
pub struct ParseError {
    /// What was expected.
    pub message: String,
}


/// What an impl of the macro input reads as.
pub enum ImplView {
    /// `id_ty -> (table, self_ty)`
    HasOne { id_ty: Seq<char>, table: Seq<char>, self_ty: Seq<char> },
    /// `join_ty.join_from -> (table.join_to, self_ty)`
    HasMany {
        join_ty: Seq<char>,
        join_from: Seq<char>,
        table: Seq<char>,
        join_to: Seq<char>,
        self_ty: Seq<char>,
    },
}

impl View for InputImpl {
    type V = ImplView;

    open spec fn view(&self) -> ImplView {
        match self {
            InputImpl::HasOne(has_one) => ImplView::HasOne {
                id_ty: has_one.id_ty@,
                table: has_one.table@,
                self_ty: has_one.self_ty@,
            },
            InputImpl::HasMany(has_many) => ImplView::HasMany {
                join_ty: has_many.join_ty@,
                join_from: has_many.join_from@,
                table: has_many.table@,
                join_to: has_many.join_to@,
                self_ty: has_many.self_ty@,
            },
        }
    }
}

/// What the macro input reads as.
pub struct InputView {
    /// The error type.
    pub error_ty: Seq<char>,
    /// The context type.
    pub context_ty: Seq<char>,
    /// The impls asked for.
    pub impls: Seq<ImplView>,
}

/// The view of each impl.
pub open spec fn impl_views(impls: Seq<InputImpl>) -> Seq<ImplView> {
    impls.map_values(|imp: InputImpl| imp@)
}

impl View for Input {
    type V = InputView;

    open spec fn view(&self) -> InputView {
        InputView {
            error_ty: self.error_ty@,
            context_ty: self.context_ty@,
            impls: impl_views(self.impls@),
        }
    }
}

/// The identifier the token is, if it is one.
pub open spec fn ident_of(token: TokenTree) -> Option<Seq<char>> {
    match token {
        TokenTree::Ident(name) => Some(name@),
        _ => None,
    }
}

/// The tokens inside a group in parentheses, if the token is one.
pub open spec fn parenthesized(token: TokenTree) -> Option<Seq<TokenTree>> {
    match token {
        TokenTree::Group { delimiter, stream, .. } => if delimiter == Delimiter::Parenthesis {
            Some(stream@)
        } else {
            None
        },
        _ => None,
    }
}

/// The message of an error that says what was expected: `expected {what}`.
pub open spec fn expected_message(what: Seq<char>) -> Seq<char> {
    "expected "@ + what
}

/// The type that starts at `i` and where it ends, or the message that no type is there.
pub open spec fn read_type(tokens: Seq<TokenTree>, i: int) -> Result<(Seq<char>, int), Seq<char>> {
    match type_at(tokens, i) {
        Some(found) => Ok(found),
        None => Err(expected_message("a type"@)),
    }
}

/// What `( table , self_ty )` reads as, or the message of why it does not read.
pub open spec fn read_table_and_type(inside: Seq<TokenTree>) -> Result<
    (Seq<char>, Seq<char>),
    Seq<char>,
> {
    let refused = expected_message("`table, Type`"@);
    if inside.len() >= 2 && ident_of(inside[0]) is Some && is_punct(inside[1], ',') {
        match read_type(inside, 2) {
            Ok((self_ty, end)) => if end == inside.len() {
                Ok((ident_of(inside[0]).unwrap(), self_ty))
            } else {
                Err(refused)
            },
            Err(message) => Err(message),
        }
    } else {
        Err(refused)
    }
}

/// What `( table . join_to , self_ty )` reads as, or the message of why it does not read.
pub open spec fn read_column_and_type(inside: Seq<TokenTree>) -> Result<
    (Seq<char>, Seq<char>, Seq<char>),
    Seq<char>,
> {
    let refused = expected_message("`table.column, Type`"@);
    if inside.len() >= 4 && ident_of(inside[0]) is Some && is_punct(inside[1], '.') && ident_of(
        inside[2],
    ) is Some && is_punct(inside[3], ',') {
        match read_type(inside, 4) {
            Ok((self_ty, end)) => if end == inside.len() {
                Ok((ident_of(inside[0]).unwrap(), ident_of(inside[2]).unwrap(), self_ty))
            } else {
                Err(refused)
            },
            Err(message) => Err(message),
        }
    } else {
        Err(refused)
    }
}

/// What the impl that starts at `i` reads as and where it ends, or the message of why it does
/// not read.
pub open spec fn read_impl(tokens: Seq<TokenTree>, i: int) -> Result<(ImplView, int), Seq<char>> {
    let refused = expected_message("`->`"@);
    match read_type(tokens, i) {
        Ok((first_ty, e)) => if e < tokens.len() && is_punct(tokens[e], '.') {
            if e + 4 < tokens.len() && ident_of(tokens[e + 1]) is Some && is_arrow_at(tokens, e + 2)
                && parenthesized(tokens[e + 4]) is Some {
                match read_column_and_type(parenthesized(tokens[e + 4]).unwrap()) {
                    Ok((table, join_to, self_ty)) => Ok(
                        (
                            ImplView::HasMany {
                                join_ty: first_ty,
                                join_from: ident_of(tokens[e + 1]).unwrap(),
                                table,
                                join_to,
                                self_ty,
                            },
                            e + 5,
                        ),
                    ),
                    Err(message) => Err(message),
                }
            } else {
                Err(refused)
            }
        } else if is_arrow_at(tokens, e) && e + 2 < tokens.len() && parenthesized(tokens[e + 2])
            is Some {
            match read_table_and_type(parenthesized(tokens[e + 2]).unwrap()) {
                Ok((table, self_ty)) => Ok(
                    (ImplView::HasOne { id_ty: first_ty, table, self_ty }, e + 3),
                ),
                Err(message) => Err(message),
            }
        } else {
            Err(refused)
        },
        Err(message) => Err(message),
    }
}

/// What the impls from `i` on, separated by commas and with an optional comma at the end, read
/// as, or the message of why they do not read.
pub open spec fn read_impls(tokens: Seq<TokenTree>, i: int) -> Result<Seq<ImplView>, Seq<char>>
    decreases tokens.len() - i,
{
    let refused = expected_message("`,`"@);
    if i < 0 || i > tokens.len() {
        Err(refused)
    } else if i == tokens.len() {
        Ok(Seq::empty())
    } else {
        match read_impl(tokens, i) {
            Ok((imp, next)) => if next <= i {
                Err(refused)
            } else if next == tokens.len() {
                Ok(seq![imp])
            } else if next < tokens.len() && is_punct(tokens[next], ',') {
                match read_impls(tokens, next + 1) {
                    Ok(rest) => Ok(seq![imp] + rest),
                    Err(message) => Err(message),
                }
            } else {
                Err(refused)
            },
            Err(message) => Err(message),
        }
    }
}

/// What `error = E, context = C` with an optional comma at the end reads as, or the message of
/// why it does not read.
pub open spec fn read_prelude(inside: Seq<TokenTree>) -> Result<(Seq<char>, Seq<char>), Seq<char>> {
    let refused = expected_message("`error = Type, context = Type`"@);
    if inside.len() >= 2 && is_ident(inside[0], "error"@) && is_punct(inside[1], '=') {
        match read_type(inside, 2) {
            Ok((error_ty, e)) => if e + 2 < inside.len() && is_punct(inside[e], ',') && is_ident(
                inside[e + 1],
                "context"@,
            ) && is_punct(inside[e + 2], '=') {
                match read_type(inside, e + 3) {
                    Ok((context_ty, f)) => if f == inside.len() || (f + 1 == inside.len()
                        && is_punct(inside[f], ',')) {
                        Ok((error_ty, context_ty))
                    } else {
                        Err(refused)
                    },
                    Err(message) => Err(message),
                }
            } else {
                Err(refused)
            },
            Err(message) => Err(message),
        }
    } else {
        Err(refused)
    }
}

/// The tokens inside a group in braces, if the token is one.
pub open spec fn braced(token: TokenTree) -> Option<Seq<TokenTree>> {
    match token {
        TokenTree::Group { delimiter, stream, .. } => if delimiter == Delimiter::Brace {
            Some(stream@)
        } else {
            None
        },
        _ => None,
    }
}

/// What the whole macro input `(error = E, context = C) => { impls }` reads as, or the message
/// of why it does not read.
pub open spec fn read_input(tokens: Seq<TokenTree>) -> Result<InputView, Seq<char>> {
    if tokens.len() == 4 && parenthesized(tokens[0]) is Some && is_fat_arrow_at(tokens, 1)
        && braced(tokens[3]) is Some {
        match read_prelude(parenthesized(tokens[0]).unwrap()) {
            Ok((error_ty, context_ty)) => match read_impls(braced(tokens[3]).unwrap(), 0) {
                Ok(impls) => Ok(InputView { error_ty, context_ty, impls }),
                Err(message) => Err(message),
            },
            Err(message) => Err(message),
        }
    } else {
        Err(expected_message("`(error = Type, context = Type) => { ... }`"@))
    }
}


/// Appends a character.
///
/// Calls `String::push`, which appends the character at the end of the string.
#[verifier::external_body]
fn push_char(s: &mut String, c: char)
    ensures
        final(s)@ == old(s)@.push(c),
{
    s.push(c)
}

/// An error that says what was expected: `expected {what}`.
fn expected(what: &str) -> (e: ParseError)
    ensures
        e.message@ == expected_message(what@),
{
    proof {
        reveal_strlit("expected ");
    }
    ParseError { message: crate::code_gen::names::joined("expected ", what) }
}

/// Is the token at `i` the punctuation character `c`?
fn punct_at(tokens: &Vec<TokenTree>, i: usize, c: char) -> (r: bool)
    ensures
        r == (i < tokens@.len() && is_punct(tokens@[i as int], c)),
{
    if i < tokens.len() {
        match &tokens[i] {
            TokenTree::Punct { ch, .. } => *ch == c,
            _ => false,
        }
    } else {
        false
    }
}

/// Do the tokens at `i` spell `->` (when `first` is `-`) or `=>` (when `first` is `=`)?
fn two_char_op_at(tokens: &Vec<TokenTree>, i: usize, first: char) -> (r: bool)
    ensures
        r == (0 <= i && i + 1 < tokens@.len() && (tokens@[i as int] matches TokenTree::Punct {
            ch,
            joint,
        } && ch == first && joint) && is_punct(tokens@[i + 1], '>')),
{
    if i < tokens.len() && i + 1 < tokens.len() {
        let joined = match &tokens[i] {
            TokenTree::Punct { ch, joint } => *ch == first && *joint,
            _ => false,
        };
        joined && punct_at(tokens, i + 1, '>')
    } else {
        false
    }
}

/// Do the tokens at `i` spell `->`?
fn arrow_at(tokens: &Vec<TokenTree>, i: usize) -> (r: bool)
    ensures
        r == is_arrow_at(tokens@, i as int),
{
    two_char_op_at(tokens, i, '-')
}

/// Do the tokens at `i` spell `=>`?
fn fat_arrow_at(tokens: &Vec<TokenTree>, i: usize) -> (r: bool)
    ensures
        r == is_fat_arrow_at(tokens@, i as int),
{
    two_char_op_at(tokens, i, '=')
}

/// Where the type that starts at `start` ends.
fn find_type_end(tokens: &Vec<TokenTree>, start: usize) -> (end: usize)
    ensures
        end == type_end(tokens@, start as int, 0),
{
    let mut i = start;
    let mut depth: usize = 0;
    while i < tokens.len()
        invariant
            start <= i || i == start,
            type_end(tokens@, i as int, depth as nat) == type_end(tokens@, start as int, 0),
            depth <= i,
        decreases tokens@.len() - i,
    {
        if depth == 0 && (punct_at(tokens, i, ',') || punct_at(tokens, i, '.') || arrow_at(tokens, i)
            || fat_arrow_at(tokens, i)) {
            return i;
        }
        if arrow_at(tokens, i) {
            i = i + 2;
        } else if punct_at(tokens, i, '<') {
            depth = depth + 1;
            i = i + 1;
        } else if punct_at(tokens, i, '>') && depth > 0 {
            depth = depth - 1;
            i = i + 1;
        } else {
            i = i + 1;
        }
    }
    i
}

/// The source text of a token.
fn token_text_of(token: &TokenTree) -> (text: String)
    ensures
        text@ == token_text(*token),
{
    match token {
        TokenTree::Group { text, .. } => copy_of(text),
        TokenTree::Ident(name) => copy_of(name),
        TokenTree::Punct { ch, .. } => {
            let mut text = String::new();
            push_char(&mut text, *ch);
            assert(text@ =~= seq![*ch]);
            text
        },
        TokenTree::Literal(text) => copy_of(text),
    }
}

/// The source text of the tokens from `start` up to `end`.
fn text_of(tokens: &Vec<TokenTree>, start: usize, end: usize) -> (text: String)
    requires
        start <= end <= tokens@.len(),
    ensures
        text@ == tokens_text(tokens@.subrange(start as int, end as int)),
{
    let mut text = String::new();
    let mut j = start;
    assert(tokens@.subrange(start as int, start as int) =~= Seq::<TokenTree>::empty());
    while j < end
        invariant
            start <= j <= end <= tokens@.len(),
            text@ == tokens_text(tokens@.subrange(start as int, j as int)),
        decreases end - j,
    {
        let next = token_text_of(&tokens[j]);
        let ghost part = tokens@.subrange(start as int, j + 1);
        assert(part.drop_last() =~= tokens@.subrange(start as int, j as int));
        assert(part.last() == tokens@[j as int]);
        if j > start {
            let joint_before = match &tokens[j - 1] {
                TokenTree::Punct { joint, .. } => *joint,
                _ => false,
            };
            if !joint_before {
                text.append(" ");
            }
            proof {
                reveal_strlit(" ");
                assert(part[part.len() - 2] == tokens@[j - 1]);
            }
        } else {
            assert(part =~= seq![tokens@[j as int]]);
        }
        text.append(next.as_str());
        j = j + 1;
    }
    text
}

/// Read the type that starts at `start` and ends at the boundary `e` or at a later one.
fn parse_type_from(tokens: &Vec<TokenTree>, start: usize, e: usize) -> (r: Option<(String, usize)>)
    requires
        start <= e <= tokens@.len(),
    ensures
        match r {
            Some((text, end)) => type_from(tokens@, start as int, e as int) == Some(
                (text@, end as int),
            ),
            None => type_from(tokens@, start as int, e as int) is None,
        },
    decreases tokens@.len() - e,
{
    if arrow_at(tokens, e) {
        assert(e + 1 < tokens.len());
        let next = find_type_end(tokens, e + 2);
        proof {
            lemma_type_end_bounds(tokens@, e + 2, 0);
        }
        match parse_type_from(tokens, start, next) {
            Some(found) => return Some(found),
            None => {},
        }
    }
    if start < e {
        let text = text_of(tokens, start, e);
        if reads_as_type(text.as_str()) {
            return Some((text, e));
        }
    }
    None
}

/// Read the type that starts at `start`: as far as the tokens read as a type.
fn parse_type(tokens: &Vec<TokenTree>, start: usize) -> (r: Result<(String, usize), ParseError>)
    ensures
        match r {
            Ok((text, end)) => {
                &&& read_type(tokens@, start as int) == Ok::<_, Seq<char>>((text@, end as int))
                &&& start < end <= tokens@.len()
            },
            Err(e) => read_type(tokens@, start as int) == Err::<(Seq<char>, int), _>(e.message@),
        },
{
    let end = find_type_end(tokens, start);
    proof {
        lemma_type_end_bounds(tokens@, start as int, 0);
        lemma_type_at_bounds(tokens@, start as int);
    }
    if start <= end && end <= tokens.len() {
        match parse_type_from(tokens, start, end) {
            Some(found) => return Ok(found),
            None => {},
        }
    }
    proof {
        reveal_strlit("a type");
    }
    Err(expected("a type"))
}


/// The identifier at `i`, if the token there is one.
fn ident_at(tokens: &Vec<TokenTree>, i: usize) -> (r: Option<String>)
    ensures
        match r {
            Some(name) => i < tokens@.len() && ident_of(tokens@[i as int]) == Some(name@),
            None => i >= tokens@.len() || ident_of(tokens@[i as int]) is None,
        },
{
    if i < tokens.len() {
        match &tokens[i] {
            TokenTree::Ident(name) => Some(copy_of(name)),
            _ => None,
        }
    } else {
        None
    }
}

/// The tokens inside the group at `i`, if it is delimited by `delimiter`.
fn group_at(tokens: &Vec<TokenTree>, i: usize, delimiter: Delimiter) -> (r: Option<&Vec<TokenTree>>)
    ensures
        match r {
            Some(stream) => i < tokens@.len() && (tokens@[i as int] matches TokenTree::Group {
                delimiter: d,
                stream: s,
                ..
            } && d == delimiter && s@ == stream@),
            None => i >= tokens@.len() || !(tokens@[i as int] matches TokenTree::Group {
                delimiter: d,
                ..
            } && d == delimiter),
        },
{
    if i < tokens.len() {
        match &tokens[i] {
            TokenTree::Group { delimiter: d, stream, .. } => if *d == delimiter {
                Some(stream)
            } else {
                None
            },
            _ => None,
        }
    } else {
        None
    }
}

/// Read `table , self_ty`.
fn parse_table_and_type(inside: &Vec<TokenTree>) -> (r: Result<(String, String), ParseError>)
    ensures
        match r {
            Ok((table, self_ty)) => read_table_and_type(inside@) == Ok::<_, Seq<char>>(
                (table@, self_ty@),
            ),
            Err(e) => read_table_and_type(inside@) == Err::<(Seq<char>, Seq<char>), _>(
                e.message@,
            ),
        },
{
    proof {
        reveal_strlit("`table, Type`");
    }
    let table = match ident_at(inside, 0) {
        Some(table) => table,
        None => return Err(expected("`table, Type`")),
    };
    if !punct_at(inside, 1, ',') {
        return Err(expected("`table, Type`"));
    }
    let (self_ty, end) = parse_type(inside, 2)?;
    if end != inside.len() {
        return Err(expected("`table, Type`"));
    }
    Ok((table, self_ty))
}

/// Read `table . join_to , self_ty`.
fn parse_column_and_type(inside: &Vec<TokenTree>) -> (r: Result<(String, String, String), ParseError>)
    ensures
        match r {
            Ok((table, join_to, self_ty)) => read_column_and_type(inside@) == Ok::<_, Seq<char>>(
                (table@, join_to@, self_ty@),
            ),
            Err(e) => read_column_and_type(inside@) == Err::<
                (Seq<char>, Seq<char>, Seq<char>),
                _,
            >(e.message@),
        },
{
    proof {
        reveal_strlit("`table.column, Type`");
    }
    let table = match ident_at(inside, 0) {
        Some(table) => table,
        None => return Err(expected("`table.column, Type`")),
    };
    if !punct_at(inside, 1, '.') {
        return Err(expected("`table.column, Type`"));
    }
    let join_to = match ident_at(inside, 2) {
        Some(join_to) => join_to,
        None => return Err(expected("`table.column, Type`")),
    };
    if !punct_at(inside, 3, ',') {
        return Err(expected("`table.column, Type`"));
    }
    let (self_ty, end) = parse_type(inside, 4)?;
    if end != inside.len() {
        return Err(expected("`table.column, Type`"));
    }
    Ok((table, join_to, self_ty))
}

impl InputImpl {
    /// Read the impl that starts at `start`: `id_ty -> (table, self_ty)` or
    /// `join_ty.join_from -> (table.join_to, self_ty)`; gives where it ends.
    pub fn parse(tokens: &Vec<TokenTree>, start: usize) -> (r: Result<(InputImpl, usize), ParseError>)
        ensures
            match r {
                Ok((imp, end)) => read_impl(tokens@, start as int) == Ok::<_, Seq<char>>(
                    (imp@, end as int),
                ),
                Err(e) => read_impl(tokens@, start as int) == Err::<(ImplView, int), _>(
                    e.message@,
                ),
            },
    {
        let (first_ty, e) = parse_type(tokens, start)?;
        proof {
            reveal_strlit("`->`");
            lemma_type_end_bounds(tokens@, start as int, 0);
        }
        if punct_at(tokens, e, '.') {
            if tokens.len() - e <= 4 {
                return Err(expected("`->`"));
            }
            let join_from = match ident_at(tokens, e + 1) {
                Some(join_from) => join_from,
                None => return Err(expected("`->`")),
            };
            if !arrow_at(tokens, e + 2) {
                return Err(expected("`->`"));
            }
            let inside = match group_at(tokens, e + 4, Delimiter::Parenthesis) {
                Some(inside) => inside,
                None => return Err(expected("`->`")),
            };
            let (table, join_to, self_ty) = parse_column_and_type(inside)?;
            Ok(
                (
                    InputImpl::HasMany(HasMany { join_ty: first_ty, join_from, table, join_to, self_ty }),
                    e + 5,
                ),
            )
        } else {
            if !arrow_at(tokens, e) || tokens.len() - e <= 2 {
                return Err(expected("`->`"));
            }
            let inside = match group_at(tokens, e + 2, Delimiter::Parenthesis) {
                Some(inside) => inside,
                None => return Err(expected("`->`")),
            };
            let (table, self_ty) = parse_table_and_type(inside)?;
            Ok((InputImpl::HasOne(HasOne { id_ty: first_ty, table, self_ty }), e + 3))
        }
    }
}


/// Read the impls from `start` on, separated by commas, with an optional comma at the end.
fn parse_impls(tokens: &Vec<TokenTree>, start: usize) -> (r: Result<Vec<InputImpl>, ParseError>)
    requires
        start <= tokens@.len(),
    ensures
        match r {
            Ok(impls) => read_impls(tokens@, start as int) == Ok::<_, Seq<char>>(
                impl_views(impls@),
            ),
            Err(e) => read_impls(tokens@, start as int) == Err::<Seq<ImplView>, _>(e.message@),
        },
{
    let mut impls: Vec<InputImpl> = Vec::new();
    let mut i = start;
    proof {
        reveal_strlit("`,`");
        assert(impl_views(impls@) =~= Seq::<ImplView>::empty());
    }
    loop
        invariant
            start <= i <= tokens@.len(),
            read_impls(tokens@, start as int) == match read_impls(tokens@, i as int) {
                Ok(rest) => Ok(impl_views(impls@) + rest),
                Err(message) => Err(message),
            },
        decreases tokens@.len() - i,
    {
        if i == tokens.len() {
            assert(impl_views(impls@) + Seq::<ImplView>::empty() =~= impl_views(impls@));
            return Ok(impls);
        }
        let (imp, next) = InputImpl::parse(tokens, i)?;
        proof {
            lemma_read_impl_moves_on(tokens@, i as int);
        }
        let ghost before = impls@;
        impls.push(imp);
        assert(impl_views(impls@) =~= impl_views(before) + seq![imp@]);
        if next == tokens.len() {
            assert(impl_views(impls@) =~= impl_views(before) + seq![imp@]);
            return Ok(impls);
        }
        if !punct_at(tokens, next, ',') {
            return Err(expected("`,`"));
        }
        proof {
            let rest = read_impls(tokens@, next + 1);
            if rest is Ok {
                assert(impl_views(before) + (seq![imp@] + rest->Ok_0) =~= impl_views(impls@)
                    + rest->Ok_0);
            }
        }
        i = next + 1;
    }
}

/// An impl that reads ends after it starts, and inside the tokens.
proof fn lemma_read_impl_moves_on(tokens: Seq<TokenTree>, i: int)
    requires
        read_impl(tokens, i) is Ok,
    ensures
        i < (read_impl(tokens, i)->Ok_0).1 <= tokens.len(),
{
    lemma_type_at_bounds(tokens, i);
}

/// Read `error = E, context = C` with an optional comma at the end.
fn parse_prelude(inside: &Vec<TokenTree>) -> (r: Result<(String, String), ParseError>)
    ensures
        match r {
            Ok((error_ty, context_ty)) => read_prelude(inside@) == Ok::<_, Seq<char>>(
                (error_ty@, context_ty@),
            ),
            Err(e) => read_prelude(inside@) == Err::<(Seq<char>, Seq<char>), _>(e.message@),
        },
{
    proof {
        reveal_strlit("error");
        reveal_strlit("context");
        reveal_strlit("`error = Type, context = Type`");
    }
    let is_error = match ident_at(inside, 0) {
        Some(name) => crate::code_gen::rust_type::is_named(&name, "error"),
        None => false,
    };
    if !is_error || !punct_at(inside, 1, '=') {
        return Err(expected("`error = Type, context = Type`"));
    }
    let (error_ty, e) = parse_type(inside, 2)?;
    proof {
        lemma_type_end_bounds(inside@, 2, 0);
    }
    if inside.len() - e <= 2 || !punct_at(inside, e, ',') {
        return Err(expected("`error = Type, context = Type`"));
    }
    let is_context = match ident_at(inside, e + 1) {
        Some(name) => crate::code_gen::rust_type::is_named(&name, "context"),
        None => false,
    };
    if !is_context || !punct_at(inside, e + 2, '=') {
        return Err(expected("`error = Type, context = Type`"));
    }
    let (context_ty, f) = parse_type(inside, e + 3)?;
    proof {
        lemma_type_end_bounds(inside@, e + 3, 0);
    }
    if f == inside.len() || (inside.len() - f == 1 && punct_at(inside, f, ',')) {
        Ok((error_ty, context_ty))
    } else {
        Err(expected("`error = Type, context = Type`"))
    }
}

impl Input {
    /// Read the whole macro input: `(error = E, context = C) => { impl, impl, ... }`.
    pub fn parse(tokens: &Vec<TokenTree>) -> (r: Result<Input, ParseError>)
        ensures
            match r {
                Ok(input) => read_input(tokens@) == Ok::<_, Seq<char>>(input@),
                Err(e) => read_input(tokens@) == Err::<InputView, _>(e.message@),
            },
    {
        proof {
            reveal_strlit("`(error = Type, context = Type) => { ... }`");
        }
        if tokens.len() != 4 || !fat_arrow_at(tokens, 1) {
            return Err(expected("`(error = Type, context = Type) => { ... }`"));
        }
        let prelude = match group_at(tokens, 0, Delimiter::Parenthesis) {
            Some(prelude) => prelude,
            None => return Err(expected("`(error = Type, context = Type) => { ... }`")),
        };
        let content = match group_at(tokens, 3, Delimiter::Brace) {
            Some(content) => content,
            None => return Err(expected("`(error = Type, context = Type) => { ... }`")),
        };
        let (error_ty, context_ty) = parse_prelude(prelude)?;
        let impls = parse_impls(content, 0)?;
        Ok(Input { error_ty, context_ty, impls })
    }
}


/// How the generated `load` selects rows.
#[derive(Debug, Clone, Copy, PartialEq, Eq, Structural)]
pub enum Filter {
    /// `column.eq(diesel::pg::expression::dsl::any(ids))`, for PostgreSQL.
    EqAnyArray,
    /// `column.eq_any(ids)`, for MySQL and SQLite.
    EqAny,
}

/// The filter each backend needs.
pub open spec fn filter_spec(backend: Backend) -> Filter {
    match backend {
        Backend::Pg => Filter::EqAnyArray,
        Backend::Mysql | Backend::Sqlite => Filter::EqAny,
    }
}

/// The filter the backend needs.
pub fn filter_for(backend: &Backend) -> (r: Filter)
    ensures
        r == filter_spec(*backend),
{
    match backend {
        Backend::Pg => Filter::EqAnyArray,
        Backend::Mysql | Backend::Sqlite => Filter::EqAny,
    }
}

/// A generated `LoadFrom<key_ty> for self_ty` impl: `load` takes the keys (read from the
/// `join_from` field of each model when there is one), selects the rows of `table` whose
/// `column` holds one of them, and loads them as `self_ty`.
#[derive(Debug)]
pub struct LoadFromImpl {
    /// The type `load` takes a slice of.
    pub key_ty: String,
    /// The type of the loaded models.
    pub self_ty: String,
    /// The error type.
    pub error_ty: String,
    /// The context type.
    pub context_ty: String,
    /// The table the rows are selected from.
    pub table: String,
    /// The column that holds the keys.
    pub column: String,
    /// The field of the given models that holds the keys; none when the keys are given.
    pub join_from: Option<String>,
    /// How rows are selected.
    pub filter: Filter,
}

/// What a generated `LoadFrom` impl holds.
pub struct LoadFromView {
    /// The type `load` takes a slice of.
    pub key_ty: Seq<char>,
    /// The type of the loaded models.
    pub self_ty: Seq<char>,
    /// The error type.
    pub error_ty: Seq<char>,
    /// The context type.
    pub context_ty: Seq<char>,
    /// The table the rows are selected from.
    pub table: Seq<char>,
    /// The column that holds the keys.
    pub column: Seq<char>,
    /// The field of the given models that holds the keys.
    pub join_from: Option<Seq<char>>,
    /// How rows are selected.
    pub filter: Filter,
}

impl View for LoadFromImpl {
    type V = LoadFromView;

    open spec fn view(&self) -> LoadFromView {
        LoadFromView {
            key_ty: self.key_ty@,
            self_ty: self.self_ty@,
            error_ty: self.error_ty@,
            context_ty: self.context_ty@,
            table: self.table@,
            column: self.column@,
            join_from: match self.join_from {
                Some(join_from) => Some(join_from@),
                None => None,
            },
            filter: self.filter,
        }
    }
}

/// The `LoadFrom` impl generated for one impl of the macro input.
pub open spec fn load_from_spec(imp: ImplView, input: InputView, backend: Backend) -> LoadFromView {
    match imp {
        ImplView::HasOne { id_ty, table, self_ty } => LoadFromView {
            key_ty: id_ty,
            self_ty,
            error_ty: input.error_ty,
            context_ty: input.context_ty,
            table,
            column: "id"@,
            join_from: None,
            filter: filter_spec(backend),
        },
        ImplView::HasMany { join_ty, join_from, table, join_to, self_ty } => LoadFromView {
            key_ty: join_ty,
            self_ty,
            error_ty: input.error_ty,
            context_ty: input.context_ty,
            table,
            column: join_to,
            join_from: Some(join_from),
            filter: filter_spec(backend),
        },
    }
}

impl HasOne {
    /// Add the `LoadFrom` impl that loads models by their ids.
    pub fn gen_tokens(&self, input: &Input, backend: &Backend, out: &mut Vec<LoadFromImpl>)
        ensures
            final(out)@.len() == old(out)@.len() + 1,
            forall|i: int| 0 <= i < old(out)@.len() ==> final(out)@[i] == old(out)@[i],
            final(out)@.last()@ == load_from_spec(InputImpl::HasOne(*self)@, input@, *backend),
    {
        proof {
            reveal_strlit("id");
        }
        out.push(
            LoadFromImpl {
                key_ty: copy_of(&self.id_ty),
                self_ty: copy_of(&self.self_ty),
                error_ty: copy_of(&input.error_ty),
                context_ty: copy_of(&input.context_ty),
                table: copy_of(&self.table),
                column: String::from_str("id"),
                join_from: None,
                filter: filter_for(backend),
            },
        );
    }
}

impl HasMany {
    /// Add the `LoadFrom` impl that loads models from other models.
    pub fn gen_tokens(&self, input: &Input, backend: &Backend, out: &mut Vec<LoadFromImpl>)
        ensures
            final(out)@.len() == old(out)@.len() + 1,
            forall|i: int| 0 <= i < old(out)@.len() ==> final(out)@[i] == old(out)@[i],
            final(out)@.last()@ == load_from_spec(InputImpl::HasMany(*self)@, input@, *backend),
    {
        out.push(
            LoadFromImpl {
                key_ty: copy_of(&self.join_ty),
                self_ty: copy_of(&self.self_ty),
                error_ty: copy_of(&input.error_ty),
                context_ty: copy_of(&input.context_ty),
                table: copy_of(&self.table),
                column: copy_of(&self.join_to),
                join_from: Some(copy_of(&self.join_from)),
                filter: filter_for(backend),
            },
        );
    }
}

impl InputImpl {
    /// Add the `LoadFrom` impl this impl of the macro input asks for.
    pub fn gen_tokens(&self, input: &Input, backend: &Backend, out: &mut Vec<LoadFromImpl>)
        ensures
            final(out)@.len() == old(out)@.len() + 1,
            forall|i: int| 0 <= i < old(out)@.len() ==> final(out)@[i] == old(out)@[i],
            final(out)@.last()@ == load_from_spec(self@, input@, *backend),
    {
        match self {
            InputImpl::HasOne(has_one) => has_one.gen_tokens(input, backend, out),
            InputImpl::HasMany(has_many) => has_many.gen_tokens(input, backend, out),
        }
    }
}

/// The `LoadFrom` impls the macro input asks for, or why it does not read.
pub fn go(tokens: &Vec<TokenTree>, backend: Backend) -> (r: Result<Vec<LoadFromImpl>, ParseError>)
    ensures
        match r {
            Ok(impls) => match read_input(tokens@) {
                Ok(input) => {
                    &&& impls@.len() == input.impls.len()
                    &&& forall|i: int|
                        0 <= i < impls@.len() ==> (#[trigger] impls@[i])@ == load_from_spec(
                            input.impls[i],
                            input,
                            backend,
                        )
                },
                Err(_) => false,
            },
            Err(e) => read_input(tokens@) == Err::<InputView, _>(e.message@),
        },
{
    let input = Input::parse(tokens)?;
    let mut out: Vec<LoadFromImpl> = Vec::new();
    let mut i: usize = 0;
    while i < input.impls.len()
        invariant
            i <= input.impls@.len(),
            out@.len() == i,
            forall|j: int|
                0 <= j < i ==> (#[trigger] out@[j])@ == load_from_spec(
                    input.impls@[j]@,
                    input@,
                    backend,
                ),
        decreases input.impls@.len() - i,
    {
        input.impls[i].gen_tokens(&input, &backend, &mut out);
        i = i + 1;
    }
    assert forall|j: int| 0 <= j < out@.len() implies (#[trigger] out@[j])@ == load_from_spec(
        input@.impls[j],
        input@,
        backend,
    ) by {
        assert(input@.impls[j] == input.impls@[j]@);
    }
    Ok(out)
}

} // verus!
