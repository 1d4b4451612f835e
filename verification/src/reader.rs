//! Reading the next tree from text.
//!
//! The text is parsed by the `edn` crate. Its parser stops the program on
//! some texts: on a character that starts no form, on a sign or a `#` with
//! the wrong character behind it, on a string that ends behind a backslash,
//! and on an integer that does not fit 64 bits. So the text is looked over
//! first. [`form_end`] walks the text as the parser does, form by form; it
//! says where the next form ends when the parser can be let loose on it, and
//! refuses the text otherwise: with `Eof` where the text ends inside the
//! form, with `Bad` elsewhere. Only then is the parser called, and what it
//! gives is turned into a value.

use crate::error::Error;
use crate::raw::{raw_value, Raw};
use crate::text::chars_of;
use crate::value::{Value, ValueView};
use edn::Value as Tree;
use vstd::string::StrSliceExecFns;
use vstd::prelude::*;

verus! {

/// What one pull on the parser gave.
#[derive(Debug, PartialEq, Eq)]
pub enum Pull {
    /// The next tree.
    Node(Raw),
    /// Nothing: the text holds no further form.
    End,
    /// The text is malformed, with what the parser says of it.
    Failure(String),
}

/// Whether `c` has the Unicode property White_Space: the code points that
/// `char::is_whitespace` answers with yes.
pub open spec fn whitespace(c: char) -> bool {
    ('\u{9}' <= c && c <= '\u{d}') || c == '\u{20}' || c == '\u{85}' || c == '\u{a0}' || c
        == '\u{1680}' || ('\u{2000}' <= c && c <= '\u{200a}') || c == '\u{2028}' || c
        == '\u{2029}' || c == '\u{202f}' || c == '\u{205f}' || c == '\u{3000}'
}

/// What the parser gives on its first pull on `text`.
pub uninterp spec fn parsed(text: Seq<char>) -> Pull;

/// A tree as the parser of `edn` builds it. Nothing is known of it here: it
/// is only carried from the parser to what turns it into a [`Raw`].
#[verifier::external_type_specification]
#[verifier::external_body]
pub struct ExTree(Tree);

/// Calls `char::is_whitespace`. Believed of it: it answers with yes for the
/// code points with the Unicode property White_Space, which are those that
/// [`whitespace`] lists, and for no others.
#[verifier::external_body]
fn is_whitespace(c: char) -> (r: bool)
    ensures
        r == whitespace(c),
{
    c.is_whitespace()
}

/// Turns the trees of a list of `edn` into trees of this library, one for
/// one and in their order.
#[verifier::external_body]
fn raw_items(items: Vec<Tree>) -> (r: Vec<Raw>) {
    items.into_iter().map(raw_tree).collect()
}

/// Turns an entry of a map of `edn` into a pair of trees of this library: the
/// key and the value, each as `raw_tree` turns it.
#[verifier::external_body]
fn raw_pair(entry: (Tree, Tree)) -> (r: (Raw, Raw)) {
    (raw_tree(entry.0), raw_tree(entry.1))
}

/// Turns a tree of `edn` that holds other trees into a tree of this library:
/// the same variant around the same trees, the entries of a map and the
/// members of a set in the order in which `edn` walks them. Any other tree is
/// handed to `raw_tree`.
#[verifier::external_body]
fn raw_branch(e: Tree) -> (r: Raw) {
    match e {
        Tree::List(v) => Raw::List(raw_items(v)),
        Tree::Vector(v) => Raw::Vector(raw_items(v)),
        Tree::Set(s) => Raw::SetOf(raw_items(s.into_iter().collect())),
        Tree::Map(m) => Raw::Mapping(m.into_iter().map(raw_pair).collect()),
        Tree::Tagged(t, v) => Raw::Tagged(t, Box::new(raw_tree(*v))),
        leaf => raw_tree(leaf),
    }
}

/// Turns a tree of `edn` into a tree of this library: the same variant with
/// the same contents, a float as its bit pattern. A tree that holds other
/// trees is handed to `raw_branch`.
#[verifier::external_body]
fn raw_tree(e: Tree) -> (r: Raw) {
    match e {
        Tree::Nil => Raw::Nil,
        Tree::Boolean(b) => Raw::Boolean(b),
        Tree::String(s) => Raw::String(s),
        Tree::Char(c) => Raw::Char(c),
        Tree::Symbol(s) => Raw::Symbol(s),
        Tree::Keyword(s) => Raw::Keyword(s),
        Tree::Integer(i) => Raw::Integer(i),
        Tree::Float(f) => Raw::Float(f.into_inner().to_bits()),
        branch => raw_branch(branch),
    }
}

/// Calls `Parser::new` and `Parser::read` of `edn`: the first pull on a new
/// parser of `text`.
///
/// Believed of the parser: on a text that is [`readable`] it comes back, and
/// what it comes back with depends on the text alone. That result is named
/// [`parsed`] and handed on one for one: a tree as a tree, a failure with its
/// message, the end as the end.
#[verifier::external_body]
fn first_pull(text: &str) -> (r: Pull)
    requires
        readable(text@),
    ensures
        r == parsed(text@),
{
    match edn::parser::Parser::new(text).read() {
        Some(Ok(tree)) => Pull::Node(raw_tree(tree)),
        Some(Err(e)) => Pull::Failure(e.message),
        None => Pull::End,
    }
}

/// How deep forms may be nested in one another: a bound on the depth to
/// which the parser, and what walks its trees, call themselves.
pub const DEPTH_LIMIT: usize = 128;

/// What the parser skips between forms.
pub open spec fn blank(c: char) -> bool {
    whitespace(c) || c == ','
}

/// A decimal digit.
pub open spec fn digit(c: char) -> bool {
    '0' <= c && c <= '9'
}

/// What a symbol may start with.
pub open spec fn symbol_head(c: char) -> bool {
    ('a' <= c && c <= 'z') || ('A' <= c && c <= 'Z') || c == '.' || c == '*' || c == '+' || c
        == '!' || c == '-' || c == '_' || c == '?' || c == '$' || c == '%' || c == '&' || c == '='
        || c == '<' || c == '>'
}

/// What a symbol may go on with.
pub open spec fn symbol_tail(c: char) -> bool {
    symbol_head(c) || digit(c) || c == ':' || c == '#' || c == '/'
}

/// Where the run of blanks that starts at `i` ends.
pub open spec fn blank_end(s: Seq<char>, i: int) -> int
    decreases s.len() - i,
{
    if 0 <= i < s.len() && blank(s[i]) {
        blank_end(s, i + 1)
    } else {
        i
    }
}

/// Where the run of digits that starts at `i` ends.
pub open spec fn digits_end(s: Seq<char>, i: int) -> int
    decreases s.len() - i,
{
    if 0 <= i < s.len() && digit(s[i]) {
        digits_end(s, i + 1)
    } else {
        i
    }
}

/// Where the run of symbol characters that starts at `i` ends.
pub open spec fn tail_end(s: Seq<char>, i: int) -> int
    decreases s.len() - i,
{
    if 0 <= i < s.len() && symbol_tail(s[i]) {
        tail_end(s, i + 1)
    } else {
        i
    }
}

/// Where the run of characters other than whitespace that starts at `i`
/// ends.
pub open spec fn solid_end(s: Seq<char>, i: int) -> int
    decreases s.len() - i,
{
    if 0 <= i < s.len() && !whitespace(s[i]) {
        solid_end(s, i + 1)
    } else {
        i
    }
}

/// The number that the digits from `from` up to `to` write.
pub open spec fn decimal(s: Seq<char>, from: int, to: int) -> int
    decreases to - from,
{
    if from >= to {
        0
    } else {
        decimal(s, from, to - 1) * 10 + (s[to - 1] as int - '0' as int)
    }
}

/// Where the number whose first digit stands at `first` ends. A number with
/// a point is a float. One without is an integer, and the text is refused
/// where its digits write more than `limit`.
pub open spec fn number_end(s: Seq<char>, first: int, limit: int) -> Result<int, Error> {
    let j = digits_end(s, first);
    if 0 <= j < s.len() && s[j] == '.' {
        Ok(digits_end(s, j + 1))
    } else if decimal(s, first, j) <= limit {
        Ok(j)
    } else {
        Err(Error::Bad)
    }
}

/// Where the string ends whose characters start at `j`, the closing quote
/// included. A text that ends before the closing quote is refused with
/// `Eof`.
pub open spec fn string_end(s: Seq<char>, j: int) -> Result<int, Error>
    decreases s.len() - j,
{
    if j < 0 || j >= s.len() {
        Err(Error::Eof)
    } else if s[j] == '"' {
        Ok(j + 1)
    } else if s[j] == '\\' {
        if j + 1 >= s.len() {
            Err(Error::Eof)
        } else {
            string_end(s, j + 2)
        }
    } else {
        string_end(s, j + 1)
    }
}

/// Where the form that starts at `i` ends, if the parser can be let loose on
/// it; the error to give in its place otherwise. `depth` counts the forms
/// around it.
///
/// The forms are those of the parser, tried in its order: a number; a sign,
/// which starts a number, a symbol, or stands alone before a space, a tab, a
/// line feed or the end; a point, which starts a float or a symbol; a
/// character, which runs up to the next whitespace; a string; a keyword; a
/// list, a vector or a map; after `#` a set or a tag with the form behind it;
/// a symbol; a lone `/`. The parser takes the first character behind the
/// head of a tag whatever it is, and so does this.
///
/// Refused with `Eof` is a text that ends inside the form: inside a string,
/// a list, a vector, a map or a set, behind a tag with no form to it, and
/// right behind a `#` or a backslash.
///
/// Refused with `Bad` are the other texts on which the parser stops the
/// program: a form that starts with any other character, a sign or a `#`
/// with any other character behind it, an integer beyond 64 bits. Refused
/// with `Bad` too is a form that is nested more than [`DEPTH_LIMIT`] deep,
/// since the parser calls itself for every form inside a form. A whole form
/// that the parser rejects by itself is not refused here: the parser is then
/// asked, and says so.
pub open spec fn form_end(s: Seq<char>, i: int, depth: int) -> Result<int, Error>
    decreases s.len() - i, 0int,
{
    if i < 0 || i >= s.len() || depth < 0 || depth > DEPTH_LIMIT {
        Err(Error::Bad)
    } else if digit(s[i]) {
        number_end(s, i, i64::MAX as int)
    } else if s[i] == '+' || s[i] == '-' {
        if i + 1 < s.len() && digit(s[i + 1]) {
            number_end(s, i + 1, if s[i] == '-' { i64::MAX + 1 } else { i64::MAX as int })
        } else if i + 1 < s.len() && symbol_tail(s[i + 1]) {
            Ok(tail_end(s, i + 1))
        } else if i + 1 >= s.len() || s[i + 1] == ' ' || s[i + 1] == '\t' || s[i + 1] == '\n' {
            Ok(i + 1)
        } else {
            Err(Error::Bad)
        }
    } else if s[i] == '.' {
        if i + 1 < s.len() && digit(s[i + 1]) {
            Ok(digits_end(s, i + 1))
        } else {
            Ok(tail_end(s, i + 1))
        }
    } else if s[i] == '\\' {
        if i + 1 >= s.len() {
            Err(Error::Eof)
        } else {
            Ok(solid_end(s, i + 1))
        }
    } else if s[i] == '"' {
        string_end(s, i + 1)
    } else if s[i] == ':' {
        Ok(tail_end(s, i + 1))
    } else if s[i] == '(' {
        items_end(s, i + 1, ')', depth + 1)
    } else if s[i] == '[' {
        items_end(s, i + 1, ']', depth + 1)
    } else if s[i] == '{' {
        items_end(s, i + 1, '}', depth + 1)
    } else if s[i] == '#' {
        if i + 1 >= s.len() {
            Err(Error::Eof)
        } else if s[i + 1] == '{' {
            items_end(s, i + 2, '}', depth + 1)
        } else if symbol_head(s[i + 1]) {
            let from = if i + 2 < s.len() {
                i + 3
            } else {
                i + 2
            };
            let at = blank_end(s, tail_end(s, from));
            if at <= i || at >= s.len() {
                Err(Error::Eof)
            } else {
                form_end(s, at, depth + 1)
            }
        } else {
            Err(Error::Bad)
        }
    } else if symbol_head(s[i]) {
        Ok(tail_end(s, i + 1))
    } else if s[i] == '/' {
        Ok(i + 1)
    } else {
        Err(Error::Bad)
    }
}

/// Where the collection ends whose items start at `j` and which `close`
/// closes, `close` included. A text that ends before `close` is refused with
/// `Eof`.
pub open spec fn items_end(s: Seq<char>, j: int, close: char, depth: int) -> Result<int, Error>
    decreases s.len() - j, 1int,
{
    let at = blank_end(s, j);
    if j < 0 || at < j || at >= s.len() {
        Err(Error::Eof)
    } else if s[at] == close {
        Ok(at + 1)
    } else {
        match form_end(s, at, depth) {
            Ok(end) => if at < end <= s.len() {
                items_end(s, end, close, depth)
            } else {
                Err(Error::Bad)
            },
            Err(e) => Err(e),
        }
    }
}

/// Whether the parser can be let loose on `s`: the text is blank, or its
/// first form is one that `form_end` does not refuse.
pub open spec fn readable(s: Seq<char>) -> bool {
    blank_end(s, 0) >= s.len() || form_end(s, blank_end(s, 0), 0) is Ok
}

fn is_blank(c: char) -> (r: bool)
    ensures
        r == blank(c),
{
    c == ',' || is_whitespace(c)
}

fn is_digit(c: char) -> (r: bool)
    ensures
        r == digit(c),
{
    '0' <= c && c <= '9'
}

fn is_symbol_head(c: char) -> (r: bool)
    ensures
        r == symbol_head(c),
{
    ('a' <= c && c <= 'z') || ('A' <= c && c <= 'Z') || c == '.' || c == '*' || c == '+' || c
        == '!' || c == '-' || c == '_' || c == '?' || c == '$' || c == '%' || c == '&' || c == '='
        || c == '<' || c == '>'
}

fn is_symbol_tail(c: char) -> (r: bool)
    ensures
        r == symbol_tail(c),
{
    is_symbol_head(c) || is_digit(c) || c == ':' || c == '#' || c == '/'
}

fn skip_blank(v: &Vec<char>, i: usize) -> (r: usize)
    requires
        i <= v.len(),
    ensures
        r == blank_end(v@, i as int),
        i <= r <= v.len(),
{
    let mut j = i;
    while j < v.len() && is_blank(v[j])
        invariant
            i <= j <= v.len(),
            blank_end(v@, i as int) == blank_end(v@, j as int),
        decreases v.len() - j,
    {
        j += 1;
    }
    j
}

fn skip_digits(v: &Vec<char>, i: usize) -> (r: usize)
    requires
        i <= v.len(),
    ensures
        r == digits_end(v@, i as int),
        i <= r <= v.len(),
        forall|k: int| i <= k < r ==> digit(#[trigger] v@[k]),
{
    let mut j = i;
    while j < v.len() && is_digit(v[j])
        invariant
            i <= j <= v.len(),
            digits_end(v@, i as int) == digits_end(v@, j as int),
            forall|k: int| i <= k < j ==> digit(#[trigger] v@[k]),
        decreases v.len() - j,
    {
        j += 1;
    }
    j
}

fn skip_tail(v: &Vec<char>, i: usize) -> (r: usize)
    requires
        i <= v.len(),
    ensures
        r == tail_end(v@, i as int),
        i <= r <= v.len(),
{
    let mut j = i;
    while j < v.len() && is_symbol_tail(v[j])
        invariant
            i <= j <= v.len(),
            tail_end(v@, i as int) == tail_end(v@, j as int),
        decreases v.len() - j,
    {
        j += 1;
    }
    j
}

fn skip_solid(v: &Vec<char>, i: usize) -> (r: usize)
    requires
        i <= v.len(),
    ensures
        r == solid_end(v@, i as int),
        i <= r <= v.len(),
{
    let mut j = i;
    while j < v.len() && !is_whitespace(v[j])
        invariant
            i <= j <= v.len(),
            solid_end(v@, i as int) == solid_end(v@, j as int),
        decreases v.len() - j,
    {
        j += 1;
    }
    j
}

/// What the digit `c` counts.
fn digit_value(c: char) -> (r: u128)
    requires
        digit(c),
    ensures
        r == c as int - '0' as int,
        r <= 9,
{
    if c == '0' {
        0
    } else if c == '1' {
        1
    } else if c == '2' {
        2
    } else if c == '3' {
        3
    } else if c == '4' {
        4
    } else if c == '5' {
        5
    } else if c == '6' {
        6
    } else if c == '7' {
        7
    } else if c == '8' {
        8
    } else {
        9
    }
}

/// Whether the digits from `from` up to `to` write at most `limit`.
fn fits(v: &Vec<char>, from: usize, to: usize, limit: u128) -> (r: bool)
    requires
        from <= to <= v.len(),
        forall|k: int| from <= k < to ==> digit(#[trigger] v@[k]),
        limit <= u64::MAX,
    ensures
        r == (decimal(v@, from as int, to as int) <= limit),
{
    let mut acc: u128 = 0;
    let mut k = from;
    while k < to
        invariant
            from <= k <= to <= v.len(),
            forall|k: int| from <= k < to ==> digit(#[trigger] v@[k]),
            limit <= u64::MAX,
            acc == decimal(v@, from as int, k as int),
            acc <= limit,
        decreases to - k,
    {
        let d = digit_value(v[k]);
        let next = acc * 10 + d;
        assert(decimal(v@, from as int, k + 1) == next);
        if next > limit {
            proof {
                lemma_decimal_grows(v@, from as int, k + 1, to as int);
            }
            return false;
        }
        acc = next;
        k += 1;
    }
    true
}

/// More digits do not write less.
proof fn lemma_decimal_grows(s: Seq<char>, from: int, mid: int, to: int)
    requires
        0 <= from <= mid <= to <= s.len(),
        forall|k: int| from <= k < to ==> digit(#[trigger] s[k]),
    ensures
        0 <= decimal(s, from, mid) <= decimal(s, from, to),
    decreases to - from,
{
    if mid < to {
        lemma_decimal_grows(s, from, mid, to - 1);
        assert(digit(s[to - 1]));
    } else if from < mid {
        lemma_decimal_grows(s, from, mid - 1, mid - 1);
        assert(digit(s[mid - 1]));
    }
}

fn scan_number(v: &Vec<char>, first: usize, limit: u128) -> (r: Result<usize, Error>)
    requires
        first < v.len(),
        digit(v@[first as int]),
        limit <= u64::MAX,
    ensures
        match r {
            Ok(end) => number_end(v@, first as int, limit as int) == Ok::<int, Error>(end as int)
                && first < end <= v.len(),
            Err(e) => number_end(v@, first as int, limit as int) == Err::<int, Error>(e),
        },
{
    assert(digits_end(v@, first as int) == digits_end(v@, first + 1));
    let j = skip_digits(v, first + 1);
    if j < v.len() && v[j] == '.' {
        Ok(skip_digits(v, j + 1))
    } else if fits(v, first, j, limit) {
        Ok(j)
    } else {
        Err(Error::Bad)
    }
}

fn scan_string(v: &Vec<char>, start: usize) -> (r: Result<usize, Error>)
    requires
        start <= v.len(),
    ensures
        match r {
            Ok(end) => string_end(v@, start as int) == Ok::<int, Error>(end as int) && start
                <= end <= v.len(),
            Err(e) => string_end(v@, start as int) == Err::<int, Error>(e),
        },
{
    let mut j = start;
    while j < v.len()
        invariant
            start <= j <= v.len(),
            string_end(v@, start as int) == string_end(v@, j as int),
        decreases v.len() - j,
    {
        let c = v[j];
        if c == '"' {
            return Ok(j + 1);
        }
        if c == '\\' {
            if j + 1 >= v.len() {
                return Err(Error::Eof);
            }
            j += 2;
        } else {
            j += 1;
        }
    }
    Err(Error::Eof)
}

fn scan_items(v: &Vec<char>, start: usize, close: char, depth: usize) -> (r: Result<
    usize,
    Error,
>)
    requires
        start <= v.len(),
    ensures
        match r {
            Ok(end) => items_end(v@, start as int, close, depth as int) == Ok::<int, Error>(
                end as int,
            ) && start <= end <= v.len(),
            Err(e) => items_end(v@, start as int, close, depth as int) == Err::<int, Error>(e),
        },
    decreases v.len() - start, 1int,
{
    let mut j = start;
    loop
        invariant
            start <= j <= v.len(),
            items_end(v@, start as int, close, depth as int) == items_end(
                v@,
                j as int,
                close,
                depth as int,
            ),
        decreases v.len() - j,
    {
        let at = skip_blank(v, j);
        if at >= v.len() {
            return Err(Error::Eof);
        }
        if v[at] == close {
            return Ok(at + 1);
        }
        match scan_form(v, at, depth) {
            Ok(end) => {
                j = end;
            },
            Err(e) => {
                return Err(e);
            },
        }
    }
}

fn scan_form(v: &Vec<char>, i: usize, depth: usize) -> (r: Result<usize, Error>)
    requires
        i < v.len(),
    ensures
        match r {
            Ok(end) => form_end(v@, i as int, depth as int) == Ok::<int, Error>(end as int) && i
                < end <= v.len(),
            Err(e) => form_end(v@, i as int, depth as int) == Err::<int, Error>(e),
        },
    decreases v.len() - i, 0int,
{
    if depth > DEPTH_LIMIT {
        return Err(Error::Bad);
    }
    let c = v[i];
    let n = v.len();
    if is_digit(c) {
        scan_number(v, i, 0x7fff_ffff_ffff_ffff)
    } else if c == '+' || c == '-' {
        if i + 1 < n && is_digit(v[i + 1]) {
            scan_number(
                v,
                i + 1,
                if c == '-' {
                    0x8000_0000_0000_0000
                } else {
                    0x7fff_ffff_ffff_ffff
                },
            )
        } else if i + 1 < n && is_symbol_tail(v[i + 1]) {
            Ok(skip_tail(v, i + 1))
        } else if i + 1 >= n || v[i + 1] == ' ' || v[i + 1] == '\t' || v[i + 1] == '\n' {
            Ok(i + 1)
        } else {
            Err(Error::Bad)
        }
    } else if c == '.' {
        if i + 1 < n && is_digit(v[i + 1]) {
            Ok(skip_digits(v, i + 1))
        } else {
            Ok(skip_tail(v, i + 1))
        }
    } else if c == '\\' {
        if i + 1 >= n {
            Err(Error::Eof)
        } else {
            Ok(skip_solid(v, i + 1))
        }
    } else if c == '"' {
        scan_string(v, i + 1)
    } else if c == ':' {
        Ok(skip_tail(v, i + 1))
    } else if c == '(' {
        scan_items(v, i + 1, ')', depth + 1)
    } else if c == '[' {
        scan_items(v, i + 1, ']', depth + 1)
    } else if c == '{' {
        scan_items(v, i + 1, '}', depth + 1)
    } else if c == '#' {
        if i + 1 >= n {
            Err(Error::Eof)
        } else if v[i + 1] == '{' {
            scan_items(v, i + 2, '}', depth + 1)
        } else if is_symbol_head(v[i + 1]) {
            let from = if i + 2 < n {
                i + 3
            } else {
                i + 2
            };
            let at = skip_blank(v, skip_tail(v, from));
            if at >= n {
                Err(Error::Eof)
            } else {
                scan_form(v, at, depth + 1)
            }
        } else {
            Err(Error::Bad)
        }
    } else if is_symbol_head(c) {
        Ok(skip_tail(v, i + 1))
    } else if c == '/' {
        Ok(i + 1)
    } else {
        Err(Error::Bad)
    }
}

/// Whether `message` holds the word `EOF`.
pub open spec fn mentions_eof(message: Seq<char>) -> bool {
    exists|i: int|
        0 <= i && i + 3 <= message.len() && #[trigger] message[i] == 'E' && message[i + 1] == 'O'
            && message[i + 2] == 'F'
}

/// What a pull comes to: the value that the tree stands for; `Eof` where the
/// text holds no further form, and where the parser's message speaks of
/// `EOF`; `Bad` for every other failure.
pub open spec fn outcome(pull: Pull) -> Result<ValueView, Error> {
    match pull {
        Pull::Node(tree) => Ok(raw_value(tree)),
        Pull::End => Err(Error::Eof),
        Pull::Failure(message) => if mentions_eof(message@) {
            Err(Error::Eof)
        } else {
            Err(Error::Bad)
        },
    }
}

/// How far into `s` a read goes: to the end of the first form, and to the
/// end of the text where there is no form or the form is refused.
pub open spec fn read_end(s: Seq<char>) -> int {
    let i = blank_end(s, 0);
    if i < 0 || i >= s.len() {
        s.len() as int
    } else {
        match form_end(s, i, 0) {
            Ok(end) => end,
            Err(_) => s.len() as int,
        }
    }
}

/// What a read of `s` gives: `Eof` where `s` is blank, the error that
/// `form_end` gives where it refuses the first form, and else what the
/// parser's pull comes to.
pub open spec fn read_node(s: Seq<char>) -> Result<ValueView, Error> {
    let i = blank_end(s, 0);
    if i < 0 || i >= s.len() {
        Err(Error::Eof)
    } else {
        match form_end(s, i, 0) {
            Ok(_) => outcome(parsed(s)),
            Err(e) => Err(e),
        }
    }
}

/// Says whether `message` holds the word `EOF`.
pub fn has_eof(message: &str) -> (r: bool)
    ensures
        r == mentions_eof(message@),
{
    let v = chars_of(message);
    if v.len() < 3 {
        return false;
    }
    let last = v.len() - 3;
    let mut i: usize = 0;
    while i <= last
        invariant
            v@ == message@,
            last + 3 == v.len(),
            forall|k: int|
                0 <= k < i ==> !(#[trigger] v@[k] == 'E' && v@[k + 1] == 'O' && v@[k + 2] == 'F'),
        decreases v.len() - i,
    {
        if v[i] == 'E' && v[i + 1] == 'O' && v[i + 2] == 'F' {
            return true;
        }
        i += 1;
    }
    false
}

/// Says what a pull comes to.
pub fn classify(pull: Pull) -> (r: Result<Value, Error>)
    ensures
        match r {
            Ok(v) => outcome(pull) == Ok::<ValueView, Error>(v@),
            Err(e) => outcome(pull) == Err::<ValueView, Error>(e),
        },
        r matches Ok(v) ==> crate::sorted::well_formed(v@),
{
    match pull {
        Pull::Node(tree) => Ok(Value::from(tree)),
        Pull::End => Err(Error::Eof),
        Pull::Failure(message) => if has_eof(message.as_str()) {
            Err(Error::Eof)
        } else {
            Err(Error::Bad)
        },
    }
}

/// Reads the next value from `text`, and gives it with the text that is left
/// behind it.
pub fn read<'a>(text: &'a str) -> (r: (Result<Value, Error>, &'a str))
    ensures
        match r.0 {
            Ok(v) => read_node(text@) == Ok::<ValueView, Error>(v@),
            Err(e) => read_node(text@) == Err::<ValueView, Error>(e),
        },
        r.0 matches Ok(v) ==> crate::sorted::well_formed(v@),
        0 <= read_end(text@) <= text@.len(),
        r.1@ == text@.skip(read_end(text@)),
{
    let v = chars_of(text);
    let n = v.len();
    let i = skip_blank(&v, 0);
    if i >= n {
        return (Err(Error::Eof), text.substring_char(n, n));
    }
    match scan_form(&v, i, 0) {
        Ok(end) => {
            let left = text.substring_char(end, n);
            (classify(first_pull(text)), left)
        },
        Err(e) => (Err(e), text.substring_char(n, n)),
    }
}

/// A run that starts within the text ends within the text, and not before
/// it starts.
pub proof fn lemma_runs_end(s: Seq<char>, i: int)
    requires
        0 <= i <= s.len(),
    ensures
        i <= blank_end(s, i) <= s.len(),
        i <= digits_end(s, i) <= s.len(),
        i <= tail_end(s, i) <= s.len(),
        i <= solid_end(s, i) <= s.len(),
    decreases s.len() - i,
{
    if i < s.len() {
        lemma_runs_end(s, i + 1);
    }
}

/// A string that is not refused ends within the text, with its closing
/// quote.
pub proof fn lemma_string_end(s: Seq<char>, j: int)
    requires
        0 <= j <= s.len(),
    ensures
        string_end(s, j) matches Ok(end) ==> j < end <= s.len() && s[end - 1] == '"',
    decreases s.len() - j,
{
    if j < s.len() && s[j] != '"' {
        if s[j] == '\\' {
            if j + 1 < s.len() {
                lemma_string_end(s, j + 2);
            }
        } else {
            lemma_string_end(s, j + 1);
        }
    }
}

/// A form takes at least one character, and ends within the text.
pub proof fn lemma_form_end(s: Seq<char>, i: int, depth: int)
    requires
        0 <= i < s.len(),
    ensures
        form_end(s, i, depth) matches Ok(end) ==> i < end <= s.len(),
    decreases s.len() - i, 0int,
{
    lemma_runs_end(s, i + 1);
    lemma_string_end(s, i + 1);
    if digits_end(s, i + 1) < s.len() {
        lemma_runs_end(s, digits_end(s, i + 1) + 1);
    }
    if i + 1 < s.len() {
        lemma_items_end(s, i + 2, '}', depth + 1);
        if i + 2 < s.len() {
            lemma_runs_end(s, i + 2);
            lemma_runs_end(s, i + 3);
            lemma_runs_end(s, tail_end(s, i + 3));
        } else {
            lemma_runs_end(s, i + 2);
            lemma_runs_end(s, tail_end(s, i + 2));
        }
        let from = if i + 2 < s.len() {
            i + 3
        } else {
            i + 2
        };
        let at = blank_end(s, tail_end(s, from));
        if i < at < s.len() {
            lemma_form_end(s, at, depth + 1);
        }
    }
    lemma_items_end(s, i + 1, ')', depth + 1);
    lemma_items_end(s, i + 1, ']', depth + 1);
    lemma_items_end(s, i + 1, '}', depth + 1);
}

/// A collection that is not refused ends within the text, with the
/// character that closes it.
pub proof fn lemma_items_end(s: Seq<char>, j: int, close: char, depth: int)
    requires
        0 <= j <= s.len(),
    ensures
        items_end(s, j, close, depth) matches Ok(end) ==> j < end <= s.len() && s[end - 1]
            == close,
    decreases s.len() - j, 1int,
{
    lemma_runs_end(s, j);
    let at = blank_end(s, j);
    if at < s.len() && s[at] != close {
        lemma_form_end(s, at, depth);
        match form_end(s, at, depth) {
            Ok(end) => {
                lemma_items_end(s, end, close, depth);
            },
            Err(_) => {},
        }
    }
}

/// A read ends within the text, and a read that gives a value takes at least
/// one character: a text is read to its end in no more reads than it has
/// characters.
pub proof fn lemma_read_moves_on(s: Seq<char>)
    ensures
        0 <= read_end(s) <= s.len(),
        read_node(s) is Ok ==> read_end(s) > 0,
{
    lemma_runs_end(s, 0);
    let i = blank_end(s, 0);
    if i < s.len() {
        lemma_form_end(s, i, 0);
    }
}

} // verus!
