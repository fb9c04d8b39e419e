//! The tokenizer of the S-expression documents.

use crate::strings::{chars_of, string_of};
use vstd::prelude::*;

verus! {

/// A token of a document.
#[derive(Debug, PartialEq, Eq, Clone)]
pub enum State {
    /// An opening bracket and the name behind it.
    StartSymbol(String),
    /// A closing bracket.
    EndSymbol,
    /// A value without quotes.
    Values(String),
    /// A text between quotes, without them.
    Text(String),
}

/// A token, with the characters of its string.
pub enum Token {
    StartSymbol(Seq<char>),
    EndSymbol,
    Values(Seq<char>),
    Text(Seq<char>),
}

impl State {
    /// The token with the characters of its string.
    pub open spec fn view(self) -> Token {
        match self {
            State::StartSymbol(s) => Token::StartSymbol(s@),
            State::EndSymbol => Token::EndSymbol,
            State::Values(s) => Token::Values(s@),
            State::Text(s) => Token::Text(s@),
        }
    }
}

/// What the tokenizer is in the middle of.
#[derive(Debug, PartialEq, Eq, Clone, Copy, Structural)]
pub enum IntState {
    /// Before the first opening bracket.
    NotStarted,
    /// In the name behind an opening bracket.
    Symbol,
    /// Among the values of a node.
    Values,
    /// Behind a token that a closing bracket ended: the bracket is the next
    /// token.
    BeforeEndSymbol,
}

/// Where the tokenizer stands.
pub struct Cursor {
    /// The place of the next character.
    pub pos: int,
    /// The place where the token in the making began.
    pub start: int,
    /// What the tokenizer is in the middle of.
    pub state: IntState,
}

/// Whether the character ends a name.
pub open spec fn ends_symbol(c: char) -> bool {
    c == ' ' || c == '\n' || c == ')'
}

/// Whether the character ends a value.
pub open spec fn ends_value(c: char) -> bool {
    c == ' ' || c == '\t' || c == '\n' || c == ')'
}

/// The state behind a token that the character `c` ended.
pub open spec fn state_behind(c: char) -> IntState {
    if c == ')' {
        IntState::BeforeEndSymbol
    } else {
        IntState::Values
    }
}

/// The place of the quote that closes the text which began before `pos`: the
/// first quote that no backslash stands directly before; the length of the
/// content if there is none. `last` is the character before `pos`.
pub open spec fn closing_quote(content: Seq<char>, pos: int, last: char) -> int
    decreases content.len() - pos,
{
    if pos < 0 || pos >= content.len() {
        content.len() as int
    } else if content[pos] == '"' && last != '\\' {
        pos
    } else {
        closing_quote(content, pos + 1, content[pos])
    }
}

/// The next token from the cursor on, and the cursor behind it; no token at
/// the end of the content.
///
/// Before the first opening bracket everything is passed over. A name runs
/// to the next blank, line end or closing bracket. A value runs to the next
/// blank, tab, line end or closing bracket; an opening bracket or a quote
/// amid a value drops what came before it. A text runs to its closing quote,
/// and a text that the content ends before it is closed is no token.
pub open spec fn scan(content: Seq<char>, c: Cursor) -> (Option<Token>, Cursor)
    decreases content.len() - c.pos,
{
    if c.pos < 0 || c.pos >= content.len() {
        (None, c)
    } else {
        let i = c.pos;
        let ch = content[i];
        match c.state {
            IntState::NotStarted => if ch == '(' {
                scan(content, Cursor { pos: i + 1, start: i + 1, state: IntState::Symbol })
            } else {
                scan(content, Cursor { pos: i + 1, start: c.start, state: c.state })
            },
            IntState::Symbol => if ends_symbol(ch) {
                (
                    Some(Token::StartSymbol(content.subrange(c.start, i))),
                    Cursor { pos: i + 1, start: i + 1, state: state_behind(ch) },
                )
            } else {
                scan(content, Cursor { pos: i + 1, start: c.start, state: c.state })
            },
            IntState::Values => if ends_value(ch) {
                if i - c.start > 0 {
                    (
                        Some(Token::Values(content.subrange(c.start, i))),
                        Cursor { pos: i + 1, start: i + 1, state: state_behind(ch) },
                    )
                } else if ch == ')' {
                    (
                        Some(Token::EndSymbol),
                        Cursor { pos: i + 1, start: i + 1, state: IntState::Values },
                    )
                } else {
                    scan(content, Cursor { pos: i + 1, start: i + 1, state: IntState::Values })
                }
            } else if ch == '(' {
                scan(content, Cursor { pos: i + 1, start: i + 1, state: IntState::Symbol })
            } else if ch == '"' {
                let q = closing_quote(content, i + 1, '\0');
                if q < content.len() {
                    (
                        Some(Token::Text(content.subrange(i + 1, q))),
                        Cursor { pos: q + 1, start: q + 1, state: IntState::Values },
                    )
                } else {
                    (None, Cursor { pos: content.len() as int, start: i + 1, state: IntState::Values })
                }
            } else {
                scan(content, Cursor { pos: i + 1, start: c.start, state: c.state })
            },
            IntState::BeforeEndSymbol => scan(
                content,
                Cursor { pos: i + 1, start: c.start, state: c.state },
            ),
        }
    }
}

/// The next token of the iterator: the closing bracket that ended the last
/// token, if one did, and else what `scan` finds.
pub open spec fn next_token(content: Seq<char>, c: Cursor) -> (Option<Token>, Cursor) {
    if c.state == IntState::BeforeEndSymbol {
        (Some(Token::EndSymbol), Cursor { pos: c.pos, start: c.start, state: IntState::Values })
    } else {
        scan(content, c)
    }
}

/// The place behind the bracket that closes the node in which `pos` lies
/// `depth` levels deep, quoted texts passed over; `None` if the content ends
/// before the node is closed.
pub open spec fn behind_closing(content: Seq<char>, pos: int, depth: nat) -> Option<int>
    decreases content.len() - pos,
{
    if pos < 0 || pos >= content.len() {
        None
    } else if content[pos] == '(' {
        behind_closing(content, pos + 1, depth + 1)
    } else if content[pos] == ')' {
        if depth <= 1 {
            Some(pos + 1)
        } else {
            behind_closing(content, pos + 1, (depth - 1) as nat)
        }
    } else if content[pos] == '"' {
        let q = closing_quote(content, pos + 1, '\0');
        proof {
            lemma_closing_quote_range(content, pos + 1, '\0');
        }
        if q < content.len() {
            behind_closing(content, q + 1, depth)
        } else {
            None
        }
    } else {
        behind_closing(content, pos + 1, depth)
    }
}

/// What `next_siebling` gives: the token behind the bracket that closes the
/// node in which the cursor stands, or no token if the content ends before
/// the node is closed.
pub open spec fn after_node(content: Seq<char>, c: Cursor) -> (Option<Token>, Cursor) {
    match behind_closing(content, c.pos, 1) {
        Some(p) => scan(content, Cursor { pos: p, start: c.start, state: IntState::NotStarted }),
        None => (None, Cursor { pos: content.len() as int, start: c.start, state: c.state }),
    }
}

/// `closing_quote` lies between `pos` and the end of the content.
pub proof fn lemma_closing_quote_range(content: Seq<char>, pos: int, last: char)
    requires
        0 <= pos <= content.len(),
    ensures
        pos <= closing_quote(content, pos, last) <= content.len(),
    decreases content.len() - pos,
{
    if pos < content.len() && !(content[pos] == '"' && last != '\\') {
        lemma_closing_quote_range(content, pos + 1, content[pos]);
    }
}

/// Parse sexp document.
pub struct SexpParser {
    /// The characters of the document.
    pub content: Vec<char>,
}

impl SexpParser {
    /// A parser for the document.
    pub fn from(content: String) -> (p: Self)
        ensures
            p.content@ == content@,
    {
        Self { content: chars_of(content.as_str()) }
    }

    /// An iterator over the tokens of the document, at its begin.
    pub fn iter(&self) -> (it: SexpIter<'_>)
        ensures
            it.wf(),
            it.content@ == self.content@,
            it.pos == 0,
            it.start_index == 0,
            it.int_state == IntState::NotStarted,
    {
        SexpIter::new(&self.content)
    }
}

/// Sexp Iterator,
pub struct SexpIter<'a> {
    /// The characters of the document.
    pub content: &'a Vec<char>,
    /// The place of the next character.
    pub pos: usize,
    /// The place where the token in the making began.
    pub start_index: usize,
    /// What the tokenizer is in the middle of.
    pub int_state: IntState,
}

impl<'a> SexpIter<'a> {
    /// The invariant: the token in the making began before the next
    /// character, which lies within the content or at its end.
    pub open spec fn wf(self) -> bool {
        self.start_index <= self.pos <= self.content@.len()
    }

    /// Where the iterator stands.
    pub open spec fn cursor(self) -> Cursor {
        Cursor { pos: self.pos as int, start: self.start_index as int, state: self.int_state }
    }

    /// An iterator at the begin of the content.
    pub fn new(content: &'a Vec<char>) -> (it: Self)
        ensures
            it.wf(),
            it.content@ == content@,
            it.pos == 0,
            it.start_index == 0,
            it.int_state == IntState::NotStarted,
    {
        Self { content, pos: 0, start_index: 0, int_state: IntState::NotStarted }
    }

    /// The place of the quote that closes a text, from `pos` on.
    fn find_closing_quote(&self, pos: usize) -> (q: usize)
        requires
            pos <= self.content@.len(),
        ensures
            q as int == closing_quote(self.content@, pos as int, '\0'),
            pos <= q <= self.content@.len(),
    {
        let mut last_char = '\0';
        let mut i: usize = pos;
        proof {
            lemma_closing_quote_range(self.content@, pos as int, '\0');
        }
        while i < self.content.len()
            invariant
                pos <= i <= self.content@.len(),
                closing_quote(self.content@, pos as int, '\0') == closing_quote(
                    self.content@,
                    i as int,
                    last_char,
                ),
            decreases self.content.len() - i,
        {
            let ch = self.content[i];
            if ch == '"' && last_char != '\\' {
                return i;
            }
            last_char = ch;
            i += 1;
        }
        i
    }

    /// Get the next node.
    pub fn next(&mut self) -> (r: Option<State>)
        requires
            old(self).wf(),
        ensures
            final(self).wf(),
            final(self).content == old(self).content,
            final(self).cursor() == next_token(old(self).content@, old(self).cursor()).1,
            match r {
                Some(s) => next_token(old(self).content@, old(self).cursor()).0 == Some(s.view()),
                None => next_token(old(self).content@, old(self).cursor()).0 is None,
            },
    {
        if self.int_state == IntState::BeforeEndSymbol {
            self.int_state = IntState::Values;
            return Some(State::EndSymbol);
        }
        let ghost target = scan(self.content@, self.cursor());
        while self.pos < self.content.len()
            invariant
                self.wf(),
                self.content == old(self).content,
                self.int_state != IntState::BeforeEndSymbol,
                target == scan(self.content@, self.cursor()),
                target == next_token(old(self).content@, old(self).cursor()),
            decreases self.content.len() - self.pos,
        {
            let i = self.pos;
            let ch = self.content[i];
            self.pos = i + 1;
            match self.int_state {
                IntState::NotStarted => {
                    if ch == '(' {
                        self.start_index = i + 1;
                        self.int_state = IntState::Symbol;
                    }
                },
                IntState::Symbol => {
                    if ch == ' ' || ch == '\n' || ch == ')' {
                        let name = string_of(self.content, self.start_index, i);
                        self.start_index = i + 1;
                        self.int_state = if ch == ')' {
                            IntState::BeforeEndSymbol
                        } else {
                            IntState::Values
                        };
                        return Some(State::StartSymbol(name));
                    }
                },
                IntState::Values => {
                    if ch == ' ' || ch == '\t' || ch == '\n' || ch == ')' {
                        if i - self.start_index > 0 {
                            let value = string_of(self.content, self.start_index, i);
                            self.start_index = i + 1;
                            self.int_state = if ch == ')' {
                                IntState::BeforeEndSymbol
                            } else {
                                IntState::Values
                            };
                            return Some(State::Values(value));
                        }
                        self.start_index = i + 1;
                        if ch == ')' {
                            return Some(State::EndSymbol);
                        }
                    } else if ch == '(' {
                        self.start_index = i + 1;
                        self.int_state = IntState::Symbol;
                    } else if ch == '"' {
                        self.start_index = i + 1;
                        let q = self.find_closing_quote(i + 1);
                        if q < self.content.len() {
                            let value = string_of(self.content, i + 1, q);
                            self.pos = q + 1;
                            self.start_index = q + 1;
                            return Some(State::Text(value));
                        } else {
                            self.pos = self.content.len();
                            return None;
                        }
                    }
                },
                IntState::BeforeEndSymbol => {},
            }
        }
        None
    }

    /// Seek to the next siebling of the current node: passes over the rest
    /// of the node, up to its closing bracket, and gives the token that
    /// follows; no token if the node is not closed.
    pub fn next_siebling(&mut self) -> (r: Option<State>)
        requires
            old(self).wf(),
        ensures
            final(self).wf(),
            final(self).content == old(self).content,
            final(self).cursor() == after_node(old(self).content@, old(self).cursor()).1,
            match r {
                Some(s) => after_node(old(self).content@, old(self).cursor()).0 == Some(s.view()),
                None => after_node(old(self).content@, old(self).cursor()).0 is None,
            },
    {
        let mut count: u128 = 1;
        while self.pos < self.content.len()
            invariant
                self.wf(),
                self.content == old(self).content,
                self.start_index == old(self).start_index,
                self.int_state == old(self).int_state,
                count >= 1,
                count <= self.pos + 1,
                behind_closing(old(self).content@, old(self).pos as int, 1) == behind_closing(
                    self.content@,
                    self.pos as int,
                    count as nat,
                ),
            decreases self.content.len() - self.pos,
        {
            let ch = self.content[self.pos];
            self.pos = self.pos + 1;
            if ch == '(' {
                count += 1;
            } else if ch == ')' {
                count -= 1;
                if count == 0 {
                    self.int_state = IntState::NotStarted;
                    return self.next();
                }
            } else if ch == '"' {
                let q = self.find_closing_quote(self.pos);
                if q < self.content.len() {
                    self.pos = q + 1;
                } else {
                    self.pos = self.content.len();
                    return None;
                }
            }
        }
        None
    }
}

} // verus!
