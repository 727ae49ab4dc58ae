//! The state of the parser, and its steps below the level of the grammar.
use super::host::{
    Answer, AnswerView, Context, Cursor, Reply, ReplyView, Request, Rule, Stop,
};
use super::modifiers::{Modifier, ModifierPlace, Modifiers, ModifiersView};
use super::syntax::{Diagnostic, Kind, Node, Token};
use crate::span::Span;
use std::collections::VecDeque;
use vstd::prelude::*;

verus! {

/// The parser: a token stream, the replies of the host parser, and what has come of them.
#[derive(Clone, Debug)]
pub struct ParserImpl {
    pub tokens: Vec<Token>,
    /// The position behind the last token.
    pub source_end: u32,
    pub cursor: Cursor,
    pub ctx: Context,
    pub is_ts: bool,
    /// Decorators that were read and belong to what follows.
    pub decorators: Vec<Node>,
    pub errors: Vec<Diagnostic>,
    /// The replies that have not been asked for yet.
    pub replies: VecDeque<Reply>,
    /// Every request so far.
    pub requests: Vec<Request>,
}

/// The model of a [`ParserImpl`].
#[verifier::ext_equal]
pub struct State {
    pub tokens: Seq<Token>,
    pub source_end: u32,
    pub cursor: Cursor,
    pub ctx: Context,
    pub is_ts: bool,
    pub decorators: Seq<Node>,
    pub errors: Seq<Diagnostic>,
    pub replies: Seq<ReplyView>,
    pub requests: Seq<Request>,
}

/// A state, and what was parsed on the way to it.
pub type Step<T> = (State, Result<T, Stop>);

/// A result and its model agree.
pub open spec fn agrees<T: View>(given: Result<T, Stop>, expected: Result<T::V, Stop>) -> bool {
    match (given, expected) {
        (Ok(value), Ok(model)) => value@ == model,
        (Err(stop), Err(model)) => stop == model,
        _ => false,
    }
}

impl View for ParserImpl {
    type V = State;

    open spec fn view(&self) -> State {
        State {
            tokens: self.tokens@,
            source_end: self.source_end,
            cursor: self.cursor,
            ctx: self.ctx,
            is_ts: self.is_ts,
            decorators: self.decorators@,
            errors: self.errors@,
            replies: self.replies@.map_values(|reply: Reply| reply@),
            requests: self.requests@,
        }
    }
}

/// The token that stands for the end of the source.
pub open spec fn eof_token(source_end: u32) -> Token {
    Token {
        kind: Kind::Eof,
        span: Span { start: source_end, end: source_end },
        is_on_new_line: false,
        is_binding_identifier: false,
        is_class_element_name_start: false,
    }
}

impl State {
    /// How many tokens there are. A vector holds no more than can be counted.
    pub open spec fn token_count(self) -> int {
        if self.tokens.len() > usize::MAX {
            usize::MAX as int
        } else {
            self.tokens.len() as int
        }
    }

    /// The token of that number.
    pub open spec fn token(self, index: int) -> Token {
        if index < self.token_count() {
            self.tokens[index]
        } else {
            eof_token(self.source_end)
        }
    }

    /// The current token.
    pub open spec fn cur(self) -> Token {
        self.token(self.cursor.index as int)
    }

    /// The token behind the current one.
    pub open spec fn peek(self) -> Token {
        self.token(self.cursor.index + 1)
    }

    /// The current token is of this kind.
    pub open spec fn at(self, kind: Kind) -> bool {
        self.cur().kind == kind
    }

    /// The token behind the current one is of this kind.
    pub open spec fn peek_at(self, kind: Kind) -> bool {
        self.peek().kind == kind
    }

    /// The state behind the current token. The end of the source has nothing behind it.
    pub open spec fn advance(self) -> State {
        State {
            cursor: Cursor {
                index: if self.cursor.index < self.token_count() {
                    (self.cursor.index + 1) as usize
                } else {
                    self.cursor.index
                },
                prev_token_end: self.cur().span.end,
            },
            ..self
        }
    }

    /// The state behind the current token if it is of this kind.
    pub open spec fn eat(self, kind: Kind) -> State {
        if self.at(kind) {
            self.advance()
        } else {
            self
        }
    }

    /// The span from `start` to the end of the token before the current one.
    pub open spec fn end_span(self, start: u32) -> Span {
        Span { start, end: self.cursor.prev_token_end }
    }

    /// The state after a report.
    pub open spec fn error(self, diagnostic: Diagnostic) -> State {
        State { errors: self.errors.push(diagnostic), ..self }
    }

    /// The state after a report, if `reported` holds.
    pub open spec fn error_if(self, reported: bool, diagnostic: Diagnostic) -> State {
        if reported {
            self.error(diagnostic)
        } else {
            self
        }
    }

    /// The state after the pending decorators were taken.
    pub open spec fn without_decorators(self) -> State {
        State { decorators: Seq::empty(), ..self }
    }

    /// The state after a check of modifiers.
    pub open spec fn verify_modifiers(
        self,
        modifiers: ModifiersView,
        place: ModifierPlace,
    ) -> State {
        State { errors: self.errors + place.complaints(modifiers.list), ..self }
    }

    /// The state with a request in the log.
    pub open spec fn requested(self, rule: Rule, ctx: Context) -> State {
        State {
            requests: self.requests.push(Request { rule, index: self.cursor.index, ctx }),
            ..self
        }
    }

    /// Asks for a part in the given context: the request is logged, the next reply is taken,
    /// the cursor moves to where the host parser stopped, and what it reported is reported.
    pub open spec fn ask_in(self, rule: Rule, ctx: Context) -> Step<AnswerView> {
        let asked = self.requested(rule, ctx);
        if self.replies.len() == 0 {
            (asked, Err(Stop::Pending))
        } else {
            let reply = self.replies[0];
            (
                State {
                    cursor: reply.cursor,
                    errors: self.errors + reply.errors,
                    replies: self.replies.drop_first(),
                    ..asked
                },
                Ok(reply.answer),
            )
        }
    }

    /// Asks for a part in the present context.
    pub open spec fn ask(self, rule: Rule) -> Step<AnswerView> {
        self.ask_in(rule, self.ctx)
    }
}

impl ParserImpl {
    /// A parser at the first token, with nothing reported, asked or pending.
    pub fn new(
        tokens: Vec<Token>,
        source_end: u32,
        ctx: Context,
        is_ts: bool,
        decorators: Vec<Node>,
        replies: VecDeque<Reply>,
    ) -> (parser: ParserImpl)
        ensures
            parser@ == (State {
                tokens: tokens@,
                source_end,
                cursor: Cursor { index: 0, prev_token_end: 0 },
                ctx,
                is_ts,
                decorators: decorators@,
                errors: Seq::empty(),
                replies: replies@.map_values(|reply: Reply| reply@),
                requests: Seq::empty(),
            }),
    {
        ParserImpl {
            tokens,
            source_end,
            cursor: Cursor { index: 0, prev_token_end: 0 },
            ctx,
            is_ts,
            decorators,
            errors: Vec::new(),
            replies,
            requests: Vec::new(),
        }
    }

    fn token(&self, index: usize) -> (token: Token)
        ensures
            token == self@.token(index as int),
    {
        if index < self.tokens.len() {
            self.tokens[index]
        } else {
            Token {
                kind: Kind::Eof,
                span: Span { start: self.source_end, end: self.source_end },
                is_on_new_line: false,
                is_binding_identifier: false,
                is_class_element_name_start: false,
            }
        }
    }

    /// The current token.
    pub fn cur_token(&self) -> (token: Token)
        ensures
            token == self@.cur(),
    {
        self.token(self.cursor.index)
    }

    /// The token behind the current one.
    pub fn peek_token(&self) -> (token: Token)
        ensures
            token == self@.peek(),
    {
        if self.cursor.index < self.tokens.len() {
            self.token(self.cursor.index + 1)
        } else {
            self.token(self.cursor.index)
        }
    }

    /// Tells whether the current token is of this kind.
    pub fn at(&self, kind: Kind) -> (at: bool)
        ensures
            at == self@.at(kind),
    {
        self.cur_token().kind == kind
    }

    /// Tells whether the token behind the current one is of this kind.
    pub fn peek_at(&self, kind: Kind) -> (at: bool)
        ensures
            at == self@.peek_at(kind),
    {
        self.peek_token().kind == kind
    }

    /// Steps over the current token.
    pub fn bump_any(&mut self)
        ensures
            final(self)@ == old(self)@.advance(),
    {
        let end: u32 = self.cur_token().span.end;
        let index: usize = if self.cursor.index < self.tokens.len() {
            self.cursor.index + 1
        } else {
            self.cursor.index
        };
        self.cursor = Cursor { index, prev_token_end: end };
    }

    /// Steps over the current token if it is of this kind, and tells whether it did.
    pub fn eat(&mut self, kind: Kind) -> (eaten: bool)
        ensures
            eaten == old(self)@.at(kind),
            final(self)@ == old(self)@.eat(kind),
    {
        if self.at(kind) {
            self.bump_any();
            true
        } else {
            false
        }
    }

    /// The start of the current token.
    pub fn start_span(&self) -> (start: u32)
        ensures
            start == self@.cur().span.start,
    {
        self.cur_token().span.start
    }

    /// The span from `start` to the end of the token before the current one.
    pub fn end_span(&self, start: u32) -> (span: Span)
        ensures
            span == self@.end_span(start),
    {
        Span::new(start, self.cursor.prev_token_end)
    }

    /// Reports a diagnostic.
    pub fn error(&mut self, diagnostic: Diagnostic)
        ensures
            final(self)@ == old(self)@.error(diagnostic),
    {
        self.errors.push(diagnostic);
    }

    /// Takes the decorators that wait for what they belong to.
    pub fn consume_decorators(&mut self) -> (decorators: Vec<Node>)
        ensures
            decorators@ == old(self)@.decorators,
            final(self)@ == old(self)@.without_decorators(),
    {
        let mut taken: Vec<Node> = Vec::new();
        std::mem::swap(&mut taken, &mut self.decorators);
        taken
    }

    /// Reports every modifier that may not stand in this place.
    pub fn verify_modifiers(&mut self, modifiers: &Modifiers, place: ModifierPlace)
        ensures
            final(self)@ == old(self)@.verify_modifiers(modifiers@, place),
    {
        let ghost list = modifiers.list@;
        let ghost rejected = |m: Modifier| !place.allowed(m.kind);
        let ghost complaint = |m: Modifier| place.complaint(m);
        let mut i: usize = 0;
        proof {
            reveal(Seq::filter);
            assert(list.take(0).filter(rejected).map_values(complaint) =~= Seq::empty());
        }
        while i < modifiers.list.len()
            invariant
                i <= list.len(),
                list == modifiers.list@,
                rejected == (|m: Modifier| !place.allowed(m.kind)),
                complaint == (|m: Modifier| place.complaint(m)),
                self@ =~= (State {
                    errors: old(self)@.errors + list.take(i as int).filter(rejected).map_values(
                        complaint,
                    ),
                    ..old(self)@
                }),
            decreases list.len() - i,
        {
            let modifier = modifiers.list[i];
            proof {
                reveal(Seq::filter);
                assert(list.take(i + 1).drop_last() =~= list.take(i as int));
                assert(list.take(i + 1).last() == modifier);
                if rejected(modifier) {
                    assert(list.take(i as int).filter(rejected).push(modifier).map_values(complaint)
                        =~= list.take(i as int).filter(rejected).map_values(complaint).push(
                        complaint(modifier),
                    ));
                }
            }
            if !place.allows(modifier.kind) {
                self.error(place.complain(modifier));
            }
            i += 1;
        }
        assert(list.take(i as int) =~= list);
    }

    /// Asks the host parser for a part in the given context.
    pub fn ask_in(&mut self, rule: Rule, ctx: Context) -> (answer: Result<Answer, Stop>)
        ensures
            final(self)@ == old(self)@.ask_in(rule, ctx).0,
            agrees(answer, old(self)@.ask_in(rule, ctx).1),
    {
        self.requests.push(Request { rule, index: self.cursor.index, ctx });
        match self.replies.pop_front() {
            None => Err(Stop::Pending),
            Some(reply) => {
                let mut reported = reply.errors;
                self.cursor = reply.cursor;
                self.errors.append(&mut reported);
                assert(self@.replies =~= old(self)@.replies.drop_first());
                Ok(reply.answer)
            },
        }
    }
}

} // verus!
