//! The `extends` and `implements` clauses of a class.
use super::host::{Rule, Stop};
use super::state::{ParserImpl, State, Step};
use super::syntax::{Diagnostic, Expression, Extends, Kind, Node};
use vstd::prelude::*;

verus! {

/// The clauses behind the name of a class: the entries of the last `extends` clause, and the
/// entries of all `implements` clauses.
pub struct Heritage {
    pub extends: Option<Vec<Extends>>,
    pub implements: Vec<Node>,
}

/// The model of a [`Heritage`].
pub struct HeritageView {
    pub extends: Option<Seq<Extends>>,
    pub implements: Seq<Node>,
}

impl View for Heritage {
    type V = HeritageView;

    open spec fn view(&self) -> HeritageView {
        HeritageView {
            extends: match self.extends {
                Some(list) => Some(list@),
                None => None,
            },
            implements: self.implements@,
        }
    }
}

impl HeritageView {
    /// No clause at all.
    pub open spec fn empty() -> HeritageView {
        HeritageView { extends: None, implements: Seq::empty() }
    }

    /// The class that is extended: the first entry of the `extends` clause, and no other.
    pub open spec fn super_class(self) -> Option<Extends> {
        match self.extends {
            Some(list) => if list.len() > 0 {
                Some(list[0])
            } else {
                None
            },
            None => None,
        }
    }
}

impl Heritage {
    /// Takes the class that is extended: the first entry of the `extends` clause, if any.
    pub fn super_class(&self) -> (entry: Option<Extends>)
        ensures
            entry == self@.super_class(),
    {
        match &self.extends {
            Some(list) => if list.len() > 0 {
                Some(list[0])
            } else {
                None
            },
            None => None,
        }
    }
}

impl State {
    /// One entry of an `extends` clause: an expression, and the type arguments that it has of
    /// its own or that stand behind it.
    pub open spec fn extends_entry(self) -> Step<Extends> {
        let start = self.cur().span.start;
        match self.ask_expression(Rule::LhsExpressionOrHigher) {
            (s, Err(stop)) => (s, Err(stop)),
            (s, Ok(Expression::TSInstantiationExpression { expression, type_arguments })) => (
                s,
                Ok(
                    Extends {
                        expression,
                        type_arguments: Some(type_arguments),
                        span: s.end_span(start),
                    },
                ),
            ),
            (s, Ok(Expression::Other(expression))) => match s.ask_optional(Rule::TypeArguments) {
                (s, Err(stop)) => (s, Err(stop)),
                (s, Ok(type_arguments)) => (
                    s,
                    Ok(Extends { expression, type_arguments, span: s.end_span(start) }),
                ),
            },
        }
    }

    /// One or more entries, with commas between them.
    pub open spec fn extends_entries(self) -> Step<Seq<Extends>>
        decreases self.replies.len(),
    {
        match self.extends_entry() {
            (s, Err(stop)) => (s, Err(stop)),
            (s, Ok(entry)) => if s.at(Kind::Comma) {
                match s.advance().extends_entries() {
                    (s, Err(stop)) => (s, Err(stop)),
                    (s, Ok(rest)) => (s, Ok(seq![entry] + rest)),
                }
            } else {
                (s, Ok(seq![entry]))
            },
        }
    }

    /// The word `extends` and its entries.
    pub open spec fn extends_clause(self) -> Step<Seq<Extends>> {
        self.advance().extends_entries()
    }

    /// What is reported at `extends` when these clauses stand before it.
    pub open spec fn at_extends(self, before: HeritageView) -> State {
        self.error_if(
            before.extends is Some,
            Diagnostic::ExtendsClauseAlreadySeen(self.cur().span),
        ).error_if(
            before.extends is None && before.implements.len() > 0,
            Diagnostic::ExtendsClauseMustPrecedeImplements(self.cur().span),
        )
    }

    /// What is reported at `implements` when these clauses stand before it.
    pub open spec fn at_implements(self, before: HeritageView) -> State {
        self.error_if(
            before.implements.len() > 0,
            Diagnostic::ImplementsClauseAlreadySeen(self.cur().span),
        )
    }

    /// Clauses for as long as one starts, behind the clauses `before`. An `extends` clause takes
    /// the place of the one before it; an `implements` clause adds to those before it.
    pub open spec fn heritage(self, before: HeritageView) -> Step<HeritageView>
        decreases self.replies.len(),
    {
        if self.at(Kind::Extends) {
            proof {
                self.at_extends(before).advance().lemma_extends_entries_progress();
            }
            match self.at_extends(before).extends_clause() {
                (s, Err(stop)) => (s, Err(stop)),
                (s, Ok(list)) => s.heritage(
                    HeritageView { extends: Some(list), implements: before.implements },
                ),
            }
        } else if self.at(Kind::Implements) {
            match self.at_implements(before).ask_nodes(Rule::TSImplementsClause) {
                (s, Err(stop)) => (s, Err(stop)),
                (s, Ok(list)) => s.heritage(
                    HeritageView { extends: before.extends, implements: before.implements + list },
                ),
            }
        } else {
            (self, Ok(before))
        }
    }

    /// Every list of entries takes a reply.
    pub proof fn lemma_extends_entries_progress(self)
        ensures
            self.extends_entries().1 is Ok ==> self.extends_entries().0.replies.len()
                < self.replies.len(),
        decreases self.replies.len(),
    {
        if let (s, Ok(entry)) = self.extends_entry() {
            if s.at(Kind::Comma) {
                s.advance().lemma_extends_entries_progress();
            }
        }
    }
}

impl ParserImpl {
    fn parse_extends_entry(&mut self) -> (result: Result<Extends, Stop>)
        ensures
            final(self)@ == old(self)@.extends_entry().0,
            result == old(self)@.extends_entry().1,
    {
        let start: u32 = self.start_span();
        match self.ask_expression(Rule::LhsExpressionOrHigher)? {
            Expression::TSInstantiationExpression { expression, type_arguments } => Ok(
                Extends {
                    expression,
                    type_arguments: Some(type_arguments),
                    span: self.end_span(start),
                },
            ),
            Expression::Other(expression) => {
                let type_arguments = self.ask_optional(Rule::TypeArguments)?;
                Ok(Extends { expression, type_arguments, span: self.end_span(start) })
            },
        }
    }

    /// `ClassHeritage`:
    /// extends `LeftHandSideExpression`
    pub fn parse_extends_clause(&mut self) -> (result: Result<Vec<Extends>, Stop>)
        ensures
            final(self)@ == old(self)@.extends_clause().0,
            super::state::agrees(result, old(self)@.extends_clause().1),
    {
        self.bump_any();
        let ghost first = self@;
        let mut extends: Vec<Extends> = Vec::new();
        loop
            invariant
                first.extends_entries() == (match self@.extends_entries() {
                    (s, Ok(rest)) => (s, Ok(extends@ + rest)),
                    (s, Err(stop)) => (s, Err(stop)),
                }),
                first == old(self)@.advance(),
            decreases self@.replies.len(),
        {
            let ghost list = extends@;
            let entry = self.parse_extends_entry()?;
            extends.push(entry);
            assert(list + seq![entry] =~= extends@);
            if !self.eat(Kind::Comma) {
                return Ok(extends);
            }
            proof {
                if let (s, Ok(rest)) = self@.extends_entries() {
                    assert(list + (seq![entry] + rest) =~= extends@ + rest);
                }
            }
        }
    }

    /// Reads the `extends` and `implements` clauses of a class, in any order and number.
    pub fn parse_heritage_clause(&mut self) -> (result: Result<Heritage, Stop>)
        ensures
            final(self)@ == old(self)@.heritage(HeritageView::empty()).0,
            super::state::agrees(result, old(self)@.heritage(HeritageView::empty()).1),
    {
        let mut heritage = Heritage { extends: None, implements: Vec::new() };
        assert(heritage@.implements =~= HeritageView::empty().implements);
        loop
            invariant
                old(self)@.heritage(HeritageView::empty()) == self@.heritage(heritage@),
            decreases self@.replies.len(),
        {
            let token = self.cur_token();
            let ghost before = self@;
            match token.kind {
                Kind::Extends => {
                    if heritage.extends.is_some() {
                        self.error(Diagnostic::ExtendsClauseAlreadySeen(token.span));
                    } else if heritage.implements.len() > 0 {
                        self.error(Diagnostic::ExtendsClauseMustPrecedeImplements(token.span));
                    }
                    assert(self@ == before.at_extends(heritage@));
                    proof {
                        self@.advance().lemma_extends_entries_progress();
                    }
                    heritage.extends = Some(self.parse_extends_clause()?);
                },
                Kind::Implements => {
                    if heritage.implements.len() > 0 {
                        self.error(Diagnostic::ImplementsClauseAlreadySeen(token.span));
                    }
                    let mut list = self.ask_nodes(Rule::TSImplementsClause)?;
                    heritage.implements.append(&mut list);
                },
                _ => {
                    return Ok(heritage);
                },
            }
        }
    }
}

} // verus!
