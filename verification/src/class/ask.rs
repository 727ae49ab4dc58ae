//! Requests whose answer is known by its shape.
use super::host::{Answer, AnswerView, Context, Rule, Stop};
use super::modifiers::{Modifiers, ModifiersView};
use super::state::{ParserImpl, State, Step};
use super::syntax::{Expression, Function, KeyName, KeyNameView, KeyView, Node, PropertyKey};
use vstd::prelude::*;

verus! {

impl State {
    pub open spec fn ask_done(self, rule: Rule) -> Step<()> {
        match self.ask(rule) {
            (s, Ok(AnswerView::Done)) => (s, Ok(())),
            (s, Ok(_)) => (s, Err(Stop::Mismatch)),
            (s, Err(stop)) => (s, Err(stop)),
        }
    }

    pub open spec fn ask_flag(self, rule: Rule) -> Step<bool> {
        match self.ask(rule) {
            (s, Ok(AnswerView::Flag(flag))) => (s, Ok(flag)),
            (s, Ok(_)) => (s, Err(Stop::Mismatch)),
            (s, Err(stop)) => (s, Err(stop)),
        }
    }

    pub open spec fn ask_node(self, rule: Rule, ctx: Context) -> Step<Node> {
        match self.ask_in(rule, ctx) {
            (s, Ok(AnswerView::Node(node))) => (s, Ok(node)),
            (s, Ok(_)) => (s, Err(Stop::Mismatch)),
            (s, Err(stop)) => (s, Err(stop)),
        }
    }

    pub open spec fn ask_optional(self, rule: Rule) -> Step<Option<Node>> {
        match self.ask(rule) {
            (s, Ok(AnswerView::Optional(node))) => (s, Ok(node)),
            (s, Ok(_)) => (s, Err(Stop::Mismatch)),
            (s, Err(stop)) => (s, Err(stop)),
        }
    }

    pub open spec fn ask_nodes(self, rule: Rule) -> Step<Seq<Node>> {
        match self.ask(rule) {
            (s, Ok(AnswerView::Nodes(nodes))) => (s, Ok(nodes)),
            (s, Ok(_)) => (s, Err(Stop::Mismatch)),
            (s, Err(stop)) => (s, Err(stop)),
        }
    }

    pub open spec fn ask_expression(self, rule: Rule) -> Step<Expression> {
        match self.ask(rule) {
            (s, Ok(AnswerView::Expression(expression))) => (s, Ok(expression)),
            (s, Ok(_)) => (s, Err(Stop::Mismatch)),
            (s, Err(stop)) => (s, Err(stop)),
        }
    }

    pub open spec fn ask_function(self, rule: Rule) -> Step<Function> {
        match self.ask(rule) {
            (s, Ok(AnswerView::Function(function))) => (s, Ok(function)),
            (s, Ok(_)) => (s, Err(Stop::Mismatch)),
            (s, Err(stop)) => (s, Err(stop)),
        }
    }

    /// Asks for modifiers. The decorators among them wait for what they belong to.
    pub open spec fn ask_modifiers(self, rule: Rule) -> Step<ModifiersView> {
        match self.ask(rule) {
            (s, Ok(AnswerView::Modifiers { modifiers, decorators })) => (
                State { decorators: s.decorators + decorators, ..s },
                Ok(modifiers),
            ),
            (s, Ok(_)) => (s, Err(Stop::Mismatch)),
            (s, Err(stop)) => (s, Err(stop)),
        }
    }

    /// Asks for a private name, as a key.
    pub open spec fn ask_private_key(self) -> Step<KeyView> {
        match self.ask(Rule::PrivateIdentifier) {
            (s, Ok(AnswerView::PrivateName { name, node })) => (
                s,
                Ok(KeyView { node, name: KeyNameView::Private(name) }),
            ),
            (s, Ok(_)) => (s, Err(Stop::Mismatch)),
            (s, Err(stop)) => (s, Err(stop)),
        }
    }

    /// Asks for a property name: the key, and whether it is computed.
    pub open spec fn ask_property_name(self) -> Step<(KeyView, bool)> {
        match self.ask(Rule::PropertyName) {
            (s, Ok(AnswerView::PropertyName { key, computed })) => (s, Ok((key, computed))),
            (s, Ok(_)) => (s, Err(Stop::Mismatch)),
            (s, Err(stop)) => (s, Err(stop)),
        }
    }
}

impl ParserImpl {
    /// Asks for a part that leaves nothing behind.
    pub fn ask_done(&mut self, rule: Rule) -> (result: Result<(), Stop>)
        ensures
            final(self)@ == old(self)@.ask_done(rule).0,
            result == old(self)@.ask_done(rule).1,
    {
        match self.ask_in(rule, self.ctx)? {
            Answer::Done => Ok(()),
            _ => Err(Stop::Mismatch),
        }
    }

    /// Asks a question.
    pub fn ask_flag(&mut self, rule: Rule) -> (result: Result<bool, Stop>)
        ensures
            final(self)@ == old(self)@.ask_flag(rule).0,
            result == old(self)@.ask_flag(rule).1,
    {
        match self.ask_in(rule, self.ctx)? {
            Answer::Flag(flag) => Ok(flag),
            _ => Err(Stop::Mismatch),
        }
    }

    /// Asks for a node, in the given context.
    pub fn ask_node(&mut self, rule: Rule, ctx: Context) -> (result: Result<Node, Stop>)
        ensures
            final(self)@ == old(self)@.ask_node(rule, ctx).0,
            result == old(self)@.ask_node(rule, ctx).1,
    {
        match self.ask_in(rule, ctx)? {
            Answer::Node(node) => Ok(node),
            _ => Err(Stop::Mismatch),
        }
    }

    /// Asks for a node that may be absent.
    pub fn ask_optional(&mut self, rule: Rule) -> (result: Result<Option<Node>, Stop>)
        ensures
            final(self)@ == old(self)@.ask_optional(rule).0,
            result == old(self)@.ask_optional(rule).1,
    {
        match self.ask_in(rule, self.ctx)? {
            Answer::Optional(node) => Ok(node),
            _ => Err(Stop::Mismatch),
        }
    }

    /// Asks for a list of nodes.
    pub fn ask_nodes(&mut self, rule: Rule) -> (result: Result<Vec<Node>, Stop>)
        ensures
            final(self)@ == old(self)@.ask_nodes(rule).0,
            super::state::agrees(result, old(self)@.ask_nodes(rule).1),
    {
        match self.ask_in(rule, self.ctx)? {
            Answer::Nodes(nodes) => Ok(nodes),
            _ => Err(Stop::Mismatch),
        }
    }

    /// Asks for an expression of an `extends` clause.
    pub fn ask_expression(&mut self, rule: Rule) -> (result: Result<Expression, Stop>)
        ensures
            final(self)@ == old(self)@.ask_expression(rule).0,
            result == old(self)@.ask_expression(rule).1,
    {
        match self.ask_in(rule, self.ctx)? {
            Answer::Expression(expression) => Ok(expression),
            _ => Err(Stop::Mismatch),
        }
    }

    /// Asks for the function of a method.
    pub fn ask_function(&mut self, rule: Rule) -> (result: Result<Function, Stop>)
        ensures
            final(self)@ == old(self)@.ask_function(rule).0,
            result == old(self)@.ask_function(rule).1,
    {
        match self.ask_in(rule, self.ctx)? {
            Answer::Function(function) => Ok(function),
            _ => Err(Stop::Mismatch),
        }
    }

    /// Asks for modifiers. The decorators among them wait for what they belong to.
    pub fn ask_modifiers(&mut self, rule: Rule) -> (result: Result<Modifiers, Stop>)
        ensures
            final(self)@ == old(self)@.ask_modifiers(rule).0,
            super::state::agrees(result, old(self)@.ask_modifiers(rule).1),
    {
        match self.ask_in(rule, self.ctx)? {
            Answer::Modifiers { modifiers, decorators } => {
                let mut found = decorators;
                self.decorators.append(&mut found);
                Ok(modifiers)
            },
            _ => Err(Stop::Mismatch),
        }
    }

    /// Asks for a private name, as a key.
    pub fn ask_private_key(&mut self) -> (result: Result<PropertyKey, Stop>)
        ensures
            final(self)@ == old(self)@.ask_private_key().0,
            super::state::agrees(result, old(self)@.ask_private_key().1),
    {
        match self.ask_in(Rule::PrivateIdentifier, self.ctx)? {
            Answer::PrivateName { name, node } => {
                Ok(PropertyKey { node, name: KeyName::Private(name) })
            },
            _ => Err(Stop::Mismatch),
        }
    }

    /// Asks for a property name: the key, and whether it is computed.
    pub fn ask_property_name(&mut self) -> (result: Result<(PropertyKey, bool), Stop>)
        ensures
            final(self)@ == old(self)@.ask_property_name().0,
            super::state::agrees(result, old(self)@.ask_property_name().1),
    {
        match self.ask_in(Rule::PropertyName, self.ctx)? {
            Answer::PropertyName { key, computed } => Ok((key, computed)),
            _ => Err(Stop::Mismatch),
        }
    }
}

} // verus!
