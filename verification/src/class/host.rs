//! What the class grammar asks of the host parser, and what it is told.
use super::modifiers::{Modifiers, ModifiersView};
use super::syntax::{Diagnostic, Expression, Function, KeyView, Kind, Node, PropertyKey};
use vstd::prelude::*;

verus! {

/// What the surrounding code allows.
#[derive(Clone, Copy, Debug, PartialEq, Eq, Structural)]
pub struct Context {
    /// `in` is an operator.
    pub allow_in: bool,
    /// `yield` is an operator.
    pub allow_yield: bool,
    /// `await` is an operator.
    pub allow_await: bool,
    /// `return` is a statement.
    pub allow_return: bool,
    /// The code only declares what exists elsewhere.
    pub ambient: bool,
}

impl Context {
    /// The context of the initializer of a field: `in` is allowed, `yield` and `await` are not.
    pub open spec fn initializer_spec(self) -> Context {
        Context { allow_in: true, allow_yield: false, allow_await: false, ..self }
    }

    /// The context of a static block: `await` is allowed, `yield` and `return` are not.
    pub open spec fn static_block_spec(self) -> Context {
        Context { allow_await: true, allow_yield: false, allow_return: false, ..self }
    }

    /// Makes the context of the initializer of a field.
    pub fn initializer(self) -> (ctx: Context)
        ensures
            ctx == self.initializer_spec(),
    {
        Context { allow_in: true, allow_yield: false, allow_await: false, ..self }
    }

    /// Makes the context of a static block.
    pub fn static_block(self) -> (ctx: Context)
        ensures
            ctx == self.static_block_spec(),
    {
        Context { allow_await: true, allow_yield: false, allow_return: false, ..self }
    }
}

/// Where the parser stands.
#[derive(Clone, Copy, Debug, PartialEq, Eq, Structural)]
pub struct Cursor {
    /// The number of the current token.
    pub index: usize,
    /// The end of the token before it.
    pub prev_token_end: u32,
}

/// A part of the grammar that belongs to the host parser.
#[derive(Clone, Copy, Debug, PartialEq, Eq, Structural)]
pub enum Rule {
    /// Modifiers, and the decorators among them. Answered by [`Answer::Modifiers`].
    Modifiers {
        allow_decorators: bool,
        permit_const_as_modifier: bool,
        stop_on_start_of_class_static_block: bool,
    },
    /// The name of a class. Answered by [`Answer::Node`].
    BindingIdentifier,
    /// Type parameters, if there are any here. Answered by [`Answer::Optional`].
    TSTypeParameters,
    /// An expression of an `extends` clause. Answered by [`Answer::Expression`].
    LhsExpressionOrHigher,
    /// Type arguments, if there are any here. Answered by [`Answer::Optional`].
    TypeArguments,
    /// A whole `implements` clause. Answered by [`Answer::Nodes`].
    TSImplementsClause,
    /// A token that has to stand here; its absence is an error. Answered by [`Answer::Done`].
    Expect(Kind),
    /// Tells whether an index signature starts here. Answered by [`Answer::Flag`].
    AtTSIndexSignatureMember,
    /// An index signature that starts at `start`, with the modifiers of that number. Answered by
    /// [`Answer::Node`].
    IndexSignatureDeclaration { start: u32, modifiers: u32 },
    /// A private name. Answered by [`Answer::PrivateName`].
    PrivateIdentifier,
    /// A property name that is not private. Answered by [`Answer::PropertyName`].
    PropertyName,
    /// The parameters and the body of a method. Answered by [`Answer::Function`].
    Method { is_async: bool, generator: bool },
    /// A type annotation, if there is one here. Answered by [`Answer::Optional`].
    TSTypeAnnotation,
    /// An expression. Answered by [`Answer::Node`].
    Expr,
    /// An expression without a comma. Answered by [`Answer::Node`].
    AssignmentExpressionOrHigher,
    /// A block of statements. Answered by [`Answer::Node`].
    Block,
    /// A semicolon, written or inserted. Answered by [`Answer::Done`].
    Asi,
    /// Reports the current token as unexpected. Answered by [`Answer::Done`].
    Unexpected,
}

/// Asks the host parser for a part of the grammar.
#[derive(Clone, Copy, Debug, PartialEq, Eq, Structural)]
pub struct Request {
    pub rule: Rule,
    /// The number of the token at which the part starts.
    pub index: usize,
    pub ctx: Context,
}

/// What the host parser made of a part.
#[derive(Clone, Debug)]
pub enum Answer {
    Done,
    Flag(bool),
    Node(Node),
    Optional(Option<Node>),
    Nodes(Vec<Node>),
    Expression(Expression),
    Function(Function),
    Modifiers { modifiers: Modifiers, decorators: Vec<Node> },
    PrivateName { name: String, node: Node },
    PropertyName { key: PropertyKey, computed: bool },
}

/// Tells what the host parser did at a request.
#[derive(Clone, Debug)]
pub struct Reply {
    pub answer: Answer,
    /// Where the host parser stopped.
    pub cursor: Cursor,
    /// What the host parser reported on the way.
    pub errors: Vec<Diagnostic>,
}

/// Why parsing ended before the class did.
#[derive(Clone, Copy, Debug, PartialEq, Eq, Structural)]
pub enum Stop {
    /// The last request has no reply yet.
    Pending,
    /// The reply to the last request is not an answer to it.
    Mismatch,
}

/// The model of an [`Answer`].
pub enum AnswerView {
    Done,
    Flag(bool),
    Node(Node),
    Optional(Option<Node>),
    Nodes(Seq<Node>),
    Expression(Expression),
    Function(Function),
    Modifiers { modifiers: ModifiersView, decorators: Seq<Node> },
    PrivateName { name: Seq<char>, node: Node },
    PropertyName { key: KeyView, computed: bool },
}

/// The model of a [`Reply`].
#[verifier::ext_equal]
pub struct ReplyView {
    pub answer: AnswerView,
    pub cursor: Cursor,
    pub errors: Seq<Diagnostic>,
}

impl View for Answer {
    type V = AnswerView;

    open spec fn view(&self) -> AnswerView {
        match self {
            Answer::Done => AnswerView::Done,
            Answer::Flag(flag) => AnswerView::Flag(*flag),
            Answer::Node(node) => AnswerView::Node(*node),
            Answer::Optional(node) => AnswerView::Optional(*node),
            Answer::Nodes(nodes) => AnswerView::Nodes(nodes@),
            Answer::Expression(expression) => AnswerView::Expression(*expression),
            Answer::Function(function) => AnswerView::Function(*function),
            Answer::Modifiers { modifiers, decorators } => AnswerView::Modifiers {
                modifiers: modifiers@,
                decorators: decorators@,
            },
            Answer::PrivateName { name, node } => AnswerView::PrivateName {
                name: name@,
                node: *node,
            },
            Answer::PropertyName { key, computed } => AnswerView::PropertyName {
                key: key@,
                computed: *computed,
            },
        }
    }
}

impl View for Reply {
    type V = ReplyView;

    open spec fn view(&self) -> ReplyView {
        ReplyView { answer: self.answer@, cursor: self.cursor, errors: self.errors@ }
    }
}

} // verus!
