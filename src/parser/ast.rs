use vstd::prelude::*;

use std::collections::VecDeque;

use super::error::Error;
use super::tokenizer::Operator;
use crate::engine::{Expr, Node};

verus! {

/// One entry of the builder's buffer.
#[derive(Debug, PartialEq, Eq)]
pub enum Element {
    Node(Node),
    Operator(Operator),
}

/// Abstract syntax tree (AST) builder.
/// It combines incoming nodes and operators into parent nodes.
pub struct Builder {
    buffer: VecDeque<Element>,
}

impl View for Builder {
    type V = Seq<Element>;

    closed spec fn view(&self) -> Seq<Element> {
        self.buffer@
    }
}

pub open spec fn neg_node(n: Node) -> Node {
    Node::Expr(Box::new(Expr::Neg(n)))
}

/// The tree for `l op r`.
pub open spec fn binary_node(op: Operator, l: Node, r: Node) -> Node {
    match op {
        Operator::Add => Node::Expr(Box::new(Expr::Add(l, r))),
        Operator::Sub => Node::Expr(Box::new(Expr::Sub(l, r))),
        Operator::Mul => Node::Expr(Box::new(Expr::Mul(l, r))),
        Operator::Div => Node::Expr(Box::new(Expr::Div(l, r))),
    }
}

pub open spec fn is_additive(e: Element) -> bool {
    e matches Element::Operator(Operator::Add) || e matches Element::Operator(Operator::Sub)
}

/// An operator other than `-`.
pub open spec fn is_binary_only(e: Element) -> bool {
    e is Operator && !(e matches Element::Operator(Operator::Sub))
}

/// A node element holds a well-formed tree.
pub open spec fn element_wf(e: Element) -> bool {
    match e {
        Element::Node(n) => n.wf(),
        Element::Operator(_) => true,
    }
}

/// The shapes the buffer can take: operands separated by `+` or `-`, then pending
/// operators, of which all but the first are `-` (and the first too with no operand).
pub open spec fn buffer_wf(buf: Seq<Element>) -> bool {
    &&& forall|i: int|
        0 < i < buf.len() && (#[trigger] buf[i] is Node) ==> i >= 2 && is_additive(buf[i - 1])
            && buf[i - 2] is Node
    &&& forall|i: int|
        0 <= i < buf.len() && is_binary_only(#[trigger] buf[i]) ==> i >= 1 && buf[i - 1] is Node
    &&& forall|i: int| 0 <= i < buf.len() ==> element_wf(#[trigger] buf[i])
}

/// The buffer after a node arrives, or why the node is refused.
/// A `-` at the start or after another operator negates the node; a pending `*` or `/`
/// combines at once with the operand before it; after `+` or `-` the node waits.
pub open spec fn push_node(buf: Seq<Element>, n: Node) -> Result<Seq<Element>, Error>
    decreases buf.len(),
{
    let len = buf.len();
    if len == 0 {
        Ok(seq![Element::Node(n)])
    } else if len == 1 {
        if buf[0] matches Element::Operator(Operator::Sub) {
            push_node(buf.drop_last(), neg_node(n))
        } else {
            Err(Error::UnexpectedNode(n))
        }
    } else {
        match (buf[len - 2], buf[len - 1]) {
            (Element::Operator(_), Element::Operator(Operator::Sub)) => push_node(
                buf.drop_last(),
                neg_node(n),
            ),
            (Element::Node(prev), Element::Operator(Operator::Mul)) => push_node(
                buf.take(len - 2),
                binary_node(Operator::Mul, prev, n),
            ),
            (Element::Node(prev), Element::Operator(Operator::Div)) => push_node(
                buf.take(len - 2),
                binary_node(Operator::Div, prev, n),
            ),
            (Element::Node(_), Element::Operator(_)) => Ok(buf.push(Element::Node(n))),
            _ => Err(Error::UnexpectedNode(n)),
        }
    }
}

/// The buffer after an operator arrives: only `-` may follow another operator or
/// open the buffer.
pub open spec fn push_operator(buf: Seq<Element>, op: Operator) -> Result<Seq<Element>, Error> {
    if op != Operator::Sub && (buf.len() == 0 || buf.last() is Operator) {
        Err(Error::UnexpectedOperator(op))
    } else {
        Ok(buf.push(Element::Operator(op)))
    }
}

/// Folds the rest of the buffer into `acc`, left to right: each operand joins with the
/// operator last seen.
pub open spec fn fold_from(acc: Node, op: Operator, rest: Seq<Element>) -> Node
    decreases rest.len(),
{
    if rest.len() == 0 {
        acc
    } else {
        match rest[0] {
            Element::Node(n) => fold_from(binary_node(op, acc, n), op, rest.skip(1)),
            Element::Operator(o) => fold_from(acc, o, rest.skip(1)),
        }
    }
}

/// The tree that a buffer builds, or why it builds none. An operand followed by an
/// operator that no operand closes is left over.
pub open spec fn fold_buffer(buf: Seq<Element>) -> Result<Node, Error> {
    if buf.len() == 0 {
        Err(Error::Empty)
    } else if buf.len() == 1 {
        match buf[0] {
            Element::Node(n) => Ok(n),
            Element::Operator(o) => Err(Error::UnexpectedOperator(o)),
        }
    } else if buf.len() == 2 {
        Err(Error::LeftoverElements)
    } else {
        match buf[0] {
            Element::Operator(o) => Err(Error::UnexpectedOperator(o)),
            Element::Node(_) if buf.last() is Operator => Err(Error::LeftoverElements),
            Element::Node(n) => match buf[1] {
                Element::Operator(o) => Ok(fold_from(n, o, buf.skip(2))),
                Element::Node(m) => Err(Error::UnexpectedNode(m)),
            },
        }
    }
}

/// A node can follow an empty buffer or an operator, and never fails there;
/// after a node it is refused.
proof fn lemma_push_node(buf: Seq<Element>, n: Node)
    requires
        buffer_wf(buf),
        n.wf(),
    ensures
        buf.len() > 0 && buf.last() is Node ==> push_node(buf, n) == Err::<Seq<Element>, Error>(
            Error::UnexpectedNode(n),
        ),
        !(buf.len() > 0 && buf.last() is Node) ==> (push_node(buf, n) matches Ok(b) && buffer_wf(
            b,
        )),
    decreases buf.len(),
{
    let len = buf.len();
    if len == 0 {
        let b = seq![Element::Node(n)];
        assert(element_wf(b[0]));
    } else if len == 1 {
        if buf[0] matches Element::Operator(Operator::Sub) {
            lemma_push_node(buf.drop_last(), neg_node(n));
        } else if buf[0] matches Element::Operator(_) {
            assert(is_binary_only(buf[0]));
        }
    } else {
        let prefix2 = buf.take(len - 2);
        let prefix1 = buf.drop_last();
        assert(buffer_wf(prefix1)) by {
            assert forall|i: int| 0 <= i < prefix1.len() implies prefix1[i] == buf[i] by {}
        }
        assert(buffer_wf(prefix2)) by {
            assert forall|i: int| 0 <= i < prefix2.len() implies prefix2[i] == buf[i] by {}
        }
        match (buf[len - 2], buf[len - 1]) {
            (Element::Operator(_), Element::Operator(Operator::Sub)) => {
                lemma_push_node(prefix1, neg_node(n));
            },
            (Element::Node(prev), Element::Operator(Operator::Mul)) => {
                assert(element_wf(buf[len - 2]));
                if len > 2 {
                    assert(is_additive(buf[len - 3]));
                    assert(prefix2.last() == buf[len - 3]);
                }
                lemma_push_node(prefix2, binary_node(Operator::Mul, prev, n));
            },
            (Element::Node(prev), Element::Operator(Operator::Div)) => {
                assert(element_wf(buf[len - 2]));
                if len > 2 {
                    assert(is_additive(buf[len - 3]));
                    assert(prefix2.last() == buf[len - 3]);
                }
                lemma_push_node(prefix2, binary_node(Operator::Div, prev, n));
            },
            (Element::Node(_), Element::Operator(_)) => {
                let b = buf.push(Element::Node(n));
                assert(buffer_wf(b)) by {
                    assert forall|i: int| 0 <= i < len implies b[i] == buf[i] by {}
                    assert(is_additive(buf[len - 1]));
                }
            },
            (Element::Operator(_), Element::Operator(_)) => {
                assert(is_binary_only(buf[len - 1]));
            },
            _ => {},
        }
    }
}

/// A `-` that arrives at the start or right after another operator is a negation: it and
/// the node that follows it leave the buffer that the negated node alone would leave.
pub proof fn lemma_unary_minus(buf: Seq<Element>, n: Node)
    requires
        buffer_wf(buf),
        buf.len() == 0 || buf.last() is Operator,
    ensures
        push_operator(buf, Operator::Sub) == Ok::<Seq<Element>, Error>(
            buf.push(Element::Operator(Operator::Sub)),
        ),
        push_node(buf.push(Element::Operator(Operator::Sub)), n) == push_node(buf, neg_node(n)),
{
    let pushed = buf.push(Element::Operator(Operator::Sub));
    assert(pushed.drop_last() =~= buf);
    if buf.len() > 0 {
        assert(pushed[pushed.len() - 2] == buf.last());
    }
}

impl Builder {
    /// The buffer has one of the shapes that the builder's operations leave.
    pub closed spec fn wf(&self) -> bool {
        buffer_wf(self@)
    }

    /// What the builder's invariant says of its buffer.
    pub proof fn lemma_wf_shape(&self)
        ensures
            self.wf() <==> buffer_wf(self@),
    {
    }

    pub fn new() -> (r: Self)
        ensures
            r@ == Seq::<Element>::empty(),
            r.wf(),
    {
        Builder { buffer: VecDeque::new() }
    }

    /// Adds a node element. The order of addition is important and
    /// the operation can fail depending on the previous state.
    pub fn add_node(&mut self, node: Node) -> (r: Result<(), Error>)
        requires
            old(self).wf(),
            node.wf(),
        ensures
            final(self).wf(),
            match push_node(old(self)@, node) {
                Ok(b) => r is Ok && final(self)@ == b,
                Err(e) => r == Err::<(), Error>(e) && final(self)@ == old(self)@,
            },
        decreases old(self)@.len(),
    {
        proof {
            lemma_push_node(self@, node);
        }
        let n = self.buffer.len();
        if n == 0 {
            self.buffer.push_back(Element::Node(node));
            return Ok(());
        }
        let last_is_sub = match &self.buffer[n - 1] {
            Element::Operator(Operator::Sub) => true,
            _ => false,
        };
        let before_is_operator = n == 1 || match &self.buffer[n - 2] {
            Element::Operator(_) => true,
            Element::Node(_) => false,
        };
        if last_is_sub && before_is_operator {
            // Previous minus was unary
            self.buffer.pop_back();
            proof {
                assert(self@ =~= old(self)@.drop_last());
            }
            return self.add_node(Node::Expr(Box::new(Expr::Neg(node))));
        }
        if n == 1 {
            return Err(Error::UnexpectedNode(node));
        }
        let multiplicative = match &self.buffer[n - 1] {
            Element::Operator(Operator::Mul) => Some(Operator::Mul),
            Element::Operator(Operator::Div) => Some(Operator::Div),
            _ => None,
        };
        match multiplicative {
            Some(op) => {
                if before_is_operator {
                    return Err(Error::UnexpectedNode(node));
                }
                self.buffer.pop_back();
                // Transfer ownership of the matched element
                match self.buffer.pop_back() {
                    Some(Element::Node(prev)) => {
                        proof {
                            assert(self@ =~= old(self)@.take(n - 2));
                        }
                        let combined = match op {
                            Operator::Mul => Node::Expr(Box::new(Expr::Mul(prev, node))),
                            _ => Node::Expr(Box::new(Expr::Div(prev, node))),
                        };
                        self.add_node(combined)
                    },
                    _ => Err(Error::UnexpectedNode(node)),
                }
            },
            None => {
                let last_is_operator = match &self.buffer[n - 1] {
                    Element::Operator(_) => true,
                    Element::Node(_) => false,
                };
                if last_is_operator && !before_is_operator {
                    // Defer add and sub expression building until the end
                    // because future operators might have a higher priority
                    self.buffer.push_back(Element::Node(node));
                    Ok(())
                } else {
                    Err(Error::UnexpectedNode(node))
                }
            },
        }
    }

    /// Adds an operator element. The order of addition is important and
    /// the operation can fail depending on the previous state.
    pub fn add_operator(&mut self, operator: Operator) -> (r: Result<(), Error>)
        requires
            old(self).wf(),
        ensures
            final(self).wf(),
            match push_operator(old(self)@, operator) {
                Ok(b) => r is Ok && final(self)@ == b,
                Err(e) => r == Err::<(), Error>(e) && final(self)@ == old(self)@,
            },
    {
        let n = self.buffer.len();
        let after_operator = n == 0 || match &self.buffer[n - 1] {
            Element::Operator(_) => true,
            Element::Node(_) => false,
        };
        let is_sub = match operator {
            Operator::Sub => true,
            _ => false,
        };
        if !is_sub && after_operator {
            Err(Error::UnexpectedOperator(operator))
        } else {
            let ghost before = self@;
            self.buffer.push_back(Element::Operator(operator));
            proof {
                assert forall|i: int| 0 <= i < before.len() implies self@[i] == before[i] by {}
            }
            Ok(())
        }
    }

    /// Flushes the element buffer and creates a tree root node.
    pub fn build(self) -> (r: Result<Node, Error>)
        requires
            self.wf(),
        ensures
            r == fold_buffer(self@),
            self@.len() >= 2 && self@[0] is Node && self@.last() is Operator ==> r
                == Err::<Node, Error>(Error::LeftoverElements),
            r matches Ok(n) ==> n.wf(),
    {
        let ghost buf = self@;
        let mut buffer = self.buffer;
        let len = buffer.len();
        if len <= 1 {
            return match buffer.pop_back() {
                Some(Element::Node(node)) => Ok(node),
                Some(Element::Operator(operator)) => Err(Error::UnexpectedOperator(operator)),
                None => Err(Error::Empty),
            };
        }
        if len == 2 {
            return Err(Error::LeftoverElements);
        }
        let first_is_node = match &buffer[0] {
            Element::Node(_) => true,
            Element::Operator(_) => false,
        };
        let last_is_operator = match &buffer[len - 1] {
            Element::Operator(_) => true,
            Element::Node(_) => false,
        };
        if first_is_node && last_is_operator {
            return Err(Error::LeftoverElements);
        }
        let mut prev_node = match buffer.pop_front() {
            Some(Element::Node(node)) => node,
            Some(Element::Operator(operator)) => return Err(Error::UnexpectedOperator(operator)),
            None => return Err(Error::Empty),
        };
        let mut prev_operator = match buffer.pop_front() {
            Some(Element::Operator(operator)) => operator,
            Some(Element::Node(node)) => return Err(Error::UnexpectedNode(node)),
            None => return Err(Error::Empty),
        };
        proof {
            assert(buffer@ =~= buf.skip(2));
        }
        while buffer.len() > 0
            invariant
                fold_from(prev_node, prev_operator, buffer@) == fold_from(
                    buf[0]->Node_0,
                    buf[1]->Operator_0,
                    buf.skip(2),
                ),
                prev_node.wf(),
                forall|i: int|
                    0 <= i < buffer@.len() ==> element_wf(#[trigger] buffer@[i]),
            decreases buffer@.len(),
        {
            let ghost rest = buffer@;
            let element = buffer.pop_front();
            proof {
                assert(buffer@ =~= rest.skip(1));
                assert forall|i: int| 0 <= i < buffer@.len() implies buffer@[i] == rest[i
                    + 1] by {}
            }
            match element {
                Some(Element::Node(node)) => {
                    prev_node = match prev_operator {
                        Operator::Add => Node::Expr(Box::new(Expr::Add(prev_node, node))),
                        Operator::Sub => Node::Expr(Box::new(Expr::Sub(prev_node, node))),
                        Operator::Mul => Node::Expr(Box::new(Expr::Mul(prev_node, node))),
                        Operator::Div => Node::Expr(Box::new(Expr::Div(prev_node, node))),
                    };
                },
                Some(Element::Operator(operator)) => {
                    prev_operator = operator;
                },
                None => {},
            }
        }
        Ok(prev_node)
    }
}

} // verus!
