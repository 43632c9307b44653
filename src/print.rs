use vstd::prelude::*;

use crate::expr::{Binary, Expr, Grouping, Literal, Unary};
use crate::token::kind_text;

verus! {

/// The fully parenthesized prefix form of a tree: `(op left right)`,
/// `(op operand)` and `(group inner)`.
pub open spec fn show(e: Expr) -> Seq<char>
    decreases e,
{
    match e {
        Expr::Literal(l) => kind_text(l.expr@),
        Expr::Grouping(g) => "(group "@ + show(*g.expr) + ")"@,
        Expr::Unary(u) => "("@ + kind_text(u.op.ty@) + " "@ + show(*u.rhs) + ")"@,
        Expr::Binary(b) => "("@ + kind_text(b.op.ty@) + " "@ + show(*b.lhs) + " "@ + show(*b.rhs) + ")"@,
    }
}

impl Expr {
    /// Appends the printed form of this tree to `out`.
    pub fn write_to(&self, out: &mut String)
        ensures
            final(out)@ == old(out)@ + show(*self),
        decreases self,
    {
        match self {
            Expr::Literal(l) => {
                let text = l.expr.to_string();
                out.append(text.as_str());
            },
            Expr::Grouping(g) => {
                out.append("(group ");
                g.expr.write_to(out);
                out.append(")");
                proof {
                    assert(final(out)@ =~= old(out)@ + show(*self));
                }
            },
            Expr::Unary(u) => {
                out.append("(");
                let op = u.op.ty.to_string();
                out.append(op.as_str());
                out.append(" ");
                u.rhs.write_to(out);
                out.append(")");
                proof {
                    assert(final(out)@ =~= old(out)@ + show(*self));
                }
            },
            Expr::Binary(b) => {
                out.append("(");
                let op = b.op.ty.to_string();
                out.append(op.as_str());
                out.append(" ");
                b.lhs.write_to(out);
                out.append(" ");
                b.rhs.write_to(out);
                out.append(")");
                proof {
                    assert(final(out)@ =~= old(out)@ + show(*self));
                }
            },
        }
    }

    pub fn to_string(&self) -> (r: String)
        ensures
            r@ == show(*self),
    {
        let mut out = String::new();
        self.write_to(&mut out);
        proof {
            assert(out@ =~= show(*self));
        }
        out
    }
}

impl Binary {
    pub fn to_string(&self) -> (r: String)
        ensures
            r@ == show(Expr::Binary(*self)),
    {
        let mut out = String::from_str("(");
        let op = self.op.ty.to_string();
        out.append(op.as_str());
        out.append(" ");
        self.lhs.write_to(&mut out);
        out.append(" ");
        self.rhs.write_to(&mut out);
        out.append(")");
        proof {
            assert(out@ =~= show(Expr::Binary(*self)));
        }
        out
    }
}

impl Grouping {
    pub fn to_string(&self) -> (r: String)
        ensures
            r@ == show(Expr::Grouping(*self)),
    {
        let mut out = String::from_str("(group ");
        self.expr.write_to(&mut out);
        out.append(")");
        proof {
            assert(out@ =~= show(Expr::Grouping(*self)));
        }
        out
    }
}

impl Literal {
    pub fn to_string(&self) -> (r: String)
        ensures
            r@ == show(Expr::Literal(*self)),
    {
        self.expr.to_string()
    }
}

impl Unary {
    pub fn to_string(&self) -> (r: String)
        ensures
            r@ == show(Expr::Unary(*self)),
    {
        let mut out = String::from_str("(");
        let op = self.op.ty.to_string();
        out.append(op.as_str());
        out.append(" ");
        self.rhs.write_to(&mut out);
        out.append(")");
        proof {
            assert(out@ =~= show(Expr::Unary(*self)));
        }
        out
    }
}

} // verus!
