use vstd::prelude::*;
use vstd::string::StringExecFns;

verus! {

/// A lambda term whose variables are referred to by name.
#[derive(Debug, PartialEq)]
pub enum Expr {
    Var(String),
    Abs(String, Box<Expr>),
    App(Box<Expr>, Box<Expr>),
}

/// The text of a named term: the name of a variable, `(\name -> body)`, and
/// `(f a)`.
pub open spec fn text_spec(e: Expr) -> Seq<char>
    decreases e,
{
    match e {
        Expr::Var(name) => name@,
        Expr::Abs(head, body) => seq!['(', '\\'] + head@ + seq![' ', '-', '>', ' '] + text_spec(
            *body,
        ) + seq![')'],
        Expr::App(f, a) => seq!['('] + text_spec(*f) + seq![' '] + text_spec(*a) + seq![')'],
    }
}

impl Expr {
    /// A deep copy of the term.
    pub fn duplicate(&self) -> (r: Self)
        ensures
            r == *self,
        decreases self,
    {
        match self {
            Expr::Var(s) => Expr::Var(s.clone()),
            Expr::Abs(head, body) => Expr::Abs(head.clone(), Box::new(body.duplicate())),
            Expr::App(f, a) => Expr::App(Box::new(f.duplicate()), Box::new(a.duplicate())),
        }
    }

    fn write_text(&self, out: &mut String)
        ensures
            final(out)@ == old(out)@ + text_spec(*self),
        decreases self,
    {
        let ghost start = out@;
        match self {
            Expr::Var(varid) => out.append(varid.as_str()),
            Expr::Abs(head, body) => {
                proof {
                    reveal_strlit("(\\");
                    reveal_strlit(" -> ");
                    reveal_strlit(")");
                }
                out.append("(\\");
                out.append(head.as_str());
                out.append(" -> ");
                body.write_text(out);
                out.append(")");
            },
            Expr::App(expr1, expr2) => {
                proof {
                    reveal_strlit("(");
                    reveal_strlit(" ");
                    reveal_strlit(")");
                }
                out.append("(");
                expr1.write_text(out);
                out.append(" ");
                expr2.write_text(out);
                out.append(")");
            },
        }
        assert(out@ =~= start + text_spec(*self));
    }

    /// The term as text: the name of a variable, `(\name -> body)` for an
    /// abstraction, `(f a)` for an application.
    pub fn to_text(&self) -> (r: String)
        ensures
            r@ == text_spec(*self),
    {
        let mut out = String::new();
        self.write_text(&mut out);
        assert(out@ =~= text_spec(*self));
        out
    }
}

impl Clone for Expr {
    fn clone(&self) -> (r: Self)
        ensures
            r == *self,
    {
        self.duplicate()
    }
}

} // verus!
