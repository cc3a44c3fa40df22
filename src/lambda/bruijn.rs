use vstd::prelude::*;
use vstd::string::StringExecFns;

verus! {

/// A lambda term whose bound variables are de Bruijn indices.
///
/// `Val(i)` refers to the binder `i` abstractions out (0 is the innermost);
/// `Lit(name)` is a free variable that reduction never touches.
#[derive(Debug, PartialEq)]
pub enum Bruijn {
    Val(i32),
    Abs(Box<Bruijn>),
    App(Box<Bruijn>, Box<Bruijn>),
    Lit(String),
}

/// Every index `i` in `e` has more than `i` abstractions around it, counting
/// `depth` abstractions already around `e`.
pub open spec fn indices_below(e: Bruijn, depth: int) -> bool
    decreases e,
{
    match e {
        Bruijn::Val(i) => 0 <= i < depth,
        Bruijn::Abs(body) => indices_below(*body, depth + 1),
        Bruijn::App(f, a) => indices_below(*f, depth) && indices_below(*a, depth),
        Bruijn::Lit(_) => true,
    }
}

/// Some free variable (`Lit`) occurs in `e`.
pub open spec fn has_free_ref(e: Bruijn) -> bool
    decreases e,
{
    match e {
        Bruijn::Val(_) => false,
        Bruijn::Abs(body) => has_free_ref(*body),
        Bruijn::App(f, a) => has_free_ref(*f) || has_free_ref(*a),
        Bruijn::Lit(_) => true,
    }
}

/// `e` with every `Val(cutoff)` replaced by `param`; the index sought grows by
/// one under each abstraction, and no other index is renumbered.
pub open spec fn subst_spec(e: Bruijn, cutoff: int, param: Bruijn) -> Bruijn
    decreases e,
{
    match e {
        Bruijn::Val(i) => if i == cutoff {
            param
        } else {
            e
        },
        Bruijn::Abs(body) => Bruijn::Abs(Box::new(subst_spec(*body, cutoff + 1, param))),
        Bruijn::App(f, a) => Bruijn::App(
            Box::new(subst_spec(*f, cutoff, param)),
            Box::new(subst_spec(*a, cutoff, param)),
        ),
        Bruijn::Lit(_) => e,
    }
}

/// An index beyond the range of `i32` occurs nowhere, so substituting for it
/// leaves the term as it is.
pub proof fn lemma_subst_out_of_range(e: Bruijn, cutoff: int, param: Bruijn)
    requires
        cutoff > i32::MAX,
    ensures
        subst_spec(e, cutoff, param) == e,
    decreases e,
{
    match e {
        Bruijn::Abs(body) => lemma_subst_out_of_range(*body, cutoff + 1, param),
        Bruijn::App(f, a) => {
            lemma_subst_out_of_range(*f, cutoff, param);
            lemma_subst_out_of_range(*a, cutoff, param);
        },
        _ => {},
    }
}

/// One weak-head step chain: the function side of an application is
/// evaluated; if it became an abstraction, the argument is substituted for
/// its index 0 and that result is returned as it stands, without being
/// evaluated again. Any other term is already in the shape this returns.
pub open spec fn eval_spec(e: Bruijn) -> Bruijn
    decreases e,
{
    match e {
        Bruijn::App(f, a) => {
            let g = eval_spec(*f);
            match g {
                Bruijn::Abs(body) => subst_spec(*body, 0, *a),
                _ => Bruijn::App(Box::new(g), a),
            }
        },
        _ => e,
    }
}

/// An application headed by a free variable has no redex: evaluation hands
/// it back as it is, whatever its argument.
pub proof fn free_head_is_stuck(f: String, a: Bruijn)
    ensures
        eval_spec(Bruijn::App(Box::new(Bruijn::Lit(f)), Box::new(a))) == Bruijn::App(
            Box::new(Bruijn::Lit(f)),
            Box::new(a),
        ),
{
    assert(eval_spec(Bruijn::Lit(f)) == Bruijn::Lit(f));
}

/// Applying an abstraction performs one substitution and stops: the result
/// is not evaluated again, even where it is itself a redex.
pub proof fn beta_step_is_not_repeated(body: Bruijn, a: Bruijn)
    ensures
        eval_spec(Bruijn::App(Box::new(Bruijn::Abs(Box::new(body))), Box::new(a))) == subst_spec(
            body,
            0,
            a,
        ),
{
    assert(eval_spec(Bruijn::Abs(Box::new(body))) == Bruijn::Abs(Box::new(body)));
}

impl Bruijn {
    /// Reduces the head redex chain of the term (see `eval_spec`).
    pub fn eval(&self) -> (r: Self)
        ensures
            r == eval_spec(*self),
        decreases self,
    {
        match self {
            Bruijn::App(expr1, expr2) => {
                let new_expr1 = expr1.eval();
                match new_expr1 {
                    Bruijn::Abs(body) => body.subst(0, expr2),
                    _ => Bruijn::App(Box::new(new_expr1), Box::new(expr2.duplicate())),
                }
            },
            _ => self.duplicate(),
        }
    }

    /// A deep copy of the term.
    pub fn duplicate(&self) -> (r: Self)
        ensures
            r == *self,
        decreases self,
    {
        match self {
            Bruijn::Val(i) => Bruijn::Val(*i),
            Bruijn::Abs(body) => Bruijn::Abs(Box::new(body.duplicate())),
            Bruijn::App(f, a) => Bruijn::App(Box::new(f.duplicate()), Box::new(a.duplicate())),
            Bruijn::Lit(s) => Bruijn::Lit(s.clone()),
        }
    }

    fn subst(&self, cutt_off: i32, param: &Self) -> (r: Self)
        ensures
            r == subst_spec(*self, cutt_off as int, *param),
        decreases self,
    {
        match self {
            Bruijn::Val(varid) => {
                if *varid == cutt_off {
                    param.duplicate()
                } else {
                    Bruijn::Val(*varid)
                }
            },
            Bruijn::App(expr1, expr2) => {
                let new_expr1 = expr1.subst(cutt_off, param);
                let new_expr2 = expr2.subst(cutt_off, param);
                Bruijn::App(Box::new(new_expr1), Box::new(new_expr2))
            },
            Bruijn::Abs(body) => {
                if cutt_off == i32::MAX {
                    proof {
                        lemma_subst_out_of_range(**body, cutt_off + 1, *param);
                    }
                    Bruijn::Abs(Box::new(body.duplicate()))
                } else {
                    Bruijn::Abs(Box::new(body.subst(cutt_off + 1, param)))
                }
            },
            Bruijn::Lit(s) => Bruijn::Lit(s.clone()),
        }
    }
}

impl Clone for Bruijn {
    fn clone(&self) -> (r: Self)
        ensures
            r == *self,
    {
        self.duplicate()
    }
}

/// The decimal digit `d` (`d < 10`).
pub open spec fn digit_char(d: nat) -> char {
    if d == 0 {
        '0'
    } else if d == 1 {
        '1'
    } else if d == 2 {
        '2'
    } else if d == 3 {
        '3'
    } else if d == 4 {
        '4'
    } else if d == 5 {
        '5'
    } else if d == 6 {
        '6'
    } else if d == 7 {
        '7'
    } else if d == 8 {
        '8'
    } else {
        '9'
    }
}

/// The decimal digits of `n`, most significant first, without leading zeros.
pub open spec fn decimal_text(n: nat) -> Seq<char>
    decreases n,
{
    if n < 10 {
        seq![digit_char(n)]
    } else {
        decimal_text(n / 10) + seq![digit_char(n % 10)]
    }
}

/// `n` in decimal, with a leading `-` when negative.
pub open spec fn int_text(n: int) -> Seq<char> {
    if n < 0 {
        seq!['-'] + decimal_text((-n) as nat)
    } else {
        decimal_text(n as nat)
    }
}

/// The text of an index term: an index in decimal, `(\ body)`, `(f a)`, and
/// `#name` for a free variable.
pub open spec fn text_spec(e: Bruijn) -> Seq<char>
    decreases e,
{
    match e {
        Bruijn::Val(i) => int_text(i as int),
        Bruijn::Abs(body) => seq!['(', '\\', ' '] + text_spec(*body) + seq![')'],
        Bruijn::App(f, a) => seq!['('] + text_spec(*f) + seq![' '] + text_spec(*a) + seq![')'],
        Bruijn::Lit(name) => seq!['#'] + name@,
    }
}

fn append_digit(out: &mut String, d: u32)
    requires
        d < 10,
    ensures
        final(out)@ == old(out)@ + seq![digit_char(d as nat)],
{
    proof {
        reveal_strlit("0");
        reveal_strlit("1");
        reveal_strlit("2");
        reveal_strlit("3");
        reveal_strlit("4");
        reveal_strlit("5");
        reveal_strlit("6");
        reveal_strlit("7");
        reveal_strlit("8");
        reveal_strlit("9");
    }
    let s = if d == 0 {
        "0"
    } else if d == 1 {
        "1"
    } else if d == 2 {
        "2"
    } else if d == 3 {
        "3"
    } else if d == 4 {
        "4"
    } else if d == 5 {
        "5"
    } else if d == 6 {
        "6"
    } else if d == 7 {
        "7"
    } else if d == 8 {
        "8"
    } else {
        "9"
    };
    out.append(s);
}

fn append_decimal(out: &mut String, n: u32)
    ensures
        final(out)@ == old(out)@ + decimal_text(n as nat),
    decreases n,
{
    if n >= 10 {
        append_decimal(out, n / 10);
    }
    append_digit(out, n % 10);
    proof {
        if n < 10 {
            assert(n % 10 == n);
        }
    }
    assert(final(out)@ =~= old(out)@ + decimal_text(n as nat));
}

impl Bruijn {
    fn write_text(&self, out: &mut String)
        ensures
            final(out)@ == old(out)@ + text_spec(*self),
        decreases self,
    {
        let ghost start = out@;
        match self {
            Bruijn::Val(index) => {
                if *index < 0 {
                    proof {
                        reveal_strlit("-");
                    }
                    out.append("-");
                    append_decimal(out, (-(*index as i64)) as u32);
                } else {
                    append_decimal(out, *index as u32);
                }
            },
            Bruijn::Abs(body) => {
                proof {
                    reveal_strlit("(\\ ");
                    reveal_strlit(")");
                }
                out.append("(\\ ");
                body.write_text(out);
                out.append(")");
            },
            Bruijn::App(expr1, expr2) => {
                proof {
                    reveal_strlit("(");
                    reveal_strlit(" ");
                    reveal_strlit(")");
                }
                out.append("(");
                expr1.write_text(out);
                out.append(" ");
                expr2.write_text(out);
                out.append(")");
            },
            Bruijn::Lit(name) => {
                proof {
                    reveal_strlit("#");
                }
                out.append("#");
                out.append(name.as_str());
            },
        }
        assert(out@ =~= start + text_spec(*self));
    }

    /// The term as text: `(\ body)` for an abstraction, `(f a)` for an
    /// application, the index in decimal, `#name` for a free variable.
    pub fn to_text(&self) -> (r: String)
        ensures
            r@ == text_spec(*self),
    {
        let mut out = String::new();
        self.write_text(&mut out);
        assert(out@ =~= text_spec(*self));
        out
    }
}

} // verus!
