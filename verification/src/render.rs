//! The textual form of objects.

use crate::objects::{lemma_parts_are_smaller, Object, ObjP, Sexp};
use vstd::prelude::*;
use vstd::string::StringExecFns;

verus! {

/// The character of a decimal digit.
pub open spec fn digit_char(d: int) -> char {
    (d + 48) as char
}

/// The decimal digits of a natural number, the most significant first and
/// without leading zeros.
pub open spec fn digits(n: nat) -> Seq<char>
    decreases n,
{
    if n < 10 {
        seq![digit_char(n as int)]
    } else {
        digits(n / 10).push(digit_char((n % 10) as int))
    }
}

/// The decimal form of an integer: a minus sign where it is negative, then
/// the digits of its magnitude.
pub open spec fn decimal(i: int) -> Seq<char> {
    if i < 0 {
        seq!['-'] + digits((-i) as nat)
    } else {
        digits(i as nat)
    }
}

impl Sexp {
    /// The text of a value. A list is written in round brackets with one
    /// space between its elements; a list that ends in an atom has that
    /// atom after a dot; a combiner is written as a placeholder.
    pub open spec fn render(self) -> Seq<char>
        decreases self, 0nat,
    {
        match self {
            Sexp::Empty => "()"@,
            Sexp::Integer(i) => decimal(i as int),
            Sexp::Symbol(name) => name,
            Sexp::Boolean(t) => if t {
                "#t"@
            } else {
                "#f"@
            },
            Sexp::Pair(first, rest) => "("@ + first.render() + rest.render_tail(),
            Sexp::Applicative(_, _) => "#<SUBR>"@,
            Sexp::Operative(_, _) => "#<FSUBR>"@,
            Sexp::Closure { .. } => "#<EXPR>"@,
        }
    }

    /// The text of what follows the first element of a list, closing
    /// bracket included.
    pub open spec fn render_tail(self) -> Seq<char>
        decreases self, 1nat,
    {
        match self {
            Sexp::Empty => ")"@,
            Sexp::Pair(first, rest) => " "@ + first.render() + rest.render_tail(),
            _ => " . "@ + self.render() + ")"@,
        }
    }
}

/// `String::push`: the string with the character added at its end.
#[verifier::external_body]
pub(crate) fn push_char(s: &mut String, c: char)
    ensures
        final(s)@ == old(s)@.push(c),
{
    s.push(c)
}

/// Appends the digits of `n`.
fn write_digits(n: u64, out: &mut String)
    ensures
        final(out)@ == old(out)@ + digits(n as nat),
    decreases n,
{
    if n >= 10 {
        write_digits(n / 10, out);
    }
    let d: u8 = (n % 10) as u8;
    push_char(out, (48u8 + d) as char);
}

/// Appends the decimal form of `i`.
fn write_decimal(i: i64, out: &mut String)
    ensures
        final(out)@ == old(out)@ + decimal(i as int),
{
    if i < 0 {
        push_char(out, '-');
        let magnitude: u64 = ((-(i + 1)) as u64) + 1;
        write_digits(magnitude, out);
    } else {
        write_digits(i as u64, out);
    }
}

/// Appends the text of `o`.
fn write_object(o: &Object, out: &mut String)
    ensures
        final(out)@ == old(out)@ + o@.render(),
    decreases o@,
{
    let ghost before = out@;
    proof {
        lemma_parts_are_smaller(o@);
    }
    match o {
        Object::Null => out.append("()"),
        Object::Fixnum(i) => write_decimal(*i, out),
        Object::Symbol(name) => out.append(name.as_str()),
        Object::Boolean(t) => if *t {
            out.append("#t")
        } else {
            out.append("#f")
        },
        Object::Cons { car, cdr } => {
            out.append("(");
            write_object(car.borrow(), out);
            let mut tail: &ObjP = cdr;
            loop
                invariant_except_break
                    out@ + tail@.render_tail() == before + o@.render(),
                invariant
                    decreases_to!(o@ => tail@),
                ensures
                    out@ == before + o@.render(),
                decreases tail@,
            {
                proof {
                    lemma_parts_are_smaller(tail@);
                }
                let ghost so_far = out@;
                match tail.borrow() {
                    Object::Null => {
                        out.append(")");
                        break ;
                    },
                    Object::Cons { car: next, cdr: more } => {
                        out.append(" ");
                        write_object(next.borrow(), out);
                        assert(out@ + more@.render_tail() == so_far + tail@.render_tail());
                        tail = more;
                    },
                    _ => {
                        out.append(" . ");
                        write_object(tail.borrow(), out);
                        out.append(")");
                        assert(out@ == so_far + tail@.render_tail());
                        break ;
                    },
                }
            }
        },
        Object::Subr(_, _) => out.append("#<SUBR>"),
        Object::Fsubr(_, _) => out.append("#<FSUBR>"),
        Object::Expr { .. } => out.append("#<EXPR>"),
    }
}

impl Object {
    /// The text of the object.
    pub fn render(&self) -> (text: String)
        ensures
            text@ == self@.render(),
    {
        let mut text = String::new();
        write_object(self, &mut text);
        text
    }
}

impl ObjP {
    /// The text of the object.
    pub fn render(&self) -> (text: String)
        ensures
            text@ == self@.render(),
    {
        self.borrow().render()
    }
}

} // verus!
