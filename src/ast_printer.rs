//! Diagnostic rendering of a tree in parenthesised prefix form.
use vstd::prelude::*;
use crate::expression::{Expression, Grouping, Ternary, Unary, Binary};
use crate::interpreter::{shown, value_of};
use crate::numbers::Numbers;
use crate::token::Literal as TokenLiteral;

verus! {

/// `(head part part ...)` with one space before each part.
pub open spec fn parenthesized(head: Seq<char>, parts: Seq<Seq<char>>) -> Seq<char>
    decreases parts.len(),
{
    if parts.len() == 0 {
        "("@ + head + ")"@
    } else {
        let before = parenthesized(head, parts.drop_last());
        before.subrange(0, before.len() - 1) + " "@ + parts.last() + ")"@
    }
}

/// The rendering of `e`: operator nodes as `(lexeme operands...)`,
/// groupings as `(group inner)`, ternaries as `(?: condition then else)`,
/// literals as their text (nil as `nil`, a number as the number system
/// formats it).
pub open spec fn printed<N: Numbers>(numbers: N, e: Expression) -> Seq<char>
    decreases e,
{
    match e {
        Expression::Literal(l) => shown(numbers, value_of(l.value)),
        Expression::Grouping(g) => parenthesized("group"@, seq![printed(numbers, *g.expression)]),
        Expression::Unary(u) => parenthesized(u.operator.lexeme@, seq![printed(numbers, *u.right)]),
        Expression::Binary(b) => parenthesized(
            b.operator.lexeme@,
            seq![printed(numbers, *b.left), printed(numbers, *b.right)],
        ),
        Expression::Ternary(t) => parenthesized(
            "?:"@,
            seq![
                printed(numbers, *t.condition),
                printed(numbers, *t.then_branch),
                printed(numbers, *t.else_branch),
            ],
        ),
    }
}

/// Renders trees for diagnostics.
pub struct AstPrinter {}

impl AstPrinter {
    pub fn new() -> AstPrinter {
        AstPrinter {  }
    }

    /// The rendering of `expr`.
    pub fn print<N: Numbers>(&mut self, expr: &Expression, numbers: &N) -> (r: String)
        ensures
            r@ == printed(*numbers, *expr),
        decreases expr, 1nat,
    {
        match expr {
            Expression::Binary(b) => self.print_binary(b, numbers),
            Expression::Grouping(g) => self.print_grouping(g, numbers),
            Expression::Literal(l) => self.visit_literal_expr(&l.value, numbers),
            Expression::Unary(u) => self.print_unary(u, numbers),
            Expression::Ternary(t) => self.print_ternary(t, numbers),
        }
    }

    /// Opens `(head`; parts are added with `add_part` and the list closed
    /// with `close`.
    fn open(head: &str) -> (r: String)
        ensures
            r@ + ")"@ == parenthesized(head@, seq![]),
    {
        let mut out = String::from_str("(");
        out.append(head);
        out
    }

    fn add_part(out: &mut String, part: &String, head: Ghost<Seq<char>>, parts: Ghost<Seq<Seq<char>>>)
        requires
            old(out)@ + ")"@ == parenthesized(head@, parts@),
        ensures
            final(out)@ + ")"@ == parenthesized(head@, parts@.push(part@)),
    {
        let ghost before = parenthesized(head@, parts@);
        out.append(" ");
        out.append(part.as_str());
        proof {
            reveal_strlit(")");
            assert(parts@.push(part@).drop_last() =~= parts@);
            assert(before.subrange(0, before.len() - 1) =~= old(out)@);
            assert(final(out)@ + ")"@ =~= before.subrange(0, before.len() - 1) + " "@ + part@ + ")"@);
        }
    }

    fn print_grouping<N: Numbers>(&mut self, group: &Grouping, numbers: &N) -> (r: String)
        ensures
            r@ == printed(*numbers, Expression::Grouping(*group)),
        decreases Expression::Grouping(*group), 0nat,
    {
        proof {
            let ghost e = Expression::Grouping(*group);
            assert(decreases_to!(e => e->Grouping_0));
            assert(decreases_to!(*group => group.expression));
        }
        let inner = self.print(&group.expression, numbers);
        let mut out = Self::open("group");
        Self::add_part(&mut out, &inner, Ghost("group"@), Ghost(Seq::<Seq<char>>::empty()));
        out.append(")");
        assert(seq![inner@] =~= seq![].push(inner@));
        assert(seq![inner@] =~= seq![printed(*numbers, *group.expression)]);
        out
    }

    fn print_unary<N: Numbers>(&mut self, unary: &Unary, numbers: &N) -> (r: String)
        ensures
            r@ == printed(*numbers, Expression::Unary(*unary)),
        decreases Expression::Unary(*unary), 0nat,
    {
        proof {
            let ghost e = Expression::Unary(*unary);
            assert(decreases_to!(e => e->Unary_0));
            assert(decreases_to!(*unary => unary.right));
        }
        let right = self.print(&unary.right, numbers);
        let head = unary.operator.lexeme.as_str();
        let mut out = Self::open(head);
        Self::add_part(&mut out, &right, Ghost(head@), Ghost(Seq::<Seq<char>>::empty()));
        out.append(")");
        assert(seq![right@] =~= seq![].push(right@));
        assert(seq![right@] =~= seq![printed(*numbers, *unary.right)]);
        out
    }

    fn print_binary<N: Numbers>(&mut self, binary: &Binary, numbers: &N) -> (r: String)
        ensures
            r@ == printed(*numbers, Expression::Binary(*binary)),
        decreases Expression::Binary(*binary), 0nat,
    {
        proof {
            let ghost e = Expression::Binary(*binary);
            assert(decreases_to!(e => e->Binary_0));
            assert(decreases_to!(*binary => binary.left));
            assert(decreases_to!(*binary => binary.right));
        }
        let left = self.print(&binary.left, numbers);
        let right = self.print(&binary.right, numbers);
        let head = binary.operator.lexeme.as_str();
        let mut out = Self::open(head);
        Self::add_part(&mut out, &left, Ghost(head@), Ghost(Seq::<Seq<char>>::empty()));
        Self::add_part(&mut out, &right, Ghost(head@), Ghost(Seq::<Seq<char>>::empty().push(left@)));
        out.append(")");
        assert(seq![left@] =~= seq![].push(left@));
        assert(seq![left@, right@] =~= seq![left@].push(right@));
        assert(seq![left@, right@] =~= seq![printed(*numbers, *binary.left), printed(*numbers, *binary.right)]);
        out
    }

    fn print_ternary<N: Numbers>(&mut self, ternary: &Ternary, numbers: &N) -> (r: String)
        ensures
            r@ == printed(*numbers, Expression::Ternary(*ternary)),
        decreases Expression::Ternary(*ternary), 0nat,
    {
        proof {
            let ghost e = Expression::Ternary(*ternary);
            assert(decreases_to!(e => e->Ternary_0));
            assert(decreases_to!(*ternary => ternary.condition));
            assert(decreases_to!(*ternary => ternary.then_branch));
            assert(decreases_to!(*ternary => ternary.else_branch));
        }
        let condition = self.print(&ternary.condition, numbers);
        let then_branch = self.print(&ternary.then_branch, numbers);
        let else_branch = self.print(&ternary.else_branch, numbers);
        let mut out = Self::open("?:");
        Self::add_part(&mut out, &condition, Ghost("?:"@), Ghost(Seq::<Seq<char>>::empty()));
        Self::add_part(&mut out, &then_branch, Ghost("?:"@), Ghost(Seq::<Seq<char>>::empty().push(condition@)));
        Self::add_part(&mut out, &else_branch, Ghost("?:"@), Ghost(Seq::<Seq<char>>::empty().push(condition@).push(then_branch@)));
        out.append(")");
        assert(seq![condition@] =~= seq![].push(condition@));
        assert(seq![condition@, then_branch@] =~= seq![condition@].push(then_branch@));
        assert(seq![condition@, then_branch@, else_branch@] =~= seq![condition@, then_branch@].push(
            else_branch@,
        ));
        assert(seq![condition@, then_branch@, else_branch@] =~= seq![
            printed(*numbers, *ternary.condition),
            printed(*numbers, *ternary.then_branch),
            printed(*numbers, *ternary.else_branch),
        ]);
        out
    }

    /// The text of a literal.
    fn visit_literal_expr<N: Numbers>(&mut self, value: &Option<TokenLiteral>, numbers: &N) -> (r: String)
        ensures
            r@ == shown(*numbers, value_of(*value)),
    {
        match value {
            None => String::from_str("nil"),
            Some(TokenLiteral::Boolean(b)) => if *b {
                String::from_str("true")
            } else {
                String::from_str("false")
            },
            Some(TokenLiteral::String(s)) => s.clone(),
            Some(TokenLiteral::Identifier(s)) => s.clone(),
            Some(TokenLiteral::Number(n)) => numbers.to_text(*n),
        }
    }
}

} // verus!
