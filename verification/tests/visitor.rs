use rcalc::ast::{Atom, BinaryArithmetic, Expr, FunctionCall, UnaryArithmetic};
use rcalc::parser::calc_parser;
use rcalc::visitor::Visitor;

/// A backend of its own: the names a tree uses, in the order of the walk.
struct Names {
    seen: Vec<String>,
}

impl Visitor<usize> for Names {
    fn visit_expr(&mut self, e: &Expr) -> usize {
        match e {
            Expr::UnaryArithmetic(u) => self.visit_unary(u),
            Expr::BinaryArithmetic(b) => self.visit_binary(b),
            Expr::FunctionCall(f) => self.visit_function(f),
            Expr::Atom(a) => self.visit_atom(a),
        }
    }

    fn visit_unary(&mut self, u: &UnaryArithmetic) -> usize {
        self.visit_expr(&u.value)
    }

    fn visit_binary(&mut self, b: &BinaryArithmetic) -> usize {
        self.visit_expr(&b.lhs) + self.visit_expr(&b.rhs)
    }

    fn visit_function(&mut self, f: &FunctionCall) -> usize {
        let mut count = 0;
        for arg in &f.args {
            count += self.visit_expr(arg);
        }
        self.seen.push(f.name.clone());
        count + 1
    }

    fn visit_atom(&mut self, a: &Atom) -> usize {
        match a {
            Atom::Ident(name) => {
                self.seen.push(name.clone());
                1
            }
            Atom::Number(_) => 0,
        }
    }
}

#[test]
fn a_backend_of_its_own_walks_the_same_tree() {
    let parsed = calc_parser::expr("f(a, 1 + b) * -g(c)!").unwrap();
    let mut names = Names { seen: Vec::new() };
    assert_eq!(names.visit_expr(&parsed), 5);
    assert_eq!(names.seen, vec!["a", "b", "f", "c", "g"]);
}
