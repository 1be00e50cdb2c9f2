//! The calculator: one binary operation on two numbers, or a number.
use vstd::prelude::*;
use crate::json::Json;
use crate::text::{chars_of, string_of_chars};
use crate::tools::{required_str_arg, result_view, str_arg, string_arg_schema, string_arg_schema_json};

verus! {

#[derive(Debug, PartialEq)]
pub struct CalculatorTool;

#[derive(PartialEq, Eq, Structural, Clone, Copy, Debug)]
pub enum ArithmeticOp {
    Add,
    Subtract,
    Multiply,
    Divide,
}

/// The shape of an expression: an operation with its two operand texts, or
/// a single number text.
#[derive(Debug, PartialEq)]
pub enum Arithmetic {
    Binary { op: ArithmeticOp, left: String, right: String },
    Single(String),
}

pub enum ArithmeticV {
    Binary { op: ArithmeticOp, left: Seq<char>, right: Seq<char> },
    Single(Seq<char>),
}

impl View for Arithmetic {
    type V = ArithmeticV;

    open spec fn view(&self) -> ArithmeticV {
        match self {
            Arithmetic::Binary { op, left, right } => ArithmeticV::Binary {
                op: *op,
                left: left@,
                right: right@,
            },
            Arithmetic::Single(s) => ArithmeticV::Single(s@),
        }
    }
}

/// `s` without its spaces.
pub open spec fn strip_spaces(s: Seq<char>) -> Seq<char>
    decreases s.len(),
{
    if s.len() == 0 {
        Seq::empty()
    } else if s[s.len() - 1] == ' ' {
        strip_spaces(s.subrange(0, s.len() - 1))
    } else {
        strip_spaces(s.subrange(0, s.len() - 1)).push(s[s.len() - 1])
    }
}

/// The first position at or after `i` that holds `c`.
pub open spec fn first_pos_from(s: Seq<char>, c: char, i: int) -> Option<int>
    decreases s.len() - i,
{
    if i < 0 || i >= s.len() {
        None
    } else if s[i] == c {
        Some(i)
    } else {
        first_pos_from(s, c, i + 1)
    }
}

pub open spec fn split_at_op(s: Seq<char>, op: ArithmeticOp, p: int) -> ArithmeticV {
    ArithmeticV::Binary { op, left: s.subrange(0, p), right: s.subrange(p + 1, s.len() as int) }
}

/// The shape of an expression: with its spaces removed, it splits at its
/// first '+'; where it has none, at its first '-'; then '*'; then '/';
/// where it has none of them it is a single number.
pub open spec fn arithmetic_form(expr: Seq<char>) -> ArithmeticV {
    let s = strip_spaces(expr);
    match first_pos_from(s, '+', 0) {
        Some(p) => split_at_op(s, ArithmeticOp::Add, p),
        None => match first_pos_from(s, '-', 0) {
            Some(p) => split_at_op(s, ArithmeticOp::Subtract, p),
            None => match first_pos_from(s, '*', 0) {
                Some(p) => split_at_op(s, ArithmeticOp::Multiply, p),
                None => match first_pos_from(s, '/', 0) {
                    Some(p) => split_at_op(s, ArithmeticOp::Divide, p),
                    None => ArithmeticV::Single(s),
                },
            },
        },
    }
}

fn strip_spaces_exec(cs: &Vec<char>) -> (r: Vec<char>)
    ensures
        r@ == strip_spaces(cs@),
{
    let mut r: Vec<char> = Vec::new();
    let mut i: usize = 0;
    while i < cs.len()
        invariant
            i <= cs@.len(),
            r@ == strip_spaces(cs@.subrange(0, i as int)),
        decreases cs@.len() - i,
    {
        proof {
            assert(cs@.subrange(0, i + 1).subrange(0, i as int) =~= cs@.subrange(0, i as int));
        }
        if cs[i] != ' ' {
            r.push(cs[i]);
        }
        i = i + 1;
    }
    assert(cs@.subrange(0, cs@.len() as int) =~= cs@);
    r
}

fn first_pos(cs: &Vec<char>, c: char) -> (r: Option<usize>)
    ensures
        match r {
            Some(p) => first_pos_from(cs@, c, 0) == Some(p as int) && p < cs@.len(),
            None => first_pos_from(cs@, c, 0) is None,
        },
{
    let mut i: usize = 0;
    while i < cs.len()
        invariant
            i <= cs@.len(),
            first_pos_from(cs@, c, 0) == first_pos_from(cs@, c, i as int),
        decreases cs@.len() - i,
    {
        if cs[i] == c {
            return Some(i);
        }
        i = i + 1;
    }
    None
}

fn split_exec(s: &Vec<char>, op: ArithmeticOp, p: usize) -> (r: Arithmetic)
    requires
        p < s@.len(),
    ensures
        r@ == split_at_op(s@, op, p as int),
{
    let n = s.len();
    Arithmetic::Binary { op, left: string_of_chars(s, 0, p), right: string_of_chars(s, p + 1, n) }
}

/// The shape of an expression (see `arithmetic_form`).
pub fn split_arithmetic(expr: &str) -> (r: Arithmetic)
    ensures
        r@ == arithmetic_form(expr@),
{
    let s = strip_spaces_exec(&chars_of(expr));
    match first_pos(&s, '+') {
        Some(p) => split_exec(&s, ArithmeticOp::Add, p),
        None => match first_pos(&s, '-') {
            Some(p) => split_exec(&s, ArithmeticOp::Subtract, p),
            None => match first_pos(&s, '*') {
                Some(p) => split_exec(&s, ArithmeticOp::Multiply, p),
                None => match first_pos(&s, '/') {
                    Some(p) => split_exec(&s, ArithmeticOp::Divide, p),
                    None => {
                        let n = s.len();
                        let r = string_of_chars(&s, 0, n);
                        assert(s@.subrange(0, n as int) =~= s@);
                        Arithmetic::Single(r)
                    },
                },
            },
        },
    }
}

impl CalculatorTool {
    pub fn name(&self) -> (r: &'static str)
        ensures
            r@ == "calculator"@,
    {
        "calculator"
    }

    pub fn description(&self) -> (r: &'static str)
        ensures
            r@
                == "Perform basic mathematical calculations. Supports addition, subtraction, multiplication, and division."@,
    {
        "Perform basic mathematical calculations. Supports addition, subtraction, multiplication, and division."
    }

    pub fn input_schema(&self) -> (r: Json)
        ensures
            r.deep() == string_arg_schema(
                "expression"@,
                "The mathematical expression to evaluate, e.g., '2 + 2' or '10 / 2'."@,
            ),
    {
        string_arg_schema_json(
            "expression",
            "The mathematical expression to evaluate, e.g., '2 + 2' or '10 / 2'.",
        )
    }

    /// The expression to evaluate.
    pub fn expression(&self, args: &Json) -> (r: Result<String, String>)
        ensures
            result_view(r) == str_arg(args.deep(), "expression"@, "Missing 'expression' argument"@),
    {
        required_str_arg(args, "expression", "Missing 'expression' argument")
    }

    /// The error for a division whose divisor is zero.
    pub fn division_by_zero(&self) -> (r: String)
        ensures
            r@ == "Division by zero"@,
    {
        crate::json::owned("Division by zero")
    }

    /// The error for a single number that does not parse.
    pub fn parse_failure(&self, expr: &str, error: &str) -> (r: String)
        ensures
            r@ == "Failed to parse expression "@ + expr@ + ": "@ + error@,
    {
        let mut r = crate::json::owned("Failed to parse expression ");
        r.append(expr);
        r.append(": ");
        r.append(error);
        r
    }
}


proof fn lemma_first_pos(s: Seq<char>, c: char, i: int)
    requires
        0 <= i,
    ensures
        match first_pos_from(s, c, i) {
            Some(p) => i <= p < s.len() && s[p] == c && forall|k: int| i <= k < p ==> s[k] != c,
            None => forall|k: int| i <= k < s.len() ==> s[k] != c,
        },
    decreases s.len() - i,
{
    if i < s.len() && s[i] != c {
        lemma_first_pos(s, c, i + 1);
    }
}

/// An expression is split at an operator of its text without spaces: the
/// result gives the position `p` of that operator. The operation is the one
/// the character at `p` names ('+' adds, '-' subtracts, '*' multiplies, '/'
/// divides), the operands are the texts before and after it, and `p` is the
/// first occurrence of the first of '+', '-', '*', '/' that the text holds.
/// An expression with none of them is its text as one number.
pub proof fn lemma_arithmetic_form_splits_at_operator(expr: Seq<char>) -> (p: int)
    ensures
        ({
            let s = strip_spaces(expr);
            match arithmetic_form(expr) {
                ArithmeticV::Binary { op, left, right } => {
                    &&& 0 <= p < s.len()
                    &&& left == s.subrange(0, p)
                    &&& right == s.subrange(p + 1, s.len() as int)
                    &&& (s[p] == '+' <==> op == ArithmeticOp::Add)
                    &&& (s[p] == '-' <==> op == ArithmeticOp::Subtract)
                    &&& (s[p] == '*' <==> op == ArithmeticOp::Multiply)
                    &&& (s[p] == '/' <==> op == ArithmeticOp::Divide)
                    &&& !left.contains(s[p])
                    &&& op != ArithmeticOp::Add ==> !s.contains('+')
                    &&& (op == ArithmeticOp::Multiply || op == ArithmeticOp::Divide) ==> !s.contains('-')
                    &&& op == ArithmeticOp::Divide ==> !s.contains('*')
                },
                ArithmeticV::Single(t) => {
                    &&& t == s
                    &&& !s.contains('+') && !s.contains('-') && !s.contains('*') && !s.contains('/')
                },
            }
        }),
{
    let s = strip_spaces(expr);
    lemma_first_pos(s, '+', 0);
    lemma_first_pos(s, '-', 0);
    lemma_first_pos(s, '*', 0);
    lemma_first_pos(s, '/', 0);
    let p: int = match first_pos_from(s, '+', 0) {
        Some(p) => p,
        None => match first_pos_from(s, '-', 0) {
            Some(p) => p,
            None => match first_pos_from(s, '*', 0) {
                Some(p) => p,
                None => match first_pos_from(s, '/', 0) {
                    Some(p) => p,
                    None => 0,
                },
            },
        },
    };
    if arithmetic_form(expr) is Binary {
        let c = s[p];
        assert forall|k: int| 0 <= k < p implies s.subrange(0, p)[k] != c by {
            assert(s.subrange(0, p)[k] == s[k]);
        }
    }
    p
}


/// Removing the spaces of a text keeps all its other characters, in order,
/// and only them.
pub proof fn lemma_strip_spaces_keeps_the_rest(s: Seq<char>)
    ensures
        strip_spaces(s) == s.filter(|c: char| c != ' '),
        !strip_spaces(s).contains(' '),
    decreases s.len(),
{
    reveal(Seq::filter);
    if s.len() > 0 {
        lemma_strip_spaces_keeps_the_rest(s.subrange(0, s.len() - 1));
        assert(s.drop_last() =~= s.subrange(0, s.len() - 1));
    }
    let f = |c: char| c != ' ';
    s.filter_lemma(f);
    if strip_spaces(s).contains(' ') {
        let k = choose|k: int| 0 <= k < strip_spaces(s).len() && strip_spaces(s)[k] == ' ';
        assert(f(s.filter(f)[k]));
    }
}

} // verus!
