//! Tree-walking evaluator: executes a parsed program statement-by-statement
//! against a variable environment, collecting printed output and stopping at
//! the first failing statement (side effects of earlier statements are kept).

use vstd::prelude::*;

use crate::ast::{
    BinaryOperator, BuiltinFunction, Expression, Program, SpecExpression, SpecStatement, Statement,
};
use crate::environment::{spec_output_string, Environment, SpecValue, Value};
use crate::error::{NumerusError, SpecNumerusError};
use crate::roman::{spec_to_roman, to_roman};
use crate::span::Span;
use crate::text::{decimal_string_i32, spec_decimal};

verus! {

/// How a number is rendered when concatenated to a string: its canonical
/// Roman form when representable, its decimal digits otherwise.
pub open spec fn spec_num_text(n: int) -> Seq<char> {
    if 1 <= n <= 3999 {
        spec_to_roman(n)
    } else {
        spec_decimal(n)
    }
}

/// Signed division truncating toward zero.
pub open spec fn spec_div_trunc(a: int, b: int) -> int {
    let m = abs_of(a) / abs_of(b);
    if (a < 0) != (b < 0) {
        -m
    } else {
        m
    }
}

pub open spec fn abs_of(a: int) -> int {
    if a < 0 {
        -a
    } else {
        a
    }
}

/// What a binary operator yields on two evaluated operands. Addition works on
/// numbers (overflow-checked), strings (concatenation), and mixed operands
/// (the number is rendered as text first); the other operators demand
/// numbers, with overflow-checked subtraction and multiplication and
/// truncating division that rejects a zero divisor.
pub open spec fn spec_apply_binop(
    op: BinaryOperator,
    l: SpecValue,
    r: SpecValue,
    span: Span,
) -> Result<SpecValue, SpecNumerusError> {
    match op {
        BinaryOperator::Add => match (l, r) {
            (SpecValue::Num(a), SpecValue::Num(b)) => if i32::MIN <= a + b <= i32::MAX {
                Ok(SpecValue::Num(a + b))
            } else {
                Err(SpecNumerusError::IntegerOverflow { value: a + b })
            },
            (SpecValue::Str(a), SpecValue::Str(b)) => Ok(SpecValue::Str(a + b)),
            (SpecValue::Str(a), SpecValue::Num(b)) => Ok(SpecValue::Str(a + spec_num_text(b))),
            (SpecValue::Num(a), SpecValue::Str(b)) => Ok(SpecValue::Str(spec_num_text(a) + b)),
        },
        BinaryOperator::Subtract => match (l, r) {
            (SpecValue::Num(a), SpecValue::Num(b)) => if i32::MIN <= a - b <= i32::MAX {
                Ok(SpecValue::Num(a - b))
            } else {
                Err(SpecNumerusError::IntegerOverflow { value: a - b })
            },
            _ => Err(
                SpecNumerusError::TypeMismatch {
                    operation: "SUBTRAHE"@,
                    expected: "numbers"@,
                    span,
                },
            ),
        },
        BinaryOperator::Multiply => match (l, r) {
            (SpecValue::Num(a), SpecValue::Num(b)) => if i32::MIN <= a * b <= i32::MAX {
                Ok(SpecValue::Num(a * b))
            } else {
                Err(SpecNumerusError::IntegerOverflow { value: a * b })
            },
            _ => Err(
                SpecNumerusError::TypeMismatch {
                    operation: "MULTIPLICA"@,
                    expected: "numbers"@,
                    span,
                },
            ),
        },
        BinaryOperator::Divide => match (l, r) {
            (SpecValue::Num(a), SpecValue::Num(b)) => if b == 0 {
                Err(SpecNumerusError::DivisionByZero { span })
            } else if i32::MIN <= spec_div_trunc(a, b) <= i32::MAX {
                Ok(SpecValue::Num(spec_div_trunc(a, b)))
            } else {
                Err(SpecNumerusError::IntegerOverflow { value: spec_div_trunc(a, b) })
            },
            _ => Err(
                SpecNumerusError::TypeMismatch { operation: "DIVIDE"@, expected: "numbers"@, span },
            ),
        },
    }
}

/// What a built-in function yields on its evaluated argument: `ROMANIZA`
/// renders a number canonically (range errors included), `ARABIZA` renders a
/// number in decimal, `EXPRIME` returns its argument unchanged.
pub open spec fn spec_apply_builtin(
    f: BuiltinFunction,
    v: SpecValue,
    span: Span,
) -> Result<SpecValue, SpecNumerusError> {
    match f {
        BuiltinFunction::Romaniza => match v {
            SpecValue::Num(n) => if 1 <= n <= 3999 {
                Ok(SpecValue::Str(spec_to_roman(n)))
            } else {
                Err(SpecNumerusError::RomanOverflow { value: n })
            },
            SpecValue::Str(_) => Err(
                SpecNumerusError::TypeMismatch { operation: "ROMANIZA"@, expected: "number"@, span },
            ),
        },
        BuiltinFunction::Arabiza => match v {
            SpecValue::Num(n) => Ok(SpecValue::Str(spec_decimal(n))),
            SpecValue::Str(_) => Err(
                SpecNumerusError::TypeMismatch { operation: "ARABIZA"@, expected: "number"@, span },
            ),
        },
        BuiltinFunction::Exprime => Ok(v),
    }
}

/// The value of an expression in a given environment, or the first error its
/// left-to-right evaluation raises.
pub open spec fn spec_eval(e: SpecExpression, env: Map<Seq<char>, SpecValue>) -> Result<
    SpecValue,
    SpecNumerusError,
>
    decreases e,
{
    match e {
        SpecExpression::NumberLiteral { value, .. } => Ok(SpecValue::Num(value)),
        SpecExpression::StringLiteral { value, .. } => Ok(SpecValue::Str(value)),
        SpecExpression::Variable { name, .. } => if env.contains_key(name) {
            Ok(env[name])
        } else {
            Err(SpecNumerusError::UndefinedVariable { name })
        },
        SpecExpression::BinaryOp { left, operator, right, span } => match spec_eval(*left, env) {
            Err(e) => Err(e),
            Ok(l) => match spec_eval(*right, env) {
                Err(e) => Err(e),
                Ok(r) => spec_apply_binop(operator, l, r, span),
            },
        },
        SpecExpression::Grouped { inner, .. } => spec_eval(*inner, env),
        SpecExpression::FunctionCall { function, argument, span } => match spec_eval(
            *argument,
            env,
        ) {
            Err(e) => Err(e),
            Ok(v) => spec_apply_builtin(function, v, span),
        },
    }
}

/// The effect of one statement: the environment afterwards and the printed
/// line, if the statement prints one. An error leaves the environment
/// unchanged.
pub open spec fn spec_exec_statement(
    st: SpecStatement,
    env: Map<Seq<char>, SpecValue>,
) -> Result<(Map<Seq<char>, SpecValue>, Option<Seq<char>>), SpecNumerusError> {
    match st {
        SpecStatement::Declaration { name, value, .. } => match spec_eval(value, env) {
            Err(e) => Err(e),
            Ok(v) => if env.contains_key(name) {
                Err(SpecNumerusError::VariableAlreadyDeclared { name })
            } else {
                Ok((env.insert(name, v), None))
            },
        },
        SpecStatement::Assignment { name, value, .. } => match spec_eval(value, env) {
            Err(e) => Err(e),
            Ok(v) => if !env.contains_key(name) {
                Err(SpecNumerusError::UndefinedVariable { name })
            } else {
                Ok((env.insert(name, v), None))
            },
        },
        SpecStatement::Print { value, .. } => match spec_eval(value, env) {
            Err(e) => Err(e),
            Ok(v) => match spec_output_string(v) {
                Err(e) => Err(e),
                Ok(s) => Ok((env, Some(s))),
            },
        },
        SpecStatement::Avtem { .. } => Ok((env, None)),
        SpecStatement::Comment { .. } => Ok((env, None)),
    }
}

/// Running a statement list: the final environment, the printed lines of the
/// successful prefix, and the first error, if any.
pub open spec fn spec_run(stmts: Seq<SpecStatement>, env: Map<Seq<char>, SpecValue>) -> (
    Map<Seq<char>, SpecValue>,
    Seq<Seq<char>>,
    Option<SpecNumerusError>,
)
    decreases stmts.len(),
{
    if stmts.len() == 0 {
        (env, Seq::empty(), None)
    } else {
        match spec_exec_statement(stmts[0], env) {
            Err(e) => (env, Seq::empty(), Some(e)),
            Ok((env2, out)) => {
                let rest = spec_run(stmts.drop_first(), env2);
                let here = match out {
                    None => Seq::<Seq<char>>::empty(),
                    Some(s) => seq![s],
                };
                (rest.0, here + rest.1, rest.2)
            },
        }
    }
}

/// The lines held in a string buffer, as character sequences.
pub open spec fn lines_view(v: Seq<String>) -> Seq<Seq<char>> {
    v.map_values(|s: String| s@)
}

/// Truncating signed division, excluding the divisor zero and the one
/// overflowing quotient.
fn div_trunc(a: i32, b: i32) -> (r: i32)
    requires
        b != 0,
        !(a == i32::MIN && b == -1),
    ensures
        r as int == spec_div_trunc(a as int, b as int),
{
    let neg = (a < 0) != (b < 0);
    let ua: u32 = if a < 0 {
        (-(a as i64)) as u32
    } else {
        a as u32
    };
    let ub: u32 = if b < 0 {
        (-(b as i64)) as u32
    } else {
        b as u32
    };
    proof {
        assert(ua as int == abs_of(a as int));
        assert(ub as int == abs_of(b as int));
    }
    let q = ua / ub;
    proof {
        assert(q as int == abs_of(a as int) / abs_of(b as int));
        assert(q <= ua) by (nonlinear_arith)
            requires
                q == ua / ub,
                ub >= 1,
        ;
        if ub >= 2 {
            assert(q <= ua / 2) by (nonlinear_arith)
                requires
                    q == ua / ub,
                    ub >= 2,
            ;
        }
    }
    if neg {
        (-(q as i64)) as i32
    } else {
        q as i32
    }
}

/// The interpreter: an environment plus a buffer of the lines printed by the
/// current run.
pub struct Interpreter {
    env: Environment,
    output: Vec<String>,
}

impl View for Interpreter {
    type V = Map<Seq<char>, SpecValue>;

    closed spec fn view(&self) -> Map<Seq<char>, SpecValue> {
        self.env@
    }
}

impl Interpreter {
    /// A fresh interpreter with an empty environment.
    pub fn new() -> (r: Interpreter)
        ensures
            r@ == Map::<Seq<char>, SpecValue>::empty(),
    {
        Interpreter { env: Environment::new(), output: Vec::new() }
    }

    /// Evaluate an expression to a value against the current environment.
    pub fn evaluate_expression(&self, expr: &Expression) -> (r: Result<Value, NumerusError>)
        ensures
            r matches Ok(v) ==> spec_eval(expr@, self@) == Ok::<SpecValue, SpecNumerusError>(v@),
            r matches Err(e) ==> spec_eval(expr@, self@) == Err::<SpecValue, SpecNumerusError>(e@),
        decreases *expr,
    {
        match expr {
            Expression::NumberLiteral { value, .. } => Ok(Value::Number(*value)),
            Expression::StringLiteral { value, .. } => Ok(Value::String(value.clone())),
            Expression::Variable { name, .. } => self.env.get(name.as_str()),
            Expression::BinaryOp { left, operator, right, span } => {
                let l = self.evaluate_expression(left)?;
                let r = self.evaluate_expression(right)?;
                match operator {
                    BinaryOperator::Add => {
                        match (&l, &r) {
                            (Value::Number(a), Value::Number(b)) => {
                                let sum = *a as i64 + *b as i64;
                                if sum < i32::MIN as i64 || sum > i32::MAX as i64 {
                                    Err(NumerusError::IntegerOverflow { value: sum })
                                } else {
                                    Ok(Value::Number(sum as i32))
                                }
                            },
                            (Value::String(a), Value::String(b)) => {
                                let mut s = a.clone();
                                s.append(b.as_str());
                                Ok(Value::String(s))
                            },
                            (Value::String(a), Value::Number(b)) => {
                                let mut s = a.clone();
                                let num_str = match to_roman(*b) {
                                    Ok(t) => t,
                                    Err(_) => decimal_string_i32(*b),
                                };
                                s.append(num_str.as_str());
                                Ok(Value::String(s))
                            },
                            (Value::Number(a), Value::String(b)) => {
                                let mut s = match to_roman(*a) {
                                    Ok(t) => t,
                                    Err(_) => decimal_string_i32(*a),
                                };
                                s.append(b.as_str());
                                Ok(Value::String(s))
                            },
                        }
                    },
                    BinaryOperator::Subtract => {
                        match (&l, &r) {
                            (Value::Number(a), Value::Number(b)) => {
                                let diff = *a as i64 - *b as i64;
                                if diff < i32::MIN as i64 || diff > i32::MAX as i64 {
                                    Err(NumerusError::IntegerOverflow { value: diff })
                                } else {
                                    Ok(Value::Number(diff as i32))
                                }
                            },
                            _ => Err(
                                NumerusError::TypeMismatch {
                                    operation: String::from_str("SUBTRAHE"),
                                    expected: String::from_str("numbers"),
                                    span: *span,
                                },
                            ),
                        }
                    },
                    BinaryOperator::Multiply => {
                        match (&l, &r) {
                            (Value::Number(a), Value::Number(b)) => {
                                let a64 = *a as i64;
                                let b64 = *b as i64;
                                proof {
                                    assert(-0x4000000000000000 <= a64 as int * b64 as int
                                        <= 0x4000000000000000) by (nonlinear_arith)
                                        requires
                                            -0x80000000 <= a64 as int <= 0x7fffffff,
                                            -0x80000000 <= b64 as int <= 0x7fffffff,
                                    ;
                                }
                                let prod = a64 * b64;
                                if prod < i32::MIN as i64 || prod > i32::MAX as i64 {
                                    Err(NumerusError::IntegerOverflow { value: prod })
                                } else {
                                    Ok(Value::Number(prod as i32))
                                }
                            },
                            _ => Err(
                                NumerusError::TypeMismatch {
                                    operation: String::from_str("MULTIPLICA"),
                                    expected: String::from_str("numbers"),
                                    span: *span,
                                },
                            ),
                        }
                    },
                    BinaryOperator::Divide => {
                        match (&l, &r) {
                            (Value::Number(a), Value::Number(b)) => {
                                if *b == 0 {
                                    Err(NumerusError::DivisionByZero { span: *span })
                                } else if *a == i32::MIN && *b == -1 {
                                    Err(
                                        NumerusError::IntegerOverflow {
                                            value: -(i32::MIN as i64),
                                        },
                                    )
                                } else {
                                    Ok(Value::Number(div_trunc(*a, *b)))
                                }
                            },
                            _ => Err(
                                NumerusError::TypeMismatch {
                                    operation: String::from_str("DIVIDE"),
                                    expected: String::from_str("numbers"),
                                    span: *span,
                                },
                            ),
                        }
                    },
                }
            },
            Expression::Grouped { inner, .. } => self.evaluate_expression(inner),
            Expression::FunctionCall { function, argument, span } => {
                let arg_value = self.evaluate_expression(argument)?;
                match function {
                    BuiltinFunction::Romaniza => {
                        match arg_value {
                            Value::Number(n) => {
                                match to_roman(n) {
                                    Ok(s) => Ok(Value::String(s)),
                                    Err(_) => Err(NumerusError::RomanOverflow { value: n }),
                                }
                            },
                            Value::String(_) => Err(
                                NumerusError::TypeMismatch {
                                    operation: String::from_str("ROMANIZA"),
                                    expected: String::from_str("number"),
                                    span: *span,
                                },
                            ),
                        }
                    },
                    BuiltinFunction::Arabiza => {
                        match arg_value {
                            Value::Number(n) => Ok(Value::String(decimal_string_i32(n))),
                            Value::String(_) => Err(
                                NumerusError::TypeMismatch {
                                    operation: String::from_str("ARABIZA"),
                                    expected: String::from_str("number"),
                                    span: *span,
                                },
                            ),
                        }
                    },
                    BuiltinFunction::Exprime => Ok(arg_value),
                }
            },
        }
    }

    /// Execute one statement: evaluate, then apply its effect to the
    /// environment, appending any printed line to the output buffer.
    fn execute_statement(&mut self, stmt: &Statement) -> (r: Result<(), NumerusError>)
        ensures
            r is Ok ==> (spec_exec_statement(stmt@, old(self)@) matches Ok(eff)
                && final(self)@ == eff.0
                && lines_view(final(self).output@) == (match eff.1 {
                None => lines_view(old(self).output@),
                Some(line) => lines_view(old(self).output@).push(line),
            })),
            r matches Err(e) ==> (spec_exec_statement(stmt@, old(self)@) matches Err(se)
                && se == e@
                && final(self)@ == old(self)@
                && final(self).output@ == old(self).output@),
    {
        match stmt {
            Statement::Declaration { name, value, .. } => {
                let val = match self.evaluate_expression(value) {
                    Ok(v) => v,
                    Err(e) => return Err(e),
                };
                match self.env.declare(name.clone(), val) {
                    Ok(()) => Ok(()),
                    Err(e) => Err(e),
                }
            },
            Statement::Assignment { name, value, .. } => {
                let val = match self.evaluate_expression(value) {
                    Ok(v) => v,
                    Err(e) => return Err(e),
                };
                match self.env.assign(name.as_str(), val) {
                    Ok(()) => Ok(()),
                    Err(e) => Err(e),
                }
            },
            Statement::Print { value, .. } => {
                let val = match self.evaluate_expression(value) {
                    Ok(v) => v,
                    Err(e) => return Err(e),
                };
                let line = match val.to_output_string() {
                    Ok(s) => s,
                    Err(e) => return Err(e),
                };
                let ghost oldlines = self.output@;
                self.output.push(line);
                proof {
                    assert(lines_view(self.output@) =~= lines_view(oldlines).push(
                        self.output@.last()@,
                    ));
                }
                Ok(())
            },
            Statement::Avtem { .. } => Ok(()),
            Statement::Comment { .. } => Ok(()),
        }
    }

    /// Run a program's statements in order, collecting the printed output of
    /// the run; stops at the first failing statement, keeping the effects of
    /// the statements before it.
    pub fn run(&mut self, program: &Program) -> (r: Result<Vec<String>, NumerusError>)
        ensures
            final(self)@ == spec_run(program@, old(self)@).0,
            spec_run(program@, old(self)@).2 is None ==> (r matches Ok(out) && lines_view(out@)
                == spec_run(program@, old(self)@).1),
            spec_run(program@, old(self)@).2 matches Some(e) ==> (r matches Err(re) && re@ == e),
    {
        self.output.clear();
        proof {
            assert(program@.skip(0) =~= program@);
            assert(lines_view(self.output@) =~= Seq::<Seq<char>>::empty());
            assert(Seq::<Seq<char>>::empty() + spec_run(program@, self@).1 =~= spec_run(
                program@,
                self@,
            ).1);
        }
        let n = program.statements.len();
        let mut i: usize = 0;
        while i < n
            invariant
                n == program.statements@.len(),
                i <= n,
                spec_run(program@, old(self)@).0 == spec_run(program@.skip(i as int), self@).0,
                spec_run(program@, old(self)@).1 == lines_view(self.output@) + spec_run(
                    program@.skip(i as int),
                    self@,
                ).1,
                spec_run(program@, old(self)@).2 == spec_run(program@.skip(i as int), self@).2,
            decreases n - i,
        {
            let ghost env0 = self@;
            let ghost out0 = lines_view(self.output@);
            let ghost rest = program@.skip(i as int);
            proof {
                assert(rest[0] == program@[i as int]);
                assert(rest.drop_first() =~= program@.skip(i as int + 1));
            }
            let stmt = &program.statements[i];
            proof {
                assert(stmt@ == program@[i as int]);
            }
            match self.execute_statement(stmt) {
                Ok(()) => {
                    proof {
                        let eff = spec_exec_statement(rest[0], env0)->Ok_0;
                        let r2 = spec_run(program@.skip(i as int + 1), self@);
                        match eff.1 {
                            Some(line) => {
                                assert(lines_view(self.output@) =~= out0 + seq![line]);
                                assert(out0 + (seq![line] + r2.1) =~= (out0 + seq![line]) + r2.1);
                            },
                            None => {
                                assert(Seq::<Seq<char>>::empty() + r2.1 =~= r2.1);
                            },
                        }
                    }
                    i = i + 1;
                },
                Err(e) => {
                    return Err(e);
                },
            }
        }
        proof {
            assert(program@.skip(n as int) =~= Seq::<SpecStatement>::empty());
            assert(lines_view(self.output@) + Seq::<Seq<char>>::empty() =~= lines_view(
                self.output@,
            ));
        }
        Ok(clone_lines(&self.output))
    }

    /// Execute a single statement, returning its printed line, if any; used
    /// by line-oriented drivers.
    pub fn execute(&mut self, statement: &Statement) -> (r: Result<Option<String>, NumerusError>)
        ensures
            spec_exec_statement(statement@, old(self)@) matches Ok(eff) ==> (r matches Ok(o)
                && final(self)@ == eff.0 && (match eff.1 {
                None => o is None,
                Some(line) => o matches Some(s) && s@ == line,
            })),
            spec_exec_statement(statement@, old(self)@) matches Err(e) ==> (r matches Err(re)
                && re@ == e && final(self)@ == old(self)@),
    {
        self.output.clear();
        match self.execute_statement(statement) {
            Err(e) => Err(e),
            Ok(()) => {
                proof {
                    let eff = spec_exec_statement(statement@, old(self)@)->Ok_0;
                    assert(lines_view(Seq::<String>::empty()) =~= Seq::<Seq<char>>::empty());
                    assert(self.output@.len() == lines_view(self.output@).len());
                    match eff.1 {
                        None => {
                            assert(self.output@.len() == 0);
                        },
                        Some(line) => {
                            assert(lines_view(self.output@) =~= Seq::<Seq<char>>::empty().push(
                                line,
                            ));
                            assert(self.output@.len() == 1);
                            assert(lines_view(self.output@)[0] == self.output@[0]@);
                            assert(self.output@[0]@ == line);
                        },
                    }
                }
                Ok(self.output.pop())
            },
        }
    }

    /// The interpreter's environment.
    pub fn environment(&self) -> (r: &Environment)
        ensures
            r@ == self@,
    {
        &self.env
    }
}

/// An element-by-element copy of a line buffer.
fn clone_lines(v: &Vec<String>) -> (r: Vec<String>)
    ensures
        r@ == v@,
{
    let mut r: Vec<String> = Vec::new();
    let mut i: usize = 0;
    while i < v.len()
        invariant
            i <= v.len(),
            r@ == v@.take(i as int),
        decreases v.len() - i,
    {
        r.push(v[i].clone());
        i = i + 1;
        proof {
            assert(r@ =~= v@.take(i as int));
        }
    }
    proof {
        assert(v@.take(v@.len() as int) =~= v@);
    }
    r
}

} // verus!

