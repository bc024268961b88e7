//! The calculator engine: an arithmetic state machine over a display text,
//! an accumulator, a pending operator and a fresh-input flag.
//!
//! Evaluation is eager and left to right, with no precedence. A division by
//! zero, or a result that cannot be represented, shows as `Error` and
//! clears the pending operator; the next digit then starts a fresh number.

use vstd::prelude::*;
use crate::number::{
    Rat, RatModel, rm, spec_add, spec_sub, spec_mul, spec_div, spec_reduce, add_fits, sub_fits,
    mul_fits, div_fits, rat_add, rat_sub, rat_mul, rat_div,
};
use crate::decimal::{
    parse_display, parse_display_bytes, spec_format, format_fits, format_rat, printable,
    valid_numeral, lemma_format_printable, lemma_format_valid_numeral, lemma_single_digit_numeral,
    lemma_zero_dot_numeral, lemma_push_digit_keeps_numeral, lemma_push_dot_keeps_numeral,
};

verus! {

/// A binary operator of the calculator.
#[derive(Clone, Copy, PartialEq, Eq, Structural, Debug)]
pub enum CalcOp {
    /// Addition.
    Add,
    /// Subtraction.
    Sub,
    /// Multiplication.
    Mul,
    /// Division.
    Div,
}

/// The display text shown on a division by zero or an unrepresentable
/// result.
pub open spec fn error_bytes() -> Seq<u8> {
    seq![69u8, 114u8, 114u8, 111u8, 114u8]
}

/// The display text of a cleared calculator.
pub open spec fn zero_bytes() -> Seq<u8> {
    seq![48u8]
}

/// Ghost state of the engine.
pub ghost struct CalcModel {
    /// Display text, as bytes.
    pub display: Seq<u8>,
    /// The accumulated exact value.
    pub acc: RatModel,
    /// The operator awaiting its right operand.
    pub pending: Option<CalcOp>,
    /// Whether the next digit starts a new number.
    pub fresh: bool,
}

/// The state of a freshly opened or cleared calculator.
pub open spec fn calc_init() -> CalcModel {
    CalcModel { display: zero_bytes(), acc: rm(0, 1), pending: None, fresh: true }
}

/// Pressing a digit: a fresh display is replaced; otherwise the digit is
/// appended while fewer than nine characters stand, a lone `0` being
/// replaced rather than extended.
pub open spec fn step_digit(m: CalcModel, d: u8) -> CalcModel
    recommends
        d <= 9,
{
    if m.fresh {
        CalcModel { display: seq![(48 + d) as u8], acc: m.acc, pending: m.pending, fresh: false }
    } else if m.display.len() < 9 {
        if m.display == zero_bytes() {
            CalcModel { display: seq![(48 + d) as u8], acc: m.acc, pending: m.pending, fresh: false }
        } else {
            CalcModel {
                display: m.display.push((48 + d) as u8),
                acc: m.acc,
                pending: m.pending,
                fresh: false,
            }
        }
    } else {
        m
    }
}

/// Pressing the decimal point: a fresh display becomes `0.`; otherwise a
/// point is appended only when none is there yet.
pub open spec fn step_dot(m: CalcModel) -> CalcModel {
    if m.fresh {
        CalcModel { display: seq![48u8, 46u8], acc: m.acc, pending: m.pending, fresh: false }
    } else if !m.display.contains(46u8) {
        CalcModel { display: m.display.push(46u8), acc: m.acc, pending: m.pending, fresh: false }
    } else {
        m
    }
}

/// The exact result of one operator application.
pub open spec fn eval_raw(a: RatModel, op: CalcOp, b: RatModel) -> RatModel
    recommends
        op is Div ==> b.num != 0,
{
    match op {
        CalcOp::Add => spec_add(a, b),
        CalcOp::Sub => spec_sub(a, b),
        CalcOp::Mul => spec_mul(a, b),
        CalcOp::Div => spec_div(a, b),
    }
}

/// The evaluation and the formatting of its result stay representable.
pub open spec fn eval_fits(a: RatModel, op: CalcOp, b: RatModel) -> bool
    recommends
        op is Div ==> b.num != 0,
{
    &&& match op {
        CalcOp::Add => add_fits(a, b),
        CalcOp::Sub => sub_fits(a, b),
        CalcOp::Mul => mul_fits(a, b),
        CalcOp::Div => div_fits(a, b),
    }
    &&& format_fits(spec_reduce(eval_raw(a, op, b)))
}

/// Evaluating the pending operator against the displayed value, then
/// setting `next` as the new pending operator. A division by zero or an
/// unrepresentable result shows `Error`, clears the pending operator and
/// leaves the accumulator as it was.
pub open spec fn step_apply(m: CalcModel, p: CalcOp, next: Option<CalcOp>) -> CalcModel {
    let cur = parse_display(m.display);
    if p is Div && cur.num == 0 {
        CalcModel { display: error_bytes(), acc: m.acc, pending: None, fresh: true }
    } else if !eval_fits(m.acc, p, cur) {
        CalcModel { display: error_bytes(), acc: m.acc, pending: None, fresh: true }
    } else {
        let r = spec_reduce(eval_raw(m.acc, p, cur));
        CalcModel { display: spec_format(r), acc: r, pending: next, fresh: true }
    }
}

/// Pressing an operator: with a pending operator the engine evaluates
/// first; otherwise the displayed value is stored. The new operator becomes
/// pending and the next digit starts a fresh number.
pub open spec fn step_operator(m: CalcModel, op: CalcOp) -> CalcModel {
    match m.pending {
        None => CalcModel {
            display: m.display,
            acc: parse_display(m.display),
            pending: Some(op),
            fresh: true,
        },
        Some(p) => step_apply(m, p, Some(op)),
    }
}

/// Pressing equals: evaluates the pending operator, if any, and clears it.
pub open spec fn step_equals(m: CalcModel) -> CalcModel {
    match m.pending {
        None => m,
        Some(p) => step_apply(m, p, None),
    }
}

/// The calculator engine.
pub struct Calculator {
    /// Display text, as ASCII bytes.
    pub display: Vec<u8>,
    /// The accumulated exact value.
    pub acc: Rat,
    /// The operator awaiting its right operand.
    pub pending: Option<CalcOp>,
    /// Whether the next digit starts a new number.
    pub fresh: bool,
}

impl View for Calculator {
    type V = CalcModel;

    open spec fn view(&self) -> CalcModel {
        CalcModel {
            display: self.display@,
            acc: self.acc@,
            pending: self.pending,
            fresh: self.fresh,
        }
    }
}

impl Calculator {
    /// The accumulator is well formed, the display is plain ASCII, and the
    /// display always shows either a well-formed numeral or the error text
    /// (the latter only while input is fresh, so it is always replaced, and
    /// never extended, by the next digit or point).
    pub open spec fn wf(&self) -> bool {
        &&& self.acc.wf()
        &&& printable(self.display@)
        &&& (valid_numeral(self.display@) || (self.display@ == error_bytes() && self.fresh))
    }

    /// A fresh calculator: display `0`, accumulator zero, no pending
    /// operator, fresh input.
    pub fn new() -> (c: Calculator)
        ensures
            c.wf(),
            c@ == calc_init(),
    {
        let mut d: Vec<u8> = Vec::new();
        d.push(48);
        proof {
            assert(d@ =~= zero_bytes());
            lemma_single_digit_numeral(48);
        }
        Calculator { display: d, acc: Rat::zero(), pending: None, fresh: true }
    }

    /// Resets the engine to its initial state.
    pub fn clear(&mut self)
        ensures
            final(self).wf(),
            final(self)@ == calc_init(),
    {
        let mut d: Vec<u8> = Vec::new();
        d.push(48);
        proof {
            assert(d@ =~= zero_bytes());
            lemma_single_digit_numeral(48);
        }
        self.display = d;
        self.acc = Rat::zero();
        self.pending = None;
        self.fresh = true;
    }

    /// Presses a digit key.
    pub fn input_digit(&mut self, d: u8)
        requires
            old(self).wf(),
            d <= 9,
        ensures
            final(self).wf(),
            final(self)@ == step_digit(old(self)@, d),
    {
        if self.fresh {
            let mut v: Vec<u8> = Vec::new();
            v.push(48 + d);
            proof {
                assert(v@ =~= seq![(48 + d) as u8]);
                lemma_single_digit_numeral((48 + d) as u8);
            }
            self.display = v;
            self.fresh = false;
        } else if self.display.len() < 9 {
            let is_lone_zero = self.display.len() == 1 && self.display[0] == 48;
            proof {
                if is_lone_zero {
                    assert(self.display@ =~= zero_bytes());
                } else {
                    assert(self.display@ != zero_bytes()) by {
                        if self.display@ == zero_bytes() {
                            assert(self.display@.len() == 1);
                            assert(self.display@[0] == 48);
                        }
                    }
                }
            }
            if is_lone_zero {
                let mut v: Vec<u8> = Vec::new();
                v.push(48 + d);
                proof {
                    assert(v@ =~= seq![(48 + d) as u8]);
                    lemma_single_digit_numeral((48 + d) as u8);
                }
                self.display = v;
            } else {
                proof {
                    lemma_push_digit_keeps_numeral(self.display@, (48 + d) as u8);
                }
                self.display.push(48 + d);
            }
        }
    }

    /// Whether the display already holds a decimal point.
    fn display_has_dot(&self) -> (r: bool)
        ensures
            r == self.display@.contains(46u8),
    {
        let n = self.display.len();
        let mut i: usize = 0;
        while i < n
            invariant
                i <= n,
                n == self.display@.len(),
                forall|k: int| 0 <= k < i ==> self.display@[k] != 46,
            decreases n - i,
        {
            if self.display[i] == 46 {
                return true;
            }
            i = i + 1;
        }
        proof {
            assert(!self.display@.contains(46u8)) by {
                if self.display@.contains(46u8) {
                    let k = choose|k: int|
                        0 <= k < self.display@.len() && self.display@[k] == 46u8;
                }
            }
        }
        false
    }

    /// Presses the decimal point key.
    pub fn input_dot(&mut self)
        requires
            old(self).wf(),
        ensures
            final(self).wf(),
            final(self)@ == step_dot(old(self)@),
    {
        if self.fresh {
            let mut v: Vec<u8> = Vec::new();
            v.push(48);
            v.push(46);
            proof {
                assert(v@ =~= seq![48u8, 46u8]);
                lemma_zero_dot_numeral();
            }
            self.display = v;
            self.fresh = false;
        } else if !self.display_has_dot() {
            proof {
                lemma_push_dot_keeps_numeral(self.display@);
            }
            self.display.push(46);
        }
    }

    /// Shows `Error`, clears the pending operator and starts fresh input.
    fn set_error(&mut self)
        requires
            old(self).acc.wf(),
        ensures
            final(self).wf(),
            final(self)@ == (CalcModel {
                display: error_bytes(),
                acc: old(self)@.acc,
                pending: None,
                fresh: true,
            }),
    {
        let mut v: Vec<u8> = Vec::new();
        v.push(69);
        v.push(114);
        v.push(114);
        v.push(111);
        v.push(114);
        proof {
            assert(v@ =~= error_bytes());
        }
        self.display = v;
        self.pending = None;
        self.fresh = true;
    }

    /// Evaluates the pending operator `p` against the displayed value and
    /// makes `next` pending.
    fn apply(&mut self, p: CalcOp, next: Option<CalcOp>)
        requires
            old(self).wf(),
        ensures
            final(self).wf(),
            final(self)@ == step_apply(old(self)@, p, next),
    {
        let cur = parse_display_bytes(&self.display);
        let is_div = match p {
            CalcOp::Div => true,
            _ => false,
        };
        if is_div && cur.is_zero() {
            self.set_error();
            return;
        }
        let evaluated = match p {
            CalcOp::Add => rat_add(&self.acc, &cur),
            CalcOp::Sub => rat_sub(&self.acc, &cur),
            CalcOp::Mul => rat_mul(&self.acc, &cur),
            CalcOp::Div => rat_div(&self.acc, &cur),
        };
        match evaluated {
            None => {
                self.set_error();
            },
            Some(r) => {
                match format_rat(&r) {
                    None => {
                        self.set_error();
                    },
                    Some(text) => {
                        proof {
                            lemma_format_printable(r@);
                            lemma_format_valid_numeral(r@);
                        }
                        self.display = text;
                        self.acc = r;
                        self.pending = next;
                        self.fresh = true;
                    },
                }
            },
        }
    }

    /// Presses an operator key.
    pub fn operator(&mut self, op: CalcOp)
        requires
            old(self).wf(),
        ensures
            final(self).wf(),
            final(self)@ == step_operator(old(self)@, op),
    {
        let pending = self.pending;
        match pending {
            None => {
                let cur = parse_display_bytes(&self.display);
                self.acc = cur;
                self.pending = Some(op);
                self.fresh = true;
            },
            Some(p) => {
                self.apply(p, Some(op));
            },
        }
    }

    /// The display as text, for the renderer.
    pub fn display_text(&self) -> (r: String)
        requires
            self.wf(),
        ensures
            r@ == self@.display.map_values(|b: u8| b as char),
    {
        crate::strings::ascii_to_string(&self.display)
    }

    /// Presses the equals key.
    pub fn equals(&mut self)
        requires
            old(self).wf(),
        ensures
            final(self).wf(),
            final(self)@ == step_equals(old(self)@),
    {
        let pending = self.pending;
        match pending {
            None => {},
            Some(p) => {
                self.apply(p, None);
            },
        }
    }
}

} // verus!
