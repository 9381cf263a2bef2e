use vstd::prelude::*;
use vstd::string::{StrSliceExecFns, StringExecFns};

verus! {

/// A single numbered accumulator register.
#[derive(Debug, Clone, Copy, PartialEq, Eq, Structural)]
pub struct Accumulator {
    /// Identifies the accumulator.
    pub id: usize,
    /// The value held, `None` while unset.
    pub data: Option<i32>,
}

impl Accumulator {
    /// Creates an accumulator that holds no value yet.
    pub fn new(id: usize) -> (r: Self)
        ensures
            r.id == id,
            r.data is None,
    {
        Self { id, data: None }
    }

    /// The line shown for this accumulator: the id right-aligned to two
    /// columns, then the value or `None`, as in ` 0: 5`.
    pub fn display(&self) -> (r: String)
        ensures
            r@ == pad_left(decimal(self.id as nat), 2) + seq![':', ' '] + value_text(self.data),
    {
        let id = usize_text(self.id);
        let mut r = String::new();
        pad_to_two(&mut r, id.as_str().unicode_len());
        let ghost pad = r@;
        r.append(id.as_str());
        r.append(": ");
        append_value(&mut r, self.data);
        proof {
            reveal_strlit(": ");
            assert(": "@ =~= seq![':', ' ']);
            assert(pad + id@ == pad_left(decimal(self.id as nat), 2));
            assert(r@ =~= pad_left(decimal(self.id as nat), 2) + seq![':', ' '] + value_text(self.data));
        }
        r
    }
}

/// The decimal digit `d`, for `d < 10`.
pub open spec fn digit_char(d: nat) -> char {
    if d == 0 {
        '0'
    } else if d == 1 {
        '1'
    } else if d == 2 {
        '2'
    } else if d == 3 {
        '3'
    } else if d == 4 {
        '4'
    } else if d == 5 {
        '5'
    } else if d == 6 {
        '6'
    } else if d == 7 {
        '7'
    } else if d == 8 {
        '8'
    } else {
        '9'
    }
}

/// The decimal digits of `n`, without leading zeros.
pub open spec fn decimal(n: nat) -> Seq<char>
    decreases n,
{
    if n < 10 {
        seq![digit_char(n)]
    } else {
        decimal(n / 10).push(digit_char(n % 10))
    }
}

/// The decimal text of `v`: a minus sign where negative, then the digits.
pub open spec fn signed_decimal(v: int) -> Seq<char> {
    if v < 0 {
        seq!['-'] + decimal((-v) as nat)
    } else {
        decimal(v as nat)
    }
}

/// `s` with spaces before it up to `w` characters.
pub open spec fn pad_left(s: Seq<char>, w: nat) -> Seq<char> {
    if s.len() >= w {
        s
    } else {
        Seq::new((w - s.len()) as nat, |i: int| ' ') + s
    }
}

/// `s` with spaces after it up to `w` characters.
pub open spec fn pad_right(s: Seq<char>, w: nat) -> Seq<char> {
    if s.len() >= w {
        s
    } else {
        s + Seq::new((w - s.len()) as nat, |i: int| ' ')
    }
}

/// How a register's value is shown.
pub open spec fn value_text(data: Option<i32>) -> Seq<char> {
    match data {
        Some(d) => signed_decimal(d as int),
        None => seq!['N', 'o', 'n', 'e'],
    }
}

/// The one-character text of the decimal digit `d`.
fn digit_text(d: usize) -> (r: &'static str)
    requires
        d < 10,
    ensures
        r@ == seq![digit_char(d as nat)],
{
    let r = if d == 0 {
        proof {
            reveal_strlit("0");
        }
        "0"
    } else if d == 1 {
        proof {
            reveal_strlit("1");
        }
        "1"
    } else if d == 2 {
        proof {
            reveal_strlit("2");
        }
        "2"
    } else if d == 3 {
        proof {
            reveal_strlit("3");
        }
        "3"
    } else if d == 4 {
        proof {
            reveal_strlit("4");
        }
        "4"
    } else if d == 5 {
        proof {
            reveal_strlit("5");
        }
        "5"
    } else if d == 6 {
        proof {
            reveal_strlit("6");
        }
        "6"
    } else if d == 7 {
        proof {
            reveal_strlit("7");
        }
        "7"
    } else if d == 8 {
        proof {
            reveal_strlit("8");
        }
        "8"
    } else {
        proof {
            reveal_strlit("9");
        }
        "9"
    };
    assert(r@ =~= seq![digit_char(d as nat)]);
    r
}

/// The decimal digits of `v`.
fn usize_text(v: usize) -> (r: String)
    ensures
        r@ == decimal(v as nat),
    decreases v,
{
    if v < 10 {
        let mut r = String::new();
        r.append(digit_text(v));
        assert(r@ =~= decimal(v as nat));
        r
    } else {
        let mut r = usize_text(v / 10);
        r.append(digit_text(v % 10));
        assert(r@ =~= decimal(v as nat));
        r
    }
}

/// The decimal text of `v`.
fn i32_text(v: i32) -> (r: String)
    ensures
        r@ == signed_decimal(v as int),
{
    if v < 0 {
        let mut r = String::new();
        proof {
            reveal_strlit("-");
        }
        r.append("-");
        let digits = usize_text((0 - v as i64) as usize);
        r.append(digits.as_str());
        assert(r@ =~= signed_decimal(v as int));
        r
    } else {
        usize_text(v as usize)
    }
}

/// Appends the spaces that bring a text of `n` characters to two.
fn pad_to_two(r: &mut String, n: usize)
    requires
        old(r)@.len() == 0,
    ensures
        final(r)@ == Seq::new((if n >= 2 { 0 } else { 2 - n }) as nat, |i: int| ' '),
{
    proof {
        reveal_strlit(" ");
        reveal_strlit("  ");
    }
    if n == 0 {
        r.append("  ");
    } else if n == 1 {
        r.append(" ");
    }
    assert(r@ =~= Seq::new((if n >= 2 { 0 } else { 2 - n }) as nat, |i: int| ' '));
}

/// Appends how a register's value is shown.
fn append_value(r: &mut String, data: Option<i32>)
    ensures
        final(r)@ == old(r)@ + value_text(data),
{
    match data {
        Some(d) => {
            let t = i32_text(d);
            r.append(t.as_str());
        },
        None => {
            proof {
                reveal_strlit("None");
                assert("None"@ =~= seq!['N', 'o', 'n', 'e']);
            }
            r.append("None");
        },
    }
}

/// A single named memory cell.
#[derive(Debug, Clone, PartialEq, Eq)]
pub struct MemoryCell {
    pub label: String,
    pub data: Option<i32>,
}

impl MemoryCell {
    /// Creates a memory cell with the given label that holds no value yet.
    pub fn new(label: &str) -> (r: Self)
        ensures
            r.label@ == label@,
            r.data is None,
    {
        Self { label: label.to_owned(), data: None }
    }

    /// The line shown for this memory cell: the label left-aligned to two
    /// columns, then the value or `None`, as in `a : 5`.
    pub fn display(&self) -> (r: String)
        ensures
            r@ == pad_right(self.label@, 2) + seq![':', ' '] + value_text(self.data),
    {
        let mut r = String::new();
        r.append(self.label.as_str());
        let mut pad = String::new();
        pad_to_two(&mut pad, self.label.as_str().unicode_len());
        r.append(pad.as_str());
        r.append(": ");
        append_value(&mut r, self.data);
        proof {
            reveal_strlit(": ");
            assert(": "@ =~= seq![':', ' ']);
            assert(self.label@ + pad@ =~= pad_right(self.label@, 2));
            assert(r@ =~= pad_right(self.label@, 2) + seq![':', ' '] + value_text(self.data));
        }
        r
    }
}

/// The ways of comparing two values.
#[derive(Debug, Clone, Copy, PartialEq, Eq, Hash, Structural)]
pub enum Comparison {
    Less,
    LessOrEqual,
    Equal,
    NotEqual,
    MoreOrEqual,
    More,
}

/// What comparing `x` with `y` by `c` yields.
pub open spec fn compare_spec(c: Comparison, x: int, y: int) -> bool {
    match c {
        Comparison::Less => x < y,
        Comparison::LessOrEqual => x <= y,
        Comparison::Equal => x == y,
        Comparison::NotEqual => x != y,
        Comparison::MoreOrEqual => x >= y,
        Comparison::More => x > y,
    }
}

/// The comparison that a symbol denotes, if any.
pub open spec fn comparison_of(s: Seq<char>) -> Option<Comparison> {
    if s == seq!['<'] {
        Some(Comparison::Less)
    } else if s == seq!['<', '='] || s == seq!['=', '<'] {
        Some(Comparison::LessOrEqual)
    } else if s == seq!['='] || s == seq!['=', '='] {
        Some(Comparison::Equal)
    } else if s == seq!['!', '='] {
        Some(Comparison::NotEqual)
    } else if s == seq!['>', '='] || s == seq!['=', '>'] {
        Some(Comparison::MoreOrEqual)
    } else if s == seq!['>'] {
        Some(Comparison::More)
    } else {
        None
    }
}

/// Reading a comparison symbol: the comparison it denotes, or a refusal.
pub open spec fn comparison_result(s: Seq<char>) -> Result<Comparison, ()> {
    match comparison_of(s) {
        Some(c) => Ok(c),
        None => Err(()),
    }
}

/// Whether `s` is the one-character string `a`.
pub(crate) fn is_chars1(s: &str, a: char) -> (r: bool)
    ensures
        r == (s@ == seq![a]),
{
    if s.unicode_len() != 1 {
        return false;
    }
    let r = s.get_char(0) == a;
    proof {
        if r {
            assert(s@ =~= seq![a]);
        }
    }
    r
}

/// Whether `s` is the two-character string `a b`.
pub(crate) fn is_chars2(s: &str, a: char, b: char) -> (r: bool)
    ensures
        r == (s@ == seq![a, b]),
{
    if s.unicode_len() != 2 {
        return false;
    }
    let r = s.get_char(0) == a && s.get_char(1) == b;
    proof {
        if r {
            assert(s@ =~= seq![a, b]);
        }
    }
    r
}

impl Comparison {
    /// Compares `x` with `y` by this comparison.
    pub fn cmp(&self, x: i32, y: i32) -> (r: bool)
        ensures
            r == compare_spec(*self, x as int, y as int),
    {
        match self {
            Self::Less => x < y,
            Self::LessOrEqual => x <= y,
            Self::Equal => x == y,
            Self::NotEqual => x != y,
            Self::MoreOrEqual => x >= y,
            Self::More => x > y,
        }
    }

    /// Reads a comparison symbol: `<`, `<=`, `=<`, `=`, `==`, `!=`, `>=`,
    /// `=>` or `>`. Any other text is refused.
    pub fn from_symbol(s: &str) -> (r: Result<Self, ()>)
        ensures
            r == comparison_result(s@),
    {
        if is_chars1(s, '<') {
            Ok(Self::Less)
        } else if is_chars2(s, '<', '=') || is_chars2(s, '=', '<') {
            Ok(Self::LessOrEqual)
        } else if is_chars1(s, '=') || is_chars2(s, '=', '=') {
            Ok(Self::Equal)
        } else if is_chars2(s, '!', '=') {
            Ok(Self::NotEqual)
        } else if is_chars2(s, '>', '=') || is_chars2(s, '=', '>') {
            Ok(Self::MoreOrEqual)
        } else if is_chars1(s, '>') {
            Ok(Self::More)
        } else {
            Err(())
        }
    }
}

impl<'a> TryFrom<&'a str> for Comparison {
    type Error = ();

    fn try_from(value: &'a str) -> (r: Result<Self, Self::Error>) {
        Self::from_symbol(value)
    }
}

impl<'a> vstd::std_specs::convert::TryFromSpecImpl<&'a str> for Comparison {
    open spec fn obeys_try_from_spec() -> bool {
        true
    }

    open spec fn try_from_spec(v: &'a str) -> Result<Self, ()> {
        comparison_result(v@)
    }
}

/// The four arithmetic operations.
#[derive(Debug, Clone, Copy, PartialEq, Eq, Hash, Structural)]
pub enum Operation {
    Add,
    Sub,
    Mul,
    Div,
}

/// Why a calculation was refused.
#[derive(Debug, Clone, Copy, PartialEq, Eq, Structural)]
pub enum CalcError {
    /// The result of the tagged operation does not fit an `i32`.
    AttemptToOverflow(Operation),
    /// The divisor was zero.
    AttemptToDivideByZero,
}

/// The exact result of an operation on unbounded integers; for division,
/// the quotient truncated towards zero.
pub open spec fn exact_calc(op: Operation, x: int, y: int) -> int {
    match op {
        Operation::Add => x + y,
        Operation::Sub => x - y,
        Operation::Mul => x * y,
        Operation::Div => truncating_div(x, y),
    }
}

/// The absolute value of `v`.
pub open spec fn abs(v: int) -> int {
    if v < 0 {
        -v
    } else {
        v
    }
}

/// Integer division truncated towards zero, for `y != 0`: the quotient of
/// the absolute values, negated where the signs differ.
pub open spec fn truncating_div(x: int, y: int) -> int {
    if (x < 0) != (y < 0) {
        -(abs(x) / abs(y))
    } else {
        abs(x) / abs(y)
    }
}

/// Whether `v` fits an `i32`.
pub open spec fn fits_i32(v: int) -> bool {
    i32::MIN <= v <= i32::MAX
}

/// What `op.calc(x, y)` returns.
pub open spec fn calc_spec(op: Operation, x: int, y: int) -> Result<i32, CalcError> {
    if op == Operation::Div && y == 0 {
        Err(CalcError::AttemptToDivideByZero)
    } else if fits_i32(exact_calc(op, x, y)) {
        Ok(exact_calc(op, x, y) as i32)
    } else {
        Err(CalcError::AttemptToOverflow(op))
    }
}

/// The operation that a symbol denotes, if any.
pub open spec fn operation_of(s: Seq<char>) -> Option<Operation> {
    if s == seq!['+'] {
        Some(Operation::Add)
    } else if s == seq!['-'] {
        Some(Operation::Sub)
    } else if s == seq!['*'] {
        Some(Operation::Mul)
    } else if s == seq!['/'] {
        Some(Operation::Div)
    } else {
        None
    }
}

/// Reading an operation symbol: the operation it denotes, or a refusal.
pub open spec fn operation_result(s: Seq<char>) -> Result<Operation, ()> {
    match operation_of(s) {
        Some(o) => Ok(o),
        None => Err(()),
    }
}

/// The symbol an operation is written with.
pub open spec fn operation_char(op: Operation) -> char {
    match op {
        Operation::Add => '+',
        Operation::Sub => '-',
        Operation::Mul => '*',
        Operation::Div => '/',
    }
}

impl Operation {
    /// Applies the operation to `x` and `y` with checked arithmetic.
    pub fn calc(&self, x: i32, y: i32) -> (r: Result<i32, CalcError>)
        ensures
            r == calc_spec(*self, x as int, y as int),
    {
        match self {
            Self::Add => {
                let s = x as i64 + y as i64;
                if s < i32::MIN as i64 || s > i32::MAX as i64 {
                    Err(CalcError::AttemptToOverflow(Operation::Add))
                } else {
                    Ok(s as i32)
                }
            },
            Self::Sub => {
                let s = x as i64 - y as i64;
                if s < i32::MIN as i64 || s > i32::MAX as i64 {
                    Err(CalcError::AttemptToOverflow(Operation::Sub))
                } else {
                    Ok(s as i32)
                }
            },
            Self::Mul => {
                assert(-0x4000_0000_0000_0000 <= x * y <= 0x4000_0000_0000_0000) by (nonlinear_arith)
                    requires i32::MIN <= x <= i32::MAX, i32::MIN <= y <= i32::MAX;
                let s = x as i64 * y as i64;
                if s < i32::MIN as i64 || s > i32::MAX as i64 {
                    Err(CalcError::AttemptToOverflow(Operation::Mul))
                } else {
                    Ok(s as i32)
                }
            },
            Self::Div => {
                if y == 0 {
                    Err(CalcError::AttemptToDivideByZero)
                } else if x == i32::MIN && y == -1 {
                    assert(abs(x as int) / abs(y as int) == 2147483648) by (nonlinear_arith)
                        requires abs(x as int) == 2147483648, abs(y as int) == 1;
                    Err(CalcError::AttemptToOverflow(Operation::Div))
                } else {
                    let ax: i64 = if x < 0 { -(x as i64) } else { x as i64 };
                    let ay: i64 = if y < 0 { -(y as i64) } else { y as i64 };
                    let qa: i64 = ax / ay;
                    assert(0 <= qa <= ax) by (nonlinear_arith)
                        requires qa == ax / ay, ax >= 0, ay >= 1;
                    assert(ax == abs(x as int) && ay == abs(y as int));
                    assert(qa == abs(x as int) / abs(y as int));
                    if (x < 0) != (y < 0) {
                        assert(exact_calc(*self, x as int, y as int) == -qa);
                        Ok((-qa) as i32)
                    } else {
                        assert(qa != 2147483648) by (nonlinear_arith)
                            requires qa == ax / ay, ax <= 2147483648, ay >= 1,
                                ay == 1 ==> ax <= 2147483647;
                        assert(exact_calc(*self, x as int, y as int) == qa);
                        Ok(qa as i32)
                    }
                }
            },
        }
    }

    /// Reads an operation symbol: `+`, `-`, `*` or `/`. Any other text is
    /// refused.
    pub fn from_symbol(s: &str) -> (r: Result<Self, ()>)
        ensures
            r == operation_result(s@),
    {
        if is_chars1(s, '+') {
            Ok(Operation::Add)
        } else if is_chars1(s, '-') {
            Ok(Operation::Sub)
        } else if is_chars1(s, '*') {
            Ok(Operation::Mul)
        } else if is_chars1(s, '/') {
            Ok(Operation::Div)
        } else {
            Err(())
        }
    }
}

impl<'a> TryFrom<&'a str> for Operation {
    type Error = ();

    fn try_from(value: &'a str) -> (r: Result<Self, Self::Error>) {
        Self::from_symbol(value)
    }
}

impl<'a> vstd::std_specs::convert::TryFromSpecImpl<&'a str> for Operation {
    open spec fn obeys_try_from_spec() -> bool {
        true
    }

    open spec fn try_from_spec(v: &'a str) -> Result<Self, ()> {
        operation_result(v@)
    }
}

} // verus!

verus! {

/// Division truncates towards zero: the remainder is smaller than the
/// divisor in size and is zero or has the sign of the dividend.
pub proof fn law_division_truncates(x: int, y: int)
    requires
        y != 0,
    ensures
        abs(x - truncating_div(x, y) * y) < abs(y),
        x - truncating_div(x, y) * y == 0 || ((x - truncating_div(x, y) * y) < 0) == (x < 0),
{
    let ax = abs(x);
    let ay = abs(y);
    let qa = ax / ay;
    let ra = ax % ay;
    vstd::arithmetic::div_mod::lemma_fundamental_div_mod(ax, ay);
    vstd::arithmetic::div_mod::lemma_mod_pos_bound(ax, ay);
    assert(ax == ay * qa + ra && 0 <= ra < ay);
    if x >= 0 && y > 0 {
        assert(x - qa * y == ra) by (nonlinear_arith)
            requires ax == x, ay == y, ax == ay * qa + ra;
    } else if x < 0 && y < 0 {
        assert(x - qa * y == -ra) by (nonlinear_arith)
            requires ax == -x, ay == -y, ax == ay * qa + ra;
    } else if x < 0 {
        assert(x - (-qa) * y == -ra) by (nonlinear_arith)
            requires ax == -x, ay == y, ax == ay * qa + ra;
    } else {
        assert(x - (-qa) * y == ra) by (nonlinear_arith)
            requires ax == x, ay == -y, ax == ay * qa + ra;
    }
}

} // verus!
