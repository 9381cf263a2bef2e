use vstd::prelude::*;
use vstd::string::StrSliceExecFns;

use crate::base::{comparison_of, operation_of, Comparison, Operation};
use crate::instructions::{
    value_of_target, IndexMemoryCellIndexType, IndexModel, Instruction, InstructionModel,
    TargetModel, TargetType, Value, ValueModel,
};

verus! {

/// Why a line could not be read as an instruction. Each error carries the
/// span of the offending text as character positions `(start, end)` in the
/// line; an empty span marks where something is missing.
#[derive(Debug, Clone, Copy, PartialEq, Eq, Structural)]
pub enum InstructionParseError {
    /// The text is not a valid operand or does not belong here.
    InvalidExpression(usize, usize),
    /// The first word names no instruction.
    UnknownInstruction(usize, usize),
    /// A number is too large.
    NotANumber(usize, usize),
    /// The word is no comparison symbol.
    UnknownComparison(usize, usize),
    /// The word is no operation symbol.
    UnknownOperation(usize, usize),
    /// The line ends where more is needed.
    MissingExpression(usize, usize),
}

impl InstructionParseError {
    /// The span `(start, end)` of the offending text.
    pub fn range(&self) -> (r: (usize, usize))
        ensures
            r == error_span(*self),
    {
        match self {
            Self::InvalidExpression(a, b) => (*a, *b),
            Self::UnknownInstruction(a, b) => (*a, *b),
            Self::NotANumber(a, b) => (*a, *b),
            Self::UnknownComparison(a, b) => (*a, *b),
            Self::UnknownOperation(a, b) => (*a, *b),
            Self::MissingExpression(a, b) => (*a, *b),
        }
    }
}

/// The span that a parse error carries.
pub open spec fn error_span(e: InstructionParseError) -> (usize, usize) {
    match e {
        InstructionParseError::InvalidExpression(a, b) => (a, b),
        InstructionParseError::UnknownInstruction(a, b) => (a, b),
        InstructionParseError::NotANumber(a, b) => (a, b),
        InstructionParseError::UnknownComparison(a, b) => (a, b),
        InstructionParseError::UnknownOperation(a, b) => (a, b),
        InstructionParseError::MissingExpression(a, b) => (a, b),
    }
}

/// A result with its value replaced by the value's model.
pub open spec fn model_of<T: View>(r: Result<T, InstructionParseError>) -> Result<T::V, InstructionParseError> {
    match r {
        Ok(t) => Ok(t@),
        Err(e) => Err(e),
    }
}

// ---------------------------------------------------------------------
// Lines and words

/// Where the comment of `s` starts, searching from `i`: the first `#` or
/// `//`, or the end of `s`.
pub open spec fn comment_start(s: Seq<char>, i: int) -> int
    decreases s.len() - i,
{
    if i >= s.len() {
        s.len() as int
    } else if s[i] == '#' || (s[i] == '/' && i + 1 < s.len() && s[i + 1] == '/') {
        i
    } else {
        comment_start(s, i + 1)
    }
}

/// The part of a line before its comment.
pub open spec fn strip_comment(s: Seq<char>) -> Seq<char> {
    s.take(comment_start(s, 0))
}

/// Whether a character separates words.
pub open spec fn is_space(c: char) -> bool {
    c == ' ' || c == '\t' || c == '\n' || c == '\r' || c == '\x0B' || c == '\x0C'
}

/// The spans of the words of `s` from position `i` on, where `cur` is the
/// start of a word that began before `i`. A word is a maximal run of
/// characters that are not spaces.
pub open spec fn words_from(s: Seq<char>, i: int, cur: Option<usize>) -> Seq<(usize, usize)>
    decreases s.len() - i,
{
    if i >= s.len() {
        match cur {
            Some(st) => seq![(st, s.len() as usize)],
            None => Seq::empty(),
        }
    } else if is_space(s[i]) {
        match cur {
            Some(st) => seq![(st, i as usize)] + words_from(s, i + 1, None),
            None => words_from(s, i + 1, None),
        }
    } else {
        words_from(s, i + 1, if cur is Some { cur } else { Some(i as usize) })
    }
}

/// The spans of the words of `s`.
pub open spec fn words(s: Seq<char>) -> Seq<(usize, usize)> {
    words_from(s, 0, None)
}

/// The text of the span `w` of `s`.
pub open spec fn text(s: Seq<char>, w: (usize, usize)) -> Seq<char> {
    s.subrange(w.0 as int, w.1 as int)
}

/// Every span lies inside `s` and is not empty.
pub open spec fn spans_in(ws: Seq<(usize, usize)>, len: int) -> bool {
    forall|k: int| 0 <= k < ws.len() ==> #[trigger] ws[k].0 < ws[k].1 <= len
}

// ---------------------------------------------------------------------
// Words

pub open spec fn is_digit(c: char) -> bool {
    '0' <= c && c <= '9'
}

/// Whether `t` is a non-empty run of decimal digits.
pub open spec fn all_digits(t: Seq<char>) -> bool {
    t.len() > 0 && forall|i: int| 0 <= i < t.len() ==> is_digit(#[trigger] t[i])
}

/// The number that the decimal digits `t` denote.
pub open spec fn nat_of(t: Seq<char>) -> int
    decreases t.len(),
{
    if t.len() == 0 {
        0
    } else {
        nat_of(t.drop_last()) * 10 + (t.last() as u32 - '0' as u32)
    }
}

/// `a7` or `α7`: an accumulator.
pub open spec fn is_accumulator_word(t: Seq<char>) -> bool {
    t.len() >= 2 && (t[0] == 'a' || t[0] == '\u{3b1}') && all_digits(t.drop_first())
}

/// `y` or `γ`: gamma.
pub open spec fn is_gamma_word(t: Seq<char>) -> bool {
    t == seq!['y'] || t == seq!['\u{3b3}']
}

/// `p(...)` or `ρ(...)`: a memory reference.
pub open spec fn is_reference_word(t: Seq<char>) -> bool {
    t.len() >= 3 && (t[0] == 'p' || t[0] == '\u{3c1}') && t[1] == '(' && t[t.len() - 1] == ')'
}

/// What stands between the parentheses of a memory reference.
pub open spec fn reference_inner(t: Seq<char>) -> Seq<char> {
    t.subrange(2, t.len() - 1)
}

/// A memory cell label: not empty, without parentheses.
pub open spec fn is_label_name(t: Seq<char>) -> bool {
    t.len() > 0 && forall|i: int| 0 <= i < t.len() ==> #[trigger] t[i] != '(' && t[i] != ')'
}

/// Digits, or `-` and digits: a constant.
pub open spec fn is_constant_word(t: Seq<char>) -> bool {
    all_digits(t) || (t.len() >= 2 && t[0] == '-' && all_digits(t.drop_first()))
}

/// The number a constant word denotes.
pub open spec fn constant_of(t: Seq<char>) -> int {
    if t[0] == '-' {
        -nat_of(t.drop_first())
    } else {
        nat_of(t)
    }
}

/// Whether `n` fits a `usize`.
pub open spec fn fits_usize(n: int) -> bool {
    n <= usize::MAX
}

/// What a memory reference `p(inner)` denotes; `w` is the span of the
/// whole word, for errors.
pub open spec fn parse_reference(inner: Seq<char>, w: (usize, usize)) -> Result<TargetModel, InstructionParseError> {
    if all_digits(inner) {
        if fits_usize(nat_of(inner)) {
            Ok(TargetModel::IndexMemoryCell(IndexModel::Direct(nat_of(inner) as usize)))
        } else {
            Err(InstructionParseError::NotANumber(w.0, w.1))
        }
    } else if is_accumulator_word(inner) {
        if fits_usize(nat_of(inner.drop_first())) {
            Ok(TargetModel::IndexMemoryCell(IndexModel::Accumulator(nat_of(inner.drop_first()) as usize)))
        } else {
            Err(InstructionParseError::NotANumber(w.0, w.1))
        }
    } else if is_gamma_word(inner) {
        Ok(TargetModel::IndexMemoryCell(IndexModel::Gamma))
    } else if is_reference_word(inner) {
        let inner2 = reference_inner(inner);
        if all_digits(inner2) {
            if fits_usize(nat_of(inner2)) {
                Ok(TargetModel::IndexMemoryCell(IndexModel::Index(nat_of(inner2) as usize)))
            } else {
                Err(InstructionParseError::NotANumber(w.0, w.1))
            }
        } else if is_label_name(inner2) {
            Ok(TargetModel::IndexMemoryCell(IndexModel::MemoryCell(inner2)))
        } else {
            Err(InstructionParseError::InvalidExpression(w.0, w.1))
        }
    } else if is_label_name(inner) {
        Ok(TargetModel::MemoryCell(inner))
    } else {
        Err(InstructionParseError::InvalidExpression(w.0, w.1))
    }
}

/// What a word denotes as an assignment target.
pub open spec fn parse_target(t: Seq<char>, w: (usize, usize)) -> Result<TargetModel, InstructionParseError> {
    if is_accumulator_word(t) {
        if fits_usize(nat_of(t.drop_first())) {
            Ok(TargetModel::Accumulator(nat_of(t.drop_first()) as usize))
        } else {
            Err(InstructionParseError::NotANumber(w.0, w.1))
        }
    } else if is_gamma_word(t) {
        Ok(TargetModel::Gamma)
    } else if is_reference_word(t) {
        parse_reference(reference_inner(t), w)
    } else {
        Err(InstructionParseError::InvalidExpression(w.0, w.1))
    }
}

/// What a word denotes as an operand.
pub open spec fn parse_value(t: Seq<char>, w: (usize, usize)) -> Result<ValueModel, InstructionParseError> {
    if is_constant_word(t) {
        if i32::MIN <= constant_of(t) <= i32::MAX {
            Ok(ValueModel::Constant(constant_of(t) as i32))
        } else {
            Err(InstructionParseError::NotANumber(w.0, w.1))
        }
    } else {
        match parse_target(t, w) {
            Ok(tm) => Ok(value_of_target(tm)),
            Err(e) => Err(e),
        }
    }
}

// ---------------------------------------------------------------------
// Instructions

/// The empty span just after the word `w`.
pub open spec fn after(w: (usize, usize)) -> InstructionParseError {
    InstructionParseError::MissingExpression(w.1, w.1)
}

/// `target := value` or `target := value op value`, where the second word
/// is `:=`.
pub open spec fn parse_assignment(s: Seq<char>, ws: Seq<(usize, usize)>) -> Result<InstructionModel, InstructionParseError> {
    let n = ws.len();
    match parse_target(text(s, ws[0]), ws[0]) {
        Err(e) => Err(e),
        Ok(t) => if n == 2 {
            Err(after(ws[1]))
        } else {
            match parse_value(text(s, ws[2]), ws[2]) {
                Err(e) => Err(e),
                Ok(a) => if n == 3 {
                    Ok(InstructionModel::Assign(t, a))
                } else {
                    match operation_of(text(s, ws[3])) {
                        None => Err(InstructionParseError::UnknownOperation(ws[3].0, ws[3].1)),
                        Some(op) => if n == 4 {
                            Err(after(ws[3]))
                        } else {
                            match parse_value(text(s, ws[4]), ws[4]) {
                                Err(e) => Err(e),
                                Ok(b) => if n > 5 {
                                    Err(InstructionParseError::InvalidExpression(ws[5].0, ws[5].1))
                                } else {
                                    Ok(InstructionModel::Calc(t, a, op, b))
                                },
                            }
                        },
                    }
                },
            }
        },
    }
}

/// `if value cmp value then goto label`, where the first word is `if`.
pub open spec fn parse_jump(s: Seq<char>, ws: Seq<(usize, usize)>) -> Result<InstructionModel, InstructionParseError> {
    let n = ws.len();
    if n < 7 {
        Err(after(ws[n - 1]))
    } else {
        match parse_value(text(s, ws[1]), ws[1]) {
            Err(e) => Err(e),
            Ok(a) => match comparison_of(text(s, ws[2])) {
                None => Err(InstructionParseError::UnknownComparison(ws[2].0, ws[2].1)),
                Some(c) => match parse_value(text(s, ws[3]), ws[3]) {
                    Err(e) => Err(e),
                    Ok(b) => if text(s, ws[4]) != "then"@ {
                        Err(InstructionParseError::InvalidExpression(ws[4].0, ws[4].1))
                    } else if text(s, ws[5]) != "goto"@ {
                        Err(InstructionParseError::InvalidExpression(ws[5].0, ws[5].1))
                    } else if n > 7 {
                        Err(InstructionParseError::InvalidExpression(ws[7].0, ws[7].1))
                    } else {
                        Ok(InstructionModel::JumpIf(a, c, b, text(s, ws[6])))
                    },
                },
            },
        }
    }
}

/// `goto label`, `call label` or `stack op`, where the first word is one of
/// these three.
pub open spec fn parse_keyword(s: Seq<char>, ws: Seq<(usize, usize)>) -> Result<InstructionModel, InstructionParseError> {
    let n = ws.len();
    let k = text(s, ws[0]);
    if n == 1 {
        Err(after(ws[0]))
    } else if n > 2 {
        Err(InstructionParseError::InvalidExpression(ws[2].0, ws[2].1))
    } else if k == "goto"@ {
        Ok(InstructionModel::Goto(text(s, ws[1])))
    } else if k == "call"@ {
        Ok(InstructionModel::Call(text(s, ws[1])))
    } else {
        match operation_of(text(s, ws[1])) {
            Some(op) => Ok(InstructionModel::StackOp(op)),
            None => Err(InstructionParseError::UnknownOperation(ws[1].0, ws[1].1)),
        }
    }
}

/// The instruction that the words `ws` of `s` form.
pub open spec fn parse_words(s: Seq<char>, ws: Seq<(usize, usize)>) -> Result<InstructionModel, InstructionParseError> {
    let n = ws.len();
    if n == 0 {
        Ok(InstructionModel::Noop)
    } else if n >= 2 && text(s, ws[1]) == ":="@ {
        parse_assignment(s, ws)
    } else if text(s, ws[0]) == "if"@ {
        parse_jump(s, ws)
    } else if text(s, ws[0]) == "goto"@ || text(s, ws[0]) == "call"@ || text(s, ws[0]) == "stack"@ {
        parse_keyword(s, ws)
    } else if n == 1 && text(s, ws[0]) == "push"@ {
        Ok(InstructionModel::Push)
    } else if n == 1 && text(s, ws[0]) == "pop"@ {
        Ok(InstructionModel::Pop)
    } else if n == 1 && text(s, ws[0]) == "return"@ {
        Ok(InstructionModel::Return)
    } else {
        Err(InstructionParseError::UnknownInstruction(ws[0].0, ws[0].1))
    }
}

/// Whether the first word defines a label: it ends with `:`.
pub open spec fn defines_label(s: Seq<char>, ws: Seq<(usize, usize)>) -> bool {
    ws.len() > 0 && text(s, ws[0]).last() == ':'
}

/// The label that a source line defines, if any: its first word, which
/// ends with `:`, without that `:`. The rest of the line plays no part.
pub open spec fn label_of_line(line: Seq<char>) -> Option<Seq<char>> {
    let s = strip_comment(line);
    let ws = words(s);
    if defines_label(s, ws) {
        Some(text(s, ws[0]).drop_last())
    } else {
        None
    }
}

/// What a source line holds: the label it defines, if any, and its
/// instruction. A line that holds nothing but a label, or nothing at all,
/// holds `Noop`.
pub open spec fn parse_line_spec(line: Seq<char>) -> Result<(Option<Seq<char>>, InstructionModel), InstructionParseError> {
    let s = strip_comment(line);
    let ws = words(s);
    if defines_label(s, ws) {
        match parse_words(s, ws.drop_first()) {
            Ok(i) => Ok((label_of_line(line), i)),
            Err(e) => Err(e),
        }
    } else {
        match parse_words(s, ws) {
            Ok(i) => Ok((None, i)),
            Err(e) => Err(e),
        }
    }
}

/// The model of a parsed line.
pub open spec fn line_model(r: Result<(Option<String>, Instruction), InstructionParseError>) -> Result<(Option<Seq<char>>, InstructionModel), InstructionParseError> {
    match r {
        Ok((l, i)) => Ok((
            match l {
                Some(s) => Some(s@),
                None => None,
            },
            i@,
        )),
        Err(e) => Err(e),
    }
}

} // verus!

verus! {

// ---------------------------------------------------------------------
// Executable reading of lines

/// The characters of `line`.
fn chars_of(line: &str) -> (r: Vec<char>)
    ensures
        r@ == line@,
{
    let n = line.unicode_len();
    let mut r: Vec<char> = Vec::new();
    let mut i: usize = 0;
    while i < n
        invariant
            n == line@.len(),
            i <= n,
            r@ == line@.take(i as int),
        decreases n - i,
    {
        r.push(line.get_char(i));
        i = i + 1;
        assert(r@ =~= line@.take(i as int));
    }
    assert(r@ =~= line@);
    r
}

/// Where the comment of `s` starts.
fn find_comment(s: &Vec<char>) -> (r: usize)
    ensures
        r == comment_start(s@, 0),
{
    let mut i: usize = 0;
    while i < s.len()
        invariant
            i <= s@.len(),
            comment_start(s@, i as int) == comment_start(s@, 0),
        decreases s@.len() - i,
    {
        if s[i] == '#' || (s[i] == '/' && i + 1 < s.len() && s[i + 1] == '/') {
            return i;
        }
        i = i + 1;
    }
    i
}

fn is_space_char(c: char) -> (r: bool)
    ensures
        r == is_space(c),
{
    c == ' ' || c == '\t' || c == '\n' || c == '\r' || c == '\x0B' || c == '\x0C'
}

/// The spans of the words of `s`.
fn split_words(s: &Vec<char>) -> (r: Vec<(usize, usize)>)
    ensures
        r@ == words(s@),
        spans_in(r@, s@.len() as int),
{
    let mut r: Vec<(usize, usize)> = Vec::new();
    let mut cur: Option<usize> = None;
    let mut i: usize = 0;
    while i < s.len()
        invariant
            i <= s@.len(),
            cur is Some ==> cur->0 < i,
            r@ + words_from(s@, i as int, cur) == words(s@),
            spans_in(r@, s@.len() as int),
        decreases s@.len() - i,
    {
        if is_space_char(s[i]) {
            match cur {
                Some(st) => {
                    let ghost rest = words_from(s@, i + 1, None);
                    assert(r@.push((st, i)) + rest =~= r@ + (seq![(st, i)] + rest));
                    r.push((st, i));
                    cur = None;
                },
                None => {},
            }
        } else if cur.is_none() {
            cur = Some(i);
        }
        i = i + 1;
    }
    match cur {
        Some(st) => {
            assert(r@.push((st, s.len())) =~= r@ + seq![(st, s.len())]);
            r.push((st, s.len()));
        },
        None => {
            assert(r@ + Seq::empty() =~= r@);
        },
    }
    r
}

/// Whether the span `(a, b)` of `s` reads `lit`.
fn word_is(s: &Vec<char>, a: usize, b: usize, lit: &str) -> (r: bool)
    requires
        a <= b <= s@.len(),
    ensures
        r == (text(s@, (a, b)) == lit@),
{
    let n = lit.unicode_len();
    if b - a != n {
        return false;
    }
    let mut k: usize = 0;
    while k < n
        invariant
            n == lit@.len() == b - a,
            a <= b <= s@.len(),
            k <= n,
            forall|j: int| 0 <= j < k ==> s@[a + j] == lit@[j],
        decreases n - k,
    {
        if s[a + k] != lit.get_char(k) {
            return false;
        }
        k = k + 1;
    }
    assert(text(s@, (a, b)) =~= lit@);
    true
}

fn is_digit_char(c: char) -> (r: bool)
    ensures
        r == is_digit(c),
{
    '0' <= c && c <= '9'
}

/// Whether the span `(a, b)` of `s` is a run of digits.
fn all_digits_at(s: &Vec<char>, a: usize, b: usize) -> (r: bool)
    requires
        a <= b <= s@.len(),
    ensures
        r == all_digits(text(s@, (a, b))),
{
    if a == b {
        return false;
    }
    let mut k: usize = a;
    while k < b
        invariant
            a <= k <= b <= s@.len(),
            forall|j: int| a <= j < k ==> is_digit(s@[j]),
        decreases b - k,
    {
        if !is_digit_char(s[k]) {
            assert(!is_digit(text(s@, (a, b))[k - a]));
            return false;
        }
        k = k + 1;
    }
    assert forall|j: int| 0 <= j < text(s@, (a, b)).len() implies is_digit(#[trigger] text(s@, (a, b))[j]) by {
        assert(text(s@, (a, b))[j] == s@[a + j]);
    }
    true
}

/// The number that the digits in the span `(a, b)` of `s` denote, if it
/// fits a `usize`.
fn number_at(s: &Vec<char>, a: usize, b: usize) -> (r: Option<usize>)
    requires
        a <= b <= s@.len(),
        all_digits(text(s@, (a, b))),
    ensures
        nat_of(text(s@, (a, b))) >= 0,
        r == if fits_usize(nat_of(text(s@, (a, b)))) {
            Some(nat_of(text(s@, (a, b))) as usize)
        } else {
            None::<usize>
        },
{
    let mut v: usize = 0;
    let mut over = false;
    let mut k: usize = a;
    assert(text(s@, (a, a)).len() == 0);
    while k < b
        invariant
            a <= k <= b <= s@.len(),
            all_digits(text(s@, (a, b))),
            over ==> nat_of(text(s@, (a, k))) > usize::MAX,
            !over ==> v == nat_of(text(s@, (a, k))),
        decreases b - k,
    {
        let c = s[k];
        assert(text(s@, (a, b))[k - a] == c);
        assert(is_digit(c));
        let d: usize = (c as u32 - '0' as u32) as usize;
        proof {
            let t1 = text(s@, (a, (k + 1) as usize));
            assert(t1.drop_last() =~= text(s@, (a, k)));
            assert(t1.last() == c);
        }
        if !over {
            match v.checked_mul(10) {
                Some(m) => match m.checked_add(d) {
                    Some(x) => {
                        v = x;
                    },
                    None => {
                        over = true;
                    },
                },
                None => {
                    over = true;
                },
            }
        }
        k = k + 1;
    }
    assert(text(s@, (a, k)) == text(s@, (a, b)));
    if over {
        None
    } else {
        Some(v)
    }
}

fn is_accumulator_at(s: &Vec<char>, a: usize, b: usize) -> (r: bool)
    requires
        a <= b <= s@.len(),
    ensures
        r == is_accumulator_word(text(s@, (a, b))),
        r ==> text(s@, (a, b)).drop_first() == text(s@, ((a + 1) as usize, b)),
{
    assert(b - a >= 2 ==> text(s@, (a, b)).drop_first() =~= text(s@, ((a + 1) as usize, b)));
    b - a >= 2 && (s[a] == 'a' || s[a] == '\u{3b1}') && all_digits_at(s, a + 1, b)
}

fn is_gamma_at(s: &Vec<char>, a: usize, b: usize) -> (r: bool)
    requires
        a <= b <= s@.len(),
    ensures
        r == is_gamma_word(text(s@, (a, b))),
{
    let r = b - a == 1 && (s[a] == 'y' || s[a] == '\u{3b3}');
    proof {
        if b - a == 1 {
            if s@[a as int] == 'y' {
                assert(text(s@, (a, b)) =~= seq!['y']);
            }
            if s@[a as int] == '\u{3b3}' {
                assert(text(s@, (a, b)) =~= seq!['\u{3b3}']);
            }
        }
        if text(s@, (a, b)) == seq!['y'] || text(s@, (a, b)) == seq!['\u{3b3}'] {
            assert(text(s@, (a, b))[0] == s@[a as int]);
        }
    }
    r
}

fn is_reference_at(s: &Vec<char>, a: usize, b: usize) -> (r: bool)
    requires
        a <= b <= s@.len(),
    ensures
        r == is_reference_word(text(s@, (a, b))),
        r ==> reference_inner(text(s@, (a, b))) == text(s@, ((a + 2) as usize, (b - 1) as usize)),
{
    assert(b - a >= 3 ==> reference_inner(text(s@, (a, b))) =~= text(s@, ((a + 2) as usize, (b - 1) as usize)));
    b - a >= 3 && (s[a] == 'p' || s[a] == '\u{3c1}') && s[a + 1] == '(' && s[b - 1] == ')'
}

fn is_label_at(s: &Vec<char>, a: usize, b: usize) -> (r: bool)
    requires
        a <= b <= s@.len(),
    ensures
        r == is_label_name(text(s@, (a, b))),
{
    if a == b {
        return false;
    }
    let mut k: usize = a;
    while k < b
        invariant
            a <= k <= b <= s@.len(),
            forall|j: int| a <= j < k ==> s@[j] != '(' && s@[j] != ')',
        decreases b - k,
    {
        if s[k] == '(' || s[k] == ')' {
            assert(text(s@, (a, b))[k - a] == s@[k as int]);
            return false;
        }
        k = k + 1;
    }
    assert forall|j: int| 0 <= j < text(s@, (a, b)).len() implies #[trigger] text(s@, (a, b))[j] != '(' && text(s@, (a, b))[j] != ')' by {
        assert(text(s@, (a, b))[j] == s@[a + j]);
    }
    true
}

/// The text of the span `(a, b)` of `line`, where `s` is a prefix of `line`.
fn label_text(line: &str, s: &Vec<char>, a: usize, b: usize) -> (r: String)
    requires
        a <= b <= s@.len(),
        s@ == line@.take(s@.len() as int),
        s@.len() <= line@.len(),
    ensures
        r@ == text(s@, (a, b)),
{
    assert(line@.subrange(a as int, b as int) =~= text(s@, (a, b)));
    line.substring_char(a, b).to_owned()
}

/// Reads the inside `(a, b)` of a memory reference whose whole word is `w`.
fn parse_reference_at(line: &str, s: &Vec<char>, a: usize, b: usize, w: (usize, usize)) -> (r: Result<TargetType, InstructionParseError>)
    requires
        a <= b <= s@.len(),
        s@ == line@.take(s@.len() as int),
        s@.len() <= line@.len(),
    ensures
        model_of(r) == parse_reference(text(s@, (a, b)), w),
{
    if all_digits_at(s, a, b) {
        match number_at(s, a, b) {
            Some(n) => Ok(TargetType::IndexMemoryCell(IndexMemoryCellIndexType::Direct(n))),
            None => Err(InstructionParseError::NotANumber(w.0, w.1)),
        }
    } else if is_accumulator_at(s, a, b) {
        match number_at(s, a + 1, b) {
            Some(n) => Ok(TargetType::IndexMemoryCell(IndexMemoryCellIndexType::Accumulator(n))),
            None => Err(InstructionParseError::NotANumber(w.0, w.1)),
        }
    } else if is_gamma_at(s, a, b) {
        Ok(TargetType::IndexMemoryCell(IndexMemoryCellIndexType::Gamma))
    } else if is_reference_at(s, a, b) {
        if all_digits_at(s, a + 2, b - 1) {
            match number_at(s, a + 2, b - 1) {
                Some(n) => Ok(TargetType::IndexMemoryCell(IndexMemoryCellIndexType::Index(n))),
                None => Err(InstructionParseError::NotANumber(w.0, w.1)),
            }
        } else if is_label_at(s, a + 2, b - 1) {
            let l = label_text(line, s, a + 2, b - 1);
            Ok(TargetType::IndexMemoryCell(IndexMemoryCellIndexType::MemoryCell(l)))
        } else {
            Err(InstructionParseError::InvalidExpression(w.0, w.1))
        }
    } else if is_label_at(s, a, b) {
        let l = label_text(line, s, a, b);
        Ok(TargetType::MemoryCell(l))
    } else {
        Err(InstructionParseError::InvalidExpression(w.0, w.1))
    }
}

/// Reads the word `w` as an assignment target.
fn parse_target_at(line: &str, s: &Vec<char>, w: (usize, usize)) -> (r: Result<TargetType, InstructionParseError>)
    requires
        w.0 <= w.1 <= s@.len(),
        s@ == line@.take(s@.len() as int),
        s@.len() <= line@.len(),
    ensures
        model_of(r) == parse_target(text(s@, w), w),
{
    let (a, b) = w;
    if is_accumulator_at(s, a, b) {
        match number_at(s, a + 1, b) {
            Some(n) => Ok(TargetType::Accumulator(n)),
            None => Err(InstructionParseError::NotANumber(a, b)),
        }
    } else if is_gamma_at(s, a, b) {
        Ok(TargetType::Gamma)
    } else if is_reference_at(s, a, b) {
        parse_reference_at(line, s, a + 2, b - 1, w)
    } else {
        Err(InstructionParseError::InvalidExpression(a, b))
    }
}

/// The operand that reads the location `t`.
fn value_from_target(t: TargetType) -> (r: Value)
    ensures
        r@ == value_of_target(t@),
{
    match t {
        TargetType::Accumulator(n) => Value::Accumulator(n),
        TargetType::Gamma => Value::Gamma,
        TargetType::MemoryCell(l) => Value::MemoryCell(l),
        TargetType::IndexMemoryCell(i) => Value::IndexMemoryCell(i),
    }
}

/// Reads the word `w` as an operand.
fn parse_value_at(line: &str, s: &Vec<char>, w: (usize, usize)) -> (r: Result<Value, InstructionParseError>)
    requires
        w.0 <= w.1 <= s@.len(),
        s@ == line@.take(s@.len() as int),
        s@.len() <= line@.len(),
    ensures
        model_of(r) == parse_value(text(s@, w), w),
{
    let (a, b) = w;
    let t = Ghost(text(s@, w));
    let negative = b - a >= 2 && s[a] == '-' && all_digits_at(s, a + 1, b);
    assert(b - a >= 2 ==> t@.drop_first() =~= text(s@, ((a + 1) as usize, b)));
    assert(b - a >= 1 ==> t@[0] == s@[a as int]);
    if negative {
        assert(t@[0] == '-');
        match number_at(s, a + 1, b) {
            Some(n) => {
                if n <= 2147483648 {
                    Ok(Value::Constant((0 - n as i64) as i32))
                } else {
                    Err(InstructionParseError::NotANumber(a, b))
                }
            },
            None => Err(InstructionParseError::NotANumber(a, b)),
        }
    } else if all_digits_at(s, a, b) {
        assert(is_digit(t@[0]));
        match number_at(s, a, b) {
            Some(n) => {
                if n <= 2147483647 {
                    Ok(Value::Constant(n as i32))
                } else {
                    Err(InstructionParseError::NotANumber(a, b))
                }
            },
            None => Err(InstructionParseError::NotANumber(a, b)),
        }
    } else {
        match parse_target_at(line, s, w) {
            Ok(tt) => Ok(value_from_target(tt)),
            Err(e) => Err(e),
        }
    }
}

} // verus!

verus! {

/// Reads an assignment whose second word is `:=`.
fn parse_assignment_at(line: &str, s: &Vec<char>, ws: &Vec<(usize, usize)>) -> (r: Result<Instruction, InstructionParseError>)
    requires
        ws@.len() >= 2,
        spans_in(ws@, s@.len() as int),
        s@ == line@.take(s@.len() as int),
        s@.len() <= line@.len(),
    ensures
        model_of(r) == parse_assignment(s@, ws@),
{
    let n = ws.len();
    let t = match parse_target_at(line, s, ws[0]) {
        Ok(t) => t,
        Err(e) => {
            return Err(e);
        },
    };
    if n == 2 {
        return Err(InstructionParseError::MissingExpression(ws[1].1, ws[1].1));
    }
    let a = match parse_value_at(line, s, ws[2]) {
        Ok(a) => a,
        Err(e) => {
            return Err(e);
        },
    };
    if n == 3 {
        return Ok(Instruction::Assign(t, a));
    }
    let (o0, o1) = ws[3];
    assert(line@.subrange(o0 as int, o1 as int) =~= text(s@, ws@[3]));
    let op = match Operation::from_symbol(line.substring_char(o0, o1)) {
        Ok(op) => op,
        Err(_) => {
            return Err(InstructionParseError::UnknownOperation(o0, o1));
        },
    };
    if n == 4 {
        return Err(InstructionParseError::MissingExpression(o1, o1));
    }
    let b = match parse_value_at(line, s, ws[4]) {
        Ok(b) => b,
        Err(e) => {
            return Err(e);
        },
    };
    if n > 5 {
        return Err(InstructionParseError::InvalidExpression(ws[5].0, ws[5].1));
    }
    Ok(Instruction::Calc(t, a, op, b))
}

/// Reads a conditional jump whose first word is `if`.
fn parse_jump_at(line: &str, s: &Vec<char>, ws: &Vec<(usize, usize)>) -> (r: Result<Instruction, InstructionParseError>)
    requires
        ws@.len() >= 1,
        spans_in(ws@, s@.len() as int),
        s@ == line@.take(s@.len() as int),
        s@.len() <= line@.len(),
    ensures
        model_of(r) == parse_jump(s@, ws@),
{
    let n = ws.len();
    if n < 7 {
        return Err(InstructionParseError::MissingExpression(ws[n - 1].1, ws[n - 1].1));
    }
    let a = match parse_value_at(line, s, ws[1]) {
        Ok(a) => a,
        Err(e) => {
            return Err(e);
        },
    };
    let (c0, c1) = ws[2];
    let cmp = match Comparison::from_symbol(line.substring_char(c0, c1)) {
        Ok(c) => c,
        Err(_) => {
            assert(line@.subrange(c0 as int, c1 as int) =~= text(s@, ws@[2]));
            return Err(InstructionParseError::UnknownComparison(c0, c1));
        },
    };
    assert(line@.subrange(c0 as int, c1 as int) =~= text(s@, ws@[2]));
    let b = match parse_value_at(line, s, ws[3]) {
        Ok(b) => b,
        Err(e) => {
            return Err(e);
        },
    };
    if !word_is(s, ws[4].0, ws[4].1, "then") {
        return Err(InstructionParseError::InvalidExpression(ws[4].0, ws[4].1));
    }
    if !word_is(s, ws[5].0, ws[5].1, "goto") {
        return Err(InstructionParseError::InvalidExpression(ws[5].0, ws[5].1));
    }
    if n > 7 {
        return Err(InstructionParseError::InvalidExpression(ws[7].0, ws[7].1));
    }
    let l = label_text(line, s, ws[6].0, ws[6].1);
    Ok(Instruction::JumpIf(a, cmp, b, l))
}

/// Reads `goto label`, `call label` or `stack op`, whose first word is one
/// of these three.
fn parse_keyword_at(line: &str, s: &Vec<char>, ws: &Vec<(usize, usize)>) -> (r: Result<Instruction, InstructionParseError>)
    requires
        ws@.len() >= 1,
        spans_in(ws@, s@.len() as int),
        s@ == line@.take(s@.len() as int),
        s@.len() <= line@.len(),
    ensures
        model_of(r) == parse_keyword(s@, ws@),
{
    let n = ws.len();
    if n == 1 {
        return Err(InstructionParseError::MissingExpression(ws[0].1, ws[0].1));
    }
    if n > 2 {
        return Err(InstructionParseError::InvalidExpression(ws[2].0, ws[2].1));
    }
    let (k0, k1) = ws[0];
    let (a, b) = ws[1];
    if word_is(s, k0, k1, "goto") {
        Ok(Instruction::Goto(label_text(line, s, a, b)))
    } else if word_is(s, k0, k1, "call") {
        Ok(Instruction::Call(label_text(line, s, a, b)))
    } else {
        assert(line@.subrange(a as int, b as int) =~= text(s@, ws@[1]));
        match Operation::from_symbol(line.substring_char(a, b)) {
            Ok(op) => Ok(Instruction::StackOp(op)),
            Err(_) => Err(InstructionParseError::UnknownOperation(a, b)),
        }
    }
}

/// Reads the instruction that the words `ws` of `s` form.
fn parse_words_at(line: &str, s: &Vec<char>, ws: &Vec<(usize, usize)>) -> (r: Result<Instruction, InstructionParseError>)
    requires
        spans_in(ws@, s@.len() as int),
        s@ == line@.take(s@.len() as int),
        s@.len() <= line@.len(),
    ensures
        model_of(r) == parse_words(s@, ws@),
{
    let n = ws.len();
    if n == 0 {
        return Ok(Instruction::Noop);
    }
    let (a, b) = ws[0];
    if n >= 2 && word_is(s, ws[1].0, ws[1].1, ":=") {
        parse_assignment_at(line, s, ws)
    } else if word_is(s, a, b, "if") {
        parse_jump_at(line, s, ws)
    } else if word_is(s, a, b, "goto") || word_is(s, a, b, "call") || word_is(s, a, b, "stack") {
        parse_keyword_at(line, s, ws)
    } else if n == 1 && word_is(s, a, b, "push") {
        Ok(Instruction::Push)
    } else if n == 1 && word_is(s, a, b, "pop") {
        Ok(Instruction::Pop)
    } else if n == 1 && word_is(s, a, b, "return") {
        Ok(Instruction::Return)
    } else {
        Err(InstructionParseError::UnknownInstruction(a, b))
    }
}

/// The label that a source line defines, if any, whatever the rest of the
/// line holds.
pub fn defined_label(line: &str) -> (r: Option<String>)
    ensures
        match r {
            Some(l) => label_of_line(line@) == Some(l@),
            None => label_of_line(line@) is None,
        },
{
    let mut s = chars_of(line);
    let cut = find_comment(&s);
    proof {
        lemma_comment_start_bounds(line@, 0);
    }
    s.truncate(cut);
    let ws = split_words(&s);
    let ghost sv = s@;
    assert(sv == strip_comment(line@));
    if ws.len() > 0 && s[ws[0].1 - 1] == ':' {
        let (a, b) = ws[0];
        assert(text(sv, ws@[0]).last() == sv[b - 1]);
        assert(text(sv, (a, (b - 1) as usize)) =~= text(sv, ws@[0]).drop_last());
        Some(label_text(line, &s, a, b - 1))
    } else {
        proof {
            if ws@.len() > 0 {
                assert(text(sv, ws@[0]).last() == sv[ws@[0].1 - 1]);
            }
        }
        None
    }
}

/// Reads one source line: the label it defines, if any, and its
/// instruction. Text from `//` or `#` on is a comment. A line with nothing
/// but a label, or with nothing at all, holds `Noop`.
pub fn parse_line(line: &str) -> (r: Result<(Option<String>, Instruction), InstructionParseError>)
    ensures
        line_model(r) == parse_line_spec(line@),
{
    let mut s = chars_of(line);
    let cut = find_comment(&s);
    proof {
        lemma_comment_start_bounds(line@, 0);
    }
    s.truncate(cut);
    let mut ws = split_words(&s);
    let ghost ws0 = ws@;
    let ghost sv = s@;
    assert(sv == strip_comment(line@));
    if ws.len() > 0 && s[ws[0].1 - 1] == ':' {
        let (a, b) = ws[0];
        assert(text(sv, ws0[0]).last() == sv[b - 1]);
        let label = label_text(line, &s, a, b - 1);
        assert(text(sv, (a, (b - 1) as usize)) =~= text(sv, ws0[0]).drop_last());
        ws.remove(0);
        assert(ws@ =~= ws0.drop_first());
        match parse_words_at(line, &s, &ws) {
            Ok(i) => Ok((Some(label), i)),
            Err(e) => Err(e),
        }
    } else {
        proof {
            if ws0.len() > 0 {
                assert(text(sv, ws0[0]).last() == sv[ws0[0].1 - 1]);
            }
        }
        match parse_words_at(line, &s, &ws) {
            Ok(i) => Ok((None, i)),
            Err(e) => Err(e),
        }
    }
}

proof fn lemma_comment_start_bounds(s: Seq<char>, i: int)
    requires
        0 <= i <= s.len(),
    ensures
        i <= comment_start(s, i) <= s.len(),
    decreases s.len() - i,
{
    if i < s.len() {
        lemma_comment_start_bounds(s, i + 1);
    }
}

impl Instruction {
    /// Reads one source line as an instruction; a label that the line
    /// defines is passed over.
    pub fn from_line(line: &str) -> (r: Result<Instruction, InstructionParseError>)
        ensures
            match parse_line_spec(line@) {
                Ok((_, i)) => r is Ok && r->Ok_0@ == i,
                Err(e) => r == Err::<Instruction, InstructionParseError>(e),
            },
    {
        match parse_line(line) {
            Ok((_, i)) => Ok(i),
            Err(e) => Err(e),
        }
    }
}

} // verus!
