use vstd::prelude::*;
use rand::XorShiftRng;
use crate::decimal::{decimal, decimal_text, lemma_decimal_width, lemma_pow10_19, lemma_pow10_monotone, pow10};
use crate::source::{ascii_draw, is_alphanumeric, is_printable_ascii, range_draw, RandomSource};

verus! {

/// A helper call whose argument is missing or out of its domain.
#[derive(Debug, Clone, Copy, PartialEq, Eq, Structural)]
pub enum HelperError {
    InvalidArgument,
}

/// The generation primitives that a template can call by name.
#[derive(Debug, Clone, Copy, PartialEq, Eq, Structural)]
pub enum Helper {
    /// `str <length>`: a random alphanumeric string of `length` characters.
    RandomString,
    /// `int <digits>`: a random integer of exactly `digits` decimal digits.
    RandomInt,
    /// `range <n>`: the sequence `0, 1, ..., n - 1`.
    Range,
}

/// What a helper call hands back to the template engine: text to write, or a
/// sequence for the engine to iterate over.
#[derive(Debug)]
pub enum HelperOutput {
    Text(String),
    Sequence(Vec<u64>),
}

/// The mathematical value of a helper's output.
pub ghost enum Emitted {
    Text(Seq<char>),
    Sequence(Seq<u64>),
}

impl View for HelperOutput {
    type V = Emitted;

    open spec fn view(&self) -> Emitted {
        match self {
            HelperOutput::Text(s) => Emitted::Text(s@),
            HelperOutput::Sequence(v) => Emitted::Sequence(v@),
        }
    }
}

/// The mathematical value of a helper call's result.
pub open spec fn emitted(r: Result<HelperOutput, HelperError>) -> Result<Emitted, HelperError> {
    match r {
        Ok(o) => Ok(o@),
        Err(e) => Err(e),
    }
}

/// The largest digit count whose numbers fit in a `u64`.
pub const MAX_DIGITS: u64 = 19;

/// `0, 1, ..., n - 1`.
pub open spec fn count_up(n: nat) -> Seq<u64> {
    Seq::new(n, |i: int| i as u64)
}

/// The lowest number of `d` digits, `10^(d-1)`.
pub open spec fn int_low(d: nat) -> u64 {
    pow10((d - 1) as nat) as u64
}

/// The exclusive upper bound of a `d`-digit draw, `10^d - 1`: the all-nines
/// number is never drawn.
pub open spec fn int_high(d: nat) -> u64 {
    (pow10(d) - 1) as u64
}

/// Whether a helper accepts the argument.
pub open spec fn accepts(h: Helper, arg: Option<u64>) -> bool {
    match arg {
        None => false,
        Some(n) => match h {
            Helper::RandomString => n <= usize::MAX,
            Helper::RandomInt => 1 <= n <= MAX_DIGITS,
            Helper::Range => n <= usize::MAX,
        },
    }
}

/// Whether a call takes values from the random source.
pub open spec fn draws(h: Helper, arg: Option<u64>) -> bool {
    accepts(h, arg) && h != Helper::Range
}

/// One helper call on generator state `g`: its result, and the state after it.
pub open spec fn step(h: Helper, g: XorShiftRng, arg: Option<u64>) -> (Result<Emitted, HelperError>, XorShiftRng) {
    if !accepts(h, arg) {
        (Err(HelperError::InvalidArgument), g)
    } else {
        let n = arg.unwrap();
        match h {
            Helper::RandomString => {
                let (s, g2) = ascii_draw(g, n as nat);
                (Ok(Emitted::Text(s)), g2)
            },
            Helper::RandomInt => {
                let (v, g2) = range_draw(g, int_low(n as nat), int_high(n as nat));
                (Ok(Emitted::Text(decimal(v as nat))), g2)
            },
            Helper::Range => (Ok(Emitted::Sequence(count_up(n as nat))), g),
        }
    }
}

/// A sequence of helper calls in document order, on generator state `g`: the
/// result of each call, and the state after the last one.
pub open spec fn run(g: XorShiftRng, calls: Seq<(Helper, Option<u64>)>) -> (Seq<Result<Emitted, HelperError>>, XorShiftRng)
    decreases calls.len(),
{
    if calls.len() == 0 {
        (Seq::empty(), g)
    } else {
        let (outs, g1) = run(g, calls.drop_last());
        let (r, g2) = step(calls.last().0, g1, calls.last().1);
        (outs.push(r), g2)
    }
}

/// `RandomString`: `length` characters from `A`-`Z`, `a`-`z`, `0`-`9`, drawn
/// from the source as one draw.
pub fn random_string(src: &mut RandomSource, length: Option<u64>) -> (r: Result<String, HelperError>)
    ensures
        accepts(Helper::RandomString, length) <==> r is Ok,
        r is Err ==> final(src).state() == old(src).state(),
        r matches Ok(s) ==> {
            &&& (s@, final(src).state()) == ascii_draw(old(src).state(), length.unwrap() as nat)
            &&& s@.len() == length.unwrap()
            &&& forall|i: int| 0 <= i < s@.len() ==> is_alphanumeric(#[trigger] s@[i])
            &&& forall|i: int| 0 <= i < s@.len() ==> is_printable_ascii(#[trigger] s@[i])
        },
{
    match length {
        None => Err(HelperError::InvalidArgument),
        Some(n) => {
            if n > usize::MAX as u64 {
                Err(HelperError::InvalidArgument)
            } else {
                Ok(src.ascii_string(n as usize))
            }
        },
    }
}

/// `10^k` for `k <= 19`.
fn pow10_u64(k: u64) -> (r: u64)
    requires
        k <= MAX_DIGITS,
    ensures
        r == pow10(k as nat),
{
    let mut p: u64 = 1;
    let mut i: u64 = 0;
    while i < k
        invariant
            i <= k <= MAX_DIGITS,
            p == pow10(i as nat),
        decreases k - i,
    {
        proof {
            lemma_pow10_monotone((i + 1) as nat, 19);
            lemma_pow10_19();
        }
        p = p * 10;
        i = i + 1;
    }
    p
}

/// `RandomInt`: a number of exactly `digits` decimal digits, drawn uniformly
/// from `[10^(digits-1), 10^digits - 1)`.
pub fn random_int(src: &mut RandomSource, digits: Option<u64>) -> (r: Result<u64, HelperError>)
    ensures
        accepts(Helper::RandomInt, digits) <==> r is Ok,
        r is Err ==> final(src).state() == old(src).state(),
        r matches Ok(v) ==> {
            let d = digits.unwrap() as nat;
            &&& (v, final(src).state()) == range_draw(old(src).state(), int_low(d), int_high(d))
            &&& pow10((d - 1) as nat) <= v < pow10(d) - 1
            &&& decimal(v as nat).len() == d
            &&& decimal(v as nat)[0] != '0'
        },
{
    match digits {
        None => Err(HelperError::InvalidArgument),
        Some(d) => {
            if d == 0 || d > MAX_DIGITS {
                Err(HelperError::InvalidArgument)
            } else {
                let low = pow10_u64(d - 1);
                let high = pow10_u64(d);
                proof {
                    assert(pow10(d as nat) == 10 * pow10((d - 1) as nat));
                    crate::decimal::lemma_pow10_positive((d - 1) as nat);
                }
                let v = src.in_range(low, high - 1);
                proof {
                    lemma_decimal_width(v as nat, d as nat);
                }
                Ok(v)
            }
        },
    }
}

/// `Range`: the sequence `0, 1, ..., n - 1`; it draws nothing.
pub fn range(n: Option<u64>) -> (r: Result<Vec<u64>, HelperError>)
    ensures
        accepts(Helper::Range, n) <==> r is Ok,
        r matches Ok(v) ==> v@ == count_up(n.unwrap() as nat),
{
    match n {
        None => Err(HelperError::InvalidArgument),
        Some(n) => {
            if n > usize::MAX as u64 {
                return Err(HelperError::InvalidArgument);
            }
            let mut v: Vec<u64> = Vec::new();
            let mut i: u64 = 0;
            while i < n
                invariant
                    i <= n,
                    v@ == count_up(i as nat),
                decreases n - i,
            {
                v.push(i);
                i = i + 1;
            }
            assert(v@ =~= count_up(n as nat));
            Ok(v)
        },
    }
}

impl Helper {
    /// The name under which a template calls the helper.
    pub fn name(&self) -> (r: &'static str)
        ensures
            r@ == match self {
                Helper::RandomString => "str"@,
                Helper::RandomInt => "int"@,
                Helper::Range => "range"@,
            },
    {
        match self {
            Helper::RandomString => "str",
            Helper::RandomInt => "int",
            Helper::Range => "range",
        }
    }

    /// Calls the helper with its first argument, read as an unsigned integer
    /// (`None` when it is missing or not one). A call is one draw: it holds the
    /// source for all of its generation.
    pub fn call(&self, src: &mut RandomSource, arg: Option<u64>) -> (r: Result<HelperOutput, HelperError>)
        ensures
            (emitted(r), final(src).state()) == step(*self, old(src).state(), arg),
    {
        match self {
            Helper::RandomString => match random_string(src, arg) {
                Ok(s) => Ok(HelperOutput::Text(s)),
                Err(e) => Err(e),
            },
            Helper::RandomInt => match random_int(src, arg) {
                Ok(v) => Ok(HelperOutput::Text(decimal_text(v))),
                Err(e) => Err(e),
            },
            Helper::Range => match range(arg) {
                Ok(v) => Ok(HelperOutput::Sequence(v)),
                Err(e) => Err(e),
            },
        }
    }
}

/// Evaluates helper calls in document order against one source, as a
/// rendering pass does: the result of each call, in order.
pub fn call_in_order(src: &mut RandomSource, calls: &Vec<(Helper, Option<u64>)>) -> (r: Vec<Result<HelperOutput, HelperError>>)
    ensures
        (r@.map_values(|o: Result<HelperOutput, HelperError>| emitted(o)), final(src).state())
            == run(old(src).state(), calls@),
{
    let mut out: Vec<Result<HelperOutput, HelperError>> = Vec::new();
    let mut i: usize = 0;
    while i < calls.len()
        invariant
            i <= calls@.len(),
            (out@.map_values(|o: Result<HelperOutput, HelperError>| emitted(o)), src.state())
                == run(old(src).state(), calls@.take(i as int)),
        decreases calls@.len() - i,
    {
        let (h, arg) = calls[i];
        let ghost before = out@;
        let r = h.call(src, arg);
        out.push(r);
        proof {
            assert(calls@.take(i + 1).drop_last() =~= calls@.take(i as int));
            assert(out@.map_values(|o: Result<HelperOutput, HelperError>| emitted(o))
                =~= before.map_values(|o: Result<HelperOutput, HelperError>| emitted(o)).push(emitted(r)));
        }
        i = i + 1;
    }
    assert(calls@.take(calls@.len() as int) =~= calls@);
    out
}

} // verus!
