//! The library functions that compute on values alone: allocation, length,
//! slicing and trimming; and what the printing and reading functions
//! compute before they print and after they read.

use vstd::prelude::*;
use vstd::string::StringExecFns;
use vstd::utf8::{decode_utf8, encode_utf8, valid_utf8};

use crate::env::{values_of, Func, HeEnv};
use crate::error::{outcome_of, Fault, HeError, HeResult};
use crate::text::{concat3, decimal, decimal_text, rendered, text_of_bytes, trim_text, trimmed};
use crate::value::Value;

verus! {

/// The sum of the elements, wrapping at 32 bits.
pub open spec fn total(s: Seq<u32>) -> u32
    decreases s.len(),
{
    if s.len() == 0 {
        0
    } else {
        total(s.drop_last()).wrapping_add(s.last())
    }
}

/// The error of a call with the wrong number of arguments.
pub open spec fn arity(expected: nat, got: nat) -> Result<Seq<u32>, Fault> {
    Err(Fault::ArityMismatch { expected, got })
}

/// `cyber(n)`: as many zeros as the elements of `n` add up to.
pub open spec fn cyber(args: Seq<Seq<u32>>) -> Result<Seq<u32>, Fault> {
    if args.len() != 1 {
        arity(1, args.len())
    } else {
        Ok(Seq::new(total(args[0]) as nat, |i: int| 0u32))
    }
}

/// `len(v)`: the number of elements of `v`, in 32 bits.
pub open spec fn len(args: Seq<Seq<u32>>) -> Result<Seq<u32>, Fault> {
    if args.len() != 1 {
        arity(1, args.len())
    } else {
        Ok(seq![(args[0].len() % 0x1_0000_0000) as u32])
    }
}

/// The words in which `slice` reports a range beyond the value's end.
pub open spec fn out_of_range(start: u32, end: u32) -> Seq<char> {
    "out of range(got ["@ + decimal(start as nat) + ", "@ + decimal(end as nat) + "])"@
}

/// `slice(v, start, end)`: the elements of `v` from `start` up to `end`,
/// each bound being the sum of its value's elements. An empty range gives
/// the empty value.
pub open spec fn slice(args: Seq<Seq<u32>>) -> Result<Seq<u32>, Fault> {
    if args.len() != 3 {
        arity(3, args.len())
    } else {
        let start = total(args[1]);
        let end = total(args[2]);
        if start >= end {
            Ok(Seq::empty())
        } else if end > args[0].len() {
            Err(Fault::Library(out_of_range(start, end)))
        } else {
            Ok(args[0].subrange(start as int, end as int))
        }
    }
}

/// Each element as a byte: its lowest 8 bits.
pub open spec fn narrowed(s: Seq<u32>) -> Seq<u8> {
    Seq::new(s.len(), |i: int| (s[i] % 256) as u8)
}

/// Each byte as an element.
pub open spec fn widened(s: Seq<u8>) -> Seq<u32> {
    Seq::new(s.len(), |i: int| s[i] as u32)
}

/// The text that a value encodes in UTF-8, where it encodes one.
pub open spec fn text_of(v: Seq<u32>) -> Result<Seq<char>, Fault> {
    if valid_utf8(narrowed(v)) {
        Ok(decode_utf8(narrowed(v)))
    } else {
        Err(Fault::TypeConversionFailure)
    }
}

/// `trim(v)`: the text that `v` encodes, without the white space at its
/// ends, encoded again.
pub open spec fn trim(args: Seq<Seq<u32>>) -> Result<Seq<u32>, Fault> {
    if args.len() != 1 {
        arity(1, args.len())
    } else {
        match text_of(args[0]) {
            Err(e) => Err(e),
            Ok(text) => Ok(widened(encode_utf8(trimmed(text)))),
        }
    }
}

/// The sum of a value's elements, wrapping at 32 bits.
pub fn sum_of(value: &Value) -> (r: u32)
    ensures
        r == total(value@),
{
    let mut sum: u32 = 0;
    let mut i: usize = 0;
    while i < value.value.len()
        invariant
            i <= value.value.len(),
            sum == total(value@.subrange(0, i as int)),
        decreases value.value.len() - i,
    {
        assert(value@.subrange(0, i + 1).drop_last() == value@.subrange(0, i as int));
        sum = sum.wrapping_add(value.value[i]);
        i += 1;
    }
    assert(value@.subrange(0, value@.len() as int) == value@);
    sum
}

/// The lowest 8 bits of each element.
pub fn bytes_of(value: &Value) -> (r: Vec<u8>)
    ensures
        r@ == narrowed(value@),
{
    let mut bytes: Vec<u8> = Vec::new();
    let mut i: usize = 0;
    while i < value.value.len()
        invariant
            i <= value.value.len(),
            bytes@.len() == i,
            forall|j: int| 0 <= j < i ==> bytes@[j] == (value@[j] % 256) as u8,
        decreases value.value.len() - i,
    {
        bytes.push((value.value[i] % 256) as u8);
        i += 1;
    }
    assert(bytes@ =~= narrowed(value@));
    bytes
}

/// The bytes of a text's UTF-8 encoding, as a value.
pub fn value_of_text(text: &str) -> (r: Value)
    ensures
        r@ == widened(encode_utf8(text@)),
{
    let bytes = text.as_bytes();
    let mut items: Vec<u32> = Vec::new();
    let mut i: usize = 0;
    while i < bytes.len()
        invariant
            i <= bytes.len(),
            bytes@ == encode_utf8(text@),
            items@.len() == i,
            forall|j: int| 0 <= j < i ==> items@[j] == bytes@[j] as u32,
        decreases bytes.len() - i,
    {
        items.push(bytes[i] as u32);
        i += 1;
    }
    assert(items@ =~= widened(encode_utf8(text@)));
    Value::new(items)
}

/// The text that a value encodes in UTF-8.
pub fn text_of_value(value: &Value) -> (r: Result<String, HeError>)
    ensures
        match r {
            Ok(s) => text_of(value@) == Ok::<Seq<char>, Fault>(s@),
            Err(e) => text_of(value@) == Err::<Seq<char>, Fault>(e@),
        },
{
    match text_of_bytes(bytes_of(value)) {
        Some(s) => Ok(s),
        None => Err(HeError::TypeConversionFailure),
    }
}

/// `cyber`: allocates zeroed elements.
#[derive(Debug, Clone, Copy)]
pub struct CyberFunc;

impl CyberFunc {
    pub fn apply(args: &[Value]) -> (r: HeResult)
        ensures
            outcome_of(r) == cyber(values_of(args@)),
    {
        if args.len() != 1 {
            return Err(HeError::ArityMismatch { expected: 1, got: args.len() });
        }
        let count = sum_of(&args[0]) as usize;
        let mut value: Vec<u32> = Vec::new();
        let mut i: usize = 0;
        while i < count
            invariant
                i <= count,
                value@.len() == i,
                forall|j: int| 0 <= j < i ==> value@[j] == 0u32,
            decreases count - i,
        {
            value.push(0);
            i += 1;
        }
        assert(value@ =~= Seq::new(count as nat, |i: int| 0u32));
        Ok(Value::new(value))
    }
}

/// `len`: the number of elements.
#[derive(Debug, Clone, Copy)]
pub struct LenFunc;

impl LenFunc {
    pub fn apply(args: &[Value]) -> (r: HeResult)
        ensures
            outcome_of(r) == len(values_of(args@)),
    {
        if args.len() != 1 {
            return Err(HeError::ArityMismatch { expected: 1, got: args.len() });
        }
        let n = (args[0].value.len() as u64 % 0x1_0000_0000u64) as u32;
        let mut value: Vec<u32> = Vec::new();
        value.push(n);
        assert(value@ =~= seq![n]);
        Ok(Value::new(value))
    }
}

/// `slice`: a range of the elements.
#[derive(Debug, Clone, Copy)]
pub struct SliceFunc;

impl SliceFunc {
    pub fn apply(args: &[Value]) -> (r: HeResult)
        ensures
            outcome_of(r) == slice(values_of(args@)),
    {
        if args.len() != 3 {
            return Err(HeError::ArityMismatch { expected: 3, got: args.len() });
        }

        let value = &args[0].value;
        let start = sum_of(&args[1]);
        let end = sum_of(&args[2]);
        if start >= end {
            return Ok(Value::default());
        }
        if end as usize > value.len() {
            let s = decimal_text(start as u64);
            let e = decimal_text(end as u64);
            let mut text = concat3("out of range(got [", s.as_str(), ", ");
            text.append(e.as_str());
            text.append("])");
            return Err(HeError::Library(text));
        }
        let mut items: Vec<u32> = Vec::new();
        let mut i: usize = start as usize;
        while i < end as usize
            invariant
                start <= i <= end,
                end <= value@.len(),
                items@ == value@.subrange(start as int, i as int),
            decreases end - i,
        {
            items.push(value[i]);
            i += 1;
            assert(items@ =~= value@.subrange(start as int, i as int));
        }
        Ok(Value::new(items))
    }
}

/// `trim`: strips the white space at both ends of a text.
#[derive(Debug, Clone, Copy)]
pub struct TrimFunc;

impl TrimFunc {
    pub fn apply(args: &[Value]) -> (r: HeResult)
        ensures
            outcome_of(r) == trim(values_of(args@)),
    {
        if args.len() != 1 {
            return Err(HeError::ArityMismatch { expected: 1, got: args.len() });
        }
        let text = match text_of_value(&args[0]) {
            Ok(s) => s,
            Err(e) => return Err(e),
        };
        Ok(value_of_text(trim_text(text.as_str())))
    }
}

/// The library functions that compute on values alone.
#[derive(Debug, Clone, Copy)]
pub enum Builtin {
    Cyber(CyberFunc),
    Trim(TrimFunc),
    Len(LenFunc),
    Slice(SliceFunc),
}

impl Builtin {
    /// What a call on `args` returns.
    pub open spec fn result(&self, args: Seq<Seq<u32>>) -> Result<Seq<u32>, Fault> {
        match self {
            Builtin::Cyber(_) => cyber(args),
            Builtin::Trim(_) => trim(args),
            Builtin::Len(_) => len(args),
            Builtin::Slice(_) => slice(args),
        }
    }

    /// Calls the function.
    pub fn apply(&self, args: &[Value]) -> (r: HeResult)
        ensures
            outcome_of(r) == self.result(values_of(args@)),
    {
        match self {
            Builtin::Cyber(_) => CyberFunc::apply(args),
            Builtin::Trim(_) => TrimFunc::apply(args),
            Builtin::Len(_) => LenFunc::apply(args),
            Builtin::Slice(_) => SliceFunc::apply(args),
        }
    }
}

impl Func for Builtin {
    open spec fn outcome(&self, args: Seq<Seq<u32>>) -> Option<Result<Seq<u32>, Fault>> {
        Some(self.result(args))
    }

    fn call(&self, args: &[Value], env: &mut HeEnv<Self>) -> (r: HeResult) {
        self.apply(args)
    }

    fn duplicate(&self) -> (r: Self) {
        *self
    }
}

/// The words of the values, with one space between two.
pub open spec fn spaced(texts: Seq<Seq<char>>) -> Seq<char>
    decreases texts.len(),
{
    if texts.len() == 0 {
        Seq::empty()
    } else if texts.len() == 1 {
        texts[0]
    } else {
        spaced(texts.drop_last()) + " "@ + texts.last()
    }
}

/// What `print` writes: each argument as a value's text.
pub open spec fn print_line(args: Seq<Seq<u32>>) -> Result<Seq<char>, Fault> {
    if args.len() == 0 {
        Err(Fault::ArityMismatch { expected: 1, got: 0 })
    } else {
        Ok(spaced(Seq::new(args.len(), |i: int| rendered(args[i]))))
    }
}

/// What `print` and `sprint` return: their last argument.
pub open spec fn last_argument(args: Seq<Seq<u32>>) -> Result<Seq<u32>, Fault> {
    if args.len() == 0 {
        Err(Fault::ArityMismatch { expected: 1, got: 0 })
    } else {
        Ok(args.last())
    }
}

/// The value that `print` and `sprint` return.
pub fn last_of(args: &[Value]) -> (r: HeResult)
    ensures
        outcome_of(r) == last_argument(values_of(args@)),
{
    if args.len() == 0 {
        return Err(HeError::ArityMismatch { expected: 1, got: 0 });
    }
    Ok(args[args.len() - 1].duplicate())
}

/// `print`: writes its arguments as values and returns the last one. The
/// library computes the line; writing it is the caller's part.
#[derive(Debug, Clone, Copy)]
pub struct PrintFunc;

impl PrintFunc {
    /// The line that a call writes.
    pub fn line(args: &[Value]) -> (r: Result<String, HeError>)
        ensures
            match r {
                Ok(s) => print_line(values_of(args@)) == Ok::<Seq<char>, Fault>(s@),
                Err(e) => print_line(values_of(args@)) == Err::<Seq<char>, Fault>(e@),
            },
    {
        if args.len() == 0 {
            return Err(HeError::ArityMismatch { expected: 1, got: 0 });
        }
        let ghost texts = Seq::new(args@.len(), |i: int| rendered(values_of(args@)[i]));
        let mut message = String::new();
        let mut i: usize = 0;
        while i < args.len()
            invariant
                i <= args.len(),
                texts == Seq::new(args@.len(), |i: int| rendered(values_of(args@)[i])),
                message@ == spaced(texts.subrange(0, i as int)),
            decreases args.len() - i,
        {
            assert(texts.subrange(0, i + 1).drop_last() =~= texts.subrange(0, i as int));
            if i > 0 {
                message.append(" ");
            }
            let text = args[i].to_string();
            message.append(text.as_str());
            i += 1;
            assert(message@ =~= spaced(texts.subrange(0, i as int)));
        }
        assert(texts.subrange(0, texts.len() as int) == texts);
        Ok(message)
    }
}

/// The texts that the first `n` arguments encode, or the error of the
/// first that encodes none.
pub open spec fn texts_of(args: Seq<Seq<u32>>, n: nat) -> Result<Seq<Seq<char>>, Fault>
    decreases n,
{
    if n == 0 || n > args.len() {
        Ok(Seq::empty())
    } else {
        match texts_of(args, (n - 1) as nat) {
            Err(e) => Err(e),
            Ok(texts) => match text_of(args[n - 1]) {
                Err(e) => Err(e),
                Ok(t) => Ok(texts.push(t)),
            },
        }
    }
}

/// What `sprint` writes: each argument as the text that it encodes.
pub open spec fn sprint_line(args: Seq<Seq<u32>>) -> Result<Seq<char>, Fault> {
    if args.len() == 0 {
        Err(Fault::ArityMismatch { expected: 1, got: 0 })
    } else {
        match texts_of(args, args.len()) {
            Err(e) => Err(e),
            Ok(texts) => Ok(spaced(texts)),
        }
    }
}

/// `sprint`: writes its arguments as texts and returns the last one. The
/// library computes the line; writing it is the caller's part.
#[derive(Debug, Clone, Copy)]
pub struct SPrintFunc;

impl SPrintFunc {
    /// The text that a value encodes.
    pub fn sprint(value: &Value) -> (r: Result<String, HeError>)
        ensures
            match r {
                Ok(s) => text_of(value@) == Ok::<Seq<char>, Fault>(s@),
                Err(e) => text_of(value@) == Err::<Seq<char>, Fault>(e@),
            },
    {
        text_of_value(value)
    }

    /// The line that a call writes.
    #[verifier::loop_isolation(false)]
    pub fn line(args: &[Value]) -> (r: Result<String, HeError>)
        ensures
            match r {
                Ok(s) => sprint_line(values_of(args@)) == Ok::<Seq<char>, Fault>(s@),
                Err(e) => sprint_line(values_of(args@)) == Err::<Seq<char>, Fault>(e@),
            },
    {
        if args.len() == 0 {
            return Err(HeError::ArityMismatch { expected: 1, got: 0 });
        }
        let ghost values = values_of(args@);
        let ghost mut texts: Seq<Seq<char>> = Seq::empty();
        let mut message = String::new();
        let mut i: usize = 0;
        while i < args.len()
            invariant
                i <= args.len(),
                texts.len() == i,
                texts_of(values, i as nat) == Ok::<Seq<Seq<char>>, Fault>(texts),
                message@ == spaced(texts),
            decreases args.len() - i,
        {
            let text = match SPrintFunc::sprint(&args[i]) {
                Ok(t) => t,
                Err(e) => {
                    proof {
                        lemma_texts_stop(values, (i + 1) as nat, values.len());
                    }
                    return Err(e);
                },
            };
            if i > 0 {
                message.append(" ");
            }
            message.append(text.as_str());
            proof {
                let before = texts;
                texts = texts.push(text@);
                assert(texts.drop_last() =~= before);
            }
            i += 1;
        }
        Ok(message)
    }
}

/// Once an argument encodes no text, more arguments change nothing.
pub proof fn lemma_texts_stop(args: Seq<Seq<u32>>, n: nat, m: nat)
    requires
        1 <= n <= m <= args.len(),
        texts_of(args, n) is Err,
    ensures
        texts_of(args, m) == texts_of(args, n),
    decreases m,
{
    if n < m {
        lemma_texts_stop(args, n, (m - 1) as nat);
    }
}

/// `readline`: reads one line and returns its bytes. Reading the line is
/// the caller's part; the library checks the call and converts the line.
#[derive(Debug, Clone, Copy)]
pub struct ReadLineFunc;

impl ReadLineFunc {
    /// Accepts a call without arguments.
    pub fn check(args: &[Value]) -> (r: Result<(), HeError>)
        ensures
            match r {
                Ok(_) => args@.len() == 0,
                Err(e) => args@.len() != 0 && e@ == (Fault::ArityMismatch {
                    expected: 0,
                    got: args@.len(),
                }),
            },
    {
        if args.len() != 0 {
            return Err(HeError::ArityMismatch { expected: 0, got: args.len() });
        }
        Ok(())
    }

    /// The line that was read, as the value that the call returns: the
    /// bytes of its UTF-8 encoding.
    pub fn value(line: &str) -> (r: Value)
        ensures
            r@ == widened(encode_utf8(line@)),
    {
        value_of_text(line)
    }
}

} // verus!
