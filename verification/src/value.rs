//! The value model: an ordered sequence of unsigned 32-bit integers, with its
//! truthiness, ordering, concatenation and element-wise arithmetic.

use vstd::prelude::*;

use crate::error::{outcome_of, Fault, HeError, HeResult};
use crate::text::{concat3, join, rendered};

verus! {

/// The language's only kind of value.
#[derive(Debug)]
pub struct Value {
    pub value: Vec<u32>,
}

impl View for Value {
    type V = Seq<u32>;

    open spec fn view(&self) -> Seq<u32> {
        self.value@
    }
}

/// A value counts as true when it is not empty and holds no zero.
pub open spec fn truthy(s: Seq<u32>) -> bool {
    s.len() > 0 && forall|i: int| 0 <= i < s.len() ==> s[i] != 0
}

/// A boolean as a value: one element, 1 for true and 0 for false.
pub open spec fn from_bool(b: bool) -> Seq<u32> {
    if b {
        seq![1u32]
    } else {
        seq![0u32]
    }
}

/// `a` and `b` agree before position `k`, and there `a` ends while `b` goes
/// on, or `a` holds the smaller element.
pub open spec fn less_at(a: Seq<u32>, b: Seq<u32>, k: int) -> bool {
    &&& 0 <= k <= a.len()
    &&& k < b.len()
    &&& forall|i: int| 0 <= i < k ==> a[i] == b[i]
    &&& k < a.len() ==> a[k] < b[k]
}

/// The lexicographic order on values.
pub open spec fn lex_less(a: Seq<u32>, b: Seq<u32>) -> bool {
    exists|k: int| less_at(a, b, k)
}

/// The two operands of element-wise arithmetic, combined position by position.
pub open spec fn pointwise(a: Seq<u32>, b: Seq<u32>, op: spec_fn(u32, u32) -> u32) -> Seq<u32> {
    Seq::new(a.len(), |i: int| op(a[i], b[i]))
}

/// Element-wise arithmetic: defined on operands of equal length.
pub open spec fn arith(a: Seq<u32>, b: Seq<u32>, op: spec_fn(u32, u32) -> u32) -> Result<
    Seq<u32>,
    Fault,
> {
    if a.len() == b.len() {
        Ok(pointwise(a, b, op))
    } else {
        Err(Fault::LengthMismatch { left: a.len(), right: b.len() })
    }
}

/// Element-wise sum, wrapping at 32 bits.
pub open spec fn sum(a: Seq<u32>, b: Seq<u32>) -> Result<Seq<u32>, Fault> {
    arith(a, b, |x: u32, y: u32| x.wrapping_add(y))
}

/// Element-wise difference, wrapping at 32 bits.
pub open spec fn difference(a: Seq<u32>, b: Seq<u32>) -> Result<Seq<u32>, Fault> {
    arith(a, b, |x: u32, y: u32| x.wrapping_sub(y))
}

/// Element-wise product, wrapping at 32 bits.
pub open spec fn product(a: Seq<u32>, b: Seq<u32>) -> Result<Seq<u32>, Fault> {
    arith(a, b, |x: u32, y: u32| x.wrapping_mul(y))
}

/// Element-wise quotient: no divisor may be zero.
pub open spec fn quotient(a: Seq<u32>, b: Seq<u32>) -> Result<Seq<u32>, Fault> {
    if a.len() != b.len() {
        Err(Fault::LengthMismatch { left: a.len(), right: b.len() })
    } else if exists|i: int| 0 <= i < b.len() && b[i] == 0 {
        Err(Fault::DivisionByZero)
    } else {
        Ok(pointwise(a, b, |x: u32, y: u32| (x / y) as u32))
    }
}

impl Value {
    pub fn new(value: Vec<u32>) -> (r: Self)
        ensures
            r@ == value@,
    {
        Self { value }
    }

    /// The value as text: `(e1 | e2 | ... | en)`, and `()` for the empty
    /// value.
    pub fn to_string(&self) -> (r: String)
        ensures
            r@ == rendered(self@),
    {
        let items = join(&self.value, " | ");
        concat3("(", items.as_str(), ")")
    }

    /// A copy with the same elements.
    pub fn duplicate(&self) -> (r: Self)
        ensures
            r@ == self@,
    {
        let mut value: Vec<u32> = Vec::new();
        let mut i: usize = 0;
        while i < self.value.len()
            invariant
                i <= self.value.len(),
                value@ == self.value@.subrange(0, i as int),
            decreases self.value.len() - i,
        {
            value.push(self.value[i]);
            i += 1;
        }
        assert(self.value@.subrange(0, self.value@.len() as int) == self.value@);
        Self { value }
    }

    /// The one-element value that stands for a boolean.
    pub fn from_bool(b: bool) -> (r: Self)
        ensures
            r@ == from_bool(b),
    {
        let mut value: Vec<u32> = Vec::new();
        if b {
            value.push(1);
        } else {
            value.push(0);
        }
        Self { value }
    }

    /// Whether the value counts as true.
    pub fn truthy(&self) -> (r: bool)
        ensures
            r == truthy(self@),
    {
        if self.value.len() == 0 {
            return false;
        }
        let mut i: usize = 0;
        while i < self.value.len()
            invariant
                i <= self.value.len(),
                forall|j: int| 0 <= j < i ==> self.value@[j] != 0,
            decreases self.value.len() - i,
        {
            if self.value[i] == 0 {
                return false;
            }
            i += 1;
        }
        true
    }

    /// Whether both values hold the same elements in the same order.
    pub fn equals(&self, other: &Value) -> (r: bool)
        ensures
            r == (self@ == other@),
    {
        if self.value.len() != other.value.len() {
            return false;
        }
        let mut i: usize = 0;
        while i < self.value.len()
            invariant
                i <= self.value.len(),
                self.value.len() == other.value.len(),
                forall|j: int| 0 <= j < i ==> self.value@[j] == other.value@[j],
            decreases self.value.len() - i,
        {
            if self.value[i] != other.value[i] {
                return false;
            }
            i += 1;
        }
        assert(self@ =~= other@);
        true
    }

    /// Whether `self` comes before `other` in the lexicographic order.
    pub fn less_than(&self, other: &Value) -> (r: bool)
        ensures
            r == lex_less(self@, other@),
    {
        let mut i: usize = 0;
        while i < self.value.len() && i < other.value.len()
            invariant
                i <= self.value.len(),
                i <= other.value.len(),
                forall|j: int| 0 <= j < i ==> self.value@[j] == other.value@[j],
            decreases self.value.len() - i,
        {
            if self.value[i] != other.value[i] {
                let r = self.value[i] < other.value[i];
                proof {
                    if r {
                        assert(less_at(self@, other@, i as int));
                    } else {
                        assert forall|k: int| !less_at(self@, other@, k) by {
                            if less_at(self@, other@, k) {
                                if k > i {
                                    assert(self@[i as int] == other@[i as int]);
                                }
                            }
                        }
                    }
                }
                return r;
            }
            i += 1;
        }
        let r = i < other.value.len();
        proof {
            if r {
                assert(less_at(self@, other@, i as int));
            } else {
                assert forall|k: int| !less_at(self@, other@, k) by {}
            }
        }
        r
    }

    /// `self` followed by `other`.
    pub fn concat(&self, other: &Value) -> (r: Self)
        ensures
            r@ == self@ + other@,
    {
        let mut value: Vec<u32> = Vec::new();
        let mut i: usize = 0;
        while i < self.value.len()
            invariant
                i <= self.value.len(),
                value@ == self.value@.subrange(0, i as int),
            decreases self.value.len() - i,
        {
            value.push(self.value[i]);
            i += 1;
        }
        let mut j: usize = 0;
        while j < other.value.len()
            invariant
                j <= other.value.len(),
                value@ == self.value@ + other.value@.subrange(0, j as int),
            decreases other.value.len() - j,
        {
            value.push(other.value[j]);
            j += 1;
            assert(other.value@.subrange(0, j as int) == other.value@.subrange(0, j - 1).push(
                other.value@[j - 1],
            ));
        }
        assert(other.value@.subrange(0, other.value@.len() as int) == other.value@);
        Self { value }
    }

    /// The element-wise sum; an error when the lengths differ.
    pub fn add(&self, rhs: &Value) -> (r: HeResult)
        ensures
            outcome_of(r) == sum(self@, rhs@),
    {
        if self.value.len() != rhs.value.len() {
            return Err(HeError::LengthMismatch { left: self.value.len(), right: rhs.value.len() });
        }
        let mut value: Vec<u32> = Vec::new();
        let mut i: usize = 0;
        while i < self.value.len()
            invariant
                i <= self.value.len(),
                self.value.len() == rhs.value.len(),
                value@.len() == i,
                forall|j: int| 0 <= j < i ==> value@[j] == self.value@[j].wrapping_add(rhs.value@[j]),
            decreases self.value.len() - i,
        {
            value.push(self.value[i].wrapping_add(rhs.value[i]));
            i += 1;
        }
        assert(value@ =~= pointwise(self@, rhs@, |x: u32, y: u32| x.wrapping_add(y)));
        Ok(Self { value })
    }

    /// The element-wise difference; an error when the lengths differ.
    pub fn sub(&self, rhs: &Value) -> (r: HeResult)
        ensures
            outcome_of(r) == difference(self@, rhs@),
    {
        if self.value.len() != rhs.value.len() {
            return Err(HeError::LengthMismatch { left: self.value.len(), right: rhs.value.len() });
        }
        let mut value: Vec<u32> = Vec::new();
        let mut i: usize = 0;
        while i < self.value.len()
            invariant
                i <= self.value.len(),
                self.value.len() == rhs.value.len(),
                value@.len() == i,
                forall|j: int| 0 <= j < i ==> value@[j] == self.value@[j].wrapping_sub(rhs.value@[j]),
            decreases self.value.len() - i,
        {
            value.push(self.value[i].wrapping_sub(rhs.value[i]));
            i += 1;
        }
        assert(value@ =~= pointwise(self@, rhs@, |x: u32, y: u32| x.wrapping_sub(y)));
        Ok(Self { value })
    }

    /// The element-wise product; an error when the lengths differ.
    pub fn mul(&self, rhs: &Value) -> (r: HeResult)
        ensures
            outcome_of(r) == product(self@, rhs@),
    {
        if self.value.len() != rhs.value.len() {
            return Err(HeError::LengthMismatch { left: self.value.len(), right: rhs.value.len() });
        }
        let mut value: Vec<u32> = Vec::new();
        let mut i: usize = 0;
        while i < self.value.len()
            invariant
                i <= self.value.len(),
                self.value.len() == rhs.value.len(),
                value@.len() == i,
                forall|j: int| 0 <= j < i ==> value@[j] == self.value@[j].wrapping_mul(rhs.value@[j]),
            decreases self.value.len() - i,
        {
            value.push(self.value[i].wrapping_mul(rhs.value[i]));
            i += 1;
        }
        assert(value@ =~= pointwise(self@, rhs@, |x: u32, y: u32| x.wrapping_mul(y)));
        Ok(Self { value })
    }

    /// The element-wise quotient; an error when the lengths differ or a
    /// divisor is zero.
    pub fn div(&self, rhs: &Value) -> (r: HeResult)
        ensures
            outcome_of(r) == quotient(self@, rhs@),
    {
        if self.value.len() != rhs.value.len() {
            return Err(HeError::LengthMismatch { left: self.value.len(), right: rhs.value.len() });
        }
        let mut value: Vec<u32> = Vec::new();
        let mut i: usize = 0;
        while i < self.value.len()
            invariant
                i <= self.value.len(),
                self.value.len() == rhs.value.len(),
                value@.len() == i,
                forall|j: int| 0 <= j < i ==> rhs.value@[j] != 0,
                forall|j: int| 0 <= j < i ==> value@[j] == (self.value@[j] / rhs.value@[j]) as u32,
            decreases self.value.len() - i,
        {
            if rhs.value[i] == 0 {
                return Err(HeError::DivisionByZero);
            }
            value.push(self.value[i] / rhs.value[i]);
            i += 1;
        }
        assert(value@ =~= pointwise(self@, rhs@, |x: u32, y: u32| (x / y) as u32));
        Ok(Self { value })
    }
}

/// The empty value, a value of zeros and any value that holds a zero count
/// as false; a value that is not empty and holds no zero counts as true.
pub proof fn lemma_truthiness(s: Seq<u32>)
    ensures
        s.len() == 0 ==> !truthy(s),
        s.contains(0u32) ==> !truthy(s),
        (s.len() > 0 && forall|i: int| 0 <= i < s.len() ==> s[i] == 0) ==> !truthy(s),
        s.len() > 0 && !s.contains(0u32) ==> truthy(s),
{
    if s.contains(0u32) {
        let i = choose|i: int| 0 <= i < s.len() && s[i] == 0u32;
        assert(s[i] == 0);
    }
    if s.len() > 0 && forall|i: int| 0 <= i < s.len() ==> s[i] == 0 {
        assert(s[0] == 0);
    }
    if s.len() > 0 && !s.contains(0u32) {
        assert forall|i: int| 0 <= i < s.len() implies s[i] != 0 by {
            if s[i] == 0 {
                assert(s.contains(s[i]));
            }
        }
    }
}

/// A boolean as a value counts as true exactly when the boolean is true.
pub proof fn lemma_from_bool_truthy(b: bool)
    ensures
        truthy(from_bool(b)) == b,
{
    if !b {
        assert(from_bool(b)[0] == 0);
    }
}

/// The order is decided at the first position where two values differ: the
/// value with the smaller element there comes first.
pub proof fn lemma_lex_first_difference(a: Seq<u32>, b: Seq<u32>, k: int)
    requires
        0 <= k < a.len(),
        k < b.len(),
        forall|i: int| 0 <= i < k ==> a[i] == b[i],
        a[k] != b[k],
    ensures
        lex_less(a, b) == (a[k] < b[k]),
        lex_less(b, a) == (b[k] < a[k]),
{
    if a[k] < b[k] {
        assert(less_at(a, b, k));
        assert forall|j: int| !less_at(b, a, j) by {
            if less_at(b, a, j) {
                if j > k {
                    assert(b[k] == a[k]);
                }
            }
        }
    } else {
        assert(less_at(b, a, k));
        assert forall|j: int| !less_at(a, b, j) by {
            if less_at(a, b, j) {
                if j > k {
                    assert(a[k] == b[k]);
                }
            }
        }
    }
}

/// A value comes before every longer value that starts with it.
pub proof fn lemma_lex_prefix(a: Seq<u32>, b: Seq<u32>)
    requires
        a.len() < b.len(),
        forall|i: int| 0 <= i < a.len() ==> a[i] == b[i],
    ensures
        lex_less(a, b),
        !lex_less(b, a),
{
    assert(less_at(a, b, a.len() as int));
    assert forall|j: int| !less_at(b, a, j) by {}
}

/// The first position at which two values differ, or the length of the
/// shorter one where one starts with the other.
pub open spec fn first_difference(a: Seq<u32>, b: Seq<u32>) -> int
    decreases a.len(),
{
    if a.len() == 0 || b.len() == 0 || a[0] != b[0] {
        0
    } else {
        1 + first_difference(a.drop_first(), b.drop_first())
    }
}

/// Two values agree before their first difference, which lies within both
/// or at the end of the shorter one.
pub proof fn lemma_first_difference(a: Seq<u32>, b: Seq<u32>)
    ensures
        0 <= first_difference(a, b) <= a.len(),
        first_difference(a, b) <= b.len(),
        forall|i: int| 0 <= i < first_difference(a, b) ==> a[i] == b[i],
        first_difference(a, b) < a.len() && first_difference(a, b) < b.len() ==> a[first_difference(
            a,
            b,
        )] != b[first_difference(a, b)],
    decreases a.len(),
{
    if a.len() == 0 || b.len() == 0 || a[0] != b[0] {
    } else {
        lemma_first_difference(a.drop_first(), b.drop_first());
        let k = first_difference(a.drop_first(), b.drop_first());
        assert forall|i: int| 0 <= i < k + 1 implies a[i] == b[i] by {
            if i > 0 {
                assert(a.drop_first()[i - 1] == b.drop_first()[i - 1]);
            }
        }
        if k + 1 < a.len() && k + 1 < b.len() {
            assert(a.drop_first()[k] == a[k + 1]);
            assert(b.drop_first()[k] == b[k + 1]);
        }
    }
}

/// The lexicographic order is a strict total order: of two values, either
/// they are equal or exactly one comes before the other.
pub proof fn lemma_lex_total(a: Seq<u32>, b: Seq<u32>)
    ensures
        !lex_less(a, a),
        a == b || lex_less(a, b) || lex_less(b, a),
        !(lex_less(a, b) && lex_less(b, a)),
{
    assert forall|j: int| !less_at(a, a, j) by {}
    lemma_first_difference(a, b);
    let k = first_difference(a, b);
    if k < a.len() && k < b.len() {
        lemma_lex_first_difference(a, b, k);
    } else if a.len() < b.len() {
        lemma_lex_prefix(a, b);
    } else if b.len() < a.len() {
        lemma_lex_prefix(b, a);
    } else {
        assert(a =~= b);
    }
}

/// The lexicographic order is transitive.
pub proof fn lemma_lex_transitive(a: Seq<u32>, b: Seq<u32>, c: Seq<u32>)
    requires
        lex_less(a, b),
        lex_less(b, c),
    ensures
        lex_less(a, c),
{
    let i = choose|i: int| less_at(a, b, i);
    let j = choose|j: int| less_at(b, c, j);
    if i <= j {
        assert(less_at(a, c, i));
    } else {
        assert(less_at(a, c, j));
    }
}

impl Default for Value {
    /// The empty value.
    fn default() -> (r: Self)
        ensures
            r@ == Seq::<u32>::empty(),
    {
        Self { value: Vec::new() }
    }
}

} // verus!
