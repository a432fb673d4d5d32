//! Plain values: copying, comparing and ordering them through their models.
use vstd::prelude::*;
use vstd::std_specs::iter::IteratorSpec;

verus! {

/// A value that is copied and compared through its model.
pub trait PlainValue: DeepView + Sized {
    fn duplicate(&self) -> (copy: Self)
        ensures
            copy.deep_view() == self.deep_view(),
    ;

    fn same(&self, other: &Self) -> (equal: bool)
        ensures
            equal == (self.deep_view() == other.deep_view()),
    ;
}

/// A value with a strict total order on its models.
pub trait OrderedKey: PlainValue {
    spec fn before(left: Self::V, right: Self::V) -> bool;

    proof fn order_is_irreflexive(value: Self::V)
        ensures
            !Self::before(value, value),
    ;

    proof fn order_is_transitive(first: Self::V, second: Self::V, third: Self::V)
        requires
            Self::before(first, second),
            Self::before(second, third),
        ensures
            Self::before(first, third),
    ;

    proof fn order_is_total(left: Self::V, right: Self::V)
        ensures
            left == right || Self::before(left, right) || Self::before(right, left),
    ;

    fn precedes(&self, other: &Self) -> (result: bool)
        ensures
            result == Self::before(self.deep_view(), other.deep_view()),
    ;
}

impl PlainValue for usize {
    fn duplicate(&self) -> (copy: Self) {
        *self
    }

    fn same(&self, other: &Self) -> (equal: bool) {
        *self == *other
    }
}

impl OrderedKey for usize {
    open spec fn before(left: usize, right: usize) -> bool {
        left < right
    }

    proof fn order_is_irreflexive(value: usize) {
    }

    proof fn order_is_transitive(first: usize, second: usize, third: usize) {
    }

    proof fn order_is_total(left: usize, right: usize) {
    }

    fn precedes(&self, other: &Self) -> (result: bool) {
        *self < *other
    }
}

impl PlainValue for u8 {
    fn duplicate(&self) -> (copy: Self) {
        *self
    }

    fn same(&self, other: &Self) -> (equal: bool) {
        *self == *other
    }
}

impl PlainValue for u32 {
    fn duplicate(&self) -> (copy: Self) {
        *self
    }

    fn same(&self, other: &Self) -> (equal: bool) {
        *self == *other
    }
}

impl PlainValue for u64 {
    fn duplicate(&self) -> (copy: Self) {
        *self
    }

    fn same(&self, other: &Self) -> (equal: bool) {
        *self == *other
    }
}

impl PlainValue for bool {
    fn duplicate(&self) -> (copy: Self) {
        *self
    }

    fn same(&self, other: &Self) -> (equal: bool) {
        *self == *other
    }
}

impl PlainValue for () {
    fn duplicate(&self) -> (copy: Self) {
        *self
    }

    fn same(&self, other: &Self) -> (equal: bool) {
        true
    }
}

impl PlainValue for String {
    fn duplicate(&self) -> (copy: Self) {
        self.clone()
    }

    fn same(&self, other: &Self) -> (equal: bool) {
        *self == *other
    }
}

/// The order of texts: by the first character in which they differ, a proper
/// prefix first.
pub open spec fn text_before(left: Seq<char>, right: Seq<char>) -> bool
    decreases left.len(),
{
    if right.len() == 0 {
        false
    } else if left.len() == 0 {
        true
    } else if left[0] != right[0] {
        left[0] < right[0]
    } else {
        text_before(left.drop_first(), right.drop_first())
    }
}

proof fn lemma_text_irreflexive(value: Seq<char>)
    ensures
        !text_before(value, value),
    decreases value.len(),
{
    if value.len() > 0 {
        lemma_text_irreflexive(value.drop_first());
    }
}

proof fn lemma_text_transitive(first: Seq<char>, second: Seq<char>, third: Seq<char>)
    requires
        text_before(first, second),
        text_before(second, third),
    ensures
        text_before(first, third),
    decreases first.len(),
{
    if first.len() > 0 && first[0] == second[0] && second[0] == third[0] {
        lemma_text_transitive(first.drop_first(), second.drop_first(), third.drop_first());
    }
}

proof fn lemma_text_total(left: Seq<char>, right: Seq<char>)
    ensures
        left == right || text_before(left, right) || text_before(right, left),
    decreases left.len(),
{
    if left.len() == 0 {
        if right.len() == 0 {
            assert(left =~= right);
        }
    } else if right.len() > 0 && left[0] == right[0] {
        lemma_text_total(left.drop_first(), right.drop_first());
        if left.drop_first() == right.drop_first() {
            assert(left =~= right) by {
                assert forall|i: int| 0 <= i < left.len() implies left[i] == right[i] by {
                    if i > 0 {
                        assert(left[i] == left.drop_first()[i - 1]);
                        assert(right[i] == right.drop_first()[i - 1]);
                    }
                }
                assert(left.len() == left.drop_first().len() + 1);
                assert(right.len() == right.drop_first().len() + 1);
            }
        }
    }
}

/// Whether one text stands before another.
pub fn text_precedes(left: &str, right: &str) -> (result: bool)
    ensures
        result == text_before(left@, right@),
{
    let mut left_chars = left.chars();
    let mut right_chars = right.chars();
    loop
        invariant
            IteratorSpec::decrease(&left_chars) is Some,
            IteratorSpec::obeys_prophetic_iter_laws(&left_chars),
            IteratorSpec::obeys_prophetic_iter_laws(&right_chars),
            text_before(left@, right@) == text_before(
                IteratorSpec::remaining(&left_chars),
                IteratorSpec::remaining(&right_chars),
            ),
        decreases IteratorSpec::decrease(&left_chars)->0,
    {
        let next_left = left_chars.next();
        let next_right = right_chars.next();
        match next_right {
            None => {
                return false;
            },
            Some(right_char) => {
                match next_left {
                    None => {
                        return true;
                    },
                    Some(left_char) => {
                        if left_char != right_char {
                            return left_char < right_char;
                        }
                    },
                }
            },
        }
    }
}

impl OrderedKey for String {
    open spec fn before(left: Seq<char>, right: Seq<char>) -> bool {
        text_before(left, right)
    }

    proof fn order_is_irreflexive(value: Seq<char>) {
        lemma_text_irreflexive(value);
    }

    proof fn order_is_transitive(first: Seq<char>, second: Seq<char>, third: Seq<char>) {
        lemma_text_transitive(first, second, third);
    }

    proof fn order_is_total(left: Seq<char>, right: Seq<char>) {
        lemma_text_total(left, right);
    }

    fn precedes(&self, other: &Self) -> (result: bool) {
        text_precedes(self.as_str(), other.as_str())
    }
}

impl<A: PlainValue, B: PlainValue> PlainValue for (A, B) {
    fn duplicate(&self) -> (copy: Self) {
        (self.0.duplicate(), self.1.duplicate())
    }

    fn same(&self, other: &Self) -> (equal: bool) {
        self.0.same(&other.0) && self.1.same(&other.1)
    }
}

impl<A: OrderedKey, B: OrderedKey> OrderedKey for (A, B) {
    open spec fn before(left: (A::V, B::V), right: (A::V, B::V)) -> bool {
        A::before(left.0, right.0) || (left.0 == right.0 && B::before(left.1, right.1))
    }

    proof fn order_is_irreflexive(value: (A::V, B::V)) {
        A::order_is_irreflexive(value.0);
        B::order_is_irreflexive(value.1);
    }

    proof fn order_is_transitive(
        first: (A::V, B::V),
        second: (A::V, B::V),
        third: (A::V, B::V),
    ) {
        if A::before(first.0, second.0) && A::before(second.0, third.0) {
            A::order_is_transitive(first.0, second.0, third.0);
        }
        A::order_is_irreflexive(first.0);
        if first.0 == second.0 && second.0 == third.0 {
            B::order_is_transitive(first.1, second.1, third.1);
        }
    }

    proof fn order_is_total(left: (A::V, B::V), right: (A::V, B::V)) {
        A::order_is_total(left.0, right.0);
        B::order_is_total(left.1, right.1);
    }

    fn precedes(&self, other: &Self) -> (result: bool) {
        self.0.precedes(&other.0) || (self.0.same(&other.0) && self.1.precedes(&other.1))
    }
}

impl<T: PlainValue> PlainValue for Vec<T> {
    fn duplicate(&self) -> (copy: Self) {
        let mut copy: Vec<T> = Vec::new();
        for index in 0..self.len()
            invariant
                copy.len() == index,
                forall|i: int|
                    0 <= i < index ==> (#[trigger] copy@[i]).deep_view() == self@[i].deep_view(),
        {
            copy.push(self[index].duplicate());
        }
        assert(copy.deep_view() =~= self.deep_view());
        copy
    }

    fn same(&self, other: &Self) -> (equal: bool) {
        if self.len() != other.len() {
            assert(self.deep_view().len() != other.deep_view().len());
            return false;
        }
        for index in 0..self.len()
            invariant
                self.len() == other.len(),
                forall|i: int|
                    0 <= i < index ==> (#[trigger] self@[i]).deep_view() == other@[i].deep_view(),
        {
            if !self[index].same(&other[index]) {
                assert(self.deep_view()[index as int] != other.deep_view()[index as int]);
                return false;
            }
        }
        assert(self.deep_view() =~= other.deep_view());
        true
    }
}

impl<T: PlainValue> PlainValue for Option<T> {
    fn duplicate(&self) -> (copy: Self) {
        match self {
            Some(value) => Some(value.duplicate()),
            None => None,
        }
    }

    fn same(&self, other: &Self) -> (equal: bool) {
        match (self, other) {
            (Some(left), Some(right)) => left.same(right),
            (None, None) => true,
            _ => false,
        }
    }
}

} // verus!
