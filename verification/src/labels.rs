//! Fields of the labels of kernels.
use vstd::prelude::*;
use vstd::string::StrSliceExecFns;

verus! {

/// Where the word ends that reaches over an index: at the next space, or at the end.
pub open spec fn word_end(label: Seq<char>, start: nat) -> nat
    decreases label.len() - start,
{
    if start >= label.len() || label[start as int] == ' ' {
        start
    } else {
        word_end(label, start + 1)
    }
}

/// The word is the field, an equals sign and a value.
pub open spec fn is_field(word: Seq<char>, field: Seq<char>) -> bool {
    &&& word.len() > field.len()
    &&& word.take(field.len() as int) == field
    &&& word[field.len() as int] == '='
}

/// The value of a field in the words from an index on.
pub open spec fn field_from(label: Seq<char>, field: Seq<char>, start: nat) -> Option<Seq<char>>
    decreases label.len() + 1 - start,
{
    let end = word_end(label, start);
    if start >= label.len() || end < start || end > label.len() {
        None
    } else if is_field(label.subrange(start as int, end as int), field) {
        Some(label.subrange(start + field.len() as int + 1, end as int))
    } else {
        field_from(label, field, end + 1)
    }
}

fn find_word_end(label: &str, start: usize, count: usize) -> (end: usize)
    requires
        start <= count,
        count == label@.len(),
    ensures
        end == word_end(label@, start as nat),
        start <= end <= count,
{
    let mut end: usize = start;
    while end < count && label.get_char(end) != ' '
        invariant
            start <= end <= count,
            count == label@.len(),
            word_end(label@, start as nat) == word_end(label@, end as nat),
        decreases count - end,
    {
        end += 1;
    }
    end
}

fn word_is_field(label: &str, start: usize, end: usize, field: &str) -> (result: bool)
    requires
        start <= end <= label@.len(),
        label@.len() <= usize::MAX,
    ensures
        result == is_field(label@.subrange(start as int, end as int), field@),
{
    let ghost word = label@.subrange(start as int, end as int);
    let width: usize = field.unicode_len();
    if end - start <= width {
        return false;
    }
    for index in 0..width
        invariant
            width == field@.len(),
            width < end - start,
            end <= label@.len(),
            word == label@.subrange(start as int, end as int),
            forall|i: int| 0 <= i < index ==> word[i] == field@[i],
    {
        if label.get_char(start + index) != field.get_char(index) {
            assert(word.take(field@.len() as int)[index as int] != field@[index as int]);
            return false;
        }
    }
    assert(word.take(field@.len() as int) =~= field@);
    label.get_char(start + width) == '='
}

/// The value of a field of a label: what follows the equals sign in the first word of
/// that field.
pub fn semantic_label_field<'a>(label: &'a str, field: &str) -> (value: Option<&'a str>)
    ensures
        match value {
            Some(text) => field_from(label@, field@, 0) == Some(text@),
            None => field_from(label@, field@, 0) is None,
        },
{
    let count: usize = label.unicode_len();
    let mut start: usize = 0;
    while start < count
        invariant
            count == label@.len(),
            field_from(label@, field@, 0) == field_from(label@, field@, start as nat),
        decreases count - start,
    {
        let end: usize = find_word_end(label, start, count);
        let width: usize = field.unicode_len();
        if word_is_field(label, start, end, field) {
            return Some(label.substring_char(start + width + 1, end));
        }
        if end == count {
            assert(field_from(label@, field@, (end + 1) as nat) is None);
            return None;
        }
        start = end + 1;
    }
    None
}

/// A word of a field and a value reads back as the value.
pub proof fn law_a_field_is_read_back(field: Seq<char>, value: Seq<char>)
    requires
        forall|i: int| 0 <= i < field.len() ==> field[i] != ' ',
        forall|i: int| 0 <= i < value.len() ==> value[i] != ' ',
    ensures
        field_from(field.push('=') + value, field, 0) == Some(value),
{
    let label = field.push('=') + value;
    lemma_no_space(label, 0);
    assert(label.subrange(0, label.len() as int) =~= label);
    assert(label.take(field.len() as int) =~= field);
    assert(label.subrange(field.len() as int + 1, label.len() as int) =~= value);
}

proof fn lemma_no_space(label: Seq<char>, start: nat)
    requires
        start <= label.len(),
        forall|i: int| start <= i < label.len() ==> label[i] != ' ',
    ensures
        word_end(label, start) == label.len(),
    decreases label.len() - start,
{
    if start < label.len() {
        lemma_no_space(label, start + 1);
    }
}

} // verus!
