//! Finding the delimiter that ends a line.
use vstd::prelude::*;

verus! {

/// Whether the delimiter stands in the text at index `i`.
pub open spec fn delimiter_at(text: Seq<u8>, delimiter: Seq<u8>, i: int) -> bool {
    0 <= i <= text.len() - delimiter.len() && text.subrange(i, i + delimiter.len()) =~= delimiter
}

/// Whether `i` is the first index of the text at which the delimiter stands.
pub open spec fn first_delimiter_at(text: Seq<u8>, delimiter: Seq<u8>, i: int) -> bool {
    delimiter_at(text, delimiter, i) && forall|j: int|
        0 <= j < i ==> !#[trigger] delimiter_at(text, delimiter, j)
}

/// Whether the delimiter stands nowhere in the text.
pub open spec fn is_free_of(text: Seq<u8>, delimiter: Seq<u8>) -> bool {
    forall|i: int| !#[trigger] delimiter_at(text, delimiter, i)
}

/// The first index of the text at which the delimiter stands, if there is one.
pub open spec fn first_delimiter(text: Seq<u8>, delimiter: Seq<u8>) -> Option<int> {
    if exists|i: int| first_delimiter_at(text, delimiter, i) {
        Some(choose|i: int| first_delimiter_at(text, delimiter, i))
    } else {
        None
    }
}

/// There is at most one first index.
pub proof fn lemma_first_delimiter(text: Seq<u8>, delimiter: Seq<u8>, i: int)
    requires
        first_delimiter_at(text, delimiter, i),
    ensures
        first_delimiter(text, delimiter) == Some(i),
{
    let k = choose|k: int| first_delimiter_at(text, delimiter, k);
    assert(first_delimiter_at(text, delimiter, k));
    assert(!(k < i) && !(i < k));
}

/// A text has a first delimiter exactly if it has any.
pub proof fn lemma_first_delimiter_exists(text: Seq<u8>, delimiter: Seq<u8>, i: int)
    requires
        delimiter_at(text, delimiter, i),
    ensures
        first_delimiter(text, delimiter) is Some,
        first_delimiter(text, delimiter)->0 <= i,
    decreases i,
{
    if first_delimiter_at(text, delimiter, i) {
        lemma_first_delimiter(text, delimiter, i);
    } else {
        let j = choose|j: int| 0 <= j < i && #[trigger] delimiter_at(text, delimiter, j);
        lemma_first_delimiter_exists(text, delimiter, j);
    }
}

/// A delimiter in the front part of a text is one in the whole text, and what
/// follows the front part does not change it.
pub proof fn lemma_delimiter_in_front(front: Seq<u8>, back: Seq<u8>, delimiter: Seq<u8>, i: int)
    requires
        i + delimiter.len() <= front.len(),
    ensures
        delimiter_at(front + back, delimiter, i) == delimiter_at(front, delimiter, i),
{
    if 0 <= i {
        assert((front + back).subrange(i, i + delimiter.len()) =~= front.subrange(
            i,
            i + delimiter.len(),
        ));
    }
}

/// Whether the delimiter stands at index `i` of the text made of two parts.
fn is_delimiter_at(front: &[u8], back: &[u8], delimiter: &[u8], i: usize) -> (stands: bool)
    requires
        i + delimiter@.len() <= front@.len() + back@.len() <= usize::MAX,
    ensures
        stands == delimiter_at(front@ + back@, delimiter@, i as int),
{
    let ghost text = front@ + back@;
    let mut k: usize = 0;
    while k < delimiter.len()
        invariant
            k <= delimiter@.len(),
            text == front@ + back@,
            i + delimiter@.len() <= front@.len() + back@.len() <= usize::MAX,
            forall|j: int| 0 <= j < k ==> text[i + j] == delimiter@[j],
        decreases delimiter@.len() - k,
    {
        let byte = if i + k < front.len() {
            front[i + k]
        } else {
            back[i + k - front.len()]
        };
        assert(byte == text[i + k]);
        if byte != delimiter[k] {
            assert(text.subrange(i as int, i + delimiter@.len())[k as int] != delimiter@[k as int]);
            return false;
        }
        k += 1;
    }
    assert(text.subrange(i as int, i + delimiter@.len()) =~= delimiter@);
    true
}

/// Finds the first delimiter in the text made of two parts, of which the front
/// part alone holds none.
pub(crate) fn find_delimiter(front: &[u8], back: &[u8], delimiter: &[u8]) -> (found: Option<usize>)
    requires
        front@.len() + back@.len() < usize::MAX,
        delimiter@.len() > 0 ==> is_free_of(front@, delimiter@),
    ensures
        found matches Some(i) ==> first_delimiter_at(front@ + back@, delimiter@, i as int),
        found is None ==> is_free_of(front@ + back@, delimiter@),
        first_delimiter(front@ + back@, delimiter@) == (match found {
            Some(i) => Some(i as int),
            None => None::<int>,
        }),
{
    let ghost text = front@ + back@;
    let total = front.len() + back.len();
    // A delimiter that starts before this index would end within the front part.
    let mut i: usize = if delimiter.len() > 0 && front.len() >= delimiter.len() {
        front.len() - delimiter.len() + 1
    } else {
        0
    };
    proof {
        assert forall|j: int| 0 <= j < i implies !#[trigger] delimiter_at(
            text,
            delimiter@,
            j,
        ) by {
            lemma_delimiter_in_front(front@, back@, delimiter@, j);
        }
    }
    while delimiter.len() <= total && i <= total - delimiter.len()
        invariant
            text == front@ + back@,
            total == front@.len() + back@.len(),
            total < usize::MAX,
            i <= total + 1,
            forall|j: int| 0 <= j < i ==> !#[trigger] delimiter_at(text, delimiter@, j),
        decreases total + 1 - i,
    {
        if is_delimiter_at(front, back, delimiter, i) {
            proof {
                lemma_first_delimiter(text, delimiter@, i as int);
            }
            return Some(i);
        }
        i += 1;
    }
    assert(is_free_of(text, delimiter@));
    None
}

} // verus!
