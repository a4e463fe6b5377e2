//! Annotations: the inline hint values this feature publishes, the reserved
//! identifier range it owns, and the rendering of a reference count as text.

use vstd::prelude::*;

verus! {

use vstd::math::min;
use vstd::string::StringExecFns;

/// First identifier of the range reserved for symbol-reference hints, chosen
/// to avoid collisions with annotations owned by other features.
pub const HINT_BASE_ID: usize = 900000000;

/// Size of the reserved identifier range: at most this many hints are
/// published per refresh, and this many identifiers are removed in bulk.
pub const MAX_REMOVE: usize = 1024;

/// Whether an identifier lies in the range reserved for this feature.
pub open spec fn reserved_id(id: usize) -> bool {
    HINT_BASE_ID <= id < HINT_BASE_ID + MAX_REMOVE
}

/// A piece of non-editable inline text rendered at a position, owned by this
/// feature through its identifier.
pub struct Annotation {
    pub id: usize,
    pub position: usize,
    pub text: String,
}

/// The mathematical value of an annotation: what equality of annotations
/// means in contracts.
pub struct AnnotationModel {
    pub id: usize,
    pub position: usize,
    pub text: Seq<char>,
}

impl View for Annotation {
    type V = AnnotationModel;

    open spec fn view(&self) -> AnnotationModel {
        AnnotationModel { id: self.id, position: self.position, text: self.text@ }
    }
}

/// The models of a sequence of annotations.
pub open spec fn annotation_models(annotations: Seq<Annotation>) -> Seq<AnnotationModel> {
    annotations.map_values(|a: Annotation| a@)
}

/// The decimal digit for a value below ten.
pub open spec fn digit_char(d: int) -> char {
    if d == 0 {
        '0'
    } else if d == 1 {
        '1'
    } else if d == 2 {
        '2'
    } else if d == 3 {
        '3'
    } else if d == 4 {
        '4'
    } else if d == 5 {
        '5'
    } else if d == 6 {
        '6'
    } else if d == 7 {
        '7'
    } else if d == 8 {
        '8'
    } else {
        '9'
    }
}

/// The decimal rendering of a non-negative number, most significant digit
/// first, without leading zeros (a single zero for zero itself).
pub open spec fn decimal_digits(n: nat) -> Seq<char>
    decreases n,
{
    if n < 10 {
        seq![digit_char(n as int)]
    } else {
        decimal_digits(n / 10).push(digit_char((n % 10) as int))
    }
}

/// The text of a hint for a reference count: the count in decimal, followed
/// by one space.
pub open spec fn hint_text(count: nat) -> Seq<char> {
    decimal_digits(count).push(' ')
}

/// One decimal digit as borrowed text.
fn digit_str(d: usize) -> (r: &'static str)
    requires
        d < 10,
    ensures
        r@ == seq![digit_char(d as int)],
{
    proof {
        reveal_strlit("0");
        reveal_strlit("1");
        reveal_strlit("2");
        reveal_strlit("3");
        reveal_strlit("4");
        reveal_strlit("5");
        reveal_strlit("6");
        reveal_strlit("7");
        reveal_strlit("8");
        reveal_strlit("9");
    }
    match d {
        0 => "0",
        1 => "1",
        2 => "2",
        3 => "3",
        4 => "4",
        5 => "5",
        6 => "6",
        7 => "7",
        8 => "8",
        _ => "9",
    }
}

/// Renders a number in decimal.
fn decimal_string(n: usize) -> (r: String)
    ensures
        r@ == decimal_digits(n as nat),
    decreases n,
{
    if n < 10 {
        let r = digit_str(n).to_owned();
        proof {
            assert(r@ =~= decimal_digits(n as nat));
        }
        r
    } else {
        let mut r = decimal_string(n / 10);
        r.append(digit_str(n % 10));
        proof {
            assert(r@ =~= decimal_digits(n as nat));
        }
        r
    }
}

/// Renders the text of one hint: the reference count, then one space.
pub fn count_text(count: usize) -> (text: String)
    ensures
        text@ == hint_text(count as nat),
{
    proof {
        reveal_strlit(" ");
    }
    let digits = decimal_string(count);
    let text = digits.concat(" ");
    proof {
        assert(text@ =~= hint_text(count as nat));
    }
    text
}

/// The annotations one publication emits for the given anchor positions and
/// reference counts: identifiers drawn in order from the reserved range, and
/// the set capped at the range's size however many entries there are.
pub open spec fn published_annotations(positions: Seq<usize>, counts: Seq<usize>) -> Seq<
    AnnotationModel,
>
    recommends
        positions.len() == counts.len(),
{
    Seq::new(
        min(positions.len() as int, MAX_REMOVE as int) as nat,
        |i: int|
            AnnotationModel {
                id: (HINT_BASE_ID + i) as usize,
                position: positions[i],
                text: hint_text(counts[i] as nat),
            },
    )
}

/// Builds the annotation set for one refresh from resolved anchor positions
/// and their reference counts, in outline-entry order.
pub fn build_annotations(positions: &Vec<usize>, counts: &Vec<usize>) -> (annotations: Vec<
    Annotation,
>)
    requires
        positions@.len() == counts@.len(),
    ensures
        annotation_models(annotations@) == published_annotations(positions@, counts@),
{
    let mut annotations: Vec<Annotation> = Vec::new();
    let n = if positions.len() < MAX_REMOVE {
        positions.len()
    } else {
        MAX_REMOVE
    };
    let mut i: usize = 0;
    while i < n
        invariant
            0 <= i <= n,
            n == min(positions@.len() as int, MAX_REMOVE as int),
            positions@.len() == counts@.len(),
            annotations@.len() == i,
            forall|j: int|
                0 <= j < i ==> #[trigger] annotations@[j]@ == published_annotations(
                    positions@,
                    counts@,
                )[j],
        decreases n - i,
    {
        let text = count_text(counts[i]);
        annotations.push(Annotation { id: HINT_BASE_ID + i, position: positions[i], text });
        i = i + 1;
    }
    proof {
        assert(annotation_models(annotations@) =~= published_annotations(positions@, counts@));
    }
    annotations
}

/// The reserved identifier range as a sequence, in order.
pub open spec fn removal_id_view() -> Seq<usize> {
    Seq::new(MAX_REMOVE as nat, |i: int| (HINT_BASE_ID + i) as usize)
}

/// The identifiers removed in bulk before each publication: the whole
/// reserved range, in order.
pub fn removal_ids() -> (ids: Vec<usize>)
    ensures
        ids@ == removal_id_view(),
        ids@.len() == MAX_REMOVE,
        forall|i: int| 0 <= i < MAX_REMOVE ==> ids@[i] == HINT_BASE_ID + i,
        forall|id: usize| ids@.contains(id) <==> reserved_id(id),
{
    let mut ids: Vec<usize> = Vec::new();
    let mut i: usize = 0;
    while i < MAX_REMOVE
        invariant
            0 <= i <= MAX_REMOVE,
            ids@.len() == i,
            forall|j: int| 0 <= j < i ==> ids@[j] == HINT_BASE_ID + j,
        decreases MAX_REMOVE - i,
    {
        ids.push(HINT_BASE_ID + i);
        i = i + 1;
    }
    proof {
        assert(ids@ =~= removal_id_view());
        assert(forall|id: usize| ids@.contains(id) ==> reserved_id(id));
        assert(forall|id: usize|
            reserved_id(id) ==> ids@[id - HINT_BASE_ID] == id && ids@.contains(id));
    }
    ids
}

/// Bounded capacity: a publication never emits an identifier outside the
/// reserved range, and never more annotations than the range holds, however
/// many outline entries there are.
pub proof fn lemma_bounded_capacity(positions: Seq<usize>, counts: Seq<usize>)
    ensures
        published_annotations(positions, counts).len() <= MAX_REMOVE,
        forall|i: int|
            0 <= i < published_annotations(positions, counts).len() ==> reserved_id(
                #[trigger] published_annotations(positions, counts)[i].id,
            ),
{
}

} // verus!
