//! Puts the embeddings of images and sounds in place of their placeholders.
use vstd::prelude::*;
use crate::mm_splice::{placeholder_runs, runs_from, Modality, PlaceholderRun};

verus! {

#[verifier::external_type_specification]
#[verifier::external_body]
pub struct ExTensor(candle_core::Tensor);

#[verifier::external_type_specification]
#[verifier::external_body]
pub struct ExTensorError(candle_core::Error);

/// The sizes of a tensor along its axes.
pub uninterp spec fn tensor_dims(t: candle_core::Tensor) -> Seq<usize>;

/// The slices of a tensor along its first axis, each as the values that it holds.
pub uninterp spec fn tensor_rows(t: candle_core::Tensor) -> Seq<Seq<int>>;

/// The element type of a tensor, as a number.
pub uninterp spec fn tensor_dtype(t: candle_core::Tensor) -> int;

/// Whether a tensor is held by the CPU in an element type that its back end allocates, which
/// are all but the packed `F6E2M3`, `F6E3M2`, `F4` and `F8E8M0`.
pub uninterp spec fn tensor_on_cpu(t: candle_core::Tensor) -> bool;

/// The bytes of an element of a type, as the tensor library counts them.
pub uninterp spec fn dtype_bytes(dtype: int) -> nat;

/// `Tensor::dims`: the sizes along the axes. A tensor has as many slices as its first axis
/// is long, and the slices of a tensor of width zero hold nothing.
#[verifier::external_body]
fn dims_of(t: &candle_core::Tensor) -> (r: Vec<usize>)
    ensures
        r@ == tensor_dims(*t),
        r@.len() > 0 ==> tensor_rows(*t).len() == r@[0],
        r@.len() == 2 && r@[1] == 0 ==> all_empty(tensor_rows(*t)),
{
    t.dims().to_vec()
}

/// Slices without any values.
pub open spec fn all_empty(rows: Seq<Seq<int>>) -> bool {
    forall|i: int| 0 <= i < rows.len() ==> #[trigger] rows[i] == Seq::<int>::empty()
}

/// `Tensor::dtype` of two tensors: whether they hold elements of one type.
#[verifier::external_body]
fn same_dtype(a: &candle_core::Tensor, b: &candle_core::Tensor) -> (r: bool)
    ensures
        r == (tensor_dtype(*a) == tensor_dtype(*b)),
{
    a.dtype() == b.dtype()
}

/// `DType::size_in_bytes` of a tensor's element type: at most eight.
#[verifier::external_body]
fn elem_bytes(t: &candle_core::Tensor) -> (r: usize)
    ensures
        r == dtype_bytes(tensor_dtype(*t)),
        r <= 8,
{
    t.dtype().size_in_bytes()
}

/// A tensor of rows, with at least one element.
pub open spec fn sheet(t: candle_core::Tensor) -> bool {
    &&& tensor_dims(t).len() == 2
    &&& tensor_dims(t)[0] > 0
    &&& tensor_dims(t)[1] > 0
}

/// `Tensor::narrow` of rows along the first axis: those from `start` on, `len` of them. It
/// succeeds exactly where the tensor has them. What the values are is said of tensors whose
/// storage is not written to in place.
#[verifier::external_body]
fn narrow_rows(t: &candle_core::Tensor, start: usize, len: usize) -> (r: Result<
    candle_core::Tensor,
    candle_core::Error,
>)
    requires
        sheet(*t),
        len > 0,
        start + len <= usize::MAX,
    ensures
        r is Ok == (start + len <= tensor_dims(*t)[0]),
        r matches Ok(v) ==> {
            &&& tensor_dims(v) == seq![len, tensor_dims(*t)[1]]
            &&& tensor_rows(v) == tensor_rows(*t).subrange(start as int, start + len)
            &&& tensor_dtype(v) == tensor_dtype(*t)
            &&& tensor_on_cpu(v) == tensor_on_cpu(*t)
        },
{
    t.narrow(0, start, len)
}

/// The slices of tensors one after the other.
pub open spec fn all_rows(v: Seq<candle_core::Tensor>) -> Seq<Seq<int>>
    decreases v.len(),
{
    if v.len() == 0 {
        Seq::empty()
    } else {
        all_rows(v.drop_last()) + tensor_rows(v.last())
    }
}

/// The sizes of tensors along their first axes, added up.
pub open spec fn first_axes(v: Seq<candle_core::Tensor>) -> int
    decreases v.len(),
{
    if v.len() == 0 {
        0
    } else {
        first_axes(v.drop_last()) + tensor_dims(v.last())[0]
    }
}

/// The bytes of so many rows, as wide as those of a tensor and of its element type.
pub open spec fn row_bytes(t: candle_core::Tensor, rows: int) -> int {
    rows * tensor_dims(t)[1] * dtype_bytes(tensor_dtype(t))
}

/// Whether two tensors can be laid end to end: their rows are alike.
pub open spec fn stackable(a: candle_core::Tensor, b: candle_core::Tensor) -> bool {
    tensor_dims(a)[1] == tensor_dims(b)[1] && tensor_dtype(a) == tensor_dtype(b)
}

/// `Tensor::cat` of rows along the first axis: where it succeeds, the result has the rows of
/// all parts in order, as wide as the first part's and of its element type. It succeeds for
/// parts that the CPU holds and whose rows are alike. Of other devices it is not stated when it
/// succeeds: allocating and copying there may fail. No part may be empty, and the result has to
/// fit the address space.
#[verifier::external_body]
fn cat_rows(parts: &Vec<candle_core::Tensor>) -> (r: Result<
    candle_core::Tensor,
    candle_core::Error,
>)
    requires
        forall|i: int| 0 <= i < parts@.len() ==> sheet(#[trigger] parts@[i]),
        first_axes(parts@) <= usize::MAX,
        parts@.len() > 0 ==> {
            &&& first_axes(parts@) * tensor_dims(parts@[0])[1] <= isize::MAX
            &&& row_bytes(parts@[0], first_axes(parts@)) <= isize::MAX
        },
    ensures
        r matches Ok(v) ==> {
            &&& parts@.len() > 0
            &&& tensor_rows(v) == all_rows(parts@)
            &&& tensor_dtype(v) == tensor_dtype(parts@[0])
            &&& tensor_dims(v) == seq![first_axes(parts@) as usize, tensor_dims(parts@[0])[1]]
        },
        parts@.len() > 0 && (forall|i: int|
            0 <= i < parts@.len() ==> tensor_on_cpu(#[trigger] parts@[i]) && stackable(
                parts@[0],
                parts@[i],
            )) ==> r is Ok,
{
    candle_core::Tensor::cat(parts, 0)
}

/// `Tensor::clone`: another handle of the same tensor.
#[verifier::external_body]
fn share(t: &candle_core::Tensor) -> (r: candle_core::Tensor)
    ensures
        tensor_dims(r) == tensor_dims(*t),
        tensor_rows(r) == tensor_rows(*t),
        tensor_dtype(r) == tensor_dtype(*t),
        tensor_on_cpu(r) == tensor_on_cpu(*t),
{
    t.clone()
}

/// The embeddings of one image or sound, and where its placeholders begin.
pub struct MmItem {
    pub modality: Modality,
    pub position: usize,
    pub embedding: candle_core::Tensor,
}

/// What the check of an item looks at.
pub struct ItemFacts {
    pub modality: Modality,
    pub position: usize,
    pub dims: Vec<usize>,
    /// The element type is that of the text.
    pub same_dtype: bool,
}

/// Why embeddings cannot be put in place. Runs and items are named by their number.
#[derive(Clone, Copy, Debug, PartialEq, Eq, Structural)]
pub enum SpliceError {
    TextShape,
    RowCount,
    /// This many runs have no embeddings at all.
    NoItems(usize),
    ItemCount,
    Position(usize),
    Kind(usize),
    Shape(usize),
    Length(usize),
    ElementType(usize),
    /// The result would not fit the address space.
    TooLarge,
    /// The tensor library refused to join the parts.
    Join,
}

/// A part of the result: rows of the text, or an item.
#[derive(Clone, Copy, Debug, PartialEq, Eq, Structural)]
pub enum Piece {
    Text { start: usize, len: usize },
    Item(usize),
}

/// The items in the order of their positions; items at one position stay in order.
pub open spec fn in_order(order: Seq<usize>, items: Seq<ItemFacts>) -> bool {
    &&& order.len() == items.len()
    &&& forall|i: int| 0 <= i < order.len() ==> #[trigger] order[i] < items.len()
    &&& forall|i: int, j: int|
        0 <= i < j < order.len() ==> ordered(items, (#[trigger] order[i]) as int, (
        #[trigger] order[j]) as int)
}

pub open spec fn ordered(items: Seq<ItemFacts>, a: int, b: int) -> bool {
    ||| items[a].position < items[b].position
    ||| items[a].position == items[b].position && a < b
}

fn position_order(items: &Vec<ItemFacts>) -> (r: Vec<usize>)
    ensures
        in_order(r@, items@),
{
    let n: usize = items.len();
    let mut r: Vec<usize> = Vec::new();
    let mut k: usize = 0;
    while k < n
        invariant
            n == items@.len(),
            k <= n,
            r@.len() == k,
            forall|i: int| 0 <= i < k ==> #[trigger] r@[i] < k,
            forall|i: int, j: int|
                0 <= i < j < k ==> ordered(
                    items@,
                    (#[trigger] r@[i]) as int,
                    (#[trigger] r@[j]) as int,
                ),
        decreases n - k,
    {
        let at: usize = items[k].position;
        let mut p: usize = 0;
        while p < k && items[r[p]].position <= at
            invariant
                n == items@.len(),
                k < n,
                p <= k,
                r@.len() == k,
                at == items@[k as int].position,
                forall|i: int| 0 <= i < k ==> #[trigger] r@[i] < k,
                forall|i: int| 0 <= i < p ==> items@[(#[trigger] r@[i]) as int].position <= at,
            decreases k - p,
        {
            p = p + 1;
        }
        let ghost before = r@;
        r.insert(p, k);
        proof {
            assert forall|i: int, j: int| 0 <= i < j < k + 1 implies ordered(
                items@,
                (#[trigger] r@[i]) as int,
                (#[trigger] r@[j]) as int,
            ) by {
                if j == p {
                    assert(r@[i] == before[i]);
                } else if i == p {
                    assert(r@[j] == before[j - 1]);
                    if j - 1 > p {
                        assert(ordered(items@, before[p as int] as int, before[j - 1] as int));
                    }
                } else {
                    let a = if i < p { i } else { i - 1 };
                    let b = if j < p { j } else { j - 1 };
                    assert(r@[i] == before[a] && r@[j] == before[b]);
                }
            }
            assert forall|i: int| 0 <= i < k + 1 implies #[trigger] r@[i] < k + 1 by {
                if i < p {
                    assert(r@[i] == before[i]);
                } else if i > p {
                    assert(r@[i] == before[i - 1]);
                }
            }
        }
        k = k + 1;
    }
    r
}

/// What is wrong with giving an item to a run.
pub open spec fn item_error(run: PlaceholderRun, it: ItemFacts, hidden: usize, i: int) -> Option<
    SpliceError,
> {
    if it.position != run.start {
        Some(SpliceError::Position(i as usize))
    } else if it.modality != run.modality {
        Some(SpliceError::Kind(i as usize))
    } else if it.dims@.len() != 2 || it.dims@[1] != hidden {
        Some(SpliceError::Shape(i as usize))
    } else if it.dims@[0] != run.len {
        Some(SpliceError::Length(i as usize))
    } else if !it.same_dtype {
        Some(SpliceError::ElementType(i as usize))
    } else {
        None
    }
}

/// The first run from `i` on that cannot take the item at its place in the order.
pub open spec fn items_error(
    runs: Seq<PlaceholderRun>,
    items: Seq<ItemFacts>,
    order: Seq<usize>,
    hidden: usize,
    i: int,
) -> Option<SpliceError>
    decreases runs.len() - i,
{
    if i < 0 || i >= runs.len() {
        None
    } else if item_error(runs[i], items[order[i] as int], hidden, i) is Some {
        item_error(runs[i], items[order[i] as int], hidden, i)
    } else {
        items_error(runs, items, order, hidden, i + 1)
    }
}

/// The parts of the result up to run `n`: the text before each run, then its item.
pub open spec fn pieces_to(runs: Seq<PlaceholderRun>, order: Seq<usize>, n: int) -> Seq<Piece>
    decreases n,
{
    if n <= 0 {
        Seq::empty()
    } else {
        let from = text_from(runs, n - 1);
        let s = pieces_to(runs, order, n - 1);
        let r = runs[n - 1];
        let s = if r.start > from {
            s.push(Piece::Text { start: from as usize, len: (r.start - from) as usize })
        } else {
            s
        };
        s.push(Piece::Item(order[n - 1]))
    }
}

/// Where the text after run `n - 1` begins.
pub open spec fn text_from(runs: Seq<PlaceholderRun>, n: int) -> int {
    if n <= 0 { 0 } else { runs[n - 1].start + runs[n - 1].len }
}

/// All parts of the result: the runs' parts and the text after the last run.
pub open spec fn pieces_of(runs: Seq<PlaceholderRun>, order: Seq<usize>, seq: int) -> Seq<Piece> {
    let n = runs.len() as int;
    let from = text_from(runs, n);
    if from < seq {
        pieces_to(runs, order, n).push(
            Piece::Text { start: from as usize, len: (seq - from) as usize },
        )
    } else {
        pieces_to(runs, order, n)
    }
}

/// Why a splice is refused before any tensor is touched.
pub open spec fn splice_error(
    dims: Seq<usize>,
    tokens: Seq<u32>,
    items: Seq<ItemFacts>,
    order: Seq<usize>,
) -> Option<SpliceError> {
    let runs = runs_from(tokens, 0);
    if dims.len() != 2 {
        Some(SpliceError::TextShape)
    } else if dims[0] != tokens.len() {
        Some(SpliceError::RowCount)
    } else if items.len() == 0 && runs.len() > 0 {
        Some(SpliceError::NoItems(runs.len() as usize))
    } else if items.len() != runs.len() {
        Some(SpliceError::ItemCount)
    } else {
        items_error(runs, items, order, dims[1], 0)
    }
}

/// Whether `plan` says which parts make up the result.
pub open spec fn is_plan(
    plan: Result<Vec<Piece>, SpliceError>,
    dims: Seq<usize>,
    tokens: Seq<u32>,
    items: Seq<ItemFacts>,
) -> bool {
    exists|order: Seq<usize>| #[trigger]
        in_order(order, items) && match plan {
            Err(e) => splice_error(dims, tokens, items, order) == Some(e),
            Ok(p) => {
                &&& splice_error(dims, tokens, items, order) is None
                &&& p@ == pieces_of(runs_from(tokens, 0), order, tokens.len() as int)
            },
        }
}

/// Plans a splice from the shapes alone.
pub fn plan_splice(dims: &Vec<usize>, tokens: &[u32], items: &Vec<ItemFacts>) -> (r: Result<
    Vec<Piece>,
    SpliceError,
>)
    ensures
        is_plan(r, dims@, tokens@, items@),
{
    let order = position_order(items);
    assert(in_order(order@, items@));
    if dims.len() != 2 {
        return Err(SpliceError::TextShape);
    }
    let seq: usize = dims[0];
    let hidden: usize = dims[1];
    if seq != tokens.len() {
        return Err(SpliceError::RowCount);
    }
    let runs = placeholder_runs(tokens);
    if items.len() == 0 && runs.len() > 0 {
        return Err(SpliceError::NoItems(runs.len()));
    }
    if items.len() != runs.len() {
        return Err(SpliceError::ItemCount);
    }
    let mut pieces: Vec<Piece> = Vec::new();
    let mut cursor: usize = 0;
    let mut i: usize = 0;
    while i < runs.len()
        invariant
            i <= runs@.len(),
            runs@ == runs_from(tokens@, 0),
            tokens@.len() <= usize::MAX,
            runs@.len() == items@.len(),
            in_order(order@, items@),
            cursor == text_from(runs@, i as int),
            cursor <= tokens@.len(),
            pieces@ == pieces_to(runs@, order@, i as int),
            items_error(runs@, items@, order@, hidden, 0) == items_error(
                runs@,
                items@,
                order@,
                hidden,
                i as int,
            ),
            splice_error(dims@, tokens@, items@, order@) == items_error(
                runs@,
                items@,
                order@,
                hidden,
                0,
            ),
        decreases runs@.len() - i,
    {
        let run = runs[i];
        proof {
            crate::mm_splice::law_runs_maximal(tokens@, i as int);
            assert(order@[i as int] < items@.len());
        }
        let it = &items[order[i]];
        if it.position != run.start {
            return Err(SpliceError::Position(i));
        }
        if it.modality != run.modality {
            return Err(SpliceError::Kind(i));
        }
        if it.dims.len() != 2 || it.dims[1] != hidden {
            return Err(SpliceError::Shape(i));
        }
        if it.dims[0] != run.len {
            return Err(SpliceError::Length(i));
        }
        if !it.same_dtype {
            return Err(SpliceError::ElementType(i));
        }
        if run.start > cursor {
            pieces.push(Piece::Text { start: cursor, len: run.start - cursor });
        }
        pieces.push(Piece::Item(order[i]));
        cursor = run.start + run.len;
        i = i + 1;
    }
    if cursor < seq {
        pieces.push(Piece::Text { start: cursor, len: seq - cursor });
    }
    Ok(pieces)
}

/// Whether `facts` describe the items next to a text.
pub open spec fn describes(facts: Seq<ItemFacts>, text: candle_core::Tensor, items: Seq<MmItem>) -> bool {
    &&& facts.len() == items.len()
    &&& forall|i: int|
        0 <= i < items.len() ==> {
            &&& (#[trigger] facts[i]).modality == items[i].modality
            &&& facts[i].position == items[i].position
            &&& facts[i].dims@ == tensor_dims(items[i].embedding)
            &&& facts[i].same_dtype == (tensor_dtype(items[i].embedding) == tensor_dtype(text))
        }
}

/// The rows of a part of the result.
pub open spec fn piece_rows(p: Piece, text: Seq<Seq<int>>, items: Seq<MmItem>) -> Seq<Seq<int>> {
    match p {
        Piece::Text { start, len } => text.subrange(start as int, start + len),
        Piece::Item(i) => tensor_rows(items[i as int].embedding),
    }
}

/// The rows of the first `n` parts one after the other.
pub open spec fn joined(p: Seq<Piece>, text: Seq<Seq<int>>, items: Seq<MmItem>, n: int) -> Seq<
    Seq<int>,
>
    decreases n,
{
    if n <= 0 {
        Seq::empty()
    } else {
        joined(p, text, items, n - 1) + piece_rows(p[n - 1], text, items)
    }
}

/// Whether `r` is the outcome of a splice: the first thing wrong with the inputs, or the text
/// with the items in place of their placeholders, of the text's sizes and element type. Besides
/// that the result may not fit the address space, and joining the parts may fail, but not where
/// the CPU holds them all.
pub open spec fn is_spliced(
    r: Result<candle_core::Tensor, SpliceError>,
    text: candle_core::Tensor,
    tokens: Seq<u32>,
    items: Seq<MmItem>,
    facts: Seq<ItemFacts>,
    order: Seq<usize>,
) -> bool {
    let bad = splice_error(tensor_dims(text), tokens, facts, order);
    let pieces = pieces_of(runs_from(tokens, 0), order, tokens.len() as int);
    &&& describes(facts, text, items)
    &&& in_order(order, facts)
    &&& match r {
        Ok(v) => {
            &&& bad is None
            &&& items.len() > 0 ==> joinable(text)
            &&& tensor_dims(v) == tensor_dims(text)
            &&& tensor_dtype(v) == tensor_dtype(text)
            &&& tensor_rows(v) == joined(pieces, tensor_rows(text), items, pieces.len() as int)
            &&& tensor_rows(text).len() == tokens.len()
            &&& one_row_each(runs_from(tokens, 0), items, order)
        },
        Err(SpliceError::TooLarge) => bad is None && items.len() > 0 && !joinable(text),
        Err(SpliceError::Join) => {
            &&& bad is None
            &&& items.len() > 0
            &&& joinable(text)
            &&& tensor_dims(text)[1] > 0
            &&& !all_on_cpu(text, items)
        },
        Err(e) => bad == Some(e),
    }
}

/// Another tensor of the text's sizes and element type would fit the address space.
pub open spec fn joinable(text: candle_core::Tensor) -> bool {
    let rows = tensor_dims(text)[0] as int;
    rows * tensor_dims(text)[1] <= isize::MAX && row_bytes(text, rows) <= isize::MAX
}

/// The CPU holds the text and every item.
pub open spec fn all_on_cpu(text: candle_core::Tensor, items: Seq<MmItem>) -> bool {
    &&& tensor_on_cpu(text)
    &&& forall|i: int| 0 <= i < items.len() ==> tensor_on_cpu((#[trigger] items[i]).embedding)
}

/// Whether `r` is the outcome of a splice with the items in the order of their positions.
pub open spec fn spliced(
    r: Result<candle_core::Tensor, SpliceError>,
    text: candle_core::Tensor,
    tokens: Seq<u32>,
    items: Seq<MmItem>,
) -> bool {
    exists|facts: Seq<ItemFacts>, order: Seq<usize>| #[trigger]
        is_spliced(r, text, tokens, items, facts, order)
}

/// Each run is given as many rows as it has placeholders.
pub open spec fn one_row_each(
    runs: Seq<PlaceholderRun>,
    items: Seq<MmItem>,
    order: Seq<usize>,
) -> bool {
    &&& order.len() == runs.len()
    &&& forall|i: int|
        0 <= i < order.len() ==> (#[trigger] order[i]) < items.len() && tensor_rows(
            items[order[i] as int].embedding,
        ).len() == runs[i].len
}

/// A tensor of rows as wide as the text's, of its element type.
spec fn fits_text(text: candle_core::Tensor, t: candle_core::Tensor) -> bool {
    &&& tensor_dims(t).len() == 2
    &&& tensor_dims(t)[0] > 0
    &&& tensor_dims(t)[1] == tensor_dims(text)[1]
    &&& tensor_dtype(t) == tensor_dtype(text)
    &&& tensor_rows(t).len() == tensor_dims(t)[0]
}

/// An order of the items holds every item.
proof fn lemma_order_covers(order: Seq<usize>, items: Seq<ItemFacts>, k: int)
    requires
        in_order(order, items),
        0 <= k < items.len(),
    ensures
        exists|i: int| 0 <= i < order.len() && #[trigger] order[i] == k,
{
    let n = order.len() as int;
    let all = order.map_values(|x: usize| x as int);
    assert(all.no_duplicates()) by {
        assert forall|i: int, j: int| 0 <= i < n && 0 <= j < n && i != j implies all[i] != all[j] by {
            if i < j {
                assert(ordered(items, order[i] as int, order[j] as int));
            } else {
                assert(ordered(items, order[j] as int, order[i] as int));
            }
        }
    }
    all.unique_seq_to_set();
    let full = vstd::set_lib::set_int_range(0, n);
    vstd::set_lib::lemma_int_range(0, n);
    assert(all.to_set().subset_of(full)) by {
        assert forall|x: int| all.to_set().contains(x) implies full.contains(x) by {
            let i = choose|i: int| 0 <= i < all.len() && all[i] == x;
            assert(order[i] < items.len());
        }
    }
    vstd::set_lib::lemma_subset_equality(all.to_set(), full);
    assert(full.contains(k));
    let i = choose|i: int| 0 <= i < all.len() && all[i] == k;
    assert(order[i] == k);
}

proof fn lemma_items_ok(
    runs: Seq<PlaceholderRun>,
    facts: Seq<ItemFacts>,
    order: Seq<usize>,
    hidden: usize,
    i: int,
    k: int,
)
    requires
        items_error(runs, facts, order, hidden, i) is None,
        0 <= i <= k < runs.len(),
    ensures
        item_error(runs[k], facts[order[k] as int], hidden, k) is None,
    decreases runs.len() - i,
{
    if i < k {
        lemma_items_ok(runs, facts, order, hidden, i + 1, k);
    }
}

fn describe(text: &candle_core::Tensor, items: &[MmItem]) -> (r: Vec<ItemFacts>)
    ensures
        describes(r@, *text, items@),
        forall|i: int|
            #![trigger items@[i]]
            0 <= i < items@.len() && tensor_dims(items@[i].embedding).len() > 0 ==> tensor_rows(
                items@[i].embedding,
            ).len() == tensor_dims(items@[i].embedding)[0],
        forall|i: int|
            #![trigger items@[i]]
            0 <= i < items@.len() && tensor_dims(items@[i].embedding).len() == 2 && tensor_dims(
                items@[i].embedding,
            )[1] == 0 ==> all_empty(tensor_rows(items@[i].embedding)),
{
    let mut r: Vec<ItemFacts> = Vec::new();
    let mut i: usize = 0;
    while i < items.len()
        invariant
            i <= items@.len(),
            describes(r@, *text, items@.take(i as int)),
            forall|j: int|
                #![trigger items@[j]]
                0 <= j < i && tensor_dims(items@[j].embedding).len() > 0 ==> tensor_rows(
                    items@[j].embedding,
                ).len() == tensor_dims(items@[j].embedding)[0],
            forall|j: int|
                #![trigger items@[j]]
                0 <= j < i && tensor_dims(items@[j].embedding).len() == 2 && tensor_dims(
                    items@[j].embedding,
                )[1] == 0 ==> all_empty(tensor_rows(items@[j].embedding)),
        decreases items@.len() - i,
    {
        let it = &items[i];
        let ghost before = r@;
        r.push(
            ItemFacts {
                modality: it.modality,
                position: it.position,
                dims: dims_of(&it.embedding),
                same_dtype: same_dtype(&it.embedding, text),
            },
        );
        i = i + 1;
        proof {
            let a = items@.take(i - 1);
            let b = items@.take(i as int);
            assert forall|j: int| 0 <= j < b.len() implies {
                &&& (#[trigger] r@[j]).modality == b[j].modality
                &&& r@[j].position == b[j].position
                &&& r@[j].dims@ == tensor_dims(b[j].embedding)
                &&& r@[j].same_dtype == (tensor_dtype(b[j].embedding) == tensor_dtype(*text))
            } by {
                if j < i - 1 {
                    assert(r@[j] == before[j]);
                    assert(a[j] == b[j]);
                }
            }
        }
    }
    assert(items@.take(i as int) =~= items@);
    r
}

proof fn lemma_pieces_within(runs: Seq<PlaceholderRun>, order: Seq<usize>, t: Seq<u32>, n: int, k: int)
    requires
        runs == runs_from(t, 0),
        t.len() <= usize::MAX,
        order.len() == runs.len(),
        0 <= n <= runs.len(),
        0 <= k < pieces_to(runs, order, n).len(),
        forall|i: int| 0 <= i < order.len() ==> #[trigger] order[i] < order.len(),
    ensures
        match pieces_to(runs, order, n)[k] {
            Piece::Text { start, len } => 0 < len && start + len <= t.len(),
            Piece::Item(i) => i < order.len(),
        },
    decreases n,
{
    if n > 0 {
        crate::mm_splice::law_runs_maximal(t, n - 1);
        if n > 1 {
            crate::mm_splice::law_runs_maximal(t, n - 2);
        }
        let s = pieces_to(runs, order, n - 1);
        if k < s.len() {
            lemma_pieces_within(runs, order, t, n - 1, k);
            assert(pieces_to(runs, order, n)[k] == s[k]);
        }
    }
}

/// Every part of a plan lies within the text or the items.
proof fn lemma_plan_within(runs: Seq<PlaceholderRun>, order: Seq<usize>, t: Seq<u32>, k: int)
    requires
        runs == runs_from(t, 0),
        t.len() <= usize::MAX,
        order.len() == runs.len(),
        0 <= k < pieces_of(runs, order, t.len() as int).len(),
        forall|i: int| 0 <= i < order.len() ==> #[trigger] order[i] < order.len(),
    ensures
        match pieces_of(runs, order, t.len() as int)[k] {
            Piece::Text { start, len } => 0 < len && start + len <= t.len(),
            Piece::Item(i) => i < order.len(),
        },
{
    let n = runs.len() as int;
    if n > 0 {
        crate::mm_splice::law_runs_maximal(t, n - 1);
    }
    if k < pieces_to(runs, order, n).len() {
        lemma_pieces_within(runs, order, t, n, k);
    }
}

/// Whether so many rows of so many elements of a size fit the address space.
fn result_fits(rows: usize, width: usize, bytes: usize) -> (r: bool)
    ensures
        r == (rows * width <= isize::MAX && rows * width * bytes <= isize::MAX),
{
    let most: usize = isize::MAX as usize;
    match rows.checked_mul(width) {
        None => false,
        Some(n) => n <= most && match n.checked_mul(bytes) {
            None => false,
            Some(b) => b <= most,
        },
    }
}

/// Rows of width zero are the same whatever they are made of.
proof fn lemma_nothing_to_join(
    text: Seq<Seq<int>>,
    tokens: Seq<u32>,
    items: Seq<MmItem>,
    order: Seq<usize>,
)
    requires
        text.len() == tokens.len() <= usize::MAX,
        tokens.len() > 0,
        one_row_each(runs_from(tokens, 0), items, order),
        all_empty(text),
        forall|i: int|
            0 <= i < items.len() ==> all_empty(tensor_rows((#[trigger] items[i]).embedding)),
    ensures
        ({
            let pieces = pieces_of(runs_from(tokens, 0), order, tokens.len() as int);
            joined(pieces, text, items, pieces.len() as int) == text
        }),
{
    let runs = runs_from(tokens, 0);
    let pieces = pieces_of(runs, order, tokens.len() as int);
    let rows = joined(pieces, text, items, pieces.len() as int);
    law_spliced_rows(text, tokens, items, order, 0);
    assert forall|p: int| 0 <= p < tokens.len() implies rows[p] == text[p] by {
        law_spliced_rows(text, tokens, items, order, p);
        if exists|i: int|
            0 <= i < runs.len() && (#[trigger] runs[i]).start <= p < runs[i].start + runs[i].len {
            let i = choose|i: int|
                0 <= i < runs.len() && (#[trigger] runs[i]).start <= p < runs[i].start
                    + runs[i].len;
            assert(order[i] < items.len());
            let it = tensor_rows(items[order[i] as int].embedding);
            assert(it[p - runs[i].start] == Seq::<int>::empty());
        }
    }
    assert(rows =~= text);
}

/// Puts the embeddings of the items in place of the placeholders of a prompt whose text
/// embeddings are `text_embeds`, one row to a token.
pub fn splice_mm_embeddings(
    text_embeds: &candle_core::Tensor,
    tokens: &[u32],
    items: &[MmItem],
) -> (r: Result<candle_core::Tensor, SpliceError>)
    ensures
        spliced(r, *text_embeds, tokens@, items@),
{
    let dims = dims_of(text_embeds);
    let facts = describe(text_embeds, items);
    let plan = plan_splice(&dims, tokens, &facts);
    let ghost order = choose|order: Seq<usize>| #[trigger]
        in_order(order, facts@) && match plan {
            Err(e) => splice_error(dims@, tokens@, facts@, order) == Some(e),
            Ok(p) => {
                &&& splice_error(dims@, tokens@, facts@, order) is None
                &&& p@ == pieces_of(runs_from(tokens@, 0), order, tokens@.len() as int)
            },
        };
    let pieces = match plan {
        Err(e) => {
            let r: Result<candle_core::Tensor, SpliceError> = Err(e);
            proof {
                lemma_not_join(dims@, tokens@, facts@, order);
                assert(is_spliced(r, *text_embeds, tokens@, items@, facts@, order));
            }
            return r;
        },
        Ok(p) => p,
    };
    let ghost runs = runs_from(tokens@, 0);
    let ghost text = tensor_rows(*text_embeds);
    proof {
        assert forall|i: int| 0 <= i < order.len() implies (#[trigger] order[i]) < items@.len()
            && tensor_rows(items@[order[i] as int].embedding).len() == runs[i].len by {
            lemma_items_ok(runs, facts@, order, dims@[1], 0, i);
            let it = items@[order[i] as int];
            assert(facts@[order[i] as int].dims@ == tensor_dims(it.embedding));
        }
        assert(one_row_each(runs, items@, order));
    }
    if items.len() == 0 {
        let v = share(text_embeds);
        let r: Result<candle_core::Tensor, SpliceError> = Ok(v);
        proof {
            assert(runs.len() == 0);
            assert(pieces_to(runs, order, 0) =~= Seq::empty());
            if tokens@.len() > 0 {
                assert(pieces@ =~= seq![
                    Piece::Text { start: 0, len: tokens@.len() as usize },
                ]);
                assert(joined(pieces@, text, items@, 0) =~= Seq::empty());
                assert(text.subrange(0, tokens@.len() as int) =~= text);
                assert(joined(pieces@, text, items@, 1) =~= text);
            } else {
                assert(pieces@ =~= Seq::empty());
                assert(joined(pieces@, text, items@, 0) =~= text);
            }
            assert(is_spliced(r, *text_embeds, tokens@, items@, facts@, order));
        }
        return r;
    }
    proof {
        assert forall|j: int|
            #![trigger items@[j]]
            0 <= j < items@.len() implies fits_text(*text_embeds, items@[j].embedding) by {
            lemma_order_covers(order, facts@, j);
            let k = choose|k: int| 0 <= k < order.len() && #[trigger] order[k] == j;
            lemma_items_ok(runs, facts@, order, dims@[1], 0, k);
            crate::mm_splice::law_runs_maximal(tokens@, k);
            assert(facts@[j].dims@ == tensor_dims(items@[j].embedding));
        }
    }
    let hidden: usize = dims[1];
    if hidden == 0 {
        let v = share(text_embeds);
        let r: Result<candle_core::Tensor, SpliceError> = Ok(v);
        proof {
            lemma_nothing_to_join(text, tokens@, items@, order);
            assert(joinable(*text_embeds)) by (nonlinear_arith)
                requires
                    tensor_dims(*text_embeds)[1] == 0,
            ;
            assert(is_spliced(r, *text_embeds, tokens@, items@, facts@, order));
        }
        return r;
    }
    if !result_fits(dims[0], hidden, elem_bytes(text_embeds)) {
        let r: Result<candle_core::Tensor, SpliceError> = Err(SpliceError::TooLarge);
        assert(is_spliced(r, *text_embeds, tokens@, items@, facts@, order));
        return r;
    }
    let mut parts: Vec<candle_core::Tensor> = Vec::new();
    let mut i: usize = 0;
    while i < pieces.len()
        invariant
            i <= pieces@.len(),
            parts@.len() == i,
            text == tensor_rows(*text_embeds),
            runs == runs_from(tokens@, 0),
            tokens@.len() <= usize::MAX,
            dims@ == tensor_dims(*text_embeds),
            dims@.len() == 2,
            dims@[0] == tokens@.len(),
            items@.len() == runs.len(),
            facts@.len() == items@.len(),
            in_order(order, facts@),
            describes(facts@, *text_embeds, items@),
            splice_error(dims@, tokens@, facts@, order) is None,
            pieces@ == pieces_of(runs, order, tokens@.len() as int),
            one_row_each(runs, items@, order),
            items@.len() > 0,
            tokens@.len() > 0,
            dims@[1] > 0,
            joinable(*text_embeds),
            text.len() == tokens@.len(),
            forall|j: int|
                #![trigger items@[j]]
                0 <= j < items@.len() ==> fits_text(*text_embeds, items@[j].embedding),
            forall|j: int|
                #![trigger parts@[j]]
                0 <= j < i ==> {
                    &&& fits_text(*text_embeds, parts@[j])
                    &&& all_on_cpu(*text_embeds, items@) ==> tensor_on_cpu(parts@[j])
                },
            first_axes(parts@) == all_rows(parts@).len(),
            all_rows(parts@) == joined(pieces@, text, items@, i as int),
        decreases pieces@.len() - i,
    {
        proof {
            lemma_plan_within(runs, order, tokens@, i as int);
        }
        let part = match pieces[i] {
            Piece::Text { start, len } => match narrow_rows(text_embeds, start, len) {
                Ok(v) => v,
                Err(_) => {
                    let r: Result<candle_core::Tensor, SpliceError> = Err(SpliceError::Join);
                    assert(is_spliced(r, *text_embeds, tokens@, items@, facts@, order));
                    return r;
                },
            },
            Piece::Item(k) => share(&items[k].embedding),
        };
        let ghost before = parts@;
        parts.push(part);
        proof {
            assert(parts@.drop_last() =~= before);
            assert(parts@.last() == part);
            assert(fits_text(*text_embeds, part));
        }
        i = i + 1;
    }
    proof {
        if tokens@.len() > 0 {
            law_spliced_rows(text, tokens@, items@, order, 0);
        }
        assert(first_axes(parts@) == tokens@.len());
        assert forall|j: int| 0 <= j < parts@.len() implies stackable(
            parts@[0],
            #[trigger] parts@[j],
        ) by {
            assert(fits_text(*text_embeds, parts@[0]));
        }
        if parts@.len() > 0 {
            assert(seq![tokens@.len() as usize, tensor_dims(parts@[0])[1]] =~= tensor_dims(
                *text_embeds,
            ));
        }
    }
    let r: Result<candle_core::Tensor, SpliceError> = match cat_rows(&parts) {
        Ok(v) => Ok(v),
        Err(_) => Err(SpliceError::Join),
    };
    assert(is_spliced(r, *text_embeds, tokens@, items@, facts@, order));
    r
}

proof fn lemma_not_join(dims: Seq<usize>, tokens: Seq<u32>, facts: Seq<ItemFacts>, order: Seq<usize>)
    ensures
        splice_error(dims, tokens, facts, order) != Some(SpliceError::Join),
        splice_error(dims, tokens, facts, order) != Some(SpliceError::TooLarge),
{
    if dims.len() == 2 {
        lemma_items_not_join(runs_from(tokens, 0), facts, order, dims[1], 0);
    }
}

proof fn lemma_items_not_join(
    runs: Seq<PlaceholderRun>,
    facts: Seq<ItemFacts>,
    order: Seq<usize>,
    hidden: usize,
    i: int,
)
    ensures
        items_error(runs, facts, order, hidden, i) != Some(SpliceError::Join),
        items_error(runs, facts, order, hidden, i) != Some(SpliceError::TooLarge),
    decreases runs.len() - i,
{
    if 0 <= i < runs.len() {
        lemma_items_not_join(runs, facts, order, hidden, i + 1);
    }
}

/// A splice keeps one row to a token: a token outside every run keeps its text row, and token
/// `j` of run `i` gets row `j` of the item that was given for the run.
pub proof fn law_spliced_rows(
    text: Seq<Seq<int>>,
    tokens: Seq<u32>,
    items: Seq<MmItem>,
    order: Seq<usize>,
    p: int,
)
    requires
        text.len() == tokens.len() <= usize::MAX,
        one_row_each(runs_from(tokens, 0), items, order),
        0 <= p < tokens.len(),
    ensures
        ({
            let runs = runs_from(tokens, 0);
            let pieces = pieces_of(runs, order, tokens.len() as int);
            let rows = joined(pieces, text, items, pieces.len() as int);
            &&& rows.len() == tokens.len()
            &&& forall|i: int|
                0 <= i < runs.len() && (#[trigger] runs[i]).start <= p < runs[i].start + runs[i].len
                    ==> rows[p] == tensor_rows(items[order[i] as int].embedding)[p - runs[i].start]
            &&& (forall|i: int|
                0 <= i < runs.len() ==> !((#[trigger] runs[i]).start <= p < runs[i].start
                    + runs[i].len)) ==> rows[p] == text[p]
        }),
{
    let runs = runs_from(tokens, 0);
    let n = runs.len() as int;
    let seq = tokens.len() as int;
    let part = pieces_to(runs, order, n);
    let pieces = pieces_of(runs, order, seq);
    lemma_joined(text, tokens, items, order, n, p);
    if n > 0 {
        crate::mm_splice::law_runs_maximal(tokens, n - 1);
    }
    let from = text_from(runs, n);
    if from < seq {
        lemma_joined_prefix(pieces, part, text, items, part.len() as int);
        assert forall|i: int|
            0 <= i < n && (#[trigger] runs[i]).start <= p < runs[i].start + runs[i].len implies p
            < from by {
            lemma_runs_before(tokens, i, n - 1);
        }
    }
}

proof fn lemma_runs_before(t: Seq<u32>, i: int, j: int)
    requires
        t.len() <= usize::MAX,
        0 <= i <= j < runs_from(t, 0).len(),
    ensures
        runs_from(t, 0)[i].start + runs_from(t, 0)[i].len <= runs_from(t, 0)[j].start
            + runs_from(t, 0)[j].len,
        i < j ==> runs_from(t, 0)[i].start + runs_from(t, 0)[i].len <= runs_from(t, 0)[j].start,
    decreases j - i,
{
    if i < j {
        lemma_runs_before(t, i, j - 1);
        crate::mm_splice::law_runs_maximal(t, j - 1);
        crate::mm_splice::law_runs_maximal(t, j);
    }
}

proof fn lemma_joined_prefix(
    a: Seq<Piece>,
    b: Seq<Piece>,
    text: Seq<Seq<int>>,
    items: Seq<MmItem>,
    n: int,
)
    requires
        0 <= n <= b.len() <= a.len(),
        forall|i: int| 0 <= i < n ==> #[trigger] a[i] == b[i],
    ensures
        joined(a, text, items, n) == joined(b, text, items, n),
    decreases n,
{
    if n > 0 {
        lemma_joined_prefix(a, b, text, items, n - 1);
    }
}

/// The parts up to run `n` hold one row for each token before the text that follows it.
proof fn lemma_joined(
    text: Seq<Seq<int>>,
    tokens: Seq<u32>,
    items: Seq<MmItem>,
    order: Seq<usize>,
    n: int,
    p: int,
)
    requires
        text.len() == tokens.len() <= usize::MAX,
        one_row_each(runs_from(tokens, 0), items, order),
        0 <= n <= order.len(),
        0 <= p < tokens.len(),
    ensures
        ({
            let runs = runs_from(tokens, 0);
            let pieces = pieces_to(runs, order, n);
            let rows = joined(pieces, text, items, pieces.len() as int);
            &&& rows.len() == text_from(runs, n)
            &&& text_from(runs, n) <= tokens.len()
            &&& forall|i: int|
                0 <= i < n && (#[trigger] runs[i]).start <= p < runs[i].start + runs[i].len
                    ==> rows[p] == tensor_rows(items[order[i] as int].embedding)[p - runs[i].start]
            &&& (p < text_from(runs, n) && forall|i: int|
                0 <= i < n ==> !((#[trigger] runs[i]).start <= p < runs[i].start + runs[i].len))
                ==> rows[p] == text[p]
        }),
    decreases n,
{
    let runs = runs_from(tokens, 0);
    if n > 0 {
        lemma_joined(text, tokens, items, order, n - 1, p);
        crate::mm_splice::law_runs_maximal(tokens, n - 1);
        if n > 1 {
            crate::mm_splice::law_runs_maximal(tokens, n - 2);
        }
        let from = text_from(runs, n - 1);
        let before = pieces_to(runs, order, n - 1);
        let r = runs[n - 1];
        let all = pieces_to(runs, order, n);
        let rows0 = joined(before, text, items, before.len() as int);
        let item = tensor_rows(items[order[n - 1] as int].embedding);
        assert(item.len() == r.len);
        lemma_joined_prefix(all, before, text, items, before.len() as int);
        let rows = joined(all, text, items, all.len() as int);
        assert(order[n - 1] < items.len());
        if r.start > from {
            let t = text.subrange(from, r.start as int);
            assert(all.len() == before.len() + 2);
            assert(all[before.len() as int] == (Piece::Text {
                start: from as usize,
                len: (r.start - from) as usize,
            }));
            assert(joined(all, text, items, before.len() as int + 1) == rows0 + t);
            assert(rows == rows0 + t + item);
            if from <= p < r.start {
                assert(rows[p] == t[p - from]);
                assert(t[p - from] == text[p]);
            }
        } else {
            assert(all.len() == before.len() + 1);
            assert(rows == rows0 + item);
        }
        assert(rows.len() == r.start + r.len);
        if r.start <= p < r.start + r.len {
            assert(rows[p] == item[p - r.start]);
        } else if p < from {
            assert(rows[p] == rows0[p]);
        }
        assert forall|i: int|
            0 <= i < n && (#[trigger] runs[i]).start <= p < runs[i].start + runs[i].len implies rows[p]
            == tensor_rows(items[order[i] as int].embedding)[p - runs[i].start] by {
            if i < n - 1 {
                lemma_runs_before(tokens, i, n - 2);
            }
        }
    }
}

/// Items that no run refuses stand at the starts of the runs, one each.
proof fn lemma_places(
    tokens: Seq<u32>,
    facts: Seq<ItemFacts>,
    order: Seq<usize>,
    dims: Seq<usize>,
    k: int,
) -> (i: int)
    requires
        tokens.len() <= usize::MAX,
        in_order(order, facts),
        splice_error(dims, tokens, facts, order) is None,
        0 <= k < facts.len(),
    ensures
        0 <= i < runs_from(tokens, 0).len(),
        order[i] == k,
        facts[k].position == runs_from(tokens, 0)[i].start,
{
    lemma_order_covers(order, facts, k);
    let i = choose|i: int| 0 <= i < order.len() && #[trigger] order[i] == k;
    lemma_items_ok(runs_from(tokens, 0), facts, order, dims[1], 0, i);
    i
}

proof fn lemma_starts_differ(t: Seq<u32>, i: int, j: int)
    requires
        t.len() <= usize::MAX,
        0 <= i < j < runs_from(t, 0).len(),
    ensures
        runs_from(t, 0)[i].start < runs_from(t, 0)[j].start,
{
    lemma_runs_before(t, i, j);
    crate::mm_splice::law_runs_maximal(t, i);
}

/// Items in another order are given to the same runs.
proof fn lemma_same_items(
    text: candle_core::Tensor,
    tokens: Seq<u32>,
    a: Seq<MmItem>,
    facts_a: Seq<ItemFacts>,
    order_a: Seq<usize>,
    b: Seq<MmItem>,
    facts_b: Seq<ItemFacts>,
    order_b: Seq<usize>,
)
    requires
        tokens.len() <= usize::MAX,
        describes(facts_a, text, a),
        describes(facts_b, text, b),
        in_order(order_a, facts_a),
        in_order(order_b, facts_b),
        a.to_multiset() == b.to_multiset(),
        splice_error(tensor_dims(text), tokens, facts_a, order_a) is None,
    ensures
        splice_error(tensor_dims(text), tokens, facts_b, order_b) is None,
        forall|i: int|
            #![trigger order_a[i]]
            #![trigger order_b[i]]
            0 <= i < order_a.len() ==> a[order_a[i] as int] == b[order_b[i] as int],
{
    let dims = tensor_dims(text);
    let runs = runs_from(tokens, 0);
    let n = runs.len() as int;
    a.to_multiset_ensures();
    b.to_multiset_ensures();
    assert(a.no_duplicates()) by {
        assert forall|x: int, y: int| 0 <= x < a.len() && 0 <= y < a.len() && x != y implies a[x]
            != a[y] by {
            let i = lemma_places(tokens, facts_a, order_a, dims, x);
            let j = lemma_places(tokens, facts_a, order_a, dims, y);
            if i < j {
                lemma_starts_differ(tokens, i, j);
            } else {
                lemma_starts_differ(tokens, j, i);
            }
            assert(facts_a[x].position == a[x].position && facts_a[y].position == a[y].position);
        }
    }
    a.lemma_multiset_has_no_duplicates();
    b.lemma_multiset_has_no_duplicates_conv();
    // The run of each item of `b` in its order.
    let run_of = |i: int| choose|x: int|
        0 <= x < n && b[order_b[i] as int] == a[(#[trigger] order_a[x]) as int];
    assert forall|i: int| 0 <= i < n implies {
        let x = #[trigger] run_of(i);
        &&& 0 <= x < n
        &&& b[order_b[i] as int] == a[order_a[x] as int]
        &&& b[order_b[i] as int].position == runs[x].start
    } by {
        let it = b[order_b[i] as int];
        assert(order_b[i] < facts_b.len());
        assert(b.contains(it));
        assert(b.to_multiset().count(it) > 0);
        assert(a.contains(it));
        let k = choose|k: int| 0 <= k < a.len() && a[k] == it;
        let x = lemma_places(tokens, facts_a, order_a, dims, k);
        assert(a[order_a[x] as int] == it);
        let y = run_of(i);
        lemma_items_ok(runs, facts_a, order_a, dims[1], 0, y);
        assert(facts_a[order_a[y] as int].position == a[order_a[y] as int].position);
    }
    assert forall|i: int, j: int| 0 <= i < j < n implies #[trigger] run_of(i) < #[trigger] run_of(j) by {
        let x = run_of(i);
        let y = run_of(j);
        assert(order_b[i] < facts_b.len() && order_b[j] < facts_b.len());
        assert(ordered(facts_b, order_b[i] as int, order_b[j] as int));
        assert(facts_b[order_b[i] as int].position == b[order_b[i] as int].position);
        assert(facts_b[order_b[j] as int].position == b[order_b[j] as int].position);
        assert(order_b[i] != order_b[j]);
        assert(b[order_b[i] as int] != b[order_b[j] as int]);
        if y < x {
            lemma_starts_differ(tokens, y, x);
        }
    }
    assert forall|i: int| 0 <= i < n implies #[trigger] run_of(i) == i by {
        lemma_climb(run_of, n, i);
    }
    assert forall|i: int|
        #![trigger order_a[i]]
        #![trigger order_b[i]]
        0 <= i < order_a.len() implies a[order_a[i] as int] == b[order_b[i] as int] by {
        assert(run_of(i) == i);
    }
    assert forall|i: int| 0 <= i < n implies #[trigger] item_error(
        runs[i],
        facts_b[order_b[i] as int],
        dims[1],
        i,
    ) is None by {
        lemma_items_ok(runs, facts_a, order_a, dims[1], 0, i);
        assert(order_a[i] < facts_a.len() && order_b[i] < facts_b.len());
        assert(a[order_a[i] as int] == b[order_b[i] as int]);
        assert(facts_a[order_a[i] as int].modality == facts_b[order_b[i] as int].modality);
    }
    lemma_no_items_error(runs, facts_b, order_b, dims[1], 0);
}

/// Numbers below `n` that climb from each to the next are their own places.
proof fn lemma_climb(f: spec_fn(int) -> int, n: int, i: int)
    requires
        forall|i: int| 0 <= i < n ==> 0 <= #[trigger] f(i) < n,
        forall|i: int, j: int| 0 <= i < j < n ==> #[trigger] f(i) < #[trigger] f(j),
        0 <= i < n,
    ensures
        f(i) == i,
{
    lemma_climb_low(f, n, i);
    lemma_climb_high(f, n, i);
}

proof fn lemma_climb_low(f: spec_fn(int) -> int, n: int, i: int)
    requires
        forall|i: int| 0 <= i < n ==> 0 <= #[trigger] f(i) < n,
        forall|i: int, j: int| 0 <= i < j < n ==> #[trigger] f(i) < #[trigger] f(j),
        0 <= i < n,
    ensures
        f(i) >= i,
    decreases i,
{
    assert(0 <= f(i));
    if i > 0 {
        lemma_climb_low(f, n, i - 1);
        assert(f(i - 1) < f(i));
    }
}

proof fn lemma_climb_high(f: spec_fn(int) -> int, n: int, i: int)
    requires
        forall|i: int| 0 <= i < n ==> 0 <= #[trigger] f(i) < n,
        forall|i: int, j: int| 0 <= i < j < n ==> #[trigger] f(i) < #[trigger] f(j),
        0 <= i < n,
    ensures
        f(i) <= i,
    decreases n - i,
{
    assert(f(i) < n);
    if i + 1 < n {
        lemma_climb_high(f, n, i + 1);
        assert(f(i) < f(i + 1));
    }
}

proof fn lemma_no_items_error(
    runs: Seq<PlaceholderRun>,
    facts: Seq<ItemFacts>,
    order: Seq<usize>,
    hidden: usize,
    i: int,
)
    requires
        0 <= i,
        forall|k: int|
            0 <= k < runs.len() ==> #[trigger] item_error(
                runs[k],
                facts[order[k] as int],
                hidden,
                k,
            ) is None,
    ensures
        items_error(runs, facts, order, hidden, i) is None,
    decreases runs.len() - i,
{
    if i < runs.len() {
        lemma_no_items_error(runs, facts, order, hidden, i + 1);
    }
}

/// The order in which the items are handed over does not matter to a splice: with the same
/// items in any order it is refused or not alike, joins alike where the CPU holds everything,
/// and gives the same rows, sizes and element type.
pub proof fn law_item_order(
    text: candle_core::Tensor,
    tokens: Seq<u32>,
    a: Seq<MmItem>,
    b: Seq<MmItem>,
    of_a: Result<candle_core::Tensor, SpliceError>,
    of_b: Result<candle_core::Tensor, SpliceError>,
)
    requires
        tokens.len() <= usize::MAX,
        a.to_multiset() == b.to_multiset(),
        spliced(of_a, text, tokens, a),
        spliced(of_b, text, tokens, b),
    ensures
        (of_a is Ok || of_a->Err_0 == SpliceError::Join) == (of_b is Ok || of_b->Err_0
            == SpliceError::Join),
        of_a == Err::<candle_core::Tensor, SpliceError>(SpliceError::TooLarge) <==> of_b == Err::<
            candle_core::Tensor,
            SpliceError,
        >(SpliceError::TooLarge),
        all_on_cpu(text, a) == all_on_cpu(text, b),
        all_on_cpu(text, a) ==> of_a is Ok == of_b is Ok,
        of_a is Ok && of_b is Ok ==> {
            &&& tensor_rows(of_a->Ok_0) == tensor_rows(of_b->Ok_0)
            &&& tensor_dims(of_a->Ok_0) == tensor_dims(of_b->Ok_0)
            &&& tensor_dtype(of_a->Ok_0) == tensor_dtype(of_b->Ok_0)
        },
{
    let (facts_a, order_a) = choose|facts: Seq<ItemFacts>, order: Seq<usize>| #[trigger]
        is_spliced(of_a, text, tokens, a, facts, order);
    let (facts_b, order_b) = choose|facts: Seq<ItemFacts>, order: Seq<usize>| #[trigger]
        is_spliced(of_b, text, tokens, b, facts, order);
    let dims = tensor_dims(text);
    a.to_multiset_ensures();
    b.to_multiset_ensures();
    lemma_not_join(dims, tokens, facts_a, order_a);
    lemma_not_join(dims, tokens, facts_b, order_b);
    if splice_error(dims, tokens, facts_a, order_a) is None {
        lemma_same_items(text, tokens, a, facts_a, order_a, b, facts_b, order_b);
    }
    if splice_error(dims, tokens, facts_b, order_b) is None {
        lemma_same_items(text, tokens, b, facts_b, order_b, a, facts_a, order_a);
    }
    if all_on_cpu(text, a) {
        lemma_same_places(text, a, b);
    }
    if all_on_cpu(text, b) {
        lemma_same_places(text, b, a);
    }
    if of_a is Ok && of_b is Ok {
        let rows_a = tensor_rows(of_a->Ok_0);
        let rows_b = tensor_rows(of_b->Ok_0);
        let rows = tensor_rows(text);
        let runs = runs_from(tokens, 0);
        if tokens.len() == 0 {
            assert(runs.len() == 0);
            assert(rows_a =~= rows_b);
        } else {
            law_spliced_rows(rows, tokens, a, order_a, 0);
            law_spliced_rows(rows, tokens, b, order_b, 0);
            assert forall|p: int| 0 <= p < tokens.len() implies rows_a[p] == rows_b[p] by {
                law_spliced_rows(rows, tokens, a, order_a, p);
                law_spliced_rows(rows, tokens, b, order_b, p);
                if exists|i: int|
                    0 <= i < runs.len() && (#[trigger] runs[i]).start <= p < runs[i].start
                        + runs[i].len {
                    let i = choose|i: int|
                        0 <= i < runs.len() && (#[trigger] runs[i]).start <= p < runs[i].start
                            + runs[i].len;
                    assert(a[order_a[i] as int] == b[order_b[i] as int]);
                }
            }
            assert(rows_a =~= rows_b);
        }
    }
}

proof fn lemma_same_places(text: candle_core::Tensor, a: Seq<MmItem>, b: Seq<MmItem>)
    requires
        a.to_multiset() == b.to_multiset(),
        all_on_cpu(text, a),
    ensures
        all_on_cpu(text, b),
{
    a.to_multiset_ensures();
    b.to_multiset_ensures();
    assert forall|i: int| 0 <= i < b.len() implies tensor_on_cpu((#[trigger] b[i]).embedding) by {
        assert(b.contains(b[i]));
        assert(b.to_multiset().count(b[i]) > 0);
        assert(a.contains(b[i]));
        let k = choose|k: int| 0 <= k < a.len() && a[k] == b[i];
        assert(tensor_on_cpu(a[k].embedding));
    }
}

} // verus!
