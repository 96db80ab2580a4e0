//! What the move-suggestion AI is shown of a placement: the hold piece and up
//! to four next pieces, and the occupied cells above the garbage, counted in
//! rows from the garbage line up.

use vstd::prelude::*;
use crate::board_analyzer::{get_garbage_height, garbage_height, MinoType, CELLS};
use crate::replay_response::PlacementStats;

verus! {

/// The letter of a piece kind; none for garbage and empty cells.
pub open spec fn piece_letter(m: MinoType) -> Option<char> {
    match m {
        MinoType::Z => Some('Z'),
        MinoType::L => Some('L'),
        MinoType::O => Some('O'),
        MinoType::S => Some('S'),
        MinoType::I => Some('I'),
        MinoType::J => Some('J'),
        MinoType::T => Some('T'),
        _ => None,
    }
}

/// The letter of a piece kind; none for garbage and empty cells.
pub fn mino_to_color(m: MinoType) -> (r: Option<char>)
    ensures
        r == piece_letter(m),
{
    match m {
        MinoType::Z => Some('Z'),
        MinoType::L => Some('L'),
        MinoType::O => Some('O'),
        MinoType::S => Some('S'),
        MinoType::I => Some('I'),
        MinoType::J => Some('J'),
        MinoType::T => Some('T'),
        _ => None,
    }
}

/// The letters of the pieces of a queue, in order.
pub open spec fn piece_letters(q: Seq<MinoType>) -> Seq<char>
    decreases q.len(),
{
    if q.len() == 0 {
        Seq::empty()
    } else {
        let prev = piece_letters(q.drop_last());
        match piece_letter(q.last()) {
            Some(c) => prev.push(c),
            None => prev,
        }
    }
}

/// The first `k` elements, or all when there are fewer.
pub open spec fn first_n<A>(s: Seq<A>, k: int) -> Seq<A> {
    if s.len() <= k {
        s
    } else {
        s.subrange(0, k)
    }
}

/// The occupied cells among the first `n` cells, as (row counted up from
/// the garbage line, column), in board order.
pub open spec fn matrix_cells(b: Seq<MinoType>, gh: int, n: int) -> Seq<(u16, u16)>
    decreases n,
{
    if n <= 0 {
        Seq::empty()
    } else {
        let prev = matrix_cells(b, gh, n - 1);
        let i = n - 1;
        if b[i] != MinoType::Empty {
            prev.push((((39 - gh) - i / 10) as u16, (i % 10) as u16))
        } else {
            prev
        }
    }
}

/// The occupied cells above the garbage.
pub open spec fn stack_cells(b: Seq<MinoType>) -> Seq<(u16, u16)> {
    let gh = garbage_height(b) as int;
    matrix_cells(b, gh, (40 - gh) * 10)
}

/// What the AI is shown of a placement.
#[derive(Debug)]
pub struct AiSnapshot {
    /// The first piece of the queue, held.
    pub hold: char,
    /// The next up to four pieces.
    pub queue: Vec<char>,
    /// Occupied cells above the garbage, as (row from the garbage line up, column).
    pub cells: Vec<(u16, u16)>,
}

proof fn lemma_garbage_height_at_most(b: Seq<MinoType>, k: int)
    requires
        0 <= k,
    ensures
        crate::board_analyzer::garbage_height_from(b, k) <= 40,
    decreases 40 - k,
{
    if k < 40 {
        lemma_garbage_height_at_most(b, k + 1);
    }
}

/// The AI's view of the placement: the queue's first five pieces, the first
/// one held; none when the queue holds no piece.
pub fn ai_snapshot(p: &PlacementStats) -> (r: Option<AiSnapshot>)
    requires
        p.wf(),
    ensures
        match r {
            None => piece_letters(p.queue@).len() == 0,
            Some(s) => {
                let first = first_n(piece_letters(p.queue@), 5);
                &&& first.len() > 0
                &&& s.hold == first[0]
                &&& s.queue@ == first.drop_first()
                &&& s.cells@ == stack_cells(p.board@)
            },
        },
{
    let ghost q = p.queue@;
    let mut letters: Vec<char> = Vec::new();
    let mut i: usize = 0;
    assert(q.subrange(0, 0) =~= Seq::<MinoType>::empty());
    while i < p.queue.len()
        invariant
            i <= q.len(),
            q == p.queue@,
            letters@ == first_n(piece_letters(q.subrange(0, i as int)), 5),
        decreases q.len() - i,
    {
        let ghost before = piece_letters(q.subrange(0, i as int));
        assert(q.subrange(0, i + 1).drop_last() =~= q.subrange(0, i as int));
        match mino_to_color(p.queue[i]) {
            Some(c) => {
                assert(piece_letters(q.subrange(0, i + 1)) == before.push(c));
                if letters.len() < 5 {
                    letters.push(c);
                } else {
                    assert(before.push(c).subrange(0, 5) =~= before.subrange(0, 5));
                }
            },
            None => {},
        }
        i += 1;
    }
    assert(q.subrange(0, i as int) =~= q);
    if letters.len() == 0 {
        return None;
    }
    let ghost first = letters@;
    let hold = letters.remove(0);
    assert(letters@ =~= first.drop_first());
    let gh = get_garbage_height(&p.board);
    proof {
        lemma_garbage_height_at_most(p.board@, 0);
    }
    let limit: usize = (40 - gh) * 10;
    let mut cells: Vec<(u16, u16)> = Vec::new();
    let mut k: usize = 0;
    while k < limit
        invariant
            k <= limit,
            limit == (40 - gh) * 10,
            gh <= 40,
            p.board@.len() == CELLS,
            cells@ == matrix_cells(p.board@, gh as int, k as int),
        decreases limit - k,
    {
        if p.board[k] != MinoType::Empty {
            let row = (39 - gh - k / 10) as u16;
            let col = (k % 10) as u16;
            cells.push((row, col));
        }
        k += 1;
    }
    Some(AiSnapshot { hold, queue: letters, cells })
}

} // verus!
