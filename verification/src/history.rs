//! Invertible edit descriptions and their undo/redo semantics.
//!
//! A `BufferEditSnapshot` is one byte-range replacement: undoing it puts
//! `deleted_text` where `inserted_text` stands, redoing does the reverse.
//! A `BufferHistoryEntry` groups the snapshots of one undo step in the order
//! they were applied; undo replays them last to first, redo first to last,
//! because each snapshot's byte position is relative to the text as it stood
//! when the snapshot was taken.

use vstd::prelude::*;
use vstd::utf8::decode_utf8;
use vstd::utf8::is_char_boundary;
use vstd::utf8::valid_utf8;

use crate::text::byte_len;
use crate::text::bytes_of;
use crate::text::lemma_bytes_of_concat;
use crate::text::replace_applies;
use crate::text::spec_replace_bytes;

verus! {

/// A single invertible byte-range replacement.
#[derive(Debug, Clone, PartialEq, Eq)]
pub struct BufferEditSnapshot {
    pub start_byte: usize,
    pub deleted_text: String,
    pub inserted_text: String,
}

/// One undo step: the snapshots of one command or one insert session, with
/// the cursor before and after.
#[derive(Debug, Clone, PartialEq, Eq)]
pub struct BufferHistoryEntry {
    pub edits: Vec<BufferEditSnapshot>,
    pub before_cursor: crate::state::CursorState,
    pub after_cursor: crate::state::CursorState,
}

/// Whether undoing this snapshot is possible on the text: the range of its
/// `inserted_text` lies inside the text on character boundaries.
pub open spec fn undo_applies(t: Seq<char>, e: BufferEditSnapshot) -> bool {
    replace_applies(t, e.start_byte as int, byte_len(e.inserted_text@) as int)
}

/// The text after undoing this snapshot.
pub open spec fn undo_text(t: Seq<char>, e: BufferEditSnapshot) -> Seq<char> {
    decode_utf8(
        spec_replace_bytes(
            t,
            e.start_byte as int,
            byte_len(e.inserted_text@) as int,
            e.deleted_text@,
        ),
    )
}

/// Whether redoing this snapshot is possible on the text.
pub open spec fn redo_applies(t: Seq<char>, e: BufferEditSnapshot) -> bool {
    replace_applies(t, e.start_byte as int, byte_len(e.deleted_text@) as int)
}

/// The text after redoing this snapshot.
pub open spec fn redo_text(t: Seq<char>, e: BufferEditSnapshot) -> Seq<char> {
    decode_utf8(
        spec_replace_bytes(
            t,
            e.start_byte as int,
            byte_len(e.deleted_text@) as int,
            e.inserted_text@,
        ),
    )
}

/// Undo applies and the text really holds `inserted_text` at the range.
pub open spec fn undo_matches(t: Seq<char>, e: BufferEditSnapshot) -> bool {
    &&& undo_applies(t, e)
    &&& bytes_of(t).subrange(
        e.start_byte as int,
        e.start_byte + byte_len(e.inserted_text@),
    ) == bytes_of(e.inserted_text@)
}

/// Redo applies and the text really holds `deleted_text` at the range.
pub open spec fn redo_matches(t: Seq<char>, e: BufferEditSnapshot) -> bool {
    &&& redo_applies(t, e)
    &&& bytes_of(t).subrange(
        e.start_byte as int,
        e.start_byte + byte_len(e.deleted_text@),
    ) == bytes_of(e.deleted_text@)
}

/// Text after undoing the snapshots with index `i` and above, last first.
pub open spec fn undo_tail(t: Seq<char>, edits: Seq<BufferEditSnapshot>, i: int) -> Seq<char>
    decreases edits.len() - i,
{
    if i < 0 || i >= edits.len() {
        t
    } else {
        undo_text(undo_tail(t, edits, i + 1), edits[i])
    }
}

/// Each of the undo steps from the back down to index `i` applies.
pub open spec fn undo_tail_ok(t: Seq<char>, edits: Seq<BufferEditSnapshot>, i: int) -> bool
    decreases edits.len() - i,
{
    if i < 0 || i >= edits.len() {
        true
    } else {
        undo_tail_ok(t, edits, i + 1) && undo_applies(undo_tail(t, edits, i + 1), edits[i])
    }
}

/// Each of the undo steps from the back down to index `i` matches the text.
pub open spec fn undo_tail_matches(t: Seq<char>, edits: Seq<BufferEditSnapshot>, i: int) -> bool
    decreases edits.len() - i,
{
    if i < 0 || i >= edits.len() {
        true
    } else {
        undo_tail_matches(t, edits, i + 1) && undo_matches(undo_tail(t, edits, i + 1), edits[i])
    }
}

/// Text after undoing a whole entry's snapshots in reverse order.
pub open spec fn undo_entry_text(t: Seq<char>, edits: Seq<BufferEditSnapshot>) -> Seq<char> {
    undo_tail(t, edits, 0)
}

/// Text after redoing the first `i` snapshots in order.
pub open spec fn redo_upto(t: Seq<char>, edits: Seq<BufferEditSnapshot>, i: int) -> Seq<char>
    decreases i,
{
    if i <= 0 {
        t
    } else {
        redo_text(redo_upto(t, edits, i - 1), edits[i - 1])
    }
}

/// Each of the first `i` redo steps applies.
pub open spec fn redo_upto_ok(t: Seq<char>, edits: Seq<BufferEditSnapshot>, i: int) -> bool
    decreases i,
{
    if i <= 0 {
        true
    } else {
        redo_upto_ok(t, edits, i - 1) && redo_applies(redo_upto(t, edits, i - 1), edits[i - 1])
    }
}

/// Each of the first `i` redo steps matches the text it meets.
pub open spec fn redo_upto_matches(t: Seq<char>, edits: Seq<BufferEditSnapshot>, i: int) -> bool
    decreases i,
{
    if i <= 0 {
        true
    } else {
        redo_upto_matches(t, edits, i - 1) && redo_matches(redo_upto(t, edits, i - 1), edits[i - 1])
    }
}

/// Text after redoing a whole entry's snapshots in order.
pub open spec fn redo_entry_text(t: Seq<char>, edits: Seq<BufferEditSnapshot>) -> Seq<char> {
    redo_upto(t, edits, edits.len() as int)
}

/// The entry records exactly the mutation that took `pre` to `post`.
pub open spec fn entry_describes(
    pre: Seq<char>,
    post: Seq<char>,
    edits: Seq<BufferEditSnapshot>,
) -> bool {
    &&& redo_upto_matches(pre, edits, edits.len() as int)
    &&& redo_entry_text(pre, edits) == post
}

proof fn lemma_valid_concat_boundary(p: Seq<u8>, rest: Seq<u8>)
    requires
        valid_utf8(p),
        valid_utf8(rest),
    ensures
        is_char_boundary(p + rest, p.len() as int),
{
    broadcast use vstd::utf8::valid_utf8_concat;
    broadcast use vstd::utf8::is_char_boundary_start_end_of_seq;

    let w = p + rest;
    if rest.len() == 0 {
        assert(w =~= p);
        assert(is_char_boundary(w, w.len() as int));
    } else {
        assert(valid_utf8(w));
        assert(w[p.len() as int] == rest[0]);
        vstd::utf8::is_char_boundary_iff_not_is_continuation_byte(w, p.len() as int);
        vstd::utf8::is_char_boundary_iff_not_is_continuation_byte(rest, 0);
        assert(is_char_boundary(rest, 0));
    }
}

/// Undoing a matching snapshot and then redoing it restores the text, and
/// the redo matches what the undo left behind.
pub proof fn lemma_step_undo_redo(t: Seq<char>, e: BufferEditSnapshot)
    requires
        undo_matches(t, e),
    ensures
        redo_matches(undo_text(t, e), e),
        redo_text(undo_text(t, e), e) == t,
        bytes_of(undo_text(t, e)) == spec_replace_bytes(
            t,
            e.start_byte as int,
            byte_len(e.inserted_text@) as int,
            e.deleted_text@,
        ),
{
    broadcast use vstd::utf8::encode_utf8_valid_utf8;
    broadcast use vstd::utf8::valid_utf8_concat;
    broadcast use vstd::utf8::valid_utf8_split;
    broadcast use vstd::utf8::decode_utf8_encode_utf8;
    broadcast use vstd::utf8::encode_utf8_decode_utf8;
    broadcast use vstd::utf8::is_char_boundary_start_end_of_seq;

    let st = e.start_byte as int;
    let il = byte_len(e.inserted_text@) as int;
    let dl = byte_len(e.deleted_text@) as int;
    let b = bytes_of(t);
    let p = b.take(st);
    let suf = b.skip(st + il);
    let del_b = bytes_of(e.deleted_text@);
    let ins_b = bytes_of(e.inserted_text@);
    let ub = spec_replace_bytes(t, st, il, e.deleted_text@);
    assert(ub == p + del_b + suf);
    assert(valid_utf8(b));
    assert(valid_utf8(p) && valid_utf8(b.skip(st))) by {
        vstd::utf8::valid_utf8_split(b, st);
    }
    assert(valid_utf8(suf)) by {
        assert(is_char_boundary(b.skip(st), il)) by {
            if st + il < b.len() {
                vstd::utf8::is_char_boundary_iff_not_is_continuation_byte(b, st + il);
                vstd::utf8::is_char_boundary_iff_not_is_continuation_byte(b.skip(st), il);
                assert(b.skip(st)[il] == b[st + il]);
            } else {
                assert(il == b.skip(st).len());
            }
        }
        vstd::utf8::valid_utf8_split(b.skip(st), il);
        assert(b.skip(st).skip(il) =~= suf);
    }
    assert(valid_utf8(del_b));
    assert(valid_utf8(ub)) by {
        assert(valid_utf8(p + del_b));
        assert(ub =~= (p + del_b) + suf);
    }
    let u = decode_utf8(ub);
    assert(bytes_of(u) == ub);

    // The redo range sits on boundaries of the undone text.
    assert(is_char_boundary(ub, st)) by {
        lemma_valid_concat_boundary(p, del_b + suf);
        assert(ub =~= p + (del_b + suf));
    }
    assert(is_char_boundary(ub, st + dl)) by {
        lemma_valid_concat_boundary(p + del_b, suf);
        assert(ub =~= (p + del_b) + suf);
    }
    assert(redo_applies(u, e));
    assert(ub.subrange(st, st + dl) =~= del_b);
    assert(redo_matches(u, e));

    // Redo rebuilds the original byte sequence.
    let rb = spec_replace_bytes(u, st, dl, e.inserted_text@);
    assert(ub.take(st) =~= p);
    assert(ub.skip(st + dl) =~= suf);
    assert(b =~= p + ins_b + suf) by {
        assert(b.subrange(st, st + il) == ins_b);
        assert(b =~= b.take(st) + b.subrange(st, st + il) + b.skip(st + il));
    }
    assert(rb =~= b);
    assert(redo_text(u, e) == decode_utf8(b));
    assert(decode_utf8(b) == t);
}

/// Redoing a matching snapshot and then undoing it restores the text.
pub proof fn lemma_step_redo_undo(t: Seq<char>, e: BufferEditSnapshot)
    requires
        redo_matches(t, e),
    ensures
        undo_matches(redo_text(t, e), e),
        undo_text(redo_text(t, e), e) == t,
        bytes_of(redo_text(t, e)) == spec_replace_bytes(
            t,
            e.start_byte as int,
            byte_len(e.deleted_text@) as int,
            e.inserted_text@,
        ),
{
    let swapped = BufferEditSnapshot {
        start_byte: e.start_byte,
        deleted_text: e.inserted_text,
        inserted_text: e.deleted_text,
    };
    assert(undo_matches(t, swapped));
    lemma_step_undo_redo(t, swapped);
    assert(undo_text(t, swapped) == redo_text(t, e));
    assert(redo_text(undo_text(t, swapped), swapped) == undo_text(redo_text(t, e), e));
    assert(redo_matches(undo_text(t, swapped), swapped));
}

/// Undoing a whole entry whose snapshots match, then redoing them in order,
/// reproduces the starting text, and every redo step matches on the way.
pub proof fn lemma_entry_undo_then_redo(t: Seq<char>, edits: Seq<BufferEditSnapshot>, k: int)
    requires
        undo_tail_matches(t, edits, 0),
        0 <= k <= edits.len(),
    ensures
        redo_upto_matches(undo_entry_text(t, edits), edits, k),
        redo_upto(undo_entry_text(t, edits), edits, k) == undo_tail(t, edits, k),
    decreases k,
{
    lemma_undo_tail_matches_suffix(t, edits, 0, k);
    if k > 0 {
        lemma_entry_undo_then_redo(t, edits, k - 1);
        lemma_undo_tail_matches_suffix(t, edits, 0, k - 1);
        assert(undo_matches(undo_tail(t, edits, k), edits[k - 1]));
        lemma_step_undo_redo(undo_tail(t, edits, k), edits[k - 1]);
        assert(undo_tail(t, edits, k - 1) == undo_text(undo_tail(t, edits, k), edits[k - 1]));
        assert(redo_upto(undo_entry_text(t, edits), edits, k) == redo_text(
            undo_tail(t, edits, k - 1),
            edits[k - 1],
        ));
    }
}

proof fn lemma_undo_tail_matches_suffix(
    t: Seq<char>,
    edits: Seq<BufferEditSnapshot>,
    i: int,
    j: int,
)
    requires
        undo_tail_matches(t, edits, i),
        0 <= i <= j,
    ensures
        undo_tail_matches(t, edits, j),
        0 <= j < edits.len() ==> undo_matches(undo_tail(t, edits, j + 1), edits[j]),
    decreases j - i,
{
    if i < j {
        if i < edits.len() {
            lemma_undo_tail_matches_suffix(t, edits, i + 1, j);
        } else {
            assert(undo_tail_matches(t, edits, j));
        }
    }
}

/// Redoing a whole entry whose snapshots match, then undoing them in
/// reverse, reproduces the starting text: every recorded mutation is
/// invertible.
pub proof fn lemma_entry_redo_then_undo(t: Seq<char>, edits: Seq<BufferEditSnapshot>, k: int)
    requires
        redo_upto_matches(t, edits, edits.len() as int),
        0 <= k <= edits.len(),
    ensures
        undo_tail_matches(redo_entry_text(t, edits), edits, k),
        undo_tail(redo_entry_text(t, edits), edits, k) == redo_upto(t, edits, k),
    decreases edits.len() - k,
{
    lemma_redo_upto_matches_prefix(t, edits, edits.len() as int, k);
    if k < edits.len() {
        lemma_entry_redo_then_undo(t, edits, k + 1);
        lemma_redo_upto_matches_prefix(t, edits, edits.len() as int, k + 1);
        assert(redo_matches(redo_upto(t, edits, k), edits[k]));
        lemma_step_redo_undo(redo_upto(t, edits, k), edits[k]);
        assert(redo_upto(t, edits, k + 1) == redo_text(redo_upto(t, edits, k), edits[k]));
        assert(undo_tail(redo_entry_text(t, edits), edits, k) == undo_text(
            redo_upto(t, edits, k + 1),
            edits[k],
        ));
    }
}

proof fn lemma_redo_upto_matches_prefix(
    t: Seq<char>,
    edits: Seq<BufferEditSnapshot>,
    i: int,
    j: int,
)
    requires
        redo_upto_matches(t, edits, i),
        j <= i,
    ensures
        redo_upto_matches(t, edits, j),
        0 < j <= i && j <= edits.len() ==> redo_matches(redo_upto(t, edits, j - 1), edits[j - 1]),
    decreases i - j,
{
    if j < i {
        lemma_redo_upto_matches_prefix(t, edits, i - 1, j);
    }
}


proof fn lemma_undo_tail_ok_suffix(t: Seq<char>, edits: Seq<BufferEditSnapshot>, i: int, j: int)
    requires
        undo_tail_ok(t, edits, i),
        0 <= i <= j,
    ensures
        undo_tail_ok(t, edits, j),
        0 <= j < edits.len() ==> undo_applies(undo_tail(t, edits, j + 1), edits[j]),
    decreases j - i,
{
    if i < j {
        if i < edits.len() {
            lemma_undo_tail_ok_suffix(t, edits, i + 1, j);
        } else {
            assert(undo_tail_ok(t, edits, j));
        }
    }
}

/// A failing undo step at any position refutes the whole chain.
pub proof fn lemma_undo_tail_ok_fails(t: Seq<char>, edits: Seq<BufferEditSnapshot>, j: int)
    requires
        0 <= j < edits.len(),
        !undo_applies(undo_tail(t, edits, j + 1), edits[j]),
    ensures
        !undo_tail_ok(t, edits, 0),
{
    if undo_tail_ok(t, edits, 0) {
        lemma_undo_tail_ok_suffix(t, edits, 0, j);
    }
}

proof fn lemma_redo_upto_ok_prefix(t: Seq<char>, edits: Seq<BufferEditSnapshot>, i: int, j: int)
    requires
        redo_upto_ok(t, edits, i),
        j <= i,
    ensures
        redo_upto_ok(t, edits, j),
        0 < j <= i ==> redo_applies(redo_upto(t, edits, j - 1), edits[j - 1]),
    decreases i - j,
{
    if j < i {
        lemma_redo_upto_ok_prefix(t, edits, i - 1, j);
    }
}

/// A failing redo step at any position refutes the whole chain.
pub proof fn lemma_redo_upto_ok_fails(t: Seq<char>, edits: Seq<BufferEditSnapshot>, j: int, n: int)
    requires
        0 <= j < n,
        !redo_applies(redo_upto(t, edits, j), edits[j]),
    ensures
        !redo_upto_ok(t, edits, n),
{
    if redo_upto_ok(t, edits, n) {
        lemma_redo_upto_ok_prefix(t, edits, n, j + 1);
    }
}


/// Invertibility of a whole history: when each recorded entry describes
/// exactly the mutation that produced the next text, undoing the entries
/// newest-first walks the text back through every earlier state to the
/// original.
pub proof fn lemma_history_chain_invertible(
    texts: Seq<Seq<char>>,
    entries: Seq<Seq<BufferEditSnapshot>>,
)
    requires
        texts.len() == entries.len() + 1,
        forall|i: int|
            0 <= i < entries.len() ==> entry_describes(
                texts[i],
                texts[i + 1],
                #[trigger] entries[i],
            ),
    ensures
        forall|i: int|
            0 <= i < entries.len() ==> undo_tail_matches(texts[i + 1], #[trigger] entries[i], 0)
                && undo_entry_text(texts[i + 1], entries[i]) == texts[i],
{
    assert forall|i: int| 0 <= i < entries.len() implies undo_tail_matches(
        texts[i + 1],
        #[trigger] entries[i],
        0,
    ) && undo_entry_text(texts[i + 1], entries[i]) == texts[i] by {
        lemma_entry_redo_then_undo(texts[i], entries[i], 0);
    }
}

} // verus!
