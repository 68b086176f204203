//! What holds of every state of the text field.
use crate::text_field::model::FieldState;
use crate::text_field::status::Status;
use crate::text_field::keys::KeyEvent;
use crate::text_field::model::{run_end, run_start};
use crate::text_field::token::lemma_token_range_bounds;
use crate::utils::edit::{lemma_spliced_offsets, spliced};
use crate::utils::encoding::{
    byte_len, index_at, lemma_boundary_iff, lemma_boundary_index, lemma_byte_len_bounds,
    lemma_index_at, lemma_offset_diff, lemma_offset_monotone, on_boundary,
};
use vstd::prelude::*;
use vstd::utf8::{encode_utf8, is_char_boundary};

verus! {

/// In a well-formed state the cursor and both ends of the selection are
/// character boundaries of the encoded text: none of them lies inside the
/// bytes of one character, however many bytes it takes.
pub proof fn lemma_wf_is_char_boundaries(st: FieldState)
    requires
        st.wf(),
    ensures
        is_char_boundary(encode_utf8(st.text), st.cursor),
        0 <= st.cursor <= byte_len(st.text),
        match st.select {
            Some((a, b)) => is_char_boundary(encode_utf8(st.text), a) && is_char_boundary(
                encode_utf8(st.text),
                b,
            ) && 0 <= a <= byte_len(st.text) && 0 <= b <= byte_len(st.text),
            None => true,
        },
{
    lemma_boundary_iff(st.text, st.cursor);
    lemma_boundary_index(st.text, st.cursor);
    match st.select {
        Some((a, b)) => {
            lemma_boundary_iff(st.text, a);
            lemma_boundary_iff(st.text, b);
            lemma_boundary_index(st.text, a);
            lemma_boundary_index(st.text, b);
        },
        None => {},
    }
}

/// Pasting what was copied, over the selection it was copied from, gives back
/// the same text, with the cursor behind the pasted characters.
pub proof fn lemma_copy_paste_round_trip(st: FieldState)
    requires
        st.wf(),
        st.copy() is Some,
        !st.copy()->0.contains('\n'),
    ensures
        st.paste(st.copy()->0).1 == Status::Updated,
        st.paste(st.copy()->0).0.text == st.text,
        st.paste(st.copy()->0).0.cursor == st.high(),
        st.paste(st.copy()->0).0.select is None,
        st.paste(st.copy()->0).0.wf(),
{
    let clip = st.copy()->0;
    let (f, t) = st.range()->0;
    let kf = index_at(st.text, f);
    let kt = index_at(st.text, t);
    lemma_boundary_index(st.text, f);
    lemma_boundary_index(st.text, t);
    if kt < kf {
        lemma_offset_monotone(st.text, kt, kf);
    }
    let cut = st.take_selected().0;
    assert(cut.text.take(kf) =~= st.text.take(kf));
    lemma_index_at(cut.text, kf);
    assert(cut.index() == kf);
    assert(spliced(cut.text, kf, kf, clip) =~= st.text);
    lemma_offset_diff(st.text, kf, kt);
}

/// Cutting the selection and pasting what was cut gives back the same text.
pub proof fn lemma_cut_paste_round_trip(st: FieldState)
    requires
        st.wf(),
        st.take_selected().1 is Some,
        !st.take_selected().1->0.contains('\n'),
    ensures
        st.take_selected().0.paste(st.take_selected().1->0).0.text == st.text,
        st.take_selected().0.paste(st.take_selected().1->0).0.cursor == st.high(),
{
    lemma_copy_paste_round_trip(st);
}

/// At the start of the text, with nothing selected, a move to the left changes
/// nothing and is skipped; so is a move to the right at the end of the text.
/// In an empty field a forward delete is skipped and leaves the text empty.
pub proof fn lemma_moves_at_the_ends(st: FieldState)
    requires
        st.wf(),
    ensures
        st.cursor == 0 && st.select is None ==> st.go_left() == (st, Status::Skipped),
        st.cursor == st.end() && st.select is None ==> st.go_right() == (st, Status::Skipped),
        st.text.len() == 0 ==> st.del().1 == Status::Skipped && st.del().0.text == st.text,
{
    if st.text.len() == 0 {
        lemma_byte_len_bounds(st.text);
        lemma_boundary_index(st.text, st.cursor);
        match st.select {
            Some((a, b)) => {
                lemma_boundary_index(st.text, a);
                lemma_boundary_index(st.text, b);
            },
            None => {},
        }
    }
}

/// A selection whose two ends coincide counts as no selection: nothing is
/// copied, and cutting removes nothing.
pub proof fn lemma_empty_selection_is_none(st: FieldState)
    requires
        st.select is Some,
        st.low() == st.high(),
    ensures
        st.copy() is None,
        st.take_selected().1 is None,
        st.take_selected().0.text == st.text,
{
}

/// Only the operations that select leave a selection behind: every plain
/// move, every edit and every paste that is taken forgets it.
pub proof fn lemma_other_operations_drop_the_selection(st: FieldState, ch: char, clip: Seq<char>)
    ensures
        st.go_left().0.select is None,
        st.go_right().0.select is None,
        st.jump_left().0.select is None,
        st.jump_right().0.select is None,
        st.start_of_line().0.select is None,
        st.end_of_line().0.select is None,
        st.cursor_set(st.cursor).0.select is None,
        st.push_char(ch).0.select is None,
        st.del().0.select is None,
        st.backspace().0.select is None,
        st.take_selected().0.select is None,
        st.replace_token(clip).select is None,
        !clip.contains('\n') ==> st.paste(clip).0.select is None,
{
}

/// A signal tells what changed: where an operation is skipped the state is
/// as it was, and where only the cursor is reported the text is as it was.
pub proof fn lemma_status_tells_what_changed(st: FieldState)
    requires
        st.wf(),
    ensures
        st.go_left().1 == Status::Skipped ==> st.go_left().0 == st,
        st.go_right().1 == Status::Skipped ==> st.go_right().0 == st,
        st.select_left().1 == Status::Skipped ==> st.select_left().0 == st,
        st.select_right().1 == Status::Skipped ==> st.select_right().0 == st,
        st.start_of_line().1 == Status::Skipped ==> st.start_of_line().0 == st,
        st.end_of_line().1 == Status::Skipped ==> st.end_of_line().0 == st,
        st.select_all().1 == Status::Skipped ==> st.select_all().0 == st,
        st.go_left().0.text == st.text,
        st.go_right().0.text == st.text,
        st.jump_left().0.text == st.text,
        st.jump_right().0.text == st.text,
        st.select_left().0.text == st.text,
        st.select_right().0.text == st.text,
        st.select_jump_left().0.text == st.text,
        st.select_jump_right().0.text == st.text,
        st.select_all().0.text == st.text,
{
    lemma_boundary_index(st.text, st.cursor);
}

/// A run of word characters lies within the text.
pub proof fn lemma_run_bounds(s: Seq<char>, k: int)
    requires
        0 <= k <= s.len(),
    ensures
        0 <= run_start(s, k) <= k,
        k <= run_end(s, k) <= s.len(),
{
    lemma_run_start_bounds(s, k);
    lemma_run_end_bounds(s, k);
}

proof fn lemma_run_start_bounds(s: Seq<char>, k: int)
    requires
        0 <= k <= s.len(),
    ensures
        0 <= run_start(s, k) <= k,
    decreases k,
{
    if 0 < k && crate::utils::classes::is_word_char(s[k - 1]) {
        lemma_run_start_bounds(s, k - 1);
    }
}

proof fn lemma_run_end_bounds(s: Seq<char>, k: int)
    requires
        0 <= k <= s.len(),
    ensures
        k <= run_end(s, k) <= s.len(),
    decreases s.len() - k,
{
    if k < s.len() && crate::utils::classes::is_word_char(s[k]) {
        lemma_run_end_bounds(s, k + 1);
    }
}

/// The moves of the cursor keep it, and the selection, on character boundaries.
pub proof fn lemma_moves_keep_sound(st: FieldState)
    requires
        st.sound(),
    ensures
        st.next_char().0.sound(),
        st.prev_char().0.sound(),
        st.jump_left_move().0.sound(),
        st.jump_right_move().0.sound(),
        st.select_drop().0.wf(),
        st.init_select().0.sound(),
        st.push_select().0.wf(),
{
    let k = st.index();
    lemma_boundary_index(st.text, st.cursor);
    crate::utils::encoding::lemma_offset_ends(st.text);
    lemma_run_bounds(st.text, k);
    lemma_index_at(st.text, run_start(st.text, k));
    lemma_index_at(st.text, run_end(st.text, k));
    if st.cursor < st.end() {
        lemma_index_at(st.text, st.text.len() as int);
        crate::utils::encoding::lemma_offset_step(st.text, k);
        lemma_index_at(st.text, k + 1);
    }
    if st.cursor > 0 {
        lemma_index_at(st.text, k - 1);
    }
}

/// Taking the selection out leaves a well-formed state without a selection.
pub proof fn lemma_take_selected_keeps_wf(st: FieldState)
    requires
        st.sound(),
    ensures
        st.take_selected().0.wf(),
        st.take_selected().0.select is None,
{
    match st.range() {
        Some((f, t)) => {
            if f != t {
                let kf = index_at(st.text, f);
                let kt = index_at(st.text, t);
                lemma_boundary_index(st.text, f);
                lemma_boundary_index(st.text, t);
                if kt < kf {
                    lemma_offset_monotone(st.text, kt, kf);
                }
                lemma_spliced_offsets(st.text, kf, kt, Seq::empty());
                lemma_index_at(spliced(st.text, kf, kt, Seq::empty()), kf);
            }
        },
        None => {},
    }
}

/// Inserting at the cursor of a state without a selection leaves a well-formed state.
pub proof fn lemma_insert_keeps_wf(st: FieldState, clip: Seq<char>)
    requires
        st.sound(),
        st.select is None,
    ensures
        st.insert(clip).wf(),
{
    let k = st.index();
    lemma_boundary_index(st.text, st.cursor);
    lemma_spliced_offsets(st.text, k, k, clip);
    lemma_index_at(spliced(st.text, k, k, clip), k + clip.len());
}

/// Removing the character at the cursor of a state without a selection
/// leaves a well-formed state.
pub proof fn lemma_remove_keeps_wf(st: FieldState)
    requires
        st.sound(),
        st.select is None,
        st.cursor < st.end(),
    ensures
        (FieldState { text: st.text.remove(st.index()), ..st }).wf(),
{
    let k = st.index();
    lemma_boundary_index(st.text, st.cursor);
    lemma_index_at(st.text, st.text.len() as int);
    crate::utils::encoding::lemma_offset_ends(st.text);
    let r = st.text.remove(k);
    assert(r.take(k) =~= st.text.take(k));
    lemma_index_at(r, k);
}

/// The plain moves lead from a well-formed state to a well-formed state.
pub proof fn lemma_plain_moves_keep_wf(st: FieldState, to: int)
    requires
        st.wf(),
    ensures
        st.select_drop().0.wf(),
        st.go_left().0.wf(),
        st.go_right().0.wf(),
        st.jump_left().0.wf(),
        st.jump_right().0.wf(),
        st.start_of_line().0.wf(),
        st.end_of_line().0.wf(),
        on_boundary(st.text, to) || to >= st.end() ==> st.cursor_set(to).0.wf(),
{
    crate::utils::encoding::lemma_offset_ends(st.text);
    let dropped = st.select_drop().0;
    lemma_moves_keep_sound(st);
    lemma_moves_keep_sound(dropped);
    lemma_moves_keep_sound(dropped.prev_char().0);
    lemma_moves_keep_sound(dropped.next_char().0);
}

/// The moves that select lead from a well-formed state to a well-formed state.
pub proof fn lemma_selecting_moves_keep_wf(st: FieldState)
    requires
        st.wf(),
    ensures
        st.select_left().0.wf(),
        st.select_right().0.wf(),
        st.select_jump_left().0.wf(),
        st.select_jump_right().0.wf(),
        st.select_all().0.wf(),
        st.select_token_at_cursor().0.wf(),
{
    crate::utils::encoding::lemma_offset_ends(st.text);
    let started = st.init_select().0;
    lemma_moves_keep_sound(st);
    lemma_moves_keep_sound(started);
    lemma_moves_keep_sound(started.prev_char().0);
    lemma_moves_keep_sound(started.next_char().0);
    lemma_moves_keep_sound(started.prev_char().0.jump_left_move().0);
    lemma_moves_keep_sound(started.next_char().0.jump_right_move().0);
    lemma_token_range_bounds(st.text, st.cursor);
}

/// The edits lead from a well-formed state to a well-formed state.
pub proof fn lemma_edits_keep_wf(st: FieldState, ch: char, clip: Seq<char>)
    requires
        st.wf(),
    ensures
        FieldState::new(clip).wf(),
        st.take_selected().0.wf(),
        st.push_char(ch).0.wf(),
        st.paste(clip).0.wf(),
        st.del().0.wf(),
        st.backspace().0.wf(),
{
    crate::utils::encoding::lemma_offset_ends(clip);
    lemma_take_selected_keeps_wf(st);
    let taken = st.take_selected().0;
    lemma_insert_keeps_wf(taken, clip);
    lemma_insert_keeps_wf(taken, seq![ch]);
    lemma_boundary_index(taken.text, taken.cursor);
    if taken.cursor < taken.end() {
        lemma_remove_keeps_wf(taken);
    }
    if taken.cursor > 0 {
        lemma_moves_keep_sound(taken);
        let back = taken.prev_char().0;
        crate::utils::encoding::lemma_offset_step(taken.text, taken.index() - 1);
        lemma_index_at(taken.text, taken.index() - 1);
        lemma_remove_keeps_wf(back);
    }
}

/// Replacing the token at the cursor leads from a well-formed state to a well-formed state.
pub proof fn lemma_replace_token_keeps_wf(st: FieldState, new: Seq<char>)
    requires
        st.wf(),
    ensures
        st.replace_token(new).wf(),
{
    lemma_token_range_bounds(st.text, st.cursor);
    let (start, end) = st.token();
    let ks = index_at(st.text, start);
    let ke = index_at(st.text, end);
    lemma_boundary_index(st.text, start);
    lemma_boundary_index(st.text, end);
    if ke < ks {
        lemma_offset_monotone(st.text, ke, ks);
    }
    lemma_spliced_offsets(st.text, ks, ke, new);
    lemma_index_at(spliced(st.text, ks, ke, new), ks + new.len());
}

/// Every operation of the field leads from a well-formed state to a
/// well-formed state: whatever is typed, moved, selected, cut or pasted,
/// in whatever order, the cursor and both ends of the selection stay on
/// character boundaries of the text.
pub proof fn lemma_operations_keep_wf(st: FieldState, ch: char, clip: Seq<char>, to: int)
    requires
        st.wf(),
    ensures
        FieldState::new(clip).wf(),
        st.select_drop().0.wf(),
        st.go_left().0.wf(),
        st.go_right().0.wf(),
        st.jump_left().0.wf(),
        st.jump_right().0.wf(),
        st.select_left().0.wf(),
        st.select_right().0.wf(),
        st.select_jump_left().0.wf(),
        st.select_jump_right().0.wf(),
        st.start_of_line().0.wf(),
        st.end_of_line().0.wf(),
        st.select_all().0.wf(),
        st.select_token_at_cursor().0.wf(),
        st.take_selected().0.wf(),
        st.push_char(ch).0.wf(),
        st.paste(clip).0.wf(),
        st.del().0.wf(),
        st.backspace().0.wf(),
        st.replace_token(clip).wf(),
        on_boundary(st.text, to) || to >= st.end() ==> st.cursor_set(to).0.wf(),
{
    lemma_plain_moves_keep_wf(st, to);
    lemma_selecting_moves_keep_wf(st);
    lemma_edits_keep_wf(st, ch, clip);
    lemma_replace_token_keeps_wf(st, clip);
}

/// A key press leads from a well-formed state to a well-formed state.
pub proof fn lemma_keys_keep_wf(st: FieldState, key: KeyEvent)
    requires
        st.wf(),
    ensures
        match st.map(key) {
            Some((next, _)) => next.wf(),
            None => true,
        },
{
    match key.code {
        crate::text_field::keys::KeyCode::Char(ch) => {
            lemma_operations_keep_wf(st, ch, Seq::empty(), 0);
        },
        _ => {
            lemma_operations_keep_wf(st, ' ', Seq::empty(), 0);
        },
    }
}

/// The state after the key presses `keys`, one after the other; a key that
/// is not mapped leaves the state as it is.
pub open spec fn after_keys(st: FieldState, keys: Seq<KeyEvent>) -> FieldState
    decreases keys.len(),
{
    if keys.len() == 0 {
        st
    } else {
        let before = after_keys(st, keys.drop_last());
        match before.map(keys.last()) {
            Some((next, _)) => next,
            None => before,
        }
    }
}

/// After any sequence of key presses the state is well-formed.
pub proof fn lemma_any_keys_keep_wf(st: FieldState, keys: Seq<KeyEvent>)
    requires
        st.wf(),
    ensures
        after_keys(st, keys).wf(),
    decreases keys.len(),
{
    if keys.len() > 0 {
        lemma_any_keys_keep_wf(st, keys.drop_last());
        lemma_keys_keep_wf(after_keys(st, keys.drop_last()), keys.last());
    }
}

} // verus!
