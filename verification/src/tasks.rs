//! Tasks and the recycle bin that deleted tasks go to.

use vstd::prelude::*;
use crate::text::{
    ascii_upper, ascii_upper_seq, char_is_hex_digit, char_to_ascii_upper, is_hex_digit,
    is_white_space, lemma_trim_unchanged, owned, push_char, trim, trim_chars,
};

verus! {

/// A task of the plan.
#[derive(Debug)]
pub struct Task {
    pub id: i64,
    pub text: String,
    pub status: bool,
    pub color: String,
    pub bold: bool,
    pub timer_type: String,
    pub timer_value: i64,
    pub timer_remaining: i64,
    pub created_at: String,
    pub order_index: i32,
}

/// A task in the recycle bin, with the id it had and when it was deleted.
#[derive(Debug)]
pub struct DeletedTask {
    pub id: i64,
    pub original_id: i64,
    pub text: String,
    pub status: bool,
    pub color: String,
    pub bold: bool,
    pub timer_type: String,
    pub timer_value: i64,
    pub timer_remaining: i64,
    pub created_at: String,
    pub order_index: i32,
    pub deleted_at: String,
}

/// A colour of the form `#RRGGBB` with hexadecimal digits.
pub open spec fn is_hex_color(t: Seq<char>) -> bool {
    t.len() == 7 && t[0] == '#' && forall|i: int| 1 <= i < 7 ==> is_hex_digit(#[trigger] t[i])
}

/// The colour stored for a task: the given one without surrounding white
/// space and with uppercase digits, when it is of the form `#RRGGBB`; black
/// otherwise.
pub open spec fn sanitized_color(color: Seq<char>) -> Seq<char> {
    let t = trim(color);
    if is_hex_color(t) {
        seq!['#'] + ascii_upper_seq(t.subrange(1, 7))
    } else {
        "#000000"@
    }
}

pub fn sanitize_color(color: &str) -> (r: String)
    ensures
        r@ == sanitized_color(color@),
{
    let t = trim_chars(color);
    if t.len() == 7 && t[0] == '#' {
        let mut i: usize = 1;
        while i < 7
            invariant
                t@ == trim(color@),
                t.len() == 7,
                1 <= i <= 7,
                forall|j: int| 1 <= j < i ==> is_hex_digit(#[trigger] t@[j]),
            decreases 7 - i,
        {
            if !char_is_hex_digit(t[i]) {
                return owned("#000000");
            }
            i = i + 1;
        }
        let mut r = String::new();
        push_char(&mut r, '#');
        let mut k: usize = 1;
        while k < 7
            invariant
                t@ == trim(color@),
                t.len() == 7,
                1 <= k <= 7,
                r@ == seq!['#'] + ascii_upper_seq(t@.subrange(1, k as int)),
            decreases 7 - k,
        {
            push_char(&mut r, char_to_ascii_upper(t[k]));
            k = k + 1;
            assert(r@ =~= seq!['#'] + ascii_upper_seq(t@.subrange(1, k as int)));
        }
        r
    } else {
        owned("#000000")
    }
}

/// Every stored colour is of the form `#RRGGBB`, and sanitizing a stored
/// colour leaves it as it is.
pub proof fn lemma_sanitized_color_is_stable(color: Seq<char>)
    ensures
        is_hex_color(sanitized_color(color)),
        sanitized_color(sanitized_color(color)) == sanitized_color(color),
{
    let c = sanitized_color(color);
    let t = trim(color);
    if is_hex_color(t) {
        assert forall|i: int| 1 <= i < 7 implies is_hex_digit(#[trigger] c[i]) by {
            assert(c[i] == ascii_upper(t[i]));
        }
        assert(!is_white_space(c[0]) && !is_white_space(c.last()));
        lemma_trim_unchanged(c);
        assert(ascii_upper_seq(c.subrange(1, 7)) =~= c.subrange(1, 7));
        assert(seq!['#'] + c.subrange(1, 7) =~= c);
    } else {
        reveal_strlit("#000000");
        assert(c.len() == 7);
        assert(c[0] == '#' && c[1] == '0' && c[2] == '0' && c[3] == '0');
        assert(c[4] == '0' && c[5] == '0' && c[6] == '0');
        assert(is_hex_color(c));
        lemma_trim_unchanged(c);
        assert(ascii_upper_seq(c.subrange(1, 7)) =~= c.subrange(1, 7));
        assert(seq!['#'] + c.subrange(1, 7) =~= c);
    }
}

/// The record a task leaves in the recycle bin, under the bin's id `id`.
pub open spec fn trash_record(task: Task, id: i64, deleted_at: String) -> DeletedTask {
    DeletedTask {
        id,
        original_id: task.id,
        text: task.text,
        status: task.status,
        color: task.color,
        bold: task.bold,
        timer_type: task.timer_type,
        timer_value: task.timer_value,
        timer_remaining: task.timer_remaining,
        created_at: task.created_at,
        order_index: task.order_index,
        deleted_at,
    }
}

/// The task a record of the recycle bin restores, under the new id `id`.
pub open spec fn restored_task(d: DeletedTask, id: i64) -> Task {
    Task {
        id,
        text: d.text,
        status: d.status,
        color: d.color,
        bold: d.bold,
        timer_type: d.timer_type,
        timer_value: d.timer_value,
        timer_remaining: d.timer_remaining,
        created_at: d.created_at,
        order_index: d.order_index,
    }
}

pub fn to_trash(task: &Task, id: i64, deleted_at: String) -> (r: DeletedTask)
    ensures
        r == trash_record(*task, id, deleted_at),
{
    DeletedTask {
        id,
        original_id: task.id,
        text: task.text.clone(),
        status: task.status,
        color: task.color.clone(),
        bold: task.bold,
        timer_type: task.timer_type.clone(),
        timer_value: task.timer_value,
        timer_remaining: task.timer_remaining,
        created_at: task.created_at.clone(),
        order_index: task.order_index,
        deleted_at,
    }
}

pub fn from_trash(deleted: &DeletedTask, id: i64) -> (r: Task)
    ensures
        r == restored_task(*deleted, id),
{
    Task {
        id,
        text: deleted.text.clone(),
        status: deleted.status,
        color: deleted.color.clone(),
        bold: deleted.bold,
        timer_type: deleted.timer_type.clone(),
        timer_value: deleted.timer_value,
        timer_remaining: deleted.timer_remaining,
        created_at: deleted.created_at.clone(),
        order_index: deleted.order_index,
    }
}

/// Restoring a task from the recycle bin gives back the task that was put
/// there, but for its id: the record keeps the old id as `original_id`, and
/// the restored task takes the id it is given.
pub proof fn lemma_restore_undoes_trash(task: Task, bin_id: i64, deleted_at: String, new_id: i64)
    ensures
        restored_task(trash_record(task, bin_id, deleted_at), new_id) == (Task { id: new_id, ..task }),
        restored_task(trash_record(task, bin_id, deleted_at), task.id) == task,
        trash_record(task, bin_id, deleted_at).original_id == task.id,
{
}

/// The order that a task list dropped into place gives: each task, by id,
/// gets its position (as an `i32`, like the stored column).
pub fn reorder_plan(task_ids: &Vec<i64>) -> (r: Vec<(i64, i32)>)
    ensures
        r@.len() == task_ids@.len(),
        forall|i: int| 0 <= i < r@.len() ==> (#[trigger] r@[i]).0 == task_ids@[i] && r@[i].1 == i as i32,
{
    let mut r: Vec<(i64, i32)> = Vec::new();
    let mut i: usize = 0;
    while i < task_ids.len()
        invariant
            i <= task_ids.len(),
            r@.len() == i,
            forall|k: int| 0 <= k < i ==> (#[trigger] r@[k]).0 == task_ids@[k] && r@[k].1 == k as i32,
        decreases task_ids.len() - i,
    {
        let idx = #[verifier::truncate] (i as i32);
        r.push((task_ids[i], idx));
        i = i + 1;
    }
    r
}

} // verus!
