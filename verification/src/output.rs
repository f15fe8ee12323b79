//! Rendering of tasks for the terminal: a column-aligned table for `list`
//! and a multi-line detail view for `show`, as lines of text. Colors are
//! applied only when the caller says color output is enabled.

use vstd::prelude::*;
use crate::color::{self, paint, paint_spec};
use crate::models::{Priority, Status, Task, opt_chars};
use crate::text::{chars_of, push_signed_decimal, signed_decimal, string_from_chars};
use crate::validate::{display_width, unicode_display_width};

verus! {

/// Display width of a text, in terminal columns.
pub open spec fn width_of(s: Seq<char>) -> nat {
    unicode_display_width(s) as nat
}

pub open spec fn spaces_spec(n: nat) -> Seq<char> {
    Seq::new(n, |i: int| ' ')
}

/// `text` padded with spaces to `width` visible columns (no padding when it
/// is already that wide), wrapped in `code` .. `RESET` when a code is given
/// and color is enabled.
pub open spec fn cell_spec(text: Seq<char>, width: nat, code: Option<Seq<char>>, color: bool) -> Seq<char> {
    let pad = spaces_spec(if width >= width_of(text) { (width - width_of(text)) as nat } else { 0 });
    match code {
        Some(c) => if color {
            c + text + color::RESET@ + pad
        } else {
            text + pad
        },
        None => text + pad,
    }
}

/// Index at which greedy filling of `budget` columns stops, scanning `t`
/// from index `i` with `used` columns already taken.
pub open spec fn fit_end(t: Seq<char>, i: int, used: nat, budget: nat) -> int
    decreases t.len() - i,
{
    if i < 0 || i >= t.len() {
        i
    } else {
        let cw = width_of(seq![t[i]]);
        if used + cw > budget {
            i
        } else {
            fit_end(t, i + 1, used + cw, budget)
        }
    }
}

/// `text` unchanged when it fits in `max` columns; otherwise its longest
/// prefix fitting in `max - 1` columns, followed by `…`.
pub open spec fn truncate_spec(text: Seq<char>, max: nat) -> Seq<char> {
    if width_of(text) <= max {
        text
    } else {
        let budget: nat = if max >= 1 { (max - 1) as nat } else { 0 };
        text.take(fit_end(text, 0, 0, budget)).push('…')
    }
}

fn spaces(n: usize) -> (s: String)
    ensures
        s@ == spaces_spec(n as nat),
{
    let mut s = String::new();
    let mut i: usize = 0;
    while i < n
        invariant
            i <= n,
            s@ == spaces_spec(i as nat),
        decreases n - i,
    {
        s.push(' ');
        i = i + 1;
        assert(s@ =~= spaces_spec(i as nat));
    }
    s
}

/// Pad `text` (optionally wrapped in an ANSI color) to `width` visible
/// columns.
fn cell(text: &str, width: usize, code: Option<&str>, color: bool) -> (s: String)
    ensures
        s@ == cell_spec(text@, width as nat, crate::db::opt_str(code), color),
{
    let visible = display_width(text);
    let pad = spaces(if width >= visible { width - visible } else { 0 });
    match code {
        Some(c) => {
            if color {
                let mut s = String::from_str(c);
                s.append(text);
                s.append(color::RESET);
                s.append(pad.as_str());
                s
            } else {
                let mut s = String::from_str(text);
                s.append(pad.as_str());
                s
            }
        },
        None => {
            let mut s = String::from_str(text);
            s.append(pad.as_str());
            s
        },
    }
}

fn char_width(c: char) -> (w: usize)
    ensures
        w == unicode_display_width(seq![c]),
{
    let v: Vec<char> = vec![c];
    let s = string_from_chars(v.as_slice());
    assert(v@ =~= seq![c]);
    display_width(s.as_str())
}

/// Shortens `text` to at most `max` columns, ending in `…` when cut.
pub fn truncate(text: &str, max: usize) -> (s: String)
    ensures
        s@ == truncate_spec(text@, max as nat),
{
    if display_width(text) <= max {
        return String::from_str(text);
    }
    let cs = chars_of(text);
    let budget: usize = if max >= 1 { max - 1 } else { 0 };
    let mut w: usize = 0;
    let mut i: usize = 0;
    while i < cs.len()
        invariant_except_break
            i <= cs@.len(),
            w <= budget,
            fit_end(cs@, i as int, w as nat, budget as nat) == fit_end(cs@, 0, 0, budget as nat),
        ensures
            i <= cs@.len(),
            i as int == fit_end(cs@, 0, 0, budget as nat),
        decreases cs@.len() - i,
    {
        let cw = char_width(cs[i]);
        if cw > budget - w {
            break;
        }
        w = w + cw;
        i = i + 1;
    }
    let mut out = string_from_chars(crate::text::copy_range(cs.as_slice(), 0, i).as_slice());
    out.push('…');
    assert(cs@.subrange(0, i as int) =~= cs@.take(i as int));
    out
}


/// Longest title shown in the table, in columns.
pub const TITLE_MAX: usize = 40;

/// A status as shown: its marker and name for a known status, the stored
/// text otherwise.
pub open spec fn status_display_spec(s: Seq<char>) -> Seq<char> {
    match Status::from_name(s) {
        Some(st) => st.marker() + seq![' '] + st.name(),
        None => s,
    }
}

/// The color of a priority label; `RESET` for an unknown priority.
pub open spec fn priority_color_spec(p: Seq<char>) -> Seq<char> {
    match Priority::from_name(p) {
        Some(pr) => pr.color_code(),
        None => color::RESET@,
    }
}

pub open spec fn or_dash(o: Option<Seq<char>>) -> Seq<char> {
    match o {
        Some(s) => s,
        None => seq!['-'],
    }
}

pub open spec fn id_text(t: Task) -> Seq<char> {
    signed_decimal(t.id as int)
}

pub open spec fn status_text(t: Task) -> Seq<char> {
    status_display_spec(t.status@)
}

pub open spec fn priority_text(t: Task) -> Seq<char> {
    t.priority@
}

pub open spec fn title_text(t: Task) -> Seq<char> {
    truncate_spec(t.title@, TITLE_MAX as nat)
}

pub open spec fn assigned_text(t: Task) -> Seq<char> {
    or_dash(opt_chars(t.assigned_agent))
}

pub open spec fn tags_text(t: Task) -> Seq<char> {
    or_dash(opt_chars(t.tags))
}

pub open spec fn due_text(t: Task) -> Seq<char> {
    or_dash(opt_chars(t.due_date))
}

/// The largest length among `texts`, and at least `floor`.
pub open spec fn max_len(texts: Seq<Seq<char>>, floor: nat) -> nat
    decreases texts.len(),
{
    if texts.len() == 0 {
        floor
    } else {
        let m = max_len(texts.drop_last(), floor);
        if texts.last().len() > m {
            texts.last().len()
        } else {
            m
        }
    }
}

/// The largest display width among `texts`, and at least `floor`.
pub open spec fn max_width(texts: Seq<Seq<char>>, floor: nat) -> nat
    decreases texts.len(),
{
    if texts.len() == 0 {
        floor
    } else {
        let m = max_width(texts.drop_last(), floor);
        if width_of(texts.last()) > m {
            width_of(texts.last())
        } else {
            m
        }
    }
}

/// The text a task shows in column `col` (0 ID, 1 STATUS, 2 PRIORITY,
/// 3 TITLE, 4 ASSIGNED, 5 TAGS, 6 DUE).
pub open spec fn column_text(t: Task, col: int) -> Seq<char> {
    if col == 0 {
        id_text(t)
    } else if col == 1 {
        status_text(t)
    } else if col == 2 {
        priority_text(t)
    } else if col == 3 {
        title_text(t)
    } else if col == 4 {
        assigned_text(t)
    } else if col == 5 {
        tags_text(t)
    } else {
        due_text(t)
    }
}

/// The texts of column `col`, one per task.
pub open spec fn column(tasks: Seq<Task>, col: int) -> Seq<Seq<char>>
    decreases tasks.len(),
{
    if tasks.len() == 0 {
        Seq::empty()
    } else {
        column(tasks.drop_last(), col).push(column_text(tasks.last(), col))
    }
}

/// Column widths of the table: ID, STATUS, PRIORITY, TITLE, ASSIGNED,
/// TAGS, DUE; each as wide as its widest entry (the ID by its length, the
/// others by display width) and at least as wide as its minimum.
pub open spec fn column_widths(tasks: Seq<Task>) -> Seq<nat> {
    seq![
        max_len(column(tasks, 0), 2),
        max_width(column(tasks, 1), 6),
        max_width(column(tasks, 2), 8),
        max_width(column(tasks, 3), 5),
        max_width(column(tasks, 4), 8),
        max_width(column(tasks, 5), 4),
        max_width(column(tasks, 6), 10),
    ]
}

pub open spec fn gap() -> Seq<char> {
    seq![' ', ' ']
}

pub open spec fn header_spec(w: Seq<nat>, color: bool) -> Seq<char> {
    cell_spec("ID"@, w[0], Some(color::BOLD@), color) + gap() + cell_spec(
        "STATUS"@,
        w[1],
        Some(color::BOLD@),
        color,
    ) + gap() + cell_spec("PRIORITY"@, w[2], Some(color::BOLD@), color) + gap() + cell_spec(
        "TITLE"@,
        w[3],
        Some(color::BOLD@),
        color,
    ) + gap() + cell_spec("ASSIGNED"@, w[4], Some(color::BOLD@), color) + gap() + cell_spec(
        "TAGS"@,
        w[5],
        Some(color::BOLD@),
        color,
    ) + gap() + cell_spec("DUE"@, w[6], Some(color::BOLD@), color)
}

pub open spec fn row_spec(t: Task, w: Seq<nat>, color: bool) -> Seq<char> {
    cell_spec(id_text(t), w[0], None, color) + gap() + cell_spec(status_text(t), w[1], None, color)
        + gap() + cell_spec(priority_text(t), w[2], Some(priority_color_spec(t.priority@)), color)
        + gap() + cell_spec(title_text(t), w[3], None, color) + gap() + cell_spec(
        assigned_text(t),
        w[4],
        Some(color::CYAN@),
        color,
    ) + gap() + cell_spec(tags_text(t), w[5], Some(color::GRAY@), color) + gap() + cell_spec(
        due_text(t),
        w[6],
        None,
        color,
    )
}

/// One table row per task, in order.
pub open spec fn rows_spec(tasks: Seq<Task>, w: Seq<nat>, color: bool) -> Seq<Seq<char>>
    decreases tasks.len(),
{
    if tasks.len() == 0 {
        Seq::empty()
    } else {
        rows_spec(tasks.drop_last(), w, color).push(row_spec(tasks.last(), w, color))
    }
}

/// The lines of the `list` table: a header and one row per task, or a
/// single "no tasks" line.
pub open spec fn table_spec(tasks: Seq<Task>, color: bool) -> Seq<Seq<char>> {
    if tasks.len() == 0 {
        seq![paint_spec(color::GRAY@, "タスクが見つかりませんでした。"@, color)]
    } else {
        seq![header_spec(column_widths(tasks), color)] + rows_spec(tasks, column_widths(tasks), color)
    }
}

fn status_display(status: &str) -> (s: String)
    ensures
        s@ == status_display_spec(status@),
{
    match Status::parse(status) {
        Ok(st) => {
            let mut s = String::from_str(st.emoji());
            s.push(' ');
            s.append(st.as_str());
            s
        },
        Err(_) => String::from_str(status),
    }
}

fn priority_color(priority: &str) -> (c: &'static str)
    ensures
        c@ == priority_color_spec(priority@),
{
    match Priority::parse(priority) {
        Ok(p) => p.ansi_color(),
        Err(_) => color::RESET,
    }
}

fn dash_if_none(o: &Option<String>) -> (s: String)
    ensures
        s@ == or_dash(opt_chars(*o)),
{
    match o {
        Some(x) => x.clone(),
        None => {
            let mut s = String::new();
            s.push('-');
            s
        },
    }
}

fn id_string(id: i64) -> (s: String)
    ensures
        s@ == signed_decimal(id as int),
{
    let mut s = String::new();
    push_signed_decimal(&mut s, id);
    s
}

pub open spec fn views(v: Seq<String>) -> Seq<Seq<char>> {
    v.map_values(|x: String| x@)
}

fn push_view(v: &mut Vec<String>, x: String)
    ensures
        views(final(v)@) == views(old(v)@).push(x@),
{
    v.push(x);
    assert(views(v@) =~= views(old(v)@).push(x@));
}

fn column_max_len(texts: &Vec<String>, floor: usize) -> (w: usize)
    ensures
        w as nat == max_len(views(texts@), floor as nat),
{
    let mut w = floor;
    let mut i: usize = 0;
    while i < texts.len()
        invariant
            i <= texts@.len(),
            w as nat == max_len(views(texts@).take(i as int), floor as nat),
        decreases texts@.len() - i,
    {
        let l = texts[i].as_str().unicode_len();
        assert(views(texts@).take(i + 1).drop_last() =~= views(texts@).take(i as int));
        if l > w {
            w = l;
        }
        i = i + 1;
    }
    assert(views(texts@).take(texts@.len() as int) =~= views(texts@));
    w
}

fn column_max_width(texts: &Vec<String>, floor: usize) -> (w: usize)
    ensures
        w as nat == max_width(views(texts@), floor as nat),
{
    let mut w = floor;
    let mut i: usize = 0;
    while i < texts.len()
        invariant
            i <= texts@.len(),
            w as nat == max_width(views(texts@).take(i as int), floor as nat),
        decreases texts@.len() - i,
    {
        let l = display_width(texts[i].as_str());
        assert(views(texts@).take(i + 1).drop_last() =~= views(texts@).take(i as int));
        if l > w {
            w = l;
        }
        i = i + 1;
    }
    assert(views(texts@).take(texts@.len() as int) =~= views(texts@));
    w
}

fn append_gap(s: &mut String)
    ensures
        final(s)@ == old(s)@ + gap(),
{
    s.push(' ');
    s.push(' ');
    assert(final(s)@ =~= old(s)@ + gap());
}

fn header_line(w: &Vec<usize>, color: bool) -> (s: String)
    requires
        w@.len() == 7,
    ensures
        s@ == header_spec(w@.map_values(|x: usize| x as nat), color),
{
    let ghost wn = w@.map_values(|x: usize| x as nat);
    let mut s = cell("ID", w[0], Some(color::BOLD), color);
    append_gap(&mut s);
    s.append(cell("STATUS", w[1], Some(color::BOLD), color).as_str());
    append_gap(&mut s);
    s.append(cell("PRIORITY", w[2], Some(color::BOLD), color).as_str());
    append_gap(&mut s);
    s.append(cell("TITLE", w[3], Some(color::BOLD), color).as_str());
    append_gap(&mut s);
    s.append(cell("ASSIGNED", w[4], Some(color::BOLD), color).as_str());
    append_gap(&mut s);
    s.append(cell("TAGS", w[5], Some(color::BOLD), color).as_str());
    append_gap(&mut s);
    s.append(cell("DUE", w[6], Some(color::BOLD), color).as_str());
    assert(s@ =~= header_spec(wn, color));
    s
}

fn row_line(t: &Task, w: &Vec<usize>, color: bool) -> (s: String)
    requires
        w@.len() == 7,
    ensures
        s@ == row_spec(*t, w@.map_values(|x: usize| x as nat), color),
{
    let ghost wn = w@.map_values(|x: usize| x as nat);
    let id = id_string(t.id);
    let status = status_display(t.status.as_str());
    let title = truncate(t.title.as_str(), TITLE_MAX);
    let assigned = dash_if_none(&t.assigned_agent);
    let tags = dash_if_none(&t.tags);
    let due = dash_if_none(&t.due_date);
    let mut s = cell(id.as_str(), w[0], None, color);
    append_gap(&mut s);
    s.append(cell(status.as_str(), w[1], None, color).as_str());
    append_gap(&mut s);
    s.append(
        cell(t.priority.as_str(), w[2], Some(priority_color(t.priority.as_str())), color).as_str(),
    );
    append_gap(&mut s);
    s.append(cell(title.as_str(), w[3], None, color).as_str());
    append_gap(&mut s);
    s.append(cell(assigned.as_str(), w[4], Some(color::CYAN), color).as_str());
    append_gap(&mut s);
    s.append(cell(tags.as_str(), w[5], Some(color::GRAY), color).as_str());
    append_gap(&mut s);
    s.append(cell(due.as_str(), w[6], None, color).as_str());
    assert(s@ =~= row_spec(*t, wn, color));
    s
}

/// The widths of the table's columns for `tasks`.
fn table_widths(tasks: &[Task]) -> (w: Vec<usize>)
    ensures
        w@.len() == 7,
        w@.map_values(|x: usize| x as nat) == column_widths(tasks@),
{
    let mut ids: Vec<String> = Vec::new();
    let mut statuses: Vec<String> = Vec::new();
    let mut priorities: Vec<String> = Vec::new();
    let mut titles: Vec<String> = Vec::new();
    let mut assigned: Vec<String> = Vec::new();
    let mut tags: Vec<String> = Vec::new();
    let mut dues: Vec<String> = Vec::new();
    let mut i: usize = 0;
    assert(tasks@.take(0) =~= Seq::<Task>::empty());
    while i < tasks.len()
        invariant
            i <= tasks@.len(),
            views(ids@) == column(tasks@.take(i as int), 0),
            views(statuses@) == column(tasks@.take(i as int), 1),
            views(priorities@) == column(tasks@.take(i as int), 2),
            views(titles@) == column(tasks@.take(i as int), 3),
            views(assigned@) == column(tasks@.take(i as int), 4),
            views(tags@) == column(tasks@.take(i as int), 5),
            views(dues@) == column(tasks@.take(i as int), 6),
        decreases tasks@.len() - i,
    {
        let t = &tasks[i];
        assert(tasks@.take(i + 1).drop_last() =~= tasks@.take(i as int));
        push_view(&mut ids, id_string(t.id));
        push_view(&mut statuses, status_display(t.status.as_str()));
        push_view(&mut priorities, t.priority.clone());
        push_view(&mut titles, truncate(t.title.as_str(), TITLE_MAX));
        push_view(&mut assigned, dash_if_none(&t.assigned_agent));
        push_view(&mut tags, dash_if_none(&t.tags));
        push_view(&mut dues, dash_if_none(&t.due_date));
        i = i + 1;
    }
    assert(tasks@.take(tasks@.len() as int) =~= tasks@);
    let mut w: Vec<usize> = Vec::new();
    w.push(column_max_len(&ids, 2));
    w.push(column_max_width(&statuses, 6));
    w.push(column_max_width(&priorities, 8));
    w.push(column_max_width(&titles, 5));
    w.push(column_max_width(&assigned, 8));
    w.push(column_max_width(&tags, 4));
    w.push(column_max_width(&dues, 10));
    assert(w@.map_values(|x: usize| x as nat) =~= column_widths(tasks@));
    w
}

/// The lines of the colored, column-aligned `list` table of `tasks`.
pub fn render_table(tasks: &[Task], color: bool) -> (lines: Vec<String>)
    ensures
        views(lines@) == table_spec(tasks@, color),
{
    let mut lines: Vec<String> = Vec::new();
    if tasks.len() == 0 {
        lines.push(paint(color::GRAY, "タスクが見つかりませんでした。", color));
        assert(views(lines@) =~= table_spec(tasks@, color));
        return lines;
    }
    let w = table_widths(tasks);
    let ghost wn = column_widths(tasks@);
    push_view(&mut lines, header_line(&w, color));
    let mut i: usize = 0;
    assert(tasks@.take(0) =~= Seq::<Task>::empty());
    while i < tasks.len()
        invariant
            i <= tasks@.len(),
            tasks@.len() > 0,
            w@.len() == 7,
            w@.map_values(|x: usize| x as nat) == wn,
            wn == column_widths(tasks@),
            views(lines@) == seq![header_spec(wn, color)] + rows_spec(tasks@.take(i as int), wn, color),
        decreases tasks@.len() - i,
    {
        assert(tasks@.take(i + 1).drop_last() =~= tasks@.take(i as int));
        push_view(&mut lines, row_line(&tasks[i], &w, color));
        i = i + 1;
        assert(views(lines@) =~= seq![header_spec(wn, color)] + rows_spec(tasks@.take(i as int), wn, color));
    }
    assert(tasks@.take(tasks@.len() as int) =~= tasks@);
    lines
}


/// One `label: value` line of the detail view, with the label in bold.
pub open spec fn detail_line_spec(label: Seq<char>, value: Seq<char>, color: bool) -> Seq<char> {
    paint_spec(color::BOLD@, label, color) + seq![':', ' '] + value
}

/// The lines of the detail view of a task.
pub open spec fn detail_spec(t: Task, color: bool) -> Seq<Seq<char>> {
    seq![
        detail_line_spec("ID"@, signed_decimal(t.id as int), color),
        detail_line_spec("Title"@, t.title@, color),
        detail_line_spec("Status"@, status_display_spec(t.status@), color),
        detail_line_spec(
            "Priority"@,
            paint_spec(priority_color_spec(t.priority@), t.priority@, color),
            color,
        ),
        detail_line_spec("Assigned"@, or_dash(opt_chars(t.assigned_agent)), color),
        detail_line_spec("Tags"@, or_dash(opt_chars(t.tags)), color),
        detail_line_spec("Due"@, or_dash(opt_chars(t.due_date)), color),
        detail_line_spec("Created"@, t.created_at@, color),
        detail_line_spec("Updated"@, t.updated_at@, color),
        detail_line_spec("Description"@, or_dash(opt_chars(t.description)), color),
    ]
}

fn detail_line(label: &str, value: &str, color: bool) -> (s: String)
    ensures
        s@ == detail_line_spec(label@, value@, color),
{
    let mut s = paint(color::BOLD, label, color);
    s.push(':');
    s.push(' ');
    s.append(value);
    assert(s@ =~= detail_line_spec(label@, value@, color));
    s
}

/// The lines of the full, colored detail view of `task`.
pub fn render_detail(task: &Task, color: bool) -> (lines: Vec<String>)
    ensures
        views(lines@) == detail_spec(*task, color),
{
    let mut lines: Vec<String> = Vec::new();
    push_view(&mut lines, detail_line("ID", id_string(task.id).as_str(), color));
    push_view(&mut lines, detail_line("Title", task.title.as_str(), color));
    push_view(&mut lines, detail_line("Status", status_display(task.status.as_str()).as_str(), color));
    let p = paint(priority_color(task.priority.as_str()), task.priority.as_str(), color);
    push_view(&mut lines, detail_line("Priority", p.as_str(), color));
    push_view(&mut lines, detail_line("Assigned", dash_if_none(&task.assigned_agent).as_str(), color));
    push_view(&mut lines, detail_line("Tags", dash_if_none(&task.tags).as_str(), color));
    push_view(&mut lines, detail_line("Due", dash_if_none(&task.due_date).as_str(), color));
    push_view(&mut lines, detail_line("Created", task.created_at.as_str(), color));
    push_view(&mut lines, detail_line("Updated", task.updated_at.as_str(), color));
    push_view(&mut lines, detail_line("Description", dash_if_none(&task.description).as_str(), color));
    assert(views(lines@) =~= detail_spec(*task, color));
    lines
}


/// The sum of the display widths of the characters of `s`, one by one.
pub open spec fn char_widths(s: Seq<char>) -> nat
    decreases s.len(),
{
    if s.len() == 0 {
        0
    } else {
        char_widths(s.drop_last()) + width_of(seq![s.last()])
    }
}

proof fn lemma_fit_end(t: Seq<char>, i: int, used: nat, budget: nat)
    requires
        0 <= i <= t.len(),
        used <= budget,
    ensures
        i <= fit_end(t, i, used, budget) <= t.len(),
        used + char_widths(t.subrange(i, fit_end(t, i, used, budget))) <= budget,
        fit_end(t, i, used, budget) < t.len() ==> used + char_widths(
            t.subrange(i, fit_end(t, i, used, budget)),
        ) + width_of(seq![t[fit_end(t, i, used, budget)]]) > budget,
    decreases t.len() - i,
{
    let e = fit_end(t, i, used, budget);
    if i < t.len() {
        let cw = width_of(seq![t[i]]);
        if used + cw <= budget {
            lemma_fit_end(t, i + 1, used + cw, budget);
            lemma_char_widths_front(t.subrange(i, e));
            assert(t.subrange(i, e).drop_first() =~= t.subrange(i + 1, e));
        } else {
            assert(t.subrange(i, e) =~= Seq::<char>::empty());
        }
    } else {
        assert(t.subrange(i, e) =~= Seq::<char>::empty());
    }
}

proof fn lemma_char_widths_front(s: Seq<char>)
    requires
        s.len() > 0,
    ensures
        char_widths(s) == width_of(seq![s[0]]) + char_widths(s.drop_first()),
    decreases s.len(),
{
    if s.len() > 1 {
        lemma_char_widths_front(s.drop_last());
        assert(s.drop_last().drop_first() =~= s.drop_first().drop_last());
    } else {
        assert(s.drop_first() =~= Seq::<char>::empty());
        assert(s.drop_last() =~= Seq::<char>::empty());
    }
}

/// When `truncate` cuts a text, the characters it keeps take up, one by
/// one, at most `max - 1` columns (leaving one for the `…`), and the first
/// character it drops would not have fit.
pub proof fn truncate_keeps_what_fits(text: Seq<char>, max: nat)
    requires
        width_of(text) > max,
    ensures
        ({
            let budget: nat = if max >= 1 { (max - 1) as nat } else { 0 };
            let kept = fit_end(text, 0, 0, budget);
            &&& truncate_spec(text, max) == text.take(kept).push('…')
            &&& char_widths(text.take(kept)) <= budget
            &&& kept < text.len() ==> char_widths(text.take(kept)) + width_of(seq![text[kept]]) > budget
        }),
{
    let budget: nat = if max >= 1 { (max - 1) as nat } else { 0 };
    lemma_fit_end(text, 0, 0, budget);
    assert(text.subrange(0, fit_end(text, 0, 0, budget)) =~= text.take(fit_end(text, 0, 0, budget)));
}


/// Seven cells joined by two spaces, as a table line lays them out.
pub open spec fn seven_cells(c: Seq<Seq<char>>) -> Seq<char> {
    c[0] + seq![' ', ' '] + c[1] + seq![' ', ' '] + c[2] + seq![' ', ' '] + c[3] + seq![' ', ' ']
        + c[4] + seq![' ', ' '] + c[5] + seq![' ', ' '] + c[6]
}

proof fn lemma_rows_spec_index(tasks: Seq<Task>, w: Seq<nat>, color: bool, i: int)
    requires
        0 <= i < tasks.len(),
    ensures
        rows_spec(tasks, w, color).len() == tasks.len(),
        rows_spec(tasks, w, color)[i] == row_spec(tasks[i], w, color),
    decreases tasks.len(),
{
    lemma_rows_spec_len(tasks, w, color);
    if i < tasks.len() - 1 {
        lemma_rows_spec_index(tasks.drop_last(), w, color, i);
    }
}

proof fn lemma_rows_spec_len(tasks: Seq<Task>, w: Seq<nat>, color: bool)
    ensures
        rows_spec(tasks, w, color).len() == tasks.len(),
    decreases tasks.len(),
{
    if tasks.len() > 0 {
        lemma_rows_spec_len(tasks.drop_last(), w, color);
    }
}

proof fn lemma_column_index(tasks: Seq<Task>, col: int, j: int)
    requires
        0 <= j < tasks.len(),
    ensures
        column(tasks, col).len() == tasks.len(),
        column(tasks, col)[j] == column_text(tasks[j], col),
    decreases tasks.len(),
{
    lemma_column_len(tasks, col);
    if j < tasks.len() - 1 {
        lemma_column_index(tasks.drop_last(), col, j);
    }
}

proof fn lemma_column_len(tasks: Seq<Task>, col: int)
    ensures
        column(tasks, col).len() == tasks.len(),
    decreases tasks.len(),
{
    if tasks.len() > 0 {
        lemma_column_len(tasks.drop_last(), col);
    }
}

proof fn lemma_max_width_bounds(texts: Seq<Seq<char>>, floor: nat, j: int)
    requires
        0 <= j < texts.len(),
    ensures
        max_width(texts, floor) >= width_of(texts[j]),
        max_width(texts, floor) >= floor,
    decreases texts.len(),
{
    if j < texts.len() - 1 {
        lemma_max_width_bounds(texts.drop_last(), floor, j);
    } else if texts.len() > 1 {
        lemma_max_width_bounds(texts.drop_last(), floor, 0);
    }
}

proof fn lemma_max_len_bounds(texts: Seq<Seq<char>>, floor: nat, j: int)
    requires
        0 <= j < texts.len(),
    ensures
        max_len(texts, floor) >= texts[j].len(),
    decreases texts.len(),
{
    if j < texts.len() - 1 {
        lemma_max_len_bounds(texts.drop_last(), floor, j);
    }
}

/// Each cell of the `list` table sits under the header that names it: the
/// first line is the header `ID STATUS PRIORITY TITLE ASSIGNED TAGS DUE`,
/// line `i + 1` is task `i` (in order), and its cells, padded to the
/// widths of their columns, are the task's id, status (with its marker),
/// priority, title (cut to 40 columns), assigned agent, tags and due date,
/// a missing value shown as `-`. Every column is at least as wide as every
/// value shown in it.
pub proof fn table_cells_sit_under_their_headers(tasks: Seq<Task>, color: bool, i: int)
    requires
        0 <= i < tasks.len(),
    ensures
        ({
            let w = column_widths(tasks);
            let t = tasks[i];
            let lines = table_spec(tasks, color);
            let bold = Some(color::BOLD@);
            &&& lines.len() == tasks.len() + 1
            &&& lines[0] == seven_cells(
                seq![
                    cell_spec("ID"@, w[0], bold, color),
                    cell_spec("STATUS"@, w[1], bold, color),
                    cell_spec("PRIORITY"@, w[2], bold, color),
                    cell_spec("TITLE"@, w[3], bold, color),
                    cell_spec("ASSIGNED"@, w[4], bold, color),
                    cell_spec("TAGS"@, w[5], bold, color),
                    cell_spec("DUE"@, w[6], bold, color),
                ],
            )
            &&& lines[i + 1] == seven_cells(
                seq![
                    cell_spec(signed_decimal(t.id as int), w[0], None, color),
                    cell_spec(status_display_spec(t.status@), w[1], None, color),
                    cell_spec(t.priority@, w[2], Some(priority_color_spec(t.priority@)), color),
                    cell_spec(truncate_spec(t.title@, 40), w[3], None, color),
                    cell_spec(or_dash(opt_chars(t.assigned_agent)), w[4], Some(color::CYAN@), color),
                    cell_spec(or_dash(opt_chars(t.tags)), w[5], Some(color::GRAY@), color),
                    cell_spec(or_dash(opt_chars(t.due_date)), w[6], None, color),
                ],
            )
            &&& w[0] >= signed_decimal(t.id as int).len()
            &&& w[1] >= width_of(status_display_spec(t.status@))
            &&& w[2] >= width_of(t.priority@)
            &&& w[3] >= width_of(truncate_spec(t.title@, 40))
            &&& w[4] >= width_of(or_dash(opt_chars(t.assigned_agent)))
            &&& w[5] >= width_of(or_dash(opt_chars(t.tags)))
            &&& w[6] >= width_of(or_dash(opt_chars(t.due_date)))
        }),
{
    let w = column_widths(tasks);
    lemma_rows_spec_index(tasks, w, color, i);
    let lines = table_spec(tasks, color);
    assert(lines[i + 1] == rows_spec(tasks, w, color)[i]);
    lemma_column_index(tasks, 0, i);
    lemma_max_len_bounds(column(tasks, 0), 2, i);
    lemma_column_index(tasks, 1, i);
    lemma_max_width_bounds(column(tasks, 1), 6, i);
    lemma_column_index(tasks, 2, i);
    lemma_max_width_bounds(column(tasks, 2), 8, i);
    lemma_column_index(tasks, 3, i);
    lemma_max_width_bounds(column(tasks, 3), 5, i);
    lemma_column_index(tasks, 4, i);
    lemma_max_width_bounds(column(tasks, 4), 8, i);
    lemma_column_index(tasks, 5, i);
    lemma_max_width_bounds(column(tasks, 5), 4, i);
    lemma_column_index(tasks, 6, i);
    lemma_max_width_bounds(column(tasks, 6), 10, i);
}

} // verus!
