//! Task status and priority levels, and the task record as stored.

use vstd::prelude::*;
use crate::color;
use crate::error::TaskError;
use crate::sanitize::{message_echo_spec, sanitize_for_message};
use crate::text::{
    ascii_lower, chars_of, eq_ignore_ascii_case, eq_ignore_ascii_case_spec, is_white_space, str_eq,
    string_from_chars, trim_chars, trim_seq, trim_start_seq,
};

verus! {

/// Task lifecycle status.
#[derive(Debug, Clone, Copy, PartialEq, Eq, Structural)]
pub enum Status {
    Todo,
    InProgress,
    Done,
    Blocked,
}

impl Status {
    /// The stored and displayed name of the status.
    pub open spec fn name(self) -> Seq<char> {
        match self {
            Status::Todo => seq!['t', 'o', 'd', 'o'],
            Status::InProgress => seq!['i', 'n', '_', 'p', 'r', 'o', 'g', 'r', 'e', 's', 's'],
            Status::Done => seq!['d', 'o', 'n', 'e'],
            Status::Blocked => seq!['b', 'l', 'o', 'c', 'k', 'e', 'd'],
        }
    }

    /// The status a name denotes, if any.
    pub open spec fn from_name(s: Seq<char>) -> Option<Status> {
        if s == Status::Todo.name() {
            Some(Status::Todo)
        } else if s == Status::InProgress.name() {
            Some(Status::InProgress)
        } else if s == Status::Done.name() {
            Some(Status::Done)
        } else if s == Status::Blocked.name() {
            Some(Status::Blocked)
        } else {
            None
        }
    }

    /// Marker shown beside the status: 🟢 in_progress, 🔵 done, 🟡 todo,
    /// 🔴 blocked.
    pub open spec fn marker(self) -> Seq<char> {
        match self {
            Status::Todo => seq!['\u{1f7e1}'],
            Status::InProgress => seq!['\u{1f7e2}'],
            Status::Done => seq!['\u{1f535}'],
            Status::Blocked => seq!['\u{1f534}'],
        }
    }

    pub fn as_str(&self) -> (r: &'static str)
        ensures
            r@ == self.name(),
    {
        match self {
            Status::Todo => {
                proof {
                    reveal_strlit("todo");
                }
                "todo"
            },
            Status::InProgress => {
                proof {
                    reveal_strlit("in_progress");
                }
                "in_progress"
            },
            Status::Done => {
                proof {
                    reveal_strlit("done");
                }
                "done"
            },
            Status::Blocked => {
                proof {
                    reveal_strlit("blocked");
                }
                "blocked"
            },
        }
    }

    pub fn emoji(&self) -> (r: &'static str)
        ensures
            r@ == self.marker(),
    {
        match self {
            Status::Todo => {
                proof {
                    reveal_strlit("🟡");
                }
                "🟡"
            },
            Status::InProgress => {
                proof {
                    reveal_strlit("🟢");
                }
                "🟢"
            },
            Status::Done => {
                proof {
                    reveal_strlit("🔵");
                }
                "🔵"
            },
            Status::Blocked => {
                proof {
                    reveal_strlit("🔴");
                }
                "🔴"
            },
        }
    }

    /// Parses a status name; an unknown name is refused with the value
    /// echoed back in sanitized, bounded form.
    pub fn parse(s: &str) -> (r: Result<Status, TaskError>)
        ensures
            match r {
                Ok(st) => Status::from_name(s@) == Some(st),
                Err(e) => Status::from_name(s@) is None && (e matches TaskError::InvalidStatus(
                    shown,
                ) && shown@ == message_echo_spec(s@)),
            },
    {
        if str_eq(s, Status::Todo.as_str()) {
            Ok(Status::Todo)
        } else if str_eq(s, Status::InProgress.as_str()) {
            Ok(Status::InProgress)
        } else if str_eq(s, Status::Done.as_str()) {
            Ok(Status::Done)
        } else if str_eq(s, Status::Blocked.as_str()) {
            Ok(Status::Blocked)
        } else {
            Err(TaskError::InvalidStatus(sanitize_for_message(s)))
        }
    }
}

/// Task priority level.
#[derive(Debug, Clone, Copy, PartialEq, Eq, Structural)]
pub enum Priority {
    Low,
    Medium,
    High,
    Urgent,
}

impl Priority {
    /// The stored and displayed name of the priority.
    pub open spec fn name(self) -> Seq<char> {
        match self {
            Priority::Low => seq!['l', 'o', 'w'],
            Priority::Medium => seq!['m', 'e', 'd', 'i', 'u', 'm'],
            Priority::High => seq!['h', 'i', 'g', 'h'],
            Priority::Urgent => seq!['u', 'r', 'g', 'e', 'n', 't'],
        }
    }

    /// The priority a name denotes, if any.
    pub open spec fn from_name(s: Seq<char>) -> Option<Priority> {
        if s == Priority::Low.name() {
            Some(Priority::Low)
        } else if s == Priority::Medium.name() {
            Some(Priority::Medium)
        } else if s == Priority::High.name() {
            Some(Priority::High)
        } else if s == Priority::Urgent.name() {
            Some(Priority::Urgent)
        } else {
            None
        }
    }

    /// ANSI color of the priority label: dim, cyan, yellow, bold red.
    pub open spec fn color_code(self) -> Seq<char> {
        match self {
            Priority::Low => color::DIM@,
            Priority::Medium => color::CYAN@,
            Priority::High => color::YELLOW@,
            Priority::Urgent => color::BOLD_RED@,
        }
    }

    pub fn as_str(&self) -> (r: &'static str)
        ensures
            r@ == self.name(),
    {
        match self {
            Priority::Low => {
                proof {
                    reveal_strlit("low");
                }
                "low"
            },
            Priority::Medium => {
                proof {
                    reveal_strlit("medium");
                }
                "medium"
            },
            Priority::High => {
                proof {
                    reveal_strlit("high");
                }
                "high"
            },
            Priority::Urgent => {
                proof {
                    reveal_strlit("urgent");
                }
                "urgent"
            },
        }
    }

    /// Parses a priority name; an unknown name is refused with the value
    /// echoed back in sanitized, bounded form.
    pub fn parse(s: &str) -> (r: Result<Priority, TaskError>)
        ensures
            match r {
                Ok(p) => Priority::from_name(s@) == Some(p),
                Err(e) => Priority::from_name(s@) is None && (e matches TaskError::InvalidPriority(
                    shown,
                ) && shown@ == message_echo_spec(s@)),
            },
    {
        if str_eq(s, Priority::Low.as_str()) {
            Ok(Priority::Low)
        } else if str_eq(s, Priority::Medium.as_str()) {
            Ok(Priority::Medium)
        } else if str_eq(s, Priority::High.as_str()) {
            Ok(Priority::High)
        } else if str_eq(s, Priority::Urgent.as_str()) {
            Ok(Priority::Urgent)
        } else {
            Err(TaskError::InvalidPriority(sanitize_for_message(s)))
        }
    }

    /// ANSI color code applied to the priority label for readability.
    pub fn ansi_color(&self) -> (r: &'static str)
        ensures
            r@ == self.color_code(),
    {
        match self {
            Priority::Low => color::DIM,
            Priority::Medium => color::CYAN,
            Priority::High => color::YELLOW,
            Priority::Urgent => color::BOLD_RED,
        }
    }
}

/// A single task row as stored in and read from the database.
#[derive(Debug, Clone)]
pub struct Task {
    pub id: i64,
    pub title: String,
    pub description: Option<String>,
    pub status: String,
    pub priority: String,
    pub assigned_agent: Option<String>,
    pub tags: Option<String>,
    pub created_at: String,
    pub updated_at: String,
    pub due_date: Option<String>,
}

pub open spec fn opt_chars(o: Option<String>) -> Option<Seq<char>> {
    match o {
        Some(s) => Some(s@),
        None => None,
    }
}

pub open spec fn strings_view(v: Seq<String>) -> Seq<Seq<char>> {
    v.map_values(|x: String| x@)
}

/// The pieces of `s` between commas (`str::split(',')`): one more piece
/// than there are commas, possibly empty ones.
pub open spec fn split_commas(s: Seq<char>) -> Seq<Seq<char>>
    decreases s.len(),
{
    if s.len() == 0 {
        seq![Seq::empty()]
    } else {
        let p = split_commas(s.drop_last());
        if s.last() == ',' {
            p.push(Seq::empty())
        } else {
            p.update(p.len() - 1, p.last().push(s.last()))
        }
    }
}

pub proof fn lemma_split_commas_nonempty(s: Seq<char>)
    ensures
        split_commas(s).len() >= 1,
    decreases s.len(),
{
    if s.len() > 0 {
        lemma_split_commas_nonempty(s.drop_last());
    }
}

/// The trimmed pieces that are not empty, in order.
pub open spec fn nonempty_trimmed(ps: Seq<Seq<char>>) -> Seq<Seq<char>>
    decreases ps.len(),
{
    if ps.len() == 0 {
        Seq::empty()
    } else {
        let r = nonempty_trimmed(ps.drop_last());
        let t = trim_seq(ps.last());
        if t.len() > 0 {
            r.push(t)
        } else {
            r
        }
    }
}

/// The tags of a comma-separated tag list: each piece trimmed, empty pieces
/// dropped; no tags at all when the list is absent or blank.
pub open spec fn tag_list_spec(tags: Option<Seq<char>>) -> Seq<Seq<char>> {
    match tags {
        Some(t) => if trim_seq(t).len() == 0 {
            Seq::empty()
        } else {
            nonempty_trimmed(split_commas(t))
        },
        None => Seq::empty(),
    }
}

/// Appends the trimmed `piece` to `out` unless it is blank.
fn push_trimmed_piece(out: &mut Vec<String>, piece: &Vec<char>)
    ensures
        strings_view(final(out)@) == ({
            let t = trim_seq(piece@);
            if t.len() > 0 {
                strings_view(old(out)@).push(t)
            } else {
                strings_view(old(out)@)
            }
        }),
{
    let t = trim_chars(piece.as_slice());
    if t.len() > 0 {
        let s = string_from_chars(t.as_slice());
        out.push(s);
        assert(strings_view(out@) =~= strings_view(old(out)@).push(t@));
    }
}

impl Task {
    /// The task's tags: the comma-separated pieces of `tags`, trimmed, with
    /// empty pieces dropped.
    pub fn tag_list(&self) -> (v: Vec<String>)
        ensures
            strings_view(v@) == tag_list_spec(opt_chars(self.tags)),
    {
        match &self.tags {
            Some(t) => {
                let cs = chars_of(t.as_str());
                let tt = trim_chars(cs.as_slice());
                if tt.len() == 0 {
                    return Vec::new();
                }
                let mut out: Vec<String> = Vec::new();
                let mut cur: Vec<char> = Vec::new();
                let ghost mut done: Seq<Seq<char>> = Seq::empty();
                let mut i: usize = 0;
                assert(cs@.take(0) =~= Seq::<char>::empty());
                while i < cs.len()
                    invariant
                        i <= cs@.len(),
                        split_commas(cs@.take(i as int)) == done.push(cur@),
                        strings_view(out@) == nonempty_trimmed(done),
                    decreases cs@.len() - i,
                {
                    let c = cs[i];
                    let ghost prev = cs@.take(i as int);
                    assert(cs@.take(i + 1).drop_last() =~= prev);
                    if c == ',' {
                        push_trimmed_piece(&mut out, &cur);
                        proof {
                            assert(done.push(cur@).drop_last() =~= done);
                            done = done.push(cur@);
                        }
                        cur = Vec::new();
                    } else {
                        let ghost old_cur = cur@;
                        cur.push(c);
                        assert(done.push(old_cur).update(done.len() as int, old_cur.push(c)) =~= done.push(cur@));
                    }
                    i = i + 1;
                }
                assert(cs@.take(cs@.len() as int) =~= cs@);
                push_trimmed_piece(&mut out, &cur);
                assert(done.push(cur@).drop_last() =~= done);
                out
            },
            None => Vec::new(),
        }
    }

    /// Whether one of the task's tags equals `tag`, ignoring ASCII case.
    pub fn has_tag(&self, tag: &str) -> (b: bool)
        ensures
            b == has_tag_spec(opt_chars(self.tags), tag@),
    {
        let tags = self.tag_list();
        let want = chars_of(tag);
        let mut i: usize = 0;
        while i < tags.len()
            invariant
                i <= tags@.len(),
                want@ == tag@,
                strings_view(tags@) == tag_list_spec(opt_chars(self.tags)),
                forall|k: int|
                    0 <= k < i ==> !eq_ignore_ascii_case_spec(
                        #[trigger] tag_list_spec(opt_chars(self.tags))[k],
                        tag@,
                    ),
            decreases tags@.len() - i,
        {
            let t = chars_of(tags[i].as_str());
            assert(strings_view(tags@)[i as int] == tags@[i as int]@);
            if eq_ignore_ascii_case(t.as_slice(), want.as_slice()) {
                return true;
            }
            i = i + 1;
        }
        false
    }
}


/// Parsing a status's name gives the status back, and a name parses only
/// to the status that has it.
pub proof fn status_name_roundtrip(st: Status, s: Seq<char>)
    ensures
        Status::from_name(st.name()) == Some(st),
        Status::from_name(s) == Some(st) ==> st.name() == s,
{
    assert(Status::Todo.name() != Status::InProgress.name());
    assert(Status::Todo.name() != Status::Done.name());
    assert(Status::Todo.name() != Status::Blocked.name());
    assert(Status::InProgress.name() != Status::Done.name());
    assert(Status::InProgress.name() != Status::Blocked.name());
    assert(Status::Done.name() != Status::Blocked.name());
}

/// Parsing a priority's name gives the priority back, and a name parses
/// only to the priority that has it.
pub proof fn priority_name_roundtrip(p: Priority, s: Seq<char>)
    ensures
        Priority::from_name(p.name()) == Some(p),
        Priority::from_name(s) == Some(p) ==> p.name() == s,
{
    assert(Priority::Low.name() != Priority::Medium.name());
    assert(Priority::Low.name() != Priority::High.name());
    assert(Priority::Low.name() != Priority::Urgent.name());
    assert(Priority::Medium.name() != Priority::High.name());
    assert(Priority::Medium.name() != Priority::Urgent.name());
    assert(Priority::High.name() != Priority::Urgent.name());
}

/// A tag as `tag_list` gives it: non-empty, not starting or ending with
/// whitespace, and free of commas.
pub open spec fn is_clean_tag(t: Seq<char>) -> bool {
    &&& t.len() > 0
    &&& !is_white_space(t[0])
    &&& !is_white_space(t.last())
    &&& !t.contains(',')
}

proof fn lemma_split_commas_comma_free(s: Seq<char>)
    ensures
        forall|k: int| 0 <= k < split_commas(s).len() ==> !(#[trigger] split_commas(s)[k]).contains(','),
    decreases s.len(),
{
    if s.len() > 0 {
        lemma_split_commas_comma_free(s.drop_last());
        lemma_split_commas_nonempty(s.drop_last());
        let p = split_commas(s.drop_last());
        if s.last() != ',' {
            assert forall|k: int| 0 <= k < split_commas(s).len() implies !(
            #[trigger] split_commas(s)[k]).contains(',') by {
                if k == p.len() - 1 {
                    let q = p.last().push(s.last());
                    assert(split_commas(s)[k] == q);
                    if q.contains(',') {
                        let j = choose|j: int| 0 <= j < q.len() && q[j] == ',';
                        assert(p.last()[j] == ',');
                    }
                }
            }
        } else {
            assert forall|k: int| 0 <= k < split_commas(s).len() implies !(
            #[trigger] split_commas(s)[k]).contains(',') by {
                if k == p.len() {
                    assert(split_commas(s)[k] =~= Seq::<char>::empty());
                }
            }
        }
    }
}

proof fn lemma_trim_shape(s: Seq<char>)
    ensures
        trim_seq(s).len() > 0 ==> !is_white_space(trim_seq(s)[0]) && !is_white_space(
            trim_seq(s).last(),
        ),
        forall|j: int|
            0 <= j < trim_seq(s).len() ==> #[trigger] trim_seq(s)[j] == s[j + (s.len()
                - trim_start_seq(s).len())],
{
    crate::text::lemma_trim_start_shape(s);
    crate::text::lemma_trim_end_shape(trim_start_seq(s));
}

proof fn lemma_nonempty_trimmed_clean(ps: Seq<Seq<char>>)
    requires
        forall|k: int| 0 <= k < ps.len() ==> !(#[trigger] ps[k]).contains(','),
    ensures
        forall|k: int| 0 <= k < nonempty_trimmed(ps).len() ==> is_clean_tag(#[trigger] nonempty_trimmed(ps)[k]),
    decreases ps.len(),
{
    if ps.len() > 0 {
        assert forall|k: int| 0 <= k < ps.drop_last().len() implies !(
        #[trigger] ps.drop_last()[k]).contains(',') by {
            assert(ps.drop_last()[k] == ps[k]);
        }
        lemma_nonempty_trimmed_clean(ps.drop_last());
        let last = ps.last();
        let t = trim_seq(last);
        lemma_trim_shape(last);
        crate::text::lemma_trim_start_len(last);
        crate::text::lemma_trim_end_len(trim_start_seq(last));
        if t.contains(',') {
            let j = choose|j: int| 0 <= j < t.len() && t[j] == ',';
            assert(t[j] == last[j + (last.len() - trim_start_seq(last).len())]);
            assert(!ps[ps.len() - 1].contains(','));
        }
        let r = nonempty_trimmed(ps.drop_last());
        if t.len() > 0 {
            assert(is_clean_tag(t));
            assert forall|k: int| 0 <= k < nonempty_trimmed(ps).len() implies is_clean_tag(
                #[trigger] nonempty_trimmed(ps)[k],
            ) by {
                if k < r.len() {
                    assert(nonempty_trimmed(ps)[k] == r[k]);
                }
            }
        }
    }
}

/// Every tag that `tag_list` gives is non-empty, has no leading or
/// trailing whitespace and holds no comma.
pub proof fn tag_list_tags_are_clean(tags: Option<Seq<char>>)
    ensures
        forall|k: int|
            0 <= k < tag_list_spec(tags).len() ==> is_clean_tag(#[trigger] tag_list_spec(tags)[k]),
{
    if let Some(t) = tags {
        lemma_split_commas_comma_free(t);
        lemma_nonempty_trimmed_clean(split_commas(t));
    }
}


/// Whether one of `tags` equals `tag` ignoring ASCII case (what
/// `has_tag` answers).
pub open spec fn has_tag_spec(tags: Option<Seq<char>>, tag: Seq<char>) -> bool {
    exists|k: int|
        0 <= k < tag_list_spec(tags).len() && eq_ignore_ascii_case_spec(
            #[trigger] tag_list_spec(tags)[k],
            tag,
        )
}

/// `has_tag` cannot tell apart two queries that differ only in the case
/// of ASCII letters.
pub proof fn has_tag_ignores_ascii_case(tags: Option<Seq<char>>, a: Seq<char>, b: Seq<char>)
    requires
        a.len() == b.len(),
        forall|i: int| 0 <= i < a.len() ==> ascii_lower(#[trigger] a[i]) == ascii_lower(b[i]),
    ensures
        has_tag_spec(tags, a) == has_tag_spec(tags, b),
{
    if has_tag_spec(tags, a) {
        let k = choose|k: int|
            0 <= k < tag_list_spec(tags).len() && eq_ignore_ascii_case_spec(
                #[trigger] tag_list_spec(tags)[k],
                a,
            );
        let t = tag_list_spec(tags)[k];
        assert forall|i: int| 0 <= i < t.len() implies ascii_lower(#[trigger] t[i]) == ascii_lower(
            b[i],
        ) by {
            assert(ascii_lower(t[i]) == ascii_lower(a[i]));
        }
        assert(eq_ignore_ascii_case_spec(tag_list_spec(tags)[k], b));
    }
    if has_tag_spec(tags, b) {
        let k = choose|k: int|
            0 <= k < tag_list_spec(tags).len() && eq_ignore_ascii_case_spec(
                #[trigger] tag_list_spec(tags)[k],
                b,
            );
        let t = tag_list_spec(tags)[k];
        assert forall|i: int| 0 <= i < t.len() implies ascii_lower(#[trigger] t[i]) == ascii_lower(
            a[i],
        ) by {
            assert(ascii_lower(t[i]) == ascii_lower(b[i]));
        }
        assert(eq_ignore_ascii_case_spec(tag_list_spec(tags)[k], a));
    }
}

} // verus!
