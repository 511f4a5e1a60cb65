//! What is reported once projects were added: the failures grouped by their
//! message, how wide the messages are padded, and whether the run failed.
use crate::add::{error_message, Error};
use crate::subcommands::upgrade::{lemma_utf8_len_prefix, max_utf8_len, utf8_len};
use crate::text::{chars_of, copy_string, str_eq, views};
use vstd::prelude::*;

verus! {

/// The failures that share one message, with the identifiers they were given for.
pub struct FailureGroup {
    pub message: String,
    pub ids: Vec<String>,
}

/// A group as a message and the identifiers, in the order they failed.
pub open spec fn group_view(g: FailureGroup) -> (Seq<char>, Seq<Seq<char>>) {
    (g.message@, views(g.ids@))
}

pub open spec fn group_views(gs: Seq<FailureGroup>) -> Seq<(Seq<char>, Seq<Seq<char>>)> {
    gs.map_values(|g: FailureGroup| group_view(g))
}

/// Each failure as its identifier and the message of its error.
pub open spec fn failure_texts(fs: Seq<(String, Error)>) -> Seq<(Seq<char>, Seq<char>)> {
    fs.map_values(|f: (String, Error)| (f.0@, error_message(f.1)))
}

/// The errors of the failures.
pub open spec fn failure_errors(fs: Seq<(String, Error)>) -> Seq<Error> {
    fs.map_values(|f: (String, Error)| f.1)
}

/// Where the group of `msg` stands, if there is one.
pub open spec fn group_position(gs: Seq<(Seq<char>, Seq<Seq<char>>)>, msg: Seq<char>) -> Option<int>
    decreases gs.len(),
{
    if gs.len() == 0 {
        None
    } else {
        match group_position(gs.drop_last(), msg) {
            Some(k) => Some(k),
            None => if gs.last().0 == msg {
                Some(gs.len() - 1)
            } else {
                None
            },
        }
    }
}

/// The failures grouped by message: a group per message, in the order in which
/// the messages first occur, each with its identifiers in the order they came.
pub open spec fn grouped(fs: Seq<(Seq<char>, Seq<char>)>) -> Seq<(Seq<char>, Seq<Seq<char>>)>
    decreases fs.len(),
{
    if fs.len() == 0 {
        Seq::empty()
    } else {
        let gs = grouped(fs.drop_last());
        let id = fs.last().0;
        let msg = fs.last().1;
        match group_position(gs, msg) {
            Some(k) => gs.update(k, (msg, gs[k].1.push(id))),
            None => gs.push((msg, seq![id])),
        }
    }
}

/// `group_position` finds the first group with the message.
pub proof fn lemma_group_position(gs: Seq<(Seq<char>, Seq<Seq<char>>)>, msg: Seq<char>)
    ensures
        match group_position(gs, msg) {
            Some(k) => 0 <= k < gs.len() && gs[k].0 == msg && forall|j: int|
                0 <= j < k ==> gs[j].0 != msg,
            None => forall|j: int| 0 <= j < gs.len() ==> gs[j].0 != msg,
        },
    decreases gs.len(),
{
    if gs.len() > 0 {
        let p = gs.drop_last();
        lemma_group_position(p, msg);
        match group_position(p, msg) {
            Some(k) => {
                assert(p[k] == gs[k]);
                assert forall|j: int| 0 <= j < k implies gs[j].0 != msg by {
                    assert(p[j] == gs[j]);
                }
            },
            None => {
                assert forall|j: int| 0 <= j < gs.len() - 1 implies gs[j].0 != msg by {
                    assert(p[j] == gs[j]);
                }
            },
        }
    }
}

/// How many identifiers the groups hold together.
pub open spec fn id_count(gs: Seq<(Seq<char>, Seq<Seq<char>>)>) -> nat
    decreases gs.len(),
{
    if gs.len() == 0 {
        0
    } else {
        id_count(gs.drop_last()) + gs.last().1.len()
    }
}

proof fn lemma_id_count_push(gs: Seq<(Seq<char>, Seq<Seq<char>>)>, g: (Seq<char>, Seq<Seq<char>>))
    ensures
        id_count(gs.push(g)) == id_count(gs) + g.1.len(),
{
    assert(gs.push(g).drop_last() =~= gs);
}

proof fn lemma_id_count_update(gs: Seq<(Seq<char>, Seq<Seq<char>>)>, k: int, g: (Seq<char>, Seq<Seq<char>>))
    requires
        0 <= k < gs.len(),
    ensures
        id_count(gs.update(k, g)) == id_count(gs) - gs[k].1.len() + g.1.len(),
    decreases gs.len(),
{
    if k == gs.len() - 1 {
        assert(gs.update(k, g).drop_last() =~= gs.drop_last());
    } else {
        lemma_id_count_update(gs.drop_last(), k, g);
        assert(gs.update(k, g).drop_last() =~= gs.drop_last().update(k, g));
    }
}

/// Each group's message is that of a failure, and each failure's message has a group.
proof fn lemma_grouped_messages(fs: Seq<(Seq<char>, Seq<char>)>)
    ensures
        forall|i: int|
            #![trigger fs[i]]
            0 <= i < fs.len() ==> group_position(grouped(fs), fs[i].1) is Some,
        forall|k: int|
            #![trigger grouped(fs)[k]]
            0 <= k < grouped(fs).len() ==> exists|i: int|
                0 <= i < fs.len() && #[trigger] fs[i].1 == grouped(fs)[k].0,
    decreases fs.len(),
{
    if fs.len() > 0 {
        let prev = fs.drop_last();
        lemma_grouped_messages(prev);
        let gs = grouped(prev);
        let msg = fs.last().1;
        let g = grouped(fs);
        lemma_group_position(gs, msg);
        lemma_group_position(g, msg);
        assert(g.len() >= gs.len());
        assert(forall|k: int| 0 <= k < gs.len() ==> #[trigger] g[k].0 == gs[k].0);
        assert forall|i: int| #![trigger fs[i]] 0 <= i < fs.len() implies group_position(g, fs[i].1) is Some by {
            lemma_group_position(g, fs[i].1);
            if i < fs.len() - 1 {
                assert(prev[i] == fs[i]);
                lemma_group_position(gs, prev[i].1);
                let k = group_position(gs, prev[i].1)->0;
                assert(g[k].0 == fs[i].1);
            } else {
                let k = group_position(gs, msg);
                if k is Some {
                    assert(g[k->0].0 == fs[i].1);
                } else {
                    assert(g[gs.len() as int].0 == fs[i].1);
                }
            }
        }
        assert forall|k2: int| #![trigger g[k2]] 0 <= k2 < g.len() implies exists|i: int|
            0 <= i < fs.len() && #[trigger] fs[i].1 == g[k2].0 by {
            if k2 < gs.len() {
                let i = choose|i: int| 0 <= i < prev.len() && #[trigger] prev[i].1 == gs[k2].0;
                assert(fs[i] == prev[i]);
            } else {
                assert(fs[fs.len() - 1].1 == g[k2].0);
            }
        }
    }
}

/// The messages of the groups are distinct.
proof fn lemma_grouped_distinct(fs: Seq<(Seq<char>, Seq<char>)>)
    ensures
        forall|j: int, k: int|
            0 <= j < k < grouped(fs).len() ==> grouped(fs)[j].0 != grouped(fs)[k].0,
    decreases fs.len(),
{
    if fs.len() > 0 {
        let prev = fs.drop_last();
        lemma_grouped_distinct(prev);
        let gs = grouped(prev);
        let msg = fs.last().1;
        lemma_group_position(gs, msg);
    }
}

/// The groups hold as many identifiers as there were failures.
proof fn lemma_grouped_count(fs: Seq<(Seq<char>, Seq<char>)>)
    ensures
        id_count(grouped(fs)) == fs.len(),
    decreases fs.len(),
{
    if fs.len() > 0 {
        let prev = fs.drop_last();
        lemma_grouped_count(prev);
        let gs = grouped(prev);
        let id = fs.last().0;
        let msg = fs.last().1;
        lemma_group_position(gs, msg);
        match group_position(gs, msg) {
            Some(k) => lemma_id_count_update(gs, k, (msg, gs[k].1.push(id))),
            None => lemma_id_count_push(gs, (msg, seq![id])),
        }
    }
}

/// Grouping reports every failure once: the groups have distinct messages,
/// each failure's message has its group and each group's message is that of a
/// failure, and the groups hold as many identifiers as there were failures.
pub proof fn lemma_grouped(fs: Seq<(Seq<char>, Seq<char>)>)
    ensures
        forall|j: int, k: int|
            0 <= j < k < grouped(fs).len() ==> grouped(fs)[j].0 != grouped(fs)[k].0,
        forall|i: int|
            #![trigger fs[i]]
            0 <= i < fs.len() ==> group_position(grouped(fs), fs[i].1) is Some,
        forall|k: int|
            #![trigger grouped(fs)[k]]
            0 <= k < grouped(fs).len() ==> exists|i: int|
                0 <= i < fs.len() && #[trigger] fs[i].1 == grouped(fs)[k].0,
        id_count(grouped(fs)) == fs.len(),
{
    lemma_grouped_distinct(fs);
    lemma_grouped_messages(fs);
    lemma_grouped_count(fs);
}

/// The position of the group of `msg` among `groups`, if there is one.
fn find_group(groups: &Vec<FailureGroup>, msg: &str) -> (r: Option<usize>)
    ensures
        match r {
            Some(k) => group_position(group_views(groups@), msg@) == Some(k as int),
            None => group_position(group_views(groups@), msg@) is None,
        },
{
    let ghost gs = group_views(groups@);
    let mut k: usize = 0;
    while k < groups.len()
        invariant
            k <= groups.len(),
            gs == group_views(groups@),
            forall|j: int| 0 <= j < k ==> gs[j].0 != msg@,
        decreases groups.len() - k,
    {
        assert(gs[k as int].0 == groups@[k as int].message@);
        if str_eq(groups[k].message.as_str(), msg) {
            proof {
                lemma_group_position(gs, msg@);
            }
            return Some(k);
        }
        k = k + 1;
    }
    proof {
        lemma_group_position(gs, msg@);
    }
    None
}

/// The failures grouped by the messages of their errors, as `grouped` states.
pub fn group_failures(failures: Vec<(String, Error)>) -> (r: Vec<FailureGroup>)
    ensures
        group_views(r@) == grouped(failure_texts(failures@)),
{
    let ghost fs = failure_texts(failures@);
    let mut groups: Vec<FailureGroup> = Vec::new();
    let mut i: usize = 0;
    while i < failures.len()
        invariant
            i <= failures.len(),
            fs == failure_texts(failures@),
            group_views(groups@) == grouped(fs.take(i as int)),
        decreases failures.len() - i,
    {
        let msg = failures[i].1.message();
        let id = copy_string(&failures[i].0);
        let ghost before = group_views(groups@);
        assert(fs.take(i + 1).drop_last() =~= fs.take(i as int));
        assert(fs.take(i + 1).last() == (id@, msg@));
        proof {
            lemma_group_position(before, msg@);
        }
        match find_group(&groups, msg.as_str()) {
            Some(k) => {
                let mut g = groups.remove(k);
                g.ids.push(id);
                groups.insert(k, g);
                assert(group_views(groups@) =~= before.update(k as int, (msg@, before[k as int].1.push(id@)))) by {
                    assert(views(g.ids@) =~= before[k as int].1.push(id@));
                }
            },
            None => {
                let mut ids: Vec<String> = Vec::new();
                ids.push(id);
                assert(views(ids@) =~= seq![id@]);
                groups.push(FailureGroup { message: msg, ids });
                assert(group_views(groups@) =~= before.push((msg@, seq![id@])));
            },
        }
        i = i + 1;
    }
    assert(fs.take(failures.len() as int) =~= fs);
    groups
}

/// The bytes of `s`, counted up to `cap`.
pub fn capped_byte_len(s: &str, cap: usize) -> (r: usize)
    ensures
        r == if utf8_len(s@) < cap {
            utf8_len(s@)
        } else {
            cap as nat
        },
{
    let v = chars_of(s);
    let mut n: usize = 0;
    let mut i: usize = 0;
    while i < v.len()
        invariant
            v@ == s@,
            i <= v.len(),
            n == utf8_len(s@.take(i as int)),
            n < cap || (n == 0 && cap == 0),
        decreases v.len() - i,
    {
        if n >= cap {
            proof {
                lemma_utf8_len_prefix(s@, i as int);
            }
            return cap;
        }
        assert(s@.take(i + 1).drop_last() =~= s@.take(i as int));
        let c = v[i];
        let w: usize = if (c as u32) < 0x80 {
            1
        } else if (c as u32) < 0x800 {
            2
        } else if (c as u32) < 0x10000 {
            3
        } else {
            4
        };
        if w >= cap - n {
            proof {
                lemma_utf8_len_prefix(s@, i + 1);
            }
            return cap;
        }
        n = n + w;
        i = i + 1;
    }
    assert(s@.take(v.len() as int) =~= s@);
    n
}

/// The width the messages are padded to: that of the longest (in bytes), at
/// most 50, and 0 where there is none.
pub open spec fn message_pad(messages: Seq<Seq<char>>) -> int {
    let longest = max_utf8_len(messages);
    if longest > 50 {
        50
    } else {
        longest
    }
}

/// The messages of the groups.
pub open spec fn group_messages(gs: Seq<FailureGroup>) -> Seq<Seq<char>> {
    gs.map_values(|g: FailureGroup| g.message@)
}

/// The width the messages of the groups are padded to.
pub fn failure_pad(groups: &Vec<FailureGroup>) -> (r: usize)
    ensures
        r == message_pad(group_messages(groups@)),
{
    let ghost names = group_messages(groups@);
    let mut longest: usize = 0;
    let mut i: usize = 0;
    while i < groups.len()
        invariant
            i <= groups.len(),
            names == group_messages(groups@),
            longest == message_pad(names.take(i as int)),
        decreases groups.len() - i,
    {
        assert(names.take(i + 1).drop_last() =~= names.take(i as int));
        assert(names.take(i + 1).last() == groups@[i as int].message@);
        let l = capped_byte_len(groups[i].message.as_str(), 51);
        let l = if l > 50 {
            50
        } else {
            l
        };
        if l > longest {
            longest = l;
        }
        i = i + 1;
    }
    assert(names.take(groups.len() as int) =~= names);
    longest
}

/// Whether adding ended in failure. With nothing added and a single failure,
/// that failure decides: anything but `AlreadyAdded`. Otherwise any failure
/// whose message is not that of `AlreadyAdded`.
pub open spec fn reports_failure(nothing_added: bool, errors: Seq<Error>) -> bool {
    if nothing_added && errors.len() == 1 {
        !(errors[0] is AlreadyAdded)
    } else {
        exists|i: int|
            0 <= i < errors.len() && error_message(#[trigger] errors[i]) != error_message(Error::AlreadyAdded)
    }
}

/// Failures that are all `AlreadyAdded` do not fail the run.
pub proof fn lemma_already_added_is_no_failure(nothing_added: bool, errors: Seq<Error>)
    requires
        forall|i: int| 0 <= i < errors.len() ==> #[trigger] errors[i] is AlreadyAdded,
    ensures
        !reports_failure(nothing_added, errors),
{
    if !(nothing_added && errors.len() == 1) {
        assert forall|i: int| 0 <= i < errors.len() implies error_message(#[trigger] errors[i]) == error_message(
            Error::AlreadyAdded,
        ) by {
            assert(errors[i] is AlreadyAdded);
        }
    }
}

/// How the failures are shown.
pub enum FailureReport {
    /// Nothing was added and one project failed: its message, and whether it is
    /// only a warning (the project had already been added).
    Single { message: String, warning: bool },
    /// The failures grouped by message, and the width the messages are padded to.
    Grouped { groups: Vec<FailureGroup>, pad: usize },
}

/// What is shown after adding, and whether the run failed.
pub struct AddReport {
    pub failures: FailureReport,
    pub exit_error: bool,
}

/// Whether any failure's message differs from that of `AlreadyAdded`.
fn any_real_failure(failures: &Vec<(String, Error)>) -> (r: bool)
    ensures
        r == exists|i: int|
            0 <= i < failures@.len() && error_message(#[trigger] failure_errors(failures@)[i])
                != error_message(Error::AlreadyAdded),
{
    let ghost es = failure_errors(failures@);
    let already = Error::AlreadyAdded.message();
    let mut i: usize = 0;
    while i < failures.len()
        invariant
            i <= failures.len(),
            es == failure_errors(failures@),
            already@ == error_message(Error::AlreadyAdded),
            forall|j: int| 0 <= j < i ==> error_message(#[trigger] es[j]) == error_message(Error::AlreadyAdded),
        decreases failures.len() - i,
    {
        let m = failures[i].1.message();
        if !str_eq(m.as_str(), already.as_str()) {
            assert(error_message(es[i as int]) != error_message(Error::AlreadyAdded));
            return true;
        }
        i = i + 1;
    }
    false
}

/// What to show of the failures of adding projects, after the successes, and
/// whether the run failed: a single failure is shown alone when nothing was
/// added; otherwise the failures are grouped by message.
pub fn display_successes_failures(successes: &Vec<String>, failures: Vec<(String, Error)>) -> (r: AddReport)
    ensures
        r.exit_error == reports_failure(successes@.len() == 0, failure_errors(failures@)),
        successes@.len() == 0 && failures@.len() == 1 ==> (r.failures matches FailureReport::Single {
            message,
            warning,
        } && message@ == error_message(failures@[0].1) && warning == failures@[0].1 is AlreadyAdded),
        !(successes@.len() == 0 && failures@.len() == 1) ==> (r.failures matches FailureReport::Grouped {
            groups,
            pad,
        } && group_views(groups@) == grouped(failure_texts(failures@)) && pad == message_pad(
            group_messages(groups@),
        )),
{
    if successes.len() == 0 && failures.len() == 1 {
        let message = failures[0].1.message();
        let warning = match &failures[0].1 {
            Error::AlreadyAdded => true,
            _ => false,
        };
        AddReport { failures: FailureReport::Single { message, warning }, exit_error: !warning }
    } else {
        let exit_error = any_real_failure(&failures);
        let groups = group_failures(failures);
        let pad = failure_pad(&groups);
        AddReport { failures: FailureReport::Grouped { groups, pad }, exit_error }
    }
}

} // verus!
