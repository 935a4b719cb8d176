//! The history of commands.
use crate::text::{
    chars_of, contains_text, has_text, lemma_newline_cons, lemma_trimmed_ends,
    lemma_trimmed_twice, lemma_trimmed_within, lines, lines_of, same_text, string_of, texts, trim,
    trimmed,
};
use vstd::prelude::*;

verus! {

/// The entries of a history, as sequences of characters.
pub open spec fn entries(h: Seq<String>) -> Seq<Seq<char>> {
    Seq::new(h.len(), |i: int| h[i]@)
}

/// The last `max` entries.
pub open spec fn latest(h: Seq<Seq<char>>, max: nat) -> Seq<Seq<char>> {
    if h.len() > max {
        h.skip(h.len() - max)
    } else {
        h
    }
}

/// Whether a command is put into the history: it is not blank, and not the
/// entry that was put there last.
pub open spec fn is_news(h: Seq<Seq<char>>, line: Seq<char>) -> bool {
    trimmed(line).len() > 0 && !(h.len() > 0 && h.last() == trimmed(line))
}

/// The history after a command.
pub open spec fn with_entry(h: Seq<Seq<char>>, line: Seq<char>, max: nat) -> Seq<Seq<char>> {
    if is_news(h, line) {
        latest(h.push(trimmed(line)), max)
    } else {
        h
    }
}

/// Drops the oldest entries, so that at most `max` are left.
fn keep_latest(history: &mut Vec<String>, max: usize)
    ensures
        entries(final(history)@) == latest(entries(old(history)@), max as nat),
{
    let n: usize = history.len();
    if n > max {
        let kept = history.split_off(n - max);
        *history = kept;
        assert(entries(history@) =~= entries(old(history)@).skip(n - max));
    }
}

/// Puts a command into the history, unless it is blank or repeats the last
/// entry; says whether it did.
pub fn push_history_entry(history: &mut Vec<String>, line: &str, max_history: usize) -> (r: bool)
    ensures
        r == is_news(entries(old(history)@), line@),
        entries(final(history)@) == with_entry(
            entries(old(history)@),
            line@,
            max_history as nat,
        ),
{
    let cs = chars_of(line);
    let t = trim(cs.as_slice());
    if t.len() == 0 {
        return false;
    }
    let entry = string_of(t);
    let n: usize = history.len();
    if n > 0 && same_text(history[n - 1].as_str(), entry.as_str()) {
        assert(entries(history@).last() == history@[n - 1]@);
        return false;
    }
    let ghost prior = entries(history@);
    assert(n > 0 ==> prior.last() == history@[n - 1]@);
    history.push(entry);
    assert(entries(history@) =~= prior.push(trimmed(line@)));
    keep_latest(history, max_history);
    true
}

/// The latest entry before position `end` that contains `query`.
pub open spec fn last_match(h: Seq<Seq<char>>, query: Seq<char>, end: int) -> Option<usize>
    decreases end,
{
    if end <= 0 {
        None
    } else if contains_text(h[end - 1], query) {
        Some((end - 1) as usize)
    } else {
        last_match(h, query, end - 1)
    }
}

/// What a search finds: the latest entry that contains `query`, before
/// position `before` where that is given. A blank query finds the latest entry
/// of all.
pub open spec fn reverse_match(
    h: Seq<Seq<char>>,
    query: Seq<char>,
    before: Option<usize>,
) -> Option<usize> {
    if query.len() == 0 {
        if h.len() > 0 {
            Some((h.len() - 1) as usize)
        } else {
            None
        }
    } else {
        last_match(
            h,
            query,
            match before {
                Some(k) => k as int,
                None => h.len() as int,
            },
        )
    }
}

/// The latest entry that contains `query`, before position `start_before`
/// where that is given. A blank query finds the latest entry of all.
pub fn find_reverse_history_match(
    history: &[String],
    query: &str,
    start_before: Option<usize>,
) -> (r: Option<usize>)
    requires
        start_before is Some && query@.len() > 0 ==> start_before->0 <= history@.len(),
    ensures
        r == reverse_match(entries(history@), query@, start_before),
        r is Some ==> r->0 < history@.len(),
{
    let ghost h = entries(history@);
    let n: usize = history.len();
    let q = chars_of(query);
    if q.len() == 0 {
        return if n > 0 {
            Some(n - 1)
        } else {
            None
        };
    }
    let end: usize = match start_before {
        Some(k) => k,
        None => n,
    };
    let mut i: usize = end;
    while i > 0
        invariant
            h == entries(history@),
            i <= end <= history@.len(),
            reverse_match(h, query@, start_before) == last_match(h, query@, i as int),
        decreases i,
    {
        i = i - 1;
        let cs = chars_of(history[i].as_str());
        assert(h[i as int] == history@[i as int]@);
        if has_text(cs.as_slice(), query) {
            return Some(i);
        }
    }
    None
}

/// A search finds an entry that contains the query and stands where it was
/// looked for, and no later one there contains it; it finds none only where
/// there is none.
pub proof fn law_match_is_latest(h: Seq<Seq<char>>, query: Seq<char>, end: int)
    requires
        0 <= end <= h.len() <= usize::MAX,
    ensures
        match last_match(h, query, end) {
            Some(i) => {
                &&& i < end
                &&& contains_text(h[i as int], query)
                &&& forall|j: int| i < j < end ==> !contains_text(#[trigger] h[j], query)
            },
            None => forall|j: int| 0 <= j < end ==> !contains_text(#[trigger] h[j], query),
        },
    decreases end,
{
    if end > 0 && !contains_text(h[end - 1], query) {
        law_match_is_latest(h, query, end - 1);
    }
}

/// The lines of a history file that are not blank, without white space at
/// their ends.
pub open spec fn file_entries(ls: Seq<Seq<char>>) -> Seq<Seq<char>>
    decreases ls.len(),
{
    if ls.len() == 0 {
        seq![]
    } else if trimmed(ls.last()).len() == 0 {
        file_entries(ls.drop_last())
    } else {
        file_entries(ls.drop_last()).push(trimmed(ls.last()))
    }
}

/// The history that a file holds.
pub fn read_history(contents: &str, max_history: usize) -> (r: Vec<String>)
    ensures
        entries(r@) == latest(file_entries(lines(contents@)), max_history as nat),
{
    let cs = chars_of(contents);
    let ls = lines_of(cs.as_slice());
    let ghost all = lines(contents@);
    let n: usize = ls.len();
    let mut out: Vec<String> = Vec::new();
    let mut i: usize = 0;
    assert(all.take(0).len() == 0);
    assert(entries(out@) =~= file_entries(all.take(0)));
    while i < n
        invariant
            n == ls@.len(),
            texts(ls@) == all,
            i <= n,
            entries(out@) == file_entries(all.take(i as int)),
        decreases n - i,
    {
        assert(all.take(i + 1).drop_last() =~= all.take(i as int));
        assert(all.take(i + 1).last() == all[i as int]);
        assert(all[i as int] == ls@[i as int]@);
        let t = trim(ls[i]);
        if t.len() > 0 {
            let ghost prior = entries(out@);
            out.push(string_of(t));
            assert(entries(out@) =~= prior.push(t@));
        }
        i = i + 1;
    }
    assert(all.take(n as int) =~= all);
    keep_latest(&mut out, max_history);
    out
}

/// Each entry, on a line of its own.
pub open spec fn entry_lines(h: Seq<Seq<char>>) -> Seq<char>
    decreases h.len(),
{
    if h.len() == 0 {
        seq![]
    } else {
        entry_lines(h.drop_last()) + h.last() + "\n"@
    }
}

/// What the file of a history holds.
pub fn history_text(history: &[String], max_history: usize) -> (r: String)
    ensures
        r@ == entry_lines(latest(entries(history@), max_history as nat)),
{
    let n: usize = history.len();
    let from: usize = if n > max_history {
        n - max_history
    } else {
        0
    };
    let ghost kept = latest(entries(history@), max_history as nat);
    let mut s = String::new();
    let mut i: usize = from;
    assert(kept.take(0).len() == 0);
    assert(s@ =~= entry_lines(kept.take(0)));
    while i < n
        invariant
            n == history@.len(),
            from <= i <= n,
            kept.len() == n - from,
            forall|j: int| 0 <= j < kept.len() ==> kept[j] == (#[trigger] history@[from + j])@,
            s@ == entry_lines(kept.take(i - from)),
        decreases n - i,
    {
        assert(kept.take(i - from + 1).drop_last() =~= kept.take(i - from));
        assert(kept.take(i - from + 1).last() == kept[i - from]);
        assert(history@[from + (i - from)]@ == kept[i - from]);
        s.append(history[i].as_str());
        s.append("\n");
        i = i + 1;
    }
    assert(kept.take(n - from) =~= kept);
    s
}

/// A history never grows beyond its limit, and the entry that was put in last
/// is the latest one.
pub proof fn law_history_bounded(h: Seq<Seq<char>>, line: Seq<char>, max: nat)
    requires
        h.len() <= max,
    ensures
        with_entry(h, line, max).len() <= max,
        is_news(h, line) && max > 0 ==> with_entry(h, line, max).last() == trimmed(line),
{
}

/// A command that was just put in is not put in again.
pub proof fn law_history_no_repeats(h: Seq<Seq<char>>, line: Seq<char>, max: nat)
    requires
        max > 0,
        trimmed(line).len() > 0,
    ensures
        !is_news(with_entry(h, line, max), line),
{
}

/// Whether a text can be an entry of a history: it is not blank, has no white
/// space at its ends, and is one line.
pub open spec fn is_entry(e: Seq<char>) -> bool {
    &&& e.len() > 0
    &&& trimmed(e) == e
    &&& !e.contains('\n')
}

/// Whether all of a history can be entries.
pub open spec fn are_entries(h: Seq<Seq<char>>) -> bool {
    forall|i: int| 0 <= i < h.len() ==> is_entry(#[trigger] h[i])
}

/// Whatever commands are put into a history, as long as each is one line, it
/// holds nothing but what can be an entry.
pub proof fn law_history_of_entries(h: Seq<Seq<char>>, line: Seq<char>, max: nat)
    requires
        are_entries(h),
        !line.contains('\n'),
    ensures
        are_entries(with_entry(h, line, max)),
{
    lemma_trimmed_twice(line);
    lemma_trimmed_within(line, '\n');
    if is_news(h, line) {
        let all = h.push(trimmed(line));
        let kept = latest(all, max);
        assert forall|i: int| 0 <= i < kept.len() implies is_entry(#[trigger] kept[i]) by {
            let j = i + (all.len() - kept.len());
            assert(kept[i] == all[j]);
            if j < h.len() {
                assert(all[j] == h[j]);
            }
        }
    }
}

/// The lines of the file of a history, in front of more text.
proof fn lemma_entry_lines(h: Seq<Seq<char>>, rest: Seq<char>)
    requires
        are_entries(h),
    ensures
        lines(entry_lines(h) + rest) == h + lines(rest),
    decreases h.len(),
{
    if h.len() == 0 {
        assert(entry_lines(h) + rest =~= rest);
        assert(h + lines(rest) =~= lines(rest));
    } else {
        let init = h.drop_last();
        let e = h.last();
        assert(is_entry(h[h.len() - 1]));
        assert(are_entries(init)) by {
            assert forall|i: int| 0 <= i < init.len() implies is_entry(#[trigger] init[i]) by {
                assert(init[i] == h[i]);
            }
        }
        let tail = e + "\n"@ + rest;
        assert(entry_lines(h) + rest =~= entry_lines(init) + tail);
        lemma_entry_lines(init, tail);
        lemma_trimmed_ends(e);
        lemma_newline_cons(e, rest);
        assert(init + (seq![e] + lines(rest)) =~= h + lines(rest));
    }
}

/// Entries are read as they stand.
proof fn lemma_file_entries(h: Seq<Seq<char>>)
    requires
        are_entries(h),
    ensures
        file_entries(h) == h,
    decreases h.len(),
{
    if h.len() > 0 {
        let init = h.drop_last();
        assert(is_entry(h[h.len() - 1]));
        assert(are_entries(init)) by {
            assert forall|i: int| 0 <= i < init.len() implies is_entry(#[trigger] init[i]) by {
                assert(init[i] == h[i]);
            }
        }
        lemma_file_entries(init);
        assert(init.push(h.last()) =~= h);
    }
}

/// A history that is written to its file is read back: the latest entries, as
/// many as the limit allows, in their order.
pub proof fn law_history_reads_back(h: Seq<Seq<char>>, max: nat)
    requires
        are_entries(h),
    ensures
        latest(file_entries(lines(entry_lines(latest(h, max)))), max) == latest(h, max),
{
    let kept = latest(h, max);
    assert forall|i: int| 0 <= i < kept.len() implies is_entry(#[trigger] kept[i]) by {
        assert(kept[i] == h[i + (h.len() - kept.len())]);
    }
    let empty = Seq::<char>::empty();
    lemma_entry_lines(kept, empty);
    assert(entry_lines(kept) + empty =~= entry_lines(kept));
    assert(kept + lines(empty) =~= kept);
    lemma_file_entries(kept);
}

} // verus!
