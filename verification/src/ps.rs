//! The process enumerator's pure core: parsing `ps -eo pid,ppid,pgrp,state`
//! output into process records, and deriving state, group, children and
//! descendant maps from them.

use std::collections::{HashMap, HashSet};

use vstd::prelude::*;

use crate::text::{dec_value, is_u32_numeral, parse_u32, strip_plus};

verus! {

broadcast use vstd::std_specs::hash::group_hash_axioms;

/// One row of the process table.
#[derive(Debug, PartialEq, Eq, Structural, Clone, Copy)]
pub struct Proc {
    pub pid: u32,
    pub ppid: u32,
    pub pgrp: u32,
    pub state: State,
}

/// A process state code as printed by the process-listing utility.
#[derive(Debug, Clone, Copy, PartialEq, Eq, Structural)]
pub enum State {
    SleepUninterruptible,
    SleepInterruptible,
    Idle,
    RunQueue,
    StoppedByJobControl,
    StoppedByDebugger,
    Paging,
    Dead,
    Zombie,
}

/// The state named by a single state-code character, if any.
pub open spec fn spec_state_of_char(c: char) -> Option<State> {
    if c == 'D' {
        Some(State::SleepUninterruptible)
    } else if c == 'I' {
        Some(State::Idle)
    } else if c == 'R' {
        Some(State::RunQueue)
    } else if c == 'S' {
        Some(State::SleepInterruptible)
    } else if c == 'T' {
        Some(State::StoppedByJobControl)
    } else if c == 't' {
        Some(State::StoppedByDebugger)
    } else if c == 'W' {
        Some(State::Paging)
    } else if c == 'X' {
        Some(State::Dead)
    } else if c == 'Z' {
        Some(State::Zombie)
    } else {
        None
    }
}

/// The state named by a token: exactly one valid state-code character.
pub open spec fn spec_state_of(s: Seq<char>) -> Option<State> {
    if s.len() == 1 {
        spec_state_of_char(s[0])
    } else {
        None
    }
}

/// The state-code character for a state.
pub open spec fn spec_state_char(state: State) -> char {
    match state {
        State::SleepUninterruptible => 'D',
        State::Idle => 'I',
        State::RunQueue => 'R',
        State::SleepInterruptible => 'S',
        State::StoppedByJobControl => 'T',
        State::StoppedByDebugger => 't',
        State::Paging => 'W',
        State::Dead => 'X',
        State::Zombie => 'Z',
    }
}

impl State {
    /// Parses a state-code token; any other token is rejected.
    pub fn parse(s: &str) -> (r: Result<Self, Error>)
        ensures
            match r {
                Ok(state) => spec_state_of(s@) == Some(state),
                Err(e) => spec_state_of(s@) is None && e is InvalidState && e->InvalidState_text@
                    == s@,
            },
    {
        if s.unicode_len() != 1 {
            return Err(Error::InvalidState { text: s.to_owned() });
        }
        let c = s.get_char(0);
        let state = match c {
            'D' => Some(State::SleepUninterruptible),
            'I' => Some(State::Idle),
            'R' => Some(State::RunQueue),
            'S' => Some(State::SleepInterruptible),
            'T' => Some(State::StoppedByJobControl),
            't' => Some(State::StoppedByDebugger),
            'W' => Some(State::Paging),
            'X' => Some(State::Dead),
            'Z' => Some(State::Zombie),
            _ => None,
        };
        match state {
            Some(state) => Ok(state),
            None => Err(Error::InvalidState { text: s.to_owned() }),
        }
    }

    /// The state-code character, as a one-character string.
    pub fn to_str(&self) -> (r: &str)
        ensures
            r@ == seq![spec_state_char(*self)],
    {
        let r = match self {
            State::SleepUninterruptible => "D",
            State::Idle => "I",
            State::RunQueue => "R",
            State::SleepInterruptible => "S",
            State::StoppedByJobControl => "T",
            State::StoppedByDebugger => "t",
            State::Paging => "W",
            State::Dead => "X",
            State::Zombie => "Z",
        };
        proof {
            reveal_strlit("D");
            reveal_strlit("I");
            reveal_strlit("R");
            reveal_strlit("S");
            reveal_strlit("T");
            reveal_strlit("t");
            reveal_strlit("W");
            reveal_strlit("X");
            reveal_strlit("Z");
        }
        r
    }
}

/// Rejected process listings: a state token that names no state, or a row
/// that does not carry three numeric columns and a state column.
#[derive(Debug)]
pub enum Error {
    InvalidState { text: String },
    InvalidLine { line: String },
}

/// The index of the first character of `s` satisfying `p`, or `s.len()`.
pub open spec fn first_where(s: Seq<char>, p: spec_fn(char) -> bool) -> nat
    decreases s.len(),
{
    if s.len() == 0 {
        0
    } else if p(s[0]) {
        0
    } else {
        1 + first_where(s.drop_first(), p)
    }
}

/// `first_where` points at the first satisfying character: everything
/// before it fails `p`, and it satisfies `p` unless nothing does.
pub proof fn lemma_first_where(s: Seq<char>, p: spec_fn(char) -> bool)
    ensures
        first_where(s, p) <= s.len(),
        first_where(s, p) < s.len() ==> p(s[first_where(s, p) as int]),
        forall|k: int| 0 <= k < first_where(s, p) ==> !p(#[trigger] s[k]),
    decreases s.len(),
{
    if s.len() > 0 && !p(s[0]) {
        lemma_first_where(s.drop_first(), p);
        assert forall|k: int| 0 <= k < first_where(s, p) implies !p(#[trigger] s[k]) by {
            if k > 0 {
                assert(s[k] == s.drop_first()[k - 1]);
            }
        }
    }
}

/// Any index with the first-satisfying character's properties is
/// `first_where`.
pub proof fn lemma_first_where_unique(s: Seq<char>, p: spec_fn(char) -> bool, i: int)
    requires
        0 <= i <= s.len(),
        i < s.len() ==> p(s[i]),
        forall|k: int| 0 <= k < i ==> !p(#[trigger] s[k]),
    ensures
        i == first_where(s, p),
{
    lemma_first_where(s, p);
    let f = first_where(s, p) as int;
    if f < i {
        assert(!p(s[f]));
    } else if i < f {
        assert(!p(s[i]));
    }
}

/// Whether `c` separates the columns of a listing row.
pub open spec fn is_ws(c: char) -> bool {
    c == ' ' || c == '\t' || c == '\r' || c == '\n'
}

/// A line with a trailing carriage return stripped.
pub open spec fn strip_tail_cr(l: Seq<char>) -> Seq<char> {
    if l.len() > 0 && l.last() == '\r' {
        l.drop_last()
    } else {
        l
    }
}

/// The lines of `s`: split at newlines, each line's trailing carriage
/// return stripped, a final line ending optional.
pub open spec fn spec_lines(s: Seq<char>) -> Seq<Seq<char>>
    decreases s.len(),
{
    if s.len() == 0 {
        Seq::empty()
    } else {
        let i = first_where(s, |c: char| c == '\n') as int;
        if 0 <= i < s.len() {
            seq![strip_tail_cr(s.take(i))] + spec_lines(s.skip(i + 1))
        } else {
            seq![s]
        }
    }
}

/// The whitespace-separated tokens of `s`.
pub open spec fn spec_tokens(s: Seq<char>) -> Seq<Seq<char>>
    decreases s.len(),
{
    if s.len() == 0 {
        Seq::empty()
    } else if is_ws(s[0]) {
        spec_tokens(s.drop_first())
    } else {
        let i = first_where(s, |c: char| is_ws(c)) as int;
        if 0 < i < s.len() {
            seq![s.take(i)] + spec_tokens(s.skip(i))
        } else {
            seq![s]
        }
    }
}

/// Whether `c` separates columns.
fn is_sep(c: char) -> (r: bool)
    ensures
        r == is_ws(c),
{
    c == ' ' || c == '\t' || c == '\r' || c == '\n'
}

/// Splits `s` into lines, as `spec_lines` describes.
pub fn split_lines(s: &str) -> (r: Vec<String>)
    ensures
        r@.map_values(|l: String| l@) == spec_lines(s@),
{
    let mut r: Vec<String> = Vec::new();
    let len = s.unicode_len();
    let mut pos: usize = 0;
    proof {
        assert(s@.skip(0) =~= s@);
        assert(r@.map_values(|l: String| l@) + spec_lines(s@) =~= spec_lines(s@));
    }
    while pos < len
        invariant
            pos <= len,
            len == s@.len(),
            spec_lines(s@) == r@.map_values(|l: String| l@) + spec_lines(s@.skip(pos as int)),
        decreases len - pos,
    {
        let ghost rest = s@.skip(pos as int);
        // Scan to the next newline or the end.
        let mut j: usize = pos;
        while j < len && s.get_char(j) != '\n'
            invariant
                pos <= j <= len,
                len == s@.len(),
                forall|k: int| pos <= k < j ==> s@[k] != '\n',
            decreases len - j,
        {
            j = j + 1;
        }
        proof {
            let p = |c: char| c == '\n';
            assert forall|k: int| 0 <= k < j - pos implies !p(#[trigger] rest[k]) by {
                assert(rest[k] == s@[pos + k]);
            }
            if j < len {
                assert(p(rest[j - pos])) by {
                    assert(rest[j - pos] == s@[j as int]);
                }
            }
            lemma_first_where_unique(rest, p, j - pos);
        }
        // The line body; a carriage return is stripped only before a
        // newline, so the final unterminated line keeps one.
        let mut end = j;
        if j < len && j > pos && s.get_char(j - 1) == '\r' {
            end = j - 1;
        }
        let line = s.substring_char(pos, end).to_owned();
        proof {
            assert(rest.take(j - pos) =~= s@.subrange(pos as int, j as int));
            if j < len {
                if j > pos && s@[j - 1] == '\r' {
                    assert(rest.take(j - pos).last() == '\r');
                    assert(strip_tail_cr(rest.take(j - pos)) =~= s@.subrange(
                        pos as int,
                        end as int,
                    ));
                } else {
                    assert(strip_tail_cr(rest.take(j - pos)) =~= s@.subrange(
                        pos as int,
                        end as int,
                    ));
                }
            }
        }
        r.push(line);
        let ghost prev = pos;
        if j < len {
            pos = j + 1;
        } else {
            pos = len;
        }
        proof {
            let ghost lv = |l: String| l@;
            assert(r@.map_values(lv) =~= r@.map_values(lv).drop_last().push(line@));
            if j < len {
                assert(rest.skip(j - prev + 1) =~= s@.skip(pos as int));
                assert(spec_lines(rest) == seq![strip_tail_cr(rest.take(j - prev))] + spec_lines(
                    rest.skip(j - prev + 1),
                ));
                assert(r@.map_values(lv) + spec_lines(s@.skip(pos as int)) =~= r@.map_values(
                    lv,
                ).drop_last() + (seq![line@] + spec_lines(s@.skip(pos as int))));
            } else {
                assert(spec_lines(rest) == seq![rest]);
                assert(rest =~= line@);
                assert(spec_lines(s@.skip(len as int)) =~= Seq::<Seq<char>>::empty());
                assert(r@.map_values(lv) + spec_lines(s@.skip(pos as int)) =~= r@.map_values(
                    lv,
                ).drop_last() + (seq![line@] + spec_lines(s@.skip(pos as int))));
            }
        }
    }
    proof {
        assert(spec_lines(s@.skip(len as int)) =~= Seq::<Seq<char>>::empty());
        assert(r@.map_values(|l: String| l@) =~= r@.map_values(|l: String| l@) + spec_lines(
            s@.skip(len as int),
        ));
    }
    r
}

/// Splits `s` into whitespace-separated tokens, as `spec_tokens`
/// describes.
pub fn split_tokens(s: &str) -> (r: Vec<String>)
    ensures
        r@.map_values(|t: String| t@) == spec_tokens(s@),
{
    let mut r: Vec<String> = Vec::new();
    let len = s.unicode_len();
    let mut pos: usize = 0;
    proof {
        assert(s@.skip(0) =~= s@);
        assert(r@.map_values(|t: String| t@) + spec_tokens(s@) =~= spec_tokens(s@));
    }
    while pos < len
        invariant
            pos <= len,
            len == s@.len(),
            spec_tokens(s@) == r@.map_values(|t: String| t@) + spec_tokens(s@.skip(pos as int)),
        decreases len - pos,
    {
        let ghost rest = s@.skip(pos as int);
        let c = s.get_char(pos);
        if c == ' ' || c == '\t' || c == '\r' || c == '\n' {
            proof {
                assert(rest[0] == s@[pos as int]);
                assert(rest.drop_first() =~= s@.skip(pos + 1));
            }
            pos = pos + 1;
        } else {
            // Scan to the end of the token.
            let mut j: usize = pos;
            while j < len && !is_sep(s.get_char(j))
                invariant
                    pos <= j <= len,
                    len == s@.len(),
                    forall|k: int| pos <= k < j ==> !is_ws(s@[k]),
                decreases len - j,
            {
                j = j + 1;
            }
            proof {
                let p = |c: char| is_ws(c);
                assert forall|k: int| 0 <= k < j - pos implies !p(#[trigger] rest[k]) by {
                    assert(rest[k] == s@[pos + k]);
                }
                if j < len {
                    assert(p(rest[j - pos])) by {
                        assert(rest[j - pos] == s@[j as int]);
                    }
                }
                lemma_first_where_unique(rest, p, j - pos);
            }
            let token = s.substring_char(pos, j).to_owned();
            proof {
                assert(rest.take(j - pos) =~= s@.subrange(pos as int, j as int));
            }
            r.push(token);
            let ghost prev = pos;
            pos = j;
            proof {
                let ghost tv = |t: String| t@;
                assert(r@.map_values(tv) =~= r@.map_values(tv).drop_last().push(token@));
                assert(!is_ws(rest[0]));
                if j < len {
                    assert(rest.skip(j - prev) =~= s@.skip(j as int));
                    assert(spec_tokens(rest) == seq![rest.take(j - prev)] + spec_tokens(rest.skip(
                        j - prev,
                    )));
                } else {
                    assert(j - prev == rest.len());
                    assert(spec_tokens(rest) == seq![rest]);
                    assert(rest =~= token@);
                    assert(spec_tokens(s@.skip(j as int)) =~= Seq::<Seq<char>>::empty());
                }
                assert(r@.map_values(tv) + spec_tokens(s@.skip(pos as int)) =~= r@.map_values(
                    tv,
                ).drop_last() + (seq![token@] + spec_tokens(s@.skip(pos as int))));
            }
        }
    }
    proof {
        assert(spec_tokens(s@.skip(len as int)) =~= Seq::<Seq<char>>::empty());
        assert(r@.map_values(|t: String| t@) =~= r@.map_values(|t: String| t@) + spec_tokens(
            s@.skip(len as int),
        ));
    }
    r
}

/// The process record described by one listing row, if the row is valid:
/// at least four columns, the first three unsigned numbers fitting `u32`,
/// the fourth a state code; further columns are ignored.
pub open spec fn spec_row(line: Seq<char>) -> Option<Proc> {
    let toks = spec_tokens(line);
    if toks.len() >= 4 && is_u32_numeral(toks[0]) && is_u32_numeral(toks[1]) && is_u32_numeral(
        toks[2],
    ) && spec_state_of(toks[3]) is Some {
        Some(
            Proc {
                pid: dec_value(strip_plus(toks[0])) as u32,
                ppid: dec_value(strip_plus(toks[1])) as u32,
                pgrp: dec_value(strip_plus(toks[2])) as u32,
                state: spec_state_of(toks[3])->Some_0,
            },
        )
    } else {
        None
    }
}

/// The data rows of a listing: every line after the header line.
pub open spec fn spec_rows(s: Seq<char>) -> Seq<Seq<char>> {
    let lines = spec_lines(s);
    if lines.len() <= 1 {
        Seq::empty()
    } else {
        lines.skip(1)
    }
}

/// Parses one listing row, as `spec_row` describes.
fn parse_row(line: &str) -> (r: Option<Proc>)
    ensures
        r == spec_row(line@),
{
    let toks = split_tokens(line);
    proof {
        let tv = |t: String| t@;
        assert(spec_tokens(line@) == toks@.map_values(tv));
        if toks@.len() >= 4 {
            assert(spec_tokens(line@)[0] == tv(toks@[0]));
            assert(spec_tokens(line@)[1] == tv(toks@[1]));
            assert(spec_tokens(line@)[2] == tv(toks@[2]));
            assert(spec_tokens(line@)[3] == tv(toks@[3]));
        }
    }
    if toks.len() < 4 {
        return None;
    }
    let pid = parse_u32(toks[0].as_str());
    let ppid = parse_u32(toks[1].as_str());
    let pgrp = parse_u32(toks[2].as_str());
    let state = State::parse(toks[3].as_str());
    match (pid, ppid, pgrp, state) {
        (Some(pid), Some(ppid), Some(pgrp), Ok(state)) => Some(Proc { pid, ppid, pgrp, state }),
        _ => None,
    }
}

/// Parses the whole output of the process-listing utility: the header
/// line is skipped, every remaining line must be a valid row. On the
/// first invalid row the whole call fails, naming that row.
#[verifier::rlimit(50)]
pub fn ps_parse(out: &str) -> (r: Result<Vec<Proc>, Error>)
    ensures
        match r {
            Ok(list) => {
                &&& list@.len() == spec_rows(out@).len()
                &&& forall|i: int|
                    0 <= i < list@.len() ==> spec_row(spec_rows(out@)[i]) == Some(#[trigger] list@[i])
            },
            Err(e) => {
                &&& e is InvalidLine
                &&& exists|i: int|
                    0 <= i < spec_rows(out@).len() && spec_row(#[trigger] spec_rows(out@)[i]) is None
                        && e->InvalidLine_line@ == spec_rows(out@)[i] && forall|j: int|
                        0 <= j < i ==> spec_row(#[trigger] spec_rows(out@)[j]) is Some
            },
        },
{
    let lines = split_lines(out);
    let mut list: Vec<Proc> = Vec::new();
    let mut k: usize = 1;
    if lines.len() == 0 {
        return Ok(list);
    }
    let ghost rows = spec_rows(out@);
    proof {
        assert(rows =~= lines@.map_values(|l: String| l@).skip(1));
    }
    while k < lines.len()
        invariant
            1 <= k <= lines@.len(),
            rows == spec_rows(out@),
            rows == lines@.map_values(|l: String| l@).skip(1),
            rows.len() == lines@.len() - 1,
            list@.len() == k - 1,
            forall|i: int|
                0 <= i < list@.len() ==> spec_row(rows[i]) == Some(#[trigger] list@[i]),
        decreases lines@.len() - k,
    {
        let line = &lines[k];
        let ghost lv = line@;
        proof {
            let lvf = |l: String| l@;
            assert(lines@.map_values(lvf)[k as int] == lvf(lines@[k as int]));
            assert(rows[k - 1] == lv);
        }
        match parse_row(line.as_str()) {
            Some(proc) => {
                list.push(proc);
            },
            None => {
                proof {
                    let ghost w = k - 1;
                    assert(spec_row(rows[w]) is None);
                    assert forall|j: int| 0 <= j < w implies spec_row(#[trigger] rows[j]) is Some by {
                        assert(spec_row(rows[j]) == Some(list@[j]));
                    }
                }
                return Err(Error::InvalidLine { line: line.clone() });
            },
        }
        k = k + 1;
    }
    Ok(list)
}

/// The process IDs occurring in `procs`.
pub open spec fn pid_set(procs: Seq<Proc>) -> Set<u32> {
    Set::new(|x: u32| exists|i: int| 0 <= i < procs.len() && procs[i].pid == x)
}

/// The parent process IDs occurring in `procs`.
pub open spec fn parent_set(procs: Seq<Proc>) -> Set<u32> {
    Set::new(|p: u32| exists|i: int| 0 <= i < procs.len() && procs[i].ppid == p)
}

/// The process-group IDs occurring in `procs`.
pub open spec fn group_set(procs: Seq<Proc>) -> Set<u32> {
    Set::new(|g: u32| exists|i: int| 0 <= i < procs.len() && procs[i].pgrp == g)
}

/// The process IDs of the members of group `g`.
pub open spec fn pids_with_group(procs: Seq<Proc>, g: u32) -> Set<u32> {
    Set::new(|x: u32| exists|i: int| 0 <= i < procs.len() && procs[i].pgrp == g && procs[i].pid == x)
}

/// The process IDs of the direct children of `p`.
pub open spec fn children_of(procs: Seq<Proc>, p: u32) -> Set<u32> {
    Set::new(|x: u32| exists|i: int| 0 <= i < procs.len() && procs[i].ppid == p && procs[i].pid == x)
}

/// The state of the last row carrying `pid`, if any: a later row for the
/// same process ID supersedes an earlier one.
pub open spec fn last_state(procs: Seq<Proc>, pid: u32) -> Option<State>
    decreases procs.len(),
{
    if procs.len() == 0 {
        None
    } else if procs.last().pid == pid {
        Some(procs.last().state)
    } else {
        last_state(procs.drop_last(), pid)
    }
}

proof fn lemma_pid_set_push(procs: Seq<Proc>, i: int)
    requires
        0 <= i < procs.len(),
    ensures
        pid_set(procs.take(i + 1)) == pid_set(procs.take(i)).insert(procs[i].pid),
{
    let t0 = procs.take(i);
    let t1 = procs.take(i + 1);
    assert forall|x: u32| pid_set(t1).contains(x) implies pid_set(t0).insert(
        procs[i].pid,
    ).contains(x) by {
        let j = choose|j: int| 0 <= j < t1.len() && t1[j].pid == x;
        if j < i {
            assert(t0[j].pid == x);
        }
    }
    assert forall|x: u32| pid_set(t0).insert(procs[i].pid).contains(x) implies pid_set(
        t1,
    ).contains(x) by {
        if pid_set(t0).contains(x) {
            let j = choose|j: int| 0 <= j < t0.len() && t0[j].pid == x;
            assert(t1[j].pid == x);
        } else {
            assert(t1[i].pid == x);
        }
    }
    assert(pid_set(t1) =~= pid_set(t0).insert(procs[i].pid));
}

proof fn lemma_group_set_push(procs: Seq<Proc>, i: int)
    requires
        0 <= i < procs.len(),
    ensures
        group_set(procs.take(i + 1)) == group_set(procs.take(i)).insert(procs[i].pgrp),
        forall|g: u32|
            #[trigger] pids_with_group(procs.take(i + 1), g) == if g == procs[i].pgrp {
                pids_with_group(procs.take(i), g).insert(procs[i].pid)
            } else {
                pids_with_group(procs.take(i), g)
            },
{
    let t0 = procs.take(i);
    let t1 = procs.take(i + 1);
    assert forall|g: u32| group_set(t1).contains(g) implies group_set(t0).insert(
        procs[i].pgrp,
    ).contains(g) by {
        let j = choose|j: int| 0 <= j < t1.len() && t1[j].pgrp == g;
        if j < i {
            assert(t0[j].pgrp == g);
        }
    }
    assert forall|g: u32| group_set(t0).insert(procs[i].pgrp).contains(g) implies group_set(
        t1,
    ).contains(g) by {
        if group_set(t0).contains(g) {
            let j = choose|j: int| 0 <= j < t0.len() && t0[j].pgrp == g;
            assert(t1[j].pgrp == g);
        } else {
            assert(t1[i].pgrp == g);
        }
    }
    assert(group_set(t1) =~= group_set(t0).insert(procs[i].pgrp));
    assert forall|g: u32| true implies #[trigger] pids_with_group(t1, g) == (if g == procs[i].pgrp {
        pids_with_group(t0, g).insert(procs[i].pid)
    } else {
        pids_with_group(t0, g)
    }) by {
        assert forall|x: u32| pids_with_group(t1, g).contains(x) implies (if g == procs[i].pgrp {
            pids_with_group(t0, g).insert(procs[i].pid)
        } else {
            pids_with_group(t0, g)
        }).contains(x) by {
            let j = choose|j: int| 0 <= j < t1.len() && t1[j].pgrp == g && t1[j].pid == x;
            if j < i {
                assert(t0[j].pgrp == g && t0[j].pid == x);
            }
        }
        assert forall|x: u32|
            (if g == procs[i].pgrp {
                pids_with_group(t0, g).insert(procs[i].pid)
            } else {
                pids_with_group(t0, g)
            }).contains(x) implies pids_with_group(t1, g).contains(x) by {
            if pids_with_group(t0, g).contains(x) {
                let j = choose|j: int| 0 <= j < t0.len() && t0[j].pgrp == g && t0[j].pid == x;
                assert(t1[j].pgrp == g && t1[j].pid == x);
            } else {
                assert(g == procs[i].pgrp && x == procs[i].pid);
                assert(t1[i].pgrp == g && t1[i].pid == x);
            }
        }
        assert(pids_with_group(t1, g) =~= if g == procs[i].pgrp {
            pids_with_group(t0, g).insert(procs[i].pid)
        } else {
            pids_with_group(t0, g)
        });
    }
}

proof fn lemma_children_push(procs: Seq<Proc>, i: int)
    requires
        0 <= i < procs.len(),
    ensures
        parent_set(procs.take(i + 1)) == parent_set(procs.take(i)).insert(procs[i].ppid),
        forall|p: u32|
            #[trigger] children_of(procs.take(i + 1), p) == if p == procs[i].ppid {
                children_of(procs.take(i), p).insert(procs[i].pid)
            } else {
                children_of(procs.take(i), p)
            },
{
    let t0 = procs.take(i);
    let t1 = procs.take(i + 1);
    assert forall|p: u32| parent_set(t1).contains(p) implies parent_set(t0).insert(
        procs[i].ppid,
    ).contains(p) by {
        let j = choose|j: int| 0 <= j < t1.len() && t1[j].ppid == p;
        if j < i {
            assert(t0[j].ppid == p);
        }
    }
    assert forall|p: u32| parent_set(t0).insert(procs[i].ppid).contains(p) implies parent_set(
        t1,
    ).contains(p) by {
        if parent_set(t0).contains(p) {
            let j = choose|j: int| 0 <= j < t0.len() && t0[j].ppid == p;
            assert(t1[j].ppid == p);
        } else {
            assert(t1[i].ppid == p);
        }
    }
    assert(parent_set(t1) =~= parent_set(t0).insert(procs[i].ppid));
    assert forall|p: u32| true implies #[trigger] children_of(t1, p) == (if p == procs[i].ppid {
        children_of(t0, p).insert(procs[i].pid)
    } else {
        children_of(t0, p)
    }) by {
        assert forall|x: u32| children_of(t1, p).contains(x) implies (if p == procs[i].ppid {
            children_of(t0, p).insert(procs[i].pid)
        } else {
            children_of(t0, p)
        }).contains(x) by {
            let j = choose|j: int| 0 <= j < t1.len() && t1[j].ppid == p && t1[j].pid == x;
            if j < i {
                assert(t0[j].ppid == p && t0[j].pid == x);
            }
        }
        assert forall|x: u32|
            (if p == procs[i].ppid {
                children_of(t0, p).insert(procs[i].pid)
            } else {
                children_of(t0, p)
            }).contains(x) implies children_of(t1, p).contains(x) by {
            if children_of(t0, p).contains(x) {
                let j = choose|j: int| 0 <= j < t0.len() && t0[j].ppid == p && t0[j].pid == x;
                assert(t1[j].ppid == p && t1[j].pid == x);
            } else {
                assert(p == procs[i].ppid && x == procs[i].pid);
                assert(t1[i].ppid == p && t1[i].pid == x);
            }
        }
        assert(children_of(t1, p) =~= if p == procs[i].ppid {
            children_of(t0, p).insert(procs[i].pid)
        } else {
            children_of(t0, p)
        });
    }
}

/// The state of each listed process, keyed by process ID; a later row for
/// the same process ID supersedes an earlier one.
pub fn states(procs: &[Proc]) -> (r: HashMap<u32, State>)
    ensures
        r@.dom() == pid_set(procs@),
        forall|p: u32| #[trigger] r@.dom().contains(p) ==> Some(r@[p]) == last_state(procs@, p),
{
    let mut r: HashMap<u32, State> = HashMap::new();
    let n = procs.len();
    let mut i: usize = 0;
    proof {
        assert(r@.dom() =~= pid_set(procs@.take(0)));
    }
    while i < n
        invariant
            i <= n,
            n == procs@.len(),
            vstd::std_specs::hash::obeys_key_model::<u32>(),
            r@.dom() == pid_set(procs@.take(i as int)),
            forall|p: u32|
                #[trigger] r@.dom().contains(p) ==> Some(r@[p]) == last_state(
                    procs@.take(i as int),
                    p,
                ),
        decreases n - i,
    {
        let proc = procs[i];
        r.insert(proc.pid, proc.state);
        proof {
            lemma_pid_set_push(procs@, i as int);
            assert(procs@.take(i + 1).drop_last() =~= procs@.take(i as int));
            assert(procs@.take(i + 1).last() == procs@[i as int]);
            assert forall|p: u32| #[trigger] r@.dom().contains(p) implies Some(r@[p]) == last_state(
                procs@.take(i + 1),
                p,
            ) by {
                if p != proc.pid {
                    assert(last_state(procs@.take(i + 1), p) == last_state(
                        procs@.take(i as int),
                        p,
                    ));
                }
            }
        }
        i = i + 1;
    }
    proof {
        assert(procs@.take(n as int) =~= procs@);
    }
    r
}

/// The members of each process group, keyed by group ID.
pub fn groups(procs: &[Proc]) -> (r: HashMap<u32, HashSet<u32>>)
    ensures
        r@.dom() == group_set(procs@),
        forall|g: u32|
            #[trigger] r@.dom().contains(g) ==> r@[g]@ == pids_with_group(procs@, g),
{
    let mut r: HashMap<u32, HashSet<u32>> = HashMap::new();
    let n = procs.len();
    let mut i: usize = 0;
    proof {
        assert(r@.dom() =~= group_set(procs@.take(0)));
    }
    while i < n
        invariant
            i <= n,
            n == procs@.len(),
            vstd::std_specs::hash::obeys_key_model::<u32>(),
            r@.dom() == group_set(procs@.take(i as int)),
            forall|g: u32|
                #[trigger] r@.dom().contains(g) ==> r@[g]@ == pids_with_group(
                    procs@.take(i as int),
                    g,
                ),
        decreases n - i,
    {
        let proc = procs[i];
        let mut members = match r.remove(&proc.pgrp) {
            Some(members) => members,
            None => HashSet::new(),
        };
        members.insert(proc.pid);
        proof {
            if !group_set(procs@.take(i as int)).contains(proc.pgrp) {
                assert(pids_with_group(procs@.take(i as int), proc.pgrp) =~= Set::<u32>::empty());
            }
        }
        r.insert(proc.pgrp, members);
        proof {
            lemma_group_set_push(procs@, i as int);
        }
        i = i + 1;
    }
    proof {
        assert(procs@.take(n as int) =~= procs@);
    }
    r
}

/// The process IDs reachable from `p` in at most `n` parent-to-child
/// steps, at least one.
pub open spec fn reach_n(procs: Seq<Proc>, p: u32, n: nat) -> Set<u32>
    decreases n,
{
    if n == 0 {
        Set::empty()
    } else {
        children_of(procs, p).union(
            Set::new(
                |x: u32|
                    exists|c: u32|
                        children_of(procs, p).contains(c) && reach_n(
                            procs,
                            c,
                            (n - 1) as nat,
                        ).contains(x),
            ),
        )
    }
}

/// Whether `x` is a transitive descendant of `p`.
pub open spec fn reaches(procs: Seq<Proc>, p: u32, x: u32) -> bool {
    exists|n: nat| reach_n(procs, p, n).contains(x)
}

/// The transitive descendants of `p`.
pub open spec fn descendant_set(procs: Seq<Proc>, p: u32) -> Set<u32> {
    Set::new(|x: u32| reaches(procs, p, x))
}

/// A direct child is a descendant.
pub proof fn lemma_child_reaches(procs: Seq<Proc>, p: u32, c: u32)
    requires
        children_of(procs, p).contains(c),
    ensures
        reaches(procs, p, c),
{
    assert(reach_n(procs, p, 1).contains(c));
}

proof fn lemma_reach_n_extend(procs: Seq<Proc>, p: u32, w: u32, x: u32, n: nat)
    requires
        reach_n(procs, p, n).contains(w),
        children_of(procs, w).contains(x),
    ensures
        reach_n(procs, p, n + 1).contains(x),
    decreases n,
{
    if n > 0 {
        if children_of(procs, p).contains(w) {
            assert(reach_n(procs, w, n).contains(x));
            assert(reach_n(procs, p, n + 1).contains(x));
        } else {
            let c = choose|c: u32|
                children_of(procs, p).contains(c) && reach_n(procs, c, (n - 1) as nat).contains(w);
            lemma_reach_n_extend(procs, c, w, x, (n - 1) as nat);
            assert(reach_n(procs, p, n + 1).contains(x));
        }
    }
}

/// A direct child of a descendant is a descendant.
pub proof fn lemma_reaches_extend(procs: Seq<Proc>, p: u32, w: u32, x: u32)
    requires
        reaches(procs, p, w),
        children_of(procs, w).contains(x),
    ensures
        reaches(procs, p, x),
{
    let n = choose|n: nat| reach_n(procs, p, n).contains(w);
    lemma_reach_n_extend(procs, p, w, x, n);
}

/// Any set that holds the direct children of `p` and is closed under
/// taking children holds every descendant of `p`.
pub proof fn lemma_reach_closed(procs: Seq<Proc>, s: Set<u32>, p: u32, n: nat)
    requires
        children_of(procs, p).subset_of(s),
        forall|y: u32| s.contains(y) ==> children_of(procs, y).subset_of(s),
    ensures
        reach_n(procs, p, n).subset_of(s),
    decreases n,
{
    if n > 0 {
        assert forall|x: u32| reach_n(procs, p, n).contains(x) implies s.contains(x) by {
            if !children_of(procs, p).contains(x) {
                let c = choose|c: u32|
                    children_of(procs, p).contains(c) && reach_n(
                        procs,
                        c,
                        (n - 1) as nat,
                    ).contains(x);
                assert(s.contains(c));
                lemma_reach_closed(procs, s, c, (n - 1) as nat);
            }
        }
    }
}

/// Collects into `acc` every transitive descendant of `parent` in the
/// listing: afterwards the accumulator holds exactly what it held before
/// together with the descendant set.
pub fn collect_descendants(procs: &[Proc], parent: u32, acc: &mut HashSet<u32>)
    ensures
        final(acc)@ == old(acc)@.union(descendant_set(procs@, parent)),
{
    let ghost all = procs@;
    let mut visited: HashSet<u32> = HashSet::new();
    let mut work: Vec<u32> = Vec::new();
    work.push(parent);
    proof {
        broadcast use vstd::seq_lib::seq_to_set_is_finite;

        let pv = |q: Proc| q.pid;
        assert forall|x: u32| pid_set(all).contains(x) implies all.map_values(
            pv,
        ).to_set().contains(x) by {
            let j = choose|j: int| 0 <= j < all.len() && all[j].pid == x;
            assert(all.map_values(pv)[j] == x);
        }
        assert forall|x: u32| all.map_values(pv).to_set().contains(x) implies pid_set(
            all,
        ).contains(x) by {
            let j = choose|j: int| 0 <= j < all.map_values(pv).len() && all.map_values(pv)[j] == x;
            assert(all[j].pid == x);
        }
        assert(pid_set(all) =~= all.map_values(pv).to_set());
        assert(pid_set(all).finite());
        assert(work@.contains(parent)) by {
            assert(work@[0] == parent);
        }
    }
    while work.len() > 0
        invariant
            all == procs@,
            pid_set(all).finite(),
            vstd::std_specs::hash::obeys_key_model::<u32>(),
            old(acc)@.subset_of(acc@),
            visited@.subset_of(acc@),
            visited@.subset_of(pid_set(all)),
            forall|x: u32| #[trigger] visited@.contains(x) ==> reaches(all, parent, x),
            forall|x: u32|
                #[trigger] acc@.contains(x) ==> old(acc)@.contains(x) || reaches(all, parent, x),
            forall|x: u32|
                #[trigger] visited@.contains(x) ==> (children_of(all, x).subset_of(visited@)
                    || work@.contains(x)),
            children_of(all, parent).subset_of(visited@) || work@.contains(parent),
            forall|k: int|
                0 <= k < work@.len() ==> #[trigger] work@[k] == parent || visited@.contains(
                    work@[k],
                ),
        decreases 2 * pid_set(all).difference(visited@).len() + work@.len(),
    {
        let ghost work_before = work@;
        let w = match work.pop() {
            Some(w) => w,
            None => {
                return ;
            },
        };
        let ghost visited_at_pop = visited@;
        let ghost work_at_pop = work@;
        proof {
            assert forall|x: u32| work_before.contains(x) implies (work@.contains(x) || x
                == w) by {
                let k = choose|k: int| 0 <= k < work_before.len() && work_before[k] == x;
                if k < work_before.len() - 1 {
                    assert(work@[k] == x);
                }
            }
            assert(work_before.contains(w)) by {
                assert(work_before[work_before.len() - 1] == w);
            }
        }
        let n = procs.len();
        let mut i: usize = 0;
        while i < n
            invariant
                all == procs@,
                n == all.len(),
                i <= n,
                pid_set(all).finite(),
                vstd::std_specs::hash::obeys_key_model::<u32>(),
                w == parent || visited@.contains(w),
                old(acc)@.subset_of(acc@),
                visited@.subset_of(acc@),
                visited@.subset_of(pid_set(all)),
                visited_at_pop.subset_of(visited@),
                forall|x: u32| #[trigger] visited@.contains(x) ==> reaches(all, parent, x),
                forall|x: u32|
                    #[trigger] acc@.contains(x) ==> old(acc)@.contains(x) || reaches(
                        all,
                        parent,
                        x,
                    ),
                forall|x: u32|
                    #[trigger] visited@.contains(x) && !visited_at_pop.contains(x)
                        ==> work@.contains(x),
                forall|x: u32|
                    #[trigger] visited_at_pop.contains(x) ==> (children_of(all, x).subset_of(
                        visited@,
                    ) || work@.contains(x) || x == w),
                children_of(all, parent).subset_of(visited@) || work@.contains(parent) || w
                    == parent,
                forall|k: int|
                    0 <= k < work@.len() ==> #[trigger] work@[k] == parent || visited@.contains(
                        work@[k],
                    ),
                forall|j: int|
                    0 <= j < i && all[j].ppid == w ==> visited@.contains(#[trigger] all[j].pid)
                        && acc@.contains(all[j].pid),
                work@.len() + 2 * pid_set(all).difference(visited@).len() <= work_at_pop.len() + 2
                    * pid_set(all).difference(visited_at_pop).len(),
            decreases n - i,
        {
            let q = procs[i];
            if q.ppid == w {
                proof {
                    assert(children_of(all, w).contains(q.pid)) by {
                        assert(all[i as int].ppid == w && all[i as int].pid == q.pid);
                    }
                    if w == parent {
                        lemma_child_reaches(all, parent, q.pid);
                    } else {
                        lemma_reaches_extend(all, parent, w, q.pid);
                    }
                }
                acc.insert(q.pid);
                if !visited.contains(&q.pid) {
                    proof {
                        assert(pid_set(all).contains(q.pid)) by {
                            assert(all[i as int].pid == q.pid);
                        }
                        assert(pid_set(all).difference(visited@).subset_of(pid_set(all)));
                        vstd::set_lib::lemma_len_subset(
                            pid_set(all).difference(visited@),
                            pid_set(all),
                        );
                        assert(pid_set(all).difference(visited@).contains(q.pid));
                        assert(pid_set(all).difference(visited@.insert(q.pid)) =~= pid_set(
                            all,
                        ).difference(visited@).remove(q.pid));
                    }
                    let ghost wprev = work@;
                    visited.insert(q.pid);
                    work.push(q.pid);
                    proof {
                        assert forall|x: u32| wprev.contains(x) implies work@.contains(x) by {
                            let k = choose|k: int| 0 <= k < wprev.len() && wprev[k] == x;
                            assert(work@[k] == x);
                        }
                        assert(work@.contains(q.pid)) by {
                            assert(work@[work@.len() - 1] == q.pid);
                        }
                    }
                }
            }
            i = i + 1;
        }
        proof {
            assert forall|x: u32| children_of(all, w).contains(x) implies visited@.contains(
                x,
            ) && acc@.contains(x) by {
                let j = choose|j: int| 0 <= j < all.len() && all[j].ppid == w && all[j].pid == x;
            }
            assert(children_of(all, w).subset_of(visited@));
        }
    }
    proof {
        assert forall|x: u32| descendant_set(all, parent).contains(x) implies acc@.contains(x) by {
            let nn = choose|nn: nat| reach_n(all, parent, nn).contains(x);
            lemma_reach_closed(all, visited@, parent, nn);
        }
        assert(acc@ =~= old(acc)@.union(descendant_set(all, parent)));
    }
}

/// The transitive descendants of each listed parent, keyed by parent
/// process ID.
pub fn descendants(procs: &[Proc]) -> (r: HashMap<u32, HashSet<u32>>)
    ensures
        r@.dom() == parent_set(procs@),
        forall|p: u32| #[trigger] r@.dom().contains(p) ==> r@[p]@ == descendant_set(procs@, p),
{
    let mut r: HashMap<u32, HashSet<u32>> = HashMap::new();
    let n = procs.len();
    let mut i: usize = 0;
    proof {
        assert(r@.dom() =~= Set::<u32>::empty());
    }
    while i < n
        invariant
            i <= n,
            n == procs@.len(),
            vstd::std_specs::hash::obeys_key_model::<u32>(),
            forall|p: u32|
                #[trigger] r@.dom().contains(p) <==> parent_set(procs@.take(i as int)).contains(p),
            forall|p: u32| #[trigger] r@.dom().contains(p) ==> r@[p]@ == descendant_set(procs@, p),
        decreases n - i,
    {
        let proc = procs[i];
        if !r.contains_key(&proc.ppid) {
            let mut dset: HashSet<u32> = HashSet::new();
            collect_descendants(procs, proc.ppid, &mut dset);
            proof {
                assert(dset@ =~= descendant_set(procs@, proc.ppid));
            }
            r.insert(proc.ppid, dset);
        }
        proof {
            lemma_children_push(procs@, i as int);
        }
        i = i + 1;
    }
    proof {
        assert(procs@.take(n as int) =~= procs@);
        assert(r@.dom() =~= parent_set(procs@));
    }
    r
}

/// The direct children of each listed parent, keyed by parent process ID.
pub fn children(procs: &[Proc]) -> (r: HashMap<u32, HashSet<u32>>)
    ensures
        r@.dom() == parent_set(procs@),
        forall|p: u32| #[trigger] r@.dom().contains(p) ==> r@[p]@ == children_of(procs@, p),
{
    let mut r: HashMap<u32, HashSet<u32>> = HashMap::new();
    let n = procs.len();
    let mut i: usize = 0;
    proof {
        assert(r@.dom() =~= parent_set(procs@.take(0)));
    }
    while i < n
        invariant
            i <= n,
            n == procs@.len(),
            vstd::std_specs::hash::obeys_key_model::<u32>(),
            r@.dom() == parent_set(procs@.take(i as int)),
            forall|p: u32|
                #[trigger] r@.dom().contains(p) ==> r@[p]@ == children_of(procs@.take(i as int), p),
        decreases n - i,
    {
        let proc = procs[i];
        let mut kids = match r.remove(&proc.ppid) {
            Some(kids) => kids,
            None => HashSet::new(),
        };
        kids.insert(proc.pid);
        proof {
            if !parent_set(procs@.take(i as int)).contains(proc.ppid) {
                assert(children_of(procs@.take(i as int), proc.ppid) =~= Set::<u32>::empty());
            }
        }
        r.insert(proc.ppid, kids);
        proof {
            lemma_children_push(procs@, i as int);
        }
        i = i + 1;
    }
    proof {
        assert(procs@.take(n as int) =~= procs@);
    }
    r
}

} // verus!
