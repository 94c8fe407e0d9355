//! A status-bar supervisor library: a bar buffer composed of per-feed slots,
//! a message-driven supervisor state machine, process-table parsing, and the
//! pure rules behind configuration paths, status reports and orphan cleanup.

pub mod bar;
pub mod conf;
pub mod control;
pub mod feed;
pub mod ps;
pub mod server;
pub mod status;
pub mod text;

use vstd::prelude::*;

verus! {

/// A run of `n` copies of the character `c`.
pub open spec fn run_of(c: char, n: nat) -> Seq<char>
    decreases n,
{
    if n == 0 {
        Seq::empty()
    } else {
        run_of(c, (n - 1) as nat).push(c)
    }
}

/// A run of `n` copies of `c` has length `n`.
pub proof fn lemma_run_of_len(c: char, n: nat)
    ensures
        run_of(c, n).len() == n,
    decreases n,
{
    if n > 0 {
        lemma_run_of_len(c, (n - 1) as nat);
    }
}

/// Builds a string of `n` copies of `c`.
pub fn char_run(c: char, n: usize) -> (r: String)
    ensures
        r@ == run_of(c, n as nat),
{
    let mut r = String::new();
    let mut i: usize = 0;
    while i < n
        invariant
            i <= n,
            r@ == run_of(c, i as nat),
        decreases n - i,
    {
        r.push(c);
        i = i + 1;
    }
    r
}

/// Relies on `String::push`: appends the given character to the end of the string.
pub assume_specification[ String::push ](s: &mut String, c: char)
    ensures
        final(s)@ == old(s)@.push(c),
;

} // verus!
