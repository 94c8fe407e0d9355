//! Orphan recovery: after an unclean daemon death, the PID files left
//! under the feeds directory name the process groups that must die. This
//! module decides, for what the runtime found on disk, which groups to
//! kill and which PID files to remove, and how the attempt is summed up.

use vstd::prelude::*;

use crate::text::{dec_digits, dec_value, is_u32_numeral, parse_u32, strip_plus, u64_to_decimal};

verus! {

/// One entry of the feeds directory as the runtime found it: its path,
/// whether it is a directory, whether it holds a PID file, and that
/// file's text (absent when the read failed).
pub struct SweepEntry {
    pub path: String,
    pub is_dir: bool,
    pub pid_file_exists: bool,
    pub pid_contents: Option<String>,
}

/// One kill decision: send the kill signal to this process group and
/// then remove this PID file.
pub struct KillOrder {
    pub pgid: u32,
    pub pid_file: String,
}

/// Whether a feeds-directory entry can be swept: a directory whose PID
/// file exists, was read, and holds a process ID.
pub open spec fn entry_good(e: SweepEntry) -> bool {
    &&& e.is_dir
    &&& e.pid_file_exists
    &&& e.pid_contents matches Some(c) && is_u32_numeral(c@)
}

/// Whether `order` is the kill decision for entry `e`: the group named
/// by the PID file, and the PID file under the entry's directory.
pub open spec fn order_matches(order: KillOrder, e: SweepEntry) -> bool {
    &&& order.pgid as nat == dec_value(strip_plus(e.pid_contents->Some_0@))
    &&& order.pid_file@ == e.path@ + "/"@ + "pid"@
}

/// Decides one entry, as `entry_good` and `order_matches` describe.
pub fn try_kill_plan(entry: &SweepEntry) -> (r: Option<KillOrder>)
    ensures
        r is Some <==> entry_good(*entry),
        r matches Some(order) ==> order_matches(order, *entry),
{
    if !entry.is_dir {
        return None;
    }
    if !entry.pid_file_exists {
        return None;
    }
    let contents = match &entry.pid_contents {
        Some(c) => c,
        None => {
            return None;
        },
    };
    match parse_u32(contents.as_str()) {
        Some(pgid) => Some(
            KillOrder { pgid, pid_file: crate::conf::path_feed_pid(entry.path.as_str()) },
        ),
        None => None,
    }
}

/// The number of entries among the first `k` that cannot be swept.
pub open spec fn failed_count(entries: Seq<SweepEntry>, k: int) -> nat
    decreases k,
{
    if k <= 0 {
        0
    } else {
        failed_count(entries, k - 1) + if entry_good(entries[k - 1]) {
            0 as nat
        } else {
            1 as nat
        }
    }
}

/// Whether `orders` holds exactly one kill decision per sweepable entry
/// among the first `k`, in order.
pub open spec fn sweep_orders_ok(entries: Seq<SweepEntry>, k: int, orders: Seq<KillOrder>) -> bool
    decreases k,
{
    if k <= 0 {
        orders.len() == 0
    } else {
        if entry_good(entries[k - 1]) {
            orders.len() > 0 && order_matches(orders.last(), entries[k - 1]) && sweep_orders_ok(
                entries,
                k - 1,
                orders.drop_last(),
            )
        } else {
            sweep_orders_ok(entries, k - 1, orders)
        }
    }
}

/// Decides the whole sweep: one kill order per sweepable entry, and the
/// count of entries that cannot be swept.
pub fn plan_sweep(entries: &Vec<SweepEntry>) -> (r: (Vec<KillOrder>, usize))
    ensures
        sweep_orders_ok(entries@, entries@.len() as int, r.0@),
        r.1 as nat == failed_count(entries@, entries@.len() as int),
        r.0@.len() + r.1 == entries@.len(),
{
    let mut orders: Vec<KillOrder> = Vec::new();
    let mut failed: usize = 0;
    let n = entries.len();
    let mut i: usize = 0;
    while i < n
        invariant
            i <= n,
            n == entries@.len(),
            sweep_orders_ok(entries@, i as int, orders@),
            failed as nat == failed_count(entries@, i as int),
            orders@.len() + failed == i,
        decreases n - i,
    {
        match try_kill_plan(&entries[i]) {
            Some(order) => {
                proof {
                    assert(orders@.push(order).drop_last() =~= orders@);
                }
                orders.push(order);
            },
            None => {
                failed = failed + 1;
            },
        }
        i = i + 1;
    }
    (orders, failed)
}

/// Orphan eviction. Every sweepable entry of the feeds directory gets a
/// kill decision — its process group is killed and its PID file removed
/// — so executing the plan leaves no sweepable PID file behind; every
/// other entry is counted as failed, and nothing else is decided.
pub proof fn lemma_orphan_eviction(entries: Seq<SweepEntry>, k: int, orders: Seq<KillOrder>)
    requires
        0 <= k <= entries.len(),
        sweep_orders_ok(entries, k, orders),
    ensures
        forall|i: int|
            0 <= i < k && entry_good(#[trigger] entries[i]) ==> exists|j: int|
                0 <= j < orders.len() && order_matches(#[trigger] orders[j], entries[i]),
        orders.len() + failed_count(entries, k) == k,
    decreases k,
{
    if k > 0 {
        if entry_good(entries[k - 1]) {
            lemma_orphan_eviction(entries, k - 1, orders.drop_last());
            assert forall|i: int|
                0 <= i < k && entry_good(#[trigger] entries[i]) implies exists|j: int|
                0 <= j < orders.len() && order_matches(#[trigger] orders[j], entries[i]) by {
                if i == k - 1 {
                    assert(order_matches(orders[orders.len() - 1], entries[i]));
                } else {
                    let j = choose|j: int|
                        0 <= j < orders.drop_last().len() && order_matches(
                            #[trigger] orders.drop_last()[j],
                            entries[i],
                        );
                    assert(order_matches(orders[j], entries[i]));
                }
            }
        } else {
            lemma_orphan_eviction(entries, k - 1, orders);
        }
    }
}

/// The sweep summary: success exactly when every attempt succeeded, and
/// otherwise how many out of how many failed.
pub fn sweep_result(failed: usize, total: usize) -> (r: Result<(), String>)
    ensures
        r is Ok <==> failed == 0,
        r matches Err(m) ==> m@ == dec_digits(failed as nat) + " out of "@ + dec_digits(
            total as nat,
        ) + " kill attempts failed."@,
{
    if failed == 0 {
        Ok(())
    } else {
        let mut m = u64_to_decimal(failed as u64);
        m.append(" out of ");
        let t = u64_to_decimal(total as u64);
        m.append(t.as_str());
        m.append(" kill attempts failed.");
        Err(m)
    }
}

} // verus!
