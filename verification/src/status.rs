//! Status reports: what the daemon answers to a status request, and its
//! rendering for human and machine readers.

use vstd::multiset::Multiset;
use vstd::prelude::*;

use crate::bar::spec_join;
use crate::ps::{spec_state_char, Proc, State};
use crate::text::{dec_digits, dec_digits_pad2, u64_to_decimal, u64_to_decimal_pad2};

verus! {

/// One feed's row in a status report: its 1-based position, identity and
/// paths, ages in milliseconds, log measurements, and the feed process
/// with its transitive descendants.
pub struct Feed {
    pub position: usize,
    pub name: String,
    pub dir: String,
    pub age_of_output_ms: Option<u64>,
    pub age_of_log_ms: Option<u64>,
    pub log_size_bytes: u64,
    pub log_lines: usize,
    pub pid: u32,
    pub state: Option<State>,
    pub pdescendants: Vec<Proc>,
}

/// Who reads the rendering: a human gets humanized sizes and durations, a
/// machine gets bare numbers.
#[derive(Debug, Clone, Copy)]
pub enum Audience {
    Human,
    Machine,
}

/// The daemon's status: absent, up with feeds off, or up with one row per
/// live feed.
pub enum Status {
    Down,
    UpOff,
    UpOn { feeds: Vec<Feed> },
}

impl Default for Status {
    /// Absent until an answer arrives.
    fn default() -> (r: Self)
        ensures
            r is Down,
    {
        Status::Down
    }
}

/// The data the runtime gathers about one live feed for a status row:
/// log-file modification time and size, the log text (absent when the
/// read failed), and the feed's entry in a fresh process listing.
pub struct Gathered {
    pub log_mtime_ms: u64,
    pub log_size_bytes: u64,
    pub log_text: Option<String>,
    pub state: Option<State>,
    pub pdescendants: Vec<Proc>,
}

// What an outside table renderer holds and produces. `comfy_table` draws
// the status table; to the proofs a table is a header, a list of rows,
// whether the borderless style is loaded, and whether the
// construction-time defaults of the knobs whose rendering consults the
// terminal — content arrangement, width, cell styling — are still in
// place. With the borderless style loaded and those defaults kept, the
// rendering is a function of the header and rows alone.
#[verifier::external_type_specification]
#[verifier::external_body]
pub struct ExTable(comfy_table::Table);

/// The header cells of a table.
pub uninterp spec fn table_header(t: &comfy_table::Table) -> Seq<Seq<char>>;

/// The rows of a table, each a list of cells.
pub uninterp spec fn table_rows(t: &comfy_table::Table) -> Seq<Seq<Seq<char>>>;

/// Whether the borderless style is loaded.
pub uninterp spec fn table_plain(t: &comfy_table::Table) -> bool;

/// Whether the table keeps its construction-time defaults for content
/// arrangement, width and cell styling — the knobs whose rendering
/// would consult the terminal.
pub uninterp spec fn table_defaults(t: &comfy_table::Table) -> bool;

/// What a borderless table with this header and these rows renders to.
pub uninterp spec fn rendered_table(header: Seq<Seq<char>>, rows: Seq<Seq<Seq<char>>>) -> Seq<char>;

/// Relies on `comfy_table::Table::new`: a table with no header, no rows,
/// and every rendering knob at its default.
#[verifier::external_body]
fn table_new() -> (t: comfy_table::Table)
    ensures
        table_header(&t).len() == 0,
        table_rows(&t).len() == 0,
        table_defaults(&t),
{
    comfy_table::Table::new()
}

/// Relies on `comfy_table::Table::load_style` with the `NOTHING` preset:
/// it replaces the styling only, leaving header, rows and the rendering
/// knobs untouched.
#[verifier::external_body]
fn table_load_style_nothing(t: &mut comfy_table::Table)
    ensures
        table_header(final(t)) == table_header(old(t)),
        table_rows(final(t)) == table_rows(old(t)),
        table_plain(final(t)),
        table_defaults(final(t)) == table_defaults(old(t)),
{
    t.load_style(comfy_table::presets::NOTHING);
}

/// Relies on `comfy_table::Table::set_header` fed plain strings: it
/// replaces the header with unstyled cells and leaves the rows, the
/// style and the rendering knobs alone.
#[verifier::external_body]
fn table_set_header(t: &mut comfy_table::Table, cells: Vec<String>)
    ensures
        table_header(final(t)) == cells@.map_values(|c: String| c@),
        table_rows(final(t)) == table_rows(old(t)),
        table_plain(final(t)) == table_plain(old(t)),
        table_defaults(final(t)) == table_defaults(old(t)),
{
    t.set_header(cells);
}

/// Relies on `comfy_table::Table::add_row` fed plain strings: it appends
/// one row of unstyled cells and leaves the header, the style and the
/// rendering knobs alone.
#[verifier::external_body]
fn table_add_row(t: &mut comfy_table::Table, cells: Vec<String>)
    ensures
        table_rows(final(t)) == table_rows(old(t)).push(cells@.map_values(|c: String| c@)),
        table_header(final(t)) == table_header(old(t)),
        table_plain(final(t)) == table_plain(old(t)),
        table_defaults(final(t)) == table_defaults(old(t)),
{
    t.add_row(cells);
}

/// Relies on `comfy_table::Table`'s `Display` implementation: with the
/// borderless style loaded and the rendering knobs at their defaults,
/// the rendering depends on the header and rows alone.
#[verifier::external_body]
fn table_render(t: &comfy_table::Table) -> (r: String)
    requires
        table_plain(t),
        table_defaults(t),
    ensures
        r@ == rendered_table(table_header(t), table_rows(t)),
{
    format!("{}", t)
}

/// What `bytesize` renders a byte count as; it depends on the count
/// alone.
pub uninterp spec fn human_bytes_of(n: u64) -> Seq<char>;

/// Relies on `bytesize::ByteSize`'s `Display` implementation: a
/// humanized rendering of the byte count, a function of the count alone.
#[verifier::external_body]
fn human_bytes(n: u64) -> (r: String)
    ensures
        r@ == human_bytes_of(n),
{
    bytesize::ByteSize(n).to_string()
}

/// What `humantime` renders a whole-second duration as; it depends on
/// the seconds alone.
pub uninterp spec fn human_duration_of(secs: u64) -> Seq<char>;

/// Relies on `humantime::format_duration`: a humanized rendering of the
/// duration, a function of the duration alone.
#[verifier::external_body]
fn human_duration_secs(secs: u64) -> (r: String)
    ensures
        r@ == human_duration_of(secs),
{
    humantime::format_duration(std::time::Duration::from_secs(secs)).to_string()
}

/// A duration in milliseconds rendered as seconds with two decimals,
/// rounding half up.
pub open spec fn machine_secs_text(ms: u64) -> Seq<char> {
    let centis = (ms + 5) / 10;
    dec_digits((centis / 100) as nat) + seq!['.'] + dec_digits_pad2((centis % 100) as nat)
}

/// How an optional age is rendered: humans read humanized whole seconds
/// and "never", machines read seconds with two decimals and "-1.00".
pub open spec fn spec_duration_fmt(ms: Option<u64>, audience: Audience) -> Seq<char> {
    match (ms, audience) {
        (None, Audience::Human) => "never"@,
        (None, Audience::Machine) => "-1.00"@,
        (Some(d), Audience::Human) => human_duration_of(d / 1000),
        (Some(d), Audience::Machine) => machine_secs_text(d),
    }
}

/// Renders an optional age for the audience, as `spec_duration_fmt`
/// describes.
pub fn duration_fmt(ms: Option<u64>, audience: Audience) -> (r: String)
    ensures
        r@ == spec_duration_fmt(ms, audience),
{
    match (ms, audience) {
        (None, Audience::Human) => "never".to_owned(),
        (None, Audience::Machine) => "-1.00".to_owned(),
        (Some(d), Audience::Human) => human_duration_secs(d / 1000),
        (Some(d), Audience::Machine) => {
            let centis: u64 = d / 10 + if d % 10 >= 5 {
                1
            } else {
                0
            };
            proof {
                assert(d / 10 + (if d % 10 >= 5 {
                    1u64
                } else {
                    0u64
                }) == (d + 5) / 10) by (nonlinear_arith);
            }
            let mut r = u64_to_decimal(centis / 100);
            r.push('.');
            let frac = u64_to_decimal_pad2(centis % 100);
            r.append(frac.as_str());
            proof {
                assert(r@ =~= machine_secs_text(d));
            }
            r
        },
    }
}

/// The one-cell rendering of a process: its PID, a colon, its state
/// code.
pub open spec fn desc_item(p: Proc) -> Seq<char> {
    dec_digits(p.pid as nat) + seq![':'] + seq![spec_state_char(p.state)]
}

/// Process renderings joined by commas.
pub open spec fn desc_join(s: Seq<Proc>) -> Seq<char> {
    spec_join(s.map_values(|p: Proc| desc_item(p)), seq![','])
}

/// Whether `s` is ordered by PID.
pub open spec fn sorted_by_pid(s: Seq<Proc>) -> bool {
    forall|i: int, j: int| 0 <= i < j < s.len() ==> s[i].pid <= s[j].pid
}

/// Whether `cell` renders the descendant set `procs`: a dash when empty,
/// otherwise the processes in PID order, comma-separated. When two
/// entries carry one PID, either order renders the set.
pub open spec fn desc_cell_ok(procs: Seq<Proc>, cell: Seq<char>) -> bool {
    if procs.len() == 0 {
        cell == "-"@
    } else {
        exists|s: Seq<Proc>|
            #![auto]
            s.to_multiset() == procs.to_multiset() && sorted_by_pid(s) && cell == desc_join(s)
    }
}

/// The status table's column headers.
pub open spec fn header_cells() -> Seq<Seq<char>> {
    seq![
        "POSITION"@,
        "NAME"@,
        "DIR"@,
        "LAST_OUTPUTTED"@,
        "LAST_LOGGED"@,
        "LOG_SIZE"@,
        "LOG_LINES"@,
        "PID"@,
        "PROC_STATE"@,
        "PROC_DESCENDANTS"@,
    ]
}

/// Whether `cells` is the row rendering feed `f` for this audience.
pub open spec fn feed_cells_ok(f: Feed, audience: Audience, cells: Seq<Seq<char>>) -> bool {
    &&& cells.len() == 10
    &&& cells[0] == dec_digits(f.position as nat)
    &&& cells[1] == f.name@
    &&& cells[2] == f.dir@
    &&& cells[3] == spec_duration_fmt(f.age_of_output_ms, audience)
    &&& cells[4] == spec_duration_fmt(f.age_of_log_ms, audience)
    &&& cells[5] == match audience {
        Audience::Human => human_bytes_of(f.log_size_bytes),
        Audience::Machine => dec_digits(f.log_size_bytes as nat),
    }
    &&& cells[6] == dec_digits(f.log_lines as nat)
    &&& cells[7] == dec_digits(f.pid as nat)
    &&& cells[8] == match f.state {
        Some(s) => seq![spec_state_char(s)],
        None => "-"@,
    }
    &&& desc_cell_ok(f.pdescendants@, cells[9])
}

/// Sorts processes by PID.
fn sort_procs_by_pid(v: Vec<Proc>) -> (r: Vec<Proc>)
    ensures
        sorted_by_pid(r@),
        r@.to_multiset() == v@.to_multiset(),
        r@.len() == v@.len(),
{
    broadcast use vstd::seq_lib::group_seq_properties;

    let mut rest = v;
    let mut out: Vec<Proc> = Vec::new();
    proof {
        rest@.to_multiset_ensures();
        assert(out@.to_multiset().add(rest@.to_multiset()) =~= v@.to_multiset());
    }
    while rest.len() > 0
        invariant
            out@.to_multiset().add(rest@.to_multiset()) == v@.to_multiset(),
            out@.len() + rest@.len() == v@.len(),
            sorted_by_pid(out@),
            forall|i: int, j: int|
                0 <= i < out@.len() && 0 <= j < rest@.len() ==> out@[i].pid <= rest@[j].pid,
        decreases rest@.len(),
    {
        let n = rest.len();
        let mut mi: usize = 0;
        let mut k: usize = 1;
        while k < n
            invariant
                mi < k <= n,
                n == rest@.len(),
                forall|j: int| 0 <= j < k ==> rest@[mi as int].pid <= rest@[j].pid,
            decreases n - k,
        {
            if rest[k].pid < rest[mi].pid {
                mi = k;
            }
            k = k + 1;
        }
        let ghost rest_before = rest@;
        let m = rest.remove(mi);
        let ghost out_before = out@;
        out.push(m);
        proof {
            rest_before.to_multiset_ensures();
            out_before.to_multiset_ensures();
            assert(rest@.to_multiset() =~= rest_before.to_multiset().remove(m));
            assert(out@.to_multiset() =~= out_before.to_multiset().insert(m));
            assert(rest_before.to_multiset().count(m) > 0) by {
                assert(rest_before[mi as int] == m);
                assert(rest_before.contains(m));
            }
            assert(out@.to_multiset().add(rest@.to_multiset()) =~= v@.to_multiset());
            assert forall|i: int, j: int|
                0 <= i < out@.len() && 0 <= j < rest@.len() implies out@[i].pid <= rest@[j].pid by {
                if j < mi {
                    assert(rest@[j] == rest_before[j]);
                } else {
                    assert(rest@[j] == rest_before[j + 1]);
                }
                if i < out@.len() - 1 {
                    assert(out@[i] == out_before[i]);
                }
            }
        }
    }
    proof {
        assert(rest@.to_multiset() =~= Multiset::<Proc>::empty());
        assert(out@.to_multiset().add(rest@.to_multiset()) =~= out@.to_multiset());
    }
    out
}

/// Copies a process list.
pub(crate) fn copy_procs(v: &Vec<Proc>) -> (r: Vec<Proc>)
    ensures
        r@ == v@,
{
    let mut r: Vec<Proc> = Vec::new();
    let mut i: usize = 0;
    while i < v.len()
        invariant
            i <= v@.len(),
            r@ == v@.take(i as int),
        decreases v@.len() - i,
    {
        r.push(v[i]);
        proof {
            assert(r@ =~= v@.take(i + 1));
        }
        i = i + 1;
    }
    proof {
        assert(v@.take(v@.len() as int) =~= v@);
    }
    r
}

/// Renders the descendants cell: a dash when empty, otherwise the
/// processes in PID order, comma-separated.
fn desc_cell(procs: &Vec<Proc>) -> (r: String)
    ensures
        desc_cell_ok(procs@, r@),
{
    if procs.len() == 0 {
        return "-".to_owned();
    }
    let sorted = sort_procs_by_pid(copy_procs(procs));
    let mut r = String::new();
    let mut i: usize = 0;
    let ghost items = sorted@.map_values(|p: Proc| desc_item(p));
    while i < sorted.len()
        invariant
            i <= sorted@.len(),
            items == sorted@.map_values(|p: Proc| desc_item(p)),
            r@ == spec_join(items.take(i as int), seq![',']),
        decreases sorted@.len() - i,
    {
        if i > 0 {
            r.push(',');
        }
        let p = sorted[i];
        let num = u64_to_decimal(p.pid as u64);
        r.append(num.as_str());
        r.push(':');
        let code = p.state.to_str();
        r.append(code);
        proof {
            let pre = items.take(i as int);
            crate::bar::lemma_join_push(pre, seq![','], items[i as int]);
            assert(items.take(i + 1) =~= pre.push(items[i as int]));
            assert(items[i as int] == desc_item(sorted@[i as int]));
            if i > 0 {
                assert(r@ =~= spec_join(items.take(i + 1), seq![',']));
            } else {
                assert(r@ =~= spec_join(items.take(i + 1), seq![',']));
            }
        }
        i = i + 1;
    }
    proof {
        assert(items.take(sorted@.len() as int) =~= items);
    }
    r
}

impl Status {
    /// Renders the status for the audience: "down", "up off", or the
    /// feed table with one row per live feed.
    pub fn to_str(&self, audience: Audience) -> (r: String)
        ensures
            match self {
                Status::Down => r@ == "down"@,
                Status::UpOff => r@ == "up off"@,
                Status::UpOn { feeds } => exists|rows: Seq<Seq<Seq<char>>>|
                    #![auto]
                    rows.len() == feeds@.len() && (forall|i: int|
                        0 <= i < feeds@.len() ==> feed_cells_ok(feeds@[i], audience, rows[i]))
                        && r@ == rendered_table(header_cells(), rows),
            },
    {
        match self {
            Status::Down => "down".to_owned(),
            Status::UpOff => "up off".to_owned(),
            Status::UpOn { feeds } => {
                let mut table = table_new();
                table_load_style_nothing(&mut table);
                let mut header: Vec<String> = Vec::new();
                header.push("POSITION".to_owned());
                header.push("NAME".to_owned());
                header.push("DIR".to_owned());
                header.push("LAST_OUTPUTTED".to_owned());
                header.push("LAST_LOGGED".to_owned());
                header.push("LOG_SIZE".to_owned());
                header.push("LOG_LINES".to_owned());
                header.push("PID".to_owned());
                header.push("PROC_STATE".to_owned());
                header.push("PROC_DESCENDANTS".to_owned());
                proof {
                    assert(header@.map_values(|c: String| c@) =~= header_cells());
                }
                table_set_header(&mut table, header);
                let n = feeds.len();
                let mut i: usize = 0;
                while i < n
                    invariant
                        i <= n,
                        n == feeds@.len(),
                        table_plain(&table),
                        table_defaults(&table),
                        table_header(&table) == header_cells(),
                        table_rows(&table).len() == i,
                        forall|j: int|
                            0 <= j < i ==> feed_cells_ok(
                                feeds@[j],
                                audience,
                                #[trigger] table_rows(&table)[j],
                            ),
                    decreases n - i,
                {
                    let f = &feeds[i];
                    let mut cells: Vec<String> = Vec::new();
                    cells.push(u64_to_decimal(f.position as u64));
                    cells.push(f.name.clone());
                    cells.push(f.dir.clone());
                    cells.push(duration_fmt(f.age_of_output_ms, audience));
                    cells.push(duration_fmt(f.age_of_log_ms, audience));
                    cells.push(
                        match audience {
                            Audience::Human => human_bytes(f.log_size_bytes),
                            Audience::Machine => u64_to_decimal(f.log_size_bytes),
                        },
                    );
                    cells.push(u64_to_decimal(f.log_lines as u64));
                    cells.push(u64_to_decimal(f.pid as u64));
                    cells.push(
                        match &f.state {
                            Some(s) => s.to_str().to_owned(),
                            None => "-".to_owned(),
                        },
                    );
                    cells.push(desc_cell(&f.pdescendants));
                    proof {
                        assert(feed_cells_ok(
                            feeds@[i as int],
                            audience,
                            cells@.map_values(|c: String| c@),
                        ));
                    }
                    table_add_row(&mut table, cells);
                    i = i + 1;
                }
                let r = table_render(&table);
                proof {
                    let ghost rows = table_rows(&table);
                    assert(rows.len() == feeds@.len());
                }
                r
            },
        }
    }
}

} // verus!
