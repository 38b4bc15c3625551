//! Tab-separated tables that the Bridge sends back: one row per line, cells
//! separated by tabs, tabs and line breaks inside a cell turned to spaces.
//! The replay strategy report and the team management rows are laid out
//! here from plain records of what the game holds, and values kept by
//! region are written in region order.

use vstd::prelude::*;
use crate::commands::{append_tsv_row, tsv_cell};
use crate::text::{decimal_text, join_pieces, push_decimal, string_of};

verus! {

broadcast use vstd::seq_lib::group_seq_properties;

// ---------------------------------------------------------------------------
// Tables
// ---------------------------------------------------------------------------
/// One row: the cells, sanitized and joined with tabs.
pub open spec fn tsv_line(cells: Seq<Seq<char>>) -> Seq<char> {
    join_pieces(cells.map_values(|c: Seq<char>| tsv_cell(c)), '\t')
}

/// The rows, one per line.
pub open spec fn table_text(rows: Seq<Seq<Seq<char>>>) -> Seq<char>
    decreases rows.len(),
{
    if rows.len() == 0 {
        Seq::empty()
    } else {
        let head = table_text(rows.drop_last());
        head + (if head.len() > 0 {
            seq!['\n']
        } else {
            Seq::empty()
        }) + tsv_line(rows.last())
    }
}

/// The texts of some cells.
pub open spec fn cell_views(cells: Seq<String>) -> Seq<Seq<char>> {
    cells.map_values(|c: String| c@)
}

/// Appends a row to a table.
fn push_row(out: &mut String, cells: Vec<String>, Ghost(rows): Ghost<Seq<Seq<Seq<char>>>>)
    requires
        old(out)@ == table_text(rows),
    ensures
        final(out)@ == table_text(rows.push(cell_views(cells@))),
{
    append_tsv_row(out, cells.as_slice());
    proof {
        let rows2 = rows.push(cell_views(cells@));
        assert(rows2.drop_last() == rows);
        assert(cells@.map_values(|c: String| tsv_cell(c@)) =~= cell_views(cells@).map_values(
            |c: Seq<char>| tsv_cell(c),
        ));
    }
}

/// The decimal text of `n`.
fn number_string(n: usize) -> (r: String)
    ensures
        r@ == decimal_text(n as nat),
{
    let mut v: Vec<char> = Vec::new();
    push_decimal(&mut v, n as u128);
    string_of(&v)
}

// ---------------------------------------------------------------------------
// Replay strategies
// ---------------------------------------------------------------------------
/// A replay as the game keeps it: the team on each side, whether blue won,
/// and the strategy each side played, as text.
pub struct ReplayRecord {
    pub blue_team_id: usize,
    pub red_team_id: usize,
    pub blue_team_win: bool,
    pub blue_strategy: String,
    pub red_strategy: String,
}

/// `1` for true, `0` for false.
pub open spec fn bit_text(b: bool) -> Seq<char> {
    if b {
        "1"@
    } else {
        "0"@
    }
}

/// The row for one requested replay: `MISSING` when the game has none,
/// `TEAM_NOT_IN_REPLAY` when the team played on neither side, else `OK`,
/// the team's side, both team ids, whether the team won the set and the
/// strategy it played.
pub open spec fn replay_cells(team_id: usize, replay_id: usize, replay: Option<ReplayRecord>) -> Seq<Seq<char>> {
    let id = decimal_text(replay_id as nat);
    let e = Seq::<char>::empty();
    match replay {
        None => seq![id, "MISSING"@, e, e, e, e, e],
        Some(r) => {
            let blue = decimal_text(r.blue_team_id as nat);
            let red = decimal_text(r.red_team_id as nat);
            if r.blue_team_id == team_id {
                seq![id, "OK"@, "Blue"@, blue, red, bit_text(r.blue_team_win), r.blue_strategy@]
            } else if r.red_team_id == team_id {
                seq![id, "OK"@, "Red"@, blue, red, bit_text(!r.blue_team_win), r.red_strategy@]
            } else {
                seq![id, "TEAM_NOT_IN_REPLAY"@, e, blue, red, e, e]
            }
        },
    }
}

/// The rows for the requested replays, in order.
pub open spec fn replay_rows(team_id: usize, replays: Seq<(usize, Option<ReplayRecord>)>) -> Seq<Seq<Seq<char>>> {
    replays.map_values(|p: (usize, Option<ReplayRecord>)| replay_cells(team_id, p.0, p.1))
}

fn bit_string(b: bool) -> (r: String)
    ensures
        r@ == bit_text(b),
{
    if b {
        String::from_str("1")
    } else {
        String::from_str("0")
    }
}

/// The replay strategy report of a team, one row per requested replay.
pub fn replay_strategy_table(team_id: usize, replays: &Vec<(usize, Option<ReplayRecord>)>) -> (r: String)
    ensures
        r@ == table_text(replay_rows(team_id, replays@)),
{
    let ghost all = replay_rows(team_id, replays@);
    let mut out = String::new();
    let mut i: usize = 0;
    assert(all.take(0) =~= Seq::<Seq<Seq<char>>>::empty());
    while i < replays.len()
        invariant
            i <= replays.len(),
            all == replay_rows(team_id, replays@),
            out@ == table_text(all.take(i as int)),
        decreases replays.len() - i,
    {
        let entry = &replays[i];
        let mut cells: Vec<String> = Vec::new();
        cells.push(number_string(entry.0));
        match &entry.1 {
            None => {
                cells.push(String::from_str("MISSING"));
                cells.push(String::new());
                cells.push(String::new());
                cells.push(String::new());
                cells.push(String::new());
                cells.push(String::new());
            },
            Some(r) => {
                if r.blue_team_id == team_id {
                    cells.push(String::from_str("OK"));
                    cells.push(String::from_str("Blue"));
                    cells.push(number_string(r.blue_team_id));
                    cells.push(number_string(r.red_team_id));
                    cells.push(bit_string(r.blue_team_win));
                    cells.push(r.blue_strategy.clone());
                } else if r.red_team_id == team_id {
                    cells.push(String::from_str("OK"));
                    cells.push(String::from_str("Red"));
                    cells.push(number_string(r.blue_team_id));
                    cells.push(number_string(r.red_team_id));
                    cells.push(bit_string(!r.blue_team_win));
                    cells.push(r.red_strategy.clone());
                } else {
                    cells.push(String::from_str("TEAM_NOT_IN_REPLAY"));
                    cells.push(String::new());
                    cells.push(number_string(r.blue_team_id));
                    cells.push(number_string(r.red_team_id));
                    cells.push(String::new());
                    cells.push(String::new());
                }
            },
        }
        assert(cell_views(cells@) =~= all[i as int]);
        push_row(&mut out, cells, Ghost(all.take(i as int)));
        assert(all.take(i + 1) == all.take(i as int).push(all[i as int]));
        i += 1;
    }
    assert(all.take(replays.len() as int) == all);
    out
}

// ---------------------------------------------------------------------------
// Team management
// ---------------------------------------------------------------------------
/// What the team management rows are made of: the last starting lineup
/// (the player's id and name, when the slot is filled and the game knows
/// the name), the players and staff on each list, and counts of the other
/// settings.
pub struct ManagementRecord {
    pub lineup: Vec<Option<(usize, Option<String>)>>,
    pub watched_players: Vec<(usize, Option<String>)>,
    pub no_transfer_players: Vec<(usize, Option<String>)>,
    pub release_players: Vec<(usize, Option<String>)>,
    pub watched_staffs: Vec<(usize, Option<String>)>,
    pub release_staffs: Vec<(usize, Option<String>)>,
    pub pending_installments: usize,
    pub resale_clauses: usize,
    pub scout_dispatch_active: bool,
    pub merchandise_products: usize,
    pub champion_tiers: usize,
    pub personal_tactics: usize,
}

/// The name of a lineup slot by its position.
pub open spec fn slot_name(i: int) -> Seq<char> {
    if i == 0 {
        "Top"@
    } else if i == 1 {
        "Jungle"@
    } else if i == 2 {
        "Mid"@
    } else if i == 3 {
        "Bottom"@
    } else if i == 4 {
        "Support"@
    } else {
        "Unknown"@
    }
}

/// A name, or `{word} {id}` when the game has none.
pub open spec fn name_or_id(id: usize, name: Option<String>, word: Seq<char>) -> Seq<char> {
    match name {
        Some(n) => n@,
        None => word + seq![' '] + decimal_text(id as nat),
    }
}

pub open spec fn lineup_cells(i: int, slot: Option<(usize, Option<String>)>) -> Seq<Seq<char>> {
    match slot {
        Some((id, name)) => seq!["lineup"@, slot_name(i), decimal_text(id as nat), name_or_id(id, name, "Player"@)],
        None => seq!["lineup"@, slot_name(i), Seq::empty(), Seq::empty()],
    }
}

pub open spec fn lineup_rows(lineup: Seq<Option<(usize, Option<String>)>>) -> Seq<Seq<Seq<char>>> {
    Seq::new(lineup.len(), |i: int| lineup_cells(i, lineup[i]))
}

/// One row per listed entry: the list's label, the id and the name.
pub open spec fn entry_rows(label: Seq<char>, word: Seq<char>, entries: Seq<(usize, Option<String>)>) -> Seq<Seq<Seq<char>>> {
    entries.map_values(|e: (usize, Option<String>)| seq![label, decimal_text(e.0 as nat), name_or_id(e.0, e.1, word)])
}

pub open spec fn metric_rows(m: ManagementRecord) -> Seq<Seq<Seq<char>>> {
    seq![
        seq!["metric"@, "pending_installments"@, decimal_text(m.pending_installments as nat)],
        seq!["metric"@, "resale_clauses"@, decimal_text(m.resale_clauses as nat)],
        seq!["metric"@, "scout_dispatch"@, if m.scout_dispatch_active { "Active"@ } else { "None"@ }],
        seq!["metric"@, "merchandise_products"@, decimal_text(m.merchandise_products as nat)],
        seq!["metric"@, "champion_tiers"@, decimal_text(m.champion_tiers as nat)],
        seq!["metric"@, "personal_tactics"@, decimal_text(m.personal_tactics as nat)],
    ]
}

/// All management rows: the lineup, the five lists, then the counts.
pub open spec fn management_rows(m: ManagementRecord) -> Seq<Seq<Seq<char>>> {
    lineup_rows(m.lineup@) + entry_rows("watched_player"@, "Player"@, m.watched_players@) + entry_rows(
        "no_transfer_player"@,
        "Player"@,
        m.no_transfer_players@,
    ) + entry_rows("release_player"@, "Player"@, m.release_players@) + entry_rows(
        "watched_staff"@,
        "Staff"@,
        m.watched_staffs@,
    ) + entry_rows("release_staff"@, "Staff"@, m.release_staffs@) + metric_rows(m)
}

fn name_or_id_string(id: usize, name: &Option<String>, word: &str) -> (r: String)
    ensures
        r@ == name_or_id(id, *name, word@),
{
    match name {
        Some(n) => n.clone(),
        None => {
            let mut v: Vec<char> = crate::text::chars_of(word);
            v.push(' ');
            push_decimal(&mut v, id as u128);
            string_of(&v)
        },
    }
}

fn push_entry_rows(
    out: &mut String,
    label: &str,
    word: &str,
    entries: &Vec<(usize, Option<String>)>,
    Ghost(rows): Ghost<Seq<Seq<Seq<char>>>>,
)
    requires
        old(out)@ == table_text(rows),
    ensures
        final(out)@ == table_text(rows + entry_rows(label@, word@, entries@)),
{
    let ghost all = entry_rows(label@, word@, entries@);
    let mut i: usize = 0;
    assert(rows + all.take(0) =~= rows);
    while i < entries.len()
        invariant
            i <= entries.len(),
            all == entry_rows(label@, word@, entries@),
            out@ == table_text(rows + all.take(i as int)),
        decreases entries.len() - i,
    {
        let entry = &entries[i];
        let mut cells: Vec<String> = Vec::new();
        cells.push(String::from_str(label));
        cells.push(number_string(entry.0));
        cells.push(name_or_id_string(entry.0, &entry.1, word));
        assert(cell_views(cells@) =~= all[i as int]);
        push_row(out, cells, Ghost(rows + all.take(i as int)));
        assert(rows + all.take(i + 1) =~= (rows + all.take(i as int)).push(all[i as int]));
        i += 1;
    }
    assert(all.take(entries.len() as int) == all);
}

fn push_metric(
    out: &mut String,
    key: &str,
    value: String,
    Ghost(rows): Ghost<Seq<Seq<Seq<char>>>>,
)
    requires
        old(out)@ == table_text(rows),
    ensures
        final(out)@ == table_text(rows.push(seq!["metric"@, key@, value@])),
{
    let mut cells: Vec<String> = Vec::new();
    cells.push(String::from_str("metric"));
    cells.push(String::from_str(key));
    cells.push(value);
    assert(cell_views(cells@) =~= seq!["metric"@, key@, cells@[2]@]);
    push_row(out, cells, Ghost(rows));
}

/// The management rows of a team.
pub fn team_management_table(m: &ManagementRecord) -> (r: String)
    ensures
        r@ == table_text(management_rows(*m)),
{
    let mut out = String::new();
    let ghost lineup = lineup_rows(m.lineup@);
    let mut i: usize = 0;
    assert(lineup.take(0) =~= Seq::<Seq<Seq<char>>>::empty());
    while i < m.lineup.len()
        invariant
            i <= m.lineup.len(),
            lineup == lineup_rows(m.lineup@),
            out@ == table_text(lineup.take(i as int)),
        decreases m.lineup.len() - i,
    {
        let slot = if i == 0 {
            "Top"
        } else if i == 1 {
            "Jungle"
        } else if i == 2 {
            "Mid"
        } else if i == 3 {
            "Bottom"
        } else if i == 4 {
            "Support"
        } else {
            "Unknown"
        };
        assert(slot@ == slot_name(i as int));
        let mut cells: Vec<String> = Vec::new();
        cells.push(String::from_str("lineup"));
        cells.push(String::from_str(slot));
        match &m.lineup[i] {
            Some(p) => {
                cells.push(number_string(p.0));
                cells.push(name_or_id_string(p.0, &p.1, "Player"));
            },
            None => {
                cells.push(String::new());
                cells.push(String::new());
            },
        }
        assert(cell_views(cells@) =~= lineup[i as int]);
        push_row(&mut out, cells, Ghost(lineup.take(i as int)));
        assert(lineup.take(i + 1) == lineup.take(i as int).push(lineup[i as int]));
        i += 1;
    }
    assert(lineup.take(m.lineup.len() as int) == lineup);
    let ghost r0 = lineup;
    push_entry_rows(&mut out, "watched_player", "Player", &m.watched_players, Ghost(r0));
    let ghost r1 = r0 + entry_rows("watched_player"@, "Player"@, m.watched_players@);
    push_entry_rows(&mut out, "no_transfer_player", "Player", &m.no_transfer_players, Ghost(r1));
    let ghost r2 = r1 + entry_rows("no_transfer_player"@, "Player"@, m.no_transfer_players@);
    push_entry_rows(&mut out, "release_player", "Player", &m.release_players, Ghost(r2));
    let ghost r3 = r2 + entry_rows("release_player"@, "Player"@, m.release_players@);
    push_entry_rows(&mut out, "watched_staff", "Staff", &m.watched_staffs, Ghost(r3));
    let ghost r4 = r3 + entry_rows("watched_staff"@, "Staff"@, m.watched_staffs@);
    push_entry_rows(&mut out, "release_staff", "Staff", &m.release_staffs, Ghost(r4));
    let ghost r5 = r4 + entry_rows("release_staff"@, "Staff"@, m.release_staffs@);
    let ghost ms = metric_rows(*m);
    push_metric(&mut out, "pending_installments", number_string(m.pending_installments), Ghost(r5));
    push_metric(&mut out, "resale_clauses", number_string(m.resale_clauses), Ghost(r5.push(ms[0])));
    let scout = if m.scout_dispatch_active {
        String::from_str("Active")
    } else {
        String::from_str("None")
    };
    push_metric(&mut out, "scout_dispatch", scout, Ghost(r5.push(ms[0]).push(ms[1])));
    push_metric(
        &mut out,
        "merchandise_products",
        number_string(m.merchandise_products),
        Ghost(r5.push(ms[0]).push(ms[1]).push(ms[2])),
    );
    push_metric(
        &mut out,
        "champion_tiers",
        number_string(m.champion_tiers),
        Ghost(r5.push(ms[0]).push(ms[1]).push(ms[2]).push(ms[3])),
    );
    push_metric(
        &mut out,
        "personal_tactics",
        number_string(m.personal_tactics),
        Ghost(r5.push(ms[0]).push(ms[1]).push(ms[2]).push(ms[3]).push(ms[4])),
    );
    assert(r5.push(ms[0]).push(ms[1]).push(ms[2]).push(ms[3]).push(ms[4]).push(ms[5]) =~= management_rows(*m));
    out
}

// ---------------------------------------------------------------------------
// Values by region
// ---------------------------------------------------------------------------
/// The entries in order of region id, the same entries as given.
pub fn sort_by_region(entries: Vec<(usize, String)>) -> (r: Vec<(usize, String)>)
    ensures
        r@.to_multiset() == entries@.to_multiset(),
        r@.len() == entries@.len(),
        forall|a: int, b: int| 0 <= a < b < r@.len() ==> r@[a].0 <= r@[b].0,
{
    let ghost src = entries@;
    assert(src.len() == entries.len());
    let mut rest = entries;
    let mut out: Vec<(usize, String)> = Vec::new();
    let mut i: usize = 0;
    while rest.len() > 0
        invariant
            i <= src.len(),
            src.len() <= usize::MAX,
            rest@ == src.skip(i as int),
            out@.len() == i,
            out@.to_multiset() == src.take(i as int).to_multiset(),
            forall|a: int, b: int| 0 <= a < b < out@.len() ==> out@[a].0 <= out@[b].0,
        decreases rest.len(),
    {
        let e = rest.remove(0);
        let mut p: usize = 0;
        while p < out.len() && out[p].0 <= e.0
            invariant
                p <= out.len(),
                forall|a: int| 0 <= a < p ==> (#[trigger] out@[a]).0 <= e.0,
            decreases out.len() - p,
        {
            p += 1;
        }
        let ghost old_out = out@;
        proof {
            assert forall|a: int, b: int| 0 <= a < b < old_out.len() + 1 implies (#[trigger] old_out.insert(
                p as int,
                e,
            )[a]).0 <= (#[trigger] old_out.insert(p as int, e)[b]).0 by {
                let n = old_out.insert(p as int, e);
                if b < p {
                    assert(n[a] == old_out[a] && n[b] == old_out[b]);
                } else if b == p {
                    assert(n[a] == old_out[a]);
                } else if a == p {
                    assert(n[b] == old_out[b - 1]);
                    assert(old_out[p as int].0 > e.0);
                } else if a < p {
                    assert(n[a] == old_out[a] && n[b] == old_out[b - 1]);
                } else {
                    assert(n[a] == old_out[a - 1] && n[b] == old_out[b - 1]);
                }
            }
            assert(src.take(i + 1) == src.take(i as int).push(src[i as int]));
            assert(e == src[i as int]);
            vstd::seq_lib::to_multiset_insert(old_out, p as int, e);
            assert(src.skip(i + 1) == src.skip(i as int).drop_first());
        }
        out.insert(p, e);
        i += 1;
    }
    assert(src.take(src.len() as int) == src);
    out
}

/// `id{link}value` for each entry.
pub open spec fn region_pieces(es: Seq<(usize, String)>, link: char) -> Seq<Seq<char>> {
    es.map_values(|e: (usize, String)| decimal_text(e.0 as nat).push(link) + e.1@)
}

/// The entries as `id{link}value`, separated by `sep`.
pub fn region_values_text(entries: &Vec<(usize, String)>, link: char, sep: char) -> (r: String)
    ensures
        r@ == join_pieces(region_pieces(entries@, link), sep),
{
    let ghost all = region_pieces(entries@, link);
    let mut pieces: Vec<Vec<char>> = Vec::new();
    let mut i: usize = 0;
    while i < entries.len()
        invariant
            i <= entries.len(),
            all == region_pieces(entries@, link),
            crate::text::views(pieces@) == all.take(i as int),
        decreases entries.len() - i,
    {
        let mut piece: Vec<char> = Vec::new();
        push_decimal(&mut piece, entries[i].0 as u128);
        piece.push(link);
        crate::text::extend_str(&mut piece, entries[i].1.as_str());
        let ghost before = crate::text::views(pieces@);
        pieces.push(piece);
        assert(crate::text::views(pieces@) =~= before.push(all[i as int]));
        assert(all.take(i + 1) == all.take(i as int).push(all[i as int]));
        i += 1;
    }
    assert(all.take(entries.len() as int) == all);
    string_of(&crate::text::join_chars(&pieces, sep))
}

} // verus!
