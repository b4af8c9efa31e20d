use vstd::prelude::*;

use crate::random::{random_hex, RandomnessError};
use crate::text::{all_lower_hex, decimal, hex_encode, push_decimal};

verus! {

/// The most transfers that the history keeps.
pub const MAX_ENTRIES: usize = 200;

/// One recorded transfer.
#[derive(Clone, Debug)]
pub struct HistoryEntry {
    pub id: String,
    pub timestamp_unix: u64,
    pub route: String,
    pub target: String,
    pub item_count: usize,
    pub outcome: String,
    pub message: String,
}

/// A new entry with the given ID and time for a transfer of `item_count`
/// items over `route` to `target`.
pub fn new_entry(
    id: String,
    timestamp_unix: u64,
    route: &str,
    target: &str,
    item_count: usize,
    outcome: &str,
    message: &str,
) -> (entry: HistoryEntry)
    ensures
        entry.id == id,
        entry.timestamp_unix == timestamp_unix,
        entry.route@ == route@,
        entry.target@ == target@,
        entry.item_count == item_count,
        entry.outcome@ == outcome@,
        entry.message@ == message@,
{
    HistoryEntry {
        id,
        timestamp_unix,
        route: route.to_owned(),
        target: target.to_owned(),
        item_count,
        outcome: outcome.to_owned(),
        message: message.to_owned(),
    }
}

/// A new entry ID: 12 random bytes (96 bits) in lowercase hexadecimal.
pub fn random_id() -> (result: Result<String, RandomnessError>)
    ensures
        result matches Ok(id) ==> id@.len() == 24 && all_lower_hex(id@),
        result matches Ok(id) ==> exists|bytes: Seq<u8>|
            bytes.len() == 12 && id@ == #[trigger] hex_encode(bytes),
{
    random_hex(12)
}

/// The entries that remain after the history was cut down to its newest
/// `MAX_ENTRIES`.
pub open spec fn spec_retained(entries: Seq<HistoryEntry>) -> Seq<HistoryEntry> {
    if entries.len() > MAX_ENTRIES {
        entries.subrange(entries.len() - MAX_ENTRIES, entries.len() as int)
    } else {
        entries
    }
}

/// When the history holds more than `MAX_ENTRIES` entries, the newest
/// `MAX_ENTRIES` of them, oldest first, which must then be written back;
/// otherwise nothing, and the file stays as it is.
pub fn entries_to_rewrite(entries: Vec<HistoryEntry>) -> (kept: Option<Vec<HistoryEntry>>)
    ensures
        kept is Some <==> entries@.len() > MAX_ENTRIES,
        kept matches Some(k) ==> k@ == spec_retained(entries@),
{
    if entries.len() > MAX_ENTRIES {
        let mut all = entries;
        let cut = all.len() - MAX_ENTRIES;
        let newest = all.split_off(cut);
        Some(newest)
    } else {
        None
    }
}

/// The history keeps at most `MAX_ENTRIES` entries, always the newest ones in
/// their order, and drops nothing while it is not full.
pub proof fn lemma_retention_keeps_newest(entries: Seq<HistoryEntry>)
    ensures
        spec_retained(entries).len() <= MAX_ENTRIES || spec_retained(entries) == entries,
        spec_retained(entries).len() == if entries.len() > MAX_ENTRIES {
            MAX_ENTRIES as nat
        } else {
            entries.len()
        },
        forall|i: int|
            0 <= i < spec_retained(entries).len() ==> #[trigger] spec_retained(entries)[i]
                == entries[entries.len() - spec_retained(entries).len() + i],
{
}

/// The newest `limit` entries, newest first.
pub open spec fn spec_recent(entries: Seq<HistoryEntry>, limit: nat) -> Seq<HistoryEntry> {
    let count = if limit < entries.len() {
        limit
    } else {
        entries.len()
    };
    Seq::new(count, |i: int| entries[entries.len() - 1 - i])
}

/// A listing is newest first whatever the limit: it holds `min(limit, n)`
/// entries of a history of `n`, and its entry `i` is entry `n - 1 - i` of the
/// history; with a limit of at least `n` it is the whole history reversed.
pub proof fn lemma_recent_is_newest_first(entries: Seq<HistoryEntry>, limit: nat)
    ensures
        spec_recent(entries, limit).len() == if limit < entries.len() {
            limit
        } else {
            entries.len()
        },
        forall|i: int|
            0 <= i < spec_recent(entries, limit).len() ==> #[trigger] spec_recent(entries, limit)[i]
                == entries[entries.len() - 1 - i],
        entries.len() <= limit ==> spec_recent(entries, limit) == entries.reverse(),
{
    if entries.len() <= limit {
        assert(spec_recent(entries, limit) =~= entries.reverse());
    }
}

/// The entries that a history listing shows: newest first, at most `limit`.
pub fn recent_entries(entries: Vec<HistoryEntry>, limit: usize) -> (shown: Vec<HistoryEntry>)
    ensures
        shown@ == spec_recent(entries@, limit as nat),
{
    let ghost all = entries@;
    let mut rest = entries;
    let mut shown: Vec<HistoryEntry> = Vec::new();
    while shown.len() < limit && rest.len() > 0
        invariant
            shown@.len() + rest@.len() == all.len(),
            shown@.len() <= limit,
            rest@ == all.subrange(0, rest@.len() as int),
            forall|i: int| 0 <= i < shown@.len() ==> #[trigger] shown@[i] == all[all.len() - 1 - i],
        decreases rest@.len(),
    {
        match rest.pop() {
            Some(entry) => {
                shown.push(entry);
            },
            None => {},
        }
    }
    assert(shown@ =~= spec_recent(all, limit as nat));
    shown
}

/// The line that lists an entry in the text report.
pub open spec fn spec_history_line(entry: HistoryEntry) -> Seq<char> {
    decimal(entry.timestamp_unix as nat) + "\t"@ + entry.outcome@ + "\t"@ + entry.target@ + "\t"@
        + decimal(entry.item_count as nat) + " item(s)\t"@ + entry.message@
}

/// The tab-separated line of the text history report.
pub fn history_line(entry: &HistoryEntry) -> (line: String)
    ensures
        line@ == spec_history_line(*entry),
{
    let mut line = String::new();
    push_decimal(&mut line, entry.timestamp_unix);
    line.append("\t");
    line.append(entry.outcome.as_str());
    line.append("\t");
    line.append(entry.target.as_str());
    line.append("\t");
    push_decimal(&mut line, entry.item_count as u64);
    line.append(" item(s)\t");
    line.append(entry.message.as_str());
    assert(line@ =~= spec_history_line(*entry));
    line
}

} // verus!
