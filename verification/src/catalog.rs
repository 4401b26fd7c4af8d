//! The list of conversations, assembled from the rows read from Cursor's
//! stores.

use vstd::prelude::*;
use vstd::utf8::encode_utf8;
use crate::domain::{Conversation, SchemaProbe, SchemaState};
use crate::error::AppError;
use crate::json::{JsonValue, Payload};
use crate::preview::{conversation_preview, preview_of};
use crate::store::{conversation_title, title_of, valid_id, valid_id_text, CursorStore};
use crate::text::{insert_sorted_id, joined, strictly_sorted, count_before};

verus! {

/// A row of the search database's `conversations` table, with what the state
/// database holds for it.
#[derive(Debug)]
pub struct SearchRow {
    pub id: String,
    pub title: String,
    pub updated_at: i64,
    pub source: String,
    pub archived: bool,
    /// The `composerData:<id>` value.
    pub composer: Payload,
    /// The workspace told for the conversation (see `infer_workspace`).
    pub workspace: String,
}

/// A row of the state database's `composerHeaders` table, with the
/// conversation payload.
#[derive(Debug)]
pub struct StateRow {
    pub id: String,
    pub updated_at: i64,
    pub archived: bool,
    /// The `composerData:<id>` value.
    pub composer: Payload,
    /// The header's `value`.
    pub header: Payload,
    /// The workspace told for the conversation (see `infer_workspace`).
    pub workspace: String,
}

/// The rows read for the conversation list: from the search database when it
/// exists, else from the state database alone.
#[derive(Debug)]
pub enum ConversationRows {
    Search(Vec<SearchRow>),
    State(Vec<StateRow>),
}

/// The preview of an optional payload; empty when there is none.
pub open spec fn payload_preview(payload: Option<JsonValue>, max_chars: nat) -> Seq<char> {
    match payload {
        Some(v) => preview_of(v, max_chars),
        None => Seq::empty(),
    }
}

/// The title of a conversation known only from the state database: the
/// header's title, else the payload's, else `未命名对话`.
pub open spec fn state_title(header: Option<JsonValue>, composer: Option<JsonValue>) -> Seq<char> {
    let from_header = match header {
        Some(h) => title_of(h),
        None => None,
    };
    let from_composer = match composer {
        Some(c) => title_of(c),
        None => None,
    };
    if from_header is Some {
        from_header->0
    } else if from_composer is Some {
        from_composer->0
    } else {
        "未命名对话"@
    }
}

/// `c` is the list entry of search row `r`; its size counts the payload and
/// the title, in bytes.
pub open spec fn from_search_row(c: Conversation, r: SearchRow, max_chars: nat) -> bool {
    &&& c.id@ == r.id@
    &&& c.title@ == r.title@
    &&& c.updated_at == r.updated_at
    &&& c.source@ == r.source@
    &&& c.archived == r.archived
    &&& c.workspace@ == r.workspace@
    &&& c.preview@ == payload_preview(r.composer.parsed(), max_chars)
    &&& c.logical_bytes == r.composer.byte_len() + encode_utf8(r.title@).len()
}

/// `c` is the list entry of state row `r`; its size counts the payload and
/// the header, in bytes.
pub open spec fn from_state_row(c: Conversation, r: StateRow, max_chars: nat) -> bool {
    &&& c.id@ == r.id@
    &&& c.title@ == state_title(r.header.parsed(), r.composer.parsed())
    &&& c.updated_at == r.updated_at
    &&& c.source@ == "state.vscdb"@
    &&& c.archived == r.archived
    &&& c.workspace@ == r.workspace@
    &&& c.preview@ == payload_preview(r.composer.parsed(), max_chars)
    &&& c.logical_bytes == r.composer.byte_len() + r.header.byte_len()
}

fn preview_for(payload: &Payload, max_chars: usize) -> (r: String)
    ensures
        r@ == payload_preview(payload.parsed(), max_chars as nat),
{
    match payload.json() {
        Some(v) => conversation_preview(v, max_chars),
        None => String::new(),
    }
}

fn title_from(payload: &Payload) -> (r: Option<String>)
    ensures
        match r {
            Some(t) => payload.parsed() matches Some(v) && title_of(v) == Some(t@),
            None => match payload.parsed() {
                Some(v) => title_of(v) is None,
                None => true,
            },
        },
{
    match payload.json() {
        Some(v) => conversation_title(v),
        None => None,
    }
}

/// The list entry of a search row (see `from_search_row`).
pub fn search_conversation(row: SearchRow, max_chars: usize) -> (c: Conversation)
    requires
        row.composer.byte_len() + encode_utf8(row.title@).len() <= u64::MAX,
    ensures
        from_search_row(c, row, max_chars as nat),
{
    let preview = preview_for(&row.composer, max_chars);
    let title_str = row.title.as_str();
    let title_bytes = title_str.as_bytes();
    let title_len = title_bytes.len();
    assert(title_str@ == row.title@);
    assert(title_len == encode_utf8(row.title@).len());
    Conversation {
        id: row.id,
        logical_bytes: row.composer.size() as u64 + title_len as u64,
        title: row.title,
        updated_at: row.updated_at,
        source: row.source,
        archived: row.archived,
        workspace: row.workspace,
        preview,
    }
}

/// The list entry of a state row (see `from_state_row`).
pub fn state_conversation(row: StateRow, max_chars: usize) -> (c: Conversation)
    requires
        row.composer.byte_len() + row.header.byte_len() <= u64::MAX,
    ensures
        from_state_row(c, row, max_chars as nat),
{
    let preview = preview_for(&row.composer, max_chars);
    let title = match title_from(&row.header) {
        Some(t) => t,
        None => match title_from(&row.composer) {
            Some(t) => t,
            None => String::from_str("未命名对话"),
        },
    };
    Conversation {
        id: row.id,
        logical_bytes: row.composer.size() as u64 + row.header.size() as u64,
        title,
        updated_at: row.updated_at,
        source: String::from_str("state.vscdb"),
        archived: row.archived,
        workspace: row.workspace,
        preview,
    }
}

/// Row `i` holds the first appearance of its id.
pub open spec fn first_appearance(ids: Seq<Seq<char>>, i: int) -> bool {
    forall|j: int| 0 <= j < i ==> ids[j] != ids[i]
}

/// Indices in ascending order, each below `n`.
pub open spec fn ascending_below(r: Seq<usize>, n: int) -> bool {
    &&& forall|k: int| 0 <= k < r.len() ==> r[k] < n
    &&& forall|k: int, l: int| 0 <= k < l < r.len() ==> r[k] < r[l]
}

/// The rows to read of the search database's listing: the first row of each
/// conversation, in order (a conversation may be listed more than once).
pub fn first_rows(ids: &Vec<String>) -> (r: Vec<usize>)
    ensures
        ascending_below(r@, ids@.len() as int),
        forall|i: int| 0 <= i < ids@.len() ==> (r@.contains(i as usize) <==> first_appearance(ids.deep_view(), i)),
{
    let ghost all = ids.deep_view();
    let mut seen: Vec<String> = Vec::new();
    let mut r: Vec<usize> = Vec::new();
    let mut i: usize = 0;
    while i < ids.len()
        invariant
            i <= ids@.len(),
            all == ids.deep_view(),
            all.len() == ids@.len(),
            strictly_sorted(seen.deep_view()),
            forall|x: Seq<char>| seen.deep_view().contains(x) <==> exists|j: int| 0 <= j < i && all[j] == x,
            ascending_below(r@, i as int),
            forall|k: int| 0 <= k < i ==> (r@.contains(k as usize) <==> first_appearance(all, k)),
        decreases ids@.len() - i,
    {
        let ghost before = seen.deep_view();
        let ghost r_before = r@;
        let added = insert_sorted_id(&mut seen, ids[i].clone());
        assert(all[i as int] == ids@[i as int]@);
        proof {
            if added {
                crate::text::lemma_count_before_bounds(before, all[i as int]);
                crate::text::lemma_insert_contains(before, count_before(before, all[i as int]), all[i as int]);
            }
            assert forall|x: Seq<char>| seen.deep_view().contains(x) implies exists|j: int|
                0 <= j < i + 1 && all[j] == x by {
                if !before.contains(x) {
                    assert(all[i as int] == x);
                }
            }
            assert forall|x: Seq<char>| (exists|j: int| 0 <= j < i + 1 && all[j] == x) implies seen.deep_view().contains(
                x,
            ) by {
                let j = choose|j: int| 0 <= j < i + 1 && all[j] == x;
                if j < i {
                    assert(before.contains(x));
                }
            }
            assert(added == first_appearance(all, i as int)) by {
                if !added {
                    let j = choose|j: int| 0 <= j < i && all[j] == all[i as int];
                }
            }
        }
        if added {
            r.push(i);
            proof {
                assert forall|k: int| 0 <= k < i + 1 implies (r@.contains(k as usize) <==> first_appearance(all, k)) by {
                    if k < i {
                        if r_before.contains(k as usize) {
                            let q = choose|q: int| 0 <= q < r_before.len() && r_before[q] == k as usize;
                            assert(r@[q] == k as usize);
                        }
                        if r@.contains(k as usize) {
                            let q = choose|q: int| 0 <= q < r@.len() && r@[q] == k as usize;
                            assert(q < r_before.len());
                            assert(r_before[q] == k as usize);
                        }
                    } else {
                        assert(r@[r@.len() - 1] == i);
                    }
                }
            }
        } else {
            proof {
                assert(!r@.contains(i as usize));
            }
        }
        i = i + 1;
    }
    r
}

/// The rows to read of the state database's listing: those whose id is well formed.
pub fn valid_rows(ids: &Vec<String>) -> (r: Vec<usize>)
    ensures
        ascending_below(r@, ids@.len() as int),
        forall|i: int| 0 <= i < ids@.len() ==> (r@.contains(i as usize) <==> valid_id_text(ids@[i]@)),
{
    let mut r: Vec<usize> = Vec::new();
    let mut i: usize = 0;
    while i < ids.len()
        invariant
            i <= ids@.len(),
            ascending_below(r@, i as int),
            forall|k: int| 0 <= k < i ==> (r@.contains(k as usize) <==> valid_id_text(ids@[k]@)),
        decreases ids@.len() - i,
    {
        let ghost r_before = r@;
        if valid_id(ids[i].as_str()) {
            r.push(i);
            proof {
                assert forall|k: int| 0 <= k < i + 1 implies (r@.contains(k as usize) <==> valid_id_text(ids@[k]@)) by {
                    if k < i {
                        if r_before.contains(k as usize) {
                            let q = choose|q: int| 0 <= q < r_before.len() && r_before[q] == k as usize;
                            assert(r@[q] == k as usize);
                        }
                        if r@.contains(k as usize) {
                            let q = choose|q: int| 0 <= q < r@.len() && r@[q] == k as usize;
                            assert(q < r_before.len());
                            assert(r_before[q] == k as usize);
                        }
                    } else {
                        assert(r@[r@.len() - 1] == i);
                    }
                }
            }
        }
        i = i + 1;
    }
    r
}

/// The sizes of all rows fit in 64 bits.
pub open spec fn row_sizes_fit(rows: ConversationRows) -> bool {
    match rows {
        ConversationRows::Search(rs) => forall|i: int| 0 <= i < rs@.len() ==> #[trigger] rs@[i].composer.byte_len()
            + encode_utf8(rs@[i].title@).len() <= u64::MAX,
        ConversationRows::State(rs) => forall|i: int| 0 <= i < rs@.len() ==> #[trigger] rs@[i].composer.byte_len()
            + rs@[i].header.byte_len() <= u64::MAX,
    }
}

/// `list` holds the entries of `rows`, one for each row, in order.
pub open spec fn listed(list: Seq<Conversation>, rows: ConversationRows, max_chars: nat) -> bool {
    match rows {
        ConversationRows::Search(rs) => list.len() == rs@.len() && forall|i: int|
            0 <= i < list.len() ==> from_search_row(#[trigger] list[i], rs@[i], max_chars),
        ConversationRows::State(rs) => list.len() == rs@.len() && forall|i: int|
            0 <= i < list.len() ==> from_state_row(#[trigger] list[i], rs@[i], max_chars),
    }
}

impl CursorStore {
    /// The conversation list, newest first as the rows come: refused with the
    /// probe's diagnostics unless the layout is the verified one; otherwise
    /// one entry per row (see `from_search_row` and `from_state_row`), with
    /// previews of at most `max_preview_chars` characters.
    pub fn load_conversations(&self, probe: SchemaProbe, rows: ConversationRows) -> (r: Result<Vec<Conversation>, AppError>)
        requires
            row_sizes_fit(rows),
        ensures
            match r {
                Ok(list) => probe.state == SchemaState::Supported && listed(
                    list@,
                    rows,
                    self.config.max_preview_chars as nat,
                ),
                Err(e) => probe.state != SchemaState::Supported && (e matches AppError::UnsupportedSchema(m)
                    && m@ == joined(probe.diagnostics.deep_view(), "；"@)),
            },
    {
        match CursorStore::require_supported(probe) {
            Ok(_) => {},
            Err(e) => {
                return Err(e);
            },
        }
        let max = self.config.max_preview_chars;
        let ghost original = rows;
        let mut list: Vec<Conversation> = Vec::new();
        match rows {
            ConversationRows::Search(rs) => {
                let ghost spec_rows = rs@;
                let mut rest = rs;
                let mut i: usize = 0;
                let n = rest.len();
                while i < n
                    invariant
                        n == spec_rows.len(),
                        i <= n,
                        rest@ == spec_rows.skip(i as int),
                        forall|k: int| 0 <= k < spec_rows.len() ==> #[trigger] spec_rows[k].composer.byte_len()
                            + encode_utf8(spec_rows[k].title@).len() <= u64::MAX,
                        list@.len() == i,
                        forall|k: int| 0 <= k < i ==> from_search_row(#[trigger] list@[k], spec_rows[k], max as nat),
                    decreases n - i,
                {
                    let row = rest.remove(0);
                    assert(rest@ =~= spec_rows.skip(i + 1));
                    assert(row == spec_rows[i as int]);
                    let c = search_conversation(row, max);
                    list.push(c);
                    i = i + 1;
                }
            },
            ConversationRows::State(rs) => {
                let ghost spec_rows = rs@;
                let mut rest = rs;
                let mut i: usize = 0;
                let n = rest.len();
                while i < n
                    invariant
                        n == spec_rows.len(),
                        i <= n,
                        rest@ == spec_rows.skip(i as int),
                        forall|k: int| 0 <= k < spec_rows.len() ==> #[trigger] spec_rows[k].composer.byte_len()
                            + spec_rows[k].header.byte_len() <= u64::MAX,
                        list@.len() == i,
                        forall|k: int| 0 <= k < i ==> from_state_row(#[trigger] list@[k], spec_rows[k], max as nat),
                    decreases n - i,
                {
                    let row = rest.remove(0);
                    assert(rest@ =~= spec_rows.skip(i + 1));
                    assert(row == spec_rows[i as int]);
                    let c = state_conversation(row, max);
                    list.push(c);
                    i = i + 1;
                }
            },
        }
        Ok(list)
    }
}

} // verus!
