//! The interactive state machine: screens, selection, search and the guarded
//! path from a selection to an executed cleanup.

use vstd::prelude::*;
use crate::config::Config;
use crate::domain::{
    no_failed_check, ArchiveFilter, CheckState, Conversation, DeletePlan, PlanView, PreflightReport,
    ProgressSnapshot, Receipt, SchemaProbe, SchemaState, WorkspaceSummary,
};
use crate::error::AppError;
use crate::platform::{absolute_path, is_absolute_path};
use crate::text::{
    count_before, lemma_count_before, lemma_insert_sorted, lemma_toggle, strictly_sorted,
    chars_contain, chars_lt, chars_of, clone_strings, contains_text, lemma_text_lt_asymmetric,
    lemma_text_lt_irreflexive, lemma_text_lt_total, lemma_text_lt_transitive, lowercase,
    string_from_chars, text_lt, to_lower,
};

verus! {

/// The pages of the interface.
#[derive(Clone, Copy, Debug, PartialEq, Eq, Structural)]
pub enum Screen {
    Home,
    SourceCheck,
    Workspaces,
    Records,
    Detail,
    Preflight,
    Planning,
    Preview,
    Confirm,
    Running,
    Receipt,
    Error,
    Help,
}

/// Work the interface asks the runtime to perform.
#[derive(Debug)]
pub enum Effect {
    ProbeAndLoad,
    RunPreflight(Vec<String>),
    BuildPlan(Vec<String>),
    Execute(DeletePlan),
}

/// The keys the interface reacts to.
#[derive(Clone, Copy, Debug, PartialEq, Eq, Structural)]
pub enum KeyCode {
    Char(char),
    Enter,
    Esc,
    Backspace,
    Up,
    Down,
    Left,
    Right,
    PageUp,
    PageDown,
    Home,
    End,
    Delete,
    Other,
}

/// A key press with the modifiers that matter.
#[derive(Clone, Copy, Debug, PartialEq, Eq, Structural)]
pub struct KeyEvent {
    pub code: KeyCode,
    pub control: bool,
    pub alt: bool,
}

/// The whole interface state.
pub struct App {
    pub config: Config,
    pub screen: Screen,
    pub previous_screen: Screen,
    pub home_selection: usize,
    pub workspace_cursor: usize,
    pub active_workspace: Option<String>,
    pub record_cursor: usize,
    pub detail_scroll: u16,
    pub probe: Option<SchemaProbe>,
    pub loading: bool,
    pub records: Vec<Conversation>,
    /// Selected conversation ids, strictly ascending.
    pub selected: Vec<String>,
    pub query: String,
    pub searching: bool,
    pub archive_filter: ArchiveFilter,
    pub preflight: Option<PreflightReport>,
    pub pending_ids: Vec<String>,
    pub plan: Option<DeletePlan>,
    pub confirm_execute: bool,
    pub progress: Option<ProgressSnapshot>,
    pub receipt: Option<Receipt>,
    pub error: Option<(String, String, String)>,
    pub toast: Option<String>,
    pub should_quit: bool,
}

/// The text of an optional string.
pub open spec fn opt_text(s: Option<String>) -> Option<Seq<char>> {
    match s {
        Some(t) => Some(t@),
        None => None,
    }
}

/// Whether a record passes the archive filter.
pub open spec fn archive_ok(filter: ArchiveFilter, archived: bool) -> bool {
    match filter {
        ArchiveFilter::All => true,
        ArchiveFilter::Active => !archived,
        ArchiveFilter::Archived => archived,
    }
}

/// Whether a record is listed: in the active workspace (if any), accepted by
/// the archive filter, and matching the lower-cased query in its lower-cased
/// title, id or workspace (an empty query matches everything).
pub open spec fn record_listed(
    r: Conversation,
    active: Option<Seq<char>>,
    filter: ArchiveFilter,
    query: Seq<char>,
) -> bool {
    let q = lowercase(query);
    &&& (active matches Some(w) ==> r.workspace@ == w)
    &&& archive_ok(filter, r.archived)
    &&& (q.len() == 0 || contains_text(lowercase(r.title@), q) || contains_text(lowercase(r.id@), q)
        || contains_text(lowercase(r.workspace@), q))
}

/// The indices of the first `n` records that are listed, ascending.
pub open spec fn listed_upto(
    records: Seq<Conversation>,
    n: int,
    active: Option<Seq<char>>,
    filter: ArchiveFilter,
    query: Seq<char>,
) -> Seq<usize>
    decreases n,
{
    if n <= 0 {
        Seq::<usize>::empty()
    } else {
        let prev = listed_upto(records, n - 1, active, filter, query);
        if record_listed(records[n - 1], active, filter, query) {
            prev.push((n - 1) as usize)
        } else {
            prev
        }
    }
}

pub proof fn lemma_listed_upto_bounds(
    records: Seq<Conversation>,
    n: int,
    active: Option<Seq<char>>,
    filter: ArchiveFilter,
    query: Seq<char>,
)
    requires
        0 <= n <= records.len(),
    ensures
        listed_upto(records, n, active, filter, query).len() <= n,
        forall|i: int| 0 <= i < listed_upto(records, n, active, filter, query).len()
            ==> #[trigger] listed_upto(records, n, active, filter, query)[i] < n,
    decreases n,
{
    if n > 0 {
        lemma_listed_upto_bounds(records, n - 1, active, filter, query);
    }
}

/// The label of a workspace group sorts after the absolute paths when it is
/// not itself an absolute path.
pub open spec fn group_kind(label: Seq<char>, windows: bool) -> int {
    if absolute_path(label, windows) { 0 } else { 1 }
}

/// The order of workspace groups: absolute paths first, then the most
/// recently updated, then by lower-cased label, then by label.
pub open spec fn group_before(a: WorkspaceSummary, b: WorkspaceSummary, windows: bool) -> bool {
    group_order(a, b, lowercase(a.label@), lowercase(b.label@), windows)
}

/// The order of workspace groups, given their lower-cased labels.
pub open spec fn group_order(
    a: WorkspaceSummary,
    b: WorkspaceSummary,
    lower_a: Seq<char>,
    lower_b: Seq<char>,
    windows: bool,
) -> bool {
    let ka = group_kind(a.label@, windows);
    let kb = group_kind(b.label@, windows);
    if ka != kb {
        ka < kb
    } else if a.latest_updated_at != b.latest_updated_at {
        a.latest_updated_at > b.latest_updated_at
    } else if lower_a != lower_b {
        text_lt(lower_a, lower_b)
    } else {
        text_lt(a.label@, b.label@)
    }
}

/// The index of the group labelled `label`, if any.
pub open spec fn group_index(groups: Seq<WorkspaceSummary>, label: Seq<char>) -> Option<int>
    decreases groups.len(),
{
    if groups.len() == 0 {
        None
    } else if groups.last().label@ == label {
        match group_index(groups.drop_last(), label) {
            Some(i) => Some(i),
            None => Some(groups.len() - 1),
        }
    } else {
        group_index(groups.drop_last(), label)
    }
}

/// `g` with one more record counted.
pub open spec fn count_record(g: WorkspaceSummary, r: Conversation) -> WorkspaceSummary {
    WorkspaceSummary {
        label: g.label,
        conversations: (g.conversations + 1) as usize,
        archived: (g.archived + if r.archived { 1usize } else { 0usize }) as usize,
        latest_updated_at: if r.updated_at > g.latest_updated_at { r.updated_at } else { g.latest_updated_at },
    }
}

/// The workspace groups of records, in the order their labels first appear:
/// per label the number of records, of archived records, and the latest
/// update time (never below 0).
pub open spec fn group_records(records: Seq<Conversation>) -> Seq<WorkspaceSummary>
    decreases records.len(),
{
    if records.len() == 0 {
        Seq::<WorkspaceSummary>::empty()
    } else {
        let prev = group_records(records.drop_last());
        let r = records.last();
        match group_index(prev, r.workspace@) {
            Some(i) => prev.update(i, count_record(prev[i], r)),
            None => prev.push(count_record(
                WorkspaceSummary { label: r.workspace, conversations: 0, archived: 0, latest_updated_at: 0 },
                r,
            )),
        }
    }
}

/// `x` inserted into `s` before the first element it precedes.
pub open spec fn insert_group(s: Seq<WorkspaceSummary>, x: WorkspaceSummary, windows: bool) -> Seq<WorkspaceSummary>
    decreases s.len(),
{
    if s.len() == 0 {
        seq![x]
    } else if group_before(x, s[0], windows) {
        seq![x] + s
    } else {
        seq![s[0]] + insert_group(s.drop_first(), x, windows)
    }
}

/// Groups ordered by `group_before`, by insertion.
pub open spec fn order_groups(s: Seq<WorkspaceSummary>, windows: bool) -> Seq<WorkspaceSummary>
    decreases s.len(),
{
    if s.len() == 0 {
        s
    } else {
        insert_group(order_groups(s.drop_last(), windows), s.last(), windows)
    }
}

/// The workspace groups listed for `records`.
pub open spec fn workspace_groups_of(records: Seq<Conversation>, windows: bool) -> Seq<WorkspaceSummary> {
    order_groups(group_records(records), windows)
}

proof fn lemma_insert_group_at(s: Seq<WorkspaceSummary>, x: WorkspaceSummary, windows: bool, p: int)
    requires
        0 <= p <= s.len(),
        forall|k: int| 0 <= k < p ==> !group_before(x, #[trigger] s[k], windows),
        p < s.len() ==> group_before(x, s[p], windows),
    ensures
        insert_group(s, x, windows) == s.insert(p, x),
    decreases s.len(),
{
    if s.len() == 0 {
        assert(s.insert(p, x) =~= seq![x]);
    } else if p == 0 {
        assert(s.insert(p, x) =~= seq![x] + s);
    } else {
        assert(!group_before(x, s[0], windows));
        lemma_insert_group_at(s.drop_first(), x, windows, p - 1);
        assert(s.insert(p, x) =~= seq![s[0]] + s.drop_first().insert(p - 1, x));
    }
}

proof fn lemma_group_index_found(groups: Seq<WorkspaceSummary>, label: Seq<char>, j: int)
    requires
        0 <= j < groups.len(),
        groups[j].label@ == label,
        forall|k: int| 0 <= k < j ==> (#[trigger] groups[k]).label@ != label,
    ensures
        group_index(groups, label) == Some(j),
    decreases groups.len(),
{
    if j < groups.len() - 1 {
        lemma_group_index_found(groups.drop_last(), label, j);
    } else {
        lemma_group_index_absent(groups.drop_last(), label);
    }
}

proof fn lemma_group_index_absent(groups: Seq<WorkspaceSummary>, label: Seq<char>)
    requires
        forall|k: int| 0 <= k < groups.len() ==> (#[trigger] groups[k]).label@ != label,
    ensures
        group_index(groups, label) is None,
    decreases groups.len(),
{
    if groups.len() > 0 {
        lemma_group_index_absent(groups.drop_last(), label);
    }
}

impl App {
    /// The indices of the listed records (see `record_listed`), ascending.
    pub open spec fn listed(&self) -> Seq<usize> {
        listed_upto(self.records@, self.records@.len() as int, opt_text(self.active_workspace),
            self.archive_filter, self.query@)
    }

    /// The record under the cursor of the record list.
    pub open spec fn current(&self) -> Option<Conversation> {
        let l = self.listed();
        if self.record_cursor < l.len() && l[self.record_cursor as int] < self.records@.len() {
            Some(self.records@[l[self.record_cursor as int] as int])
        } else {
            None
        }
    }

    /// The workspace groups of the loaded records.
    pub open spec fn groups(&self) -> Seq<WorkspaceSummary> {
        workspace_groups_of(self.records@, self.config.host.windows_paths())
    }

    /// Indices of the records listed under the current workspace, archive
    /// filter and search query.
    pub fn filtered_indices(&self) -> (r: Vec<usize>)
        ensures
            r@ == self.listed(),
    {
        let q = to_lower(self.query.as_str());
        let qc = chars_of(q.as_str());
        let mut result: Vec<usize> = Vec::new();
        let mut i: usize = 0;
        while i < self.records.len()
            invariant
                i <= self.records@.len(),
                qc@ == lowercase(self.query@),
                q@ == lowercase(self.query@),
                result@ == listed_upto(self.records@, i as int, opt_text(self.active_workspace),
                    self.archive_filter, self.query@),
            decreases self.records@.len() - i,
        {
            let record = &self.records[i];
            let in_workspace = match &self.active_workspace {
                Some(w) => record.workspace == *w,
                None => true,
            };
            let archive = match self.archive_filter {
                ArchiveFilter::All => true,
                ArchiveFilter::Active => !record.archived,
                ArchiveFilter::Archived => record.archived,
            };
            let matches = qc.len() == 0 || {
                let title = to_lower(record.title.as_str());
                let id = to_lower(record.id.as_str());
                let workspace = to_lower(record.workspace.as_str());
                query_matches(q.as_str(), title.as_str(), id.as_str(), workspace.as_str())
            };
            if in_workspace && archive && matches {
                result.push(i);
            }
            i = i + 1;
        }
        result
    }

    /// The record under the cursor of the record list.
    pub fn current_record(&self) -> (r: Option<&Conversation>)
        ensures
            match r {
                Some(c) => self.current() == Some(*c),
                None => self.current() is None,
            },
    {
        let visible = self.filtered_indices();
        if self.record_cursor < visible.len() && visible[self.record_cursor] < self.records.len() {
            Some(&self.records[visible[self.record_cursor]])
        } else {
            None
        }
    }

    /// The records grouped by workspace and ordered by `group_before`.
    pub fn workspace_groups(&self) -> (r: Vec<WorkspaceSummary>)
        ensures
            r@ == self.groups(),
    {
        let windows = self.config.host.uses_windows_paths();
        let mut groups: Vec<WorkspaceSummary> = Vec::new();
        let mut i: usize = 0;
        while i < self.records.len()
            invariant
                i <= self.records@.len(),
                groups@ == group_records(self.records@.take(i as int)),
                forall|k: int| 0 <= k < groups@.len() ==> (#[trigger] groups@[k]).conversations <= i
                    && groups@[k].archived <= groups@[k].conversations,
            decreases self.records@.len() - i,
        {
            let record = &self.records[i];
            assert(self.records@.take(i + 1).drop_last() =~= self.records@.take(i as int));
            let mut j: usize = 0;
            while j < groups.len() && groups[j].label != record.workspace
                invariant
                    j <= groups@.len(),
                    forall|k: int| 0 <= k < j ==> (#[trigger] groups@[k]).label@ != record.workspace@,
                decreases groups@.len() - j,
            {
                j = j + 1;
            }
            let ghost prev = groups@;
            if j < groups.len() {
                proof {
                    lemma_group_index_found(prev, record.workspace@, j as int);
                }
                let g = &groups[j];
                let updated = WorkspaceSummary {
                    label: g.label.clone(),
                    conversations: g.conversations + 1,
                    archived: g.archived + if record.archived { 1 } else { 0 },
                    latest_updated_at: if record.updated_at > g.latest_updated_at {
                        record.updated_at
                    } else {
                        g.latest_updated_at
                    },
                };
                groups.set(j, updated);
            } else {
                proof {
                    lemma_group_index_absent(prev, record.workspace@);
                }
                groups.push(WorkspaceSummary {
                    label: record.workspace.clone(),
                    conversations: 1,
                    archived: if record.archived { 1 } else { 0 },
                    latest_updated_at: if record.updated_at > 0 { record.updated_at } else { 0 },
                });
            }
            assert(groups@ =~= group_records(self.records@.take(i + 1)));
            i = i + 1;
        }
        assert(self.records@.take(i as int) =~= self.records@);
        let mut ordered: Vec<WorkspaceSummary> = Vec::new();
        let mut n: usize = 0;
        while n < groups.len()
            invariant
                n <= groups@.len(),
                ordered@ == order_groups(groups@.take(n as int), windows),
                windows == self.config.host.windows_paths(),
            decreases groups@.len() - n,
        {
            let g = groups[n].clone_summary();
            let mut p: usize = 0;
            while p < ordered.len() && !summary_before(&g, &ordered[p], windows)
                invariant
                    p <= ordered@.len(),
                    forall|k: int| 0 <= k < p ==> !group_before(g, #[trigger] ordered@[k], windows),
                decreases ordered@.len() - p,
            {
                p = p + 1;
            }
            proof {
                lemma_insert_group_at(ordered@, g, windows, p as int);
                assert(groups@.take(n + 1).drop_last() =~= groups@.take(n as int));
            }
            ordered.insert(p, g);
            n = n + 1;
        }
        assert(groups@.take(n as int) =~= groups@);
        ordered
    }
}

impl WorkspaceSummary {
    /// A copy of the summary.
    pub fn clone_summary(&self) -> (r: WorkspaceSummary)
        ensures
            r == *self,
    {
        WorkspaceSummary {
            label: self.label.clone(),
            conversations: self.conversations,
            archived: self.archived,
            latest_updated_at: self.latest_updated_at,
        }
    }
}

/// Whether `a` is listed before `b` (see `group_before`).
fn summary_before(a: &WorkspaceSummary, b: &WorkspaceSummary, windows: bool) -> (r: bool)
    ensures
        r == group_before(*a, *b, windows),
{
    let la = to_lower(a.label.as_str());
    let lb = to_lower(b.label.as_str());
    groups_in_order(a, b, la.as_str(), lb.as_str(), windows)
}

/// Whether group `a` is listed before group `b`, given their lower-cased
/// labels (see `group_order`).
pub fn groups_in_order(
    a: &WorkspaceSummary,
    b: &WorkspaceSummary,
    lower_a: &str,
    lower_b: &str,
    windows: bool,
) -> (r: bool)
    ensures
        r == group_order(*a, *b, lower_a@, lower_b@, windows),
{
    let ka: u8 = if is_absolute_path(a.label.as_str(), windows) { 0 } else { 1 };
    let kb: u8 = if is_absolute_path(b.label.as_str(), windows) { 0 } else { 1 };
    if ka != kb {
        return ka < kb;
    }
    if a.latest_updated_at != b.latest_updated_at {
        return a.latest_updated_at > b.latest_updated_at;
    }
    let la = String::from_str(lower_a);
    let lb = String::from_str(lower_b);
    if la != lb {
        return chars_lt(chars_of(lower_a).as_slice(), chars_of(lower_b).as_slice());
    }
    chars_lt(chars_of(a.label.as_str()).as_slice(), chars_of(b.label.as_str()).as_slice())
}

/// Whether a record matches a search: `query` and the title, id and
/// workspace are lower-cased; an empty query matches every record, any other
/// must occur in one of the three.
pub fn query_matches(query: &str, title: &str, id: &str, workspace: &str) -> (r: bool)
    ensures
        r == (query@.len() == 0 || contains_text(title@, query@) || contains_text(id@, query@)
            || contains_text(workspace@, query@)),
{
    let q = chars_of(query);
    q.len() == 0 || chars_contain(chars_of(title).as_slice(), q.as_slice()) || chars_contain(
        chars_of(id).as_slice(),
        q.as_slice(),
    ) || chars_contain(chars_of(workspace).as_slice(), q.as_slice())
}

/// The interface state as plain values.
pub struct AppState {
    pub config: Config,
    pub screen: Screen,
    pub previous_screen: Screen,
    pub home_selection: usize,
    pub workspace_cursor: usize,
    pub active_workspace: Option<Seq<char>>,
    pub record_cursor: usize,
    pub detail_scroll: u16,
    pub probe: Option<SchemaProbe>,
    pub loading: bool,
    pub records: Seq<Conversation>,
    pub selected: Seq<Seq<char>>,
    pub query: Seq<char>,
    pub searching: bool,
    pub archive_filter: ArchiveFilter,
    pub preflight: Option<PreflightReport>,
    pub pending_ids: Seq<Seq<char>>,
    pub plan: Option<PlanView>,
    pub confirm_execute: bool,
    pub progress: Option<(Seq<char>, usize, usize)>,
    pub receipt: Option<Receipt>,
    pub error: Option<(Seq<char>, Seq<char>, Seq<char>)>,
    pub toast: Option<Seq<char>>,
    pub should_quit: bool,
}

/// An effect as plain values.
pub enum EffectView {
    ProbeAndLoad,
    RunPreflight(Seq<Seq<char>>),
    BuildPlan(Seq<Seq<char>>),
    Execute(PlanView),
}

pub open spec fn effect_view(e: Option<Effect>) -> Option<EffectView> {
    match e {
        None => None,
        Some(Effect::ProbeAndLoad) => Some(EffectView::ProbeAndLoad),
        Some(Effect::RunPreflight(ids)) => Some(EffectView::RunPreflight(ids.deep_view())),
        Some(Effect::BuildPlan(ids)) => Some(EffectView::BuildPlan(ids.deep_view())),
        Some(Effect::Execute(p)) => Some(EffectView::Execute(p@)),
    }
}

pub open spec fn opt_plan(p: Option<DeletePlan>) -> Option<PlanView> {
    match p {
        Some(x) => Some(x@),
        None => None,
    }
}

pub open spec fn opt_progress(p: Option<ProgressSnapshot>) -> Option<(Seq<char>, usize, usize)> {
    match p {
        Some(x) => Some((x.stage@, x.completed, x.total)),
        None => None,
    }
}

pub open spec fn opt_error(e: Option<(String, String, String)>) -> Option<(Seq<char>, Seq<char>, Seq<char>)> {
    match e {
        Some((a, b, c)) => Some((a@, b@, c@)),
        None => None,
    }
}

impl View for App {
    type V = AppState;

    open spec fn view(&self) -> AppState {
        AppState {
            config: self.config,
            screen: self.screen,
            previous_screen: self.previous_screen,
            home_selection: self.home_selection,
            workspace_cursor: self.workspace_cursor,
            active_workspace: opt_text(self.active_workspace),
            record_cursor: self.record_cursor,
            detail_scroll: self.detail_scroll,
            probe: self.probe,
            loading: self.loading,
            records: self.records@,
            selected: self.selected.deep_view(),
            query: self.query@,
            searching: self.searching,
            archive_filter: self.archive_filter,
            preflight: self.preflight,
            pending_ids: self.pending_ids.deep_view(),
            plan: opt_plan(self.plan),
            confirm_execute: self.confirm_execute,
            progress: opt_progress(self.progress),
            receipt: self.receipt,
            error: opt_error(self.error),
            toast: opt_text(self.toast),
            should_quit: self.should_quit,
        }
    }
}

/// The invariant of the interface state: the selection is kept sorted.
pub open spec fn app_wf(s: AppState) -> bool {
    strictly_sorted(s.selected)
}

/// The listed record indices of a state.
pub open spec fn listed_of(s: AppState) -> Seq<usize> {
    listed_upto(s.records, s.records.len() as int, s.active_workspace, s.archive_filter, s.query)
}

/// The record under the cursor of a state.
pub open spec fn current_of(s: AppState) -> Option<Conversation> {
    let l = listed_of(s);
    if s.record_cursor < l.len() && l[s.record_cursor as int] < s.records.len() {
        Some(s.records[l[s.record_cursor as int] as int])
    } else {
        None
    }
}

/// The workspace groups of a state.
pub open spec fn groups_of(s: AppState) -> Seq<WorkspaceSummary> {
    workspace_groups_of(s.records, s.config.host.windows_paths())
}

pub open spec fn sat_sub(a: usize, b: usize) -> usize {
    if a >= b { (a - b) as usize } else { 0 }
}

pub open spec fn min_usize(a: int, b: usize) -> usize {
    if a <= b { a as usize } else { b }
}

pub open spec fn is_char(k: KeyEvent, c: char) -> bool {
    k.code == KeyCode::Char(c)
}

/// The selection with `id` added when absent and removed when present.
pub open spec fn toggle_id(sel: Seq<Seq<char>>, id: Seq<char>) -> Seq<Seq<char>> {
    let p = count_before(sel, id);
    if sel.contains(id) { sel.remove(p) } else { sel.insert(p, id) }
}

/// The ids of `sel` that some record still carries.
pub open spec fn keep_present(sel: Seq<Seq<char>>, records: Seq<Conversation>) -> Seq<Seq<char>>
    decreases sel.len(),
{
    if sel.len() == 0 {
        sel
    } else if exists|i: int| 0 <= i < records.len() && (#[trigger] records[i]).id@ == sel.last() {
        keep_present(sel.drop_last(), records).push(sel.last())
    } else {
        keep_present(sel.drop_last(), records)
    }
}

pub open spec fn probe_supported(p: Option<SchemaProbe>) -> bool {
    p matches Some(x) && x.state == SchemaState::Supported
}

pub open spec fn running_toast() -> Seq<char> {
    "正在创建临时回滚快照或执行数据库事务，不能在中途强制退出。"@
}

pub open spec fn nothing_to_clean_toast() -> Seq<char> {
    "没有可清理的记录。"@
}

pub open spec fn recheck_stage() -> Seq<char> {
    "执行前重新验证 schema、占用和计划…"@
}

/// A probe is requested: loading starts and the old probe is dropped.
pub open spec fn start_probe_of(s: AppState) -> (AppState, Option<EffectView>) {
    (AppState { loading: true, probe: None, ..s }, Some(EffectView::ProbeAndLoad))
}

/// A cleanup of the selected records (or else of the record under the
/// cursor) is requested: it first goes through the preflight checks.
pub open spec fn start_delete_of(s: AppState) -> (AppState, Option<EffectView>) {
    let ids = if s.selected.len() > 0 {
        s.selected
    } else {
        match current_of(s) {
            Some(c) => seq![c.id@],
            None => Seq::<Seq<char>>::empty(),
        }
    };
    if ids.len() == 0 {
        (AppState { toast: Some(nothing_to_clean_toast()), ..s }, None)
    } else {
        (AppState { pending_ids: ids, preflight: None, plan: None, screen: Screen::Preflight, ..s },
            Some(EffectView::RunPreflight(ids)))
    }
}

pub open spec fn after_home(s: AppState, k: KeyEvent) -> (AppState, Option<EffectView>) {
    if is_char(k, 'q') {
        (AppState { should_quit: true, ..s }, None)
    } else if k.code == KeyCode::Up || is_char(k, 'k') {
        (AppState { home_selection: sat_sub(s.home_selection, 1), ..s }, None)
    } else if k.code == KeyCode::Down || is_char(k, 'j') {
        (AppState { home_selection: min_usize(s.home_selection + 1, 2), ..s }, None)
    } else if is_char(k, 'r') {
        start_probe_of(s)
    } else if k.code == KeyCode::Enter {
        if s.home_selection == 0 && probe_supported(s.probe) {
            (AppState { active_workspace: None, screen: Screen::Workspaces, ..s }, None)
        } else if s.home_selection == 0 || s.home_selection == 1 {
            (AppState { screen: Screen::SourceCheck, ..s }, None)
        } else {
            (AppState { previous_screen: Screen::Home, screen: Screen::Help, ..s }, None)
        }
    } else {
        (s, None)
    }
}

pub open spec fn after_source(s: AppState, k: KeyEvent) -> (AppState, Option<EffectView>) {
    if k.code == KeyCode::Esc {
        (AppState { screen: Screen::Home, ..s }, None)
    } else if is_char(k, 'r') {
        start_probe_of(s)
    } else if k.code == KeyCode::Enter && probe_supported(s.probe) {
        (AppState { active_workspace: None, screen: Screen::Workspaces, ..s }, None)
    } else {
        (s, None)
    }
}

pub open spec fn after_workspaces(s: AppState, k: KeyEvent) -> (AppState, Option<EffectView>) {
    let g = groups_of(s);
    let last = sat_sub(g.len() as usize, 1);
    let c = s.workspace_cursor;
    if k.code == KeyCode::Esc {
        (AppState { screen: Screen::Home, ..s }, None)
    } else if k.code == KeyCode::Up || is_char(k, 'k') {
        (AppState { workspace_cursor: sat_sub(c, 1), ..s }, None)
    } else if k.code == KeyCode::Down || is_char(k, 'j') {
        (AppState { workspace_cursor: min_usize(c + 1, last), ..s }, None)
    } else if k.code == KeyCode::PageUp {
        (AppState { workspace_cursor: sat_sub(c, 10), ..s }, None)
    } else if k.code == KeyCode::PageDown {
        (AppState { workspace_cursor: min_usize(c + 10, last), ..s }, None)
    } else if k.code == KeyCode::Home {
        (AppState { workspace_cursor: 0, ..s }, None)
    } else if k.code == KeyCode::End {
        (AppState { workspace_cursor: last, ..s }, None)
    } else if k.code == KeyCode::Enter {
        if c < g.len() {
            (AppState {
                active_workspace: Some(g[c as int].label@),
                record_cursor: 0,
                query: Seq::<char>::empty(),
                archive_filter: ArchiveFilter::All,
                selected: Seq::<Seq<char>>::empty(),
                screen: Screen::Records,
                ..s
            }, None)
        } else {
            (s, None)
        }
    } else if is_char(k, 'r') {
        start_probe_of(s)
    } else {
        (s, None)
    }
}

pub open spec fn next_filter(f: ArchiveFilter) -> ArchiveFilter {
    match f {
        ArchiveFilter::All => ArchiveFilter::Active,
        ArchiveFilter::Active => ArchiveFilter::Archived,
        ArchiveFilter::Archived => ArchiveFilter::All,
    }
}

pub open spec fn after_records(s: AppState, k: KeyEvent) -> (AppState, Option<EffectView>) {
    let last = sat_sub(listed_of(s).len() as usize, 1);
    let c = s.record_cursor;
    if k.code == KeyCode::Esc {
        (AppState { selected: Seq::<Seq<char>>::empty(), screen: Screen::Workspaces, ..s }, None)
    } else if k.code == KeyCode::Up || is_char(k, 'k') {
        (AppState { record_cursor: sat_sub(c, 1), ..s }, None)
    } else if k.code == KeyCode::Down || is_char(k, 'j') {
        (AppState { record_cursor: min_usize(c + 1, last), ..s }, None)
    } else if k.code == KeyCode::PageUp {
        (AppState { record_cursor: sat_sub(c, 10), ..s }, None)
    } else if k.code == KeyCode::PageDown {
        (AppState { record_cursor: min_usize(c + 10, last), ..s }, None)
    } else if k.code == KeyCode::Home {
        (AppState { record_cursor: 0, ..s }, None)
    } else if k.code == KeyCode::End {
        (AppState { record_cursor: last, ..s }, None)
    } else if is_char(k, '/') {
        (AppState { searching: true, ..s }, None)
    } else if is_char(k, 'f') {
        (AppState { archive_filter: next_filter(s.archive_filter), record_cursor: 0, ..s }, None)
    } else if is_char(k, ' ') {
        match current_of(s) {
            Some(r) => (AppState { selected: toggle_id(s.selected, r.id@), ..s }, None),
            None => (s, None),
        }
    } else if k.code == KeyCode::Enter && current_of(s) is Some {
        (AppState { detail_scroll: 0, screen: Screen::Detail, ..s }, None)
    } else if is_char(k, 'x') || k.code == KeyCode::Delete {
        start_delete_of(s)
    } else if is_char(k, 'r') {
        start_probe_of(s)
    } else {
        (s, None)
    }
}

pub open spec fn sat_sub_u16(a: u16, b: u16) -> u16 {
    if a >= b { (a - b) as u16 } else { 0 }
}

pub open spec fn sat_add_u16(a: u16, b: u16) -> u16 {
    if a + b <= u16::MAX { (a + b) as u16 } else { u16::MAX }
}

pub open spec fn after_detail(s: AppState, k: KeyEvent) -> (AppState, Option<EffectView>) {
    let d = s.detail_scroll;
    if k.code == KeyCode::Esc {
        (AppState { screen: Screen::Records, ..s }, None)
    } else if k.code == KeyCode::Up || is_char(k, 'k') {
        (AppState { detail_scroll: sat_sub_u16(d, 1), ..s }, None)
    } else if k.code == KeyCode::Down || is_char(k, 'j') {
        (AppState { detail_scroll: sat_add_u16(d, 1), ..s }, None)
    } else if k.code == KeyCode::PageUp {
        (AppState { detail_scroll: sat_sub_u16(d, 10), ..s }, None)
    } else if k.code == KeyCode::PageDown {
        (AppState { detail_scroll: sat_add_u16(d, 10), ..s }, None)
    } else if is_char(k, 'x') || k.code == KeyCode::Delete {
        start_delete_of(s)
    } else {
        (s, None)
    }
}

pub open spec fn after_search(s: AppState, k: KeyEvent) -> (AppState, Option<EffectView>) {
    if k.code == KeyCode::Esc || k.code == KeyCode::Enter {
        (AppState { searching: false, ..s }, None)
    } else if k.code == KeyCode::Backspace {
        (AppState {
            query: if s.query.len() > 0 { s.query.drop_last() } else { s.query },
            record_cursor: 0,
            ..s
        }, None)
    } else if (k.code is Char) && !k.control && !k.alt {
        (AppState { query: s.query.push(k.code->Char_0), record_cursor: 0, ..s }, None)
    } else {
        (s, None)
    }
}

pub open spec fn after_preflight(s: AppState, k: KeyEvent) -> (AppState, Option<EffectView>) {
    if k.code == KeyCode::Esc {
        (AppState { screen: Screen::Records, ..s }, None)
    } else if is_char(k, 'r') {
        (AppState { preflight: None, ..s }, Some(EffectView::RunPreflight(s.pending_ids)))
    } else if k.code == KeyCode::Enter && (s.preflight matches Some(p) && no_failed_check(p.checks@)) {
        (AppState { screen: Screen::Planning, ..s }, Some(EffectView::BuildPlan(s.pending_ids)))
    } else {
        (s, None)
    }
}

pub open spec fn after_preview(s: AppState, k: KeyEvent) -> (AppState, Option<EffectView>) {
    if k.code == KeyCode::Esc {
        (AppState { screen: Screen::Records, ..s }, None)
    } else if k.code == KeyCode::Enter {
        (AppState { confirm_execute: false, screen: Screen::Confirm, ..s }, None)
    } else {
        (s, None)
    }
}

pub open spec fn after_confirm(s: AppState, k: KeyEvent) -> (AppState, Option<EffectView>) {
    if k.code == KeyCode::Left || is_char(k, 'h') {
        (AppState { confirm_execute: false, ..s }, None)
    } else if k.code == KeyCode::Right || is_char(k, 'l') {
        (AppState { confirm_execute: true, ..s }, None)
    } else if k.code == KeyCode::Esc {
        (AppState { screen: Screen::Preview, ..s }, None)
    } else if k.code == KeyCode::Enter && s.confirm_execute {
        match s.plan {
            Some(p) => (AppState { progress: Some((recheck_stage(), 0usize, 3usize)), screen: Screen::Running, ..s },
                Some(EffectView::Execute(p))),
            None => (s, None),
        }
    } else if k.code == KeyCode::Enter {
        (AppState { screen: Screen::Preview, ..s }, None)
    } else {
        (s, None)
    }
}

pub open spec fn after_receipt(s: AppState, k: KeyEvent) -> (AppState, Option<EffectView>) {
    if k.code == KeyCode::Enter || k.code == KeyCode::Esc {
        (AppState { screen: Screen::Home, ..s }, None)
    } else if is_char(k, 'q') {
        (AppState { should_quit: true, ..s }, None)
    } else {
        (s, None)
    }
}

pub open spec fn after_error(s: AppState, k: KeyEvent) -> (AppState, Option<EffectView>) {
    if k.code == KeyCode::Esc || k.code == KeyCode::Enter {
        (AppState { screen: Screen::Home, ..s }, None)
    } else if is_char(k, 'r') {
        start_probe_of(s)
    } else {
        (s, None)
    }
}

/// The state and effect after a key press (the toast of the previous key is
/// always cleared first).
pub open spec fn after_key(s0: AppState, k: KeyEvent) -> (AppState, Option<EffectView>) {
    let s = AppState { toast: None, ..s0 };
    if s.searching {
        after_search(s, k)
    } else if is_char(k, '?') && s.screen != Screen::Help {
        (AppState { previous_screen: s.screen, screen: Screen::Help, ..s }, None)
    } else if is_char(k, 'c') && k.control {
        if s.screen == Screen::Running {
            (AppState { toast: Some(running_toast()), ..s }, None)
        } else {
            (AppState { should_quit: true, ..s }, None)
        }
    } else {
        match s.screen {
            Screen::Home => after_home(s, k),
            Screen::SourceCheck => after_source(s, k),
            Screen::Workspaces => after_workspaces(s, k),
            Screen::Records => after_records(s, k),
            Screen::Detail => after_detail(s, k),
            Screen::Preflight => after_preflight(s, k),
            Screen::Planning | Screen::Running => (s, None),
            Screen::Preview => after_preview(s, k),
            Screen::Confirm => after_confirm(s, k),
            Screen::Receipt => after_receipt(s, k),
            Screen::Error => after_error(s, k),
            Screen::Help => if k.code == KeyCode::Esc || is_char(k, '?') {
                (AppState { screen: s.previous_screen, ..s }, None)
            } else {
                (s, None)
            },
        }
    }
}

/// The key presses on which moving a cursor down would overflow its counter.
pub open spec fn key_overflows(s: AppState, k: KeyEvent) -> bool {
    let down = k.code == KeyCode::Down || is_char(k, 'j');
    &&& !s.searching
    &&& !(is_char(k, '?') && s.screen != Screen::Help)
    &&& !(is_char(k, 'c') && k.control)
    &&& {
        ||| (s.screen == Screen::Home && down && s.home_selection == usize::MAX)
        ||| (s.screen == Screen::Workspaces && ((down && s.workspace_cursor == usize::MAX)
            || (k.code == KeyCode::PageDown && s.workspace_cursor > usize::MAX - 10)))
        ||| (s.screen == Screen::Records && ((down && s.record_cursor == usize::MAX)
            || (k.code == KeyCode::PageDown && s.record_cursor > usize::MAX - 10)))
    }
}


proof fn lemma_keep_present(sel: Seq<Seq<char>>, records: Seq<Conversation>)
    requires
        strictly_sorted(sel),
    ensures
        strictly_sorted(keep_present(sel, records)),
        forall|i: int| 0 <= i < keep_present(sel, records).len() ==> sel.contains(#[trigger] keep_present(sel, records)[i]),
    decreases sel.len(),
{
    if sel.len() > 0 {
        let prev = sel.drop_last();
        assert(strictly_sorted(prev));
        lemma_keep_present(prev, records);
        let k = keep_present(prev, records);
        assert forall|i: int| 0 <= i < k.len() implies text_lt(#[trigger] k[i], sel.last()) by {
            assert(prev.contains(k[i]));
            let j = choose|j: int| 0 <= j < prev.len() && prev[j] == k[i];
            assert(sel[j] == k[i]);
        }
        assert forall|i: int| 0 <= i < k.len() implies sel.contains(#[trigger] k[i]) by {
            assert(prev.contains(k[i]));
            let j = choose|j: int| 0 <= j < prev.len() && prev[j] == k[i];
            assert(sel[j] == k[i]);
        }
        assert(sel.contains(sel.last())) by {
            assert(sel[sel.len() - 1] == sel.last());
        }
    }
}

fn push_char(s: &String, c: char) -> (r: String)
    ensures
        r@ == s@.push(c),
{
    let mut cs = chars_of(s.as_str());
    cs.push(c);
    string_from_chars(cs.as_slice())
}

fn drop_last_char(s: &String) -> (r: String)
    ensures
        r@ == if s@.len() > 0 { s@.drop_last() } else { s@ },
{
    let mut cs = chars_of(s.as_str());
    if cs.len() > 0 {
        cs.pop();
    }
    string_from_chars(cs.as_slice())
}

fn min_index(a: usize, b: usize) -> (r: usize)
    ensures
        r == min_usize(a as int, b),
{
    if a <= b { a } else { b }
}

impl App {
    /// A fresh interface on the home page, loading the stores.
    pub fn new(config: Config) -> (r: App)
        ensures
            r@ == (AppState {
                config,
                screen: Screen::Home,
                previous_screen: Screen::Home,
                home_selection: 0,
                workspace_cursor: 0,
                active_workspace: None,
                record_cursor: 0,
                detail_scroll: 0,
                probe: None,
                loading: true,
                records: Seq::<Conversation>::empty(),
                selected: Seq::<Seq<char>>::empty(),
                query: Seq::<char>::empty(),
                searching: false,
                archive_filter: ArchiveFilter::All,
                preflight: None,
                pending_ids: Seq::<Seq<char>>::empty(),
                plan: None,
                confirm_execute: false,
                progress: None,
                receipt: None,
                error: None,
                toast: None,
                should_quit: false,
            }),
            app_wf(r@),
    {
        let r = App {
            config,
            screen: Screen::Home,
            previous_screen: Screen::Home,
            home_selection: 0,
            workspace_cursor: 0,
            active_workspace: None,
            record_cursor: 0,
            detail_scroll: 0,
            probe: None,
            loading: true,
            records: Vec::new(),
            selected: Vec::new(),
            query: String::new(),
            searching: false,
            archive_filter: ArchiveFilter::All,
            preflight: None,
            pending_ids: Vec::new(),
            plan: None,
            confirm_execute: false,
            progress: None,
            receipt: None,
            error: None,
            toast: None,
            should_quit: false,
        };
        assert(r.selected.deep_view() =~= Seq::<Seq<char>>::empty());
        assert(r.pending_ids.deep_view() =~= Seq::<Seq<char>>::empty());
        r
    }

    fn start_probe(&mut self) -> (r: Effect)
        ensures
            final(self)@ == start_probe_of(old(self)@).0,
            effect_view(Some(r)) == start_probe_of(old(self)@).1,
    {
        self.loading = true;
        self.probe = None;
        Effect::ProbeAndLoad
    }

    fn start_running(&mut self, stage: &str, completed: usize, total: usize)
        ensures
            final(self)@ == (AppState {
                progress: Some((stage@, completed, total)),
                screen: Screen::Running,
                ..old(self)@
            }),
    {
        self.progress = Some(ProgressSnapshot { stage: String::from_str(stage), completed, total });
        self.screen = Screen::Running;
    }

    fn start_delete_flow(&mut self) -> (r: Option<Effect>)
        ensures
            final(self)@ == start_delete_of(old(self)@).0,
            effect_view(r) == start_delete_of(old(self)@).1,
    {
        let mut ids: Vec<String> = clone_strings(&self.selected);
        if ids.len() == 0 {
            match self.current_record() {
                Some(record) => {
                    ids.push(record.id.clone());
                },
                None => {},
            }
        }
        proof {
            if self.selected@.len() == 0 {
                if self.current() is Some {
                    assert(ids.deep_view() =~= seq![self.current()->0.id@]);
                } else {
                    assert(ids.deep_view() =~= Seq::<Seq<char>>::empty());
                }
            }
            assert(listed_of(self@) == self.listed());
            assert(current_of(self@) == self.current());
        }
        if ids.len() == 0 {
            self.toast = Some(String::from_str("没有可清理的记录。"));
            return None;
        }
        self.pending_ids = clone_strings(&ids);
        self.preflight = None;
        self.plan = None;
        self.screen = Screen::Preflight;
        Some(Effect::RunPreflight(ids))
    }

    #[verifier::spinoff_prover]
    fn toggle_selected(&mut self, id: String)
        requires
            app_wf(old(self)@),
        ensures
            final(self)@ == (AppState { selected: toggle_id(old(self)@.selected, id@), ..old(self)@ }),
            app_wf(final(self)@),
    {
        let ghost sel = self.selected.deep_view();
        let c = chars_of(id.as_str());
        let mut p: usize = 0;
        while p < self.selected.len() && chars_lt(chars_of(self.selected[p].as_str()).as_slice(), c.as_slice())
            invariant
                p <= self.selected@.len(),
                sel == self.selected.deep_view(),
                c@ == id@,
                forall|k: int| 0 <= k < p ==> text_lt(#[trigger] sel[k], id@),
            decreases self.selected@.len() - p,
        {
            p = p + 1;
        }
        proof {
            assert forall|k: int| p <= k < sel.len() implies !text_lt(#[trigger] sel[k], id@) by {
                if k > p && text_lt(sel[k], id@) {
                    assert(text_lt(sel[p as int], sel[k]));
                    lemma_text_lt_transitive(sel[p as int], sel[k], id@);
                }
            }
            lemma_count_before(sel, id@, p as int);
            assert(sel.contains(id@) <==> (p < sel.len() && sel[p as int] == id@)) by {
                if sel.contains(id@) {
                    let q = choose|q: int| 0 <= q < sel.len() && sel[q] == id@;
                    lemma_text_lt_irreflexive(id@);
                    if q > p {
                        assert(text_lt(sel[p as int], sel[q]));
                    }
                }
            }
        }
        if p < self.selected.len() && self.selected[p] == id {
            self.selected.remove(p);
            assert(self.selected.deep_view() =~= sel.remove(p as int));
        } else {
            self.selected.insert(p, id);
            proof {
                lemma_insert_sorted(sel, id@, p as int);
            }
            assert(self.selected.deep_view() =~= sel.insert(p as int, id@));
        }
    }

    fn key_home(&mut self, key: KeyEvent) -> (r: Option<Effect>)
        requires
            (key.code == KeyCode::Down || is_char(key, 'j')) ==> old(self).home_selection < usize::MAX,
        ensures
            final(self)@ == after_home(old(self)@, key).0,
            effect_view(r) == after_home(old(self)@, key).1,
    {
        if key.code == KeyCode::Char('q') {
            self.should_quit = true;
        } else if key.code == KeyCode::Up || key.code == KeyCode::Char('k') {
            self.home_selection = if self.home_selection >= 1 { self.home_selection - 1 } else { 0 };
        } else if key.code == KeyCode::Down || key.code == KeyCode::Char('j') {
            self.home_selection = min_index(self.home_selection + 1, 2);
        } else if key.code == KeyCode::Char('r') {
            return Some(self.start_probe());
        } else if key.code == KeyCode::Enter {
            let supported = match &self.probe {
                Some(p) => p.supported(),
                None => false,
            };
            if self.home_selection == 0 && supported {
                self.active_workspace = None;
                self.screen = Screen::Workspaces;
            } else if self.home_selection == 0 || self.home_selection == 1 {
                self.screen = Screen::SourceCheck;
            } else {
                self.previous_screen = Screen::Home;
                self.screen = Screen::Help;
            }
        }
        None
    }
}


impl App {
    fn probe_is_supported(&self) -> (r: bool)
        ensures
            r == probe_supported(self.probe),
    {
        match &self.probe {
            Some(p) => p.supported(),
            None => false,
        }
    }

    fn key_source(&mut self, key: KeyEvent) -> (r: Option<Effect>)
        ensures
            final(self)@ == after_source(old(self)@, key).0,
            effect_view(r) == after_source(old(self)@, key).1,
    {
        if key.code == KeyCode::Esc {
            self.screen = Screen::Home;
        } else if key.code == KeyCode::Char('r') {
            return Some(self.start_probe());
        } else if key.code == KeyCode::Enter && self.probe_is_supported() {
            self.active_workspace = None;
            self.screen = Screen::Workspaces;
        }
        None
    }

    fn key_workspaces(&mut self, key: KeyEvent) -> (r: Option<Effect>)
        requires
            (key.code == KeyCode::Down || is_char(key, 'j')) ==> old(self).workspace_cursor < usize::MAX,
            key.code == KeyCode::PageDown ==> old(self).workspace_cursor <= usize::MAX - 10,
        ensures
            final(self)@ == after_workspaces(old(self)@, key).0,
            effect_view(r) == after_workspaces(old(self)@, key).1,
    {
        let groups = self.workspace_groups();
        assert(groups@ == groups_of(self@));
        let last = if groups.len() >= 1 { groups.len() - 1 } else { 0 };
        let c = self.workspace_cursor;
        if key.code == KeyCode::Esc {
            self.screen = Screen::Home;
        } else if key.code == KeyCode::Up || key.code == KeyCode::Char('k') {
            self.workspace_cursor = if c >= 1 { c - 1 } else { 0 };
        } else if key.code == KeyCode::Down || key.code == KeyCode::Char('j') {
            self.workspace_cursor = min_index(c + 1, last);
        } else if key.code == KeyCode::PageUp {
            self.workspace_cursor = if c >= 10 { c - 10 } else { 0 };
        } else if key.code == KeyCode::PageDown {
            self.workspace_cursor = min_index(c + 10, last);
        } else if key.code == KeyCode::Home {
            self.workspace_cursor = 0;
        } else if key.code == KeyCode::End {
            self.workspace_cursor = last;
        } else if key.code == KeyCode::Enter {
            if c < groups.len() {
                self.active_workspace = Some(groups[c].label.clone());
                self.record_cursor = 0;
                self.query = String::new();
                self.archive_filter = ArchiveFilter::All;
                self.selected = Vec::new();
                self.screen = Screen::Records;
                assert(self.selected.deep_view() =~= Seq::<Seq<char>>::empty());
            }
        } else if key.code == KeyCode::Char('r') {
            return Some(self.start_probe());
        }
        None
    }

    fn key_records(&mut self, key: KeyEvent) -> (r: Option<Effect>)
        requires
            app_wf(old(self)@),
            (key.code == KeyCode::Down || is_char(key, 'j')) ==> old(self).record_cursor < usize::MAX,
            key.code == KeyCode::PageDown ==> old(self).record_cursor <= usize::MAX - 10,
        ensures
            final(self)@ == after_records(old(self)@, key).0,
            effect_view(r) == after_records(old(self)@, key).1,
            app_wf(final(self)@),
            is_char(key, ' ') ==> r is None && final(self)@.selected == match current_of(old(self)@) {
                Some(c) => toggle_id(old(self)@.selected, c.id@),
                None => old(self)@.selected,
            },
    {
        let visible = self.filtered_indices();
        assert(visible@ == listed_of(self@));
        assert(current_of(self@) == self.current());
        let last = if visible.len() >= 1 { visible.len() - 1 } else { 0 };
        let c = self.record_cursor;
        if key.code == KeyCode::Esc {
            self.selected = Vec::new();
            self.screen = Screen::Workspaces;
            assert(self.selected.deep_view() =~= Seq::<Seq<char>>::empty());
        } else if key.code == KeyCode::Up || key.code == KeyCode::Char('k') {
            self.record_cursor = if c >= 1 { c - 1 } else { 0 };
        } else if key.code == KeyCode::Down || key.code == KeyCode::Char('j') {
            self.record_cursor = min_index(c + 1, last);
        } else if key.code == KeyCode::PageUp {
            self.record_cursor = if c >= 10 { c - 10 } else { 0 };
        } else if key.code == KeyCode::PageDown {
            self.record_cursor = min_index(c + 10, last);
        } else if key.code == KeyCode::Home {
            self.record_cursor = 0;
        } else if key.code == KeyCode::End {
            self.record_cursor = last;
        } else if key.code == KeyCode::Char('/') {
            self.searching = true;
        } else if key.code == KeyCode::Char('f') {
            self.archive_filter = self.archive_filter.next();
            self.record_cursor = 0;
        } else if key.code == KeyCode::Char(' ') {
            let id = match self.current_record() {
                Some(record) => Some(record.id.clone()),
                None => None,
            };
            match id {
                Some(id) => self.toggle_selected(id),
                None => {},
            }
        } else if key.code == KeyCode::Enter && self.current_record().is_some() {
            self.detail_scroll = 0;
            self.screen = Screen::Detail;
        } else if key.code == KeyCode::Char('x') || key.code == KeyCode::Delete {
            return self.start_delete_flow();
        } else if key.code == KeyCode::Char('r') {
            return Some(self.start_probe());
        }
        None
    }

    fn key_detail(&mut self, key: KeyEvent) -> (r: Option<Effect>)
        ensures
            final(self)@ == after_detail(old(self)@, key).0,
            effect_view(r) == after_detail(old(self)@, key).1,
    {
        let d = self.detail_scroll;
        if key.code == KeyCode::Esc {
            self.screen = Screen::Records;
        } else if key.code == KeyCode::Up || key.code == KeyCode::Char('k') {
            self.detail_scroll = if d >= 1 { d - 1 } else { 0 };
        } else if key.code == KeyCode::Down || key.code == KeyCode::Char('j') {
            self.detail_scroll = if d <= u16::MAX - 1 { d + 1 } else { u16::MAX };
        } else if key.code == KeyCode::PageUp {
            self.detail_scroll = if d >= 10 { d - 10 } else { 0 };
        } else if key.code == KeyCode::PageDown {
            self.detail_scroll = if d <= u16::MAX - 10 { d + 10 } else { u16::MAX };
        } else if key.code == KeyCode::Char('x') || key.code == KeyCode::Delete {
            return self.start_delete_flow();
        }
        None
    }

    fn key_search(&mut self, key: KeyEvent) -> (r: Option<Effect>)
        ensures
            final(self)@ == after_search(old(self)@, key).0,
            effect_view(r) == after_search(old(self)@, key).1,
    {
        if key.code == KeyCode::Esc || key.code == KeyCode::Enter {
            self.searching = false;
        } else if key.code == KeyCode::Backspace {
            self.query = drop_last_char(&self.query);
            self.record_cursor = 0;
        } else {
            match key.code {
                KeyCode::Char(c) => {
                    if !key.control && !key.alt {
                        self.query = push_char(&self.query, c);
                        self.record_cursor = 0;
                    }
                },
                _ => {},
            }
        }
        None
    }

    fn key_preflight(&mut self, key: KeyEvent) -> (r: Option<Effect>)
        ensures
            final(self)@ == after_preflight(old(self)@, key).0,
            effect_view(r) == after_preflight(old(self)@, key).1,
    {
        if key.code == KeyCode::Esc {
            self.screen = Screen::Records;
            return None;
        } else if key.code == KeyCode::Char('r') {
            self.preflight = None;
            return Some(Effect::RunPreflight(clone_strings(&self.pending_ids)));
        } else if key.code == KeyCode::Enter {
            let ok = match &self.preflight {
                Some(p) => p.can_continue(),
                None => false,
            };
            if ok {
                self.screen = Screen::Planning;
                return Some(Effect::BuildPlan(clone_strings(&self.pending_ids)));
            }
        }
        None
    }

    fn key_preview(&mut self, key: KeyEvent) -> (r: Option<Effect>)
        ensures
            final(self)@ == after_preview(old(self)@, key).0,
            effect_view(r) == after_preview(old(self)@, key).1,
    {
        if key.code == KeyCode::Esc {
            self.screen = Screen::Records;
        } else if key.code == KeyCode::Enter {
            self.confirm_execute = false;
            self.screen = Screen::Confirm;
        }
        None
    }

    fn key_confirm(&mut self, key: KeyEvent) -> (r: Option<Effect>)
        ensures
            final(self)@ == after_confirm(old(self)@, key).0,
            effect_view(r) == after_confirm(old(self)@, key).1,
    {
        if key.code == KeyCode::Left || key.code == KeyCode::Char('h') {
            self.confirm_execute = false;
        } else if key.code == KeyCode::Right || key.code == KeyCode::Char('l') {
            self.confirm_execute = true;
        } else if key.code == KeyCode::Esc {
            self.screen = Screen::Preview;
        } else if key.code == KeyCode::Enter && self.confirm_execute {
            let plan = match &self.plan {
                Some(p) => Some(p.duplicate()),
                None => None,
            };
            match plan {
                Some(p) => {
                    self.start_running("执行前重新验证 schema、占用和计划…", 0, 3);
                    return Some(Effect::Execute(p));
                },
                None => {},
            }
        } else if key.code == KeyCode::Enter {
            self.screen = Screen::Preview;
        }
        None
    }

    fn key_receipt(&mut self, key: KeyEvent) -> (r: Option<Effect>)
        ensures
            final(self)@ == after_receipt(old(self)@, key).0,
            effect_view(r) == after_receipt(old(self)@, key).1,
    {
        if key.code == KeyCode::Enter || key.code == KeyCode::Esc {
            self.screen = Screen::Home;
        } else if key.code == KeyCode::Char('q') {
            self.should_quit = true;
        }
        None
    }

    fn key_error(&mut self, key: KeyEvent) -> (r: Option<Effect>)
        ensures
            final(self)@ == after_error(old(self)@, key).0,
            effect_view(r) == after_error(old(self)@, key).1,
    {
        if key.code == KeyCode::Esc || key.code == KeyCode::Enter {
            self.screen = Screen::Home;
        } else if key.code == KeyCode::Char('r') {
            return Some(self.start_probe());
        }
        None
    }

    /// Reacts to one key press (see `after_key`); the selection stays sorted.
    /// A cleanup is executed exactly when Enter is pressed on the
    /// confirmation screen with "execute" chosen and a plan at hand, and then
    /// on that plan; the confirmation screen is entered with "cancel" chosen.
    pub fn handle_key(&mut self, key: KeyEvent) -> (r: Option<Effect>)
        requires
            app_wf(old(self)@),
            !key_overflows(old(self)@, key),
        ensures
            final(self)@ == after_key(old(self)@, key).0,
            effect_view(r) == after_key(old(self)@, key).1,
            app_wf(final(self)@),
            (r matches Some(Effect::Execute(_))) <==> (!old(self).searching && old(self).screen == Screen::Confirm
                && old(self).confirm_execute && key.code == KeyCode::Enter && old(self).plan is Some),
            r matches Some(Effect::Execute(p)) ==> (old(self).plan matches Some(q) && p@ == q@ && final(self).screen
                == Screen::Running),
            old(self).screen != Screen::Confirm && old(self).screen != Screen::Help && final(self).screen
                == Screen::Confirm ==> !final(self).confirm_execute,
    {
        let ghost s0 = self@;
        let r = self.react(key);
        proof {
            if r matches Some(Effect::Execute(_)) {
                law_execute_only_when_confirmed(s0, key);
            }
            if !s0.searching && s0.screen == Screen::Confirm && s0.confirm_execute && key.code == KeyCode::Enter
                && s0.plan is Some {
                law_confirmed_enter_executes(s0, key);
            }
            if s0.screen != Screen::Confirm && s0.screen != Screen::Help && self.screen == Screen::Confirm {
                law_confirmation_defaults_to_cancel(s0, key);
            }
        }
        r
    }

    #[verifier::spinoff_prover]
    #[verifier::rlimit(40)]
    fn react(&mut self, key: KeyEvent) -> (r: Option<Effect>)
        requires
            app_wf(old(self)@),
            !key_overflows(old(self)@, key),
        ensures
            final(self)@ == after_key(old(self)@, key).0,
            effect_view(r) == after_key(old(self)@, key).1,
            app_wf(final(self)@),
    {
        self.toast = None;
        if self.searching {
            return self.key_search(key);
        }
        if key.code == KeyCode::Char('?') && self.screen != Screen::Help {
            self.previous_screen = self.screen;
            self.screen = Screen::Help;
            return None;
        }
        if key.code == KeyCode::Char('c') && key.control {
            if self.screen == Screen::Running {
                self.toast = Some(String::from_str("正在创建临时回滚快照或执行数据库事务，不能在中途强制退出。"));
            } else {
                self.should_quit = true;
            }
            return None;
        }
        match self.screen {
            Screen::Home => self.key_home(key),
            Screen::SourceCheck => self.key_source(key),
            Screen::Workspaces => self.key_workspaces(key),
            Screen::Records => self.key_records(key),
            Screen::Detail => self.key_detail(key),
            Screen::Preflight => self.key_preflight(key),
            Screen::Planning | Screen::Running => None,
            Screen::Preview => self.key_preview(key),
            Screen::Confirm => self.key_confirm(key),
            Screen::Receipt => self.key_receipt(key),
            Screen::Error => self.key_error(key),
            Screen::Help => {
                if key.code == KeyCode::Esc || key.code == KeyCode::Char('?') {
                    self.screen = self.previous_screen;
                }
                None
            },
        }
    }
}


/// A failure reported by the runtime: the error and its diagnostic detail.
#[derive(Debug)]
pub struct Failure {
    pub error: AppError,
    pub detail: String,
}

/// What the runtime reports back after performing an effect.
#[derive(Debug)]
pub enum RuntimeEvent {
    Loaded(Result<(SchemaProbe, Vec<Conversation>), Failure>),
    Preflight(PreflightReport),
    Plan(Result<DeletePlan, Failure>),
    Progress(ProgressSnapshot),
    Completed(Result<(Receipt, Option<(SchemaProbe, Vec<Conversation>)>), Failure>),
}

/// The state after freshly loaded records replace the old ones: the cursor of
/// the record list returns to the top, a workspace that no longer exists is
/// left, the workspace cursor is kept within the groups and the selection
/// keeps only ids that are still loaded.
pub open spec fn after_loaded(s: AppState, probe: SchemaProbe, records: Seq<Conversation>) -> AppState {
    let s1 = AppState { loading: false, probe: Some(probe), records, record_cursor: 0, ..s };
    let g = groups_of(s1);
    AppState {
        active_workspace: match s.active_workspace {
            Some(a) => if exists|i: int| 0 <= i < g.len() && (#[trigger] g[i]).label@ == a {
                Some(a)
            } else {
                None
            },
            None => None,
        },
        workspace_cursor: min_usize(s.workspace_cursor as int, sat_sub(g.len() as usize, 1)),
        selected: keep_present(s.selected, records),
        ..s1
    }
}

/// The state after an error: the error page shows the message, the
/// suggestion and the detail.
pub open spec fn after_error_report(s: AppState, e: AppError, detail: Seq<char>) -> AppState {
    AppState {
        error: Some((crate::error::error_message(e), crate::error::error_suggestion(e), detail)),
        screen: Screen::Error,
        loading: false,
        ..s
    }
}

impl App {
    /// Installs a fresh probe and record list (see `after_loaded`).
    pub fn set_loaded(&mut self, probe: SchemaProbe, records: Vec<Conversation>)
        requires
            app_wf(old(self)@),
        ensures
            final(self)@ == after_loaded(old(self)@, probe, records@),
            app_wf(final(self)@),
    {
        let ghost old_state = self@;
        self.loading = false;
        self.probe = Some(probe);
        self.records = records;
        self.record_cursor = 0;
        let groups = self.workspace_groups();
        let ghost g = groups@;
        let drop_active = match &self.active_workspace {
            Some(a) => {
                let mut found = false;
                let mut i: usize = 0;
                while i < groups.len()
                    invariant
                        i <= g.len(),
                        g == groups@,
                        found == exists|k: int| 0 <= k < i && (#[trigger] g[k]).label@ == a@,
                    decreases g.len() - i,
                {
                    if groups[i].label == *a {
                        found = true;
                    }
                    i = i + 1;
                }
                !found
            },
            None => false,
        };
        if drop_active {
            self.active_workspace = None;
        }
        let last = if groups.len() >= 1 { groups.len() - 1 } else { 0 };
        self.workspace_cursor = min_index(self.workspace_cursor, last);
        let mut kept: Vec<String> = Vec::new();
        let mut j: usize = 0;
        let ghost sel = self.selected.deep_view();
        while j < self.selected.len()
            invariant
                j <= sel.len(),
                sel == self.selected.deep_view(),
                kept.deep_view() == keep_present(sel.take(j as int), self.records@),
            decreases sel.len() - j,
        {
            let id = &self.selected[j];
            let mut present = false;
            let mut k: usize = 0;
            while k < self.records.len()
                invariant
                    k <= self.records@.len(),
                    present == exists|m: int| 0 <= m < k && (#[trigger] self.records@[m]).id@ == id@,
                decreases self.records@.len() - k,
            {
                if self.records[k].id == *id {
                    present = true;
                }
                k = k + 1;
            }
            assert(sel.take(j + 1).drop_last() =~= sel.take(j as int));
            assert(sel.take(j + 1).last() == id@);
            if present {
                let ghost before = kept.deep_view();
                kept.push(id.clone());
                assert(kept.deep_view() =~= before.push(id@));
            }
            j = j + 1;
        }
        assert(sel.take(j as int) =~= sel);
        self.selected = kept;
        proof {
            lemma_keep_present(old_state.selected, self.records@);
        }
    }

    /// Shows an error page (see `after_error_report`).
    pub fn set_error(&mut self, error: AppError, detail: String)
        ensures
            final(self)@ == after_error_report(old(self)@, error, detail@),
    {
        let message = error.message();
        let suggestion = String::from_str(error.suggestion());
        self.error = Some((message, suggestion, detail));
        self.screen = Screen::Error;
        self.loading = false;
    }

    /// Applies what the runtime reports. Reports that arrive for a page that
    /// is no longer shown (a preflight report, a plan or progress) are
    /// dropped; failures always lead to the error page; a completed cleanup
    /// installs the reloaded records, clears the selection and shows the
    /// receipt.
    pub fn apply_event(&mut self, event: RuntimeEvent)
        requires
            app_wf(old(self)@),
        ensures
            app_wf(final(self)@),
            match event {
                RuntimeEvent::Loaded(Ok((probe, records))) => final(self)@ == after_loaded(old(self)@, probe, records@),
                RuntimeEvent::Loaded(Err(f)) => final(self)@ == after_error_report(old(self)@, f.error, f.detail@),
                RuntimeEvent::Preflight(report) => final(self)@ == if old(self).screen == Screen::Preflight {
                    AppState { preflight: Some(report), ..old(self)@ }
                } else {
                    old(self)@
                },
                RuntimeEvent::Plan(Ok(plan)) => final(self)@ == if old(self).screen == Screen::Planning {
                    AppState { plan: Some(plan@), screen: Screen::Preview, ..old(self)@ }
                } else {
                    old(self)@
                },
                RuntimeEvent::Plan(Err(f)) => final(self)@ == after_error_report(old(self)@, f.error, f.detail@),
                RuntimeEvent::Progress(p) => final(self)@ == if old(self).screen == Screen::Running {
                    AppState { progress: Some((p.stage@, p.completed, p.total)), ..old(self)@ }
                } else {
                    old(self)@
                },
                RuntimeEvent::Completed(Ok((receipt, refreshed))) => {
                    let base = match refreshed {
                        Some((probe, records)) => AppState {
                            selected: Seq::<Seq<char>>::empty(),
                            ..after_loaded(old(self)@, probe, records@)
                        },
                        None => old(self)@,
                    };
                    final(self)@ == AppState {
                        progress: Some(("完成"@, 3usize, 3usize)),
                        receipt: Some(receipt),
                        screen: Screen::Receipt,
                        ..base
                    }
                },
                RuntimeEvent::Completed(Err(f)) => final(self)@ == after_error_report(old(self)@, f.error, f.detail@),
            },
    {
        match event {
            RuntimeEvent::Loaded(Ok((probe, records))) => self.set_loaded(probe, records),
            RuntimeEvent::Loaded(Err(f)) => self.set_error(f.error, f.detail),
            RuntimeEvent::Preflight(report) => {
                if self.screen == Screen::Preflight {
                    self.preflight = Some(report);
                }
            },
            RuntimeEvent::Plan(Ok(plan)) => {
                if self.screen == Screen::Planning {
                    self.plan = Some(plan);
                    self.screen = Screen::Preview;
                }
            },
            RuntimeEvent::Plan(Err(f)) => self.set_error(f.error, f.detail),
            RuntimeEvent::Progress(p) => {
                if self.screen == Screen::Running {
                    self.progress = Some(p);
                }
            },
            RuntimeEvent::Completed(Ok((receipt, refreshed))) => {
                match refreshed {
                    Some((probe, records)) => {
                        self.set_loaded(probe, records);
                        self.selected = Vec::new();
                        assert(self.selected.deep_view() =~= Seq::<Seq<char>>::empty());
                    },
                    None => {},
                }
                self.progress = Some(ProgressSnapshot { stage: String::from_str("完成"), completed: 3, total: 3 });
                self.receipt = Some(receipt);
                self.screen = Screen::Receipt;
            },
            RuntimeEvent::Completed(Err(f)) => self.set_error(f.error, f.detail),
        }
    }
}

impl App {
    /// Whether the selection is strictly ascending, the invariant that key
    /// handling and loading rely on.
    pub fn selection_in_order(&self) -> (r: bool)
        ensures
            r == app_wf(self@),
    {
        crate::text::strings_sorted(&self.selected)
    }

    /// Whether `key` would push a cursor past the largest index (see
    /// `key_overflows`); such a key is outside what `handle_key` accepts.
    pub fn key_would_overflow(&self, key: KeyEvent) -> (r: bool)
        ensures
            r == key_overflows(self@, key),
    {
        let down = key.code == KeyCode::Down || key.code == KeyCode::Char('j');
        if self.searching || (key.code == KeyCode::Char('?') && self.screen != Screen::Help) || (key.code
            == KeyCode::Char('c') && key.control) {
            return false;
        }
        match self.screen {
            Screen::Home => down && self.home_selection == usize::MAX,
            Screen::Workspaces => (down && self.workspace_cursor == usize::MAX) || (key.code == KeyCode::PageDown
                && self.workspace_cursor > usize::MAX - 10),
            Screen::Records => (down && self.record_cursor == usize::MAX) || (key.code == KeyCode::PageDown
                && self.record_cursor > usize::MAX - 10),
            _ => false,
        }
    }
}

/// The number of conversations counted over the groups.
pub open spec fn total_conversations(gs: Seq<WorkspaceSummary>) -> int
    decreases gs.len(),
{
    if gs.len() == 0 {
        0
    } else {
        gs[0].conversations + total_conversations(gs.drop_first())
    }
}

/// No two groups share a label.
pub open spec fn distinct_labels(gs: Seq<WorkspaceSummary>) -> bool {
    forall|i: int, j: int| 0 <= i < j < gs.len() ==> (#[trigger] gs[i]).label@ != (#[trigger] gs[j]).label@
}

/// Some record belongs to workspace `label`.
pub open spec fn some_record_in(records: Seq<Conversation>, label: Seq<char>) -> bool {
    exists|i: int| 0 <= i < records.len() && (#[trigger] records[i]).workspace@ == label
}

/// Some group carries `label`.
pub open spec fn has_label(gs: Seq<WorkspaceSummary>, label: Seq<char>) -> bool {
    exists|i: int| 0 <= i < gs.len() && (#[trigger] gs[i]).label@ == label
}

proof fn lemma_total_push(s: Seq<WorkspaceSummary>, x: WorkspaceSummary)
    ensures
        total_conversations(s.push(x)) == total_conversations(s) + x.conversations,
    decreases s.len(),
{
    if s.len() > 0 {
        assert(s.push(x).drop_first() =~= s.drop_first().push(x));
        assert(s.push(x)[0] == s[0]);
        lemma_total_push(s.drop_first(), x);
    } else {
        assert(s.push(x).drop_first().len() == 0);
        assert(total_conversations(s.push(x).drop_first()) == 0);
        assert(s.push(x)[0] == x);
    }
}

proof fn lemma_total_update(s: Seq<WorkspaceSummary>, i: int, g: WorkspaceSummary)
    requires
        0 <= i < s.len(),
    ensures
        total_conversations(s.update(i, g)) == total_conversations(s) - s[i].conversations + g.conversations,
    decreases s.len(),
{
    if i == 0 {
        assert(s.update(i, g).drop_first() =~= s.drop_first());
    } else {
        assert(s.update(i, g).drop_first() =~= s.drop_first().update(i - 1, g));
        lemma_total_update(s.drop_first(), i - 1, g);
    }
}

proof fn lemma_total_bounds(s: Seq<WorkspaceSummary>)
    ensures
        total_conversations(s) >= 0,
        forall|i: int| 0 <= i < s.len() ==> (#[trigger] s[i]).conversations <= total_conversations(s),
    decreases s.len(),
{
    if s.len() > 0 {
        lemma_total_bounds(s.drop_first());
        assert forall|i: int| 0 <= i < s.len() implies (#[trigger] s[i]).conversations <= total_conversations(s) by {
            if i > 0 {
                assert(s[i] == s.drop_first()[i - 1]);
            }
        }
    }
}

proof fn lemma_insert_group_facts(s: Seq<WorkspaceSummary>, x: WorkspaceSummary, windows: bool)
    ensures
        total_conversations(insert_group(s, x, windows)) == total_conversations(s) + x.conversations,
        insert_group(s, x, windows).len() == s.len() + 1,
        forall|l: Seq<char>| has_label(insert_group(s, x, windows), l) <==> (has_label(s, l) || x.label@ == l),
        distinct_labels(s) && !has_label(s, x.label@) ==> distinct_labels(insert_group(s, x, windows)),
    decreases s.len(),
{
    let t = insert_group(s, x, windows);
    if s.len() == 0 {
        assert(t =~= seq![x]);
        assert(t.drop_first().len() == 0);
        assert(total_conversations(t.drop_first()) == 0);
        assert(t[0] == x);
        assert forall|l: Seq<char>| has_label(t, l) <==> (has_label(s, l) || x.label@ == l) by {
            if x.label@ == l {
                assert(t[0].label@ == l);
            }
        }
    } else if group_before(x, s[0], windows) {
        assert(t == seq![x] + s);
        assert(t.drop_first() =~= s);
        assert(t[0] == x);
        assert forall|l: Seq<char>| has_label(t, l) <==> (has_label(s, l) || x.label@ == l) by {
            if has_label(s, l) {
                let k = choose|k: int| 0 <= k < s.len() && (#[trigger] s[k]).label@ == l;
                assert(t[k + 1] == s[k]);
            }
            if x.label@ == l {
                assert(t[0].label@ == l);
            }
            if has_label(t, l) {
                let k = choose|k: int| 0 <= k < t.len() && (#[trigger] t[k]).label@ == l;
                if k > 0 {
                    assert(s[k - 1] == t[k]);
                }
            }
        }
        if distinct_labels(s) && !has_label(s, x.label@) {
            assert forall|i: int, j: int| 0 <= i < j < t.len() implies (#[trigger] t[i]).label@ != (#[trigger] t[j]).label@ by {
                if i == 0 {
                    assert(t[j] == s[j - 1]);
                } else {
                    assert(t[i] == s[i - 1] && t[j] == s[j - 1]);
                }
            }
        }
    } else {
        let rest = s.drop_first();
        let tr = insert_group(rest, x, windows);
        lemma_insert_group_facts(rest, x, windows);
        assert(t == seq![s[0]] + tr);
        assert(t.drop_first() =~= tr);
        assert(t[0] == s[0]);
        assert forall|l: Seq<char>| has_label(s, l) <==> (s[0].label@ == l || has_label(rest, l)) by {
            if has_label(s, l) {
                let k = choose|k: int| 0 <= k < s.len() && (#[trigger] s[k]).label@ == l;
                if k > 0 {
                    assert(rest[k - 1] == s[k]);
                }
            }
            if has_label(rest, l) {
                let k = choose|k: int| 0 <= k < rest.len() && (#[trigger] rest[k]).label@ == l;
                assert(s[k + 1] == rest[k]);
            }
            if s[0].label@ == l {
                assert(s[0].label@ == l);
            }
        }
        assert forall|l: Seq<char>| has_label(t, l) <==> (s[0].label@ == l || has_label(tr, l)) by {
            if has_label(t, l) {
                let k = choose|k: int| 0 <= k < t.len() && (#[trigger] t[k]).label@ == l;
                if k > 0 {
                    assert(tr[k - 1] == t[k]);
                }
            }
            if has_label(tr, l) {
                let k = choose|k: int| 0 <= k < tr.len() && (#[trigger] tr[k]).label@ == l;
                assert(t[k + 1] == tr[k]);
            }
            if s[0].label@ == l {
                assert(t[0].label@ == l);
            }
        }
        if distinct_labels(s) && !has_label(s, x.label@) {
            assert(distinct_labels(rest)) by {
                assert forall|i: int, j: int| 0 <= i < j < rest.len() implies (#[trigger] rest[i]).label@ != (#[trigger] rest[j]).label@ by {
                    assert(rest[i] == s[i + 1] && rest[j] == s[j + 1]);
                }
            }
            assert(!has_label(rest, x.label@));
            assert(!has_label(rest, s[0].label@)) by {
                if has_label(rest, s[0].label@) {
                    let k = choose|k: int| 0 <= k < rest.len() && (#[trigger] rest[k]).label@ == s[0].label@;
                    assert(s[k + 1] == rest[k]);
                }
            }
            assert(s[0].label@ != x.label@);
            assert forall|i: int, j: int| 0 <= i < j < t.len() implies (#[trigger] t[i]).label@ != (#[trigger] t[j]).label@ by {
                if i == 0 {
                    assert(t[j] == tr[j - 1]);
                    assert(has_label(tr, tr[j - 1].label@));
                } else {
                    assert(t[i] == tr[i - 1] && t[j] == tr[j - 1]);
                }
            }
        }
    }
}

proof fn lemma_order_groups_facts(s: Seq<WorkspaceSummary>, windows: bool)
    ensures
        total_conversations(order_groups(s, windows)) == total_conversations(s),
        order_groups(s, windows).len() == s.len(),
        forall|l: Seq<char>| has_label(order_groups(s, windows), l) <==> has_label(s, l),
        distinct_labels(s) ==> distinct_labels(order_groups(s, windows)),
    decreases s.len(),
{
    if s.len() > 0 {
        let front = s.drop_last();
        lemma_order_groups_facts(front, windows);
        lemma_insert_group_facts(order_groups(front, windows), s.last(), windows);
        assert(s =~= front.push(s.last()));
        lemma_total_push(front, s.last());
        assert forall|l: Seq<char>| has_label(s, l) <==> (has_label(front, l) || s.last().label@ == l) by {
            if has_label(s, l) {
                let k = choose|k: int| 0 <= k < s.len() && (#[trigger] s[k]).label@ == l;
                if k < s.len() - 1 {
                    assert(front[k] == s[k]);
                }
            }
            if has_label(front, l) {
                let k = choose|k: int| 0 <= k < front.len() && (#[trigger] front[k]).label@ == l;
                assert(s[k] == front[k]);
            }
            if s.last().label@ == l {
                assert(s[s.len() - 1].label@ == l);
            }
        }
        if distinct_labels(s) {
            assert(distinct_labels(front)) by {
                assert forall|i: int, j: int| 0 <= i < j < front.len() implies (#[trigger] front[i]).label@ != (#[trigger] front[j]).label@ by {
                    assert(front[i] == s[i] && front[j] == s[j]);
                }
            }
            assert(!has_label(front, s.last().label@)) by {
                if has_label(front, s.last().label@) {
                    let k = choose|k: int| 0 <= k < front.len() && (#[trigger] front[k]).label@ == s.last().label@;
                    assert(s[k] == front[k]);
                    assert(s[s.len() - 1] == s.last());
                }
            }
        }
    }
}

proof fn lemma_group_index_some(groups: Seq<WorkspaceSummary>, label: Seq<char>)
    ensures
        group_index(groups, label) matches Some(i) ==> 0 <= i < groups.len() && groups[i].label@ == label,
        group_index(groups, label) is None ==> !has_label(groups, label),
    decreases groups.len(),
{
    if groups.len() > 0 {
        lemma_group_index_some(groups.drop_last(), label);
        if group_index(groups, label) is None {
            if has_label(groups, label) {
                let k = choose|k: int| 0 <= k < groups.len() && (#[trigger] groups[k]).label@ == label;
                assert(k < groups.len() - 1);
                assert(groups.drop_last()[k] == groups[k]);
            }
        }
    }
}

proof fn lemma_group_records_facts(records: Seq<Conversation>)
    requires
        records.len() <= usize::MAX,
    ensures
        total_conversations(group_records(records)) == records.len(),
        distinct_labels(group_records(records)),
        forall|l: Seq<char>| has_label(group_records(records), l) <==> some_record_in(records, l),
    decreases records.len(),
{
    if records.len() > 0 {
        let front = records.drop_last();
        let prev = group_records(front);
        let r = records.last();
        lemma_group_records_facts(front);
        lemma_total_bounds(prev);
        lemma_group_index_some(prev, r.workspace@);
        assert forall|l: Seq<char>| some_record_in(records, l) <==> (some_record_in(front, l) || r.workspace@ == l) by {
            if exists|i: int| 0 <= i < records.len() && (#[trigger] records[i]).workspace@ == l {
                let i = choose|i: int| 0 <= i < records.len() && (#[trigger] records[i]).workspace@ == l;
                if i < records.len() - 1 {
                    assert(front[i] == records[i]);
                }
            }
            if exists|i: int| 0 <= i < front.len() && (#[trigger] front[i]).workspace@ == l {
                let i = choose|i: int| 0 <= i < front.len() && (#[trigger] front[i]).workspace@ == l;
                assert(records[i] == front[i]);
            }
            if r.workspace@ == l {
                assert(records[records.len() - 1].workspace@ == l);
            }
        }
        match group_index(prev, r.workspace@) {
            Some(i) => {
                let g = count_record(prev[i], r);
                assert(prev[i].conversations <= front.len());
                lemma_total_update(prev, i, g);
                let next = prev.update(i, g);
                assert(g.label == prev[i].label);
                assert forall|a: int, b: int| 0 <= a < b < next.len() implies (#[trigger] next[a]).label@ != (#[trigger] next[b]).label@ by {
                    assert(next[a].label == prev[a].label && next[b].label == prev[b].label);
                }
                assert forall|l: Seq<char>| has_label(next, l) <==> has_label(prev, l) by {
                    if has_label(next, l) {
                        let k = choose|k: int| 0 <= k < next.len() && (#[trigger] next[k]).label@ == l;
                        assert(prev[k].label == next[k].label);
                    }
                    if has_label(prev, l) {
                        let k = choose|k: int| 0 <= k < prev.len() && (#[trigger] prev[k]).label@ == l;
                        assert(prev[k].label == next[k].label);
                    }
                }
            },
            None => {
                let g = count_record(
                    WorkspaceSummary { label: r.workspace, conversations: 0, archived: 0, latest_updated_at: 0 },
                    r,
                );
                lemma_total_push(prev, g);
                let next = prev.push(g);
                assert forall|a: int, b: int| 0 <= a < b < next.len() implies (#[trigger] next[a]).label@ != (#[trigger] next[b]).label@ by {
                    if b == next.len() - 1 {
                        assert(next[a] == prev[a]);
                        if prev[a].label@ == r.workspace@ {
                            assert(has_label(prev, r.workspace@));
                        }
                    } else {
                        assert(next[a] == prev[a] && next[b] == prev[b]);
                    }
                }
                assert forall|l: Seq<char>| has_label(next, l) <==> (has_label(prev, l) || r.workspace@ == l) by {
                    if has_label(next, l) {
                        let k = choose|k: int| 0 <= k < next.len() && (#[trigger] next[k]).label@ == l;
                        if k < prev.len() {
                            assert(prev[k] == next[k]);
                        }
                    }
                    if has_label(prev, l) {
                        let k = choose|k: int| 0 <= k < prev.len() && (#[trigger] prev[k]).label@ == l;
                        assert(next[k] == prev[k]);
                    }
                    if r.workspace@ == l {
                        assert(next[prev.len() as int].label@ == l);
                    }
                }
            },
        }
    }
}

/// How many of `records` belong to workspace `label`.
pub open spec fn records_in(records: Seq<Conversation>, label: Seq<char>) -> nat
    decreases records.len(),
{
    if records.len() == 0 {
        0
    } else {
        records_in(records.drop_last(), label) + if records.last().workspace@ == label { 1nat } else { 0nat }
    }
}

/// How many of `records` belong to workspace `label` and are archived.
pub open spec fn archived_in(records: Seq<Conversation>, label: Seq<char>) -> nat
    decreases records.len(),
{
    if records.len() == 0 {
        0
    } else {
        archived_in(records.drop_last(), label) + if records.last().workspace@ == label && records.last().archived {
            1nat
        } else {
            0nat
        }
    }
}

proof fn lemma_counts_bounded(records: Seq<Conversation>, label: Seq<char>)
    ensures
        archived_in(records, label) <= records_in(records, label) <= records.len(),
        !some_record_in(records, label) ==> records_in(records, label) == 0,
    decreases records.len(),
{
    if records.len() > 0 {
        let front = records.drop_last();
        lemma_counts_bounded(front, label);
        if !some_record_in(records, label) {
            assert(!some_record_in(front, label)) by {
                if some_record_in(front, label) {
                    let k = choose|k: int| 0 <= k < front.len() && (#[trigger] front[k]).workspace@ == label;
                    assert(records[k] == front[k]);
                }
            }
            assert(records[records.len() - 1] == records.last());
        }
    }
}

/// Every group of `group_records(records)` counts the records of its
/// workspace and those of them that are archived.
proof fn lemma_group_records_counts(records: Seq<Conversation>)
    requires
        records.len() <= usize::MAX,
    ensures
        forall|j: int| 0 <= j < group_records(records).len() ==> {
            let g = #[trigger] group_records(records)[j];
            &&& g.conversations == records_in(records, g.label@)
            &&& g.archived == archived_in(records, g.label@)
        },
    decreases records.len(),
{
    if records.len() > 0 {
        let front = records.drop_last();
        let prev = group_records(front);
        let r = records.last();
        lemma_group_records_counts(front);
        lemma_group_records_facts(front);
        lemma_group_index_some(prev, r.workspace@);
        lemma_counts_bounded(front, r.workspace@);
        let next = group_records(records);
        match group_index(prev, r.workspace@) {
            Some(i) => {
                assert(next == prev.update(i, count_record(prev[i], r)));
                assert forall|j: int| 0 <= j < next.len() implies {
                    let g = #[trigger] next[j];
                    &&& g.conversations == records_in(records, g.label@)
                    &&& g.archived == archived_in(records, g.label@)
                } by {
                    if j != i {
                        assert(next[j] == prev[j]);
                        assert(prev[j].label@ != prev[i].label@);
                    }
                }
            },
            None => {
                let g0 = WorkspaceSummary { label: r.workspace, conversations: 0, archived: 0, latest_updated_at: 0 };
                assert(next == prev.push(count_record(g0, r)));
                assert(!some_record_in(front, r.workspace@));
                assert forall|j: int| 0 <= j < next.len() implies {
                    let g = #[trigger] next[j];
                    &&& g.conversations == records_in(records, g.label@)
                    &&& g.archived == archived_in(records, g.label@)
                } by {
                    if j < prev.len() {
                        assert(next[j] == prev[j]);
                        if prev[j].label@ == r.workspace@ {
                            assert(has_label(prev, r.workspace@));
                        }
                    }
                }
            },
        }
    }
}

proof fn lemma_insert_group_members(s: Seq<WorkspaceSummary>, x: WorkspaceSummary, windows: bool)
    ensures
        forall|j: int| 0 <= j < insert_group(s, x, windows).len() ==> (#[trigger] insert_group(s, x, windows)[j] == x
            || s.contains(insert_group(s, x, windows)[j])),
    decreases s.len(),
{
    let t = insert_group(s, x, windows);
    if s.len() == 0 {
        assert(t =~= seq![x]);
    } else if group_before(x, s[0], windows) {
        assert forall|j: int| 0 <= j < t.len() implies (#[trigger] t[j] == x || s.contains(t[j])) by {
            if j > 0 {
                assert(t[j] == s[j - 1]);
            }
        }
    } else {
        let rest = s.drop_first();
        lemma_insert_group_members(rest, x, windows);
        let tr = insert_group(rest, x, windows);
        assert(t == seq![s[0]] + tr);
        assert forall|j: int| 0 <= j < t.len() implies (#[trigger] t[j] == x || s.contains(t[j])) by {
            if j == 0 {
                assert(s[0] == t[0]);
            } else {
                assert(t[j] == tr[j - 1]);
                if rest.contains(tr[j - 1]) {
                    let q = choose|q: int| 0 <= q < rest.len() && rest[q] == tr[j - 1];
                    assert(s[q + 1] == rest[q]);
                }
            }
        }
    }
}

proof fn lemma_order_groups_members(s: Seq<WorkspaceSummary>, windows: bool)
    ensures
        forall|j: int| 0 <= j < order_groups(s, windows).len() ==> s.contains(#[trigger] order_groups(s, windows)[j]),
    decreases s.len(),
{
    if s.len() > 0 {
        let front = s.drop_last();
        lemma_order_groups_members(front, windows);
        let o = order_groups(front, windows);
        lemma_insert_group_members(o, s.last(), windows);
        let t = order_groups(s, windows);
        assert forall|j: int| 0 <= j < t.len() implies s.contains(#[trigger] t[j]) by {
            if t[j] == s.last() {
                assert(s[s.len() - 1] == s.last());
            } else {
                assert(o.contains(t[j]));
                let q = choose|q: int| 0 <= q < o.len() && o[q] == t[j];
                assert(front.contains(o[q]));
                let p = choose|p: int| 0 <= p < front.len() && front[p] == o[q];
                assert(s[p] == front[p]);
            }
        }
    }
}

/// Every workspace group counts exactly the records of its workspace, and
/// among them exactly the archived ones.
pub proof fn law_group_counts(records: Seq<Conversation>, windows: bool)
    requires
        records.len() <= usize::MAX,
    ensures
        forall|j: int| 0 <= j < workspace_groups_of(records, windows).len() ==> {
            let g = #[trigger] workspace_groups_of(records, windows)[j];
            &&& g.conversations == records_in(records, g.label@)
            &&& g.archived == archived_in(records, g.label@)
        },
{
    lemma_group_records_counts(records);
    lemma_order_groups_members(group_records(records), windows);
    let gs = workspace_groups_of(records, windows);
    let base = group_records(records);
    assert forall|j: int| 0 <= j < gs.len() implies {
        let g = #[trigger] gs[j];
        &&& g.conversations == records_in(records, g.label@)
        &&& g.archived == archived_in(records, g.label@)
    } by {
        assert(base.contains(gs[j]));
        let q = choose|q: int| 0 <= q < base.len() && base[q] == gs[j];
        assert(base[q] == gs[j]);
    }
}

/// Browsing by workspace accounts for every record once: each record's
/// workspace is the label of exactly one group, each group's label is the
/// workspace of some record, and the group counts add up to the number of
/// records.
pub proof fn law_groups_partition_records(records: Seq<Conversation>, windows: bool)
    requires
        records.len() <= usize::MAX,
    ensures
        total_conversations(workspace_groups_of(records, windows)) == records.len(),
        distinct_labels(workspace_groups_of(records, windows)),
        forall|l: Seq<char>| has_label(workspace_groups_of(records, windows), l) <==> some_record_in(records, l),
{
    lemma_group_records_facts(records);
    lemma_order_groups_facts(group_records(records), windows);
}

/// Records are browsed only when the probe found the verified layout: the
/// workspace page opens from the home and source pages only then.
#[verifier::spinoff_prover]
pub proof fn law_browse_only_when_supported(s: AppState, k: KeyEvent)
    requires
        s.screen == Screen::Home || s.screen == Screen::SourceCheck,
        after_key(s, k).0.screen == Screen::Workspaces,
    ensures
        probe_supported(s.probe),
        after_key(s, k).0.active_workspace is None,
{
    let t = AppState { toast: None, ..s };
    if t.searching {
        assert(after_key(s, k) == after_search(t, k));
    } else if is_char(k, '?') && t.screen != Screen::Help {
    } else if is_char(k, 'c') && k.control {
    } else {
        match t.screen {
            Screen::Home => assert(after_key(s, k) == after_home(t, k)),
            Screen::SourceCheck => assert(after_key(s, k) == after_source(t, k)),
            Screen::Workspaces => assert(after_key(s, k) == after_workspaces(t, k)),
            Screen::Records => assert(after_key(s, k) == after_records(t, k)),
            Screen::Detail => assert(after_key(s, k) == after_detail(t, k)),
            Screen::Preflight => assert(after_key(s, k) == after_preflight(t, k)),
            Screen::Preview => assert(after_key(s, k) == after_preview(t, k)),
            Screen::Confirm => assert(after_key(s, k) == after_confirm(t, k)),
            Screen::Receipt => assert(after_key(s, k) == after_receipt(t, k)),
            Screen::Error => assert(after_key(s, k) == after_error(t, k)),
            _ => {},
        }
    }
}

/// A cleanup is executed only on an explicit confirmation: the execute
/// effect comes only from Enter on the confirmation screen with "execute"
/// chosen, and it carries the approved plan.
#[verifier::spinoff_prover]
pub proof fn law_execute_only_when_confirmed(s: AppState, k: KeyEvent)
    requires
        after_key(s, k).1 matches Some(EffectView::Execute(_)),
    ensures
        !s.searching,
        s.screen == Screen::Confirm,
        s.confirm_execute,
        k.code == KeyCode::Enter,
        s.plan is Some,
        after_key(s, k).1 == Some(EffectView::Execute(s.plan->0)),
        after_key(s, k).0.screen == Screen::Running,
{
    let t = AppState { toast: None, ..s };
    if t.searching {
        assert(after_key(s, k) == after_search(t, k));
    } else if is_char(k, '?') && t.screen != Screen::Help {
    } else if is_char(k, 'c') && k.control {
    } else {
        match t.screen {
            Screen::Home => assert(after_key(s, k) == after_home(t, k)),
            Screen::SourceCheck => assert(after_key(s, k) == after_source(t, k)),
            Screen::Workspaces => assert(after_key(s, k) == after_workspaces(t, k)),
            Screen::Records => assert(after_key(s, k) == after_records(t, k)),
            Screen::Detail => assert(after_key(s, k) == after_detail(t, k)),
            Screen::Preflight => assert(after_key(s, k) == after_preflight(t, k)),
            Screen::Preview => assert(after_key(s, k) == after_preview(t, k)),
            Screen::Confirm => assert(after_key(s, k) == after_confirm(t, k)),
            Screen::Receipt => assert(after_key(s, k) == after_receipt(t, k)),
            Screen::Error => assert(after_key(s, k) == after_error(t, k)),
            _ => {},
        }
    }
}

/// The confirmation screen opens with "cancel" chosen: moving to it from any
/// other screen but the help page clears the choice.
#[verifier::spinoff_prover]
pub proof fn law_confirmation_defaults_to_cancel(s: AppState, k: KeyEvent)
    requires
        s.screen != Screen::Confirm,
        s.screen != Screen::Help,
        after_key(s, k).0.screen == Screen::Confirm,
    ensures
        !after_key(s, k).0.confirm_execute,
        s.screen == Screen::Preview,
{
    let t = AppState { toast: None, ..s };
    if t.searching {
        assert(after_key(s, k) == after_search(t, k));
    } else if is_char(k, '?') && t.screen != Screen::Help {
    } else if is_char(k, 'c') && k.control {
    } else {
        match t.screen {
            Screen::Home => assert(after_key(s, k) == after_home(t, k)),
            Screen::SourceCheck => assert(after_key(s, k) == after_source(t, k)),
            Screen::Workspaces => assert(after_key(s, k) == after_workspaces(t, k)),
            Screen::Records => assert(after_key(s, k) == after_records(t, k)),
            Screen::Detail => assert(after_key(s, k) == after_detail(t, k)),
            Screen::Preflight => assert(after_key(s, k) == after_preflight(t, k)),
            Screen::Preview => assert(after_key(s, k) == after_preview(t, k)),
            Screen::Confirm => assert(after_key(s, k) == after_confirm(t, k)),
            Screen::Receipt => assert(after_key(s, k) == after_receipt(t, k)),
            Screen::Error => assert(after_key(s, k) == after_error(t, k)),
            _ => {},
        }
    }
}

/// Pressing Enter on the confirmation screen with "execute" chosen and a
/// plan at hand always executes exactly that plan and shows the progress
/// page (the other direction of `law_execute_only_when_confirmed`).
pub proof fn law_confirmed_enter_executes(s: AppState, k: KeyEvent)
    requires
        !s.searching,
        s.screen == Screen::Confirm,
        s.confirm_execute,
        k.code == KeyCode::Enter,
        s.plan is Some,
    ensures
        after_key(s, k).1 == Some(EffectView::Execute(s.plan->0)),
        after_key(s, k).0.screen == Screen::Running,
{
    let t = AppState { toast: None, ..s };
    assert(after_key(s, k) == after_confirm(t, k));
}

/// A cleanup request ('x' or Delete) on the record list or the detail page
/// asks for exactly the selected conversations, in their sorted order, and
/// remembers them as the pending ids; only with nothing selected does it
/// take the record under the cursor alone; with neither it asks for nothing
/// and says so.
#[verifier::spinoff_prover]
pub proof fn law_cleanup_request_takes_the_selection(s: AppState, k: KeyEvent)
    requires
        !s.searching,
        s.screen == Screen::Records || s.screen == Screen::Detail,
        is_char(k, 'x') || k.code == KeyCode::Delete,
    ensures
        s.selected.len() > 0 ==> after_key(s, k).1 == Some(EffectView::RunPreflight(s.selected))
            && after_key(s, k).0.pending_ids == s.selected && after_key(s, k).0.screen == Screen::Preflight
            && after_key(s, k).0.selected == s.selected,
        s.selected.len() == 0 && current_of(s) is Some ==> after_key(s, k).1 == Some(
            EffectView::RunPreflight(seq![current_of(s)->0.id@]),
        ) && after_key(s, k).0.pending_ids == seq![current_of(s)->0.id@],
        s.selected.len() == 0 && current_of(s) is None ==> after_key(s, k).1 is None && after_key(s, k).0.toast
            == Some(nothing_to_clean_toast()),
{
    let t = AppState { toast: None, ..s };
    assert(listed_of(t) == listed_of(s));
    assert(current_of(t) == current_of(s));
    if s.screen == Screen::Records {
        assert(after_key(s, k) == after_records(t, k));
        assert(after_records(t, k) == start_delete_of(t));
    } else {
        assert(after_key(s, k) == after_detail(t, k));
        assert(after_detail(t, k) == start_delete_of(t));
    }
}

/// On the record list (the step `after_records`, which the record list's key
/// handler follows), space toggles the record under the cursor in the
/// selection: it is added when absent and removed when present, every other
/// id keeps its place, the selection stays sorted, no effect is asked for,
/// and a second space gives the first selection back.
pub proof fn law_record_list_space_toggles(s: AppState, k: KeyEvent)
    requires
        app_wf(s),
        is_char(k, ' '),
        current_of(s) is Some,
    ensures
        ({
            let id = current_of(s)->0.id@;
            let s1 = after_records(s, k).0;
            &&& after_records(s, k).1 is None
            &&& s1.selected == toggle_id(s.selected, id)
            &&& s1.selected.contains(id) == !s.selected.contains(id)
            &&& forall|x: Seq<char>| x != id ==> (s1.selected.contains(x) == s.selected.contains(x))
            &&& app_wf(s1)
            &&& after_records(s1, k).1 is None
            &&& after_records(s1, k).0.selected == s.selected
        }),
{
    let id = current_of(s)->0.id@;
    lemma_toggle(s.selected, id);
    let s1 = after_records(s, k).0;
    assert(listed_of(s1) == listed_of(s));
    assert(current_of(s1) == current_of(s));
}

/// Space on the record list selects the record under the cursor when it is
/// not selected and deselects it when it is, leaving every other selected id
/// and the sorted order of the selection as they were; a second space gives
/// the first selection back.
#[verifier::spinoff_prover]
pub proof fn law_space_toggles_selection(s: AppState, k: KeyEvent)
    requires
        app_wf(s),
        !s.searching,
        s.screen == Screen::Records,
        is_char(k, ' '),
        current_of(s) is Some,
    ensures
        ({
            let id = current_of(s)->0.id@;
            let s1 = after_key(s, k).0;
            &&& after_key(s, k).1 is None
            &&& s1.selected == toggle_id(s.selected, id)
            &&& s1.selected.contains(id) == !s.selected.contains(id)
            &&& forall|x: Seq<char>| x != id ==> (s1.selected.contains(x) == s.selected.contains(x))
            &&& app_wf(s1)
            &&& after_key(s1, k).0.selected == s.selected
        }),
{
    let id = current_of(s)->0.id@;
    let t = AppState { toast: None, ..s };
    assert(listed_of(t) == listed_of(s));
    assert(current_of(t) == current_of(s));
    assert(after_key(s, k) == after_records(t, k));
    let s1 = after_key(s, k).0;
    lemma_toggle(s.selected, id);
    let t1 = AppState { toast: None, ..s1 };
    assert(listed_of(t1) == listed_of(s));
    assert(current_of(t1) == current_of(s));
    assert(after_key(s1, k) == after_records(t1, k));
}

/// A cleanup plan is built only for records whose preflight report has no
/// failed check, and only for the records that were checked.
#[verifier::spinoff_prover]
pub proof fn law_plan_only_after_passing_preflight(s: AppState, k: KeyEvent)
    requires
        after_key(s, k).1 matches Some(EffectView::BuildPlan(_)),
    ensures
        s.screen == Screen::Preflight,
        s.preflight matches Some(p) && no_failed_check(p.checks@),
        after_key(s, k).1 == Some(EffectView::BuildPlan(s.pending_ids)),
{
    let t = AppState { toast: None, ..s };
    if t.searching {
        assert(after_key(s, k) == after_search(t, k));
    } else if is_char(k, '?') && t.screen != Screen::Help {
    } else if is_char(k, 'c') && k.control {
    } else {
        match t.screen {
            Screen::Home => assert(after_key(s, k) == after_home(t, k)),
            Screen::SourceCheck => assert(after_key(s, k) == after_source(t, k)),
            Screen::Workspaces => assert(after_key(s, k) == after_workspaces(t, k)),
            Screen::Records => assert(after_key(s, k) == after_records(t, k)),
            Screen::Detail => assert(after_key(s, k) == after_detail(t, k)),
            Screen::Preflight => assert(after_key(s, k) == after_preflight(t, k)),
            Screen::Preview => assert(after_key(s, k) == after_preview(t, k)),
            Screen::Confirm => assert(after_key(s, k) == after_confirm(t, k)),
            Screen::Receipt => assert(after_key(s, k) == after_receipt(t, k)),
            Screen::Error => assert(after_key(s, k) == after_error(t, k)),
            _ => {},
        }
    }
}

/// While a cleanup runs, no key quits the tool or starts other work.
#[verifier::spinoff_prover]
pub proof fn law_running_cannot_be_interrupted(s: AppState, k: KeyEvent)
    requires
        s.screen == Screen::Running,
        !s.should_quit,
    ensures
        !after_key(s, k).0.should_quit,
        after_key(s, k).1 is None,
{
    let t = AppState { toast: None, ..s };
    if t.searching {
        assert(after_key(s, k) == after_search(t, k));
    } else if is_char(k, '?') && t.screen != Screen::Help {
    } else if is_char(k, 'c') && k.control {
    } else {
        match t.screen {
            Screen::Home => assert(after_key(s, k) == after_home(t, k)),
            Screen::SourceCheck => assert(after_key(s, k) == after_source(t, k)),
            Screen::Workspaces => assert(after_key(s, k) == after_workspaces(t, k)),
            Screen::Records => assert(after_key(s, k) == after_records(t, k)),
            Screen::Detail => assert(after_key(s, k) == after_detail(t, k)),
            Screen::Preflight => assert(after_key(s, k) == after_preflight(t, k)),
            Screen::Preview => assert(after_key(s, k) == after_preview(t, k)),
            Screen::Confirm => assert(after_key(s, k) == after_confirm(t, k)),
            Screen::Receipt => assert(after_key(s, k) == after_receipt(t, k)),
            Screen::Error => assert(after_key(s, k) == after_error(t, k)),
            _ => {},
        }
    }
}

/// Every key press clears the toast of the previous one; only Ctrl-C during
/// a run, or a cleanup request with nothing to clean, shows a new one.
#[verifier::spinoff_prover]
pub proof fn law_toast_lasts_one_key(s: AppState, k: KeyEvent)
    requires
        after_key(s, k).0.toast is Some,
    ensures
        after_key(s, k).0.toast == Some(running_toast()) || after_key(s, k).0.toast == Some(
            nothing_to_clean_toast(),
        ),
{
    let t = AppState { toast: None, ..s };
    if t.searching {
        assert(after_key(s, k) == after_search(t, k));
    } else if is_char(k, '?') && t.screen != Screen::Help {
    } else if is_char(k, 'c') && k.control {
    } else {
        match t.screen {
            Screen::Home => assert(after_key(s, k) == after_home(t, k)),
            Screen::SourceCheck => assert(after_key(s, k) == after_source(t, k)),
            Screen::Workspaces => assert(after_key(s, k) == after_workspaces(t, k)),
            Screen::Records => assert(after_key(s, k) == after_records(t, k)),
            Screen::Detail => assert(after_key(s, k) == after_detail(t, k)),
            Screen::Preflight => assert(after_key(s, k) == after_preflight(t, k)),
            Screen::Preview => assert(after_key(s, k) == after_preview(t, k)),
            Screen::Confirm => assert(after_key(s, k) == after_confirm(t, k)),
            Screen::Receipt => assert(after_key(s, k) == after_receipt(t, k)),
            Screen::Error => assert(after_key(s, k) == after_error(t, k)),
            _ => {},
        }
    }
}

/// The only keys that change the records, the probe result or the preflight
/// report are those that ask for new work: a key press never alters what was
/// loaded, and never marks records for removal outside the records page.
#[verifier::spinoff_prover]
pub proof fn law_keys_keep_loaded_data(s: AppState, k: KeyEvent)
    ensures
        after_key(s, k).0.records == s.records,
        after_key(s, k).0.receipt == s.receipt,
        after_key(s, k).0.selected != s.selected ==> !s.searching && (s.screen == Screen::Records || s.screen
            == Screen::Workspaces),
{
    let t = AppState { toast: None, ..s };
    if t.searching {
        assert(after_key(s, k) == after_search(t, k));
    } else if is_char(k, '?') && t.screen != Screen::Help {
    } else if is_char(k, 'c') && k.control {
    } else {
        match t.screen {
            Screen::Home => assert(after_key(s, k) == after_home(t, k)),
            Screen::SourceCheck => assert(after_key(s, k) == after_source(t, k)),
            Screen::Workspaces => assert(after_key(s, k) == after_workspaces(t, k)),
            Screen::Records => assert(after_key(s, k) == after_records(t, k)),
            Screen::Detail => assert(after_key(s, k) == after_detail(t, k)),
            Screen::Preflight => assert(after_key(s, k) == after_preflight(t, k)),
            Screen::Preview => assert(after_key(s, k) == after_preview(t, k)),
            Screen::Confirm => assert(after_key(s, k) == after_confirm(t, k)),
            Screen::Receipt => assert(after_key(s, k) == after_receipt(t, k)),
            Screen::Error => assert(after_key(s, k) == after_error(t, k)),
            _ => {},
        }
    }
}

} // verus!

verus! {

/// The page name and the key help shown for a screen.
pub open spec fn page_texts(screen: Screen, searching: bool) -> (Seq<char>, Seq<char>) {
    match screen {
        Screen::Home => ("主页"@, "↑↓/jk 移动 · Enter 打开 · R 刷新 · Q 退出"@),
        Screen::SourceCheck => ("数据源检查"@, "Enter 浏览 · R 重试 · Esc 返回"@),
        Screen::Workspaces => ("工作目录"@, "↑↓/jk 移动 · Enter 查看对话 · R 刷新 · Esc 返回"@),
        Screen::Records => if searching {
            ("记录搜索"@, "输入关键词 · Backspace 删除 · Enter 应用 · Esc 结束"@)
        } else {
            ("记录列表与详情"@, "↑↓/jk 移动 · Space 多选 · / 搜索 · F 切换全部/未归档/已归档 · Enter 详情 · X 清理"@)
        },
        Screen::Detail => ("记录详情"@, "↑↓/PgUp/PgDn 滚动 · X 清理 · Esc 返回"@),
        Screen::Preflight => ("环境检查"@, "Enter 生成计划 · R 重试 · Esc 返回"@),
        Screen::Planning => ("生成计划"@, "请稍候"@),
        Screen::Preview => ("影响预览"@, "Enter 继续确认 · Esc 返回"@),
        Screen::Confirm => ("执行确认"@, "←→/hl 选择 · Enter 确认 · Esc 返回"@),
        Screen::Running => ("执行进度"@, "临时回滚快照与事务阶段不可中断"@),
        Screen::Receipt => ("操作回执"@, "Enter 返回主页 · Q 退出"@),
        Screen::Error => ("错误"@, "R 重新检查 · Enter/Esc 返回 · ? 帮助"@),
        Screen::Help => ("帮助"@, "Esc/? 关闭"@),
    }
}

/// The page name and the key help shown for a screen (see `page_texts`).
pub fn page_meta(screen: Screen, searching: bool) -> (r: (&'static str, &'static str))
    ensures
        (r.0@, r.1@) == page_texts(screen, searching),
{
    match screen {
        Screen::Home => ("主页", "↑↓/jk 移动 · Enter 打开 · R 刷新 · Q 退出"),
        Screen::SourceCheck => ("数据源检查", "Enter 浏览 · R 重试 · Esc 返回"),
        Screen::Workspaces => ("工作目录", "↑↓/jk 移动 · Enter 查看对话 · R 刷新 · Esc 返回"),
        Screen::Records => if searching {
            ("记录搜索", "输入关键词 · Backspace 删除 · Enter 应用 · Esc 结束")
        } else {
            ("记录列表与详情", "↑↓/jk 移动 · Space 多选 · / 搜索 · F 切换全部/未归档/已归档 · Enter 详情 · X 清理")
        },
        Screen::Detail => ("记录详情", "↑↓/PgUp/PgDn 滚动 · X 清理 · Esc 返回"),
        Screen::Preflight => ("环境检查", "Enter 生成计划 · R 重试 · Esc 返回"),
        Screen::Planning => ("生成计划", "请稍候"),
        Screen::Preview => ("影响预览", "Enter 继续确认 · Esc 返回"),
        Screen::Confirm => ("执行确认", "←→/hl 选择 · Enter 确认 · Esc 返回"),
        Screen::Running => ("执行进度", "临时回滚快照与事务阶段不可中断"),
        Screen::Receipt => ("操作回执", "Enter 返回主页 · Q 退出"),
        Screen::Error => ("错误", "R 重新检查 · Enter/Esc 返回 · ? 帮助"),
        Screen::Help => ("帮助", "Esc/? 关闭"),
    }
}

} // verus!
