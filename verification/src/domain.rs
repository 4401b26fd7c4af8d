//! Data model shared by the store, the preflight checks and the interface.

use vstd::prelude::*;
use crate::text::{clone_strings, decimal, digit_char, digit_to_char, push_decimal, string_from_chars};

verus! {

/// Outcome of comparing the local databases with the verified layout.
#[derive(Clone, Copy, Debug, PartialEq, Eq, Structural)]
pub enum SchemaState {
    Supported,
    Unsupported,
    Missing,
}

/// Result of a read-only schema probe.
#[derive(Clone, Debug)]
pub struct SchemaProbe {
    pub state: SchemaState,
    pub search_version: Option<i64>,
    pub state_version: Option<i64>,
    pub diagnostics: Vec<String>,
}

impl SchemaProbe {
    /// Whether the probed layout is the verified one.
    pub fn supported(&self) -> (r: bool)
        ensures
            r == (self.state == SchemaState::Supported),
    {
        match self.state {
            SchemaState::Supported => true,
            _ => false,
        }
    }
}

/// One locally stored conversation.
#[derive(Clone, Debug)]
pub struct Conversation {
    pub id: String,
    pub title: String,
    pub updated_at: i64,
    pub source: String,
    pub archived: bool,
    pub workspace: String,
    pub preview: String,
    pub logical_bytes: u64,
}

/// Conversations grouped by their working directory.
#[derive(Clone, Debug)]
pub struct WorkspaceSummary {
    pub label: String,
    pub conversations: usize,
    pub archived: usize,
    pub latest_updated_at: i64,
}

/// Which conversations the record list shows, by archive state.
#[derive(Clone, Copy, Debug, PartialEq, Eq, Structural)]
pub enum ArchiveFilter {
    All,
    Active,
    Archived,
}

impl ArchiveFilter {
    /// The filter that follows this one in the cycle All, Active, Archived.
    pub fn next(self) -> (r: Self)
        ensures
            r == match self {
                ArchiveFilter::All => ArchiveFilter::Active,
                ArchiveFilter::Active => ArchiveFilter::Archived,
                ArchiveFilter::Archived => ArchiveFilter::All,
            },
    {
        match self {
            ArchiveFilter::All => ArchiveFilter::Active,
            ArchiveFilter::Active => ArchiveFilter::Archived,
            ArchiveFilter::Archived => ArchiveFilter::All,
        }
    }

    /// The label shown for this filter.
    pub fn label(self) -> (r: &'static str)
        ensures
            r@ == match self {
                ArchiveFilter::All => "全部"@,
                ArchiveFilter::Active => "未归档"@,
                ArchiveFilter::Archived => "已归档"@,
            },
    {
        match self {
            ArchiveFilter::All => "全部",
            ArchiveFilter::Active => "未归档",
            ArchiveFilter::Archived => "已归档",
        }
    }
}

/// One line of the preflight report.
#[derive(Clone, Debug)]
pub struct CheckResult {
    pub label: String,
    pub state: CheckState,
    pub detail: String,
}

#[derive(Clone, Copy, Debug, PartialEq, Eq, Structural)]
pub enum CheckState {
    Passed,
    Warning,
    Failed,
}

/// The checks that run before any plan is built or executed.
#[derive(Clone, Debug)]
pub struct PreflightReport {
    pub checks: Vec<CheckResult>,
}

/// No check of the sequence failed.
pub open spec fn no_failed_check(checks: Seq<CheckResult>) -> bool {
    forall|i: int| 0 <= i < checks.len() ==> checks[i].state != CheckState::Failed
}

impl PreflightReport {
    /// A report allows the flow to continue exactly when no check failed.
    pub fn can_continue(&self) -> (r: bool)
        ensures
            r == no_failed_check(self.checks@),
    {
        let mut i: usize = 0;
        while i < self.checks.len()
            invariant
                i <= self.checks@.len(),
                no_failed_check(self.checks@.take(i as int)),
            decreases self.checks@.len() - i,
        {
            match self.checks[i].state {
                CheckState::Failed => {
                    return false;
                },
                _ => {},
            }
            assert(self.checks@.take(i + 1) =~= self.checks@.take(i as int).push(self.checks@[i as int]));
            i = i + 1;
        }
        assert(self.checks@.take(i as int) =~= self.checks@);
        true
    }
}

/// What a delete plan removes.
#[derive(Clone, Copy, Debug, PartialEq, Eq, Hash, Structural)]
pub struct Impact {
    pub conversations: usize,
    pub fts_rows: usize,
    pub candidates: usize,
    pub state_rows: usize,
    pub headers: usize,
    pub transcript_dirs: usize,
    pub transcript_bytes: u64,
    pub unknown_keys: usize,
}

impl Impact {
    /// The impact of a plan that removes nothing.
    pub fn empty() -> (r: Self)
        ensures
            r == (Impact {
                conversations: 0,
                fts_rows: 0,
                candidates: 0,
                state_rows: 0,
                headers: 0,
                transcript_dirs: 0,
                transcript_bytes: 0,
                unknown_keys: 0,
            }),
    {
        Impact {
            conversations: 0,
            fts_rows: 0,
            candidates: 0,
            state_rows: 0,
            headers: 0,
            transcript_dirs: 0,
            transcript_bytes: 0,
            unknown_keys: 0,
        }
    }
}

/// A reviewed, immutable description of one cleanup.
#[derive(Clone, Debug)]
pub struct DeletePlan {
    pub id: u64,
    /// Creation time, in nanoseconds since the Unix epoch.
    pub created_at: u128,
    pub conversation_ids: Vec<String>,
    pub owned_ids: Vec<String>,
    pub transcript_dirs: Vec<String>,
    pub impact: Impact,
    pub protected_paths: Vec<String>,
}

/// The content of a delete plan.
pub struct PlanView {
    pub id: u64,
    pub created_at: u128,
    pub conversation_ids: Seq<Seq<char>>,
    pub owned_ids: Seq<Seq<char>>,
    pub transcript_dirs: Seq<Seq<char>>,
    pub impact: Impact,
    pub protected_paths: Seq<Seq<char>>,
}

impl View for DeletePlan {
    type V = PlanView;

    open spec fn view(&self) -> PlanView {
        PlanView {
            id: self.id,
            created_at: self.created_at,
            conversation_ids: self.conversation_ids.deep_view(),
            owned_ids: self.owned_ids.deep_view(),
            transcript_dirs: self.transcript_dirs.deep_view(),
            impact: self.impact,
            protected_paths: self.protected_paths.deep_view(),
        }
    }
}

impl DeletePlan {
    /// A copy of the plan.
    pub fn duplicate(&self) -> (r: DeletePlan)
        ensures
            r@ == self@,
    {
        DeletePlan {
            id: self.id,
            created_at: self.created_at,
            conversation_ids: clone_strings(&self.conversation_ids),
            owned_ids: clone_strings(&self.owned_ids),
            transcript_dirs: clone_strings(&self.transcript_dirs),
            impact: self.impact,
            protected_paths: clone_strings(&self.protected_paths),
        }
    }
}

/// Progress of a running cleanup.
#[derive(Clone, Debug)]
pub struct ProgressSnapshot {
    pub stage: String,
    pub completed: usize,
    pub total: usize,
}

/// What a finished cleanup reports; times in nanoseconds since the Unix epoch.
#[derive(Clone, Debug)]
pub struct Receipt {
    pub started_at: u128,
    pub ended_at: u128,
    pub deleted_conversations: usize,
    pub deleted_state_rows: usize,
    pub deleted_transcript_dirs: usize,
    pub verified: bool,
}

/// 2 to the power `e`.
pub open spec fn two_pow(e: nat) -> nat
    decreases e,
{
    if e == 0 { 1 } else { 2 * two_pow((e - 1) as nat) }
}

/// Halvings that bring `b` below 2^53.
pub open spec fn excess_bits(b: nat) -> nat
    decreases b,
{
    if b < 0x20_0000_0000_0000 || b == 0 { 0 } else { 1 + excess_bits(b / 2) }
}

/// `b` rounded to the nearest value whose binary significand has at most 53
/// bits, ties to even: the value that converting `b` to `f64` yields.
pub open spec fn as_double(b: nat) -> nat {
    let u = two_pow(excess_bits(b));
    let q = b / u;
    let r = b % u;
    if 2 * r > u || (2 * r == u && q % 2 == 1) { (b - r + u) as nat } else { (b - r) as nat }
}

/// The binary unit index (0 = B ... 4 = TiB) used for a value.
pub open spec fn unit_index(v: nat) -> nat {
    if v >= 0x100_0000_0000 { 4 }
    else if v >= 0x4000_0000 { 3 }
    else if v >= 0x10_0000 { 2 }
    else if v >= 0x400 { 1 }
    else { 0 }
}

/// 1024 to the power of a unit index.
pub open spec fn unit_size(k: nat) -> nat {
    if k == 4 { 0x100_0000_0000 }
    else if k == 3 { 0x4000_0000 }
    else if k == 2 { 0x10_0000 }
    else if k == 1 { 0x400 }
    else { 1 }
}

/// The suffix of a unit index.
pub open spec fn unit_name(k: nat) -> Seq<char> {
    if k == 4 { "TiB"@ }
    else if k == 3 { "GiB"@ }
    else if k == 2 { "MiB"@ }
    else { "KiB"@ }
}

/// `n / d` rounded to the nearest integer, ties to even.
pub open spec fn div_round_even(n: nat, d: nat) -> nat {
    let q = n / d;
    let r = n % d;
    if 2 * r > d || (2 * r == d && q % 2 == 1) { q + 1 } else { q }
}

/// The text of `human_bytes`: exact bytes below 1 KiB, otherwise the value in
/// the largest binary unit (up to TiB) with one decimal, rounded as `f64`
/// formatting with one decimal rounds.
pub open spec fn human_bytes_text(bytes: nat) -> Seq<char> {
    if bytes < 1024 {
        decimal(bytes) + " B"@
    } else {
        let v = as_double(bytes);
        let k = unit_index(v);
        let t = div_round_even(v * 10, unit_size(k));
        decimal(t / 10) + seq!['.', digit_char(t % 10), ' '] + unit_name(k)
    }
}

/// Computes `as_double(b)` for a 64-bit value.
fn round_to_double(b: u64) -> (r: u128)
    ensures
        r == as_double(b as nat),
        r <= 0x2_0000_0000_0000_0000,
        b >= 1024 ==> r >= 1024,
{
    let mut n: u128 = b as u128;
    let mut u: u128 = 1;
    let ghost mut e: nat = 0;
    while n >= 0x20_0000_0000_0000
        invariant
            excess_bits(b as nat) == e + excess_bits(n as nat),
            u == two_pow(e),
            n * u <= b,
            u >= 1,
            u > 1 ==> n >= 0x10_0000_0000_0000,
        decreases n,
    {
        assert(0x20_0000_0000_0000 * u <= b) by (nonlinear_arith)
            requires n * u <= b, n >= 0x20_0000_0000_0000, u >= 1;
        assert((n / 2) * (2 * u) <= n * u) by (nonlinear_arith)
            requires n >= 0, u >= 1;
        n = n / 2;
        u = 2 * u;
        proof {
            e = e + 1;
        }
    }
    assert(n < 0x20_0000_0000_0000);
    assert(excess_bits(n as nat) == 0);
    let q = (b as u128) / u;
    let rem = (b as u128) % u;
    proof {
        vstd::arithmetic::div_mod::lemma_mod_decreases(b as nat, u as nat);
        vstd::arithmetic::div_mod::lemma_mod_pos_bound(b as int, u as int);
        assert(u == 1 || (u <= 0x1000 && b >= 0x10_0000_0000_0000)) by (nonlinear_arith)
            requires n * u <= b, u >= 1, u > 1 ==> n >= 0x10_0000_0000_0000, b < 0x1_0000_0000_0000_0000;
    }
    if 2 * rem > u || (2 * rem == u && q % 2 == 1) {
        let r = (b as u128) - rem + u;
        assert(u == 1 ==> rem == 0);
        r
    } else {
        (b as u128) - rem
    }
}

/// Formats a byte count for display ("512 B", "1.5 KiB", ...).
pub fn human_bytes(bytes: u64) -> (s: String)
    ensures
        s@ == human_bytes_text(bytes as nat),
{
    let mut out: Vec<char> = Vec::new();
    if bytes < 1024 {
        push_decimal(&mut out, bytes as u128);
        let mut s = string_from_chars(out.as_slice());
        s.append(" B");
        return s;
    }
    let v = round_to_double(bytes);
    let (k, size, name): (u128, u128, &str) = if v >= 0x100_0000_0000 {
        (4, 0x100_0000_0000, "TiB")
    } else if v >= 0x4000_0000 {
        (3, 0x4000_0000, "GiB")
    } else if v >= 0x10_0000 {
        (2, 0x10_0000, "MiB")
    } else {
        (1, 0x400, "KiB")
    };
    assert(k == unit_index(v as nat) && size == unit_size(k as nat) && name@ == unit_name(k as nat));
    let n = v * 10;
    let q = n / size;
    let r = n % size;
    let t = if 2 * r > size || (2 * r == size && q % 2 == 1) { q + 1 } else { q };
    assert(t == div_round_even(v as nat * 10, size as nat));
    push_decimal(&mut out, t / 10);
    out.push('.');
    out.push(digit_to_char(t % 10));
    out.push(' ');
    let mut s = string_from_chars(out.as_slice());
    s.append(name);
    s
}

} // verus!
