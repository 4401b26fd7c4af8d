//! Deciding what a cleanup removes: the requested conversations, the
//! sub-conversations they own, and which state keys belong to them.

use vstd::prelude::*;
use crate::domain::{DeletePlan, Impact, Receipt};
use crate::error::AppError;
use crate::json::{json_document, parse_json, JsonValue};
use crate::store::{cursor_key_of, item_key_of, known_cursor_key, known_item_key, valid_id, valid_id_text};
use crate::text::{
    chars_contain, chars_of, clone_strings, contains_text, count_before, insert_sorted_id,
    ends_with, lemma_insert_contains, lemma_push_contains, lemma_toggle, starts_with,
    strictly_sorted,
};

verus! {

/// The ids of a plan request, normalized: none may be malformed, and the
/// result lists each once in ascending order.
pub fn requested_ids(ids: &Vec<String>) -> (r: Result<Vec<String>, AppError>)
    ensures
        match r {
            Ok(v) => ids@.len() > 0
                && (forall|i: int| 0 <= i < ids@.len() ==> valid_id_text(#[trigger] ids@[i]@))
                && strictly_sorted(v.deep_view())
                && (forall|x: Seq<char>| v.deep_view().contains(x) <==> ids.deep_view().contains(x)),
            Err(e) => if ids@.len() == 0 {
                e matches AppError::Planning(m) && m@ == "没有选择对话"@
            } else {
                (exists|i: int| 0 <= i < ids@.len() && !valid_id_text(#[trigger] ids@[i]@))
                    && (e matches AppError::Planning(m) && m@ == "对话标识格式无效"@)
            },
        },
{
    if ids.len() == 0 {
        return Err(AppError::Planning(String::from_str("没有选择对话")));
    }
    let mut set: Vec<String> = Vec::new();
    let mut i: usize = 0;
    while i < ids.len()
        invariant
            i <= ids@.len(),
            strictly_sorted(set.deep_view()),
            forall|k: int| 0 <= k < i ==> valid_id_text(#[trigger] ids@[k]@),
            forall|x: Seq<char>| set.deep_view().contains(x) <==> ids.deep_view().take(i as int).contains(x),
        decreases ids@.len() - i,
    {
        if !valid_id(ids[i].as_str()) {
            return Err(AppError::Planning(String::from_str("对话标识格式无效")));
        }
        let ghost before = set.deep_view();
        let ghost taken = ids.deep_view().take(i as int);
        let id = ids[i].clone();
        assert(id@ == ids@[i as int]@);
        let added = insert_sorted_id(&mut set, id);
        proof {
            assert(ids.deep_view()[i as int] == ids@[i as int]@);
            assert(ids.deep_view().take(i + 1) =~= taken.push(ids@[i as int]@));
            lemma_push_contains(taken, ids@[i as int]@);
            crate::text::lemma_count_before_bounds(before, ids@[i as int]@);
            lemma_insert_contains(before, count_before(before, ids@[i as int]@), ids@[i as int]@);
            assert forall|x: Seq<char>| set.deep_view().contains(x) <==> ids.deep_view().take(i + 1).contains(x) by {
                assert(before.contains(x) <==> taken.contains(x));
                if !added {
                    assert(before.contains(ids@[i as int]@));
                }
            }
        }
        i = i + 1;
    }
    assert(ids.deep_view().take(i as int) =~= ids.deep_view());
    Ok(set)
}

} // verus!

verus! {

/// The well-formed ids among array items that are strings, in order.
pub open spec fn valid_texts(items: Seq<JsonValue>) -> Seq<Seq<char>>
    decreases items.len(),
{
    if items.len() == 0 {
        Seq::<Seq<char>>::empty()
    } else {
        let prev = valid_texts(items.drop_last());
        match items.last() {
            JsonValue::Text(s) => if valid_id_text(s@) { prev.push(s@) } else { prev },
            _ => prev,
        }
    }
}

/// The ids listed by a member that is an array.
pub open spec fn array_ids(f: Option<JsonValue>) -> Seq<Seq<char>> {
    match f {
        Some(JsonValue::Array(items)) => valid_texts(items@),
        _ => Seq::<Seq<char>>::empty(),
    }
}

/// The sub-conversations a conversation payload names: the well-formed ids
/// of `subComposerIds`, then of `subagentComposerIds`.
pub open spec fn child_ids(v: JsonValue) -> Seq<Seq<char>> {
    array_ids(v.field("subComposerIds"@)) + array_ids(v.field("subagentComposerIds"@))
}

/// The owned set and the queue after meeting `children` in order: each id not
/// yet owned becomes owned and joins the end of the queue.
pub open spec fn absorb(owned: Seq<Seq<char>>, queue: Seq<Seq<char>>, children: Seq<Seq<char>>)
    -> (Seq<Seq<char>>, Seq<Seq<char>>)
    decreases children.len(),
{
    if children.len() == 0 {
        (owned, queue)
    } else {
        let c = children[0];
        if owned.contains(c) {
            absorb(owned, queue, children.drop_first())
        } else {
            absorb(owned.insert(count_before(owned, c), c), queue.push(c), children.drop_first())
        }
    }
}

/// Meeting `children` adds exactly them to the owned set; every id that
/// was queued stays queued, and each child not owned before joins the queue.
pub proof fn lemma_absorb(owned: Seq<Seq<char>>, queue: Seq<Seq<char>>, children: Seq<Seq<char>>)
    requires
        strictly_sorted(owned),
    ensures
        ({
            let (o2, q2) = absorb(owned, queue, children);
            &&& strictly_sorted(o2)
            &&& forall|x: Seq<char>| #[trigger] o2.contains(x) <==> (owned.contains(x) || children.contains(x))
            &&& forall|x: Seq<char>| queue.contains(x) ==> #[trigger] q2.contains(x)
            &&& forall|x: Seq<char>| children.contains(x) && !owned.contains(x) ==> #[trigger] q2.contains(x)
        }),
    decreases children.len(),
{
    if children.len() > 0 {
        let c = children[0];
        let rest = children.drop_first();
        assert forall|x: Seq<char>| children.contains(x) <==> (x == c || rest.contains(x)) by {
            if children.contains(x) && x != c {
                let k = choose|k: int| 0 <= k < children.len() && children[k] == x;
                assert(rest[k - 1] == x);
            }
            if rest.contains(x) {
                let k = choose|k: int| 0 <= k < rest.len() && rest[k] == x;
                assert(children[k + 1] == x);
            }
            if x == c {
                assert(children[0] == x);
            }
        }
        if owned.contains(c) {
            lemma_absorb(owned, queue, rest);
        } else {
            lemma_toggle(owned, c);
            let o1 = owned.insert(count_before(owned, c), c);
            let q1 = queue.push(c);
            assert forall|x: Seq<char>| queue.contains(x) implies q1.contains(x) by {
                let k = choose|k: int| 0 <= k < queue.len() && queue[k] == x;
                assert(q1[k] == x);
            }
            assert(q1[queue.len() as int] == c);
            lemma_absorb(o1, q1, rest);
        }
    }
}

/// The children reported so far for `id`.
pub open spec fn reported_children(reported: Map<Seq<char>, Seq<Seq<char>>>, id: Seq<char>) -> Seq<Seq<char>> {
    if reported.dom().contains(id) { reported[id] } else { Seq::<Seq<char>>::empty() }
}

/// The bookkeeping of a walk: every owned id is queued, handed out, or has
/// its children reported; every reported child is owned; and every owned id
/// was requested or reported as a child.
pub open spec fn walk_closed(
    owned: Seq<Seq<char>>,
    queue: Seq<Seq<char>>,
    pending: Set<Seq<char>>,
    reported: Map<Seq<char>, Seq<Seq<char>>>,
    requested: Seq<Seq<char>>,
) -> bool {
    &&& forall|x: Seq<char>| #[trigger] owned.contains(x) ==> queue.contains(x) || pending.contains(x)
        || reported.dom().contains(x)
    &&& forall|p: Seq<char>, c: Seq<char>| reported.dom().contains(p) && #[trigger] reported[p].contains(c)
        ==> owned.contains(c)
    &&& forall|x: Seq<char>| #[trigger] owned.contains(x) ==> requested.contains(x) || exists|p: Seq<char>|
        reported.dom().contains(p) && #[trigger] reported[p].contains(x)
}

proof fn lemma_concat_contains(a: Seq<Seq<char>>, b: Seq<Seq<char>>)
    ensures
        forall|x: Seq<char>| #[trigger] (a + b).contains(x) <==> (a.contains(x) || b.contains(x)),
{
    assert forall|x: Seq<char>| #[trigger] (a + b).contains(x) <==> (a.contains(x) || b.contains(x)) by {
        if (a + b).contains(x) {
            let k = choose|k: int| 0 <= k < (a + b).len() && (a + b)[k] == x;
            if k >= a.len() {
                assert(b[k - a.len()] == x);
            }
        }
        if a.contains(x) {
            let k = choose|k: int| 0 <= k < a.len() && a[k] == x;
            assert((a + b)[k] == x);
        }
        if b.contains(x) {
            let k = choose|k: int| 0 <= k < b.len() && b[k] == x;
            assert((a + b)[k + a.len()] == x);
        }
    }
}

/// Reporting the children `cs` of `id`, after they were absorbed, keeps the
/// bookkeeping of the walk.
proof fn lemma_report_keeps_closure(
    owned0: Seq<Seq<char>>,
    queue0: Seq<Seq<char>>,
    owned1: Seq<Seq<char>>,
    queue1: Seq<Seq<char>>,
    pending: Set<Seq<char>>,
    reported: Map<Seq<char>, Seq<Seq<char>>>,
    requested: Seq<Seq<char>>,
    id: Seq<char>,
    cs: Seq<Seq<char>>,
)
    requires
        walk_closed(owned0, queue0, pending, reported, requested),
        forall|x: Seq<char>| #[trigger] owned1.contains(x) <==> (owned0.contains(x) || cs.contains(x)),
        forall|x: Seq<char>| queue0.contains(x) ==> #[trigger] queue1.contains(x),
        forall|x: Seq<char>| cs.contains(x) && !owned0.contains(x) ==> #[trigger] queue1.contains(x),
    ensures
        walk_closed(
            owned1,
            queue1,
            pending.remove(id),
            reported.insert(id, reported_children(reported, id) + cs),
            requested,
        ),
{
    let old_children = reported_children(reported, id);
    let r1 = reported.insert(id, old_children + cs);
    let p1 = pending.remove(id);
    lemma_concat_contains(old_children, cs);
    assert forall|x: Seq<char>| #[trigger] owned1.contains(x) implies queue1.contains(x) || p1.contains(x)
        || r1.dom().contains(x) by {
        if x != id && !cs.contains(x) {
            assert(owned0.contains(x));
        }
    }
    assert forall|p: Seq<char>, c: Seq<char>| r1.dom().contains(p) && #[trigger] r1[p].contains(c) implies owned1.contains(c) by {
        if p == id {
            if old_children.contains(c) {
                assert(reported[p].contains(c));
            }
        } else {
            assert(reported[p].contains(c));
        }
    }
    assert forall|x: Seq<char>| #[trigger] owned1.contains(x) implies requested.contains(x) || exists|p: Seq<char>|
        r1.dom().contains(p) && #[trigger] r1[p].contains(x) by {
        if cs.contains(x) {
            assert(r1[id].contains(x));
        } else {
            assert(owned0.contains(x));
            if !requested.contains(x) {
                let p0 = choose|p: Seq<char>| reported.dom().contains(p) && #[trigger] reported[p].contains(x);
                if p0 == id {
                    assert(r1[id].contains(x));
                } else {
                    assert(r1[p0].contains(x));
                }
            }
        }
    }
}

/// A breadth-first walk from the requested conversations to every
/// sub-conversation they own. The runtime asks for the next id, reads its
/// payload and reports it; the walk ends when no id is left. Alongside, the
/// walk keeps (as ghost state) the children reported for each id and the
/// ids handed out whose payload was not reported yet.
pub struct OwnedIdsWalk {
    pub requested: Vec<String>,
    pub owned: Vec<String>,
    pub queue: Vec<String>,
    pub reported: Ghost<Map<Seq<char>, Seq<Seq<char>>>>,
    pub pending: Ghost<Set<Seq<char>>>,
}

impl OwnedIdsWalk {
    /// The walk's invariant (see `base_wf` and `closure_wf`).
    pub open spec fn wf(&self) -> bool {
        &&& self.base_wf()
        &&& self.closure_wf()
    }

    /// The owned ids ascending and unique, and both the requested and the
    /// queued ids owned.
    pub open spec fn base_wf(&self) -> bool {
        &&& strictly_sorted(self.owned.deep_view())
        &&& forall|i: int| 0 <= i < self.requested@.len() ==> self.owned.deep_view().contains(#[trigger] self.requested.deep_view()[i])
        &&& forall|i: int| 0 <= i < self.queue@.len() ==> self.owned.deep_view().contains(#[trigger] self.queue.deep_view()[i])
    }

    /// The walk's bookkeeping (see `walk_closed`).
    pub open spec fn closure_wf(&self) -> bool {
        walk_closed(
            self.owned.deep_view(),
            self.queue.deep_view(),
            self.pending@,
            self.reported@,
            self.requested.deep_view(),
        )
    }

    /// Starts from the normalized request: everything requested is owned and queued.
    pub fn start(requested: &Vec<String>) -> (r: OwnedIdsWalk)
        requires
            strictly_sorted(requested.deep_view()),
        ensures
            r.wf(),
            r.requested.deep_view() == requested.deep_view(),
            r.owned.deep_view() == requested.deep_view(),
            r.queue.deep_view() == requested.deep_view(),
            r.reported@ == Map::<Seq<char>, Seq<Seq<char>>>::empty(),
            r.pending@ == Set::<Seq<char>>::empty(),
    {
        let r = OwnedIdsWalk {
            requested: clone_strings(requested),
            owned: clone_strings(requested),
            queue: clone_strings(requested),
            reported: Ghost(Map::empty()),
            pending: Ghost(Set::empty()),
        };
        assert forall|i: int| 0 <= i < r.requested@.len() implies r.owned.deep_view().contains(#[trigger] r.requested.deep_view()[i]) by {
            assert(r.owned.deep_view()[i] == r.requested.deep_view()[i]);
        }
        assert forall|i: int| 0 <= i < r.queue@.len() implies r.owned.deep_view().contains(#[trigger] r.queue.deep_view()[i]) by {
            assert(r.owned.deep_view()[i] == r.queue.deep_view()[i]);
        }
        r
    }

    /// The next id to read, taken from the front of the queue.
    pub fn next_id(&mut self) -> (r: Option<String>)
        requires
            old(self).wf(),
        ensures
            final(self).wf(),
            final(self).requested.deep_view() == old(self).requested.deep_view(),
            final(self).owned.deep_view() == old(self).owned.deep_view(),
            final(self).reported@ == old(self).reported@,
            match r {
                Some(id) => old(self).queue@.len() > 0 && id@ == old(self).queue.deep_view()[0]
                    && final(self).queue.deep_view() == old(self).queue.deep_view().drop_first()
                    && final(self).pending@ == old(self).pending@.insert(id@),
                None => old(self).queue@.len() == 0 && final(self).queue.deep_view() == old(self).queue.deep_view()
                    && final(self).pending@ == old(self).pending@,
            },
    {
        if self.queue.len() == 0 {
            return None;
        }
        let ghost q = self.queue.deep_view();
        let id = self.queue.remove(0);
        self.pending = Ghost(self.pending@.insert(id@));
        assert(self.queue.deep_view() =~= q.drop_first());
        assert forall|x: Seq<char>| q.contains(x) implies self.queue.deep_view().contains(x) || x == id@ by {
            let k = choose|k: int| 0 <= k < q.len() && q[k] == x;
            if k > 0 {
                assert(self.queue.deep_view()[k - 1] == x);
            }
        }
        assert forall|i: int| 0 <= i < self.queue@.len() implies self.owned.deep_view().contains(#[trigger] self.queue.deep_view()[i]) by {
            assert(self.queue.deep_view()[i] == q[i + 1]);
        }
        Some(id)
    }

    /// Whether `id` was requested.
    fn was_requested(&self, id: &str) -> (r: bool)
        ensures
            r == self.requested.deep_view().contains(id@),
    {
        let target = String::from_str(id);
        let mut i: usize = 0;
        while i < self.requested.len()
            invariant
                i <= self.requested@.len(),
                target@ == id@,
                forall|k: int| 0 <= k < i ==> self.requested.deep_view()[k] != id@,
            decreases self.requested@.len() - i,
        {
            if self.requested[i] == target {
                assert(self.requested.deep_view()[i as int] == id@);
                return true;
            }
            i = i + 1;
        }
        false
    }

    /// Reports what was read for `id`: `None` when no payload row exists,
    /// `Some(None)` when the payload is not valid JSON, otherwise the parsed
    /// payload. A requested conversation without payload and any invalid
    /// payload stop the walk with an error; a payload adds its children
    /// (see `absorb`).
    pub fn record(&mut self, id: &str, payload: Option<Option<&JsonValue>>) -> (r: Result<(), AppError>)
        requires
            old(self).wf(),
        ensures
            final(self).wf(),
            final(self).requested.deep_view() == old(self).requested.deep_view(),
            match payload {
                None => if old(self).requested.deep_view().contains(id@) {
                    r matches Err(AppError::Planning(m)) && m@ == "缺少精确正文状态 composerData:"@ + id@
                } else {
                    r is Ok && final(self).owned.deep_view() == old(self).owned.deep_view()
                        && final(self).queue.deep_view() == old(self).queue.deep_view()
                },
                Some(None) => r matches Err(AppError::Planning(m)) && m@ == "composerData:"@ + id@ + " 不是有效 JSON"@,
                Some(Some(v)) => r is Ok && (final(self).owned.deep_view(), final(self).queue.deep_view())
                    == absorb(old(self).owned.deep_view(), old(self).queue.deep_view(), child_ids(*v)),
            },
            r is Ok ==> final(self).reported@ == old(self).reported@.insert(id@, reported_children(old(self).reported@, id@)
                + match payload {
                    Some(Some(v)) => child_ids(*v),
                    _ => Seq::<Seq<char>>::empty(),
                }) && final(self).pending@ == old(self).pending@.remove(id@),
            r is Err ==> final(self).reported@ == old(self).reported@ && final(self).pending@ == old(self).pending@,
    {
        match payload {
            None => {
                if self.was_requested(id) {
                    let mut m = String::from_str("缺少精确正文状态 composerData:");
                    m.append(id);
                    return Err(AppError::Planning(m));
                }
                proof {
                    lemma_report_keeps_closure(
                        self.owned.deep_view(),
                        self.queue.deep_view(),
                        self.owned.deep_view(),
                        self.queue.deep_view(),
                        self.pending@,
                        self.reported@,
                        self.requested.deep_view(),
                        id@,
                        Seq::<Seq<char>>::empty(),
                    );
                }
                self.reported = Ghost(
                    self.reported@.insert(id@, reported_children(self.reported@, id@) + Seq::<Seq<char>>::empty()),
                );
                self.pending = Ghost(self.pending@.remove(id@));
                Ok(())
            },
            Some(None) => {
                let mut m = String::from_str("composerData:");
                m.append(id);
                m.append(" 不是有效 JSON");
                Err(AppError::Planning(m))
            },
            Some(Some(v)) => {
                let mut children = array_id_list(v.get("subComposerIds"));
                let more = array_id_list(v.get("subagentComposerIds"));
                let ghost first = children.deep_view();
                let mut k: usize = 0;
                while k < more.len()
                    invariant
                        k <= more@.len(),
                        children.deep_view() =~= first + more.deep_view().take(k as int),
                    decreases more@.len() - k,
                {
                    let ghost before = children.deep_view();
                    children.push(more[k].clone());
                    assert(children.deep_view() =~= before.push(more.deep_view()[k as int]));
                    k = k + 1;
                }
                assert(more.deep_view().take(k as int) =~= more.deep_view());
                let ghost o0 = self.owned.deep_view();
                let ghost q0 = self.queue.deep_view();
                proof {
                    lemma_absorb(o0, q0, children.deep_view());
                }
                self.absorb_children(&children);
                proof {
                    let q2 = absorb(o0, q0, children.deep_view()).1;
                    assert(self.queue.deep_view() == q2);
                    assert forall|x: Seq<char>| q0.contains(x) implies #[trigger] self.queue.deep_view().contains(x) by {
                        assert(q2.contains(x));
                    }
                    lemma_report_keeps_closure(
                        o0,
                        q0,
                        self.owned.deep_view(),
                        self.queue.deep_view(),
                        self.pending@,
                        self.reported@,
                        self.requested.deep_view(),
                        id@,
                        children.deep_view(),
                    );
                }
                self.reported = Ghost(
                    self.reported@.insert(id@, reported_children(self.reported@, id@) + children.deep_view()),
                );
                self.pending = Ghost(self.pending@.remove(id@));
                Ok(())
            },
        }
    }

    fn absorb_children(&mut self, children: &Vec<String>)
        requires
            old(self).base_wf(),
        ensures
            final(self).base_wf(),
            final(self).requested.deep_view() == old(self).requested.deep_view(),
            final(self).reported == old(self).reported,
            final(self).pending == old(self).pending,
            (final(self).owned.deep_view(), final(self).queue.deep_view())
                == absorb(old(self).owned.deep_view(), old(self).queue.deep_view(), children.deep_view()),
    {
        let ghost cs = children.deep_view();
        let ghost goal = absorb(self.owned.deep_view(), self.queue.deep_view(), cs);
        let mut k: usize = 0;
        assert(cs.skip(0) =~= cs);
        while k < children.len()
            invariant
                k <= cs.len(),
                cs == children.deep_view(),
                self.base_wf(),
                self.requested.deep_view() == old(self).requested.deep_view(),
                self.reported == old(self).reported,
                self.pending == old(self).pending,
                goal == absorb(self.owned.deep_view(), self.queue.deep_view(), cs.skip(k as int)),
            decreases cs.len() - k,
        {
            let c = children[k].clone();
            assert(cs.skip(k as int)[0] == c@);
            assert(cs.skip(k as int).drop_first() =~= cs.skip(k + 1));
            let ghost owned0 = self.owned.deep_view();
            let ghost queue0 = self.queue.deep_view();
            let added = insert_sorted_id(&mut self.owned, c.clone());
            if added {
                let ghost qb = self.queue.deep_view();
                self.queue.push(c);
                assert(self.queue.deep_view() =~= qb.push(c@));
            }
            proof {
                crate::text::lemma_count_before_bounds(owned0, c@);
                lemma_insert_contains(owned0, count_before(owned0, c@), c@);
                assert forall|i: int| 0 <= i < self.requested@.len() implies self.owned.deep_view().contains(#[trigger] self.requested.deep_view()[i]) by {
                    assert(owned0.contains(self.requested.deep_view()[i]));
                }
                assert forall|i: int| 0 <= i < self.queue@.len() implies self.owned.deep_view().contains(#[trigger] self.queue.deep_view()[i]) by {
                    if i < queue0.len() {
                        assert(self.queue.deep_view()[i] == queue0[i]);
                        assert(owned0.contains(queue0[i]));
                    } else {
                        assert(self.queue.deep_view()[i] == c@);
                    }
                }
            }
            k = k + 1;
        }
    }

    /// Reports the stored bytes of `id` (`None` when no payload row exists):
    /// as `record` with the document those bytes hold.
    pub fn record_raw(&mut self, id: &str, raw: Option<&[u8]>) -> (r: Result<(), AppError>)
        requires
            old(self).wf(),
        ensures
            final(self).wf(),
            final(self).requested.deep_view() == old(self).requested.deep_view(),
            match raw {
                None => if old(self).requested.deep_view().contains(id@) {
                    r matches Err(AppError::Planning(m)) && m@ == "缺少精确正文状态 composerData:"@ + id@
                } else {
                    r is Ok && final(self).owned.deep_view() == old(self).owned.deep_view()
                        && final(self).queue.deep_view() == old(self).queue.deep_view()
                },
                Some(b) => match json_document(b@) {
                    None => r matches Err(AppError::Planning(m)) && m@ == "composerData:"@ + id@ + " 不是有效 JSON"@,
                    Some(v) => r is Ok && (final(self).owned.deep_view(), final(self).queue.deep_view())
                        == absorb(old(self).owned.deep_view(), old(self).queue.deep_view(), child_ids(v)),
                },
            },
            r is Ok ==> final(self).reported@ == old(self).reported@.insert(id@, reported_children(old(self).reported@, id@)
                + match raw {
                    Some(b) => match json_document(b@) {
                        Some(v) => child_ids(v),
                        None => Seq::<Seq<char>>::empty(),
                    },
                    None => Seq::<Seq<char>>::empty(),
                }) && final(self).pending@ == old(self).pending@.remove(id@),
            r is Err ==> final(self).reported@ == old(self).reported@ && final(self).pending@ == old(self).pending@,
    {
        match raw {
            None => self.record(id, None),
            Some(b) => {
                let parsed = parse_json(b);
                match &parsed {
                    Some(v) => self.record(id, Some(Some(v))),
                    None => self.record(id, Some(None)),
                }
            },
        }
    }

    /// The owned ids, ascending.
    pub fn owned_ids(&self) -> (r: Vec<String>)
        ensures
            r.deep_view() == self.owned.deep_view(),
    {
        clone_strings(&self.owned)
    }
}

/// A finished walk owns the requested conversations closed under the
/// sub-conversation links of their payloads: once the queue is empty and
/// every id handed out was reported, every requested id is owned, every
/// owned id had its payload's children reported, every reported child is
/// owned, and every owned id was requested or reported as a child.
pub proof fn law_finished_walk_is_closed(w: OwnedIdsWalk)
    requires
        w.wf(),
        w.queue@.len() == 0,
        w.pending@ == Set::<Seq<char>>::empty(),
    ensures
        forall|x: Seq<char>| #[trigger] w.requested.deep_view().contains(x) ==> w.owned.deep_view().contains(x),
        forall|x: Seq<char>| #[trigger] w.owned.deep_view().contains(x) ==> w.reported@.dom().contains(x),
        forall|p: Seq<char>, c: Seq<char>| w.reported@.dom().contains(p) && #[trigger] w.reported@[p].contains(c)
            ==> w.owned.deep_view().contains(c),
        forall|x: Seq<char>| #[trigger] w.owned.deep_view().contains(x) ==> w.requested.deep_view().contains(x)
            || exists|p: Seq<char>| w.reported@.dom().contains(p) && #[trigger] w.reported@[p].contains(x),
{
    assert forall|x: Seq<char>| #[trigger] w.requested.deep_view().contains(x) implies w.owned.deep_view().contains(x) by {
        let k = choose|k: int| 0 <= k < w.requested.deep_view().len() && w.requested.deep_view()[k] == x;
        assert(w.owned.deep_view().contains(w.requested.deep_view()[k]));
    }
    assert forall|x: Seq<char>| #[trigger] w.owned.deep_view().contains(x) implies w.reported@.dom().contains(x) by {
        assert(!w.queue.deep_view().contains(x));
    }
}

/// The well-formed string ids of a member that is an array.
fn array_id_list(f: Option<&JsonValue>) -> (r: Vec<String>)
    ensures
        r.deep_view() == array_ids(match f {
            Some(v) => Some(*v),
            None => None,
        }),
{
    let mut r: Vec<String> = Vec::new();
    match f {
        Some(JsonValue::Array(items)) => {
            let mut i: usize = 0;
            while i < items.len()
                invariant
                    i <= items@.len(),
                    r.deep_view() == valid_texts(items@.take(i as int)),
                decreases items@.len() - i,
            {
                assert(items@.take(i + 1).drop_last() =~= items@.take(i as int));
                match &items[i] {
                    JsonValue::Text(s) => {
                        if valid_id(s.as_str()) {
                            let ghost before = r.deep_view();
                            r.push(s.clone());
                            assert(r.deep_view() =~= before.push(s@));
                        }
                    },
                    _ => {},
                }
                i = i + 1;
            }
            assert(items@.take(i as int) =~= items@);
        },
        _ => {
            assert(r.deep_view() =~= Seq::<Seq<char>>::empty());
        },
    }
    r
}

} // verus!

verus! {

/// The two key-value tables of `state.vscdb`.
#[derive(Clone, Copy, Debug, PartialEq, Eq, Structural)]
pub enum StateTable {
    CursorDiskKv,
    ItemTable,
}

/// How a state key relates to the conversations of a plan.
#[derive(Clone, Copy, Debug, PartialEq, Eq, Structural)]
pub enum KeyClass {
    /// A key of a known kind that belongs to one of the conversations.
    Owned,
    /// A key of unknown kind that mentions one of the conversations.
    Foreign,
    /// Any other key.
    Unrelated,
}

/// `key` is a key of a known kind of `table` for one of the conversations `owned`.
pub open spec fn owned_key(table: StateTable, key: Seq<char>, owned: Seq<Seq<char>>) -> bool {
    exists|i: int| 0 <= i < owned.len() && match table {
        StateTable::CursorDiskKv => cursor_key_of(key, #[trigger] owned[i]),
        StateTable::ItemTable => item_key_of(key, owned[i]),
    }
}

/// The class of `key` of `table` for the conversations `owned`.
pub open spec fn key_class(table: StateTable, key: Seq<char>, owned: Seq<Seq<char>>) -> KeyClass {
    if owned_key(table, key, owned) {
        KeyClass::Owned
    } else if exists|i: int| 0 <= i < owned.len() && contains_text(key, #[trigger] owned[i]) {
        KeyClass::Foreign
    } else {
        KeyClass::Unrelated
    }
}

proof fn lemma_starts_with_concat(a: Seq<char>, b: Seq<char>)
    ensures
        starts_with(a + b, a),
{
    assert((a + b).subrange(0, a.len() as int) =~= a);
}

proof fn lemma_ends_with_concat(a: Seq<char>, b: Seq<char>)
    ensures
        ends_with(a + b, b),
{
    assert((a + b).subrange(a.len() as int, (a + b).len() as int) =~= b);
}

/// Every row that the original layout names after a conversation is owned
/// by it, whatever follows the conversation's id: in `cursorDiskKV` its
/// payload, its row heights, and every bubble, checkpoint, inline-diff and
/// file-content row under `<prefix><id>:`; in `ItemTable` its panel
/// visibility and full-screen rows and the tab state of any workspace. Such
/// rows are removed with the conversation, never left as foreign keys.
pub proof fn law_conversation_rows_are_owned(
    owned: Seq<Seq<char>>,
    id: Seq<char>,
    suffix: Seq<char>,
    workspace: Seq<char>,
)
    requires
        owned.contains(id),
    ensures
        key_class(StateTable::CursorDiskKv, "composerData:"@ + id, owned) == KeyClass::Owned,
        key_class(StateTable::CursorDiskKv, "composerVirtualRowHeights:"@ + id, owned) == KeyClass::Owned,
        key_class(StateTable::CursorDiskKv, "bubbleId:"@ + id + ":"@ + suffix, owned) == KeyClass::Owned,
        key_class(StateTable::CursorDiskKv, "checkpointId:"@ + id + ":"@ + suffix, owned) == KeyClass::Owned,
        key_class(StateTable::CursorDiskKv, "codeBlockPartialInlineDiffFates:"@ + id + ":"@ + suffix, owned)
            == KeyClass::Owned,
        key_class(StateTable::CursorDiskKv, "ofsContent:"@ + id + ":"@ + suffix, owned) == KeyClass::Owned,
        key_class(StateTable::ItemTable, "glass/cursor.editorPanelVisibility.agent/"@ + id, owned)
            == KeyClass::Owned,
        key_class(StateTable::ItemTable, "cursor/glass.editorPanelFullscreen/"@ + id, owned) == KeyClass::Owned,
        key_class(
            StateTable::ItemTable,
            "cursor/glass.tabs.v2/"@ + workspace + "/"@ + id + "/state.json"@,
            owned,
        ) == KeyClass::Owned,
{
    let i = choose|i: int| 0 <= i < owned.len() && owned[i] == id;
    lemma_starts_with_concat("bubbleId:"@ + id + ":"@, suffix);
    lemma_starts_with_concat("checkpointId:"@ + id + ":"@, suffix);
    lemma_starts_with_concat("codeBlockPartialInlineDiffFates:"@ + id + ":"@, suffix);
    lemma_starts_with_concat("ofsContent:"@ + id + ":"@, suffix);
    let tab = "cursor/glass.tabs.v2/"@ + workspace + "/"@ + id + "/state.json"@;
    assert(tab =~= "cursor/glass.tabs.v2/"@ + (workspace + "/"@ + id + "/state.json"@));
    lemma_starts_with_concat("cursor/glass.tabs.v2/"@, workspace + "/"@ + id + "/state.json"@);
    assert(tab =~= (("cursor/glass.tabs.v2/"@ + workspace) + ("/"@ + id + "/state.json"@)));
    lemma_ends_with_concat("cursor/glass.tabs.v2/"@ + workspace, "/"@ + id + "/state.json"@);
    assert(cursor_key_of("composerData:"@ + id, owned[i]));
    assert(cursor_key_of("composerVirtualRowHeights:"@ + id, owned[i]));
    assert(cursor_key_of("bubbleId:"@ + id + ":"@ + suffix, owned[i]));
    assert(cursor_key_of("checkpointId:"@ + id + ":"@ + suffix, owned[i]));
    assert(cursor_key_of("codeBlockPartialInlineDiffFates:"@ + id + ":"@ + suffix, owned[i]));
    assert(cursor_key_of("ofsContent:"@ + id + ":"@ + suffix, owned[i]));
    assert(item_key_of("glass/cursor.editorPanelVisibility.agent/"@ + id, owned[i]));
    assert(item_key_of("cursor/glass.editorPanelFullscreen/"@ + id, owned[i]));
    assert(item_key_of(tab, owned[i]));
}

/// Classifies a state key (see `key_class`). Owned keys are removed by the
/// cleanup; foreign keys are only counted, never removed.
pub fn classify_state_key(table: StateTable, key: &str, owned: &Vec<String>) -> (r: KeyClass)
    ensures
        r == key_class(table, key@, owned.deep_view()),
{
    let known = match table {
        StateTable::CursorDiskKv => known_cursor_key(key, owned.as_slice()),
        StateTable::ItemTable => known_item_key(key, owned.as_slice()),
    };
    proof {
        assert forall|i: int| 0 <= i < owned@.len() implies owned.deep_view()[i] == (#[trigger] owned@[i])@ by {}
    }
    if known {
        return KeyClass::Owned;
    }
    assert(!owned_key(table, key@, owned.deep_view()));
    let k = chars_of(key);
    let mut i: usize = 0;
    while i < owned.len()
        invariant
            i <= owned@.len(),
            k@ == key@,
            !owned_key(table, key@, owned.deep_view()),
            forall|j: int| 0 <= j < i ==> !contains_text(key@, #[trigger] owned.deep_view()[j]),
        decreases owned@.len() - i,
    {
        let id = chars_of(owned[i].as_str());
        if chars_contain(k.as_slice(), id.as_slice()) {
            assert(contains_text(key@, owned.deep_view()[i as int]));
            return KeyClass::Foreign;
        }
        i = i + 1;
    }
    KeyClass::Unrelated
}

/// The label under which a foreign key is reported: the table, `/`, the key.
pub fn foreign_key_label(table: StateTable, key: &str) -> (r: String)
    ensures
        r@ == match table {
            StateTable::CursorDiskKv => "cursorDiskKV"@,
            StateTable::ItemTable => "ItemTable"@,
        } + "/"@ + key@,
{
    let mut r = match table {
        StateTable::CursorDiskKv => String::from_str("cursorDiskKV"),
        StateTable::ItemTable => String::from_str("ItemTable"),
    };
    r.append("/");
    r.append(key);
    r
}

/// The label of a foreign key (see `foreign_key_label`).
pub open spec fn foreign_label(table: StateTable, key: Seq<char>) -> Seq<char> {
    let name = match table {
        StateTable::CursorDiskKv => "cursorDiskKV"@,
        StateTable::ItemTable => "ItemTable"@,
    };
    name + "/"@ + key
}

/// The tally of a scan over the state tables: how many owned rows were seen,
/// and the labels of the foreign keys, each once, ascending.
pub struct KeyScan {
    pub owned_rows: usize,
    pub foreign: Vec<String>,
}

impl KeyScan {
    /// The foreign labels stay ascending and unique.
    pub open spec fn wf(&self) -> bool {
        strictly_sorted(self.foreign.deep_view())
    }

    /// A scan that has seen nothing.
    pub fn new() -> (r: KeyScan)
        ensures
            r.wf(),
            r.owned_rows == 0,
            r.foreign@.len() == 0,
    {
        let r = KeyScan { owned_rows: 0, foreign: Vec::new() };
        assert(r.foreign.deep_view() =~= Seq::<Seq<char>>::empty());
        r
    }

    /// Takes one key of `table` into the tally and tells whether it is owned
    /// (and so belongs to the plan): an owned key is counted, a foreign one
    /// adds its label, any other changes nothing.
    pub fn record(&mut self, table: StateTable, key: &str, owned: &Vec<String>) -> (is_owned: bool)
        requires
            old(self).wf(),
            old(self).owned_rows < usize::MAX,
        ensures
            final(self).wf(),
            is_owned == (key_class(table, key@, owned.deep_view()) == KeyClass::Owned),
            final(self).owned_rows == old(self).owned_rows + if is_owned { 1int } else { 0int },
            forall|x: Seq<char>| final(self).foreign.deep_view().contains(x) <==> (old(self).foreign.deep_view().contains(x)
                || (key_class(table, key@, owned.deep_view()) == KeyClass::Foreign && x == foreign_label(table, key@))),
    {
        match classify_state_key(table, key, owned) {
            KeyClass::Owned => {
                self.owned_rows = self.owned_rows + 1;
                true
            },
            KeyClass::Foreign => {
                let label = foreign_key_label(table, key);
                let ghost before = self.foreign.deep_view();
                let ghost l = label@;
                let added = insert_sorted_id(&mut self.foreign, label);
                proof {
                    if added {
                        crate::text::lemma_count_before_bounds(before, l);
                        lemma_insert_contains(before, count_before(before, l), l);
                    }
                }
                false
            },
            KeyClass::Unrelated => false,
        }
    }
}

/// How long an approved plan stays valid, in nanoseconds (ten minutes).
pub const PLAN_LIFETIME_NANOS: u128 = 600_000_000_000;

/// Whether a plan created at `created_at` is too old at `now` (both in
/// nanoseconds since the Unix epoch); a clock that went backwards counts as
/// no time elapsed.
pub fn plan_expired(created_at: u128, now: u128) -> (r: bool)
    ensures
        r == (now > created_at && now - created_at > PLAN_LIFETIME_NANOS),
{
    now > created_at && now - created_at > PLAN_LIFETIME_NANOS
}

/// What the search database holds of the owned conversations: their rows,
/// full-text rows and search candidates.
#[derive(Clone, Copy, Debug)]
pub struct SearchCounts {
    pub conversations: usize,
    pub fts_rows: usize,
    pub candidates: usize,
}

/// The total of `sizes`.
pub open spec fn total_size(sizes: Seq<u64>) -> int
    decreases sizes.len(),
{
    if sizes.len() == 0 { 0 } else { total_size(sizes.drop_last()) + sizes.last() }
}

/// The impact of a plan over `owned` that removes `transcript_dirs`, whose
/// sizes are `transcript_sizes`. Without a search database each owned
/// conversation counts once and there are no full-text rows or candidates.
pub fn plan_impact(
    search: Option<SearchCounts>,
    owned: &Vec<String>,
    state_rows: usize,
    headers: usize,
    unknown_keys: usize,
    transcript_dirs: &Vec<String>,
    transcript_sizes: &Vec<u64>,
) -> (r: Impact)
    requires
        transcript_sizes@.len() == transcript_dirs@.len(),
        total_size(transcript_sizes@) <= u64::MAX,
    ensures
        r.conversations == match search {
            Some(c) => c.conversations,
            None => owned@.len() as usize,
        },
        r.fts_rows == match search {
            Some(c) => c.fts_rows,
            None => 0usize,
        },
        r.candidates == match search {
            Some(c) => c.candidates,
            None => 0usize,
        },
        r.state_rows == state_rows,
        r.headers == headers,
        r.unknown_keys == unknown_keys,
        r.transcript_dirs == transcript_dirs@.len(),
        r.transcript_bytes == total_size(transcript_sizes@),
{
    let mut bytes: u64 = 0;
    let mut i: usize = 0;
    while i < transcript_sizes.len()
        invariant
            i <= transcript_sizes@.len(),
            total_size(transcript_sizes@) <= u64::MAX,
            bytes == total_size(transcript_sizes@.take(i as int)),
        decreases transcript_sizes@.len() - i,
    {
        proof {
            assert(transcript_sizes@.take(i + 1).drop_last() =~= transcript_sizes@.take(i as int));
            lemma_total_size_prefix(transcript_sizes@, i + 1);
        }
        bytes = bytes + transcript_sizes[i];
        i = i + 1;
    }
    assert(transcript_sizes@.take(i as int) =~= transcript_sizes@);
    let (conversations, fts_rows, candidates) = match search {
        Some(c) => (c.conversations, c.fts_rows, c.candidates),
        None => (owned.len(), 0, 0),
    };
    Impact {
        conversations,
        fts_rows,
        candidates,
        state_rows,
        headers,
        transcript_dirs: transcript_dirs.len(),
        transcript_bytes: bytes,
        unknown_keys,
    }
}

proof fn lemma_total_size_prefix(sizes: Seq<u64>, n: int)
    requires
        0 <= n <= sizes.len(),
    ensures
        total_size(sizes.take(n)) <= total_size(sizes),
    decreases sizes.len(),
{
    if n < sizes.len() {
        assert(sizes.drop_last().take(n) =~= sizes.take(n));
        lemma_total_size_prefix(sizes.drop_last(), n);
    } else {
        assert(sizes.take(n) =~= sizes);
    }
}

/// Whether a plan rebuilt just before execution still matches the approved
/// one: same fingerprint and same impact.
pub fn plan_unchanged(approved: &DeletePlan, fresh: &DeletePlan) -> (r: bool)
    ensures
        r == (approved.id == fresh.id && approved.impact == fresh.impact),
{
    approved.id == fresh.id && approved.impact == fresh.impact
}

/// The receipt of a verified cleanup of `plan`.
pub fn receipt_for(plan: &DeletePlan, started_at: u128, ended_at: u128) -> (r: Receipt)
    requires
        plan.impact.state_rows + plan.impact.headers <= usize::MAX,
    ensures
        r == (Receipt {
            started_at,
            ended_at,
            deleted_conversations: plan.impact.conversations,
            deleted_state_rows: (plan.impact.state_rows + plan.impact.headers) as usize,
            deleted_transcript_dirs: plan.impact.transcript_dirs,
            verified: true,
        }),
{
    Receipt {
        started_at,
        ended_at,
        deleted_conversations: plan.impact.conversations,
        deleted_state_rows: plan.impact.state_rows + plan.impact.headers,
        deleted_transcript_dirs: plan.impact.transcript_dirs,
        verified: true,
    }
}

/// The count check inside the delete transaction: no row may be left for
/// any requested conversation.
pub fn remaining_rows_verdict(remaining: &Vec<i64>) -> (r: Result<(), AppError>)
    ensures
        match r {
            Ok(()) => forall|i: int| 0 <= i < remaining@.len() ==> remaining@[i] == 0,
            Err(e) => (exists|i: int| 0 <= i < remaining@.len() && remaining@[i] != 0) && (e matches AppError::Execution(
                m,
            ) && m@ == "事务内记录数量校验失败"@),
        },
{
    let mut i: usize = 0;
    while i < remaining.len()
        invariant
            i <= remaining@.len(),
            forall|k: int| 0 <= k < i ==> remaining@[k] == 0,
        decreases remaining@.len() - i,
    {
        if remaining[i] != 0 {
            return Err(AppError::Execution(String::from_str("事务内记录数量校验失败")));
        }
        i = i + 1;
    }
    Ok(())
}

/// The verdict inside the delete transaction, from the number of rows left
/// for each requested conversation and the integrity checks of the attached
/// databases: any row left, then any failed check, rolls the transaction back.
pub fn transaction_verdict(remaining: &Vec<i64>, state_check: &str, search_ok: bool) -> (r: Result<(), AppError>)
    ensures
        match r {
            Ok(()) => (forall|i: int| 0 <= i < remaining@.len() ==> remaining@[i] == 0) && state_check@ == "ok"@
                && search_ok,
            Err(e) => if exists|i: int| 0 <= i < remaining@.len() && remaining@[i] != 0 {
                e matches AppError::Execution(m) && m@ == "事务内记录数量校验失败"@
            } else {
                (state_check@ != "ok"@ || !search_ok) && (e matches AppError::Execution(m)
                    && m@ == "事务内数据库完整性校验失败"@)
            },
        },
{
    match remaining_rows_verdict(remaining) {
        Ok(()) => {},
        Err(e) => {
            return Err(e);
        },
    }
    let ok = String::from_str("ok");
    let st = String::from_str(state_check);
    if st != ok || !search_ok {
        return Err(AppError::Execution(String::from_str("事务内数据库完整性校验失败")));
    }
    Ok(())
}

/// Whether every requested conversation is gone after the cleanup; a lookup
/// that failed (`None`) counts as still present.
pub fn all_removed(still_present: &Vec<Option<bool>>) -> (r: bool)
    ensures
        r == forall|i: int| 0 <= i < still_present@.len() ==> still_present@[i] == Some(false),
{
    let mut i: usize = 0;
    while i < still_present.len()
        invariant
            i <= still_present@.len(),
            forall|k: int| 0 <= k < i ==> still_present@[k] == Some(false),
        decreases still_present@.len() - i,
    {
        match still_present[i] {
            Some(false) => {},
            _ => {
                return false;
            },
        }
        i = i + 1;
    }
    true
}

/// Whether every requested conversation was found in the search database;
/// a lookup that failed (`None`) counts as not found.
pub fn requested_present(found: &Vec<Option<bool>>) -> (r: Result<(), AppError>)
    ensures
        match r {
            Ok(()) => forall|i: int| 0 <= i < found@.len() ==> found@[i] == Some(true),
            Err(e) => (exists|i: int| 0 <= i < found@.len() && found@[i] != Some(true)) && (e matches AppError::Planning(
                m,
            ) && m@ == "搜索库中有选中对话已经不存在"@),
        },
{
    let mut i: usize = 0;
    while i < found.len()
        invariant
            i <= found@.len(),
            forall|k: int| 0 <= k < i ==> found@[k] == Some(true),
        decreases found@.len() - i,
    {
        match found[i] {
            Some(true) => {},
            _ => {
                return Err(AppError::Planning(String::from_str("搜索库中有选中对话已经不存在")));
            },
        }
        i = i + 1;
    }
    Ok(())
}

/// A transcript folder may be removed only when, below the projects root,
/// its path is `<project>/agent-transcripts/<id>` for an allowed id.
pub open spec fn transcript_parts_safe(parts: Seq<Seq<char>>, allowed: Seq<Seq<char>>) -> bool {
    parts.len() == 3 && parts[1] == "agent-transcripts"@ && allowed.contains(parts[2])
}

/// Whether `list` holds `item`.
pub fn list_contains(list: &Vec<String>, item: &String) -> (r: bool)
    ensures
        r == list.deep_view().contains(item@),
{
    let ghost lv = list.deep_view();
    let mut i: usize = 0;
    while i < list.len()
        invariant
            i <= list@.len(),
            lv == list.deep_view(),
            forall|k: int| 0 <= k < i ==> lv[k] != item@,
        decreases list@.len() - i,
    {
        if list[i] == *item {
            assert(lv[i as int] == item@);
            return true;
        }
        i = i + 1;
    }
    false
}

/// Judges where a transcript folder resolved to: `parts` are the components
/// of its canonical path below the canonical projects root, `None` when it
/// lies outside the root. `shown` is the path as given, for the message.
pub fn check_transcript_target(parts: Option<&Vec<String>>, allowed: &Vec<String>, shown: &str) -> (r: Result<(), AppError>)
    ensures
        match r {
            Ok(()) => parts matches Some(p) && transcript_parts_safe(p.deep_view(), allowed.deep_view()),
            Err(e) => match parts {
                None => e matches AppError::Execution(m) && m@ == "transcript 目标逃逸白名单"@,
                Some(p) => !transcript_parts_safe(p.deep_view(), allowed.deep_view()) && (e matches AppError::Execution(
                    m,
                ) && m@ == "transcript 路径结构不安全："@ + shown@),
            },
        },
{
    let p = match parts {
        None => {
            return Err(AppError::Execution(String::from_str("transcript 目标逃逸白名单")));
        },
        Some(p) => p,
    };
    let ghost pv = p.deep_view();
    let mut safe = false;
    if p.len() == 3 {
        assert(pv[1] == p@[1]@ && pv[2] == p@[2]@);
        let marker = String::from_str("agent-transcripts");
        if p[1] == marker {
            safe = list_contains(allowed, &p[2]);
        }
    }
    if safe {
        Ok(())
    } else {
        let mut m = String::from_str("transcript 路径结构不安全：");
        m.append(shown);
        Err(AppError::Execution(m))
    }
}

} // verus!
