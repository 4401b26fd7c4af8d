//! The short preview of a conversation: its first few user and assistant
//! messages, read from the conversation payload.

use vstd::prelude::*;
use crate::json::{member, JsonMember, JsonValue};
use crate::text::{chars_of, join_strings, joined, prefix_chars, replace_char, replace_chars,
    string_from_chars, take_chars};

verus! {

/// At most this many messages go into a preview.
pub const PREVIEW_LINES: usize = 4;

/// The speaker of an object: its `role` member, or its `type` member when it
/// has no `role`, kept only when it is the string `user` or `assistant`.
pub open spec fn preview_role(members: Seq<JsonMember>) -> Option<Seq<char>> {
    let named = if member(members, "role"@) is Some {
        member(members, "role"@)
    } else {
        member(members, "type"@)
    };
    match named {
        Some(JsonValue::Text(s)) => if s@ == "user"@ || s@ == "assistant"@ {
            Some(s@)
        } else {
            None
        },
        _ => None,
    }
}

/// The text of a string member `key`.
pub open spec fn member_text(members: Seq<JsonMember>, key: Seq<char>) -> Option<Seq<char>> {
    match member(members, key) {
        Some(JsonValue::Text(s)) => Some(s@),
        _ => None,
    }
}

/// The message text of an object: the first of `text`, `content` and
/// `message` that holds a string.
pub open spec fn preview_text(members: Seq<JsonMember>) -> Option<Seq<char>> {
    if member_text(members, "text"@) is Some {
        member_text(members, "text"@)
    } else if member_text(members, "content"@) is Some {
        member_text(members, "content"@)
    } else {
        member_text(members, "message"@)
    }
}

/// One preview line: the speaker, `: `, and the message on one line.
pub open spec fn preview_line(role: Seq<char>, text: Seq<char>) -> Seq<char> {
    role + ": "@ + replace_char(text, '\n', ' ')
}

/// The lines collected after `out` by a depth-first walk of `v`: an object
/// with a speaker and a message gives one line and is not entered; other
/// objects and arrays are walked member by member, in order. Nothing is added
/// once `out` holds four lines.
pub open spec fn visit_value(v: JsonValue, out: Seq<Seq<char>>) -> Seq<Seq<char>>
    decreases v,
{
    if out.len() >= 4 {
        out
    } else {
        match v {
            JsonValue::Object(members) => if preview_role(members@) is Some && preview_text(
                members@,
            ) is Some {
                out.push(preview_line(preview_role(members@)->0, preview_text(members@)->0))
            } else {
                visit_members(members@, out)
            },
            JsonValue::Array(items) => visit_items(items@, out),
            _ => out,
        }
    }
}

/// The walk over the values of `members`, in order.
pub open spec fn visit_members(members: Seq<JsonMember>, out: Seq<Seq<char>>) -> Seq<Seq<char>>
    decreases members,
{
    if members.len() == 0 {
        out
    } else {
        visit_members(members.subrange(1, members.len() as int), visit_value(members[0].value, out))
    }
}

/// The walk over `items`, in order.
pub open spec fn visit_items(items: Seq<JsonValue>, out: Seq<Seq<char>>) -> Seq<Seq<char>>
    decreases items,
{
    if items.len() == 0 {
        out
    } else {
        visit_items(items.subrange(1, items.len() as int), visit_value(items[0], out))
    }
}

/// The text of `s` when it is the string `user` or `assistant`.
fn speaker(v: Option<&JsonValue>) -> (r: Option<String>)
    ensures
        match r {
            Some(s) => match v {
                Some(JsonValue::Text(t)) => (t@ == "user"@ || t@ == "assistant"@) && s@ == t@,
                _ => false,
            },
            None => match v {
                Some(JsonValue::Text(t)) => !(t@ == "user"@ || t@ == "assistant"@),
                _ => true,
            },
        },
{
    match v {
        Some(JsonValue::Text(t)) => {
            let user = String::from_str("user");
            let assistant = String::from_str("assistant");
            if *t == user || *t == assistant {
                Some(t.clone())
            } else {
                None
            }
        },
        _ => None,
    }
}

/// Appends to `out` the lines of the walk of `v` (see `visit_value`).
fn visit(v: &JsonValue, out: &mut Vec<String>)
    ensures
        final(out).deep_view() == visit_value(*v, old(out).deep_view()),
    decreases v,
{
    if out.len() >= PREVIEW_LINES {
        return;
    }
    match v {
        JsonValue::Object(members) => {
            let named = match v.get("role") {
                Some(x) => Some(x),
                None => v.get("type"),
            };
            let role = speaker(named);
            assert(role is Some <==> preview_role(members@) is Some);
            let text = match v.get_text("text") {
                Some(t) => Some(t),
                None => match v.get_text("content") {
                    Some(t) => Some(t),
                    None => v.get_text("message"),
                },
            };
            assert(text is Some <==> preview_text(members@) is Some);
            match (role, text) {
                (Some(r), Some(t)) => {
                    let mut line = r;
                    line.append(": ");
                    let flat = string_from_chars(
                        replace_chars(chars_of(t.as_str()).as_slice(), '\n', ' ').as_slice(),
                    );
                    line.append(flat.as_str());
                    let ghost before = out.deep_view();
                    out.push(line);
                    assert(out.deep_view() =~= before.push(line@));
                    return;
                },
                _ => {},
            }
            let ghost start = out.deep_view();
            let mut i: usize = 0;
            assert(members@.subrange(0, members@.len() as int) =~= members@);
            while i < members.len()
                invariant
                    i <= members@.len(),
                    *v == JsonValue::Object(*members),
                    visit_value(*v, start) == visit_members(members@, start),
                    visit_members(members@, start) == visit_members(
                        members@.subrange(i as int, members@.len() as int),
                        out.deep_view(),
                    ),
                decreases members@.len() - i,
            {
                let ghost rest = members@.subrange(i as int, members@.len() as int);
                assert(rest.subrange(1, rest.len() as int) =~= members@.subrange(
                    i + 1,
                    members@.len() as int,
                ));
                assert(rest[0] == members@[i as int]);
                proof {
                    assert(decreases_to!(*v => *members));
                    assert(decreases_to!(*members => members@));
                    assert(decreases_to!(members@ => members@[i as int]));
                    assert(decreases_to!(members@[i as int] => members@[i as int].value));
                }
                visit(&members[i].value, out);
                i = i + 1;
            }
            assert(members@.subrange(i as int, members@.len() as int).len() == 0);
        },
        JsonValue::Array(items) => {
            let ghost start = out.deep_view();
            let mut i: usize = 0;
            assert(items@.subrange(0, items@.len() as int) =~= items@);
            while i < items.len()
                invariant
                    i <= items@.len(),
                    *v == JsonValue::Array(*items),
                    visit_value(*v, start) == visit_items(items@, start),
                    visit_items(items@, start) == visit_items(
                        items@.subrange(i as int, items@.len() as int),
                        out.deep_view(),
                    ),
                decreases items@.len() - i,
            {
                let ghost rest = items@.subrange(i as int, items@.len() as int);
                assert(rest.subrange(1, rest.len() as int) =~= items@.subrange(
                    i + 1,
                    items@.len() as int,
                ));
                assert(rest[0] == items@[i as int]);
                proof {
                    assert(decreases_to!(*v => *items));
                    assert(decreases_to!(*items => items@));
                    assert(decreases_to!(items@ => items@[i as int]));
                }
                visit(&items[i], out);
                i = i + 1;
            }
            assert(items@.subrange(i as int, items@.len() as int).len() == 0);
        },
        _ => {},
    }
}

/// The preview of a payload: the walk's lines joined by newlines, cut to
/// `max_chars` characters.
pub open spec fn preview_of(value: JsonValue, max_chars: nat) -> Seq<char> {
    prefix_chars(joined(visit_value(value, Seq::empty()), "\n"@), max_chars)
}

/// The preview of a conversation payload (see `preview_of`).
pub fn conversation_preview(value: &JsonValue, max_chars: usize) -> (r: String)
    ensures
        r@ == preview_of(*value, max_chars as nat),
{
    let mut lines: Vec<String> = Vec::new();
    assert(lines.deep_view() =~= Seq::<Seq<char>>::empty());
    visit(value, &mut lines);
    let text = join_strings(&lines, "\n");
    string_from_chars(take_chars(chars_of(text.as_str()).as_slice(), max_chars).as_slice())
}

proof fn lemma_visit_value_bounded(v: JsonValue, out: Seq<Seq<char>>)
    requires
        out.len() <= 4,
    ensures
        visit_value(v, out).len() <= 4,
        visit_value(v, out).len() >= out.len(),
        visit_value(v, out).take(out.len() as int) == out,
    decreases v,
{
    if out.len() < 4 {
        match v {
            JsonValue::Object(members) => {
                if !(preview_role(members@) is Some && preview_text(members@) is Some) {
                    assert(decreases_to!(v => members));
                    assert(decreases_to!(members => members@));
                    lemma_visit_members_bounded(members@, out);
                } else {
                    assert(visit_value(v, out).take(out.len() as int) =~= out);
                }
            },
            JsonValue::Array(items) => {
                assert(decreases_to!(v => items));
                assert(decreases_to!(items => items@));
                lemma_visit_items_bounded(items@, out);
            },
            _ => {
                assert(out.take(out.len() as int) =~= out);
            },
        }
    } else {
        assert(out.take(out.len() as int) =~= out);
    }
}

proof fn lemma_visit_members_bounded(members: Seq<JsonMember>, out: Seq<Seq<char>>)
    requires
        out.len() <= 4,
    ensures
        visit_members(members, out).len() <= 4,
        visit_members(members, out).len() >= out.len(),
        visit_members(members, out).take(out.len() as int) == out,
    decreases members,
{
    if members.len() == 0 {
        assert(out.take(out.len() as int) =~= out);
    } else {
        let mid = visit_value(members[0].value, out);
        assert(decreases_to!(members => members[0]));
        assert(decreases_to!(members[0] => members[0].value));
        lemma_visit_value_bounded(members[0].value, out);
        lemma_visit_members_bounded(members.subrange(1, members.len() as int), mid);
        let last = visit_members(members.subrange(1, members.len() as int), mid);
        assert(last.take(out.len() as int) =~= last.take(mid.len() as int).take(out.len() as int));
    }
}

proof fn lemma_visit_items_bounded(items: Seq<JsonValue>, out: Seq<Seq<char>>)
    requires
        out.len() <= 4,
    ensures
        visit_items(items, out).len() <= 4,
        visit_items(items, out).len() >= out.len(),
        visit_items(items, out).take(out.len() as int) == out,
    decreases items,
{
    if items.len() == 0 {
        assert(out.take(out.len() as int) =~= out);
    } else {
        let mid = visit_value(items[0], out);
        lemma_visit_value_bounded(items[0], out);
        lemma_visit_items_bounded(items.subrange(1, items.len() as int), mid);
        let last = visit_items(items.subrange(1, items.len() as int), mid);
        assert(last.take(out.len() as int) =~= last.take(mid.len() as int).take(out.len() as int));
    }
}

/// A preview holds at most four messages and at most `max_chars` characters.
pub proof fn law_preview_is_short(value: JsonValue, max_chars: nat)
    ensures
        visit_value(value, Seq::empty()).len() <= PREVIEW_LINES,
        preview_of(value, max_chars).len() <= max_chars,
{
    lemma_visit_value_bounded(value, Seq::empty());
}

} // verus!
