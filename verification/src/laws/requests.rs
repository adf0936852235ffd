//! Which requests are accepted, and what is read from them.

use vstd::prelude::*;

use crate::date::{read_date, read_instant, Date};
use crate::error::ErrorView;
use crate::http::{projects, tasks};
use crate::json::{field, law_fields_are_members, Json};
use crate::laws::columns::{sends_date, sends_dates, sends_instant, sent_text};
use crate::laws::tasks::{applies, law_reminders_are_read_in_order};
use crate::model::{TaskCreateView, TaskListView, TaskView};
use crate::session::Transcript;
use crate::text::{debug_text, is_white, law_trimmed_is_the_core};

verus! {

/// The three words for a status.
pub open spec fn three_words(word: Seq<char>) -> bool {
    word == "open"@ || word == "done"@ || word == "closed"@
}

// ------------------------------------------------------------------
// Changes of a task
// ------------------------------------------------------------------

/// The keys that the body of a change may hold.
pub open spec fn changeable(key: Seq<char>) -> bool {
    ||| key == "title"@
    ||| key == "status"@
    ||| key == "source"@
    ||| key == "projectName"@
    ||| key == "due"@
    ||| key == "doneAt"@
    ||| key == "important"@
    ||| key == "createdAt"@
    ||| key == "updatedAt"@
    ||| key == "reminds"@
}

/// Whether the value can be sent under the key: a text for the texts, a text or
/// `null` for the project, a date or `null` for the days that may be absent, a
/// boolean for the flag, an instant for the others, and an array of dates for the
/// reminders.
pub open spec fn sendable_under(key: Seq<char>, value: Json) -> bool {
    if key == "title"@ || key == "source"@ {
        value is Text
    } else if key == "status"@ {
        value is Text && three_words(sent_text(value))
    } else if key == "projectName"@ {
        value is Text || value is Null
    } else if key == "due"@ || key == "doneAt"@ {
        sends_date(value) || value is Null
    } else if key == "important"@ {
        value is Bool
    } else if key == "createdAt"@ || key == "updatedAt"@ {
        sends_instant(value)
    } else {
        key == "reminds"@ && sends_dates(value)
    }
}

/// Whether a body is an object with keys that may be sent, each with a value
/// that can be sent under it.
pub open spec fn sendable(body: Json) -> bool {
    &&& body matches Json::Object(members) && forall|i: int|
        0 <= i < members@.len() ==> changeable(#[trigger] members@[i].0@)
    &&& forall|key: Seq<char>| #[trigger]
        field(body, key) matches Some(value) ==> sendable_under(key, value)
}

proof fn lemma_unknown_key(members: Seq<(String, Json)>)
    ensures
        match tasks::unknown_key(members) {
            None => forall|i: int| 0 <= i < members.len() ==> changeable(#[trigger] members[i].0@),
            Some(key) => exists|i: int|
                0 <= i < members.len() && #[trigger] members[i].0@ == key && !changeable(key)
                    && forall|j: int| 0 <= j < i ==> changeable(#[trigger] members[j].0@),
        },
    decreases members.len(),
{
    if members.len() > 0 && tasks::is_patch_key(members[0].0@) {
        let rest = members.skip(1);
        lemma_unknown_key(rest);
        match tasks::unknown_key(rest) {
            None => {
                assert forall|i: int| 0 <= i < members.len() implies changeable(
                    #[trigger] members[i].0@,
                ) by {
                    if i > 0 {
                        assert(rest[i - 1] == members[i]);
                    }
                }
            },
            Some(key) => {
                let i = choose|i: int|
                    0 <= i < rest.len() && #[trigger] rest[i].0@ == key && !changeable(key)
                        && forall|j: int| 0 <= j < i ==> changeable(#[trigger] rest[j].0@);
                assert(members[i + 1].0@ == key);
                assert forall|j: int| 0 <= j < i + 1 implies changeable(
                    #[trigger] members[j].0@,
                ) by {
                    if j > 0 {
                        assert(rest[j - 1] == members[j]);
                    }
                }
            },
        }
    } else if members.len() > 0 {
        assert(members[0].0@ == members[0].0@);
    }
}

proof fn lemma_keys_differ()
    ensures
        !changeable("taskNumber"@),
        "title"@ != "status"@,
        "title"@ != "projectName"@,
        "title"@ != "due"@,
        "title"@ != "doneAt"@,
        "title"@ != "important"@,
        "title"@ != "createdAt"@,
        "title"@ != "updatedAt"@,
        "title"@ != "reminds"@,
        "source"@ != "status"@,
        "source"@ != "projectName"@,
        "source"@ != "due"@,
        "source"@ != "doneAt"@,
        "source"@ != "important"@,
        "source"@ != "createdAt"@,
        "source"@ != "updatedAt"@,
        "source"@ != "reminds"@,
        "status"@ != "projectName"@,
        "status"@ != "due"@,
        "status"@ != "doneAt"@,
        "status"@ != "important"@,
        "status"@ != "createdAt"@,
        "status"@ != "updatedAt"@,
        "status"@ != "reminds"@,
        "projectName"@ != "due"@,
        "projectName"@ != "doneAt"@,
        "projectName"@ != "important"@,
        "projectName"@ != "createdAt"@,
        "projectName"@ != "updatedAt"@,
        "projectName"@ != "reminds"@,
        "due"@ != "important"@,
        "due"@ != "createdAt"@,
        "due"@ != "updatedAt"@,
        "due"@ != "reminds"@,
        "doneAt"@ != "important"@,
        "doneAt"@ != "createdAt"@,
        "doneAt"@ != "updatedAt"@,
        "doneAt"@ != "reminds"@,
        "important"@ != "createdAt"@,
        "important"@ != "updatedAt"@,
        "important"@ != "reminds"@,
        "createdAt"@ != "reminds"@,
        "updatedAt"@ != "reminds"@,
{
    reveal_strlit("taskNumber");
    reveal_strlit("title");
    reveal_strlit("status");
    reveal_strlit("source");
    reveal_strlit("projectName");
    reveal_strlit("due");
    reveal_strlit("doneAt");
    reveal_strlit("important");
    reveal_strlit("createdAt");
    reveal_strlit("updatedAt");
    reveal_strlit("reminds");
    assert("title"@[0] == 't' && "status"@[1] == 't' && "source"@[1] == 'o');
    assert("taskNumber"@[0] == 't' && "projectName"@[0] == 'p' && "due"@[0] == 'd');
    assert("doneAt"@[1] == 'o' && "important"@[0] == 'i' && "createdAt"@[0] == 'c');
    assert("updatedAt"@[0] == 'u' && "reminds"@[0] == 'r' && "status"@[0] == 's');
    assert("doneAt"@[0] == 'd' && "taskNumber"@[1] == 'a' && "title"@[1] == 'i');
}

/// A body can be applied to a task exactly where it is sendable, whatever the
/// task holds.
#[verifier::rlimit(40)]
pub proof fn law_sendable_bodies_apply(body: Json, existing: TaskView)
    ensures
        sendable(body) <==> applies(body, existing),
{
    lemma_keys_differ();
    if let Json::Object(members) = body {
        lemma_unknown_key(members@);
    }
    law_fields_are_members(body, "taskNumber"@);
    if let Some(value) = field(body, "reminds"@) {
        law_reminders_are_read_in_order(value);
    }
    if sendable(body) {
        assert(field(body, "title"@) matches Some(value) ==> sendable_under("title"@, value));
        assert(field(body, "status"@) matches Some(value) ==> sendable_under("status"@, value));
        assert(field(body, "source"@) matches Some(value) ==> sendable_under("source"@, value));
        assert(field(body, "projectName"@) matches Some(value) ==> sendable_under(
            "projectName"@,
            value,
        ));
        assert(field(body, "due"@) matches Some(value) ==> sendable_under("due"@, value));
        assert(field(body, "doneAt"@) matches Some(value) ==> sendable_under("doneAt"@, value));
        assert(field(body, "important"@) matches Some(value) ==> sendable_under(
            "important"@,
            value,
        ));
        assert(field(body, "createdAt"@) matches Some(value) ==> sendable_under(
            "createdAt"@,
            value,
        ));
        assert(field(body, "updatedAt"@) matches Some(value) ==> sendable_under(
            "updatedAt"@,
            value,
        ));
        assert(field(body, "reminds"@) matches Some(value) ==> sendable_under("reminds"@, value));
    }
    if applies(body, existing) {
        assert forall|key: Seq<char>| #[trigger] field(body, key) matches Some(value) implies
            sendable_under(key, field(body, key)->0) by {
            law_fields_are_members(body, key);
        }
    }
}

/// What a body sends is what the task holds after the change, whatever it held
/// before: a text, a flag, the date that a text says, the day in UTC of an
/// instant. `null` clears.
pub proof fn law_sent_fields_replace(body: Json, existing: TaskView, updated: Date)
    ensures
        tasks::patched_row(body, existing, updated) matches Ok(row) ==> {
            &&& row.updated == updated
            &&& field(body, "title"@) matches Some(value) ==> value is Text && row.title
                == sent_text(value)
            &&& field(body, "status"@) matches Some(value) ==> value is Text && row.status
                == sent_text(value)
            &&& field(body, "source"@) matches Some(value) ==> value is Text && row.source
                == sent_text(value)
            &&& field(body, "projectName"@) matches Some(value) ==> if value is Null {
                row.project is None
            } else {
                value is Text && row.project == Some(sent_text(value))
            }
            &&& field(body, "due"@) matches Some(value) ==> if value is Null {
                row.due is None
            } else {
                sends_date(value) && row.due == Some(read_date(sent_text(value))->Ok_0)
            }
            &&& field(body, "doneAt"@) matches Some(value) ==> if value is Null {
                row.done_at is None
            } else {
                sends_date(value) && row.done_at == Some(read_date(sent_text(value))->Ok_0)
            }
            &&& field(body, "important"@) matches Some(value) ==> value == Json::Bool(
                row.important,
            )
            &&& field(body, "createdAt"@) matches Some(value) ==> sends_instant(value)
                && row.created == (read_instant(sent_text(value))->0).date()
        },
{
}

/// A field that cannot be read is named in the answer.
pub proof fn law_unreadable_fields_are_named(body: Json, existing: TaskView, updated: Date)
    ensures
        tasks::patched_row(body, existing, updated) matches Err(e) ==> e matches
            ErrorView::BadRequest(message) && {
            ||| field(body, "title"@) is Some && message == "title"@ + " must be a string"@
            ||| field(body, "status"@) is Some && message == "status"@ + " must be a string"@
            ||| field(body, "source"@) is Some && message == "source"@ + " must be a string"@
            ||| field(body, "projectName"@) is Some && message == "projectName"@
                + " must be a string or null"@
            ||| field(body, "due"@) matches Some(value) && message == "due"@ + if value is Text {
                " must be YYYY-MM-DD or null"@
            } else {
                " must be a date string or null"@
            }
            ||| field(body, "doneAt"@) matches Some(value) && message == "doneAt"@
                + if value is Text {
                " must be YYYY-MM-DD or null"@
            } else {
                " must be a date string or null"@
            }
            ||| field(body, "important"@) is Some && message == "important"@
                + " must be a boolean"@
            ||| field(body, "createdAt"@) matches Some(value) && message == "createdAt"@
                + if value is Text {
                " must be an RFC 3339 datetime (e.g. 2026-04-18T13:00:00Z)"@
            } else {
                " must be an RFC 3339 datetime string"@
            }
        },
{
}

/// A body is refused before the task is looked for where it is no object, sends
/// a task number, holds another key, or a status that is none of the three words.
/// The answer says which.
pub proof fn law_refused_changes_say_why(body: Json)
    ensures
        match body {
            Json::Object(members) => if exists|i: int|
                0 <= i < members@.len() && #[trigger] members@[i].0@ == "taskNumber"@ {
                tasks::patch_refusal(body) == Some(
                    ErrorView::BadRequest(
                        "taskNumber must not be in request body (URL path is authoritative)"@,
                    ),
                )
            } else if exists|i: int|
                0 <= i < members@.len() && !changeable(#[trigger] members@[i].0@) {
                exists|i: int|
                    0 <= i < members@.len() && !changeable(#[trigger] members@[i].0@)
                        && tasks::patch_refusal(body) == Some(
                        ErrorView::BadRequest("unknown field: "@ + debug_text(members@[i].0@)),
                    )
            } else {
                match field(body, "status"@) {
                    None => tasks::patch_refusal(body) is None,
                    Some(value) => if !(value is Text) {
                        tasks::patch_refusal(body) == Some(
                            ErrorView::BadRequest("status must be a string"@),
                        )
                    } else {
                        tasks::patch_refusal(body) is Some <==> !three_words(sent_text(value))
                    },
                }
            },
            _ => tasks::patch_refusal(body) == Some(
                ErrorView::BadRequest("body must be a JSON object"@),
            ),
        },
        tasks::patch_refusal(body) matches Some(e) ==> e is BadRequest,
{
    law_fields_are_members(body, "taskNumber"@);
    if let Json::Object(members) = body {
        lemma_unknown_key(members@);
    }
}

// ------------------------------------------------------------------
// New tasks and lists
// ------------------------------------------------------------------

/// The body of a new task is accepted exactly where it sends no task number,
/// can be read, and has one of the three words as its status.
pub proof fn law_new_tasks_are_accepted(body: Json, parsed: Result<TaskCreateView, Seq<char>>)
    ensures
        tasks::create_refusal(body, parsed) is None <==> field(body, "taskNumber"@) is None
            && parsed is Ok && three_words((parsed->Ok_0).status),
        tasks::create_refusal(body, parsed) matches Some(e) ==> e is BadRequest,
        field(body, "taskNumber"@) is Some ==> tasks::create_refusal(body, parsed) == Some(
            ErrorView::BadRequest(
                "taskNumber must not be in request body (server assigns SQLite rowid)"@,
            ),
        ),
        field(body, "taskNumber"@) is None ==> (parsed matches Err(reason)
            ==> tasks::create_refusal(body, parsed) == Some(
            ErrorView::BadRequest("invalid task body: "@ + reason),
        )),
{
}

/// A query is refused exactly where it gives a status that is none of the three
/// words, or a text for `since` that is no instant. Any other query asks the
/// database.
pub proof fn law_queries_are_accepted(
    t: Transcript,
    at: int,
    status: Option<Seq<char>>,
    since: Option<Seq<char>>,
    project: Option<Seq<char>>,
    limit: Option<u32>,
    list: Result<TaskListView, ErrorView>,
    end: int,
)
    requires
        tasks::list_tasks_trace(t, at, status, since, project, limit) == Some((list, end)),
    ensures
        end == at <==> (status is Some && !three_words(status->0)) || (since is Some
            && read_instant(since->0) is None),
        end == at ==> (list matches Err(e) && e is BadRequest),
        end >= at,
{
    if end != at {
        let day = tasks::since_day(since)->Ok_0;
        let limit = Some(tasks::limit_or_default(limit));
        let (read, a) = crate::sqlite::read_tasks_filtered_trace(
            t,
            at,
            status,
            day,
            project,
            limit,
        )->0;
        assert(a == at + 1);
    }
}

// ------------------------------------------------------------------
// Names of projects
// ------------------------------------------------------------------

/// Whether `name` is what is left of `raw` without the white space around it.
pub open spec fn is_core(raw: Seq<char>, name: Seq<char>) -> bool {
    &&& name.len() > 0
    &&& !is_white(name[0])
    &&& !is_white(name.last())
    &&& exists|from: int, to: int| #[trigger]
        raw.subrange(from, to) == name && 0 <= from <= to <= raw.len() && (forall|i: int|
            0 <= i < from || to <= i < raw.len() ==> is_white(#[trigger] raw[i]))
}

/// Whether a body is an object with nothing but a name, which has 1 to 200
/// characters without the white space around it.
pub open spec fn sends_name(body: Json, name: Seq<char>) -> bool {
    &&& body matches Json::Object(members) && members@.len() > 0 && members@[0].1 is Text
        && is_core(sent_text(members@[0].1), name) && forall|i: int|
        0 <= i < members@.len() ==> #[trigger] members@[i].0@ == "name"@
    &&& name.len() <= 200
}

proof fn lemma_other_key(members: Seq<(String, Json)>)
    ensures
        match projects::other_key(members) {
            None => forall|i: int| 0 <= i < members.len() ==> #[trigger] members[i].0@ == "name"@,
            Some(key) => exists|i: int|
                0 <= i < members.len() && #[trigger] members[i].0@ == key && key != "name"@,
        },
    decreases members.len(),
{
    if members.len() > 0 && members[0].0@ == "name"@ {
        let rest = members.skip(1);
        lemma_other_key(rest);
        match projects::other_key(rest) {
            None => {
                assert forall|i: int| 0 <= i < members.len() implies #[trigger] members[i].0@
                    == "name"@ by {
                    if i > 0 {
                        assert(rest[i - 1] == members[i]);
                    }
                }
            },
            Some(key) => {
                let i = choose|i: int|
                    0 <= i < rest.len() && #[trigger] rest[i].0@ == key && key != "name"@;
                assert(members[i + 1].0@ == key);
            },
        }
    } else if members.len() > 0 {
        assert(members[0].0@ == members[0].0@);
    }
}

/// A name is read from a body exactly where the body sends it.
pub proof fn law_names_are_read(body: Json, name: Seq<char>)
    ensures
        projects::name_in(body) == Ok::<Seq<char>, ErrorView>(name) <==> sends_name(body, name),
        projects::name_in(body) matches Err(e) ==> e is BadRequest,
{
    if let Json::Object(members) = body {
        lemma_other_key(members@);
        law_fields_are_members(body, "name"@);
        if members@.len() > 0 {
            let raw = sent_text(members@[0].1);
            if name.len() > 0 {
                law_trimmed_is_the_core(raw, name);
            }
        }
    }
}

/// A word that is no status and a text that is no instant are quoted in the
/// answer.
pub proof fn law_refusals_quote_the_input(
    t: Transcript,
    at: int,
    word: Seq<char>,
    since: Seq<char>,
    status: Option<Seq<char>>,
    project: Option<Seq<char>>,
    limit: Option<u32>,
)
    ensures
        !three_words(word) ==> (tasks::list_tasks_trace(
            t,
            at,
            Some(word),
            Some(since),
            project,
            limit,
        ) == Some(
            (
                Err::<TaskListView, ErrorView>(
                    ErrorView::BadRequest(
                        "invalid status "@ + debug_text(word)
                            + ": expected one of [\"open\", \"done\", \"closed\"]"@,
                    ),
                ),
                at,
            ),
        )),
        (status matches Some(word) ==> three_words(word)) && read_instant(since) is None ==> (
        tasks::list_tasks_trace(t, at, status, Some(since), project, limit) == Some(
            (
                Err::<TaskListView, ErrorView>(
                    ErrorView::BadRequest(
                        "invalid since "@ + debug_text(since)
                            + ": expected RFC 3339 datetime (e.g. 2026-04-18T13:00:00Z)"@,
                    ),
                ),
                at,
            ),
        )),
{
}

/// A body whose status is none of the three words is refused with the word, both
/// where a task is created and where it is changed.
pub proof fn law_bodies_with_other_words(body: Json, dto: TaskCreateView)
    requires
        field(body, "taskNumber"@) is None,
    ensures
        !three_words(dto.status) ==> tasks::create_refusal(body, Ok(dto)) == Some(
            ErrorView::BadRequest(
                "invalid status "@ + debug_text(dto.status)
                    + ": expected one of [\"open\", \"done\", \"closed\"]"@,
            ),
        ),
        (body matches Json::Object(members) && forall|i: int|
            0 <= i < members@.len() ==> changeable(#[trigger] members@[i].0@)) && (field(
            body,
            "status"@,
        ) matches Some(value) && value is Text && !three_words(sent_text(value)))
            ==> tasks::patch_refusal(body) == Some(
            ErrorView::BadRequest(
                "invalid status "@ + debug_text(sent_text(field(body, "status"@)->0))
                    + ": expected one of [\"open\", \"done\", \"closed\"]"@,
            ),
        ),
{
    if let Json::Object(members) = body {
        lemma_unknown_key(members@);
    }
}

} // verus!
