use vstd::prelude::*;

use crate::domain::archive::Archive;
use crate::domain::event::{ChronicleEvent, EventKind, EventView, KindView, RecordKind, RecordStatus};
use crate::domain::id::{id_text, ChronicleId};
use crate::domain::time::{timestamp_text, DayKey, Timestamp};
use crate::domain::view::{records_view, DerivedRecord, RecordTreeNode, RecordView};
use crate::domain::view_tree::{tree_view, TreeView};
use crate::error::SillokError;
use crate::storage::sql::convert::{kind_label, kind_text, status_label, status_text};
use crate::text::{contains_text, decimal, owned, push_char, push_decimal, push_str, strs_view};

verus! {

/// How a time is shown: its RFC3339 text.
pub open spec fn time_text(t: i64) -> Seq<char> {
    timestamp_text(t)
}

/// `noun`, with an `s` unless the count is one.
pub open spec fn plural(count: nat, noun: Seq<char>) -> Seq<char> {
    if count == 1 {
        noun
    } else {
        noun + "s"@
    }
}

/// The text without one trailing newline.
pub open spec fn without_trailing_newline(s: Seq<char>) -> Seq<char> {
    if s.len() > 0 && s.last() == '\n' {
        s.drop_last()
    } else {
        s
    }
}

/// The parts joined with `sep` between them.
pub open spec fn join(parts: Seq<Seq<char>>, sep: Seq<char>) -> Seq<char>
    decreases parts.len(),
{
    if parts.len() == 0 {
        Seq::empty()
    } else if parts.len() == 1 {
        parts[0]
    } else {
        join(parts.drop_last(), sep) + sep + parts.last()
    }
}

/// The parts one after another.
pub open spec fn concat(parts: Seq<Seq<char>>) -> Seq<char>
    decreases parts.len(),
{
    if parts.len() == 0 {
        Seq::empty()
    } else {
        concat(parts.drop_last()) + parts.last()
    }
}

/// Two spaces per tree level.
pub open spec fn indent_text(depth: nat) -> Seq<char>
    decreases depth,
{
    if depth == 0 {
        Seq::empty()
    } else {
        indent_text((depth - 1) as nat) + "  "@
    }
}

/// A line of `label`, then `value`, then a newline, after `indent`.
pub open spec fn line(indent: Seq<char>, label: Seq<char>, value: Seq<char>) -> Seq<char> {
    indent + label + value + "\n"@
}

/// The optional lines of a record: its note and its tags.
pub open spec fn extra_lines(r: RecordView, indent: Seq<char>) -> Seq<char> {
    (match r.purpose {
        Some(p) => line(indent, "note: "@, p),
        None => Seq::empty(),
    }) + if r.tags.len() > 0 {
        line(indent, "tags: "@, join(r.tags, ", "@))
    } else {
        Seq::empty()
    }
}

/// The full description of a record.
pub open spec fn record_details(r: RecordView, indent: Seq<char>) -> Seq<char> {
    line(indent, status_text(r.status) + " "@ + kind_text(r.kind) + ": "@, r.text)
        + line(indent, "id: "@, id_text(r.record_id))
        + line(indent, "created: "@, time_text(r.created_at))
        + line(indent, "updated: "@, time_text(r.updated_at))
        + line(indent, "day: "@, id_text(r.day_id))
        + (match r.parent_id {
            Some(p) => line(indent, "parent: "@, id_text(p)),
            None => Seq::empty(),
        })
        + extra_lines(r, indent)
}

/// The short description of a record in a list or tree.
pub open spec fn record_brief(r: RecordView, indent: Seq<char>) -> Seq<char> {
    line(
        indent,
        "- ["@ + status_text(r.status) + " "@ + kind_text(r.kind) + "] "@,
        r.text + " ("@ + time_text(r.created_at) + ")"@,
    ) + line(indent, "  id: "@, id_text(r.record_id)) + (if r.updated_at != r.created_at {
        line(indent, "  updated: "@, time_text(r.updated_at))
    } else {
        Seq::empty()
    }) + extra_lines(r, indent + "  "@)
}

/// The texts of a list of tree nodes, each at `indent`.
pub open spec fn forest_texts(cs: Seq<TreeView>, indent: Seq<char>) -> Seq<Seq<char>>
    decreases cs,
{
    Seq::new(
        cs.len(),
        |i: int|
            if 0 <= i < cs.len() {
                node_text(cs[i], indent)
            } else {
                Seq::empty()
            },
    )
}

/// A tree node and its children, depth first, each level two spaces deeper.
pub open spec fn node_text(n: TreeView, indent: Seq<char>) -> Seq<char>
    decreases n,
{
    record_brief(n.record, indent) + concat(forest_texts(n.children, indent + "  "@))
}

/// The label of an event kind.
pub open spec fn event_label_text(k: KindView) -> Seq<char> {
    match k {
        KindView::ArchiveInitialized { .. } => "archive initialized"@,
        KindView::DayOpened { .. } => "day opened"@,
        KindView::ObjectiveAdded { .. } => "objective added"@,
        KindView::ObjectiveCompleted { .. } => "objective completed"@,
        KindView::TaskRecorded { .. } => "task recorded"@,
        KindView::TaskAmended { .. } => "task amended"@,
        KindView::TaskRetracted { .. } => "task retracted"@,
        KindView::TaskLinked { .. } => "task linked"@,
        KindView::TaskUnlinked { .. } => "task unlinked"@,
    }
}

/// The lines of one event.
pub open spec fn event_text(e: EventView) -> Seq<char> {
    "- "@ + event_label_text(e.kind) + " at "@ + time_text(e.event_at) + " (recorded "@ + time_text(
        e.recorded_at,
    ) + ")\n"@ + "  id: "@ + id_text(e.event_id) + "\n"@
}

fn format_time(timestamp: Timestamp) -> (s: String)
    ensures
        s@ == time_text(timestamp@),
{
    timestamp.to_rfc3339()
}

fn event_label(kind: &EventKind) -> (s: &'static str)
    ensures
        s@ == event_label_text(kind@),
{
    match kind {
        EventKind::ArchiveInitialized { .. } => "archive initialized",
        EventKind::DayOpened { .. } => "day opened",
        EventKind::ObjectiveAdded { .. } => "objective added",
        EventKind::ObjectiveCompleted { .. } => "objective completed",
        EventKind::TaskRecorded { .. } => "task recorded",
        EventKind::TaskAmended { .. } => "task amended",
        EventKind::TaskRetracted { .. } => "task retracted",
        EventKind::TaskLinked { .. } => "task linked",
        EventKind::TaskUnlinked { .. } => "task unlinked",
    }
}

fn pluralize(count: usize, noun: &'static str) -> (s: String)
    ensures
        s@ == plural(count as nat, noun@),
{
    let mut s = owned(noun);
    if count != 1 {
        push_char(&mut s, 's');
        proof {
            reveal_strlit("s");
            assert(s@ =~= noun@ + "s"@);
        }
    }
    s
}

fn trim_trailing_newline(value: String) -> (s: String)
    ensures
        s@ == without_trailing_newline(value@),
{
    let n = value.unicode_len();
    if n > 0 && value.get_char(n - 1) == '\n' {
        let mut s = String::new();
        let mut i: usize = 0;
        while i < n - 1
            invariant
                n == value@.len(),
                n > 0,
                i <= n - 1,
                s@ == value@.take(i as int),
            decreases n - 1 - i,
        {
            push_char(&mut s, value.get_char(i));
            assert(value@.take(i + 1) =~= value@.take(i as int).push(value@[i as int]));
            i = i + 1;
        }
        assert(value@.take(n - 1) =~= value@.drop_last());
        s
    } else {
        value
    }
}

/// Appends the texts of `parts` joined with `", "`.
fn push_joined(out: &mut String, parts: &Vec<String>)
    ensures
        final(out)@ == old(out)@ + join(strs_view(parts@), ", "@),
{
    let ghost start = out@;
    let mut i: usize = 0;
    proof {
        reveal_strlit(", ");
    }
    assert(strs_view(parts@).take(0) =~= Seq::<Seq<char>>::empty());
    while i < parts.len()
        invariant
            i <= parts.len(),
            out@ == start + join(strs_view(parts@).take(i as int), ", "@),
        decreases parts.len() - i,
    {
        let ghost t = strs_view(parts@).take(i + 1);
        assert(t.drop_last() =~= strs_view(parts@).take(i as int));
        assert(t.last() == parts@[i as int]@);
        if i > 0 {
            push_str(out, ", ");
        } else {
            assert(t =~= seq![parts@[0]@]);
        }
        push_str(out, parts[i].as_str());
        proof {
            reveal_strlit(", ");
            if i > 0 {
                assert(out@ =~= start + (join(t.drop_last(), ", "@) + ", "@ + t.last()));
            } else {
                assert(out@ =~= start + t[0]);
            }
        }
        i = i + 1;
    }
    assert(strs_view(parts@).take(parts.len() as int) =~= strs_view(parts@));
}

/// Appends `indent`, `label`, `value` and a newline.
fn push_line(out: &mut String, indent: &str, label: &str, value: &str)
    ensures
        final(out)@ == old(out)@ + line(indent@, label@, value@),
{
    push_str(out, indent);
    push_str(out, label);
    push_str(out, value);
    push_char(out, '\n');
    proof {
        reveal_strlit("\n");
        assert(final(out)@ =~= old(out)@ + line(indent@, label@, value@));
    }
}

fn push_extra_lines(out: &mut String, record: &DerivedRecord, indent: &str)
    ensures
        final(out)@ == old(out)@ + extra_lines(record@, indent@),
{
    let ghost start = out@;
    match &record.purpose {
        Some(purpose) => {
            push_line(out, indent, "note: ", purpose.as_str());
        },
        None => {},
    }
    let ghost mid = out@;
    if record.tags.len() > 0 {
        push_str(out, indent);
        push_str(out, "tags: ");
        push_joined(out, &record.tags);
        push_char(out, '\n');
        proof {
            reveal_strlit("\n");
            assert(out@ =~= mid + line(indent@, "tags: "@, join(strs_view(record.tags@), ", "@)));
        }
    }
    assert(out@ =~= start + extra_lines(record@, indent@));
}

/// Appends the full description of a record.
fn push_record_details(out: &mut String, record: &DerivedRecord, indent: &str)
    ensures
        final(out)@ == old(out)@ + record_details(record@, indent@),
{
    let ghost start = out@;
    let mut head = owned(status_label(record.status));
    push_str(&mut head, " ");
    push_str(&mut head, kind_label(record.kind));
    push_str(&mut head, ": ");
    push_line(out, indent, head.as_str(), record.text.as_str());
    let ghost a = out@;
    push_line(out, indent, "id: ", record.record_id.to_string().as_str());
    push_line(out, indent, "created: ", format_time(record.created_at).as_str());
    push_line(out, indent, "updated: ", format_time(record.updated_at).as_str());
    push_line(out, indent, "day: ", record.day_id.to_string().as_str());
    let ghost b = out@;
    match record.parent_id {
        Some(parent_id) => {
            push_line(out, indent, "parent: ", parent_id.to_string().as_str());
        },
        None => {},
    }
    let ghost c = out@;
    push_extra_lines(out, record, indent);
    proof {
        reveal_strlit(" ");
        reveal_strlit(": ");
        let r = record@;
        assert(head@ =~= status_text(r.status) + " "@ + kind_text(r.kind) + ": "@);
        assert(out@ =~= start + record_details(r, indent@));
    }
}

/// Appends the short description of a record.
fn push_record_brief(out: &mut String, record: &DerivedRecord, indent: &str)
    ensures
        final(out)@ == old(out)@ + record_brief(record@, indent@),
{
    let ghost start = out@;
    let mut head = owned("- [");
    push_str(&mut head, status_label(record.status));
    push_str(&mut head, " ");
    push_str(&mut head, kind_label(record.kind));
    push_str(&mut head, "] ");
    let mut body = owned(record.text.as_str());
    push_str(&mut body, " (");
    push_str(&mut body, format_time(record.created_at).as_str());
    push_str(&mut body, ")");
    push_line(out, indent, head.as_str(), body.as_str());
    push_line(out, indent, "  id: ", record.record_id.to_string().as_str());
    if record.updated_at.as_millis() != record.created_at.as_millis() {
        push_line(out, indent, "  updated: ", format_time(record.updated_at).as_str());
    }
    let mut deeper = owned(indent);
    push_str(&mut deeper, "  ");
    push_extra_lines(out, record, deeper.as_str());
    proof {
        reveal_strlit("- [");
        reveal_strlit(" ");
        reveal_strlit("] ");
        reveal_strlit(" (");
        reveal_strlit(")");
        reveal_strlit("  ");
        let r = record@;
        assert(head@ =~= "- ["@ + status_text(r.status) + " "@ + kind_text(r.kind) + "] "@);
        assert(body@ =~= r.text + " ("@ + time_text(r.created_at) + ")"@);
        assert(deeper@ =~= indent@ + "  "@);
        assert(out@ =~= start + record_brief(r, indent@));
    }
}

/// Appends the lines of one event.
fn push_event(out: &mut String, event: &ChronicleEvent)
    ensures
        final(out)@ == old(out)@ + event_text(event@),
{
    let ghost start = out@;
    push_str(out, "- ");
    push_str(out, event_label(&event.kind));
    push_str(out, " at ");
    push_str(out, format_time(event.event_at).as_str());
    push_str(out, " (recorded ");
    push_str(out, format_time(event.recorded_at).as_str());
    push_str(out, ")\n");
    push_str(out, "  id: ");
    push_str(out, event.event_id.to_string().as_str());
    push_char(out, '\n');
    proof {
        reveal_strlit("\n");
        assert(out@ =~= start + event_text(event@));
    }
}

proof fn lemma_concat_step(parts: Seq<Seq<char>>, k: int)
    requires
        0 <= k < parts.len(),
    ensures
        concat(parts.take(k + 1)) == concat(parts.take(k)) + parts[k],
{
    assert(parts.take(k + 1).drop_last() =~= parts.take(k));
}

/// Appends a tree node and its children, depth first.
fn push_node(out: &mut String, node: &RecordTreeNode, indent: &str)
    ensures
        final(out)@ == old(out)@ + node_text(tree_view(*node), indent@),
    decreases node,
{
    let ghost start = out@;
    push_record_brief(out, &node.record, indent);
    let ghost head = out@;
    let mut deeper = owned(indent);
    push_str(&mut deeper, "  ");
    proof {
        reveal_strlit("  ");
    }
    let ghost tv = tree_view(*node);
    let ghost parts = forest_texts(tv.children, indent@ + "  "@);
    let mut k: usize = 0;
    assert(parts.take(0) =~= Seq::<Seq<char>>::empty());
    while k < node.children.len()
        invariant
            k <= node.children.len(),
            deeper@ == indent@ + "  "@,
            parts.len() == node.children@.len(),
            forall|i: int| 0 <= i < parts.len() ==> #[trigger] parts[i] == node_text(tree_view(node.children@[i]), indent@ + "  "@),
            out@ == head + concat(parts.take(k as int)),
        decreases node.children.len() - k,
    {
        push_node(out, &node.children[k], deeper.as_str());
        proof {
            lemma_concat_step(parts, k as int);
        }
        k = k + 1;
    }
    proof {
        assert(parts.take(parts.len() as int) =~= parts);
        assert(tv.record == node.record@);
        assert(node_text(tv, indent@) == record_brief(tv.record, indent@) + concat(parts));
        assert(out@ =~= start + node_text(tv, indent@));
    }
}


/// Text of `init` output.
pub open spec fn init_text(archive_id: u128, created_at: i64, created: bool, store: Seq<char>) -> Seq<char> {
    (if created {
        "Created"@
    } else {
        "Existing"@
    }) + " archive\nid: "@ + id_text(archive_id) + "\ncreated: "@ + time_text(created_at)
        + "\nstore: "@ + store
}

/// Formats store `init` output.
pub fn store_init(archive_id: ChronicleId, created_at: Timestamp, created: bool, store: &str) -> (s:
    String)
    ensures
        s@ == init_text(archive_id@, created_at@, created, store@),
{
    let mut s = if created {
        owned("Created")
    } else {
        owned("Existing")
    };
    push_str(&mut s, " archive\nid: ");
    push_str(&mut s, archive_id.to_string().as_str());
    push_str(&mut s, "\ncreated: ");
    push_str(&mut s, format_time(created_at).as_str());
    push_str(&mut s, "\nstore: ");
    push_str(&mut s, store);
    proof {
        reveal_strlit("Created");
        reveal_strlit("Existing");
        reveal_strlit(" archive\nid: ");
        reveal_strlit("\ncreated: ");
        reveal_strlit("\nstore: ");
        assert(s@ =~= init_text(archive_id@, created_at@, created, store@));
    }
    s
}

/// Formats `init` output.
pub fn init(archive: &Archive, created: bool, store: &str) -> (s: String)
    ensures
        s@ == init_text(archive@.archive_id, archive@.created_at, created, store@),
{
    store_init(archive.archive_id, archive.created_at, created, store)
}

/// Formats a mutation that returns one record.
pub fn record_action(action: &str, record: &DerivedRecord) -> (s: String)
    ensures
        s@ == without_trailing_newline(action@ + "\n"@ + record_details(record@, Seq::empty())),
{
    let mut output = owned(action);
    push_char(&mut output, '\n');
    push_record_details(&mut output, record, "");
    proof {
        reveal_strlit("\n");
        reveal_strlit("");
        assert(output@ =~= action@ + "\n"@ + record_details(record@, Seq::empty()));
    }
    trim_trailing_newline(output)
}

/// The lines of each event, in order.
pub open spec fn events_text(events: Seq<EventView>) -> Seq<char> {
    concat(events.map_values(|e: EventView| event_text(e)))
}

/// Text of `show` output.
pub open spec fn show_text(record: RecordView, events: Seq<EventView>) -> Seq<char> {
    without_trailing_newline(
        "Record\n"@ + record_details(record, Seq::empty()) + "\nEvents\n"@ + if events.len() == 0 {
            "No events.\n"@
        } else {
            events_text(events)
        },
    )
}

/// Formats `show` output with record details and event history.
pub fn show(record: &DerivedRecord, events: &[ChronicleEvent]) -> (s: String)
    ensures
        s@ == show_text(record@, events@.map_values(|e: ChronicleEvent| e@)),
{
    let ghost evs = events@.map_values(|e: ChronicleEvent| e@);
    let mut output = owned("Record\n");
    push_record_details(&mut output, record, "");
    push_str(&mut output, "\nEvents\n");
    let ghost head = output@;
    if events.len() == 0 {
        push_str(&mut output, "No events.\n");
    } else {
        let ghost parts = evs.map_values(|e: EventView| event_text(e));
        let mut i: usize = 0;
        assert(parts.take(0) =~= Seq::<Seq<char>>::empty());
        while i < events.len()
            invariant
                i <= events@.len(),
                evs == events@.map_values(|e: ChronicleEvent| e@),
                parts == evs.map_values(|e: EventView| event_text(e)),
                output@ == head + concat(parts.take(i as int)),
            decreases events@.len() - i,
        {
            push_event(&mut output, &events[i]);
            proof {
                lemma_concat_step(parts, i as int);
            }
            i = i + 1;
        }
        assert(parts.take(parts.len() as int) =~= parts);
    }
    proof {
        reveal_strlit("Record\n");
        reveal_strlit("");
        reveal_strlit("\nEvents\n");
        reveal_strlit("No events.\n");
        assert(output@ =~= "Record\n"@ + record_details(record@, Seq::empty()) + "\nEvents\n"@
            + if evs.len() == 0 {
            "No events.\n"@
        } else {
            events_text(evs)
        });
    }
    trim_trailing_newline(output)
}

/// Text of a list of records, each in short form.
pub open spec fn briefs_text(records: Seq<RecordView>) -> Seq<char> {
    concat(records.map_values(|r: RecordView| record_brief(r, Seq::empty())))
}

/// Text of query/export-style record lists.
pub open spec fn records_text(title: Seq<char>, records: Seq<RecordView>) -> Seq<char> {
    without_trailing_newline(
        title + " - "@ + decimal(records.len()) + " "@ + plural(records.len(), "record"@) + "\n"@
            + if records.len() == 0 {
            "No records.\n"@
        } else {
            briefs_text(records)
        },
    )
}

/// Formats query/export-style record lists.
pub fn records(title: &str, list: &[DerivedRecord]) -> (s: String)
    ensures
        s@ == records_text(title@, records_view(list@)),
{
    let ghost rs = records_view(list@);
    let mut output = owned(title);
    push_str(&mut output, " - ");
    push_decimal(&mut output, list.len() as u64);
    push_str(&mut output, " ");
    push_str(&mut output, pluralize(list.len(), "record").as_str());
    push_char(&mut output, '\n');
    let ghost head = output@;
    if list.len() == 0 {
        push_str(&mut output, "No records.\n");
    } else {
        let ghost parts = rs.map_values(|r: RecordView| record_brief(r, Seq::empty()));
        let mut i: usize = 0;
        assert(parts.take(0) =~= Seq::<Seq<char>>::empty());
        while i < list.len()
            invariant
                i <= list@.len(),
                rs == records_view(list@),
                parts == rs.map_values(|r: RecordView| record_brief(r, Seq::empty())),
                output@ == head + concat(parts.take(i as int)),
            decreases list@.len() - i,
        {
            push_record_brief(&mut output, &list[i], "");
            proof {
                reveal_strlit("");
                lemma_concat_step(parts, i as int);
            }
            i = i + 1;
        }
        assert(parts.take(parts.len() as int) =~= parts);
    }
    proof {
        reveal_strlit(" - ");
        reveal_strlit(" ");
        reveal_strlit("record");
        reveal_strlit("\n");
        reveal_strlit("No records.\n");
        assert(output@ =~= title@ + " - "@ + decimal(rs.len()) + " "@ + plural(rs.len(), "record"@)
            + "\n"@ + if rs.len() == 0 {
            "No records.\n"@
        } else {
            briefs_text(rs)
        });
    }
    trim_trailing_newline(output)
}

/// Text of `tree` output.
pub open spec fn tree_text(root: Option<u128>, tree: Option<TreeView>) -> Seq<char> {
    without_trailing_newline(
        match (root, tree) {
            (Some(id), Some(node)) => "Tree rooted at "@ + id_text(id) + "\n"@ + node_text(
                node,
                Seq::empty(),
            ),
            _ => "Empty tree.\n"@,
        },
    )
}

/// View of an optional tree node.
pub open spec fn opt_tree_view(o: Option<&RecordTreeNode>) -> Option<TreeView> {
    match o {
        Some(n) => Some(tree_view(*n)),
        None => None,
    }
}

/// Formats `tree` output.
pub fn tree(root_id: Option<ChronicleId>, node: Option<&RecordTreeNode>) -> (s: String)
    ensures
        s@ == tree_text(crate::domain::view::opt_id_view(root_id), opt_tree_view(node)),
{
    let mut output = String::new();
    match (root_id, node) {
        (Some(id), Some(root)) => {
            push_str(&mut output, "Tree rooted at ");
            push_str(&mut output, id.to_string().as_str());
            push_char(&mut output, '\n');
            push_node(&mut output, root, "");
            proof {
                reveal_strlit("Tree rooted at ");
                reveal_strlit("\n");
                reveal_strlit("");
                assert(output@ =~= "Tree rooted at "@ + id_text(id@) + "\n"@ + node_text(
                    tree_view(*root),
                    Seq::empty(),
                ));
            }
        },
        _ => {
            push_str(&mut output, "Empty tree.\n");
            proof {
                reveal_strlit("Empty tree.\n");
                assert(output@ =~= "Empty tree.\n"@);
            }
        },
    }
    trim_trailing_newline(output)
}

/// Text of `day` output.
pub open spec fn day_text(date: Seq<char>, timezone: Seq<char>, count: nat, tree: Option<TreeView>) -> Seq<char> {
    without_trailing_newline(
        date + " ("@ + timezone + ") - "@ + decimal(count) + " "@ + plural(count, "record"@) + "\n"@
            + match tree {
            Some(root) => if root.children.len() > 0 {
                concat(forest_texts(root.children, Seq::empty()))
            } else {
                "No records.\n"@
            },
            None => "No records.\n"@,
        },
    )
}

/// Formats a day tree for interactive terminal output.
pub fn day(day_key: &DayKey, record_count: usize, tree: Option<&RecordTreeNode>) -> (s: String)
    ensures
        s@ == day_text(day_key@.date, day_key@.timezone, record_count as nat, opt_tree_view(tree)),
{
    let mut output = owned(day_key.date.as_str());
    push_str(&mut output, " (");
    push_str(&mut output, day_key.timezone.as_str());
    push_str(&mut output, ") - ");
    push_decimal(&mut output, record_count as u64);
    push_str(&mut output, " ");
    push_str(&mut output, pluralize(record_count, "record").as_str());
    push_char(&mut output, '\n');
    let ghost head = output@;
    let mut shown = false;
    match tree {
        Some(root) => {
            if root.children.len() > 0 {
                shown = true;
                let ghost tv = tree_view(*root);
                let ghost parts = forest_texts(tv.children, Seq::empty());
                let mut k: usize = 0;
                assert(parts.take(0) =~= Seq::<Seq<char>>::empty());
                while k < root.children.len()
                    invariant
                        k <= root.children.len(),
                        tv == tree_view(*root),
                        parts == forest_texts(tv.children, Seq::empty()),
                        parts.len() == root.children@.len(),
                        forall|i: int| 0 <= i < parts.len() ==> #[trigger] parts[i] == node_text(tree_view(root.children@[i]), Seq::empty()),
                        output@ == head + concat(parts.take(k as int)),
                    decreases root.children.len() - k,
                {
                    push_node(&mut output, &root.children[k], "");
                    proof {
                        reveal_strlit("");
                        lemma_concat_step(parts, k as int);
                    }
                    k = k + 1;
                }
                assert(parts.take(parts.len() as int) =~= parts);
            }
        },
        None => {},
    }
    if !shown {
        push_str(&mut output, "No records.\n");
    }
    proof {
        reveal_strlit(" (");
        reveal_strlit(") - ");
        reveal_strlit(" ");
        reveal_strlit("record");
        reveal_strlit("\n");
        reveal_strlit("No records.\n");
        assert(output@ =~= day_key@.date + " ("@ + day_key@.timezone + ") - "@ + decimal(record_count as nat) + " "@
            + plural(record_count as nat, "record"@) + "\n"@ + match opt_tree_view(tree) {
            Some(root) => if root.children.len() > 0 {
                concat(forest_texts(root.children, Seq::empty()))
            } else {
                "No records.\n"@
            },
            None => "No records.\n"@,
        });
    }
    trim_trailing_newline(output)
}

/// Text of successful `doctor` output.
pub open spec fn doctor_valid_text(
    archive_id: u128,
    created_at: i64,
    event_count: nat,
    record_count: nat,
    store: Seq<char>,
    checked_at: i64,
) -> Seq<char> {
    "Archive valid\nchecked: "@ + time_text(checked_at) + "\narchive: "@ + id_text(archive_id)
        + "\ncreated: "@ + time_text(created_at) + "\nevents: "@ + decimal(event_count)
        + "\nrecords: "@ + decimal(record_count) + "\nstore: "@ + store
}

/// Formats successful store `doctor` output.
pub fn store_doctor_valid(
    archive_id: ChronicleId,
    created_at: Timestamp,
    event_count: usize,
    record_count: usize,
    store: &str,
    checked_at: Timestamp,
) -> (s: String)
    ensures
        s@ == doctor_valid_text(
            archive_id@,
            created_at@,
            event_count as nat,
            record_count as nat,
            store@,
            checked_at@,
        ),
{
    let mut s = owned("Archive valid\nchecked: ");
    push_str(&mut s, format_time(checked_at).as_str());
    push_str(&mut s, "\narchive: ");
    push_str(&mut s, archive_id.to_string().as_str());
    push_str(&mut s, "\ncreated: ");
    push_str(&mut s, format_time(created_at).as_str());
    push_str(&mut s, "\nevents: ");
    push_decimal(&mut s, event_count as u64);
    push_str(&mut s, "\nrecords: ");
    push_decimal(&mut s, record_count as u64);
    push_str(&mut s, "\nstore: ");
    push_str(&mut s, store);
    proof {
        reveal_strlit("Archive valid\nchecked: ");
        reveal_strlit("\narchive: ");
        reveal_strlit("\ncreated: ");
        reveal_strlit("\nevents: ");
        reveal_strlit("\nrecords: ");
        reveal_strlit("\nstore: ");
        assert(s@ =~= doctor_valid_text(
            archive_id@,
            created_at@,
            event_count as nat,
            record_count as nat,
            store@,
            checked_at@,
        ));
    }
    s
}

/// Formats successful `doctor` output.
pub fn doctor_valid(archive: &Archive, record_count: usize, store: &str, checked_at: Timestamp) -> (s:
    String)
    ensures
        s@ == doctor_valid_text(
            archive@.archive_id,
            archive@.created_at,
            archive@.events.len(),
            record_count as nat,
            store@,
            checked_at@,
        ),
{
    store_doctor_valid(
        archive.archive_id,
        archive.created_at,
        archive.events.len(),
        record_count,
        store,
        checked_at,
    )
}

/// Formats missing-archive `doctor` output.
pub fn doctor_missing(store: &str, checked_at: Timestamp) -> (s: String)
    ensures
        s@ == "Archive missing; no corruption found\nchecked: "@ + time_text(checked_at@)
            + "\nstore: "@ + store@,
{
    let mut s = owned("Archive missing; no corruption found\nchecked: ");
    push_str(&mut s, format_time(checked_at).as_str());
    push_str(&mut s, "\nstore: ");
    push_str(&mut s, store);
    proof {
        reveal_strlit("Archive missing; no corruption found\nchecked: ");
        reveal_strlit("\nstore: ");
    }
    s
}

/// Formats invalid-archive `doctor` output.
pub fn doctor_invalid(error: &SillokError, store: &str, checked_at: Timestamp) -> (s: String)
    ensures
        s@ == "Archive invalid\nchecked: "@ + time_text(checked_at@) + "\nerror: "@ + error.code@
            + ": "@ + error.message@ + "\nstore: "@ + store@,
{
    let mut s = owned("Archive invalid\nchecked: ");
    push_str(&mut s, format_time(checked_at).as_str());
    push_str(&mut s, "\nerror: ");
    push_str(&mut s, error.to_text().as_str());
    push_str(&mut s, "\nstore: ");
    push_str(&mut s, store);
    proof {
        reveal_strlit("Archive invalid\nchecked: ");
        reveal_strlit("\nerror: ");
        reveal_strlit("\nstore: ");
        reveal_strlit(": ");
        assert(s@ =~= "Archive invalid\nchecked: "@ + time_text(checked_at@) + "\nerror: "@
            + error.code@ + ": "@ + error.message@ + "\nstore: "@ + store@);
    }
    s
}

/// A backup path, or `none`.
pub open spec fn backup_text(backup: Option<Seq<char>>) -> Seq<char> {
    match backup {
        Some(p) => p,
        None => "none"@,
    }
}

/// View of an optional text slice.
pub open spec fn opt_str(o: Option<&str>) -> Option<Seq<char>> {
    match o {
        Some(s) => Some(s@),
        None => None,
    }
}

fn push_backup(out: &mut String, backup: Option<&str>)
    ensures
        final(out)@ == old(out)@ + backup_text(opt_str(backup)),
{
    match backup {
        Some(path) => push_str(out, path),
        None => {
            push_str(out, "none");
            proof {
                reveal_strlit("none");
            }
        },
    }
}

/// Text of `truncate` output.
pub open spec fn truncate_text(archive_id: u128, created_at: i64, backup: Option<Seq<char>>, store: Seq<char>) -> Seq<char> {
    "Truncated archive\narchive: "@ + id_text(archive_id) + "\ncreated: "@ + time_text(created_at)
        + "\nbackup: "@ + backup_text(backup) + "\nstore: "@ + store
}

/// Formats store `truncate` output.
pub fn store_truncate(
    archive_id: ChronicleId,
    created_at: Timestamp,
    backup: Option<&str>,
    store: &str,
) -> (s: String)
    ensures
        s@ == truncate_text(archive_id@, created_at@, opt_str(backup), store@),
{
    let mut s = owned("Truncated archive\narchive: ");
    push_str(&mut s, archive_id.to_string().as_str());
    push_str(&mut s, "\ncreated: ");
    push_str(&mut s, format_time(created_at).as_str());
    push_str(&mut s, "\nbackup: ");
    push_backup(&mut s, backup);
    push_str(&mut s, "\nstore: ");
    push_str(&mut s, store);
    proof {
        reveal_strlit("Truncated archive\narchive: ");
        reveal_strlit("\ncreated: ");
        reveal_strlit("\nbackup: ");
        reveal_strlit("\nstore: ");
        assert(s@ =~= truncate_text(archive_id@, created_at@, opt_str(backup), store@));
    }
    s
}

/// Formats `truncate` output.
pub fn truncate(archive: &Archive, backup: Option<&str>, store: &str) -> (s: String)
    ensures
        s@ == truncate_text(archive@.archive_id, archive@.created_at, opt_str(backup), store@),
{
    store_truncate(archive.archive_id, archive.created_at, backup, store)
}

/// Text of successful `migrate` output.
pub open spec fn migrate_text(
    source: Seq<char>,
    target: Seq<char>,
    backup: Option<Seq<char>>,
    event_count: nat,
    record_count: nat,
    dry_run: bool,
) -> Seq<char> {
    (if dry_run {
        "Migration dry run"@
    } else {
        "Migrated archive"@
    }) + "\nsource: "@ + source + "\ntarget: "@ + target + "\nbackup: "@ + backup_text(backup)
        + "\nevents: "@ + decimal(event_count) + "\nrecords: "@ + decimal(record_count)
}

/// Formats successful `migrate` output.
pub fn migrate(
    source: &str,
    target: &str,
    backup: Option<&str>,
    event_count: usize,
    record_count: usize,
    dry_run: bool,
) -> (s: String)
    ensures
        s@ == migrate_text(
            source@,
            target@,
            opt_str(backup),
            event_count as nat,
            record_count as nat,
            dry_run,
        ),
{
    let mut s = if dry_run {
        owned("Migration dry run")
    } else {
        owned("Migrated archive")
    };
    push_str(&mut s, "\nsource: ");
    push_str(&mut s, source);
    push_str(&mut s, "\ntarget: ");
    push_str(&mut s, target);
    push_str(&mut s, "\nbackup: ");
    push_backup(&mut s, backup);
    push_str(&mut s, "\nevents: ");
    push_decimal(&mut s, event_count as u64);
    push_str(&mut s, "\nrecords: ");
    push_decimal(&mut s, record_count as u64);
    proof {
        reveal_strlit("Migration dry run");
        reveal_strlit("Migrated archive");
        reveal_strlit("\nsource: ");
        reveal_strlit("\ntarget: ");
        reveal_strlit("\nbackup: ");
        reveal_strlit("\nevents: ");
        reveal_strlit("\nrecords: ");
        assert(s@ =~= migrate_text(
            source@,
            target@,
            opt_str(backup),
            event_count as nat,
            record_count as nat,
            dry_run,
        ));
    }
    s
}

/// `needle` occurs in `hay` right after `before`.
proof fn lemma_occurs_after(before: Seq<char>, needle: Seq<char>, after: Seq<char>)
    ensures
        contains_text(before + needle + after, needle),
{
    let hay = before + needle + after;
    assert(hay.subrange(before.len() as int, (before.len() + needle.len()) as int) =~= needle);
}

/// A record's details show when it was created and when it was last updated,
/// each on its own labelled line: `created: ` and `updated: ` followed by the
/// RFC 3339 text of `created_at` and of `updated_at`.
pub proof fn lemma_details_show_times(r: RecordView, indent: Seq<char>)
    ensures
        contains_text(record_details(r, indent), indent + "created: "@ + timestamp_text(r.created_at) + "\n"@),
        contains_text(record_details(r, indent), indent + "updated: "@ + timestamp_text(r.updated_at) + "\n"@),
{
    let head = line(indent, status_text(r.status) + " "@ + kind_text(r.kind) + ": "@, r.text)
        + line(indent, "id: "@, id_text(r.record_id));
    let created = indent + "created: "@ + timestamp_text(r.created_at) + "\n"@;
    let updated = indent + "updated: "@ + timestamp_text(r.updated_at) + "\n"@;
    let tail = line(indent, "day: "@, id_text(r.day_id)) + (match r.parent_id {
        Some(p) => line(indent, "parent: "@, id_text(p)),
        None => Seq::empty(),
    }) + extra_lines(r, indent);
    assert(record_details(r, indent) =~= head + created + (updated + tail));
    lemma_occurs_after(head, created, updated + tail);
    assert(record_details(r, indent) =~= (head + created) + updated + tail);
    lemma_occurs_after(head + created, updated, tail);
}

/// A record's line in a list or tree shows its text followed by its creation
/// time in brackets.
pub proof fn lemma_brief_shows_time(r: RecordView, indent: Seq<char>)
    ensures
        contains_text(record_brief(r, indent), r.text + " ("@ + timestamp_text(r.created_at) + ")"@),
{
    let label = indent + "- ["@ + status_text(r.status) + " "@ + kind_text(r.kind) + "] "@;
    let shown = r.text + " ("@ + timestamp_text(r.created_at) + ")"@;
    let rest = "\n"@ + line(indent, "  id: "@, id_text(r.record_id)) + (if r.updated_at != r.created_at {
        line(indent, "  updated: "@, time_text(r.updated_at))
    } else {
        Seq::empty()
    }) + extra_lines(r, indent + "  "@);
    assert(record_brief(r, indent) =~= label + shown + rest);
    lemma_occurs_after(label, shown, rest);
}

} // verus!
