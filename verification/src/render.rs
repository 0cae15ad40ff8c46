//! The forward direction: mechanical tree-walking from a document tree to
//! HTML text. Every function carries an exact contract: the text it appends
//! is fixed, character for character, by the spec-level rendering functions
//! below, which the builder's transition function is the dual of.

use vstd::prelude::*;
use vstd::string::StringExecFns;
use crate::html_builder::{Buffer, otag, ctag, sattr, tag_open_prefix};
use crate::model::{AdfBlockNode, AdfNode, AdfMark, MediaNode, MediaMark, MediaDataType,
    TableRow, TableRowEntry, TaskItem, DecisionItem, ListItem, TaskItemState, AccessLevel,
    UserType, Subsup, opt_str_v, blocks_v, inlines_v, marks_v, medias_v, media_marks_v,
    entries_v, rows_v, items_v, task_items_v, decision_items_v, block_v, inline_v, mark_v,
    media_v, entry_v, task_item_v, decision_item_v, lemma_blocks_v_props, lemma_inlines_v_props,
    lemma_marks_v_props, lemma_medias_v_props, lemma_media_marks_v_props, lemma_entries_v_props,
    lemma_rows_v_props, lemma_items_v_props, lemma_task_items_v_props,
    lemma_decision_items_v_props};
use crate::view::{BlockV, InlineV, MarkV, MediaV, MediaMarkV, LinkMarkV, EntryV, TaskItemV,
    DecisionItemV};
use crate::num::{parse_i64, parse_i64_spec, format_u32, dec_str_nat};
use crate::outside::{millis_to_rfc3339, url_encode, rfc3339_of, urlencoded, escaped_text,
    escaped_attr, ms_in_range};

verus! {

// ---------------------------------------------------------------------------
// The rendered text, as spec functions over the document views
// ---------------------------------------------------------------------------

/// The heading tag of a level; levels outside 1 to 6 render as level 6.
pub open spec fn heading_tag_spec(level: u8) -> Seq<char> {
    if level == 1 {
        "h1"@
    } else if level == 2 {
        "h2"@
    } else if level == 3 {
        "h3"@
    } else if level == 4 {
        "h4"@
    } else if level == 5 {
        "h5"@
    } else {
        "h6"@
    }
}

/// The serialized name of a user type.
pub open spec fn user_type_name_v(u: UserType) -> Seq<char> {
    match u {
        UserType::Standard => "DEFAULT"@,
        UserType::Special => "SPECIAL"@,
        UserType::App => "APP"@,
    }
}

/// The serialized name of an access level.
pub open spec fn access_level_name_v(a: AccessLevel) -> Seq<char> {
    match a {
        AccessLevel::NoAccess => "NONE"@,
        AccessLevel::Site => "SITE"@,
        AccessLevel::Application => "APPLICATION"@,
    }
}

/// A text run wrapped in its marks, outermost mark first.
pub open spec fn render_marks_v(marks: Seq<MarkV>, from: int, text: Seq<char>) -> Seq<char>
    decreases marks.len() - from,
{
    if from >= marks.len() {
        escaped_text(text)
    } else if from < 0 {
        escaped_text(text)
    } else {
        match marks[from] {
            MarkV::Strong => otag("strong"@) + render_marks_v(marks, from + 1, text) + ctag(
                "strong"@,
            ),
            MarkV::Em => otag("em"@) + render_marks_v(marks, from + 1, text) + ctag("em"@),
            MarkV::Code => otag("code"@) + render_marks_v(marks, from + 1, text) + ctag("code"@),
            MarkV::Link(l) => tag_open_prefix("a"@) + sattr("href"@, l.href) + ">"@ + render_marks_v(
                marks,
                from + 1,
                text,
            ) + ctag("a"@),
            MarkV::Strike => otag("del"@) + render_marks_v(marks, from + 1, text) + ctag("del"@),
            MarkV::Subsup(st) => {
                let tg = if st == Subsup::Sub {
                    "sub"@
                } else {
                    "sup"@
                };
                otag(tg) + render_marks_v(marks, from + 1, text) + ctag(tg)
            },
            MarkV::Underline => otag("u"@) + render_marks_v(marks, from + 1, text) + ctag("u"@),
            MarkV::TextColor(c) => tag_open_prefix("span"@) + sattr("style"@, "color: "@ + c) + ">"@
                + render_marks_v(marks, from + 1, text) + ctag("span"@),
            MarkV::BackgroundColor(c) => tag_open_prefix("span"@) + sattr(
                "style"@,
                "background-color: "@ + c,
            ) + ">"@ + render_marks_v(marks, from + 1, text) + ctag("span"@),
        }
    }
}

/// A date node: the timestamp is read as decimal epoch milliseconds
/// (defaulting to zero), clamped to the round-trippable window, and written
/// in its RFC 3339 form.
pub open spec fn render_date_v(ts: Seq<char>) -> Seq<char> {
    let ms0 = match parse_i64_spec(ts) {
        Option::Some(v) => v,
        Option::None => 0,
    };
    let ms: i64 = if ms_in_range(ms0) {
        ms0
    } else {
        0
    };
    tag_open_prefix("time"@) + sattr("datetime"@, rfc3339_of(ms)) + ">"@ + escaped_text(rfc3339_of(ms))
        + ctag("time"@)
}

/// One inline node.
pub open spec fn render_inline_v(n: InlineV) -> Seq<char> {
    match n {
        InlineV::HardBreak => tag_open_prefix("br"@) + " />"@,
        InlineV::Text { text, marks } => match marks {
            Option::Some(ms) => render_marks_v(ms, 0, text),
            Option::None => escaped_text(text),
        },
        InlineV::Date { timestamp } => render_date_v(timestamp),
        InlineV::Emoji { short_name, text } => tag_open_prefix("adf-emoji"@) + sattr("aria-alt"@, short_name)
            + ">"@ + escaped_text(
            match text {
                Option::Some(t) => t,
                Option::None => short_name,
            },
        ) + ctag("adf-emoji"@),
        InlineV::InlineCard { url } => match url {
            Option::Some(u) => tag_open_prefix("a"@) + sattr("href"@, u) + sattr(
                "data-inline-card"@,
                "true"@,
            ) + sattr("target"@, "_blank"@) + sattr("rel"@, "noopener noreferrer"@) + ">"@
                + escaped_text("External Link"@) + ctag("a"@),
            Option::None => Seq::empty(),
        },
        InlineV::Mention { access_level, id, text, user_type } => tag_open_prefix("adf-mention"@) + sattr(
            "data-mention-id"@,
            id,
        ) + (match user_type {
            Option::Some(u) => sattr("data-user-type"@, user_type_name_v(u)),
            Option::None => Seq::empty(),
        }) + (match access_level {
            Option::Some(a) => sattr("data-access-level"@, access_level_name_v(a)),
            Option::None => Seq::empty(),
        }) + ">"@ + (match text {
            Option::Some(t) => escaped_text(t),
            Option::None => Seq::empty(),
        }) + ctag("adf-mention"@),
        InlineV::Status { local_id, text, color } => tag_open_prefix("adf-status"@) + sattr(
            "style"@,
            "background-color: "@ + color,
        ) + (match local_id {
            Option::Some(i) => sattr("aria-label"@, i),
            Option::None => Seq::empty(),
        }) + ">"@ + escaped_text(text) + ctag("adf-status"@),
        InlineV::Unknown => Seq::empty(),
    }
}

/// A sequence of inline nodes, in order.
pub open spec fn render_inlines_v(s: Seq<InlineV>) -> Seq<char>
    decreases s.len(),
{
    if s.len() == 0 {
        Seq::empty()
    } else {
        render_inlines_v(s.drop_last()) + render_inline_v(s.last())
    }
}

/// The inline style recording a media entry's width and height.
pub open spec fn media_style_v(w: Option<u32>, h: Option<u32>) -> Seq<char> {
    let ws: Seq<char> = match w {
        Option::Some(x) => "width: "@ + dec_str_nat(x as int) + "px"@,
        Option::None => Seq::empty(),
    };
    match h {
        Option::Some(y) => (if ws.len() > 0 {
            ws + "; "@
        } else {
            ws
        }) + "height: "@ + dec_str_nat(y as int) + "px"@,
        Option::None => ws,
    }
}

/// The link mark a media entry renders through, if any: the first mark, when
/// it is a link.
pub open spec fn media_link_v(m: MediaV) -> Option<LinkMarkV> {
    match m.marks {
        Option::Some(ms) => if ms.len() > 0 {
            match ms[0] {
                MediaMarkV::Link(l) => Option::Some(l),
                _ => Option::None,
            }
        } else {
            Option::None
        },
        Option::None => Option::None,
    }
}

/// One media entry: file entries as an image element, link entries as an
/// anchor titled by the link's title or its href.
pub open spec fn render_media_v(m: MediaV) -> Seq<char> {
    match m.data_type {
        MediaDataType::File => {
            let style = media_style_v(m.width, m.height);
            tag_open_prefix("img"@) + sattr("data-collection"@, m.collection) + sattr(
                "data-media-id"@,
                m.id,
            ) + (match m.alt {
                Option::Some(a) => sattr("alt"@, a),
                Option::None => Seq::empty(),
            }) + (if style.len() > 0 {
                sattr("style"@, style)
            } else {
                Seq::empty()
            }) + " />"@
        },
        MediaDataType::Link => match media_link_v(m) {
            Option::Some(l) => tag_open_prefix("a"@) + sattr("href"@, l.href) + ">"@ + escaped_text(
                match l.title {
                    Option::Some(t) => t,
                    Option::None => l.href,
                },
            ) + ctag("a"@),
            Option::None => Seq::empty(),
        },
    }
}

/// A sequence of media entries, in order.
pub open spec fn render_medias_v(s: Seq<MediaV>) -> Seq<char>
    decreases s.len(),
{
    if s.len() == 0 {
        Seq::empty()
    } else {
        render_medias_v(s.drop_last()) + render_media_v(s.last())
    }
}

/// One row entry: a header or data cell holding rendered blocks.
pub open spec fn render_entry_v(e: EntryV) -> Seq<char>
    decreases e,
{
    match e {
        EntryV::Header { content, .. } => otag("th"@) + render_blocks_v(content) + ctag("th"@),
        EntryV::Cell { content, .. } => otag("td"@) + render_blocks_v(content) + ctag("td"@),
    }
}

/// The entries of one row, in order.
pub open spec fn render_entries_v(s: Seq<EntryV>) -> Seq<char>
    decreases s,
{
    if s.len() == 0 {
        Seq::empty()
    } else {
        render_entries_v(s.drop_last()) + render_entry_v(s.last())
    }
}

/// Whether a row holds any header cell.
pub open spec fn row_is_header_v(row: Seq<EntryV>) -> bool {
    exists|i: int| 0 <= i < row.len() && (#[trigger] row[i] matches EntryV::Header { .. })
}

/// The rows whose header-ness matches the flag, each wrapped in a row tag,
/// in order.
pub open spec fn render_rows_v(rows: Seq<Seq<EntryV>>, want_header: bool) -> Seq<char>
    decreases rows,
{
    if rows.len() == 0 {
        Seq::empty()
    } else {
        render_rows_v(rows.drop_last(), want_header) + (if row_is_header_v(rows.last())
            == want_header {
            otag("tr"@) + render_entries_v(rows.last()) + ctag("tr"@)
        } else {
            Seq::empty()
        })
    }
}

/// Whether some row's header-ness matches the flag.
pub open spec fn rows_have_v(rows: Seq<Seq<EntryV>>, want_header: bool) -> bool {
    exists|i: int| 0 <= i < rows.len() && row_is_header_v(#[trigger] rows[i]) == want_header
}

/// The items of a plain list, each a list-item element of rendered blocks.
pub open spec fn render_items_v(s: Seq<Seq<BlockV>>) -> Seq<char>
    decreases s,
{
    if s.len() == 0 {
        Seq::empty()
    } else {
        render_items_v(s.drop_last()) + otag("li"@) + render_blocks_v(s.last()) + ctag("li"@)
    }
}

/// One task item: the checkbox marker element, then the inline content.
pub open spec fn render_task_v(t: TaskItemV) -> Seq<char> {
    otag("li"@) + tag_open_prefix("adf-task-item"@) + sattr("id"@, t.local_id) + sattr(
        "type"@,
        "checkbox"@,
    ) + (if t.state == TaskItemState::Done {
        sattr("checked"@, ""@)
    } else {
        Seq::empty()
    }) + ">"@ + ctag("adf-task-item"@) + render_inlines_v(t.content) + ctag("li"@)
}

/// The items of a task list, in order.
pub open spec fn render_tasks_v(s: Seq<TaskItemV>) -> Seq<char>
    decreases s.len(),
{
    if s.len() == 0 {
        Seq::empty()
    } else {
        render_tasks_v(s.drop_last()) + render_task_v(s.last())
    }
}

/// One decision item: the marker element wrapping the inline content.
pub open spec fn render_decision_v(d: DecisionItemV) -> Seq<char> {
    otag("li"@) + tag_open_prefix("adf-decision-item"@) + sattr("id"@, d.local_id) + ">"@
        + render_inlines_v(d.content) + ctag("adf-decision-item"@) + ctag("li"@)
}

/// The items of a decision list, in order.
pub open spec fn render_decisions_v(s: Seq<DecisionItemV>) -> Seq<char>
    decreases s.len(),
{
    if s.len() == 0 {
        Seq::empty()
    } else {
        render_decisions_v(s.drop_last()) + render_decision_v(s.last())
    }
}

/// One block node.
pub open spec fn render_block_v(b: BlockV) -> Seq<char>
    decreases b,
{
    match b {
        BlockV::Blockquote { content } => otag("blockquote"@) + render_blocks_v(content) + ctag(
            "blockquote"@,
        ),
        BlockV::BlockCard { url, datasource } => tag_open_prefix("adf-block-card"@) + sattr(
            "data-block-card"@,
            url,
        ) + ">"@ + tag_open_prefix("adf-block-card-data-source"@) + sattr("data-source"@, datasource.id)
            + sattr("data-cloud-id"@, datasource.cloud_id) + sattr(
            "data-jql"@,
            urlencoded(datasource.jql),
        ) + ">"@ + ctag("adf-block-card-data-source"@) + ctag("adf-block-card"@),
        BlockV::BulletList { items } => otag("ul"@) + render_items_v(items) + ctag("ul"@),
        BlockV::CodeBlock { language, content } => otag("pre"@) + (match language {
            Option::Some(Option::Some(lang)) => tag_open_prefix("code"@) + sattr(
                "class"@,
                "language-"@ + lang,
            ) + ">"@,
            _ => otag("code"@),
        }) + (match content {
            Option::Some(c) => render_inlines_v(c),
            Option::None => Seq::empty(),
        }) + ctag("code"@) + ctag("pre"@),
        BlockV::Doc { content, .. } => otag("div"@) + render_blocks_v(content) + ctag("div"@),
        BlockV::Expand { title, content } => otag("details"@) + (match title {
            Option::Some(t) => otag("summary"@) + escaped_text(t) + ctag("summary"@),
            Option::None => Seq::empty(),
        }) + render_blocks_v(content) + ctag("details"@),
        BlockV::NestedExpand { title, content } => tag_open_prefix("details"@) + sattr(
            "data-nested"@,
            "true"@,
        ) + ">"@ + otag("summary"@) + escaped_text(title) + ctag("summary"@) + render_blocks_v(
            content,
        ) + ctag("details"@),
        BlockV::Heading { level, content } => otag(heading_tag_spec(level)) + (match content {
            Option::Some(c) => render_inlines_v(c),
            Option::None => Seq::empty(),
        }) + ctag(heading_tag_spec(level)),
        BlockV::MediaGroup { content } => otag("adf-media-group"@) + render_medias_v(content)
            + ctag("adf-media-group"@),
        BlockV::MediaSingle { layout, content } => tag_open_prefix("adf-media-single"@) + sattr(
            "data-layout"@,
            layout,
        ) + ">"@ + render_medias_v(content) + ctag("adf-media-single"@),
        BlockV::OrderedList { items, .. } => otag("ol"@) + render_items_v(items) + ctag("ol"@),
        BlockV::Panel { panel_type, content } => tag_open_prefix("figure"@) + sattr(
            "data-panel-type"@,
            panel_type,
        ) + ">"@ + render_blocks_v(content) + ctag("figure"@),
        BlockV::Paragraph { content } => otag("p"@) + (match content {
            Option::Some(c) => render_inlines_v(c),
            Option::None => Seq::empty(),
        }) + ctag("p"@),
        BlockV::Rule => tag_open_prefix("hr"@) + " />"@,
        BlockV::Table { rows, .. } => otag("table"@) + (if rows_have_v(rows, true) {
            otag("thead"@) + render_rows_v(rows, true) + ctag("thead"@)
        } else {
            Seq::empty()
        }) + (if rows_have_v(rows, false) {
            otag("tbody"@) + render_rows_v(rows, false) + ctag("tbody"@)
        } else {
            Seq::empty()
        }) + ctag("table"@),
        BlockV::TaskList { local_id, items } => tag_open_prefix("adf-local-data"@) + sattr(
            "data-tag"@,
            "task-list"@,
        ) + sattr("id"@, local_id) + ">"@ + ctag("adf-local-data"@) + otag("ul"@) + render_tasks_v(
            items,
        ) + ctag("ul"@),
        BlockV::DecisionList { local_id, items } => tag_open_prefix("adf-local-data"@) + sattr(
            "data-tag"@,
            "decision-list"@,
        ) + sattr("id"@, local_id) + ">"@ + ctag("adf-local-data"@) + otag("ul"@)
            + render_decisions_v(items) + ctag("ul"@),
        BlockV::Unknown => Seq::empty(),
    }
}

/// A sequence of block nodes, in order.
pub open spec fn render_blocks_v(s: Seq<BlockV>) -> Seq<char>
    decreases s,
{
    if s.len() == 0 {
        Seq::empty()
    } else {
        render_blocks_v(s.drop_last()) + render_block_v(s.last())
    }
}

/// The whole document: the rendered top-level blocks inside a body wrapper.
pub open spec fn spec_render_doc(content: Seq<BlockV>) -> Seq<char> {
    otag("body"@) + render_blocks_v(content) + ctag("body"@)
}

// ---------------------------------------------------------------------------
// The executable renderer, proved to emit exactly the text above
// ---------------------------------------------------------------------------

/// Renders a text run wrapped in its marks, outermost mark first.
#[verifier::rlimit(100)]
fn apply_marks(buf: &mut Buffer, marks: &Vec<AdfMark>, from: usize, text: &str)
    requires
        from <= marks@.len(),
    ensures
        final(buf).out@ == old(buf).out@ + render_marks_v(marks_v(marks@), from as int, text@),
    decreases marks@.len() - from,
{
    proof {
        lemma_marks_v_props(marks@);
    }
    if from == marks.len() {
        buf.text(text);
        return ;
    }
    let ghost base = buf.out@;
    match &marks[from] {
        AdfMark::Strong => {
            buf.open("strong");
            apply_marks(buf, marks, from + 1, text);
            buf.close("strong");
            proof {
                assert(buf.out@ =~= base + render_marks_v(marks_v(marks@), from as int, text@));
            }
        },
        AdfMark::Em => {
            buf.open("em");
            apply_marks(buf, marks, from + 1, text);
            buf.close("em");
            proof {
                assert(buf.out@ =~= base + render_marks_v(marks_v(marks@), from as int, text@));
            }
        },
        AdfMark::Code => {
            buf.open("code");
            apply_marks(buf, marks, from + 1, text);
            buf.close("code");
            proof {
                assert(buf.out@ =~= base + render_marks_v(marks_v(marks@), from as int, text@));
            }
        },
        AdfMark::Link(l) => {
            buf.open_partial("a");
            buf.attr("href", l.href.as_str());
            buf.seal();
            apply_marks(buf, marks, from + 1, text);
            buf.close("a");
            proof {
                assert(buf.out@ =~= base + render_marks_v(marks_v(marks@), from as int, text@));
            }
        },
        AdfMark::Strike => {
            buf.open("del");
            apply_marks(buf, marks, from + 1, text);
            buf.close("del");
            proof {
                assert(buf.out@ =~= base + render_marks_v(marks_v(marks@), from as int, text@));
            }
        },
        AdfMark::Subsup { type_ } => {
            let tag = match type_ {
                Subsup::Sub => "sub",
                Subsup::Sup => "sup",
            };
            buf.open(tag);
            apply_marks(buf, marks, from + 1, text);
            buf.close(tag);
            proof {
                assert(buf.out@ =~= base + render_marks_v(marks_v(marks@), from as int, text@));
            }
        },
        AdfMark::Underline => {
            buf.open("u");
            apply_marks(buf, marks, from + 1, text);
            buf.close("u");
            proof {
                assert(buf.out@ =~= base + render_marks_v(marks_v(marks@), from as int, text@));
            }
        },
        AdfMark::TextColor { color } => {
            let mut style = String::from_str("color: ");
            style.append(color.as_str());
            buf.open_partial("span");
            buf.attr("style", style.as_str());
            buf.seal();
            apply_marks(buf, marks, from + 1, text);
            buf.close("span");
            proof {
                assert(buf.out@ =~= base + render_marks_v(marks_v(marks@), from as int, text@));
            }
        },
        AdfMark::BackgroundColor { color } => {
            let mut style = String::from_str("background-color: ");
            style.append(color.as_str());
            buf.open_partial("span");
            buf.attr("style", style.as_str());
            buf.seal();
            apply_marks(buf, marks, from + 1, text);
            buf.close("span");
            proof {
                assert(buf.out@ =~= base + render_marks_v(marks_v(marks@), from as int, text@));
            }
        },
    }
}

/// Maps a user type to its serialized attribute value.
fn user_type_name(u: &UserType) -> (r: &'static str)
    ensures
        r@ == user_type_name_v(*u),
        crate::builder::user_type_of(r@) == Option::Some(*u),
{
    proof {
        reveal_strlit("DEFAULT");
        reveal_strlit("SPECIAL");
        reveal_strlit("APP");
        assert(("DEFAULT"@)[0] == 'D' && ("SPECIAL"@)[0] == 'S');
        assert(("DEFAULT"@).len() == 7 && ("SPECIAL"@).len() == 7 && ("APP"@).len() == 3);
        assert("DEFAULT"@ != "SPECIAL"@);
    }
    match u {
        UserType::Standard => "DEFAULT",
        UserType::Special => "SPECIAL",
        UserType::App => "APP",
    }
}

/// Maps an access level to its serialized attribute value.
fn access_level_name(a: &AccessLevel) -> (r: &'static str)
    ensures
        r@ == access_level_name_v(*a),
        crate::builder::access_level_of(r@) == Option::Some(*a),
{
    proof {
        reveal_strlit("NONE");
        reveal_strlit("SITE");
        reveal_strlit("APPLICATION");
        assert(("NONE"@)[0] == 'N' && ("SITE"@)[0] == 'S');
        assert(("NONE"@).len() == 4 && ("SITE"@).len() == 4 && ("APPLICATION"@).len() == 11);
        assert("NONE"@ != "SITE"@);
    }
    match a {
        AccessLevel::NoAccess => "NONE",
        AccessLevel::Site => "SITE",
        AccessLevel::Application => "APPLICATION",
    }
}


/// Renders a date element.
#[verifier::rlimit(50)]
fn render_date_el(buf: &mut Buffer, attrs: &crate::model::DateAttrs)
    ensures
        final(buf).out@ == old(buf).out@ + render_date_v(attrs.timestamp@),
{
    let ghost base = buf.out@;
    let ms0: i64 = match parse_i64(attrs.timestamp.as_str()) {
        Option::Some(v) => v,
        Option::None => 0,
    };
    let ms: i64 = if -62_167_219_200_000i64 <= ms0 && ms0 <= 253_402_300_799_999i64 {
        ms0
    } else {
        0
    };
    let date_str = millis_to_rfc3339(ms);
    buf.open_partial("time");
    buf.attr("datetime", date_str.as_str());
    buf.seal();
    buf.text(date_str.as_str());
    buf.close("time");
    proof {
        assert(buf.out@ =~= base + render_date_v(attrs.timestamp@));
    }
}

/// Renders an emoji element.
#[verifier::rlimit(50)]
fn render_emoji_el(buf: &mut Buffer, attrs: &crate::model::EmojiAttrs)
    ensures
        final(buf).out@ == old(buf).out@ + render_inline_v(
            (InlineV::Emoji { short_name: attrs.short_name@, text: opt_str_v(attrs.text) }),
        ),
{
    let ghost base = buf.out@;
    buf.open_partial("adf-emoji");
    buf.attr("aria-alt", attrs.short_name.as_str());
    buf.seal();
    match &attrs.text {
        Option::Some(t) => buf.text(t.as_str()),
        Option::None => buf.text(attrs.short_name.as_str()),
    }
    buf.close("adf-emoji");
    proof {
        assert(buf.out@ =~= base + render_inline_v(
            (InlineV::Emoji { short_name: attrs.short_name@, text: opt_str_v(attrs.text) }),
        ));
    }
}

/// Renders an inline-card anchor.
#[verifier::rlimit(50)]
fn render_card_el(buf: &mut Buffer, attrs: &crate::model::InlineCardAttrs)
    ensures
        final(buf).out@ == old(buf).out@ + render_inline_v(
            (InlineV::InlineCard { url: opt_str_v(attrs.url) }),
        ),
{
    let ghost base = buf.out@;
    match &attrs.url {
        Option::Some(url) => {
            buf.open_partial("a");
            buf.attr("href", url.as_str());
            buf.attr("data-inline-card", "true");
            buf.attr("target", "_blank");
            buf.attr("rel", "noopener noreferrer");
            buf.seal();
            buf.text("External Link");
            buf.close("a");
        },
        Option::None => {},
    }
    proof {
        assert(buf.out@ =~= base + render_inline_v(
            (InlineV::InlineCard { url: opt_str_v(attrs.url) }),
        ));
    }
}

/// Renders a mention element.
#[verifier::rlimit(50)]
fn render_mention_el(buf: &mut Buffer, attrs: &crate::model::MentionAttrs)
    ensures
        final(buf).out@ == old(buf).out@ + render_inline_v(
            (InlineV::Mention {
                access_level: attrs.access_level,
                id: attrs.id@,
                text: opt_str_v(attrs.text),
                user_type: attrs.user_type,
            }),
        ),
{
    let ghost base = buf.out@;
    buf.open_partial("adf-mention");
    buf.attr("data-mention-id", attrs.id.as_str());
    match &attrs.user_type {
        Option::Some(u) => buf.attr("data-user-type", user_type_name(u)),
        Option::None => {},
    }
    match &attrs.access_level {
        Option::Some(a) => buf.attr("data-access-level", access_level_name(a)),
        Option::None => {},
    }
    buf.seal();
    match &attrs.text {
        Option::Some(t) => buf.text(t.as_str()),
        Option::None => {},
    }
    buf.close("adf-mention");
    proof {
        assert(buf.out@ =~= base + render_inline_v(
            (InlineV::Mention {
                access_level: attrs.access_level,
                id: attrs.id@,
                text: opt_str_v(attrs.text),
                user_type: attrs.user_type,
            }),
        ));
    }
}

/// Renders a status chip element.
#[verifier::rlimit(50)]
fn render_status_el(buf: &mut Buffer, attrs: &crate::model::StatusAttrs)
    ensures
        final(buf).out@ == old(buf).out@ + render_inline_v(
            (InlineV::Status {
                local_id: opt_str_v(attrs.local_id),
                text: attrs.text@,
                color: attrs.color@,
            }),
        ),
{
    let ghost base = buf.out@;
    let mut style = String::from_str("background-color: ");
    style.append(attrs.color.as_str());
    buf.open_partial("adf-status");
    buf.attr("style", style.as_str());
    match &attrs.local_id {
        Option::Some(id) => buf.attr("aria-label", id.as_str()),
        Option::None => {},
    }
    buf.seal();
    buf.text(attrs.text.as_str());
    buf.close("adf-status");
    proof {
        assert(buf.out@ =~= base + render_inline_v(
            (InlineV::Status {
                local_id: opt_str_v(attrs.local_id),
                text: attrs.text@,
                color: attrs.color@,
            }),
        ));
    }
}

/// Renders inline nodes.
fn inner_adf_to_html(buf: &mut Buffer, adf: &Vec<AdfNode>)
    ensures
        final(buf).out@ == old(buf).out@ + render_inlines_v(inlines_v(adf@)),
    decreases adf@,
{
    let ghost base = buf.out@;
    let ghost sv = inlines_v(adf@);
    proof {
        lemma_inlines_v_props(adf@);
    }
    let mut i: usize = 0;
    while i < adf.len()
        invariant
            0 <= i <= adf.len(),
            sv == inlines_v(adf@),
            sv.len() == adf@.len(),
            forall|j: int| 0 <= j < adf@.len() ==> sv[j] == inline_v(#[trigger] adf@[j]),
            buf.out@ == base + render_inlines_v(sv.subrange(0, i as int)),
        decreases adf.len() - i,
    {
        proof {
            assert(sv.subrange(0, i + 1).drop_last() =~= sv.subrange(0, i as int));
            assert(sv.subrange(0, i + 1).last() == sv[i as int]);
        }
        render_inline(buf, &adf[i]);
        i += 1;
    }
    proof {
        assert(sv.subrange(0, sv.len() as int) =~= sv);
    }
}

/// Renders one inline node.
/// Renders one inline node.
fn render_inline(buf: &mut Buffer, node: &AdfNode)
    ensures
        final(buf).out@ == old(buf).out@ + render_inline_v(node@),
{
    let ghost base = buf.out@;
    match node {
        AdfNode::Date { attrs } => {
            render_date_el(buf, attrs);
        },
        AdfNode::Emoji { attrs } => {
            render_emoji_el(buf, attrs);
        },
        AdfNode::HardBreak => {
            buf.open_partial("br");
            buf.seal_void();
            proof {
                assert(buf.out@ =~= base + render_inline_v(node@));
            }
        },
        AdfNode::InlineCard { attrs } => {
            render_card_el(buf, attrs);
        },
        AdfNode::Mention { attrs } => {
            render_mention_el(buf, attrs);
        },
        AdfNode::Status { attrs } => {
            render_status_el(buf, attrs);
        },
        AdfNode::Text { text, marks } => {
            match marks {
                Option::Some(ms) => apply_marks(buf, ms, 0, text.as_str()),
                Option::None => buf.text(text.as_str()),
            }
        },
        AdfNode::Unknown => {},
    }
    proof {
        assert(buf.out@ == base + render_inline_v(node@));
    }
}

/// Renders media entries.
fn media_adf_to_html(buf: &mut Buffer, media_entries: &Vec<MediaNode>)
    ensures
        final(buf).out@ == old(buf).out@ + render_medias_v(medias_v(media_entries@)),
{
    let ghost base = buf.out@;
    let ghost sv = medias_v(media_entries@);
    proof {
        lemma_medias_v_props(media_entries@);
    }
    let mut i: usize = 0;
    while i < media_entries.len()
        invariant
            0 <= i <= media_entries.len(),
            sv == medias_v(media_entries@),
            sv.len() == media_entries@.len(),
            forall|j: int|
                0 <= j < media_entries@.len() ==> sv[j] == media_v(#[trigger] media_entries@[j]),
            buf.out@ == base + render_medias_v(sv.subrange(0, i as int)),
        decreases media_entries.len() - i,
    {
        proof {
            assert(sv.subrange(0, i + 1).drop_last() =~= sv.subrange(0, i as int));
            assert(sv.subrange(0, i + 1).last() == sv[i as int]);
        }
        render_media(buf, &media_entries[i]);
        i += 1;
    }
    proof {
        assert(sv.subrange(0, sv.len() as int) =~= sv);
    }
}

/// Renders one media entry.
fn render_media(buf: &mut Buffer, media_node: &MediaNode)
    ensures
        final(buf).out@ == old(buf).out@ + render_media_v(media_node@),
{
    let ghost base = buf.out@;
    let link: Option<&MediaMark> = match &media_node.marks {
        Option::Some(ms) => {
            proof {
                lemma_media_marks_v_props(ms@);
            }
            if ms.len() > 0 {
                Option::Some(&ms[0])
            } else {
                Option::None
            }
        },
        Option::None => Option::None,
    };
    match media_node.attrs.type_ {
        MediaDataType::File => {
            buf.open_partial("img");
            buf.attr("data-collection", media_node.attrs.collection.as_str());
            buf.attr("data-media-id", media_node.attrs.id.as_str());
            match &media_node.attrs.alt {
                Option::Some(alt) => buf.attr("alt", alt.as_str()),
                Option::None => {},
            }
            let mut style = String::new();
            match media_node.attrs.width {
                Option::Some(w) => {
                    style.append("width: ");
                    let ws = format_u32(w);
                    style.append(ws.as_str());
                    style.append("px");
                },
                Option::None => {},
            }
            match media_node.attrs.height {
                Option::Some(h) => {
                    if !style.as_str().is_empty() {
                        style.append("; ");
                    }
                    style.append("height: ");
                    let hs = format_u32(h);
                    style.append(hs.as_str());
                    style.append("px");
                },
                Option::None => {},
            }
            proof {
                assert(style@ =~= media_style_v(media_node.attrs.width, media_node.attrs.height));
            }
            if !style.as_str().is_empty() {
                buf.attr("style", style.as_str());
            }
            buf.seal_void();
        },
        MediaDataType::Link => {
            match link {
                Option::Some(MediaMark::Link(l)) => {
                    buf.open_partial("a");
                    buf.attr("href", l.href.as_str());
                    buf.seal();
                    match &l.title {
                        Option::Some(t) => buf.text(t.as_str()),
                        Option::None => buf.text(l.href.as_str()),
                    }
                    buf.close("a");
                },
                _ => {},
            }
        },
    }
    proof {
        assert(final(buf).out@ =~= base + render_media_v(media_node@));
    }
}

/// Renders the entries of one table row.
#[verifier::rlimit(100)]
fn table_cell_to_html(buf: &mut Buffer, adf: &Vec<TableRowEntry>)
    ensures
        final(buf).out@ == old(buf).out@ + render_entries_v(entries_v(adf@)),
    decreases adf@, 0int,
{
    let ghost base = buf.out@;
    let ghost sv = entries_v(adf@);
    proof {
        lemma_entries_v_props(adf@);
    }
    let mut i: usize = 0;
    while i < adf.len()
        invariant
            0 <= i <= adf.len(),
            sv == entries_v(adf@),
            sv.len() == adf@.len(),
            forall|j: int| 0 <= j < adf@.len() ==> sv[j] == entry_v(#[trigger] adf@[j]),
            buf.out@ == base + render_entries_v(sv.subrange(0, i as int)),
        decreases adf.len() - i,
    {
        let ghost pre = sv.subrange(0, i as int);
        proof {
            assert(sv.subrange(0, i + 1).drop_last() =~= pre);
            assert(sv.subrange(0, i + 1).last() == sv[i as int]);
        }
        match &adf[i] {
            TableRowEntry::TableCell(cell) => {
                buf.open("td");
                inner_block_adf_to_html(buf, &cell.content);
                buf.close("td");
                proof {
                    assert(render_entry_v(sv[i as int]) =~= otag("td"@) + render_blocks_v(
                        blocks_v(cell.content@),
                    ) + ctag("td"@));
                    assert(buf.out@ =~= base + render_entries_v(sv.subrange(0, i + 1)));
                }
            },
            TableRowEntry::TableHeader(header) => {
                buf.open("th");
                inner_block_adf_to_html(buf, &header.content);
                buf.close("th");
                proof {
                    assert(render_entry_v(sv[i as int]) =~= otag("th"@) + render_blocks_v(
                        blocks_v(header.content@),
                    ) + ctag("th"@));
                    assert(buf.out@ =~= base + render_entries_v(sv.subrange(0, i + 1)));
                }
            },
        }
        i += 1;
    }
    proof {
        assert(sv.subrange(0, sv.len() as int) =~= sv);
    }
}

/// Renders task items.
#[verifier::rlimit(100)]
fn task_item_to_html(buf: &mut Buffer, adf: &Vec<TaskItem>)
    ensures
        final(buf).out@ == old(buf).out@ + render_tasks_v(task_items_v(adf@)),
{
    let ghost base = buf.out@;
    let ghost sv = task_items_v(adf@);
    proof {
        lemma_task_items_v_props(adf@);
    }
    let mut i: usize = 0;
    while i < adf.len()
        invariant
            0 <= i <= adf.len(),
            sv == task_items_v(adf@),
            sv.len() == adf@.len(),
            forall|j: int| 0 <= j < adf@.len() ==> sv[j] == task_item_v(#[trigger] adf@[j]),
            buf.out@ == base + render_tasks_v(sv.subrange(0, i as int)),
        decreases adf.len() - i,
    {
        proof {
            assert(sv.subrange(0, i + 1).drop_last() =~= sv.subrange(0, i as int));
            assert(sv.subrange(0, i + 1).last() == sv[i as int]);
        }
        let item = &adf[i];
        buf.open("li");
        buf.open_partial("adf-task-item");
        buf.attr("id", item.attrs.local_id.as_str());
        buf.attr("type", "checkbox");
        if matches!(item.attrs.state, TaskItemState::Done) {
            buf.attr("checked", "");
        }
        buf.seal();
        buf.close("adf-task-item");
        inner_adf_to_html(buf, &item.content);
        buf.close("li");
        proof {
            assert(buf.out@ =~= base + render_tasks_v(sv.subrange(0, i + 1)));
        }
        i += 1;
    }
    proof {
        assert(sv.subrange(0, sv.len() as int) =~= sv);
    }
}

/// Renders decision items.
#[verifier::rlimit(100)]
fn decision_item_to_html(buf: &mut Buffer, adf: &Vec<DecisionItem>)
    ensures
        final(buf).out@ == old(buf).out@ + render_decisions_v(decision_items_v(adf@)),
{
    let ghost base = buf.out@;
    let ghost sv = decision_items_v(adf@);
    proof {
        lemma_decision_items_v_props(adf@);
    }
    let mut i: usize = 0;
    while i < adf.len()
        invariant
            0 <= i <= adf.len(),
            sv == decision_items_v(adf@),
            sv.len() == adf@.len(),
            forall|j: int| 0 <= j < adf@.len() ==> sv[j] == decision_item_v(#[trigger] adf@[j]),
            buf.out@ == base + render_decisions_v(sv.subrange(0, i as int)),
        decreases adf.len() - i,
    {
        proof {
            assert(sv.subrange(0, i + 1).drop_last() =~= sv.subrange(0, i as int));
            assert(sv.subrange(0, i + 1).last() == sv[i as int]);
        }
        let item = &adf[i];
        buf.open("li");
        buf.open_partial("adf-decision-item");
        buf.attr("id", item.attrs.local_id.as_str());
        buf.seal();
        inner_adf_to_html(buf, &item.content);
        buf.close("adf-decision-item");
        buf.close("li");
        proof {
            assert(buf.out@ =~= base + render_decisions_v(sv.subrange(0, i + 1)));
        }
        i += 1;
    }
    proof {
        assert(sv.subrange(0, sv.len() as int) =~= sv);
    }
}

/// Renders plain list items.
fn inner_list_to_html(buf: &mut Buffer, adf: &Vec<ListItem>)
    ensures
        final(buf).out@ == old(buf).out@ + render_items_v(items_v(adf@)),
    decreases adf@, 0int,
{
    let ghost base = buf.out@;
    let ghost sv = items_v(adf@);
    proof {
        lemma_items_v_props(adf@);
    }
    let mut i: usize = 0;
    while i < adf.len()
        invariant
            0 <= i <= adf.len(),
            sv == items_v(adf@),
            sv.len() == adf@.len(),
            forall|j: int|
                0 <= j < adf@.len() ==> sv[j] == blocks_v((#[trigger] adf@[j]).content@),
            buf.out@ == base + render_items_v(sv.subrange(0, i as int)),
        decreases adf.len() - i,
    {
        proof {
            assert(sv.subrange(0, i + 1).drop_last() =~= sv.subrange(0, i as int));
            assert(sv.subrange(0, i + 1).last() == sv[i as int]);
        }
        buf.open("li");
        inner_block_adf_to_html(buf, &adf[i].content);
        buf.close("li");
        proof {
            assert(buf.out@ =~= base + render_items_v(sv.subrange(0, i + 1)));
        }
        i += 1;
    }
    proof {
        assert(sv.subrange(0, sv.len() as int) =~= sv);
    }
}


/// Renders a block card element.
#[verifier::rlimit(50)]
fn render_block_card_el(buf: &mut Buffer, attrs: &crate::model::BlockCardAttrs)
    ensures
        final(buf).out@ == old(buf).out@ + render_block_v(
            (BlockV::BlockCard {
                url: attrs.url@,
                datasource: crate::model::datasource_v(attrs.datasource),
            }),
        ),
{
    let ghost base = buf.out@;
    buf.open_partial("adf-block-card");
    buf.attr("data-block-card", attrs.url.as_str());
    buf.seal();
    buf.open_partial("adf-block-card-data-source");
    buf.attr("data-source", attrs.datasource.id.as_str());
    buf.attr("data-cloud-id", attrs.datasource.parameters.cloud_id.as_str());
    let jql = url_encode(attrs.datasource.parameters.jql.as_str());
    buf.attr("data-jql", jql.as_str());
    buf.seal();
    buf.close("adf-block-card-data-source");
    buf.close("adf-block-card");
    proof {
        assert(buf.out@ =~= base + render_block_v(
            (BlockV::BlockCard {
                url: attrs.url@,
                datasource: crate::model::datasource_v(attrs.datasource),
            }),
        ));
    }
}

/// Renders the marker element and list of a task list.
#[verifier::rlimit(50)]
fn render_task_list_el(buf: &mut Buffer, attrs: &crate::model::LocalId, content: &Vec<TaskItem>)
    ensures
        final(buf).out@ == old(buf).out@ + render_block_v(
            (BlockV::TaskList { local_id: attrs.local_id@, items: task_items_v(content@) }),
        ),
{
    let ghost base = buf.out@;
    buf.open_partial("adf-local-data");
    buf.attr("data-tag", "task-list");
    buf.attr("id", attrs.local_id.as_str());
    buf.seal();
    buf.close("adf-local-data");
    buf.open("ul");
    task_item_to_html(buf, content);
    buf.close("ul");
    proof {
        assert(buf.out@ =~= base + render_block_v(
            (BlockV::TaskList { local_id: attrs.local_id@, items: task_items_v(content@) }),
        ));
    }
}

/// Renders the marker element and list of a decision list.
#[verifier::rlimit(50)]
fn render_decision_list_el(
    buf: &mut Buffer,
    attrs: &crate::model::LocalId,
    content: &Vec<DecisionItem>,
)
    ensures
        final(buf).out@ == old(buf).out@ + render_block_v(
            (BlockV::DecisionList {
                local_id: attrs.local_id@,
                items: decision_items_v(content@),
            }),
        ),
{
    let ghost base = buf.out@;
    buf.open_partial("adf-local-data");
    buf.attr("data-tag", "decision-list");
    buf.attr("id", attrs.local_id.as_str());
    buf.seal();
    buf.close("adf-local-data");
    buf.open("ul");
    decision_item_to_html(buf, content);
    buf.close("ul");
    proof {
        assert(buf.out@ =~= base + render_block_v(
            (BlockV::DecisionList {
                local_id: attrs.local_id@,
                items: decision_items_v(content@),
            }),
        ));
    }
}

/// Renders a code block element.
#[verifier::rlimit(50)]
fn render_code_block_el(
    buf: &mut Buffer,
    attrs: &Option<crate::model::CodeBlockAttrs>,
    content: &Option<Vec<AdfNode>>,
)
    ensures
        final(buf).out@ == old(buf).out@ + render_block_v(
            (BlockV::CodeBlock {
                language: match *attrs {
                    Option::Some(a) => Option::Some(opt_str_v(a.language)),
                    Option::None => Option::None,
                },
                content: crate::model::opt_inlines_v(*content),
            }),
        ),
{
    let ghost base = buf.out@;
    buf.open("pre");
    match attrs {
        Option::Some(a) => match &a.language {
            Option::Some(lang) => {
                let mut class = String::from_str("language-");
                class.append(lang.as_str());
                buf.open_partial("code");
                buf.attr("class", class.as_str());
                buf.seal();
            },
            Option::None => buf.open("code"),
        },
        Option::None => buf.open("code"),
    }
    match content {
        Option::Some(c) => inner_adf_to_html(buf, c),
        Option::None => {},
    }
    buf.close("code");
    buf.close("pre");
    proof {
        assert(buf.out@ =~= base + render_block_v(
            (BlockV::CodeBlock {
                language: match *attrs {
                    Option::Some(a) => Option::Some(opt_str_v(a.language)),
                    Option::None => Option::None,
                },
                content: crate::model::opt_inlines_v(*content),
            }),
        ));
    }
}

/// Renders a nested-expand element.
#[verifier::rlimit(50)]
fn render_nested_expand_el(
    buf: &mut Buffer,
    attrs: &crate::model::NestedAttrs,
    content: &Vec<AdfBlockNode>,
)
    ensures
        final(buf).out@ == old(buf).out@ + render_block_v(
            (BlockV::NestedExpand { title: attrs.title@, content: blocks_v(content@) }),
        ),
    decreases content@, 1int,
{
    let ghost base = buf.out@;
    buf.open_partial("details");
    buf.attr("data-nested", "true");
    buf.seal();
    buf.open("summary");
    buf.text(attrs.title.as_str());
    buf.close("summary");
    inner_block_adf_to_html(buf, content);
    buf.close("details");
    proof {
        assert(buf.out@ =~= base + render_block_v(
            (BlockV::NestedExpand { title: attrs.title@, content: blocks_v(content@) }),
        ));
    }
}

/// Renders an expand element.
#[verifier::rlimit(50)]
fn render_expand_el(
    buf: &mut Buffer,
    attrs: &crate::model::ExpandAttrs,
    content: &Vec<AdfBlockNode>,
)
    ensures
        final(buf).out@ == old(buf).out@ + render_block_v(
            (BlockV::Expand { title: opt_str_v(attrs.title), content: blocks_v(content@) }),
        ),
    decreases content@, 1int,
{
    let ghost base = buf.out@;
    buf.open("details");
    match &attrs.title {
        Option::Some(t) => {
            buf.open("summary");
            buf.text(t.as_str());
            buf.close("summary");
        },
        Option::None => {},
    }
    inner_block_adf_to_html(buf, content);
    buf.close("details");
    proof {
        assert(buf.out@ =~= base + render_block_v(
            (BlockV::Expand { title: opt_str_v(attrs.title), content: blocks_v(content@) }),
        ));
    }
}

/// Renders a media-single element.
#[verifier::rlimit(50)]
fn render_media_single_el(
    buf: &mut Buffer,
    attrs: &crate::model::MediaSingleAttrs,
    content: &Vec<MediaNode>,
)
    ensures
        final(buf).out@ == old(buf).out@ + render_block_v(
            (BlockV::MediaSingle { layout: attrs.layout@, content: medias_v(content@) }),
        ),
{
    let ghost base = buf.out@;
    buf.open_partial("adf-media-single");
    buf.attr("data-layout", attrs.layout.as_str());
    buf.seal();
    media_adf_to_html(buf, content);
    buf.close("adf-media-single");
    proof {
        assert(buf.out@ =~= base + render_block_v(
            (BlockV::MediaSingle { layout: attrs.layout@, content: medias_v(content@) }),
        ));
    }
}

/// Renders a panel element.
#[verifier::rlimit(50)]
fn render_panel_el(
    buf: &mut Buffer,
    attrs: &crate::model::PanelAttrs,
    content: &Vec<AdfBlockNode>,
)
    ensures
        final(buf).out@ == old(buf).out@ + render_block_v(
            (BlockV::Panel { panel_type: attrs.panel_type@, content: blocks_v(content@) }),
        ),
    decreases content@, 1int,
{
    let ghost base = buf.out@;
    buf.open_partial("figure");
    buf.attr("data-panel-type", attrs.panel_type.as_str());
    buf.seal();
    inner_block_adf_to_html(buf, content);
    buf.close("figure");
    proof {
        assert(buf.out@ =~= base + render_block_v(
            (BlockV::Panel { panel_type: attrs.panel_type@, content: blocks_v(content@) }),
        ));
    }
}

/// The heading tag of a level; levels outside 1 to 6 are clamped to 6.
fn heading_tag(level: u8) -> (r: &'static str)
    ensures
        r@ == heading_tag_spec(level),
{
    if level == 1 {
        "h1"
    } else if level == 2 {
        "h2"
    } else if level == 3 {
        "h3"
    } else if level == 4 {
        "h4"
    } else if level == 5 {
        "h5"
    } else {
        "h6"
    }
}

/// Renders one block node.
#[verifier::rlimit(100)]
fn render_block(buf: &mut Buffer, node: &AdfBlockNode)
    ensures
        final(buf).out@ == old(buf).out@ + render_block_v(node@),
    decreases *node, 0int,
{
    let ghost base = buf.out@;
    match node {
        AdfBlockNode::Blockquote { content } => {
            buf.open("blockquote");
            inner_block_adf_to_html(buf, content);
            buf.close("blockquote");
        },
        AdfBlockNode::BlockCard { attrs } => {
            render_block_card_el(buf, attrs);
        },
        AdfBlockNode::BulletList { content } => {
            buf.open("ul");
            inner_list_to_html(buf, content);
            buf.close("ul");
        },
        AdfBlockNode::CodeBlock { attrs, content } => {
            render_code_block_el(buf, attrs, content);
        },
        AdfBlockNode::Doc { content, .. } => {
            buf.open("div");
            inner_block_adf_to_html(buf, content);
            buf.close("div");
        },
        AdfBlockNode::Expand { content, attrs } => {
            render_expand_el(buf, attrs, content);
        },
        AdfBlockNode::NestedExpand { attrs, content } => {
            render_nested_expand_el(buf, attrs, content);
        },
        AdfBlockNode::Heading { attrs, content } => {
            let tag = heading_tag(attrs.level);
            buf.open(tag);
            match content {
                Option::Some(c) => inner_adf_to_html(buf, c),
                Option::None => {},
            }
            buf.close(tag);
        },
        AdfBlockNode::MediaGroup { content } => {
            buf.open("adf-media-group");
            media_adf_to_html(buf, content);
            buf.close("adf-media-group");
        },
        AdfBlockNode::MediaSingle { attrs, content } => {
            render_media_single_el(buf, attrs, content);
        },
        AdfBlockNode::OrderedList { content, .. } => {
            buf.open("ol");
            inner_list_to_html(buf, content);
            buf.close("ol");
        },
        AdfBlockNode::Panel { attrs, content } => {
            render_panel_el(buf, attrs, content);
        },
        AdfBlockNode::Paragraph { content } => {
            buf.open("p");
            match content {
                Option::Some(c) => inner_adf_to_html(buf, c),
                Option::None => {},
            }
            buf.close("p");
        },
        AdfBlockNode::Rule => {
            buf.open_partial("hr");
            buf.seal_void();
        },
        AdfBlockNode::Table { content, .. } => {
            proof {
                lemma_rows_v_props(content@);
            }
            buf.open("table");
            let has_header = rows_have(content, true);
            let has_body = rows_have(content, false);
            if has_header {
                buf.open("thead");
                render_rows(buf, content, true);
                buf.close("thead");
            }
            if has_body {
                buf.open("tbody");
                render_rows(buf, content, false);
                buf.close("tbody");
            }
            buf.close("table");
        },
        AdfBlockNode::TaskList { content, attrs } => {
            render_task_list_el(buf, attrs, content);
        },
        AdfBlockNode::DecisionList { content, attrs } => {
            render_decision_list_el(buf, attrs, content);
        },
        AdfBlockNode::Unknown => {},
    }
    proof {
        assert(buf.out@ =~= base + render_block_v(node@));
    }
}

/// Whether some row's header-ness matches the flag.
fn rows_have(rows: &Vec<TableRow>, want_header: bool) -> (r: bool)
    ensures
        r == rows_have_v(rows_v(rows@), want_header),
{
    proof {
        lemma_rows_v_props(rows@);
    }
    let ghost sv = rows_v(rows@);
    let mut i: usize = 0;
    while i < rows.len()
        invariant
            0 <= i <= rows.len(),
            sv == rows_v(rows@),
            sv.len() == rows@.len(),
            forall|j: int|
                0 <= j < rows@.len() ==> sv[j] == entries_v((#[trigger] rows@[j]).content@),
            forall|j: int| 0 <= j < i ==> row_is_header_v(#[trigger] sv[j]) != want_header,
        decreases rows.len() - i,
    {
        if row_has_header(&rows[i]) == want_header {
            proof {
                assert(row_is_header_v(sv[i as int]) == want_header);
                assert(rows_have_v(sv, want_header));
            }
            return true;
        }
        i += 1;
    }
    false
}

/// Renders the rows whose header-ness matches the flag, in order.
fn render_rows(buf: &mut Buffer, rows: &Vec<TableRow>, want_header: bool)
    ensures
        final(buf).out@ == old(buf).out@ + render_rows_v(rows_v(rows@), want_header),
    decreases rows@, 0int,
{
    let ghost base = buf.out@;
    let ghost sv = rows_v(rows@);
    proof {
        lemma_rows_v_props(rows@);
    }
    let mut k: usize = 0;
    while k < rows.len()
        invariant
            0 <= k <= rows.len(),
            sv == rows_v(rows@),
            sv.len() == rows@.len(),
            forall|j: int|
                0 <= j < rows@.len() ==> sv[j] == entries_v((#[trigger] rows@[j]).content@),
            buf.out@ == base + render_rows_v(sv.subrange(0, k as int), want_header),
        decreases rows.len() - k,
    {
        proof {
            assert(sv.subrange(0, k + 1).drop_last() =~= sv.subrange(0, k as int));
            assert(sv.subrange(0, k + 1).last() == sv[k as int]);
        }
        if row_has_header(&rows[k]) == want_header {
            buf.open("tr");
            table_cell_to_html(buf, &rows[k].content);
            buf.close("tr");
        }
        proof {
            assert(buf.out@ =~= base + render_rows_v(sv.subrange(0, k + 1), want_header));
        }
        k += 1;
    }
    proof {
        assert(sv.subrange(0, sv.len() as int) =~= sv);
    }
}

/// Whether a row holds any header cell.
fn row_has_header(row: &TableRow) -> (r: bool)
    ensures
        r == row_is_header_v(entries_v(row.content@)),
{
    proof {
        lemma_entries_v_props(row.content@);
    }
    let ghost sv = entries_v(row.content@);
    let mut i: usize = 0;
    while i < row.content.len()
        invariant
            0 <= i <= row.content.len(),
            sv == entries_v(row.content@),
            sv.len() == row.content@.len(),
            forall|j: int|
                0 <= j < row.content@.len() ==> sv[j] == entry_v(#[trigger] row.content@[j]),
            forall|j: int| 0 <= j < i ==> !(#[trigger] sv[j] matches EntryV::Header { .. }),
        decreases row.content.len() - i,
    {
        if matches!(&row.content[i], TableRowEntry::TableHeader(_)) {
            proof {
                assert(sv[i as int] matches EntryV::Header { .. });
            }
            return true;
        }
        i += 1;
    }
    false
}

/// Renders block nodes.
fn inner_block_adf_to_html(buf: &mut Buffer, adf: &Vec<AdfBlockNode>)
    ensures
        final(buf).out@ == old(buf).out@ + render_blocks_v(blocks_v(adf@)),
    decreases adf@, 0int,
{
    let ghost base = buf.out@;
    let ghost sv = blocks_v(adf@);
    proof {
        lemma_blocks_v_props(adf@);
    }
    let mut i: usize = 0;
    while i < adf.len()
        invariant
            0 <= i <= adf.len(),
            sv == blocks_v(adf@),
            sv.len() == adf@.len(),
            forall|j: int| 0 <= j < adf@.len() ==> sv[j] == block_v(#[trigger] adf@[j]),
            buf.out@ == base + render_blocks_v(sv.subrange(0, i as int)),
        decreases adf.len() - i,
    {
        proof {
            assert(sv.subrange(0, i + 1).drop_last() =~= sv.subrange(0, i as int));
            assert(sv.subrange(0, i + 1).last() == sv[i as int]);
        }
        render_block(buf, &adf[i]);
        proof {
            assert(buf.out@ =~= base + render_blocks_v(sv.subrange(0, i + 1)));
        }
        i += 1;
    }
    proof {
        assert(sv.subrange(0, sv.len() as int) =~= sv);
    }
}

/// Renders a document tree to HTML inside a body wrapper; the output is
/// exactly [`spec_render_doc`] of the tree. The second argument is a
/// diagnostic label carried along by callers; it does not change the output.
pub fn adf_to_html(adf: Vec<AdfBlockNode>, buf: &str) -> (r: String)
    ensures
        r@ == spec_render_doc(blocks_v(adf@)),
{
    let mut buffer = Buffer::new();
    buffer.open("body");
    inner_block_adf_to_html(&mut buffer, &adf);
    buffer.close("body");
    let out = buffer.finish();
    proof {
        assert(out@ =~= spec_render_doc(blocks_v(adf@)));
    }
    out
}

} // verus!
