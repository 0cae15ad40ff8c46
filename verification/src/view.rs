//! Mathematical models of the document tree. Every executable document type
//! has a view here built from `Seq`, `Option` and integers, so contracts can
//! state structural equality extensionally.

use vstd::prelude::*;
use crate::model::{AccessLevel, MediaDataType, Subsup, TaskItemState, UserType};

verus! {

/// View of a link mark's attributes.
pub struct LinkMarkV {
    pub collection: Option<Seq<char>>,
    pub href: Seq<char>,
    pub id: Option<Seq<char>>,
    pub occurrence_key: Option<Seq<char>>,
    pub title: Option<Seq<char>>,
}

/// View of an inline formatting mark.
pub enum MarkV {
    Strong,
    Em,
    Code,
    Link(LinkMarkV),
    Strike,
    Subsup(Subsup),
    TextColor(Seq<char>),
    Underline,
    BackgroundColor(Seq<char>),
}

/// View of a media mark.
pub enum MediaMarkV {
    Link(LinkMarkV),
    Border { color: Seq<char>, size: u32 },
}

/// View of one media entry.
pub struct MediaV {
    pub alt: Option<Seq<char>>,
    pub collection: Seq<char>,
    pub height: Option<u32>,
    pub id: Seq<char>,
    pub data_type: MediaDataType,
    pub width: Option<u32>,
    pub marks: Option<Seq<MediaMarkV>>,
}

/// View of an inline node.
pub enum InlineV {
    HardBreak,
    Text { text: Seq<char>, marks: Option<Seq<MarkV>> },
    Date { timestamp: Seq<char> },
    InlineCard { url: Option<Seq<char>> },
    Emoji { short_name: Seq<char>, text: Option<Seq<char>> },
    Mention {
        access_level: Option<AccessLevel>,
        id: Seq<char>,
        text: Option<Seq<char>>,
        user_type: Option<UserType>,
    },
    Status { local_id: Option<Seq<char>>, text: Seq<char>, color: Seq<char> },
    Unknown,
}

/// View of a table cell's attribute set.
pub struct CellAttrsV {
    pub background: Option<Seq<char>>,
    pub colspan: Option<u32>,
    pub colwidth: Option<Seq<u32>>,
    pub rowspan: Option<u32>,
}

/// View of a table's attribute set.
pub struct TableAttrsV {
    pub is_number_column_enabled: Option<bool>,
    pub layout: Option<Seq<char>>,
    pub width: Option<u32>,
    pub display_mode: Option<Seq<char>>,
}

/// View of a row entry: a header cell or a data cell.
pub enum EntryV {
    Header { attrs: Option<CellAttrsV>, content: Seq<BlockV> },
    Cell { attrs: Option<CellAttrsV>, content: Seq<BlockV> },
}

/// View of a task item.
pub struct TaskItemV {
    pub content: Seq<InlineV>,
    pub local_id: Seq<char>,
    pub state: TaskItemState,
}

/// View of a decision item.
pub struct DecisionItemV {
    pub content: Seq<InlineV>,
    pub local_id: Seq<char>,
}

/// View of a block-card data source.
pub struct DataSourceV {
    pub id: Seq<char>,
    pub cloud_id: Seq<char>,
    pub jql: Seq<char>,
    pub views: Seq<Seq<Seq<char>>>,
}

/// View of a mark-stack action.
pub enum MarkActionV {
    Add(MarkV),
    Remove(MarkV),
}

/// View of a block node.
pub enum BlockV {
    Doc { content: Seq<BlockV>, version: i32 },
    Blockquote { content: Seq<BlockV> },
    BulletList { items: Seq<Seq<BlockV>> },
    CodeBlock { language: Option<Option<Seq<char>>>, content: Option<Seq<InlineV>> },
    Expand { title: Option<Seq<char>>, content: Seq<BlockV> },
    NestedExpand { title: Seq<char>, content: Seq<BlockV> },
    Paragraph { content: Option<Seq<InlineV>> },
    Rule,
    Heading { level: u8, content: Option<Seq<InlineV>> },
    Panel { panel_type: Seq<char>, content: Seq<BlockV> },
    MediaGroup { content: Seq<MediaV> },
    MediaSingle { layout: Seq<char>, content: Seq<MediaV> },
    Table { attrs: Option<TableAttrsV>, rows: Seq<Seq<EntryV>> },
    OrderedList { order: Option<Option<u32>>, items: Seq<Seq<BlockV>> },
    BlockCard { url: Seq<char>, datasource: DataSourceV },
    TaskList { local_id: Seq<char>, items: Seq<TaskItemV> },
    DecisionList { local_id: Seq<char>, items: Seq<DecisionItemV> },
    Unknown,
}

} // verus!
