//! The document model: the tagged-union node and mark types that the builder
//! produces and the renderer consumes, together with their mathematical views.

use vstd::prelude::*;
use vstd::string::StringExecFns;
use crate::view::{LinkMarkV, MarkV, MarkActionV, MediaMarkV, MediaV, InlineV, CellAttrsV,
    TableAttrsV, EntryV, TaskItemV, DecisionItemV, DataSourceV, BlockV};
use crate::text::str_eq;

verus! {

// ---------------------------------------------------------------------------
// Attribute structs
// ---------------------------------------------------------------------------

/// Attributes of a heading: its level, 1 to 6.
#[derive(Clone, Debug, PartialEq, Eq, Default)]
pub struct HeadingAttrs {
    pub level: u8,
}

/// Attributes of an expand block.
#[derive(Clone, Debug, PartialEq, Eq, Default)]
pub struct ExpandAttrs {
    pub title: Option<String>,
}

/// Attributes of a code block.
#[derive(Clone, Debug, PartialEq, Eq, Default)]
pub struct CodeBlockAttrs {
    pub language: Option<String>,
}

/// Attributes of an ordered list.
#[derive(Clone, Debug, PartialEq, Eq, Default)]
pub struct OrderedListAttrs {
    pub order: Option<u32>,
}

/// Attributes of a date node: a Unix-epoch millisecond timestamp in decimal.
#[derive(Clone, Debug, PartialEq, Eq, Default)]
pub struct DateAttrs {
    pub timestamp: String,
}

/// Attributes of an emoji node.
#[derive(Clone, Debug, PartialEq, Eq, Default)]
pub struct EmojiAttrs {
    pub short_name: String,
    pub text: Option<String>,
}

/// Attributes of an inline card.
#[derive(Clone, Debug, PartialEq, Eq, Default)]
pub struct InlineCardAttrs {
    pub url: Option<String>,
}

/// The media node kind tag.
#[derive(Clone, Copy, Debug, PartialEq, Eq, Default, Structural)]
pub enum MediaType {
    #[default]
    Media,
}

/// The kind of data a media entry references.
#[derive(Clone, Copy, Debug, PartialEq, Eq, Default, Structural)]
pub enum MediaDataType {
    #[default]
    File,
    Link,
}

/// Attributes of one media entry.
#[derive(Clone, Debug, PartialEq, Eq, Default)]
pub struct MediaAttrs {
    pub alt: Option<String>,
    pub collection: String,
    pub height: Option<u32>,
    pub id: String,
    pub type_: MediaDataType,
    pub width: Option<u32>,
}

/// The access level recorded on a mention.
#[derive(Clone, Copy, Debug, PartialEq, Eq, Default, Structural)]
pub enum AccessLevel {
    #[default]
    NoAccess,
    Site,
    Application,
}

/// The user type recorded on a mention.
#[derive(Clone, Copy, Debug, PartialEq, Eq, Default, Structural)]
pub enum UserType {
    #[default]
    Standard,
    Special,
    App,
}

/// Attributes of a mention node.
#[derive(Clone, Debug, PartialEq, Eq, Default)]
pub struct MentionAttrs {
    pub access_level: Option<AccessLevel>,
    pub id: String,
    pub text: Option<String>,
    pub user_type: Option<UserType>,
}

/// Attributes of a nested expand block.
#[derive(Clone, Debug, PartialEq, Eq, Default)]
pub struct NestedAttrs {
    pub title: String,
}

/// Attributes of a panel block.
#[derive(Clone, Debug, PartialEq, Eq, Default)]
pub struct PanelAttrs {
    pub panel_type: String,
}

/// Attributes of a status chip.
#[derive(Clone, Debug, PartialEq, Eq, Default)]
pub struct StatusAttrs {
    pub local_id: Option<String>,
    pub text: String,
    pub color: String,
}

/// Attributes of a table.
#[derive(Clone, Debug, PartialEq, Eq, Default)]
pub struct TableAttrs {
    pub is_number_column_enabled: Option<bool>,
    pub layout: Option<String>,
    pub width: Option<u32>,
    pub display_mode: Option<String>,
}

/// Attributes of a table cell or header cell.
#[derive(Clone, Debug, PartialEq, Eq, Default)]
pub struct TableCellAttrs {
    pub background: Option<String>,
    pub colspan: Option<u32>,
    pub colwidth: Option<Vec<u32>>,
    pub rowspan: Option<u32>,
}

/// Attributes of a media-single block.
#[derive(Clone, Debug, PartialEq, Eq, Default)]
pub struct MediaSingleAttrs {
    pub layout: String,
}

/// The two states a task item can be in.
#[derive(Clone, Copy, Debug, PartialEq, Eq, Default, Structural)]
pub enum TaskItemState {
    #[default]
    Todo,
    Done,
}

/// Attributes of a task item.
#[derive(Clone, Debug, PartialEq, Eq, Default)]
pub struct TaskItemAttrs {
    pub local_id: String,
    pub state: TaskItemState,
}

/// The single fixed state a decision item carries.
#[derive(Clone, Copy, Debug, PartialEq, Eq, Default, Structural)]
pub struct DecisionItemState;

/// Attributes of a decision item.
#[derive(Clone, Debug, PartialEq, Eq, Default)]
pub struct DecisionItemAttrs {
    pub state: DecisionItemState,
    pub local_id: String,
}

/// A bare local-id attribute set, used by task and decision lists.
#[derive(Clone, Debug, PartialEq, Eq, Default)]
pub struct LocalId {
    pub local_id: String,
}

/// Attributes of a block card.
#[derive(Clone, Debug, PartialEq, Eq, Default)]
pub struct BlockCardAttrs {
    pub datasource: DataSourceAttrs,
    pub url: String,
}

/// A block card's data source.
#[derive(Clone, Debug, PartialEq, Eq, Default)]
pub struct DataSourceAttrs {
    pub id: String,
    pub parameters: DataSourceParameters,
    pub views: Vec<DataSourceView>,
}

/// Query parameters of a block-card data source.
#[derive(Clone, Debug, PartialEq, Eq, Default)]
pub struct DataSourceParameters {
    pub cloud_id: String,
    pub jql: String,
}

/// One view definition of a block-card data source.
#[derive(Clone, Debug, PartialEq, Eq)]
pub enum DataSourceView {
    Table(TableViewProperties),
}

/// Column list of a table view.
#[derive(Clone, Debug, PartialEq, Eq, Default)]
pub struct TableViewProperties {
    pub columns: Vec<TableColumn>,
}

/// One column of a table view.
#[derive(Clone, Debug, PartialEq, Eq, Default)]
pub struct TableColumn {
    pub key: String,
}

/// Subscript or superscript.
#[derive(Clone, Copy, Debug, PartialEq, Eq, Default, Structural)]
pub enum Subsup {
    #[default]
    Sub,
    Sup,
}

/// Attributes of a link mark.
#[derive(Clone, Debug, PartialEq, Eq, Default)]
pub struct LinkMark {
    pub collection: Option<String>,
    pub href: String,
    pub id: Option<String>,
    pub occurrence_key: Option<String>,
    pub title: Option<String>,
}

// ---------------------------------------------------------------------------
// Marks
// ---------------------------------------------------------------------------

/// An inline formatting mark attached to a text run.
#[derive(Clone, Debug, PartialEq, Eq)]
pub enum AdfMark {
    Strong,
    Em,
    Code,
    Link(LinkMark),
    Strike,
    Subsup { type_: Subsup },
    TextColor { color: String },
    Underline,
    BackgroundColor { color: String },
}

/// A mark attached to a media entry.
#[derive(Clone, Debug, PartialEq, Eq)]
pub enum MediaMark {
    Link(LinkMark),
    Border { color: String, size: u32 },
}

// ---------------------------------------------------------------------------
// Nodes
// ---------------------------------------------------------------------------

/// An inline node.
#[derive(Clone, Debug, PartialEq, Eq)]
pub enum AdfNode {
    HardBreak,
    Text { text: String, marks: Option<Vec<AdfMark>> },
    Date { attrs: DateAttrs },
    InlineCard { attrs: InlineCardAttrs },
    Emoji { attrs: EmojiAttrs },
    Mention { attrs: MentionAttrs },
    Status { attrs: StatusAttrs },
    Unknown,
}

/// One media entry of a media group or media single.
#[derive(Clone, Debug, PartialEq, Eq, Default)]
pub struct MediaNode {
    pub media_type: MediaType,
    pub attrs: MediaAttrs,
    pub marks: Option<Vec<MediaMark>>,
}

/// A table header cell.
#[derive(Debug, PartialEq, Eq)]
pub struct TableHeader {
    pub attrs: Option<TableCellAttrs>,
    pub content: Vec<AdfBlockNode>,
}

/// A table data cell.
#[derive(Debug, PartialEq, Eq)]
pub struct TableCell {
    pub attrs: Option<TableCellAttrs>,
    pub content: Vec<AdfBlockNode>,
}

/// One entry of a table row: a header cell or a data cell.
#[derive(Debug, PartialEq, Eq)]
pub enum TableRowEntry {
    TableHeader(TableHeader),
    TableCell(TableCell),
}

/// A table row.
#[derive(Debug, PartialEq, Eq)]
pub struct TableRow {
    pub content: Vec<TableRowEntry>,
}

/// A task item of a task list.
#[derive(Clone, Debug, PartialEq, Eq)]
pub struct TaskItem {
    pub content: Vec<AdfNode>,
    pub attrs: TaskItemAttrs,
}

/// A decision item of a decision list.
#[derive(Clone, Debug, PartialEq, Eq)]
pub struct DecisionItem {
    pub content: Vec<AdfNode>,
    pub attrs: DecisionItemAttrs,
}

/// A plain list item of a bullet or ordered list.
#[derive(Debug, PartialEq, Eq)]
pub struct ListItem {
    pub content: Vec<AdfBlockNode>,
}

/// A block node.
#[derive(Debug, PartialEq, Eq)]
pub enum AdfBlockNode {
    Doc { content: Vec<AdfBlockNode>, version: i32 },
    Blockquote { content: Vec<AdfBlockNode> },
    BulletList { content: Vec<ListItem> },
    CodeBlock { attrs: Option<CodeBlockAttrs>, content: Option<Vec<AdfNode>> },
    Expand { content: Vec<AdfBlockNode>, attrs: ExpandAttrs },
    NestedExpand { attrs: NestedAttrs, content: Vec<AdfBlockNode> },
    Paragraph { content: Option<Vec<AdfNode>> },
    Rule,
    Heading { attrs: HeadingAttrs, content: Option<Vec<AdfNode>> },
    Panel { attrs: PanelAttrs, content: Vec<AdfBlockNode> },
    MediaGroup { content: Vec<MediaNode> },
    MediaSingle { attrs: MediaSingleAttrs, content: Vec<MediaNode> },
    Table { attrs: Option<TableAttrs>, content: Vec<TableRow> },
    OrderedList { attrs: Option<OrderedListAttrs>, content: Vec<ListItem> },
    BlockCard { attrs: BlockCardAttrs },
    TaskList { attrs: LocalId, content: Vec<TaskItem> },
    DecisionList { content: Vec<DecisionItem>, attrs: LocalId },
    Unknown,
}

// ---------------------------------------------------------------------------
// Views
// ---------------------------------------------------------------------------

/// View of an optional string.
pub open spec fn opt_str_v(o: Option<String>) -> Option<Seq<char>> {
    match o {
        Option::Some(s) => Option::Some(s@),
        Option::None => Option::None,
    }
}

/// View of an optional vector of integers.
pub open spec fn opt_u32s_v(o: Option<Vec<u32>>) -> Option<Seq<u32>> {
    match o {
        Option::Some(v) => Option::Some(v@),
        Option::None => Option::None,
    }
}

/// View of a link mark's attributes.
pub open spec fn link_v(l: LinkMark) -> LinkMarkV {
    LinkMarkV {
        collection: opt_str_v(l.collection),
        href: l.href@,
        id: opt_str_v(l.id),
        occurrence_key: opt_str_v(l.occurrence_key),
        title: opt_str_v(l.title),
    }
}

/// View of one mark.
pub open spec fn mark_v(m: AdfMark) -> MarkV {
    match m {
        AdfMark::Strong => MarkV::Strong,
        AdfMark::Em => MarkV::Em,
        AdfMark::Code => MarkV::Code,
        AdfMark::Link(l) => MarkV::Link(link_v(l)),
        AdfMark::Strike => MarkV::Strike,
        AdfMark::Subsup { type_ } => MarkV::Subsup(type_),
        AdfMark::TextColor { color } => MarkV::TextColor(color@),
        AdfMark::Underline => MarkV::Underline,
        AdfMark::BackgroundColor { color } => MarkV::BackgroundColor(color@),
    }
}

/// View of a mark sequence.
pub open spec fn marks_v(s: Seq<AdfMark>) -> Seq<MarkV>
    decreases s,
{
    if s.len() == 0 {
        Seq::empty()
    } else {
        marks_v(s.drop_last()).push(mark_v(s.last()))
    }
}

/// View of an optional mark list.
pub open spec fn opt_marks_v(o: Option<Vec<AdfMark>>) -> Option<Seq<MarkV>> {
    match o {
        Option::Some(v) => Option::Some(marks_v(v@)),
        Option::None => Option::None,
    }
}

/// View of one media mark.
pub open spec fn media_mark_v(m: MediaMark) -> MediaMarkV {
    match m {
        MediaMark::Link(l) => MediaMarkV::Link(link_v(l)),
        MediaMark::Border { color, size } => MediaMarkV::Border { color: color@, size },
    }
}

/// View of a media mark sequence.
pub open spec fn media_marks_v(s: Seq<MediaMark>) -> Seq<MediaMarkV>
    decreases s,
{
    if s.len() == 0 {
        Seq::empty()
    } else {
        media_marks_v(s.drop_last()).push(media_mark_v(s.last()))
    }
}

/// View of one media entry.
pub open spec fn media_v(m: MediaNode) -> MediaV {
    MediaV {
        alt: opt_str_v(m.attrs.alt),
        collection: m.attrs.collection@,
        height: m.attrs.height,
        id: m.attrs.id@,
        data_type: m.attrs.type_,
        width: m.attrs.width,
        marks: match m.marks {
            Option::Some(v) => Option::Some(media_marks_v(v@)),
            Option::None => Option::None,
        },
    }
}

/// View of a media entry sequence.
pub open spec fn medias_v(s: Seq<MediaNode>) -> Seq<MediaV>
    decreases s,
{
    if s.len() == 0 {
        Seq::empty()
    } else {
        medias_v(s.drop_last()).push(media_v(s.last()))
    }
}

/// View of one inline node.
pub open spec fn inline_v(n: AdfNode) -> InlineV {
    match n {
        AdfNode::HardBreak => InlineV::HardBreak,
        AdfNode::Text { text, marks } => InlineV::Text { text: text@, marks: opt_marks_v(marks) },
        AdfNode::Date { attrs } => InlineV::Date { timestamp: attrs.timestamp@ },
        AdfNode::InlineCard { attrs } => InlineV::InlineCard { url: opt_str_v(attrs.url) },
        AdfNode::Emoji { attrs } => InlineV::Emoji {
            short_name: attrs.short_name@,
            text: opt_str_v(attrs.text),
        },
        AdfNode::Mention { attrs } => InlineV::Mention {
            access_level: attrs.access_level,
            id: attrs.id@,
            text: opt_str_v(attrs.text),
            user_type: attrs.user_type,
        },
        AdfNode::Status { attrs } => InlineV::Status {
            local_id: opt_str_v(attrs.local_id),
            text: attrs.text@,
            color: attrs.color@,
        },
        AdfNode::Unknown => InlineV::Unknown,
    }
}

/// View of an inline node sequence.
pub open spec fn inlines_v(s: Seq<AdfNode>) -> Seq<InlineV>
    decreases s,
{
    if s.len() == 0 {
        Seq::empty()
    } else {
        inlines_v(s.drop_last()).push(inline_v(s.last()))
    }
}

/// View of an optional inline node list.
pub open spec fn opt_inlines_v(o: Option<Vec<AdfNode>>) -> Option<Seq<InlineV>> {
    match o {
        Option::Some(v) => Option::Some(inlines_v(v@)),
        Option::None => Option::None,
    }
}

/// View of a cell attribute set.
pub open spec fn cell_attrs_v(a: TableCellAttrs) -> CellAttrsV {
    CellAttrsV {
        background: opt_str_v(a.background),
        colspan: a.colspan,
        colwidth: opt_u32s_v(a.colwidth),
        rowspan: a.rowspan,
    }
}

/// View of an optional cell attribute set.
pub open spec fn opt_cell_attrs_v(o: Option<TableCellAttrs>) -> Option<CellAttrsV> {
    match o {
        Option::Some(a) => Option::Some(cell_attrs_v(a)),
        Option::None => Option::None,
    }
}

/// View of a table attribute set.
pub open spec fn table_attrs_v(a: TableAttrs) -> TableAttrsV {
    TableAttrsV {
        is_number_column_enabled: a.is_number_column_enabled,
        layout: opt_str_v(a.layout),
        width: a.width,
        display_mode: opt_str_v(a.display_mode),
    }
}

/// View of a block-card data source.
pub open spec fn datasource_v(d: DataSourceAttrs) -> DataSourceV {
    DataSourceV {
        id: d.id@,
        cloud_id: d.parameters.cloud_id@,
        jql: d.parameters.jql@,
        views: dsviews_v(d.views@),
    }
}

/// View of the views list of a data source: each view is its column key list.
pub open spec fn dsviews_v(s: Seq<DataSourceView>) -> Seq<Seq<Seq<char>>>
    decreases s,
{
    if s.len() == 0 {
        Seq::empty()
    } else {
        dsviews_v(s.drop_last()).push(dsview_v(s.last()))
    }
}

/// View of one data source view.
pub open spec fn dsview_v(v: DataSourceView) -> Seq<Seq<char>> {
    match v {
        DataSourceView::Table(p) => columns_v(p.columns@),
    }
}

/// View of a column list: the sequence of keys.
pub open spec fn columns_v(s: Seq<TableColumn>) -> Seq<Seq<char>>
    decreases s,
{
    if s.len() == 0 {
        Seq::empty()
    } else {
        columns_v(s.drop_last()).push(s.last().key@)
    }
}

/// View of one block node.
pub open spec fn block_v(n: AdfBlockNode) -> BlockV
    decreases n,
{
    match n {
        AdfBlockNode::Doc { content, version } => BlockV::Doc {
            content: blocks_v(content@),
            version,
        },
        AdfBlockNode::Blockquote { content } => BlockV::Blockquote { content: blocks_v(content@) },
        AdfBlockNode::BulletList { content } => BlockV::BulletList { items: items_v(content@) },
        AdfBlockNode::CodeBlock { attrs, content } => BlockV::CodeBlock {
            language: match attrs {
                Option::Some(a) => Option::Some(opt_str_v(a.language)),
                Option::None => Option::None,
            },
            content: opt_inlines_v(content),
        },
        AdfBlockNode::Expand { content, attrs } => BlockV::Expand {
            title: opt_str_v(attrs.title),
            content: blocks_v(content@),
        },
        AdfBlockNode::NestedExpand { attrs, content } => BlockV::NestedExpand {
            title: attrs.title@,
            content: blocks_v(content@),
        },
        AdfBlockNode::Paragraph { content } => BlockV::Paragraph {
            content: opt_inlines_v(content),
        },
        AdfBlockNode::Rule => BlockV::Rule,
        AdfBlockNode::Heading { attrs, content } => BlockV::Heading {
            level: attrs.level,
            content: opt_inlines_v(content),
        },
        AdfBlockNode::Panel { attrs, content } => BlockV::Panel {
            panel_type: attrs.panel_type@,
            content: blocks_v(content@),
        },
        AdfBlockNode::MediaGroup { content } => BlockV::MediaGroup { content: medias_v(content@) },
        AdfBlockNode::MediaSingle { attrs, content } => BlockV::MediaSingle {
            layout: attrs.layout@,
            content: medias_v(content@),
        },
        AdfBlockNode::Table { attrs, content } => BlockV::Table {
            attrs: match attrs {
                Option::Some(a) => Option::Some(table_attrs_v(a)),
                Option::None => Option::None,
            },
            rows: rows_v(content@),
        },
        AdfBlockNode::OrderedList { attrs, content } => BlockV::OrderedList {
            order: match attrs {
                Option::Some(a) => Option::Some(a.order),
                Option::None => Option::None,
            },
            items: items_v(content@),
        },
        AdfBlockNode::BlockCard { attrs } => BlockV::BlockCard {
            url: attrs.url@,
            datasource: datasource_v(attrs.datasource),
        },
        AdfBlockNode::TaskList { attrs, content } => BlockV::TaskList {
            local_id: attrs.local_id@,
            items: task_items_v(content@),
        },
        AdfBlockNode::DecisionList { content, attrs } => BlockV::DecisionList {
            local_id: attrs.local_id@,
            items: decision_items_v(content@),
        },
        AdfBlockNode::Unknown => BlockV::Unknown,
    }
}

/// View of a block node sequence.
pub open spec fn blocks_v(s: Seq<AdfBlockNode>) -> Seq<BlockV>
    decreases s,
{
    if s.len() == 0 {
        Seq::empty()
    } else {
        blocks_v(s.drop_last()).push(block_v(s.last()))
    }
}

/// View of a list-item sequence: each item is its block content.
pub open spec fn items_v(s: Seq<ListItem>) -> Seq<Seq<BlockV>>
    decreases s,
{
    if s.len() == 0 {
        Seq::empty()
    } else {
        items_v(s.drop_last()).push(blocks_v(s.last().content@))
    }
}

/// View of one row entry.
pub open spec fn entry_v(e: TableRowEntry) -> EntryV
    decreases e,
{
    match e {
        TableRowEntry::TableHeader(h) => EntryV::Header {
            attrs: opt_cell_attrs_v(h.attrs),
            content: blocks_v(h.content@),
        },
        TableRowEntry::TableCell(c) => EntryV::Cell {
            attrs: opt_cell_attrs_v(c.attrs),
            content: blocks_v(c.content@),
        },
    }
}

/// View of a row entry sequence.
pub open spec fn entries_v(s: Seq<TableRowEntry>) -> Seq<EntryV>
    decreases s,
{
    if s.len() == 0 {
        Seq::empty()
    } else {
        entries_v(s.drop_last()).push(entry_v(s.last()))
    }
}

/// View of a row sequence: each row is its entry sequence.
pub open spec fn rows_v(s: Seq<TableRow>) -> Seq<Seq<EntryV>>
    decreases s,
{
    if s.len() == 0 {
        Seq::empty()
    } else {
        rows_v(s.drop_last()).push(entries_v(s.last().content@))
    }
}

/// View of one task item.
pub open spec fn task_item_v(t: TaskItem) -> TaskItemV {
    TaskItemV {
        content: inlines_v(t.content@),
        local_id: t.attrs.local_id@,
        state: t.attrs.state,
    }
}

/// View of a task item sequence.
pub open spec fn task_items_v(s: Seq<TaskItem>) -> Seq<TaskItemV>
    decreases s,
{
    if s.len() == 0 {
        Seq::empty()
    } else {
        task_items_v(s.drop_last()).push(task_item_v(s.last()))
    }
}

/// View of one decision item.
pub open spec fn decision_item_v(d: DecisionItem) -> DecisionItemV {
    DecisionItemV { content: inlines_v(d.content@), local_id: d.attrs.local_id@ }
}

/// View of a decision item sequence.
pub open spec fn decision_items_v(s: Seq<DecisionItem>) -> Seq<DecisionItemV>
    decreases s,
{
    if s.len() == 0 {
        Seq::empty()
    } else {
        decision_items_v(s.drop_last()).push(decision_item_v(s.last()))
    }
}

impl View for AdfBlockNode {
    type V = BlockV;

    open spec fn view(&self) -> BlockV {
        block_v(*self)
    }
}

impl View for AdfNode {
    type V = InlineV;

    open spec fn view(&self) -> InlineV {
        inline_v(*self)
    }
}

impl View for AdfMark {
    type V = MarkV;

    open spec fn view(&self) -> MarkV {
        mark_v(*self)
    }
}

impl View for MediaNode {
    type V = MediaV;

    open spec fn view(&self) -> MediaV {
        media_v(*self)
    }
}

impl View for TableRowEntry {
    type V = EntryV;

    open spec fn view(&self) -> EntryV {
        entry_v(*self)
    }
}

// ---------------------------------------------------------------------------
// Methods
// ---------------------------------------------------------------------------

impl TableHeader {
    /// The cell's attribute set.
    pub fn attrs(&self) -> (r: &Option<TableCellAttrs>)
        ensures
            r == self.attrs,
    {
        &self.attrs
    }

    /// The cell's block content.
    pub fn content(&self) -> (r: &Vec<AdfBlockNode>)
        ensures
            r == self.content,
    {
        &self.content
    }

    /// Takes the cell apart into content and attributes.
    pub fn unwrap(self) -> (r: (Vec<AdfBlockNode>, Option<TableCellAttrs>))
        ensures
            r.0 == self.content,
            r.1 == self.attrs,
    {
        (self.content, self.attrs)
    }
}

impl TableCell {
    /// The cell's attribute set.
    pub fn attrs(&self) -> (r: &Option<TableCellAttrs>)
        ensures
            r == self.attrs,
    {
        &self.attrs
    }

    /// The cell's block content.
    pub fn content(&self) -> (r: &Vec<AdfBlockNode>)
        ensures
            r == self.content,
    {
        &self.content
    }

    /// Takes the cell apart into content and attributes.
    pub fn unwrap(self) -> (r: (Vec<AdfBlockNode>, Option<TableCellAttrs>))
        ensures
            r.0 == self.content,
            r.1 == self.attrs,
    {
        (self.content, self.attrs)
    }
}

impl TableRowEntry {
    /// Builds a header cell entry.
    pub fn new_table_header(content: Vec<AdfBlockNode>, attrs: Option<TableCellAttrs>) -> (r: Self)
        ensures
            r == (TableRowEntry::TableHeader(TableHeader { attrs, content })),
    {
        TableRowEntry::TableHeader(TableHeader { attrs, content })
    }

    /// Builds a data cell entry.
    pub fn new_table_cell(content: Vec<AdfBlockNode>, attrs: Option<TableCellAttrs>) -> (r: Self)
        ensures
            r == (TableRowEntry::TableCell(TableCell { attrs, content })),
    {
        TableRowEntry::TableCell(TableCell { attrs, content })
    }
}

impl TableRow {
    /// Builds a row from its entries.
    pub fn new(content: Vec<TableRowEntry>) -> (r: Self)
        ensures
            r == (TableRow { content }),
    {
        TableRow { content }
    }

    /// The row's entries.
    pub fn content(&self) -> (r: &Vec<TableRowEntry>)
        ensures
            r == self.content,
    {
        &self.content
    }

    /// Takes the row apart into its entries.
    pub fn unwrap(self) -> (r: Vec<TableRowEntry>)
        ensures
            r == self.content,
    {
        self.content
    }
}

impl TaskItem {
    /// Builds a task item.
    pub fn new(content: Vec<AdfNode>, attrs: TaskItemAttrs) -> (r: Self)
        ensures
            r == (TaskItem { content, attrs }),
    {
        TaskItem { content, attrs }
    }

    /// The item's inline content.
    pub fn content(&self) -> (r: &Vec<AdfNode>)
        ensures
            r == self.content,
    {
        &self.content
    }

    /// The item's attributes.
    pub fn attrs(&self) -> (r: &TaskItemAttrs)
        ensures
            r == self.attrs,
    {
        &self.attrs
    }

    /// Takes the item apart into content and attributes.
    pub fn unwrap(self) -> (r: (Vec<AdfNode>, TaskItemAttrs))
        ensures
            r.0 == self.content,
            r.1 == self.attrs,
    {
        (self.content, self.attrs)
    }
}

impl DecisionItem {
    /// Builds a decision item.
    pub fn new(content: Vec<AdfNode>, attrs: DecisionItemAttrs) -> (r: Self)
        ensures
            r == (DecisionItem { content, attrs }),
    {
        DecisionItem { content, attrs }
    }

    /// The item's inline content.
    pub fn content(&self) -> (r: &Vec<AdfNode>)
        ensures
            r == self.content,
    {
        &self.content
    }

    /// The item's attributes.
    pub fn attrs(&self) -> (r: &DecisionItemAttrs)
        ensures
            r == self.attrs,
    {
        &self.attrs
    }

    /// Takes the item apart into content and attributes.
    pub fn unwrap(self) -> (r: (Vec<AdfNode>, DecisionItemAttrs))
        ensures
            r.0 == self.content,
            r.1 == self.attrs,
    {
        (self.content, self.attrs)
    }
}

impl ListItem {
    /// Builds a list item from its block content.
    pub fn new(content: Vec<AdfBlockNode>) -> (r: Self)
        ensures
            r == (ListItem { content }),
    {
        ListItem { content }
    }

    /// The item's block content.
    pub fn content(&self) -> (r: &Vec<AdfBlockNode>)
        ensures
            r == self.content,
    {
        &self.content
    }

    /// Takes the item apart into its block content.
    pub fn unwrap(self) -> (r: Vec<AdfBlockNode>)
        ensures
            r == self.content,
    {
        self.content
    }
}

// ---------------------------------------------------------------------------
// Sequence-view lemmas
// ---------------------------------------------------------------------------

pub proof fn lemma_blocks_v_push(s: Seq<AdfBlockNode>, x: AdfBlockNode)
    ensures
        blocks_v(s.push(x)) == blocks_v(s).push(block_v(x)),
{
    assert(s.push(x).drop_last() =~= s);
    assert(s.push(x).last() == x);
}

pub proof fn lemma_blocks_v_props(s: Seq<AdfBlockNode>)
    ensures
        blocks_v(s).len() == s.len(),
        forall|i: int| 0 <= i < s.len() ==> blocks_v(s)[i] == block_v(#[trigger] s[i]),
    decreases s.len(),
{
    if s.len() > 0 {
        lemma_blocks_v_props(s.drop_last());
        assert forall|i: int| 0 <= i < s.len() implies blocks_v(s)[i] == block_v(s[i]) by {
            if i < s.len() - 1 {
                assert(s.drop_last()[i] == s[i]);
            } else {
                assert(s[i] == s.last());
            }
        }
    }
}

pub proof fn lemma_inlines_v_push(s: Seq<AdfNode>, x: AdfNode)
    ensures
        inlines_v(s.push(x)) == inlines_v(s).push(inline_v(x)),
{
    assert(s.push(x).drop_last() =~= s);
    assert(s.push(x).last() == x);
}

pub proof fn lemma_inlines_v_props(s: Seq<AdfNode>)
    ensures
        inlines_v(s).len() == s.len(),
        forall|i: int| 0 <= i < s.len() ==> inlines_v(s)[i] == inline_v(#[trigger] s[i]),
    decreases s.len(),
{
    if s.len() > 0 {
        lemma_inlines_v_props(s.drop_last());
        assert forall|i: int| 0 <= i < s.len() implies inlines_v(s)[i] == inline_v(s[i]) by {
            if i < s.len() - 1 {
                assert(s.drop_last()[i] == s[i]);
            } else {
                assert(s[i] == s.last());
            }
        }
    }
}

pub proof fn lemma_marks_v_push(s: Seq<AdfMark>, x: AdfMark)
    ensures
        marks_v(s.push(x)) == marks_v(s).push(mark_v(x)),
{
    assert(s.push(x).drop_last() =~= s);
    assert(s.push(x).last() == x);
}

pub proof fn lemma_marks_v_props(s: Seq<AdfMark>)
    ensures
        marks_v(s).len() == s.len(),
        forall|i: int| 0 <= i < s.len() ==> marks_v(s)[i] == mark_v(#[trigger] s[i]),
    decreases s.len(),
{
    if s.len() > 0 {
        lemma_marks_v_props(s.drop_last());
        assert forall|i: int| 0 <= i < s.len() implies marks_v(s)[i] == mark_v(s[i]) by {
            if i < s.len() - 1 {
                assert(s.drop_last()[i] == s[i]);
            } else {
                assert(s[i] == s.last());
            }
        }
    }
}

pub proof fn lemma_medias_v_push(s: Seq<MediaNode>, x: MediaNode)
    ensures
        medias_v(s.push(x)) == medias_v(s).push(media_v(x)),
{
    assert(s.push(x).drop_last() =~= s);
    assert(s.push(x).last() == x);
}

pub proof fn lemma_medias_v_props(s: Seq<MediaNode>)
    ensures
        medias_v(s).len() == s.len(),
        forall|i: int| 0 <= i < s.len() ==> medias_v(s)[i] == media_v(#[trigger] s[i]),
    decreases s.len(),
{
    if s.len() > 0 {
        lemma_medias_v_props(s.drop_last());
        assert forall|i: int| 0 <= i < s.len() implies medias_v(s)[i] == media_v(s[i]) by {
            if i < s.len() - 1 {
                assert(s.drop_last()[i] == s[i]);
            } else {
                assert(s[i] == s.last());
            }
        }
    }
}

pub proof fn lemma_media_marks_v_push(s: Seq<MediaMark>, x: MediaMark)
    ensures
        media_marks_v(s.push(x)) == media_marks_v(s).push(media_mark_v(x)),
{
    assert(s.push(x).drop_last() =~= s);
    assert(s.push(x).last() == x);
}

pub proof fn lemma_media_marks_v_props(s: Seq<MediaMark>)
    ensures
        media_marks_v(s).len() == s.len(),
        forall|i: int| 0 <= i < s.len() ==> media_marks_v(s)[i] == media_mark_v(#[trigger] s[i]),
    decreases s.len(),
{
    if s.len() > 0 {
        lemma_media_marks_v_props(s.drop_last());
        assert forall|i: int| 0 <= i < s.len() implies media_marks_v(s)[i] == media_mark_v(
            s[i],
        ) by {
            if i < s.len() - 1 {
                assert(s.drop_last()[i] == s[i]);
            } else {
                assert(s[i] == s.last());
            }
        }
    }
}

pub proof fn lemma_items_v_push(s: Seq<ListItem>, x: ListItem)
    ensures
        items_v(s.push(x)) == items_v(s).push(blocks_v(x.content@)),
{
    assert(s.push(x).drop_last() =~= s);
    assert(s.push(x).last() == x);
}

pub proof fn lemma_items_v_props(s: Seq<ListItem>)
    ensures
        items_v(s).len() == s.len(),
        forall|i: int| 0 <= i < s.len() ==> items_v(s)[i] == blocks_v((#[trigger] s[i]).content@),
    decreases s.len(),
{
    if s.len() > 0 {
        lemma_items_v_props(s.drop_last());
        assert forall|i: int| 0 <= i < s.len() implies items_v(s)[i] == blocks_v(s[i].content@) by {
            if i < s.len() - 1 {
                assert(s.drop_last()[i] == s[i]);
            } else {
                assert(s[i] == s.last());
            }
        }
    }
}

pub proof fn lemma_entries_v_push(s: Seq<TableRowEntry>, x: TableRowEntry)
    ensures
        entries_v(s.push(x)) == entries_v(s).push(entry_v(x)),
{
    assert(s.push(x).drop_last() =~= s);
    assert(s.push(x).last() == x);
}

pub proof fn lemma_entries_v_props(s: Seq<TableRowEntry>)
    ensures
        entries_v(s).len() == s.len(),
        forall|i: int| 0 <= i < s.len() ==> entries_v(s)[i] == entry_v(#[trigger] s[i]),
    decreases s.len(),
{
    if s.len() > 0 {
        lemma_entries_v_props(s.drop_last());
        assert forall|i: int| 0 <= i < s.len() implies entries_v(s)[i] == entry_v(s[i]) by {
            if i < s.len() - 1 {
                assert(s.drop_last()[i] == s[i]);
            } else {
                assert(s[i] == s.last());
            }
        }
    }
}

pub proof fn lemma_rows_v_push(s: Seq<TableRow>, x: TableRow)
    ensures
        rows_v(s.push(x)) == rows_v(s).push(entries_v(x.content@)),
{
    assert(s.push(x).drop_last() =~= s);
    assert(s.push(x).last() == x);
}

pub proof fn lemma_rows_v_props(s: Seq<TableRow>)
    ensures
        rows_v(s).len() == s.len(),
        forall|i: int| 0 <= i < s.len() ==> rows_v(s)[i] == entries_v((#[trigger] s[i]).content@),
    decreases s.len(),
{
    if s.len() > 0 {
        lemma_rows_v_props(s.drop_last());
        assert forall|i: int| 0 <= i < s.len() implies rows_v(s)[i] == entries_v(s[i].content@) by {
            if i < s.len() - 1 {
                assert(s.drop_last()[i] == s[i]);
            } else {
                assert(s[i] == s.last());
            }
        }
    }
}

pub proof fn lemma_task_items_v_push(s: Seq<TaskItem>, x: TaskItem)
    ensures
        task_items_v(s.push(x)) == task_items_v(s).push(task_item_v(x)),
{
    assert(s.push(x).drop_last() =~= s);
    assert(s.push(x).last() == x);
}

pub proof fn lemma_task_items_v_props(s: Seq<TaskItem>)
    ensures
        task_items_v(s).len() == s.len(),
        forall|i: int| 0 <= i < s.len() ==> task_items_v(s)[i] == task_item_v(#[trigger] s[i]),
    decreases s.len(),
{
    if s.len() > 0 {
        lemma_task_items_v_props(s.drop_last());
        assert forall|i: int| 0 <= i < s.len() implies task_items_v(s)[i] == task_item_v(s[i]) by {
            if i < s.len() - 1 {
                assert(s.drop_last()[i] == s[i]);
            } else {
                assert(s[i] == s.last());
            }
        }
    }
}

pub proof fn lemma_decision_items_v_push(s: Seq<DecisionItem>, x: DecisionItem)
    ensures
        decision_items_v(s.push(x)) == decision_items_v(s).push(decision_item_v(x)),
{
    assert(s.push(x).drop_last() =~= s);
    assert(s.push(x).last() == x);
}

pub proof fn lemma_decision_items_v_props(s: Seq<DecisionItem>)
    ensures
        decision_items_v(s).len() == s.len(),
        forall|i: int|
            0 <= i < s.len() ==> decision_items_v(s)[i] == decision_item_v(#[trigger] s[i]),
    decreases s.len(),
{
    if s.len() > 0 {
        lemma_decision_items_v_props(s.drop_last());
        assert forall|i: int| 0 <= i < s.len() implies decision_items_v(s)[i] == decision_item_v(s[i]) by {
            if i < s.len() - 1 {
                assert(s.drop_last()[i] == s[i]);
            } else {
                assert(s[i] == s.last());
            }
        }
    }
}

// ---------------------------------------------------------------------------
// View-preserving copies
// ---------------------------------------------------------------------------

/// Copy of an optional string; the copy is equal to the original.
pub fn copy_opt_string(o: &Option<String>) -> (r: Option<String>)
    ensures
        r == o,
{
    match o {
        Option::Some(s) => Option::Some(s.clone()),
        Option::None => Option::None,
    }
}

/// Copy of a link mark; the copy is equal to the original.
pub fn copy_link(l: &LinkMark) -> (r: LinkMark)
    ensures
        r == l,
{
    LinkMark {
        collection: copy_opt_string(&l.collection),
        href: l.href.clone(),
        id: copy_opt_string(&l.id),
        occurrence_key: copy_opt_string(&l.occurrence_key),
        title: copy_opt_string(&l.title),
    }
}

/// Copy of one mark; the copy is equal to the original.
pub fn copy_mark(m: &AdfMark) -> (r: AdfMark)
    ensures
        r == m,
{
    match m {
        AdfMark::Strong => AdfMark::Strong,
        AdfMark::Em => AdfMark::Em,
        AdfMark::Code => AdfMark::Code,
        AdfMark::Link(l) => AdfMark::Link(copy_link(l)),
        AdfMark::Strike => AdfMark::Strike,
        AdfMark::Subsup { type_ } => AdfMark::Subsup { type_: *type_ },
        AdfMark::TextColor { color } => AdfMark::TextColor { color: color.clone() },
        AdfMark::Underline => AdfMark::Underline,
        AdfMark::BackgroundColor { color } => AdfMark::BackgroundColor { color: color.clone() },
    }
}

/// Copy of a mark list; the copy's view is the original's.
pub fn copy_marks(v: &Vec<AdfMark>) -> (r: Vec<AdfMark>)
    ensures
        r@ == v@,
{
    let mut out: Vec<AdfMark> = Vec::new();
    let mut i: usize = 0;
    while i < v.len()
        invariant
            0 <= i <= v.len(),
            out@ =~= v@.subrange(0, i as int),
        decreases v.len() - i,
    {
        out.push(copy_mark(&v[i]));
        i += 1;
    }
    proof {
        assert(out@ =~= v@);
    }
    out
}

/// Copy of a `u32` list.
pub fn copy_u32s(v: &Vec<u32>) -> (r: Vec<u32>)
    ensures
        r@ == v@,
{
    let mut out: Vec<u32> = Vec::new();
    let mut i: usize = 0;
    while i < v.len()
        invariant
            0 <= i <= v.len(),
            out@ =~= v@.subrange(0, i as int),
        decreases v.len() - i,
    {
        out.push(v[i]);
        i += 1;
    }
    proof {
        assert(out@ =~= v@);
    }
    out
}

/// Copy of a cell attribute set; the copy's view is the original's.
pub fn copy_cell_attrs(a: &TableCellAttrs) -> (r: TableCellAttrs)
    ensures
        cell_attrs_v(r) == cell_attrs_v(*a),
{
    TableCellAttrs {
        background: copy_opt_string(&a.background),
        colspan: a.colspan,
        colwidth: match &a.colwidth {
            Option::Some(v) => Option::Some(copy_u32s(v)),
            Option::None => Option::None,
        },
        rowspan: a.rowspan,
    }
}

/// View-preserving copy of an inline node.
pub fn copy_inline(n: &AdfNode) -> (r: AdfNode)
    ensures
        inline_v(r) == inline_v(*n),
{
    match n {
        AdfNode::HardBreak => AdfNode::HardBreak,
        AdfNode::Text { text, marks } => AdfNode::Text {
            text: text.clone(),
            marks: match marks {
                Option::Some(v) => Option::Some(copy_marks(v)),
                Option::None => Option::None,
            },
        },
        AdfNode::Date { attrs } => AdfNode::Date {
            attrs: DateAttrs { timestamp: attrs.timestamp.clone() },
        },
        AdfNode::InlineCard { attrs } => AdfNode::InlineCard {
            attrs: InlineCardAttrs { url: copy_opt_string(&attrs.url) },
        },
        AdfNode::Emoji { attrs } => AdfNode::Emoji {
            attrs: EmojiAttrs {
                short_name: attrs.short_name.clone(),
                text: copy_opt_string(&attrs.text),
            },
        },
        AdfNode::Mention { attrs } => AdfNode::Mention {
            attrs: MentionAttrs {
                access_level: attrs.access_level,
                id: attrs.id.clone(),
                text: copy_opt_string(&attrs.text),
                user_type: attrs.user_type,
            },
        },
        AdfNode::Status { attrs } => AdfNode::Status {
            attrs: StatusAttrs {
                local_id: copy_opt_string(&attrs.local_id),
                text: attrs.text.clone(),
                color: attrs.color.clone(),
            },
        },
        AdfNode::Unknown => AdfNode::Unknown,
    }
}

/// View-preserving copy of an inline node list.
pub fn copy_inlines(v: &Vec<AdfNode>) -> (r: Vec<AdfNode>)
    ensures
        inlines_v(r@) == inlines_v(v@),
{
    let mut out: Vec<AdfNode> = Vec::new();
    let mut i: usize = 0;
    while i < v.len()
        invariant
            0 <= i <= v.len(),
            inlines_v(out@) == inlines_v(v@.subrange(0, i as int)),
        decreases v.len() - i,
    {
        let ghost pre = v@.subrange(0, i as int);
        let ghost outv = out@;
        let c = copy_inline(&v[i]);
        out.push(c);
        proof {
            assert(v@.subrange(0, i + 1).drop_last() =~= pre);
            assert(v@.subrange(0, i + 1).last() == v@[i as int]);
            lemma_inlines_v_push(pre, v@[i as int]);
            lemma_inlines_v_push(outv, c);
        }
        i += 1;
    }
    proof {
        assert(v@.subrange(0, v@.len() as int) =~= v@);
    }
    out
}

/// View-preserving copy of an optional inline node list.
pub fn copy_opt_inlines(v: &Option<Vec<AdfNode>>) -> (r: Option<Vec<AdfNode>>)
    ensures
        opt_inlines_v(r) == opt_inlines_v(*v),
{
    match v {
        Option::Some(c) => Option::Some(copy_inlines(c)),
        Option::None => Option::None,
    }
}

/// View-preserving copy of a media mark.
pub fn copy_media_mark(m: &MediaMark) -> (r: MediaMark)
    ensures
        media_mark_v(r) == media_mark_v(*m),
{
    match m {
        MediaMark::Link(l) => MediaMark::Link(copy_link(l)),
        MediaMark::Border { color, size } => MediaMark::Border { color: color.clone(), size: *size },
    }
}

/// View-preserving copy of a media entry.
pub fn copy_media_node(m: &MediaNode) -> (r: MediaNode)
    ensures
        media_v(r) == media_v(*m),
{
    let marks: Option<Vec<MediaMark>> = match &m.marks {
        Option::Some(v) => {
            let mut out: Vec<MediaMark> = Vec::new();
            let mut i: usize = 0;
            while i < v.len()
                invariant
                    0 <= i <= v.len(),
                    media_marks_v(out@) == media_marks_v(v@.subrange(0, i as int)),
                decreases v.len() - i,
            {
                let ghost pre = v@.subrange(0, i as int);
                let ghost outv = out@;
                let c = copy_media_mark(&v[i]);
                out.push(c);
                proof {
                    assert(v@.subrange(0, i + 1).drop_last() =~= pre);
                    assert(v@.subrange(0, i + 1).last() == v@[i as int]);
                    lemma_media_marks_v_push(pre, v@[i as int]);
                    lemma_media_marks_v_push(outv, c);
                }
                i += 1;
            }
            proof {
                assert(v@.subrange(0, v@.len() as int) =~= v@);
            }
            Option::Some(out)
        },
        Option::None => Option::None,
    };
    MediaNode {
        media_type: m.media_type,
        attrs: MediaAttrs {
            alt: copy_opt_string(&m.attrs.alt),
            collection: m.attrs.collection.clone(),
            height: m.attrs.height,
            id: m.attrs.id.clone(),
            type_: m.attrs.type_,
            width: m.attrs.width,
        },
        marks,
    }
}

/// View-preserving copy of a task item.
pub fn copy_task_item(t: &TaskItem) -> (r: TaskItem)
    ensures
        task_item_v(r) == task_item_v(*t),
{
    TaskItem {
        content: copy_inlines(&t.content),
        attrs: TaskItemAttrs { local_id: t.attrs.local_id.clone(), state: t.attrs.state },
    }
}

/// View-preserving copy of a decision item.
pub fn copy_decision_item(d: &DecisionItem) -> (r: DecisionItem)
    ensures
        decision_item_v(r) == decision_item_v(*d),
{
    DecisionItem {
        content: copy_inlines(&d.content),
        attrs: DecisionItemAttrs { state: DecisionItemState, local_id: d.attrs.local_id.clone() },
    }
}

/// View-preserving copy of one block node.
pub fn copy_block(n: &AdfBlockNode) -> (r: AdfBlockNode)
    ensures
        block_v(r) == block_v(*n),
    decreases *n,
{
    match n {
        AdfBlockNode::Doc { content, version } => AdfBlockNode::Doc {
            content: copy_blocks(content),
            version: *version,
        },
        AdfBlockNode::Blockquote { content } => AdfBlockNode::Blockquote {
            content: copy_blocks(content),
        },
        AdfBlockNode::BulletList { content } => AdfBlockNode::BulletList {
            content: copy_list_items(content),
        },
        AdfBlockNode::CodeBlock { attrs, content } => AdfBlockNode::CodeBlock {
            attrs: match attrs {
                Option::Some(a) => Option::Some(
                    CodeBlockAttrs { language: copy_opt_string(&a.language) },
                ),
                Option::None => Option::None,
            },
            content: copy_opt_inlines(content),
        },
        AdfBlockNode::Expand { content, attrs } => AdfBlockNode::Expand {
            content: copy_blocks(content),
            attrs: ExpandAttrs { title: copy_opt_string(&attrs.title) },
        },
        AdfBlockNode::NestedExpand { attrs, content } => AdfBlockNode::NestedExpand {
            attrs: NestedAttrs { title: attrs.title.clone() },
            content: copy_blocks(content),
        },
        AdfBlockNode::Paragraph { content } => AdfBlockNode::Paragraph {
            content: copy_opt_inlines(content),
        },
        AdfBlockNode::Rule => AdfBlockNode::Rule,
        AdfBlockNode::Heading { attrs, content } => AdfBlockNode::Heading {
            attrs: HeadingAttrs { level: attrs.level },
            content: copy_opt_inlines(content),
        },
        AdfBlockNode::Panel { attrs, content } => AdfBlockNode::Panel {
            attrs: PanelAttrs { panel_type: attrs.panel_type.clone() },
            content: copy_blocks(content),
        },
        AdfBlockNode::MediaGroup { content } => AdfBlockNode::MediaGroup {
            content: copy_media_nodes(content),
        },
        AdfBlockNode::MediaSingle { attrs, content } => AdfBlockNode::MediaSingle {
            attrs: MediaSingleAttrs { layout: attrs.layout.clone() },
            content: copy_media_nodes(content),
        },
        AdfBlockNode::Table { attrs, content } => AdfBlockNode::Table {
            attrs: match attrs {
                Option::Some(a) => Option::Some(
                    TableAttrs {
                        is_number_column_enabled: a.is_number_column_enabled,
                        layout: copy_opt_string(&a.layout),
                        width: a.width,
                        display_mode: copy_opt_string(&a.display_mode),
                    },
                ),
                Option::None => Option::None,
            },
            content: copy_rows(content),
        },
        AdfBlockNode::OrderedList { attrs, content } => AdfBlockNode::OrderedList {
            attrs: match attrs {
                Option::Some(a) => Option::Some(OrderedListAttrs { order: a.order }),
                Option::None => Option::None,
            },
            content: copy_list_items(content),
        },
        AdfBlockNode::BlockCard { attrs } => AdfBlockNode::BlockCard {
            attrs: copy_block_card_attrs(attrs),
        },
        AdfBlockNode::TaskList { attrs, content } => AdfBlockNode::TaskList {
            attrs: LocalId { local_id: attrs.local_id.clone() },
            content: copy_tasks(content),
        },
        AdfBlockNode::DecisionList { content, attrs } => AdfBlockNode::DecisionList {
            content: copy_decisions(content),
            attrs: LocalId { local_id: attrs.local_id.clone() },
        },
        AdfBlockNode::Unknown => AdfBlockNode::Unknown,
    }
}

/// View-preserving copy of a block node list.
pub fn copy_blocks(v: &Vec<AdfBlockNode>) -> (r: Vec<AdfBlockNode>)
    ensures
        blocks_v(r@) == blocks_v(v@),
    decreases v@,
{
    let mut out: Vec<AdfBlockNode> = Vec::new();
    let mut i: usize = 0;
    while i < v.len()
        invariant
            0 <= i <= v.len(),
            blocks_v(out@) == blocks_v(v@.subrange(0, i as int)),
        decreases v.len() - i,
    {
        let ghost pre = v@.subrange(0, i as int);
        let ghost outv = out@;
        let c = copy_block(&v[i]);
        out.push(c);
        proof {
            assert(v@.subrange(0, i + 1).drop_last() =~= pre);
            assert(v@.subrange(0, i + 1).last() == v@[i as int]);
            lemma_blocks_v_push(pre, v@[i as int]);
            lemma_blocks_v_push(outv, c);
        }
        i += 1;
    }
    proof {
        assert(v@.subrange(0, v@.len() as int) =~= v@);
    }
    out
}

/// View-preserving copy of a plain list item list.
pub fn copy_list_items(v: &Vec<ListItem>) -> (r: Vec<ListItem>)
    ensures
        items_v(r@) == items_v(v@),
    decreases v@,
{
    let mut out: Vec<ListItem> = Vec::new();
    let mut i: usize = 0;
    while i < v.len()
        invariant
            0 <= i <= v.len(),
            items_v(out@) == items_v(v@.subrange(0, i as int)),
        decreases v.len() - i,
    {
        let ghost pre = v@.subrange(0, i as int);
        let ghost outv = out@;
        let c = ListItem { content: copy_blocks(&v[i].content) };
        out.push(c);
        proof {
            assert(v@.subrange(0, i + 1).drop_last() =~= pre);
            assert(v@.subrange(0, i + 1).last() == v@[i as int]);
            lemma_items_v_push(pre, v@[i as int]);
            lemma_items_v_push(outv, c);
        }
        i += 1;
    }
    proof {
        assert(v@.subrange(0, v@.len() as int) =~= v@);
    }
    out
}

/// View-preserving copy of a media entry list.
pub fn copy_media_nodes(v: &Vec<MediaNode>) -> (r: Vec<MediaNode>)
    ensures
        medias_v(r@) == medias_v(v@),
{
    let mut out: Vec<MediaNode> = Vec::new();
    let mut i: usize = 0;
    while i < v.len()
        invariant
            0 <= i <= v.len(),
            medias_v(out@) == medias_v(v@.subrange(0, i as int)),
        decreases v.len() - i,
    {
        let ghost pre = v@.subrange(0, i as int);
        let ghost outv = out@;
        let c = copy_media_node(&v[i]);
        out.push(c);
        proof {
            assert(v@.subrange(0, i + 1).drop_last() =~= pre);
            assert(v@.subrange(0, i + 1).last() == v@[i as int]);
            lemma_medias_v_push(pre, v@[i as int]);
            lemma_medias_v_push(outv, c);
        }
        i += 1;
    }
    proof {
        assert(v@.subrange(0, v@.len() as int) =~= v@);
    }
    out
}

/// View-preserving copy of a row entry.
pub fn copy_entry(e: &TableRowEntry) -> (r: TableRowEntry)
    ensures
        entry_v(r) == entry_v(*e),
    decreases *e,
{
    match e {
        TableRowEntry::TableHeader(h) => TableRowEntry::TableHeader(
            TableHeader {
                attrs: match &h.attrs {
                    Option::Some(a) => Option::Some(copy_cell_attrs(a)),
                    Option::None => Option::None,
                },
                content: copy_blocks(&h.content),
            },
        ),
        TableRowEntry::TableCell(c) => TableRowEntry::TableCell(
            TableCell {
                attrs: match &c.attrs {
                    Option::Some(a) => Option::Some(copy_cell_attrs(a)),
                    Option::None => Option::None,
                },
                content: copy_blocks(&c.content),
            },
        ),
    }
}

/// View-preserving copy of a row entry list.
pub fn copy_entries(v: &Vec<TableRowEntry>) -> (r: Vec<TableRowEntry>)
    ensures
        entries_v(r@) == entries_v(v@),
    decreases v@,
{
    let mut out: Vec<TableRowEntry> = Vec::new();
    let mut i: usize = 0;
    while i < v.len()
        invariant
            0 <= i <= v.len(),
            entries_v(out@) == entries_v(v@.subrange(0, i as int)),
        decreases v.len() - i,
    {
        let ghost pre = v@.subrange(0, i as int);
        let ghost outv = out@;
        let c = copy_entry(&v[i]);
        out.push(c);
        proof {
            assert(v@.subrange(0, i + 1).drop_last() =~= pre);
            assert(v@.subrange(0, i + 1).last() == v@[i as int]);
            lemma_entries_v_push(pre, v@[i as int]);
            lemma_entries_v_push(outv, c);
        }
        i += 1;
    }
    proof {
        assert(v@.subrange(0, v@.len() as int) =~= v@);
    }
    out
}

/// View-preserving copy of a row list.
pub fn copy_rows(v: &Vec<TableRow>) -> (r: Vec<TableRow>)
    ensures
        rows_v(r@) == rows_v(v@),
    decreases v@,
{
    let mut out: Vec<TableRow> = Vec::new();
    let mut i: usize = 0;
    while i < v.len()
        invariant
            0 <= i <= v.len(),
            rows_v(out@) == rows_v(v@.subrange(0, i as int)),
        decreases v.len() - i,
    {
        let ghost pre = v@.subrange(0, i as int);
        let ghost outv = out@;
        let c = TableRow { content: copy_entries(&v[i].content) };
        out.push(c);
        proof {
            assert(v@.subrange(0, i + 1).drop_last() =~= pre);
            assert(v@.subrange(0, i + 1).last() == v@[i as int]);
            lemma_rows_v_push(pre, v@[i as int]);
            lemma_rows_v_push(outv, c);
        }
        i += 1;
    }
    proof {
        assert(v@.subrange(0, v@.len() as int) =~= v@);
    }
    out
}

/// View-preserving copy of a task item list.
pub fn copy_tasks(v: &Vec<TaskItem>) -> (r: Vec<TaskItem>)
    ensures
        task_items_v(r@) == task_items_v(v@),
{
    let mut out: Vec<TaskItem> = Vec::new();
    let mut i: usize = 0;
    while i < v.len()
        invariant
            0 <= i <= v.len(),
            task_items_v(out@) == task_items_v(v@.subrange(0, i as int)),
        decreases v.len() - i,
    {
        let ghost pre = v@.subrange(0, i as int);
        let ghost outv = out@;
        let c = copy_task_item(&v[i]);
        out.push(c);
        proof {
            assert(v@.subrange(0, i + 1).drop_last() =~= pre);
            assert(v@.subrange(0, i + 1).last() == v@[i as int]);
            lemma_task_items_v_push(pre, v@[i as int]);
            lemma_task_items_v_push(outv, c);
        }
        i += 1;
    }
    proof {
        assert(v@.subrange(0, v@.len() as int) =~= v@);
    }
    out
}

/// View-preserving copy of a decision item list.
pub fn copy_decisions(v: &Vec<DecisionItem>) -> (r: Vec<DecisionItem>)
    ensures
        decision_items_v(r@) == decision_items_v(v@),
{
    let mut out: Vec<DecisionItem> = Vec::new();
    let mut i: usize = 0;
    while i < v.len()
        invariant
            0 <= i <= v.len(),
            decision_items_v(out@) == decision_items_v(v@.subrange(0, i as int)),
        decreases v.len() - i,
    {
        let ghost pre = v@.subrange(0, i as int);
        let ghost outv = out@;
        let c = copy_decision_item(&v[i]);
        out.push(c);
        proof {
            assert(v@.subrange(0, i + 1).drop_last() =~= pre);
            assert(v@.subrange(0, i + 1).last() == v@[i as int]);
            lemma_decision_items_v_push(pre, v@[i as int]);
            lemma_decision_items_v_push(outv, c);
        }
        i += 1;
    }
    proof {
        assert(v@.subrange(0, v@.len() as int) =~= v@);
    }
    out
}

/// View-preserving copy of block card attributes.
pub fn copy_block_card_attrs(a: &BlockCardAttrs) -> (r: BlockCardAttrs)
    ensures
        a.url@ == r.url@,
        datasource_v(r.datasource) == datasource_v(a.datasource),
{
    let mut views: Vec<DataSourceView> = Vec::new();
    let v = &a.datasource.views;
    let mut i: usize = 0;
    while i < v.len()
        invariant
            0 <= i <= v.len(),
            dsviews_v(views@) == dsviews_v(v@.subrange(0, i as int)),
        decreases v.len() - i,
    {
        let ghost pre = v@.subrange(0, i as int);
        let ghost outv = views@;
        let c = copy_dsview(&v[i]);
        views.push(c);
        proof {
            assert(v@.subrange(0, i + 1).drop_last() =~= pre);
            assert(v@.subrange(0, i + 1).last() == v@[i as int]);
            lemma_dsviews_v_push(pre, v@[i as int]);
            lemma_dsviews_v_push(outv, c);
        }
        i += 1;
    }
    proof {
        assert(v@.subrange(0, v@.len() as int) =~= v@);
    }
    BlockCardAttrs {
        datasource: DataSourceAttrs {
            id: a.datasource.id.clone(),
            parameters: DataSourceParameters {
                cloud_id: a.datasource.parameters.cloud_id.clone(),
                jql: a.datasource.parameters.jql.clone(),
            },
            views,
        },
        url: a.url.clone(),
    }
}

pub proof fn lemma_dsviews_v_push(s: Seq<DataSourceView>, x: DataSourceView)
    ensures
        dsviews_v(s.push(x)) == dsviews_v(s).push(dsview_v(x)),
{
    assert(s.push(x).drop_last() =~= s);
    assert(s.push(x).last() == x);
}

pub proof fn lemma_columns_v_push(s: Seq<TableColumn>, x: TableColumn)
    ensures
        columns_v(s.push(x)) == columns_v(s).push(x.key@),
{
    assert(s.push(x).drop_last() =~= s);
    assert(s.push(x).last() == x);
}

/// View-preserving copy of one data source view.
pub fn copy_dsview(v: &DataSourceView) -> (r: DataSourceView)
    ensures
        dsview_v(r) == dsview_v(*v),
{
    match v {
        DataSourceView::Table(p) => {
            let mut columns: Vec<TableColumn> = Vec::new();
            let c = &p.columns;
            let mut i: usize = 0;
            while i < c.len()
                invariant
                    0 <= i <= c.len(),
                    columns_v(columns@) == columns_v(c@.subrange(0, i as int)),
                decreases c.len() - i,
            {
                let ghost pre = c@.subrange(0, i as int);
                let ghost outv = columns@;
                let k = TableColumn { key: c[i].key.clone() };
                columns.push(k);
                proof {
                    assert(c@.subrange(0, i + 1).drop_last() =~= pre);
                    assert(c@.subrange(0, i + 1).last() == c@[i as int]);
                    lemma_columns_v_push(pre, c@[i as int]);
                    lemma_columns_v_push(outv, k);
                }
                i += 1;
            }
            proof {
                assert(c@.subrange(0, c@.len() as int) =~= c@);
            }
            DataSourceView::Table(TableViewProperties { columns })
        },
    }
}

impl AdfBlockNode {
    /// The top-level content of a document node; any other node gives the
    /// empty list. The node itself is left unchanged.
    pub fn unwrap_doc(&mut self) -> (r: Vec<AdfBlockNode>)
        ensures
            *final(self) == *old(self),
            (block_v(*old(self)) matches BlockV::Doc { content, .. } ==> blocks_v(r@) == content),
            !(block_v(*old(self)) matches BlockV::Doc { .. }) ==> r@.len() == 0,
    {
        match self {
            AdfBlockNode::Doc { content, .. } => {
                let r = copy_blocks(content);
                proof {
                    lemma_blocks_v_props(r@);
                }
                r
            },
            _ => Vec::new(),
        }
    }
}

// ---------------------------------------------------------------------------
// The mark-stack combination rule
// ---------------------------------------------------------------------------

/// Removes every occurrence of a mark from a mark sequence.
pub open spec fn remove_mark_all(s: Seq<MarkV>, m: MarkV) -> Seq<MarkV>
    decreases s,
{
    if s.len() == 0 {
        Seq::empty()
    } else if s.last() == m {
        remove_mark_all(s.drop_last(), m)
    } else {
        remove_mark_all(s.drop_last(), m).push(s.last())
    }
}

/// What applying a mark action does to an active-mark sequence: adding an
/// already-active mark is a no-op, adding an inline-code mark clears every
/// other mark, removing a mark removes all its occurrences.
pub open spec fn apply_mark_action(a: MarkActionV, s: Seq<MarkV>) -> Seq<MarkV> {
    match a {
        MarkActionV::Add(m) => if s.contains(m) {
            s
        } else if m == MarkV::Code {
            seq![MarkV::Code]
        } else {
            s.push(m)
        },
        MarkActionV::Remove(m) => remove_mark_all(s, m),
    }
}

/// Equality of optional strings at the view level.
pub fn opt_str_eq(a: &Option<String>, b: &Option<String>) -> (r: bool)
    ensures
        r == (opt_str_v(*a) == opt_str_v(*b)),
{
    match (a, b) {
        (Option::Some(x), Option::Some(y)) => str_eq(x.as_str(), y.as_str()),
        (Option::None, Option::None) => true,
        _ => false,
    }
}

/// Equality of link marks at the view level.
pub fn link_eq(a: &LinkMark, b: &LinkMark) -> (r: bool)
    ensures
        r == (link_v(*a) == link_v(*b)),
{
    let r = opt_str_eq(&a.collection, &b.collection) && str_eq(a.href.as_str(), b.href.as_str())
        && opt_str_eq(&a.id, &b.id) && opt_str_eq(&a.occurrence_key, &b.occurrence_key)
        && opt_str_eq(&a.title, &b.title);
    proof {
        if r {
            assert(link_v(*a) == link_v(*b));
        }
    }
    r
}

/// Equality of marks at the view level.
pub fn mark_eq(a: &AdfMark, b: &AdfMark) -> (r: bool)
    ensures
        r == (a@ == b@),
{
    match (a, b) {
        (AdfMark::Strong, AdfMark::Strong) => true,
        (AdfMark::Em, AdfMark::Em) => true,
        (AdfMark::Code, AdfMark::Code) => true,
        (AdfMark::Link(l1), AdfMark::Link(l2)) => link_eq(l1, l2),
        (AdfMark::Strike, AdfMark::Strike) => true,
        (AdfMark::Subsup { type_: t1 }, AdfMark::Subsup { type_: t2 }) => t1 == t2,
        (AdfMark::TextColor { color: c1 }, AdfMark::TextColor { color: c2 }) => str_eq(
            c1.as_str(),
            c2.as_str(),
        ),
        (AdfMark::Underline, AdfMark::Underline) => true,
        (AdfMark::BackgroundColor { color: c1 }, AdfMark::BackgroundColor { color: c2 }) => str_eq(
            c1.as_str(),
            c2.as_str(),
        ),
        _ => false,
    }
}

/// Whether a mark list contains a mark, at the view level.
pub fn contains_mark(v: &Vec<AdfMark>, m: &AdfMark) -> (r: bool)
    ensures
        r == marks_v(v@).contains(m@),
{
    proof {
        lemma_marks_v_props(v@);
    }
    let mut i: usize = 0;
    while i < v.len()
        invariant
            0 <= i <= v.len(),
            marks_v(v@).len() == v@.len(),
            forall|j: int| 0 <= j < v@.len() ==> marks_v(v@)[j] == mark_v(#[trigger] v@[j]),
            forall|j: int| 0 <= j < i ==> mark_v(#[trigger] v@[j]) != m@,
        decreases v.len() - i,
    {
        if mark_eq(&v[i], m) {
            proof {
                assert(marks_v(v@)[i as int] == m@);
                assert(marks_v(v@).contains(m@));
            }
            return true;
        }
        i += 1;
    }
    proof {
        assert forall|j: int| 0 <= j < marks_v(v@).len() implies marks_v(v@)[j] != m@ by {
            assert(marks_v(v@)[j] == mark_v(v@[j]));
        }
        assert(!marks_v(v@).contains(m@));
    }
    false
}

/// A pending addition or removal of a mark.
pub enum MarkAction {
    Add(AdfMark),
    Remove(AdfMark),
}

impl View for MarkAction {
    type V = MarkActionV;

    open spec fn view(&self) -> MarkActionV {
        match *self {
            MarkAction::Add(m) => MarkActionV::Add(mark_v(m)),
            MarkAction::Remove(m) => MarkActionV::Remove(mark_v(m)),
        }
    }
}

impl MarkAction {
    /// Applies this action to an active-mark list, with the combination rule
    /// of [`apply_mark_action`]: deduplication, and exclusivity of the
    /// inline-code mark.
    pub fn apply_to(&self, marks: &mut Vec<AdfMark>)
        ensures
            marks_v(final(marks)@) == apply_mark_action(self@, marks_v(old(marks)@)),
    {
        match self {
            MarkAction::Add(mark) => {
                if !contains_mark(marks, mark) {
                    if matches!(mark, AdfMark::Code) {
                        let mut only_code: Vec<AdfMark> = Vec::new();
                        only_code.push(copy_mark(mark));
                        *marks = only_code;
                        proof {
                            assert(marks@ =~= seq![AdfMark::Code]);
                            assert(marks@.len() == 1);
                            assert(marks@.last() == AdfMark::Code);
                            assert(marks@.drop_last() =~= Seq::<AdfMark>::empty());
                            assert(marks_v(Seq::<AdfMark>::empty()) == Seq::<MarkV>::empty());
                            assert(marks_v(marks@)
                                == marks_v(marks@.drop_last()).push(mark_v(marks@.last())));
                            assert(marks_v(marks@) =~= seq![MarkV::Code]);
                        }
                    } else {
                        let ghost before = marks@;
                        marks.push(copy_mark(mark));
                        proof {
                            lemma_marks_v_push(before, *mark);
                        }
                    }
                }
            },
            MarkAction::Remove(mark) => {
                let mut out: Vec<AdfMark> = Vec::new();
                let mut i: usize = 0;
                while i < marks.len()
                    invariant
                        0 <= i <= marks.len(),
                        marks_v(out@) == remove_mark_all(
                            marks_v(marks@.subrange(0, i as int)),
                            mark_v(*mark),
                        ),
                    decreases marks.len() - i,
                {
                    let ghost pre = marks@.subrange(0, i as int);
                    let ghost outpre = out@;
                    let keep = !mark_eq(&marks[i], mark);
                    if keep {
                        out.push(copy_mark(&marks[i]));
                    }
                    proof {
                        let t = marks_v(pre);
                        let x = mark_v(marks@[i as int]);
                        assert(marks@.subrange(0, i + 1).drop_last() =~= pre);
                        assert(marks@.subrange(0, i + 1).last() == marks@[i as int]);
                        lemma_marks_v_push(pre, marks@[i as int]);
                        assert(marks_v(marks@.subrange(0, i + 1)) == t.push(x));
                        assert(t.push(x).drop_last() =~= t);
                        assert(t.push(x).last() == x);
                        if keep {
                            lemma_marks_v_push(outpre, marks@[i as int]);
                            assert(remove_mark_all(t.push(x), mark_v(*mark))
                                == remove_mark_all(t, mark_v(*mark)).push(x));
                        } else {
                            assert(remove_mark_all(t.push(x), mark_v(*mark))
                                == remove_mark_all(t, mark_v(*mark)));
                        }
                    }
                    i += 1;
                }
                proof {
                    assert(marks@.subrange(0, marks@.len() as int) =~= marks@);
                }
                *marks = out;
            },
        }
    }
}

/// One step of pull-style parsing: a character, a finished node, or a mark
/// action.
pub enum ParseNextResponse {
    Char(char),
    Node(AdfNode),
    MarkAction(MarkAction),
}

// ---------------------------------------------------------------------------
// Text colors
// ---------------------------------------------------------------------------

/// The named text colors with a fixed hex form.
#[derive(Clone, Copy, Debug, PartialEq, Eq, Structural)]
pub enum TextColor {
    BoldBlue,
    BoldTeal,
    BoldGreen,
    BoldOrange,
    BoldRed,
    BoldPurple,
    Gray,
    Blue,
    Teal,
    Green,
    Yellow,
    Red,
    Purple,
    White,
    SubtleBlue,
    SubtleTeal,
    SubtleGreen,
    SubtleYellow,
    SubtleRed,
    SubtlePurple,
}

/// The fixed hex form of each named color.
pub open spec fn hex_of(c: TextColor) -> Seq<char> {
    match c {
        TextColor::BoldBlue => "#0747a6"@,
        TextColor::BoldTeal => "#008da6"@,
        TextColor::BoldGreen => "#006644"@,
        TextColor::BoldOrange => "#ff991f"@,
        TextColor::BoldRed => "#bf2600"@,
        TextColor::BoldPurple => "#403294"@,
        TextColor::Gray => "#97a0af"@,
        TextColor::Blue => "#4c9aff"@,
        TextColor::Teal => "#00b8d9"@,
        TextColor::Green => "#36b37e"@,
        TextColor::Yellow => "#ffc400"@,
        TextColor::Red => "#ff5630"@,
        TextColor::Purple => "#6554c0"@,
        TextColor::White => "#ffffff"@,
        TextColor::SubtleBlue => "#b3d4ff"@,
        TextColor::SubtleTeal => "#b3f5ff"@,
        TextColor::SubtleGreen => "#abf5d1"@,
        TextColor::SubtleYellow => "#fff0b3"@,
        TextColor::SubtleRed => "#ffbdad"@,
        TextColor::SubtlePurple => "#eae6ff"@,
    }
}

/// The snake-case name of each named color, used in markup directives.
pub open spec fn color_name_of(c: TextColor) -> Seq<char> {
    match c {
        TextColor::BoldBlue => "bold_blue"@,
        TextColor::BoldTeal => "bold_teal"@,
        TextColor::BoldGreen => "bold_green"@,
        TextColor::BoldOrange => "bold_orange"@,
        TextColor::BoldRed => "bold_red"@,
        TextColor::BoldPurple => "bold_purple"@,
        TextColor::Gray => "gray"@,
        TextColor::Blue => "blue"@,
        TextColor::Teal => "teal"@,
        TextColor::Green => "green"@,
        TextColor::Yellow => "yellow"@,
        TextColor::Red => "red"@,
        TextColor::Purple => "purple"@,
        TextColor::White => "white"@,
        TextColor::SubtleBlue => "subtle_blue"@,
        TextColor::SubtleTeal => "subtle_teal"@,
        TextColor::SubtleGreen => "subtle_green"@,
        TextColor::SubtleYellow => "subtle_yellow"@,
        TextColor::SubtleRed => "subtle_red"@,
        TextColor::SubtlePurple => "subtle_purple"@,
    }
}

/// The named color whose fixed hex form is the given string, if any.
pub open spec fn from_hex_spec(s: Seq<char>) -> Option<TextColor> {
    if s == hex_of(TextColor::BoldBlue) {
        Option::Some(TextColor::BoldBlue)
    } else if s == hex_of(TextColor::BoldTeal) {
        Option::Some(TextColor::BoldTeal)
    } else if s == hex_of(TextColor::BoldGreen) {
        Option::Some(TextColor::BoldGreen)
    } else if s == hex_of(TextColor::BoldOrange) {
        Option::Some(TextColor::BoldOrange)
    } else if s == hex_of(TextColor::BoldRed) {
        Option::Some(TextColor::BoldRed)
    } else if s == hex_of(TextColor::BoldPurple) {
        Option::Some(TextColor::BoldPurple)
    } else if s == hex_of(TextColor::Gray) {
        Option::Some(TextColor::Gray)
    } else if s == hex_of(TextColor::Blue) {
        Option::Some(TextColor::Blue)
    } else if s == hex_of(TextColor::Teal) {
        Option::Some(TextColor::Teal)
    } else if s == hex_of(TextColor::Green) {
        Option::Some(TextColor::Green)
    } else if s == hex_of(TextColor::Yellow) {
        Option::Some(TextColor::Yellow)
    } else if s == hex_of(TextColor::Red) {
        Option::Some(TextColor::Red)
    } else if s == hex_of(TextColor::Purple) {
        Option::Some(TextColor::Purple)
    } else if s == hex_of(TextColor::White) {
        Option::Some(TextColor::White)
    } else if s == hex_of(TextColor::SubtleBlue) {
        Option::Some(TextColor::SubtleBlue)
    } else if s == hex_of(TextColor::SubtleTeal) {
        Option::Some(TextColor::SubtleTeal)
    } else if s == hex_of(TextColor::SubtleGreen) {
        Option::Some(TextColor::SubtleGreen)
    } else if s == hex_of(TextColor::SubtleYellow) {
        Option::Some(TextColor::SubtleYellow)
    } else if s == hex_of(TextColor::SubtleRed) {
        Option::Some(TextColor::SubtleRed)
    } else if s == hex_of(TextColor::SubtlePurple) {
        Option::Some(TextColor::SubtlePurple)
    } else {
        Option::None
    }
}

impl TextColor {
    /// The fixed hex-string/color table.
    pub fn mapping() -> (r: Vec<(&'static str, TextColor)>)
        ensures
            r@.len() == 20,
            forall|i: int| 0 <= i < 20 ==> (#[trigger] r@[i]).0@ == hex_of(r@[i].1),
    {
        let mut r: Vec<(&'static str, TextColor)> = Vec::new();
        r.push(("#0747a6", TextColor::BoldBlue));
        r.push(("#008da6", TextColor::BoldTeal));
        r.push(("#006644", TextColor::BoldGreen));
        r.push(("#ff991f", TextColor::BoldOrange));
        r.push(("#bf2600", TextColor::BoldRed));
        r.push(("#403294", TextColor::BoldPurple));
        r.push(("#97a0af", TextColor::Gray));
        r.push(("#4c9aff", TextColor::Blue));
        r.push(("#00b8d9", TextColor::Teal));
        r.push(("#36b37e", TextColor::Green));
        r.push(("#ffc400", TextColor::Yellow));
        r.push(("#ff5630", TextColor::Red));
        r.push(("#6554c0", TextColor::Purple));
        r.push(("#ffffff", TextColor::White));
        r.push(("#b3d4ff", TextColor::SubtleBlue));
        r.push(("#b3f5ff", TextColor::SubtleTeal));
        r.push(("#abf5d1", TextColor::SubtleGreen));
        r.push(("#fff0b3", TextColor::SubtleYellow));
        r.push(("#ffbdad", TextColor::SubtleRed));
        r.push(("#eae6ff", TextColor::SubtlePurple));
        r
    }

    /// The color's fixed hex form.
    pub fn as_hex_string(&self) -> (r: String)
        ensures
            r@ == hex_of(*self),
    {
        match *self {
            TextColor::BoldBlue => String::from_str("#0747a6"),
            TextColor::BoldTeal => String::from_str("#008da6"),
            TextColor::BoldGreen => String::from_str("#006644"),
            TextColor::BoldOrange => String::from_str("#ff991f"),
            TextColor::BoldRed => String::from_str("#bf2600"),
            TextColor::BoldPurple => String::from_str("#403294"),
            TextColor::Gray => String::from_str("#97a0af"),
            TextColor::Blue => String::from_str("#4c9aff"),
            TextColor::Teal => String::from_str("#00b8d9"),
            TextColor::Green => String::from_str("#36b37e"),
            TextColor::Yellow => String::from_str("#ffc400"),
            TextColor::Red => String::from_str("#ff5630"),
            TextColor::Purple => String::from_str("#6554c0"),
            TextColor::White => String::from_str("#ffffff"),
            TextColor::SubtleBlue => String::from_str("#b3d4ff"),
            TextColor::SubtleTeal => String::from_str("#b3f5ff"),
            TextColor::SubtleGreen => String::from_str("#abf5d1"),
            TextColor::SubtleYellow => String::from_str("#fff0b3"),
            TextColor::SubtleRed => String::from_str("#ffbdad"),
            TextColor::SubtlePurple => String::from_str("#eae6ff"),
        }
    }

    /// The color's snake-case name.
    pub fn name_str(&self) -> (r: String)
        ensures
            r@ == color_name_of(*self),
    {
        match *self {
            TextColor::BoldBlue => String::from_str("bold_blue"),
            TextColor::BoldTeal => String::from_str("bold_teal"),
            TextColor::BoldGreen => String::from_str("bold_green"),
            TextColor::BoldOrange => String::from_str("bold_orange"),
            TextColor::BoldRed => String::from_str("bold_red"),
            TextColor::BoldPurple => String::from_str("bold_purple"),
            TextColor::Gray => String::from_str("gray"),
            TextColor::Blue => String::from_str("blue"),
            TextColor::Teal => String::from_str("teal"),
            TextColor::Green => String::from_str("green"),
            TextColor::Yellow => String::from_str("yellow"),
            TextColor::Red => String::from_str("red"),
            TextColor::Purple => String::from_str("purple"),
            TextColor::White => String::from_str("white"),
            TextColor::SubtleBlue => String::from_str("subtle_blue"),
            TextColor::SubtleTeal => String::from_str("subtle_teal"),
            TextColor::SubtleGreen => String::from_str("subtle_green"),
            TextColor::SubtleYellow => String::from_str("subtle_yellow"),
            TextColor::SubtleRed => String::from_str("subtle_red"),
            TextColor::SubtlePurple => String::from_str("subtle_purple"),
        }
    }

    /// The named color with the given hex form, if any.
    pub fn from_hex_string(s: &str) -> (r: Option<TextColor>)
        ensures
            r == from_hex_spec(s@),
    {
        if str_eq(s, "#0747a6") {
            Option::Some(TextColor::BoldBlue)
        } else if str_eq(s, "#008da6") {
            Option::Some(TextColor::BoldTeal)
        } else if str_eq(s, "#006644") {
            Option::Some(TextColor::BoldGreen)
        } else if str_eq(s, "#ff991f") {
            Option::Some(TextColor::BoldOrange)
        } else if str_eq(s, "#bf2600") {
            Option::Some(TextColor::BoldRed)
        } else if str_eq(s, "#403294") {
            Option::Some(TextColor::BoldPurple)
        } else if str_eq(s, "#97a0af") {
            Option::Some(TextColor::Gray)
        } else if str_eq(s, "#4c9aff") {
            Option::Some(TextColor::Blue)
        } else if str_eq(s, "#00b8d9") {
            Option::Some(TextColor::Teal)
        } else if str_eq(s, "#36b37e") {
            Option::Some(TextColor::Green)
        } else if str_eq(s, "#ffc400") {
            Option::Some(TextColor::Yellow)
        } else if str_eq(s, "#ff5630") {
            Option::Some(TextColor::Red)
        } else if str_eq(s, "#6554c0") {
            Option::Some(TextColor::Purple)
        } else if str_eq(s, "#ffffff") {
            Option::Some(TextColor::White)
        } else if str_eq(s, "#b3d4ff") {
            Option::Some(TextColor::SubtleBlue)
        } else if str_eq(s, "#b3f5ff") {
            Option::Some(TextColor::SubtleTeal)
        } else if str_eq(s, "#abf5d1") {
            Option::Some(TextColor::SubtleGreen)
        } else if str_eq(s, "#fff0b3") {
            Option::Some(TextColor::SubtleYellow)
        } else if str_eq(s, "#ffbdad") {
            Option::Some(TextColor::SubtleRed)
        } else if str_eq(s, "#eae6ff") {
            Option::Some(TextColor::SubtlePurple)
        } else {
            Option::None
        }
    }
}

/// The markup delimiter of a mark, if it has one: the directive for a
/// recognized text color, nothing for unmapped colors, links and background
/// colors.
pub open spec fn markup_string_spec(m: MarkV) -> Option<Seq<char>> {
    match m {
        MarkV::Code => Option::Some("`"@),
        MarkV::Em => Option::Some("*"@),
        MarkV::Strike => Option::Some("~~"@),
        MarkV::Strong => Option::Some("**"@),
        MarkV::Underline => Option::Some("__"@),
        MarkV::Subsup(Subsup::Sub) => Option::Some("~"@),
        MarkV::Subsup(Subsup::Sup) => Option::Some("^"@),
        MarkV::TextColor(color) => match from_hex_spec(color) {
            Option::Some(c) => Option::Some("{color:"@ + color_name_of(c) + "}"@),
            Option::None => Option::None,
        },
        _ => Option::None,
    }
}

impl AdfMark {
    /// The markup delimiter of this mark, if it has one.
    pub fn markup_string(&self) -> (r: Option<String>)
        ensures
            opt_str_v(r) == markup_string_spec(self@),
    {
        match self {
            AdfMark::Code => Option::Some(String::from_str("`")),
            AdfMark::Em => Option::Some(String::from_str("*")),
            AdfMark::Strike => Option::Some(String::from_str("~~")),
            AdfMark::Strong => Option::Some(String::from_str("**")),
            AdfMark::Underline => Option::Some(String::from_str("__")),
            AdfMark::Subsup { type_ } => match type_ {
                Subsup::Sub => Option::Some(String::from_str("~")),
                Subsup::Sup => Option::Some(String::from_str("^")),
            },
            AdfMark::TextColor { color } => match TextColor::from_hex_string(color.as_str()) {
                Option::Some(c) => {
                    let mut s = String::from_str("{color:");
                    let name = c.name_str();
                    s.append(name.as_str());
                    s.append("}");
                    Option::Some(s)
                },
                Option::None => Option::None,
            },
            _ => Option::None,
        }
    }
}

} // verus!
