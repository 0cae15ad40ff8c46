//! The builder state machine: a stack of open block contexts, the active mark
//! stack, and the pending text buffer, driven by lexical HTML events. Every
//! state change is specified by a total spec-level transition function; a
//! structural fault (a close event that does not match the open frame) sets a
//! fault flag instead of recovering.

use vstd::prelude::*;
use vstd::string::StringExecFns;
use crate::event::{Attribute, AttrV, attrs_v, attr_get, get_attr, has_attr, lemma_attrs_v_props,
    lemma_attrs_v_push, HtmlEvent, EventV};
use crate::model::{AdfBlockNode, AdfNode, AdfMark, MediaNode, MediaAttrs, MediaType,
    MediaDataType, MediaMark, LinkMark, ListItem, TaskItem, TaskItemAttrs, TaskItemState,
    DecisionItem, DecisionItemAttrs, DecisionItemState, TableRow, TableRowEntry, LocalId,
    HeadingAttrs, ExpandAttrs, NestedAttrs, PanelAttrs, StatusAttrs, EmojiAttrs, MentionAttrs,
    InlineCardAttrs, DateAttrs, MediaSingleAttrs, AccessLevel, UserType, Subsup, MarkAction,
    opt_str_v, opt_marks_v, blocks_v, inlines_v, marks_v, medias_v, media_marks_v, rows_v,
    entries_v, items_v, task_items_v, decision_items_v, block_v, inline_v, mark_v, media_v,
    media_mark_v, entry_v, task_item_v, decision_item_v, link_v, copy_marks, copy_mark,
    apply_mark_action,
    remove_mark_all, lemma_blocks_v_push, lemma_blocks_v_props, lemma_inlines_v_push,
    lemma_inlines_v_props, lemma_marks_v_push, lemma_marks_v_props, lemma_medias_v_push,
    lemma_items_v_push, lemma_entries_v_push, lemma_rows_v_push, lemma_task_items_v_push,
    lemma_media_marks_v_push,
    lemma_decision_items_v_push};
use crate::view::{BlockV, InlineV, MarkV, MarkActionV, MediaV, MediaMarkV, LinkMarkV, EntryV,
    TaskItemV, DecisionItemV};
use crate::text::{clean_spec, trim_spec, clean_surrounding_text, trim_str, str_eq};
use crate::num::{parse_px_spec, parse_px, parse_i64_spec, parse_i64, dec_str_i64, format_i64};
use crate::outside::{millis_of_rfc3339, rfc3339_to_millis};

verus! {

// ---------------------------------------------------------------------------
// Frames
// ---------------------------------------------------------------------------

/// The kinds of custom block contexts.
#[derive(Clone, Copy, Debug, PartialEq, Eq, Structural)]
pub enum CustomBlockType {
    Div,
    Emoji,
    Status,
    DecisionItem,
    Expand,
    NestedExpand,
    Panel,
    Mention,
    InlineCard,
    Date,
}

/// The kinds of media block contexts.
#[derive(Clone, Copy, Debug, PartialEq, Eq, Structural)]
pub enum MediaBlockType {
    MediaGroup,
    MediaSingle,
}

/// One finished item of a pending list: a plain, task or decision item.
#[derive(Debug)]
pub enum ListItemType {
    DecisionItem(DecisionItem),
    ListItem(ListItem),
    TaskItem(TaskItem),
}

/// A stack frame: one currently-open, not-yet-closed node under construction.
#[derive(Debug)]
pub enum BlockContext {
    Document(Vec<AdfBlockNode>),
    Blockquote(Vec<AdfBlockNode>),
    CodeBlock(String),
    CustomBlock(CustomBlockType, Vec<AdfBlockNode>, Vec<Attribute>),
    MediaBlock(MediaBlockType, Vec<MediaNode>, Vec<Attribute>),
    TableBlock(Vec<TableRow>),
    TableRowBlock(Vec<TableRowEntry>),
    TableBlockCell(Vec<AdfBlockNode>),
    TableBlockHeader(Vec<AdfBlockNode>),
    Heading(u8, Vec<AdfNode>),
    Paragraph(Vec<AdfNode>),
    PendingList {
        nodes: Vec<ListItemType>,
        ordered: bool,
        local_id: Option<String>,
        local_tag: Option<String>,
    },
    ListItem(Vec<AdfBlockNode>),
    TaskItem(Vec<AdfNode>, TaskItemState, String),
    DecisionItem(Vec<AdfNode>, String),
}

/// View of one finished pending-list item.
#[verifier::ext_equal]
pub enum ListItemTypeV {
    Decision(DecisionItemV),
    Plain(Seq<BlockV>),
    Task(TaskItemV),
}

/// View of one stack frame.
#[verifier::ext_equal]
pub enum FrameV {
    Document(Seq<BlockV>),
    Blockquote(Seq<BlockV>),
    CodeBlock(Seq<char>),
    CustomBlock(CustomBlockType, Seq<BlockV>, Seq<AttrV>),
    MediaBlock(MediaBlockType, Seq<MediaV>, Seq<AttrV>),
    TableBlock(Seq<Seq<EntryV>>),
    TableRowBlock(Seq<EntryV>),
    TableBlockCell(Seq<BlockV>),
    TableBlockHeader(Seq<BlockV>),
    Heading(u8, Seq<InlineV>),
    Paragraph(Seq<InlineV>),
    PendingList {
        items: Seq<ListItemTypeV>,
        ordered: bool,
        local_id: Option<Seq<char>>,
        local_tag: Option<Seq<char>>,
    },
    ListItem(Seq<BlockV>),
    TaskItem(Seq<InlineV>, TaskItemState, Seq<char>),
    DecisionItem(Seq<InlineV>, Seq<char>),
}

/// View of one list item entry.
pub open spec fn litem_v(i: ListItemType) -> ListItemTypeV {
    match i {
        ListItemType::DecisionItem(d) => ListItemTypeV::Decision(decision_item_v(d)),
        ListItemType::ListItem(l) => ListItemTypeV::Plain(blocks_v(l.content@)),
        ListItemType::TaskItem(t) => ListItemTypeV::Task(task_item_v(t)),
    }
}

/// View of a list item sequence.
pub open spec fn litems_v(s: Seq<ListItemType>) -> Seq<ListItemTypeV>
    decreases s,
{
    if s.len() == 0 {
        Seq::empty()
    } else {
        litems_v(s.drop_last()).push(litem_v(s.last()))
    }
}

pub proof fn lemma_litems_v_push(s: Seq<ListItemType>, x: ListItemType)
    ensures
        litems_v(s.push(x)) == litems_v(s).push(litem_v(x)),
{
    assert(s.push(x).drop_last() =~= s);
    assert(s.push(x).last() == x);
}

/// View of one frame.
pub open spec fn frame_v(f: BlockContext) -> FrameV {
    match f {
        BlockContext::Document(n) => FrameV::Document(blocks_v(n@)),
        BlockContext::Blockquote(n) => FrameV::Blockquote(blocks_v(n@)),
        BlockContext::CodeBlock(t) => FrameV::CodeBlock(t@),
        BlockContext::CustomBlock(ty, n, a) => FrameV::CustomBlock(ty, blocks_v(n@), attrs_v(a@)),
        BlockContext::MediaBlock(ty, n, a) => FrameV::MediaBlock(ty, medias_v(n@), attrs_v(a@)),
        BlockContext::TableBlock(r) => FrameV::TableBlock(rows_v(r@)),
        BlockContext::TableRowBlock(e) => FrameV::TableRowBlock(entries_v(e@)),
        BlockContext::TableBlockCell(n) => FrameV::TableBlockCell(blocks_v(n@)),
        BlockContext::TableBlockHeader(n) => FrameV::TableBlockHeader(blocks_v(n@)),
        BlockContext::Heading(l, n) => FrameV::Heading(l, inlines_v(n@)),
        BlockContext::Paragraph(n) => FrameV::Paragraph(inlines_v(n@)),
        BlockContext::PendingList { nodes, ordered, local_id, local_tag } => FrameV::PendingList {
            items: litems_v(nodes@),
            ordered,
            local_id: opt_str_v(local_id),
            local_tag: opt_str_v(local_tag),
        },
        BlockContext::ListItem(n) => FrameV::ListItem(blocks_v(n@)),
        BlockContext::TaskItem(n, st, id) => FrameV::TaskItem(inlines_v(n@), st, id@),
        BlockContext::DecisionItem(n, id) => FrameV::DecisionItem(inlines_v(n@), id@),
    }
}

impl View for BlockContext {
    type V = FrameV;

    open spec fn view(&self) -> FrameV {
        frame_v(*self)
    }
}

/// View of a frame stack.
pub open spec fn frames_v(s: Seq<BlockContext>) -> Seq<FrameV>
    decreases s,
{
    if s.len() == 0 {
        Seq::empty()
    } else {
        frames_v(s.drop_last()).push(frame_v(s.last()))
    }
}

pub proof fn lemma_frames_v_push(s: Seq<BlockContext>, x: BlockContext)
    ensures
        frames_v(s.push(x)) == frames_v(s).push(frame_v(x)),
{
    assert(s.push(x).drop_last() =~= s);
    assert(s.push(x).last() == x);
}

pub proof fn lemma_frames_v_props(s: Seq<BlockContext>)
    ensures
        frames_v(s).len() == s.len(),
        forall|i: int| 0 <= i < s.len() ==> frames_v(s)[i] == frame_v(#[trigger] s[i]),
        s.len() > 0 ==> frames_v(s).drop_last() == frames_v(s.drop_last()),
        s.len() > 0 ==> frames_v(s).last() == frame_v(s.last()),
    decreases s.len(),
{
    if s.len() > 0 {
        lemma_frames_v_props(s.drop_last());
        assert forall|i: int| 0 <= i < s.len() implies frames_v(s)[i] == frame_v(s[i]) by {
            if i < s.len() - 1 {
                assert(s.drop_last()[i] == s[i]);
            } else {
                assert(s[i] == s.last());
            }
        }
        assert(frames_v(s).drop_last() =~= frames_v(s.drop_last()));
    }
}

// ---------------------------------------------------------------------------
// Builder state
// ---------------------------------------------------------------------------

/// The live state of the builder: the frame stack, the active marks, the
/// pending text buffer, the side channel set by a local-data marker element,
/// and the fault flag that replaces unrecoverable panics.
#[derive(Debug)]
pub struct ADFBuilderState {
    pub stack: Vec<BlockContext>,
    pub mark_stack: Vec<AdfMark>,
    pub current_text: String,
    pub custom_block_id: Option<LocalId>,
    pub custom_block_tag: Option<String>,
    pub fault: bool,
    /// The tag that first tripped the fault flag; a diagnostic only, outside
    /// the state's mathematical view.
    pub fault_tag: String,
}

/// View of the whole builder state.
#[verifier::ext_equal]
pub struct StateV {
    pub stack: Seq<FrameV>,
    pub marks: Seq<MarkV>,
    pub text: Seq<char>,
    pub custom_id: Option<Seq<char>>,
    pub custom_tag: Option<Seq<char>>,
    pub fault: bool,
}

/// View of the optional local-id side channel.
pub open spec fn opt_local_id_v(o: Option<LocalId>) -> Option<Seq<char>> {
    match o {
        Option::Some(l) => Option::Some(l.local_id@),
        Option::None => Option::None,
    }
}

impl View for ADFBuilderState {
    type V = StateV;

    open spec fn view(&self) -> StateV {
        StateV {
            stack: frames_v(self.stack@),
            marks: marks_v(self.mark_stack@),
            text: self.current_text@,
            custom_id: opt_local_id_v(self.custom_block_id),
            custom_tag: opt_str_v(self.custom_block_tag),
            fault: self.fault,
        }
    }
}

/// The same state with the fault flag raised.
pub open spec fn faulted(s: StateV) -> StateV {
    StateV { fault: true, ..s }
}

// ---------------------------------------------------------------------------
// Small spec-level state operations
// ---------------------------------------------------------------------------

/// Appends an inline node to the last paragraph of a block list, opening a
/// new paragraph if the list does not end in one.
pub open spec fn spec_push_into_last_paragraph(bs: Seq<BlockV>, n: InlineV) -> Seq<BlockV> {
    if bs.len() > 0 && (bs.last() matches BlockV::Paragraph { .. }) {
        match bs.last() {
            BlockV::Paragraph { content } => bs.drop_last().push(
                BlockV::Paragraph {
                    content: Option::Some(
                        match content {
                            Option::Some(c) => c.push(n),
                            Option::None => seq![n],
                        },
                    ),
                },
            ),
            _ => bs,
        }
    } else {
        bs.push(BlockV::Paragraph { content: Option::Some(seq![n]) })
    }
}

/// Whether flushed text is trimmed around newlines in this frame.
pub open spec fn frame_trims(f: FrameV) -> bool {
    match f {
        FrameV::Heading(..) => true,
        FrameV::Paragraph(..) => true,
        FrameV::TableBlockCell(..) => true,
        FrameV::TableBlockHeader(..) => true,
        FrameV::Blockquote(..) => true,
        FrameV::ListItem(..) => true,
        _ => false,
    }
}

/// Where pending text lands when flushed into a frame; frames that do not
/// bear text swallow it.
pub open spec fn spec_flush_into(f: FrameV, text: Seq<char>, marks: Option<Seq<MarkV>>) -> FrameV {
    match f {
        FrameV::Paragraph(n) => FrameV::Paragraph(n.push(InlineV::Text { text, marks })),
        FrameV::Heading(l, n) => FrameV::Heading(l, n.push(InlineV::Text { text, marks })),
        FrameV::ListItem(b) => FrameV::ListItem(
            spec_push_into_last_paragraph(b, InlineV::Text { text, marks }),
        ),
        FrameV::Blockquote(b) => FrameV::Blockquote(
            spec_push_into_last_paragraph(b, InlineV::Text { text, marks }),
        ),
        FrameV::TableBlockHeader(b) => FrameV::TableBlockHeader(
            spec_push_into_last_paragraph(b, InlineV::Text { text, marks }),
        ),
        FrameV::TableBlockCell(b) => FrameV::TableBlockCell(
            spec_push_into_last_paragraph(b, InlineV::Text { text, marks }),
        ),
        FrameV::CustomBlock(CustomBlockType::Div, b, a) => FrameV::CustomBlock(
            CustomBlockType::Div,
            spec_push_into_last_paragraph(b, InlineV::Text { text, marks }),
            a,
        ),
        FrameV::TaskItem(n, st, id) => FrameV::TaskItem(
            n.push(InlineV::Text { text: trim_spec(text), marks }),
            st,
            id,
        ),
        FrameV::DecisionItem(n, id) => FrameV::DecisionItem(
            n.push(InlineV::Text { text: trim_spec(text), marks }),
            id,
        ),
        FrameV::CodeBlock(t) => FrameV::CodeBlock(t + text),
        _ => f,
    }
}

/// Flushing the pending text buffer: trims around newlines in text-bearing
/// block contexts, drops whitespace-only text, stamps the active marks onto
/// the flushed run, and empties the buffer.
pub open spec fn spec_flush(s: StateV) -> StateV {
    if s.fault || s.text.len() == 0 || s.stack.len() == 0 {
        StateV { text: if s.fault { s.text } else { Seq::empty() }, ..s }
    } else {
        let trim = frame_trims(s.stack.last());
        let text1 = if trim {
            clean_spec(s.text)
        } else {
            s.text
        };
        if trim_spec(text1).len() == 0 {
            StateV { text: Seq::empty(), ..s }
        } else {
            let marks = if s.marks.len() == 0 {
                Option::<Seq<MarkV>>::None
            } else {
                Option::Some(s.marks)
            };
            StateV {
                stack: s.stack.drop_last().push(spec_flush_into(s.stack.last(), text1, marks)),
                text: Seq::empty(),
                ..s
            }
        }
    }
}

// ---------------------------------------------------------------------------
// Small executable state operations
// ---------------------------------------------------------------------------

/// The builder that accumulates a document from lexical HTML events.
#[derive(Debug)]
pub struct ADFBuilder {
    pub state: ADFBuilderState,
}

impl View for ADFBuilder {
    type V = StateV;

    open spec fn view(&self) -> StateV {
        self.state@
    }
}

impl ADFBuilder {
    /// Appends an inline node to the last paragraph of a block list, opening
    /// a new paragraph if needed.
    pub fn push_into_last_paragraph(nodes: &mut Vec<AdfBlockNode>, adf_node: AdfNode)
        ensures
            blocks_v(final(nodes)@) == spec_push_into_last_paragraph(
                blocks_v(old(nodes)@),
                adf_node@,
            ),
    {
        proof {
            lemma_blocks_v_props(nodes@);
        }
        let n = nodes.len();
        let is_para = n > 0 && (matches!(nodes[n - 1], AdfBlockNode::Paragraph { .. }));
        if is_para {
            let ghost oldnodes = nodes@;
            let last = nodes.pop().unwrap();
            proof {
                assert(oldnodes.last() == last);
                assert(blocks_v(oldnodes).last() == block_v(last));
                assert(blocks_v(oldnodes).drop_last() == blocks_v(oldnodes.drop_last()));
            }
            match last {
                AdfBlockNode::Paragraph { content } => {
                    let mut c = match content {
                        Option::Some(c) => c,
                        Option::None => Vec::new(),
                    };
                    let ghost coldv = c@;
                    c.push(adf_node);
                    proof {
                        lemma_inlines_v_push(coldv, adf_node);
                    }
                    let ghost stacknodes = nodes@;
                    nodes.push(AdfBlockNode::Paragraph { content: Option::Some(c) });
                    proof {
                        lemma_blocks_v_push(
                            stacknodes,
                            AdfBlockNode::Paragraph { content: Option::Some(c) },
                        );
                        assert(blocks_v(final(nodes)@) =~= spec_push_into_last_paragraph(
                            blocks_v(oldnodes),
                            adf_node@,
                        ));
                    }
                },
                _ => {
                    proof {
                        assert(false);
                    }
                },
            }
        } else {
            let mut c: Vec<AdfNode> = Vec::new();
            c.push(adf_node);
            let ghost stacknodes = nodes@;
            nodes.push(AdfBlockNode::Paragraph { content: Option::Some(c) });
            proof {
                assert(c@ =~= Seq::<AdfNode>::empty().push(adf_node));
                lemma_inlines_v_push(Seq::<AdfNode>::empty(), adf_node);
                assert(inlines_v(Seq::<AdfNode>::empty()) == Seq::<InlineV>::empty());
                assert(inlines_v(c@) =~= seq![adf_node@]);
                lemma_blocks_v_push(stacknodes, AdfBlockNode::Paragraph {
                    content: Option::Some(c),
                });
                if stacknodes.len() > 0 {
                    assert(blocks_v(stacknodes).last() == block_v(stacknodes.last()));
                    assert(!(blocks_v(stacknodes).last() matches BlockV::Paragraph { .. }));
                }
                assert(blocks_v(final(nodes)@) =~= spec_push_into_last_paragraph(
                    blocks_v(old(nodes)@),
                    adf_node@,
                ));
            }
        }
    }

    /// Flushes the pending text buffer into the current frame.
    pub fn flush_text(state: &mut ADFBuilderState)
        ensures
            final(state)@ == spec_flush(old(state)@),
    {
        if state.fault {
            return ;
        }
        if state.current_text.as_str().is_empty() {
            state.current_text = String::new();
            proof {
                assert(state@ =~= spec_flush(old(state)@));
            }
            return ;
        }
        if state.stack.len() == 0 {
            state.current_text = String::new();
            proof {
                assert(state@ =~= spec_flush(old(state)@));
            }
            return ;
        }
        proof {
            lemma_frames_v_props(state.stack@);
        }
        let text = state.current_text.clone();
        state.current_text = String::new();

        let n = state.stack.len();
        let trim = match &state.stack[n - 1] {
            BlockContext::Heading(..) => true,
            BlockContext::Paragraph(..) => true,
            BlockContext::TableBlockCell(..) => true,
            BlockContext::TableBlockHeader(..) => true,
            BlockContext::Blockquote(..) => true,
            BlockContext::ListItem(..) => true,
            _ => false,
        };
        let text1: String = if trim {
            clean_surrounding_text(text.as_str()).to_owned()
        } else {
            text
        };
        if trim_str(text1.as_str()).is_empty() {
            proof {
                assert(state@ =~= spec_flush(old(state)@));
            }
            return ;
        }
        let marks: Option<Vec<AdfMark>> = if state.mark_stack.len() == 0 {
            Option::None
        } else {
            Option::Some(copy_marks(&state.mark_stack))
        };
        proof {
            assert(opt_marks_v(marks) == (if old(state)@.marks.len() == 0 {
                Option::<Seq<MarkV>>::None
            } else {
                Option::Some(old(state)@.marks)
            }));
        }

        let ghost oldstack = state.stack@;
        let frame = state.stack.pop().unwrap();
        proof {
            assert(frames_v(oldstack).last() == frame_v(frame));
            assert(frames_v(oldstack).drop_last() == frames_v(oldstack.drop_last()));
        }
        let newframe: BlockContext = match frame {
            BlockContext::Paragraph(mut nodes) => {
                let ghost nv = nodes@;
                nodes.push(AdfNode::Text { text: text1, marks });
                proof {
                    lemma_inlines_v_push(nv, AdfNode::Text { text: text1, marks });
                }
                BlockContext::Paragraph(nodes)
            },
            BlockContext::Heading(l, mut nodes) => {
                let ghost nv = nodes@;
                nodes.push(AdfNode::Text { text: text1, marks });
                proof {
                    lemma_inlines_v_push(nv, AdfNode::Text { text: text1, marks });
                }
                BlockContext::Heading(l, nodes)
            },
            BlockContext::ListItem(mut bl) => {
                Self::push_into_last_paragraph(&mut bl, AdfNode::Text { text: text1, marks });
                BlockContext::ListItem(bl)
            },
            BlockContext::Blockquote(mut bl) => {
                Self::push_into_last_paragraph(&mut bl, AdfNode::Text { text: text1, marks });
                BlockContext::Blockquote(bl)
            },
            BlockContext::TableBlockHeader(mut bl) => {
                Self::push_into_last_paragraph(&mut bl, AdfNode::Text { text: text1, marks });
                BlockContext::TableBlockHeader(bl)
            },
            BlockContext::TableBlockCell(mut bl) => {
                Self::push_into_last_paragraph(&mut bl, AdfNode::Text { text: text1, marks });
                BlockContext::TableBlockCell(bl)
            },
            BlockContext::CustomBlock(CustomBlockType::Div, mut bl, a) => {
                Self::push_into_last_paragraph(&mut bl, AdfNode::Text { text: text1, marks });
                BlockContext::CustomBlock(CustomBlockType::Div, bl, a)
            },
            BlockContext::TaskItem(mut nodes, st, id) => {
                let ghost nv = nodes@;
                let trimmed = trim_str(text1.as_str()).to_owned();
                nodes.push(AdfNode::Text { text: trimmed, marks });
                proof {
                    lemma_inlines_v_push(nv, AdfNode::Text { text: trimmed, marks });
                }
                BlockContext::TaskItem(nodes, st, id)
            },
            BlockContext::DecisionItem(mut nodes, id) => {
                let ghost nv = nodes@;
                let trimmed = trim_str(text1.as_str()).to_owned();
                nodes.push(AdfNode::Text { text: trimmed, marks });
                proof {
                    lemma_inlines_v_push(nv, AdfNode::Text { text: trimmed, marks });
                }
                BlockContext::DecisionItem(nodes, id)
            },
            BlockContext::CodeBlock(mut t) => {
                t.append(text1.as_str());
                BlockContext::CodeBlock(t)
            },
            other => other,
        };
        let ghost popped = state.stack@;
        state.stack.push(newframe);
        proof {
            lemma_frames_v_push(popped, newframe);
            assert(frame_v(newframe) =~= spec_flush_into(
                frames_v(oldstack).last(),
                if frame_trims(frames_v(oldstack).last()) {
                    clean_spec(old(state)@.text)
                } else {
                    old(state)@.text
                },
                opt_marks_v(marks),
            ));
            assert(state@ =~= spec_flush(old(state)@));
        }
    }
}

// ---------------------------------------------------------------------------
// Closing blocks
// ---------------------------------------------------------------------------

/// Appends a finished block to a frame's child list; frames that hold no
/// block children are left unchanged (callers guard with [`spec_close_ok`]).
pub open spec fn spec_add_block(p: FrameV, b: BlockV) -> FrameV {
    match p {
        FrameV::Document(n) => FrameV::Document(n.push(b)),
        FrameV::Blockquote(n) => FrameV::Blockquote(n.push(b)),
        FrameV::ListItem(n) => FrameV::ListItem(n.push(b)),
        FrameV::TableBlockCell(n) => FrameV::TableBlockCell(n.push(b)),
        FrameV::TableBlockHeader(n) => FrameV::TableBlockHeader(n.push(b)),
        FrameV::CustomBlock(ty, n, a) => FrameV::CustomBlock(ty, n.push(b), a),
        _ => p,
    }
}

/// Whether a custom block kind can hold nested block children.
pub open spec fn custom_holds_blocks(ty: CustomBlockType) -> bool {
    ty == CustomBlockType::Div || ty == CustomBlockType::Expand || ty
        == CustomBlockType::NestedExpand || ty == CustomBlockType::Panel
}

/// The frames a closed paragraph may be attached to.
pub open spec fn para_parent_ok(p: FrameV) -> bool {
    match p {
        FrameV::Document(_) => true,
        FrameV::TableBlockCell(_) => true,
        FrameV::TableBlockHeader(_) => true,
        FrameV::Blockquote(_) => true,
        FrameV::ListItem(_) => true,
        FrameV::CustomBlock(ty, _, _) => custom_holds_blocks(ty),
        _ => false,
    }
}

/// The frames a closed expand may be attached to.
pub open spec fn expand_parent_ok(p: FrameV) -> bool {
    para_parent_ok(p)
}

/// The frames a closed code block may be attached to.
pub open spec fn code_parent_ok(p: FrameV) -> bool {
    match p {
        FrameV::Document(_) => true,
        FrameV::TableBlockCell(_) => true,
        FrameV::TableBlockHeader(_) => true,
        FrameV::Blockquote(_) => true,
        FrameV::ListItem(_) => true,
        FrameV::CustomBlock(ty, _, _) => ty == CustomBlockType::Div,
        _ => false,
    }
}

/// The frames a closed blockquote may be attached to.
pub open spec fn quote_parent_ok(p: FrameV) -> bool {
    match p {
        FrameV::Document(_) => true,
        FrameV::TableBlockCell(_) => true,
        FrameV::TableBlockHeader(_) => true,
        FrameV::ListItem(_) => true,
        FrameV::CustomBlock(ty, _, _) => ty == CustomBlockType::Div,
        _ => false,
    }
}

/// The frames a closed list may be attached to.
pub open spec fn list_parent_ok(p: FrameV) -> bool {
    match p {
        FrameV::Document(_) => true,
        FrameV::TableBlockCell(_) => true,
        FrameV::TableBlockHeader(_) => true,
        FrameV::Blockquote(_) => true,
        FrameV::ListItem(_) => true,
        FrameV::CustomBlock(ty, _, _) => ty == CustomBlockType::Div,
        _ => false,
    }
}

/// Whether the generic close can attach this frame to this parent.
pub open spec fn spec_close_ok(f: FrameV, p: FrameV) -> bool {
    match f {
        FrameV::Paragraph(_) => para_parent_ok(p),
        FrameV::CustomBlock(CustomBlockType::Expand, _, _) => expand_parent_ok(p),
        FrameV::CodeBlock(_) => code_parent_ok(p),
        FrameV::Blockquote(_) => quote_parent_ok(p),
        FrameV::PendingList { .. } => list_parent_ok(p),
        _ => false,
    }
}

/// The plain items of a pending list, in order.
pub open spec fn plain_items_of(items: Seq<ListItemTypeV>) -> Seq<Seq<BlockV>>
    decreases items.len(),
{
    if items.len() == 0 {
        Seq::empty()
    } else {
        match items.last() {
            ListItemTypeV::Plain(b) => plain_items_of(items.drop_last()).push(b),
            _ => plain_items_of(items.drop_last()),
        }
    }
}

/// The task items of a pending list, in order.
pub open spec fn task_items_of(items: Seq<ListItemTypeV>) -> Seq<TaskItemV>
    decreases items.len(),
{
    if items.len() == 0 {
        Seq::empty()
    } else {
        match items.last() {
            ListItemTypeV::Task(t) => task_items_of(items.drop_last()).push(t),
            _ => task_items_of(items.drop_last()),
        }
    }
}

/// The decision items of a pending list, in order.
pub open spec fn decision_items_of(items: Seq<ListItemTypeV>) -> Seq<DecisionItemV>
    decreases items.len(),
{
    if items.len() == 0 {
        Seq::empty()
    } else {
        match items.last() {
            ListItemTypeV::Decision(d) => decision_items_of(items.drop_last()).push(d),
            _ => decision_items_of(items.drop_last()),
        }
    }
}

/// The list node a pending list closes into, decided by the recognized
/// local tag and the ordered flag, filtering the items to the matching
/// subtype.
pub open spec fn spec_pending_list_node(
    items: Seq<ListItemTypeV>,
    ordered: bool,
    local_id: Option<Seq<char>>,
    local_tag: Option<Seq<char>>,
) -> BlockV {
    let lid = match local_id {
        Option::Some(l) => l,
        Option::None => Seq::empty(),
    };
    if local_tag == Option::Some("task-list"@) {
        BlockV::TaskList { local_id: lid, items: task_items_of(items) }
    } else if local_tag == Option::Some("decision-list"@) {
        BlockV::DecisionList { local_id: lid, items: decision_items_of(items) }
    } else if ordered {
        BlockV::OrderedList { order: Option::None, items: plain_items_of(items) }
    } else {
        BlockV::BulletList { items: plain_items_of(items) }
    }
}

/// The node a frame closes into under the generic close.
pub open spec fn spec_closed_node(f: FrameV) -> BlockV {
    match f {
        FrameV::Paragraph(nodes) => BlockV::Paragraph { content: Option::Some(nodes) },
        FrameV::CustomBlock(CustomBlockType::Expand, nodes, attrs) => BlockV::Expand {
            title: match attr_get(attrs, "data-summary"@) {
                Option::Some(t) => if t.len() == 0 {
                    Option::None
                } else {
                    Option::Some(t)
                },
                Option::None => Option::None,
            },
            content: nodes,
        },
        FrameV::CodeBlock(t) => BlockV::CodeBlock {
            language: Option::None,
            content: Option::Some(seq![InlineV::Text { text: t, marks: Option::None }]),
        },
        FrameV::Blockquote(nodes) => BlockV::Blockquote { content: nodes },
        FrameV::PendingList { items, ordered, local_id, local_tag } => spec_pending_list_node(
            items,
            ordered,
            local_id,
            local_tag,
        ),
        _ => BlockV::Unknown,
    }
}

/// The generic close: pops the top frame, turns it into a node, and attaches
/// it to the parent frame. An empty paragraph is dropped unless the parent is
/// a custom block. A mismatched frame/parent pair is a structural fault.
pub open spec fn spec_close_block(s: StateV) -> StateV {
    if s.fault {
        s
    } else if s.stack.len() < 2 {
        faulted(s)
    } else {
        let f = s.stack.last();
        let rest = s.stack.drop_last();
        let p = rest.last();
        let rest2 = rest.drop_last();
        if !spec_close_ok(f, p) {
            faulted(s)
        } else if f matches FrameV::Paragraph(nodes) && nodes.len() == 0 {
            StateV { stack: rest, ..s }
        } else {
            StateV { stack: rest2.push(spec_add_block(p, spec_closed_node(f))), ..s }
        }
    }
}

impl ADFBuilder {
    /// Whether the generic close accepts this frame/parent pair.
    fn close_ok(f: &BlockContext, p: &BlockContext) -> (r: bool)
        ensures
            r == spec_close_ok(f@, p@),
    {
        let p_ok_para = match p {
            BlockContext::Document(_) => true,
            BlockContext::TableBlockCell(_) => true,
            BlockContext::TableBlockHeader(_) => true,
            BlockContext::Blockquote(_) => true,
            BlockContext::ListItem(_) => true,
            BlockContext::CustomBlock(ty, _, _) => matches!(
                ty,
                CustomBlockType::Div | CustomBlockType::Expand | CustomBlockType::NestedExpand
                    | CustomBlockType::Panel
            ),
            _ => false,
        };
        let p_ok_div = match p {
            BlockContext::Document(_) => true,
            BlockContext::TableBlockCell(_) => true,
            BlockContext::TableBlockHeader(_) => true,
            BlockContext::Blockquote(_) => true,
            BlockContext::ListItem(_) => true,
            BlockContext::CustomBlock(ty, _, _) => matches!(ty, CustomBlockType::Div),
            _ => false,
        };
        let p_ok_quote = match p {
            BlockContext::Document(_) => true,
            BlockContext::TableBlockCell(_) => true,
            BlockContext::TableBlockHeader(_) => true,
            BlockContext::ListItem(_) => true,
            BlockContext::CustomBlock(ty, _, _) => matches!(ty, CustomBlockType::Div),
            _ => false,
        };
        match f {
            BlockContext::Paragraph(_) => p_ok_para,
            BlockContext::CustomBlock(CustomBlockType::Expand, _, _) => p_ok_para,
            BlockContext::CodeBlock(_) => p_ok_div,
            BlockContext::Blockquote(_) => p_ok_quote,
            BlockContext::PendingList { .. } => p_ok_div,
            _ => false,
        }
    }

    /// Attaches a finished block node to a container frame's child list.
    fn frame_push_block(parent: BlockContext, b: AdfBlockNode) -> (r: BlockContext)
        ensures
            r@ == spec_add_block(parent@, b@),
    {
        match parent {
            BlockContext::Document(mut n) => {
                let ghost nv = n@;
                n.push(b);
                proof {
                    lemma_blocks_v_push(nv, b);
                }
                BlockContext::Document(n)
            },
            BlockContext::Blockquote(mut n) => {
                let ghost nv = n@;
                n.push(b);
                proof {
                    lemma_blocks_v_push(nv, b);
                }
                BlockContext::Blockquote(n)
            },
            BlockContext::ListItem(mut n) => {
                let ghost nv = n@;
                n.push(b);
                proof {
                    lemma_blocks_v_push(nv, b);
                }
                BlockContext::ListItem(n)
            },
            BlockContext::TableBlockCell(mut n) => {
                let ghost nv = n@;
                n.push(b);
                proof {
                    lemma_blocks_v_push(nv, b);
                }
                BlockContext::TableBlockCell(n)
            },
            BlockContext::TableBlockHeader(mut n) => {
                let ghost nv = n@;
                n.push(b);
                proof {
                    lemma_blocks_v_push(nv, b);
                }
                BlockContext::TableBlockHeader(n)
            },
            BlockContext::CustomBlock(ty, mut n, a) => {
                let ghost nv = n@;
                n.push(b);
                proof {
                    lemma_blocks_v_push(nv, b);
                }
                BlockContext::CustomBlock(ty, n, a)
            },
            other => other,
        }
    }

    /// Turns a closed frame into its node under the generic close.
    fn closed_node(f: BlockContext) -> (r: AdfBlockNode)
        requires
            f@ matches FrameV::Paragraph(_) || f@ matches FrameV::CustomBlock(
                CustomBlockType::Expand,
                _,
                _,
            ) || f@ matches FrameV::CodeBlock(_) || f@ matches FrameV::Blockquote(_) || f@
                matches FrameV::PendingList { .. },
        ensures
            r@ == spec_closed_node(f@),
    {
        match f {
            BlockContext::Paragraph(nodes) => AdfBlockNode::Paragraph {
                content: Option::Some(nodes),
            },
            BlockContext::CustomBlock(CustomBlockType::Expand, nodes, attrs) => {
                let title0 = get_attr(&attrs, "data-summary");
                let title = match title0 {
                    Option::Some(t) => {
                        if t.as_str().is_empty() {
                            Option::None
                        } else {
                            Option::Some(t)
                        }
                    },
                    Option::None => Option::None,
                };
                AdfBlockNode::Expand { content: nodes, attrs: ExpandAttrs { title } }
            },
            BlockContext::CodeBlock(t) => {
                let mut content: Vec<AdfNode> = Vec::new();
                content.push(AdfNode::Text { text: t, marks: Option::None });
                proof {
                    assert(content@ =~= Seq::<AdfNode>::empty().push(content@[0]));
                    lemma_inlines_v_props(content@);
                    assert(inlines_v(content@) =~= seq![inline_v(content@[0])]);
                }
                AdfBlockNode::CodeBlock { attrs: Option::None, content: Option::Some(content) }
            },
            BlockContext::Blockquote(nodes) => AdfBlockNode::Blockquote { content: nodes },
            BlockContext::PendingList { nodes, ordered, local_id, local_tag } => {
                Self::pending_list_node(nodes, ordered, local_id, local_tag)
            },
            _ => {
                proof {
                    assert(false);
                }
                AdfBlockNode::Rule
            },
        }
    }

    /// Builds the list node a pending list closes into.
    fn pending_list_node(
        nodes: Vec<ListItemType>,
        ordered: bool,
        local_id: Option<String>,
        local_tag: Option<String>,
    ) -> (r: AdfBlockNode)
        ensures
            r@ == spec_pending_list_node(
                litems_v(nodes@),
                ordered,
                opt_str_v(local_id),
                opt_str_v(local_tag),
            ),
    {
        let lid: String = match local_id {
            Option::Some(l) => l,
            Option::None => String::new(),
        };
        let is_task = match &local_tag {
            Option::Some(t) => str_eq(t.as_str(), "task-list"),
            Option::None => false,
        };
        let is_decision = match &local_tag {
            Option::Some(t) => str_eq(t.as_str(), "decision-list"),
            Option::None => false,
        };
        if is_task {
            let mut items: Vec<TaskItem> = Vec::new();
            let mut rest = nodes;
            let ghost allv = litems_v(rest@);
            let mut i: usize = 0;
            proof {
                assert(task_items_v(items@) =~= task_items_of(litems_v(rest@.subrange(0, 0))));
            }
            while i < rest.len()
                invariant
                    0 <= i <= rest.len(),
                    allv == litems_v(rest@),
                    task_items_v(items@) == task_items_of(litems_v(rest@.subrange(0, i as int))),
                decreases rest.len() - i,
            {
                let ghost pre = rest@.subrange(0, i as int);
                proof {
                    assert(rest@.subrange(0, i + 1).drop_last() =~= pre);
                    assert(rest@.subrange(0, i + 1).last() == rest@[i as int]);
                    lemma_litems_v_push(pre, rest@[i as int]);
                    let lit = litem_v(rest@[i as int]);
                    assert(litems_v(pre).push(lit).drop_last() =~= litems_v(pre));
                    assert(litems_v(pre).push(lit).last() == lit);
                }
                let it = &rest[i];
                match it {
                    ListItemType::TaskItem(t) => {
                        let ghost iv = items@;
                        let tc = crate::model::copy_task_item(t);
                        items.push(tc);
                        proof {
                            lemma_task_items_v_push(iv, tc);
                        }
                    },
                    _ => {},
                }
                i += 1;
            }
            proof {
                assert(rest@.subrange(0, rest@.len() as int) =~= rest@);
            }
            AdfBlockNode::TaskList { attrs: LocalId { local_id: lid }, content: items }
        } else if is_decision {
            let mut items: Vec<DecisionItem> = Vec::new();
            let rest = nodes;
            let ghost allv = litems_v(rest@);
            let mut i: usize = 0;
            proof {
                assert(decision_items_v(items@) =~= decision_items_of(
                    litems_v(rest@.subrange(0, 0)),
                ));
            }
            while i < rest.len()
                invariant
                    0 <= i <= rest.len(),
                    allv == litems_v(rest@),
                    decision_items_v(items@) == decision_items_of(
                        litems_v(rest@.subrange(0, i as int)),
                    ),
                decreases rest.len() - i,
            {
                let ghost pre = rest@.subrange(0, i as int);
                proof {
                    assert(rest@.subrange(0, i + 1).drop_last() =~= pre);
                    assert(rest@.subrange(0, i + 1).last() == rest@[i as int]);
                    lemma_litems_v_push(pre, rest@[i as int]);
                    let lit = litem_v(rest@[i as int]);
                    assert(litems_v(pre).push(lit).drop_last() =~= litems_v(pre));
                    assert(litems_v(pre).push(lit).last() == lit);
                }
                let it = &rest[i];
                match it {
                    ListItemType::DecisionItem(d) => {
                        let ghost iv = items@;
                        let dc = crate::model::copy_decision_item(d);
                        items.push(dc);
                        proof {
                            lemma_decision_items_v_push(iv, dc);
                        }
                    },
                    _ => {},
                }
                i += 1;
            }
            proof {
                assert(rest@.subrange(0, rest@.len() as int) =~= rest@);
            }
            AdfBlockNode::DecisionList { content: items, attrs: LocalId { local_id: lid } }
        } else {
            let mut items: Vec<ListItem> = Vec::new();
            let rest = nodes;
            let ghost allv = litems_v(rest@);
            let mut i: usize = 0;
            proof {
                assert(items_v(items@) =~= plain_items_of(litems_v(rest@.subrange(0, 0))));
            }
            while i < rest.len()
                invariant
                    0 <= i <= rest.len(),
                    allv == litems_v(rest@),
                    items_v(items@) == plain_items_of(litems_v(rest@.subrange(0, i as int))),
                decreases rest.len() - i,
            {
                let ghost pre = rest@.subrange(0, i as int);
                proof {
                    assert(rest@.subrange(0, i + 1).drop_last() =~= pre);
                    assert(rest@.subrange(0, i + 1).last() == rest@[i as int]);
                    lemma_litems_v_push(pre, rest@[i as int]);
                    let lit = litem_v(rest@[i as int]);
                    assert(litems_v(pre).push(lit).drop_last() =~= litems_v(pre));
                    assert(litems_v(pre).push(lit).last() == lit);
                }
                let it = &rest[i];
                match it {
                    ListItemType::ListItem(l) => {
                        let ghost iv = items@;
                        let lc = ListItem { content: crate::model::copy_blocks(&l.content) };
                        items.push(lc);
                        proof {
                            lemma_items_v_push(iv, lc);
                        }
                    },
                    _ => {},
                }
                i += 1;
            }
            proof {
                assert(rest@.subrange(0, rest@.len() as int) =~= rest@);
            }
            if ordered {
                AdfBlockNode::OrderedList { attrs: Option::None, content: items }
            } else {
                AdfBlockNode::BulletList { content: items }
            }
        }
    }

    /// The generic close on the builder state.
    pub fn close_current_block(state: &mut ADFBuilderState)
        ensures
            final(state)@ == spec_close_block(old(state)@),
    {
        if state.fault {
            return ;
        }
        proof {
            lemma_frames_v_props(state.stack@);
        }
        if state.stack.len() < 2 {
            state.fault = true;
            proof {
                assert(state@ =~= faulted(old(state)@));
            }
            return ;
        }
        let n = state.stack.len();
        let ok = Self::close_ok(&state.stack[n - 1], &state.stack[n - 2]);
        if !ok {
            state.fault = true;
            proof {
                assert(state@ =~= faulted(old(state)@));
            }
            return ;
        }
        let ghost stack0 = state.stack@;
        let frame = state.stack.pop().unwrap();
        proof {
            assert(frames_v(stack0).last() == frame_v(frame));
            assert(frames_v(stack0).drop_last() == frames_v(stack0.drop_last()));
            lemma_frames_v_props(state.stack@);
        }
        let drop_empty = match &frame {
            BlockContext::Paragraph(nodes) => {
                proof {
                    lemma_inlines_v_props(nodes@);
                }
                nodes.len() == 0
            },
            _ => false,
        };
        if drop_empty {
            proof {
                assert(state@ =~= spec_close_block(old(state)@));
            }
            return ;
        }
        let ghost stack1 = state.stack@;
        let parent = state.stack.pop().unwrap();
        proof {
            assert(frames_v(stack1).last() == frame_v(parent));
            assert(frames_v(stack1).drop_last() == frames_v(stack1.drop_last()));
        }
        let node = Self::closed_node(frame);
        let newparent = Self::frame_push_block(parent, node);
        let ghost stack2 = state.stack@;
        state.stack.push(newparent);
        proof {
            lemma_frames_v_push(stack2, newparent);
            assert(state@ =~= spec_close_block(old(state)@));
        }
    }
}

// ---------------------------------------------------------------------------
// Closing list items, rows and cells
// ---------------------------------------------------------------------------

/// Closing a list item: flushes pending text, pops the item frame (a plain,
/// task or decision item), and appends the finished item to the pending list
/// below it; anything else is a structural fault.
pub open spec fn spec_close_list_item(s0: StateV) -> StateV {
    let s = spec_flush(s0);
    if s.fault {
        s
    } else if s.stack.len() < 2 {
        faulted(s)
    } else {
        let f = s.stack.last();
        let rest = s.stack.drop_last();
        let p = rest.last();
        let rest2 = rest.drop_last();
        match p {
            FrameV::PendingList { items, ordered, local_id, local_tag } => {
                let item = match f {
                    FrameV::ListItem(nodes) => Option::Some(ListItemTypeV::Plain(nodes)),
                    FrameV::TaskItem(nodes, st, id) => Option::Some(
                        ListItemTypeV::Task(TaskItemV { content: nodes, local_id: id, state: st }),
                    ),
                    FrameV::DecisionItem(nodes, id) => Option::Some(
                        ListItemTypeV::Decision(DecisionItemV { content: nodes, local_id: id }),
                    ),
                    _ => Option::None,
                };
                match item {
                    Option::Some(it) => StateV {
                        stack: rest2.push(
                            FrameV::PendingList {
                                items: items.push(it),
                                ordered,
                                local_id,
                                local_tag,
                            },
                        ),
                        ..s
                    },
                    Option::None => faulted(s),
                }
            },
            _ => faulted(s),
        }
    }
}

/// Closing a table row: pops the row frame and appends the finished row to
/// the table below it.
pub open spec fn spec_close_row(s0: StateV) -> StateV {
    let s = spec_flush(s0);
    if s.fault {
        s
    } else if s.stack.len() < 2 {
        faulted(s)
    } else {
        let f = s.stack.last();
        let rest = s.stack.drop_last();
        let p = rest.last();
        let rest2 = rest.drop_last();
        match (f, p) {
            (FrameV::TableRowBlock(cells), FrameV::TableBlock(rows)) => StateV {
                stack: rest2.push(FrameV::TableBlock(rows.push(cells))),
                ..s
            },
            _ => faulted(s),
        }
    }
}

/// Closing a table cell or header cell: pops the cell frame and appends the
/// entry to the row below it.
pub open spec fn spec_close_cell(s0: StateV, header: bool) -> StateV {
    let s = spec_flush(s0);
    if s.fault {
        s
    } else if s.stack.len() < 2 {
        faulted(s)
    } else {
        let f = s.stack.last();
        let rest = s.stack.drop_last();
        let p = rest.last();
        let rest2 = rest.drop_last();
        match p {
            FrameV::TableRowBlock(cells) => {
                let entry = match f {
                    FrameV::TableBlockCell(nodes) => if !header {
                        Option::Some(EntryV::Cell { attrs: Option::None, content: nodes })
                    } else {
                        Option::None
                    },
                    FrameV::TableBlockHeader(nodes) => if header {
                        Option::Some(EntryV::Header { attrs: Option::None, content: nodes })
                    } else {
                        Option::None
                    },
                    _ => Option::None,
                };
                match entry {
                    Option::Some(e) => StateV {
                        stack: rest2.push(FrameV::TableRowBlock(cells.push(e))),
                        ..s
                    },
                    Option::None => faulted(s),
                }
            },
            _ => faulted(s),
        }
    }
}

// ---------------------------------------------------------------------------
// Pushing nodes to parents
// ---------------------------------------------------------------------------

/// Whether a block node is a paragraph with no content.
pub open spec fn is_empty_paragraph(b: BlockV) -> bool {
    match b {
        BlockV::Paragraph { content } => match content {
            Option::Some(c) => c.len() == 0,
            Option::None => true,
        },
        _ => false,
    }
}

/// Whether a frame accepts a finished block node directly.
pub open spec fn block_target_ok(f: FrameV) -> bool {
    match f {
        FrameV::Document(_) => true,
        FrameV::Blockquote(_) => true,
        FrameV::ListItem(_) => true,
        FrameV::TableBlockCell(_) => true,
        FrameV::TableBlockHeader(_) => true,
        FrameV::CustomBlock(ty, _, _) => custom_holds_blocks(ty),
        _ => false,
    }
}

/// Attaching a finished block node: empty paragraph frames above the target
/// are discarded, an empty paragraph node is dropped, and a target frame that
/// cannot hold blocks is a structural fault.
pub open spec fn spec_push_node_block(s: StateV, b: BlockV) -> StateV
    decreases s.stack.len(),
{
    if s.fault {
        s
    } else if s.stack.len() == 0 {
        faulted(s)
    } else {
        let f = s.stack.last();
        if block_target_ok(f) {
            if is_empty_paragraph(b) {
                s
            } else {
                StateV { stack: s.stack.drop_last().push(spec_add_block(f, b)), ..s }
            }
        } else {
            match f {
                FrameV::Paragraph(nodes) => if nodes.len() == 0 {
                    spec_push_node_block(StateV { stack: s.stack.drop_last(), ..s }, b)
                } else {
                    faulted(s)
                },
                _ => faulted(s),
            }
        }
    }
}

/// Where an inline node lands when pushed to the current frame: straight into
/// paragraphs and headings, wrapped into the last paragraph of block
/// containers, and a structural fault elsewhere.
pub open spec fn spec_push_node(s: StateV, n: InlineV) -> StateV {
    if s.fault {
        s
    } else if s.stack.len() == 0 {
        faulted(s)
    } else {
        let f = s.stack.last();
        let rest = s.stack.drop_last();
        match f {
            FrameV::Paragraph(c) => StateV { stack: rest.push(FrameV::Paragraph(c.push(n))), ..s },
            FrameV::Heading(l, c) => StateV {
                stack: rest.push(FrameV::Heading(l, c.push(n))),
                ..s
            },
            FrameV::Blockquote(b) => StateV {
                stack: rest.push(FrameV::Blockquote(spec_push_into_last_paragraph(b, n))),
                ..s
            },
            FrameV::ListItem(b) => StateV {
                stack: rest.push(FrameV::ListItem(spec_push_into_last_paragraph(b, n))),
                ..s
            },
            FrameV::Document(b) => StateV {
                stack: rest.push(FrameV::Document(spec_push_into_last_paragraph(b, n))),
                ..s
            },
            FrameV::TableBlockCell(b) => StateV {
                stack: rest.push(FrameV::TableBlockCell(spec_push_into_last_paragraph(b, n))),
                ..s
            },
            FrameV::TableBlockHeader(b) => StateV {
                stack: rest.push(FrameV::TableBlockHeader(spec_push_into_last_paragraph(b, n))),
                ..s
            },
            FrameV::CustomBlock(ty, b, a) => if ty == CustomBlockType::Div || ty
                == CustomBlockType::Expand || ty == CustomBlockType::Panel {
                StateV {
                    stack: rest.push(
                        FrameV::CustomBlock(ty, spec_push_into_last_paragraph(b, n), a),
                    ),
                    ..s
                }
            } else {
                faulted(s)
            },
            _ => faulted(s),
        }
    }
}

/// Where a hard break lands: a newline in code blocks, straight into inline
/// contexts, wrapped in containers, and silently dropped elsewhere.
pub open spec fn spec_push_inline(s: StateV, n: InlineV) -> StateV {
    if s.fault || s.stack.len() == 0 {
        s
    } else {
        let f = s.stack.last();
        let rest = s.stack.drop_last();
        match f {
            FrameV::CodeBlock(t) => StateV { stack: rest.push(FrameV::CodeBlock(t + "\n"@)), ..s },
            FrameV::Paragraph(c) => StateV { stack: rest.push(FrameV::Paragraph(c.push(n))), ..s },
            FrameV::Heading(l, c) => StateV {
                stack: rest.push(FrameV::Heading(l, c.push(n))),
                ..s
            },
            FrameV::DecisionItem(c, id) => StateV {
                stack: rest.push(FrameV::DecisionItem(c.push(n), id)),
                ..s
            },
            FrameV::TaskItem(c, st, id) => StateV {
                stack: rest.push(FrameV::TaskItem(c.push(n), st, id)),
                ..s
            },
            FrameV::Blockquote(b) => StateV {
                stack: rest.push(FrameV::Blockquote(spec_push_into_last_paragraph(b, n))),
                ..s
            },
            FrameV::ListItem(b) => StateV {
                stack: rest.push(FrameV::ListItem(spec_push_into_last_paragraph(b, n))),
                ..s
            },
            _ => s,
        }
    }
}

/// A finished media entry joins the enclosing media block; anything else is a
/// structural fault.
pub open spec fn spec_push_media(s: StateV, m: MediaV) -> StateV {
    if s.fault {
        s
    } else if s.stack.len() == 0 {
        faulted(s)
    } else {
        match s.stack.last() {
            FrameV::MediaBlock(ty, nodes, a) => StateV {
                stack: s.stack.drop_last().push(FrameV::MediaBlock(ty, nodes.push(m), a)),
                ..s
            },
            _ => faulted(s),
        }
    }
}

impl ADFBuilder {
    /// Closes the current list item into the pending list below it.
    pub fn close_current_list_item(state: &mut ADFBuilderState)
        ensures
            final(state)@ == spec_close_list_item(old(state)@),
    {
        Self::flush_text(state);
        if state.fault {
            return ;
        }
        proof {
            lemma_frames_v_props(state.stack@);
        }
        if state.stack.len() < 2 {
            state.fault = true;
            return ;
        }
        let n = state.stack.len();
        let kinds_ok = match (&state.stack[n - 1], &state.stack[n - 2]) {
            (BlockContext::ListItem(_), BlockContext::PendingList { .. }) => true,
            (BlockContext::TaskItem(..), BlockContext::PendingList { .. }) => true,
            (BlockContext::DecisionItem(..), BlockContext::PendingList { .. }) => true,
            _ => false,
        };
        if !kinds_ok {
            state.fault = true;
            return ;
        }
        let ghost stack0 = state.stack@;
        let frame = state.stack.pop().unwrap();
        let ghost stack1 = state.stack@;
        let parent = state.stack.pop().unwrap();
        proof {
            assert(frames_v(stack0).last() == frame_v(frame));
            assert(frames_v(stack0).drop_last() == frames_v(stack1));
            assert(frames_v(stack1).last() == frame_v(parent));
            assert(frames_v(stack1).drop_last() == frames_v(state.stack@));
        }
        let item: ListItemType = match frame {
            BlockContext::ListItem(nodes) => ListItemType::ListItem(ListItem { content: nodes }),
            BlockContext::TaskItem(nodes, st, id) => ListItemType::TaskItem(
                TaskItem { content: nodes, attrs: TaskItemAttrs { local_id: id, state: st } },
            ),
            BlockContext::DecisionItem(nodes, id) => ListItemType::DecisionItem(
                DecisionItem {
                    content: nodes,
                    attrs: DecisionItemAttrs { state: DecisionItemState, local_id: id },
                },
            ),
            _ => {
                proof {
                    assert(false);
                }
                ListItemType::ListItem(ListItem { content: Vec::new() })
            },
        };
        match parent {
            BlockContext::PendingList { mut nodes, ordered, local_id, local_tag } => {
                let ghost nv = nodes@;
                nodes.push(item);
                proof {
                    lemma_litems_v_push(nv, item);
                }
                let ghost stack2 = state.stack@;
                let newparent = BlockContext::PendingList { nodes, ordered, local_id, local_tag };
                state.stack.push(newparent);
                proof {
                    lemma_frames_v_push(stack2, newparent);
                    assert(state@ =~= spec_close_list_item(old(state)@));
                }
            },
            _ => {
                proof {
                    assert(false);
                }
            },
        }
    }

    /// Closes the current table row into the table below it.
    pub fn close_current_table_row(state: &mut ADFBuilderState)
        ensures
            final(state)@ == spec_close_row(old(state)@),
    {
        Self::flush_text(state);
        if state.fault {
            return ;
        }
        proof {
            lemma_frames_v_props(state.stack@);
        }
        if state.stack.len() < 2 {
            state.fault = true;
            return ;
        }
        let n = state.stack.len();
        let kinds_ok = match (&state.stack[n - 1], &state.stack[n - 2]) {
            (BlockContext::TableRowBlock(_), BlockContext::TableBlock(_)) => true,
            _ => false,
        };
        if !kinds_ok {
            state.fault = true;
            return ;
        }
        let ghost stack0 = state.stack@;
        let frame = state.stack.pop().unwrap();
        let ghost stack1 = state.stack@;
        let parent = state.stack.pop().unwrap();
        proof {
            assert(frames_v(stack0).last() == frame_v(frame));
            assert(frames_v(stack0).drop_last() == frames_v(stack1));
            assert(frames_v(stack1).last() == frame_v(parent));
            assert(frames_v(stack1).drop_last() == frames_v(state.stack@));
        }
        match (frame, parent) {
            (BlockContext::TableRowBlock(cells), BlockContext::TableBlock(mut rows)) => {
                let ghost rv = rows@;
                let row = TableRow { content: cells };
                rows.push(row);
                proof {
                    lemma_rows_v_push(rv, row);
                }
                let ghost stack2 = state.stack@;
                let newparent = BlockContext::TableBlock(rows);
                state.stack.push(newparent);
                proof {
                    lemma_frames_v_push(stack2, newparent);
                    assert(state@ =~= spec_close_row(old(state)@));
                }
            },
            _ => {
                proof {
                    assert(false);
                }
            },
        }
    }

    /// Closes the current cell or header cell into the row below it.
    pub fn close_current_table_cell(state: &mut ADFBuilderState, header: bool)
        ensures
            final(state)@ == spec_close_cell(old(state)@, header),
    {
        Self::flush_text(state);
        if state.fault {
            return ;
        }
        proof {
            lemma_frames_v_props(state.stack@);
        }
        if state.stack.len() < 2 {
            state.fault = true;
            return ;
        }
        let n = state.stack.len();
        let kinds_ok = match (&state.stack[n - 1], &state.stack[n - 2]) {
            (BlockContext::TableBlockCell(_), BlockContext::TableRowBlock(_)) => !header,
            (BlockContext::TableBlockHeader(_), BlockContext::TableRowBlock(_)) => header,
            _ => false,
        };
        if !kinds_ok {
            state.fault = true;
            return ;
        }
        let ghost stack0 = state.stack@;
        let frame = state.stack.pop().unwrap();
        let ghost stack1 = state.stack@;
        let parent = state.stack.pop().unwrap();
        proof {
            assert(frames_v(stack0).last() == frame_v(frame));
            assert(frames_v(stack0).drop_last() == frames_v(stack1));
            assert(frames_v(stack1).last() == frame_v(parent));
            assert(frames_v(stack1).drop_last() == frames_v(state.stack@));
        }
        let entry: TableRowEntry = match frame {
            BlockContext::TableBlockCell(nodes) => TableRowEntry::new_table_cell(
                nodes,
                Option::None,
            ),
            BlockContext::TableBlockHeader(nodes) => TableRowEntry::new_table_header(
                nodes,
                Option::None,
            ),
            _ => {
                proof {
                    assert(false);
                }
                TableRowEntry::new_table_cell(Vec::new(), Option::None)
            },
        };
        match parent {
            BlockContext::TableRowBlock(mut cells) => {
                let ghost cv = cells@;
                cells.push(entry);
                proof {
                    lemma_entries_v_push(cv, entry);
                }
                let ghost stack2 = state.stack@;
                let newparent = BlockContext::TableRowBlock(cells);
                state.stack.push(newparent);
                proof {
                    lemma_frames_v_push(stack2, newparent);
                    assert(state@ =~= spec_close_cell(old(state)@, header));
                }
            },
            _ => {
                proof {
                    assert(false);
                }
            },
        }
    }

    /// Whether a block node is a paragraph with no content.
    fn block_is_empty_paragraph(b: &AdfBlockNode) -> (r: bool)
        ensures
            r == is_empty_paragraph(b@),
    {
        match b {
            AdfBlockNode::Paragraph { content } => match content {
                Option::Some(c) => {
                    proof {
                        lemma_inlines_v_props(c@);
                    }
                    c.len() == 0
                },
                Option::None => true,
            },
            _ => false,
        }
    }

    /// Attaches a finished block node to the nearest frame that can hold it,
    /// discarding empty paragraph frames on the way.
    pub fn push_node_block_to_parent(state: &mut ADFBuilderState, node: AdfBlockNode)
        ensures
            final(state)@ == spec_push_node_block(old(state)@, node@),
    {
        if state.fault {
            return ;
        }
        let ghost bv = node@;
        loop
            invariant
                !state.fault,
                node@ == bv,
                spec_push_node_block(state@, bv) == spec_push_node_block(old(state)@, bv),
            decreases state.stack@.len(),
        {
            let ghost entry = state@;
            proof {
                lemma_frames_v_props(state.stack@);
            }
            if state.stack.len() == 0 {
                state.fault = true;
                proof {
                    assert(spec_push_node_block(entry, bv) == faulted(entry));
                    assert(state@ =~= faulted(entry));
                }
                return ;
            }
            let n = state.stack.len();
            let target_ok = match &state.stack[n - 1] {
                BlockContext::Document(_) => true,
                BlockContext::Blockquote(_) => true,
                BlockContext::ListItem(_) => true,
                BlockContext::TableBlockCell(_) => true,
                BlockContext::TableBlockHeader(_) => true,
                BlockContext::CustomBlock(ty, _, _) => matches!(
                    ty,
                    CustomBlockType::Div | CustomBlockType::Expand | CustomBlockType::NestedExpand
                        | CustomBlockType::Panel
                ),
                _ => false,
            };
            if target_ok {
                let empty_para = Self::block_is_empty_paragraph(&node);
                if empty_para {
                    proof {
                        reveal_with_fuel(spec_push_node_block, 2);
                        assert(block_target_ok(entry.stack.last()));
                        assert(entry.stack.len() > 0);
                        assert(!entry.fault);
                        assert(bv == node@);
                        assert(is_empty_paragraph(bv));
                        assert(spec_push_node_block(entry, bv) == entry);
                    }
                    return ;
                }
                let ghost stack1 = state.stack@;
                let parent = state.stack.pop().unwrap();
                proof {
                    assert(frames_v(stack1).last() == frame_v(parent));
                    assert(frames_v(stack1).drop_last() == frames_v(state.stack@));
                }
                let newparent = Self::frame_push_block(parent, node);
                let ghost stack2 = state.stack@;
                state.stack.push(newparent);
                proof {
                    lemma_frames_v_push(stack2, newparent);
                    assert(state@ =~= spec_push_node_block(entry, bv));
                }
                return ;
            }
            let pop_para = match &state.stack[n - 1] {
                BlockContext::Paragraph(c) => {
                    proof {
                        lemma_inlines_v_props(c@);
                    }
                    c.len() == 0
                },
                _ => false,
            };
            if !pop_para {
                state.fault = true;
                proof {
                    assert(spec_push_node_block(entry, bv) == faulted(entry));
                    assert(state@ =~= faulted(entry));
                }
                return ;
            }
            let ghost stack1 = state.stack@;
            let _ = state.stack.pop().unwrap();
            proof {
                assert(frames_v(stack1).last() == frame_v(stack1.last()));
                assert(frames_v(stack1).drop_last() == frames_v(state.stack@));
                assert(spec_push_node_block(entry, bv) == spec_push_node_block(state@, bv));
            }
        }
    }

    /// Attaches an inline node to the current frame, wrapping it into the
    /// last paragraph of block containers.
    pub fn push_node_to_parent(state: &mut ADFBuilderState, node: AdfNode)
        ensures
            final(state)@ == spec_push_node(old(state)@, node@),
    {
        if state.fault {
            return ;
        }
        proof {
            lemma_frames_v_props(state.stack@);
        }
        if state.stack.len() == 0 {
            state.fault = true;
            return ;
        }
        let nn = state.stack.len();
        let accepts = match &state.stack[nn - 1] {
            BlockContext::Paragraph(_) => true,
            BlockContext::Heading(..) => true,
            BlockContext::Blockquote(_) => true,
            BlockContext::ListItem(_) => true,
            BlockContext::Document(_) => true,
            BlockContext::TableBlockCell(_) => true,
            BlockContext::TableBlockHeader(_) => true,
            BlockContext::CustomBlock(ty, _, _) => matches!(
                ty,
                CustomBlockType::Div | CustomBlockType::Expand | CustomBlockType::Panel
            ),
            _ => false,
        };
        if !accepts {
            state.fault = true;
            proof {
                assert(state@ =~= spec_push_node(old(state)@, node@));
            }
            return ;
        }
        let ghost stack0 = state.stack@;
        let frame = state.stack.pop().unwrap();
        proof {
            assert(frames_v(stack0).last() == frame_v(frame));
            assert(frames_v(stack0).drop_last() == frames_v(state.stack@));
        }
        let newframe: Option<BlockContext> = match frame {
            BlockContext::Paragraph(mut c) => {
                let ghost cv = c@;
                c.push(node);
                proof {
                    lemma_inlines_v_push(cv, node);
                }
                Option::Some(BlockContext::Paragraph(c))
            },
            BlockContext::Heading(l, mut c) => {
                let ghost cv = c@;
                c.push(node);
                proof {
                    lemma_inlines_v_push(cv, node);
                }
                Option::Some(BlockContext::Heading(l, c))
            },
            BlockContext::Blockquote(mut b) => {
                Self::push_into_last_paragraph(&mut b, node);
                Option::Some(BlockContext::Blockquote(b))
            },
            BlockContext::ListItem(mut b) => {
                Self::push_into_last_paragraph(&mut b, node);
                Option::Some(BlockContext::ListItem(b))
            },
            BlockContext::Document(mut b) => {
                Self::push_into_last_paragraph(&mut b, node);
                Option::Some(BlockContext::Document(b))
            },
            BlockContext::TableBlockCell(mut b) => {
                Self::push_into_last_paragraph(&mut b, node);
                Option::Some(BlockContext::TableBlockCell(b))
            },
            BlockContext::TableBlockHeader(mut b) => {
                Self::push_into_last_paragraph(&mut b, node);
                Option::Some(BlockContext::TableBlockHeader(b))
            },
            BlockContext::CustomBlock(ty, mut b, a) => {
                Self::push_into_last_paragraph(&mut b, node);
                Option::Some(BlockContext::CustomBlock(ty, b, a))
            },
            _ => Option::None,
        };
        match newframe {
            Option::Some(f) => {
                let ghost stack2 = state.stack@;
                state.stack.push(f);
                proof {
                    lemma_frames_v_push(stack2, f);
                    assert(state@ =~= spec_push_node(old(state)@, node@));
                }
            },
            Option::None => {
                proof {
                    assert(false);
                }
            },
        }
    }

    /// Attaches a hard break (or, in code blocks, a newline) to the current
    /// frame; contexts that cannot hold it drop it silently.
    fn push_inline(state: &mut ADFBuilderState, node: AdfNode)
        ensures
            final(state)@ == spec_push_inline(old(state)@, node@),
    {
        if state.fault {
            return ;
        }
        proof {
            lemma_frames_v_props(state.stack@);
        }
        if state.stack.len() == 0 {
            return ;
        }
        let ghost stack0 = state.stack@;
        let frame = state.stack.pop().unwrap();
        proof {
            assert(frames_v(stack0).last() == frame_v(frame));
            assert(frames_v(stack0).drop_last() == frames_v(state.stack@));
        }
        let newframe: BlockContext = match frame {
            BlockContext::CodeBlock(mut t) => {
                t.append("\n");
                BlockContext::CodeBlock(t)
            },
            BlockContext::Paragraph(mut c) => {
                let ghost cv = c@;
                c.push(node);
                proof {
                    lemma_inlines_v_push(cv, node);
                }
                BlockContext::Paragraph(c)
            },
            BlockContext::Heading(l, mut c) => {
                let ghost cv = c@;
                c.push(node);
                proof {
                    lemma_inlines_v_push(cv, node);
                }
                BlockContext::Heading(l, c)
            },
            BlockContext::DecisionItem(mut c, id) => {
                let ghost cv = c@;
                c.push(node);
                proof {
                    lemma_inlines_v_push(cv, node);
                }
                BlockContext::DecisionItem(c, id)
            },
            BlockContext::TaskItem(mut c, st, id) => {
                let ghost cv = c@;
                c.push(node);
                proof {
                    lemma_inlines_v_push(cv, node);
                }
                BlockContext::TaskItem(c, st, id)
            },
            BlockContext::Blockquote(mut b) => {
                Self::push_into_last_paragraph(&mut b, node);
                BlockContext::Blockquote(b)
            },
            BlockContext::ListItem(mut b) => {
                Self::push_into_last_paragraph(&mut b, node);
                BlockContext::ListItem(b)
            },
            other => other,
        };
        let ghost stack2 = state.stack@;
        state.stack.push(newframe);
        proof {
            lemma_frames_v_push(stack2, newframe);
            assert(state@ =~= spec_push_inline(old(state)@, node@));
        }
    }

    /// Flushes pending text, then attaches an inline node.
    pub fn flush_text_and_push_inline(state: &mut ADFBuilderState, node: AdfNode)
        ensures
            final(state)@ == spec_push_inline(spec_flush(old(state)@), node@),
    {
        Self::flush_text(state);
        Self::push_inline(state, node);
    }

    /// Attaches a finished media entry to the enclosing media block.
    pub fn push_media_node_to_parent(state: &mut ADFBuilderState, node: MediaNode)
        ensures
            final(state)@ == spec_push_media(old(state)@, node@),
    {
        if state.fault {
            return ;
        }
        proof {
            lemma_frames_v_props(state.stack@);
        }
        if state.stack.len() == 0 {
            state.fault = true;
            return ;
        }
        let n = state.stack.len();
        let ok = matches!(&state.stack[n - 1], BlockContext::MediaBlock(..));
        if !ok {
            state.fault = true;
            return ;
        }
        let ghost stack0 = state.stack@;
        let frame = state.stack.pop().unwrap();
        proof {
            assert(frames_v(stack0).last() == frame_v(frame));
            assert(frames_v(stack0).drop_last() == frames_v(state.stack@));
        }
        match frame {
            BlockContext::MediaBlock(ty, mut nodes, a) => {
                let ghost nv = nodes@;
                nodes.push(node);
                proof {
                    lemma_medias_v_push(nv, node);
                }
                let ghost stack2 = state.stack@;
                let newframe = BlockContext::MediaBlock(ty, nodes, a);
                state.stack.push(newframe);
                proof {
                    lemma_frames_v_push(stack2, newframe);
                    assert(state@ =~= spec_push_media(old(state)@, node@));
                }
            },
            _ => {
                proof {
                    assert(false);
                }
            },
        }
    }
}

// ---------------------------------------------------------------------------
// Popping marks
// ---------------------------------------------------------------------------

/// The kinds of marks an end tag can pop.
#[derive(Clone, Copy, Debug, PartialEq, Eq, Structural)]
pub enum MarkKind {
    Em,
    Strong,
    Strike,
    Underline,
    Sub,
    Sup,
    Link,
    Code,
    Color,
}

/// Whether a mark is of the given kind.
pub open spec fn mark_matches_kind(m: MarkV, k: MarkKind) -> bool {
    match k {
        MarkKind::Em => m == MarkV::Em,
        MarkKind::Strong => m == MarkV::Strong,
        MarkKind::Strike => m == MarkV::Strike,
        MarkKind::Underline => m == MarkV::Underline,
        MarkKind::Sub => m == MarkV::Subsup(Subsup::Sub),
        MarkKind::Sup => m == MarkV::Subsup(Subsup::Sup),
        MarkKind::Link => m matches MarkV::Link(_),
        MarkKind::Code => m == MarkV::Code,
        MarkKind::Color => (m matches MarkV::TextColor(_)) || (m matches MarkV::BackgroundColor(
            _,
        )),
    }
}

/// Removes the most recently pushed mark of the given kind, if any: tags may
/// close out of strict stack order, so the match is by kind, not position.
pub open spec fn pop_last_matching(s: Seq<MarkV>, k: MarkKind) -> Seq<MarkV>
    decreases s.len(),
{
    if s.len() == 0 {
        s
    } else if mark_matches_kind(s.last(), k) {
        s.drop_last()
    } else {
        pop_last_matching(s.drop_last(), k).push(s.last())
    }
}

proof fn lemma_pop_last_at(s: Seq<AdfMark>, k: MarkKind, j: int)
    requires
        0 <= j < s.len(),
        mark_matches_kind(mark_v(s[j]), k),
        forall|i: int| j < i < s.len() ==> !mark_matches_kind(mark_v(#[trigger] s[i]), k),
    ensures
        pop_last_matching(marks_v(s), k) == marks_v(s.remove(j)),
    decreases s.len(),
{
    lemma_marks_v_props(s);
    if j == s.len() - 1 {
        assert(s.remove(j) =~= s.drop_last());
        assert(mark_matches_kind(marks_v(s).last(), k));
        assert(marks_v(s).drop_last() =~= marks_v(s.drop_last()));
    } else {
        let t = s.drop_last();
        lemma_marks_v_props(t);
        assert(forall|i: int| j < i < t.len() ==> #[trigger] t[i] == s[i]);
        assert(t[j] == s[j]);
        lemma_pop_last_at(t, k, j);
        assert(!mark_matches_kind(marks_v(s).last(), k));
        assert(marks_v(s).drop_last() =~= marks_v(t));
        assert(pop_last_matching(marks_v(s), k) == pop_last_matching(marks_v(t), k).push(
            marks_v(s).last(),
        ));
        assert(s.remove(j).drop_last() =~= t.remove(j));
        assert(s.remove(j).last() == s.last());
        assert(marks_v(s.remove(j)) == marks_v(t.remove(j)).push(mark_v(s.last())));
    }
}

proof fn lemma_pop_last_none(s: Seq<AdfMark>, k: MarkKind)
    requires
        forall|i: int| 0 <= i < s.len() ==> !mark_matches_kind(mark_v(#[trigger] s[i]), k),
    ensures
        pop_last_matching(marks_v(s), k) == marks_v(s),
    decreases s.len(),
{
    lemma_marks_v_props(s);
    if s.len() > 0 {
        let t = s.drop_last();
        lemma_marks_v_props(t);
        assert(forall|i: int| 0 <= i < t.len() ==> #[trigger] t[i] == s[i]);
        lemma_pop_last_none(t, k);
        assert(marks_v(s).drop_last() =~= marks_v(t));
        assert(marks_v(s) == marks_v(t).push(mark_v(s.last())));
    }
}

impl ADFBuilder {
    /// Whether a mark is of the given kind, decided executably.
    fn mark_is_kind(m: &AdfMark, k: MarkKind) -> (r: bool)
        ensures
            r == mark_matches_kind(mark_v(*m), k),
    {
        match k {
            MarkKind::Em => matches!(m, AdfMark::Em),
            MarkKind::Strong => matches!(m, AdfMark::Strong),
            MarkKind::Strike => matches!(m, AdfMark::Strike),
            MarkKind::Underline => matches!(m, AdfMark::Underline),
            MarkKind::Sub => matches!(m, AdfMark::Subsup { type_: Subsup::Sub }),
            MarkKind::Sup => matches!(m, AdfMark::Subsup { type_: Subsup::Sup }),
            MarkKind::Link => matches!(m, AdfMark::Link(_)),
            MarkKind::Code => matches!(m, AdfMark::Code),
            MarkKind::Color => matches!(m, AdfMark::TextColor { .. } | AdfMark::BackgroundColor { .. }),
        }
    }

    /// Removes the most recently pushed mark of the given kind, if any.
    pub fn pop_mark(state: &mut ADFBuilderState, kind: MarkKind)
        ensures
            final(state)@ == (StateV {
                marks: pop_last_matching(old(state)@.marks, kind),
                ..old(state)@
            }),
    {
        proof {
            lemma_marks_v_props(state.mark_stack@);
        }
        let mut i: usize = state.mark_stack.len();
        while i > 0
            invariant
                0 <= i <= state.mark_stack.len(),
                state == old(state),
                forall|j: int|
                    i <= j < state.mark_stack@.len() ==> !mark_matches_kind(
                        mark_v(#[trigger] state.mark_stack@[j]),
                        kind,
                    ),
            decreases i,
        {
            if Self::mark_is_kind(&state.mark_stack[i - 1], kind) {
                let ghost sv = state.mark_stack@;
                let _ = state.mark_stack.remove(i - 1);
                proof {
                    lemma_pop_last_at(sv, kind, i - 1);
                    assert(state@ =~= (StateV {
                        marks: pop_last_matching(old(state)@.marks, kind),
                        ..old(state)@
                    }));
                }
                return ;
            }
            i -= 1;
        }
        proof {
            lemma_pop_last_none(state.mark_stack@, kind);
            assert(state@ =~= (StateV {
                marks: pop_last_matching(old(state)@.marks, kind),
                ..old(state)@
            }));
        }
    }
}

// ---------------------------------------------------------------------------
// Summary titles, frame migrations, and stack queries
// ---------------------------------------------------------------------------

/// An attribute list with one binding prepended; lookups see the new value
/// first, so this overrides any earlier binding of the same name.
pub open spec fn attr_upsert(attrs: Seq<AttrV>, name: Seq<char>, value: Seq<char>) -> Seq<AttrV> {
    seq![AttrV { name, value }] + attrs
}

/// Writes the summary text onto the nearest enclosing expand or nested-expand
/// frame; without one, the stack is unchanged.
pub open spec fn spec_set_summary(st: Seq<FrameV>, text: Seq<char>) -> Seq<FrameV>
    decreases st.len(),
{
    if st.len() == 0 {
        st
    } else {
        match st.last() {
            FrameV::CustomBlock(ty, nodes, attrs) => if ty == CustomBlockType::Expand || ty
                == CustomBlockType::NestedExpand {
                st.drop_last().push(
                    FrameV::CustomBlock(ty, nodes, attr_upsert(attrs, "data-summary"@, text)),
                )
            } else {
                spec_set_summary(st.drop_last(), text).push(st.last())
            },
            _ => spec_set_summary(st.drop_last(), text).push(st.last()),
        }
    }
}

/// Whether some open frame is a code block.
pub open spec fn spec_in_pre(st: Seq<FrameV>) -> bool {
    exists|i: int| 0 <= i < st.len() && (#[trigger] st[i] matches FrameV::CodeBlock(_))
}

/// Whether some open frame is a plain list item.
pub open spec fn spec_has_list_item(st: Seq<FrameV>) -> bool {
    exists|i: int| 0 <= i < st.len() && (#[trigger] st[i] matches FrameV::ListItem(_))
}

/// Pops frames down to and including the nearest list item, yielding the
/// remaining stack and the item's accumulated blocks. Meaningful only when
/// [`spec_has_list_item`] holds.
pub open spec fn spec_pop_to_list_item(st: Seq<FrameV>) -> (Seq<FrameV>, Seq<BlockV>)
    decreases st.len(),
{
    if st.len() == 0 {
        (st, Seq::empty())
    } else {
        match st.last() {
            FrameV::ListItem(nodes) => (st.drop_last(), nodes),
            _ => spec_pop_to_list_item(st.drop_last()),
        }
    }
}

/// The inline content of the paragraphs among a list of blocks, in order;
/// non-paragraph blocks are dropped.
pub open spec fn spec_flatten_paragraphs(bs: Seq<BlockV>) -> Seq<InlineV>
    decreases bs.len(),
{
    if bs.len() == 0 {
        Seq::empty()
    } else {
        match bs.last() {
            BlockV::Paragraph { content: Option::Some(c) } => spec_flatten_paragraphs(
                bs.drop_last(),
            ) + c,
            _ => spec_flatten_paragraphs(bs.drop_last()),
        }
    }
}

/// The concatenated text of the text runs among inline nodes.
pub open spec fn spec_texts_concat(c: Seq<InlineV>) -> Seq<char>
    decreases c.len(),
{
    if c.len() == 0 {
        Seq::empty()
    } else {
        match c.last() {
            InlineV::Text { text, .. } => spec_texts_concat(c.drop_last()) + text,
            _ => spec_texts_concat(c.drop_last()),
        }
    }
}

/// Whether every inline node is a text run or a hard break.
pub open spec fn spec_all_text_or_break(c: Seq<InlineV>) -> bool {
    forall|i: int|
        0 <= i < c.len() ==> ((#[trigger] c[i] matches InlineV::Text { .. }) || (c[i]
            matches InlineV::HardBreak))
}

impl ADFBuilder {
    /// Writes the summary text onto the nearest enclosing expand frame.
    fn set_summary(stack: &mut Vec<BlockContext>, text: &str) -> (r: bool)
        ensures
            frames_v(final(stack)@) == spec_set_summary(frames_v(old(stack)@), text@),
        decreases old(stack)@.len(),
    {
        proof {
            lemma_frames_v_props(stack@);
        }
        if stack.len() == 0 {
            return false;
        }
        let ghost stack0 = stack@;
        let top = stack.pop().unwrap();
        proof {
            assert(frames_v(stack0).last() == frame_v(top));
            assert(frames_v(stack0).drop_last() == frames_v(stack@));
        }
        let is_expand = match &top {
            BlockContext::CustomBlock(ty, _, _) => matches!(
                ty,
                CustomBlockType::Expand | CustomBlockType::NestedExpand
            ),
            _ => false,
        };
        if is_expand {
            match top {
                BlockContext::CustomBlock(ty, nodes, mut attrs) => {
                    let ghost aseq = attrs@;
                    let binding = Attribute {
                        name: String::from_str("data-summary"),
                        value: text.to_owned(),
                    };
                    let ghost bv = binding@;
                    attrs.insert(0, binding);
                    proof {
                        lemma_attrs_v_insert0(aseq, attrs@[0]);
                        assert(attrs@[0]@ == bv);
                        assert(attrs_v(attrs@) =~= attr_upsert(attrs_v(aseq), "data-summary"@, text@));
                    }
                    let newtop = BlockContext::CustomBlock(ty, nodes, attrs);
                    let ghost stack1 = stack@;
                    stack.push(newtop);
                    proof {
                        lemma_frames_v_push(stack1, newtop);
                        assert(frames_v(stack@) =~= spec_set_summary(frames_v(stack0), text@));
                    }
                    true
                },
                _ => {
                    proof {
                        assert(false);
                    }
                    false
                },
            }
        } else {
            let r = Self::set_summary(stack, text);
            let ghost stack1 = stack@;
            stack.push(top);
            proof {
                lemma_frames_v_push(stack1, top);
                assert(frames_v(stack@) =~= spec_set_summary(frames_v(stack0), text@));
            }
            r
        }
    }

    /// Whether some open frame is a code block.
    fn in_pre(stack: &Vec<BlockContext>) -> (r: bool)
        ensures
            r == spec_in_pre(frames_v(stack@)),
    {
        proof {
            lemma_frames_v_props(stack@);
        }
        let mut i: usize = 0;
        while i < stack.len()
            invariant
                0 <= i <= stack.len(),
                forall|j: int|
                    0 <= j < i ==> !(frame_v(#[trigger] stack@[j]) matches FrameV::CodeBlock(_)),
            decreases stack.len() - i,
        {
            proof {
                lemma_frames_v_props(stack@);
            }
            if matches!(&stack[i], BlockContext::CodeBlock(_)) {
                proof {
                    assert(frames_v(stack@)[i as int] == frame_v(stack@[i as int]));
                    assert(frames_v(stack@)[i as int] matches FrameV::CodeBlock(_));
                }
                return true;
            }
            i += 1;
        }
        proof {
            lemma_frames_v_props(stack@);
            assert forall|j: int| 0 <= j < frames_v(stack@).len() implies !(#[trigger] frames_v(
                stack@,
            )[j] matches FrameV::CodeBlock(_)) by {
                assert(frames_v(stack@)[j] == frame_v(stack@[j]));
            }
        }
        false
    }

    /// Whether some open frame is a plain list item.
    fn has_list_item(stack: &Vec<BlockContext>) -> (r: bool)
        ensures
            r == spec_has_list_item(frames_v(stack@)),
    {
        proof {
            lemma_frames_v_props(stack@);
        }
        let mut i: usize = 0;
        while i < stack.len()
            invariant
                0 <= i <= stack.len(),
                forall|j: int|
                    0 <= j < i ==> !(frame_v(#[trigger] stack@[j]) matches FrameV::ListItem(_)),
            decreases stack.len() - i,
        {
            proof {
                lemma_frames_v_props(stack@);
            }
            if matches!(&stack[i], BlockContext::ListItem(_)) {
                proof {
                    assert(frames_v(stack@)[i as int] == frame_v(stack@[i as int]));
                    assert(frames_v(stack@)[i as int] matches FrameV::ListItem(_));
                }
                return true;
            }
            i += 1;
        }
        proof {
            lemma_frames_v_props(stack@);
            assert forall|j: int| 0 <= j < frames_v(stack@).len() implies !(#[trigger] frames_v(
                stack@,
            )[j] matches FrameV::ListItem(_)) by {
                assert(frames_v(stack@)[j] == frame_v(stack@[j]));
            }
        }
        false
    }

    /// Pops frames down to the nearest list item and returns its blocks.
    fn pop_to_list_item(state: &mut ADFBuilderState) -> (r: Vec<AdfBlockNode>)
        requires
            spec_has_list_item(old(state)@.stack),
        ensures
            final(state)@.stack == spec_pop_to_list_item(old(state)@.stack).0,
            blocks_v(r@) == spec_pop_to_list_item(old(state)@.stack).1,
            final(state).mark_stack == old(state).mark_stack,
            final(state).current_text == old(state).current_text,
            final(state).custom_block_id == old(state).custom_block_id,
            final(state).custom_block_tag == old(state).custom_block_tag,
            final(state).fault == old(state).fault,
    {
        loop
            invariant
                spec_has_list_item(frames_v(state.stack@)),
                spec_pop_to_list_item(frames_v(state.stack@)) == spec_pop_to_list_item(
                    old(state)@.stack,
                ),
                state.mark_stack == old(state).mark_stack,
                state.current_text == old(state).current_text,
                state.custom_block_id == old(state).custom_block_id,
                state.custom_block_tag == old(state).custom_block_tag,
                state.fault == old(state).fault,
            decreases state.stack@.len(),
        {
            proof {
                lemma_frames_v_props(state.stack@);
            }
            if state.stack.len() == 0 {
                proof {
                    assert(false);
                }
                return Vec::new();
            }
            let ghost stack0 = state.stack@;
            let top = state.stack.pop().unwrap();
            proof {
                assert(frames_v(stack0).last() == frame_v(top));
                assert(frames_v(stack0).drop_last() == frames_v(state.stack@));
            }
            match top {
                BlockContext::ListItem(nodes) => {
                    return nodes;
                },
                other => {
                    proof {
                        let fv = frames_v(stack0);
                        assert(!(fv.last() matches FrameV::ListItem(_)));
                        assert forall|i: int|
                            0 <= i < fv.len() && (#[trigger] fv[i] matches FrameV::ListItem(
                                _,
                            )) implies i < fv.len() - 1 by {}
                        assert(spec_has_list_item(frames_v(state.stack@)));
                    }
                },
            }
        }
    }

    /// Flattens paragraph blocks into their inline content, dropping other
    /// blocks; used when a list item migrates into a task or decision item.
    fn flatten_paragraphs(blocks: Vec<AdfBlockNode>) -> (r: Vec<AdfNode>)
        ensures
            inlines_v(r@) == spec_flatten_paragraphs(blocks_v(blocks@)),
    {
        proof {
            lemma_blocks_v_props(blocks@);
        }
        let mut out: Vec<AdfNode> = Vec::new();
        let mut rest = blocks;
        let mut i: usize = 0;
        let ghost allv = blocks_v(rest@);
        proof {
            assert(blocks_v(rest@.subrange(0, 0)) =~= Seq::<BlockV>::empty());
        }
        while i < rest.len()
            invariant
                0 <= i <= rest.len(),
                allv == blocks_v(rest@),
                inlines_v(out@) == spec_flatten_paragraphs(blocks_v(rest@.subrange(0, i as int))),
            decreases rest.len() - i,
        {
            let ghost pre = rest@.subrange(0, i as int);
            proof {
                assert(rest@.subrange(0, i + 1).drop_last() =~= pre);
                assert(rest@.subrange(0, i + 1).last() == rest@[i as int]);
                lemma_blocks_v_push(pre, rest@[i as int]);
                let bvp = blocks_v(pre);
                let x = block_v(rest@[i as int]);
                assert(bvp.push(x).drop_last() =~= bvp);
                assert(bvp.push(x).last() == x);
            }
            match &rest[i] {
                AdfBlockNode::Paragraph { content } => {
                    match content {
                        Option::Some(c) => {
                            proof {
                                lemma_inlines_v_props(c@);
                            }
                            let mut k: usize = 0;
                            let ghost outv0 = inlines_v(out@);
                            while k < c.len()
                                invariant
                                    0 <= k <= c.len(),
                                    inlines_v(c@).len() == c@.len(),
                                    forall|j: int|
                                        0 <= j < c@.len() ==> inlines_v(c@)[j] == inline_v(
                                            #[trigger] c@[j],
                                        ),
                                    inlines_v(out@) == outv0 + inlines_v(c@).subrange(0, k as int),
                                decreases c.len() - k,
                            {
                                let ghost outv = out@;
                                let item = crate::model::copy_inline(&c[k]);
                                out.push(item);
                                proof {
                                    lemma_inlines_v_push(outv, item);
                                    assert(inlines_v(out@) =~= outv0 + inlines_v(c@).subrange(
                                        0,
                                        k + 1,
                                    ));
                                }
                                k += 1;
                            }
                            proof {
                                assert(inlines_v(c@).subrange(0, c@.len() as int) =~= inlines_v(
                                    c@,
                                ));
                            }
                        },
                        Option::None => {},
                    }
                },
                _ => {},
            }
            i += 1;
        }
        proof {
            assert(rest@.subrange(0, rest@.len() as int) =~= rest@);
        }
        out
    }

    /// Drops paragraphs with no content from a block list, keeping everything
    /// else.
    pub fn trim_empty_paragraphs(nodes: Vec<AdfBlockNode>) -> (r: Vec<AdfBlockNode>)
        ensures
            blocks_v(r@) == spec_trim_empty_paragraphs(blocks_v(nodes@)),
    {
        proof {
            lemma_blocks_v_props(nodes@);
        }
        let mut out: Vec<AdfBlockNode> = Vec::new();
        let mut rest = nodes;
        let mut i: usize = 0;
        let ghost allv = blocks_v(rest@);
        while i < rest.len()
            invariant
                0 <= i <= rest.len(),
                allv == blocks_v(rest@),
                blocks_v(out@) == spec_trim_empty_paragraphs(
                    blocks_v(rest@.subrange(0, i as int)),
                ),
            decreases rest.len() - i,
        {
            let ghost pre = rest@.subrange(0, i as int);
            proof {
                assert(rest@.subrange(0, i + 1).drop_last() =~= pre);
                assert(rest@.subrange(0, i + 1).last() == rest@[i as int]);
                lemma_blocks_v_push(pre, rest@[i as int]);
                let bvp = blocks_v(pre);
                let x = block_v(rest@[i as int]);
                assert(bvp.push(x).drop_last() =~= bvp);
                assert(bvp.push(x).last() == x);
            }
            let keep = !Self::block_is_empty_paragraph(&rest[i]);
            if keep {
                let ghost outv = out@;
                let c = crate::model::copy_block(&rest[i]);
                out.push(c);
                proof {
                    lemma_blocks_v_push(outv, c);
                }
            }
            i += 1;
        }
        proof {
            assert(rest@.subrange(0, rest@.len() as int) =~= rest@);
        }
        out
    }

    /// The concatenated text of a paragraph's text runs; any other node gives
    /// the empty string.
    pub fn extract_text(paragraph: &AdfBlockNode) -> (r: String)
        ensures
            r@ == (match paragraph@ {
                BlockV::Paragraph { content: Option::Some(c) } => spec_texts_concat(c),
                _ => Seq::<char>::empty(),
            }),
    {
        match paragraph {
            AdfBlockNode::Paragraph { content: Option::Some(c) } => {
                proof {
                    lemma_inlines_v_props(c@);
                }
                let mut out = String::new();
                let mut i: usize = 0;
                while i < c.len()
                    invariant
                        0 <= i <= c.len(),
                        inlines_v(c@).len() == c@.len(),
                        forall|j: int|
                            0 <= j < c@.len() ==> inlines_v(c@)[j] == inline_v(#[trigger] c@[j]),
                        out@ == spec_texts_concat(inlines_v(c@).subrange(0, i as int)),
                    decreases c.len() - i,
                {
                    proof {
                        let cv = inlines_v(c@);
                        assert(cv.subrange(0, i + 1).drop_last() =~= cv.subrange(0, i as int));
                        assert(cv.subrange(0, i + 1).last() == cv[i as int]);
                    }
                    match &c[i] {
                        AdfNode::Text { text, .. } => {
                            out.append(text.as_str());
                        },
                        _ => {},
                    }
                    i += 1;
                }
                proof {
                    assert(inlines_v(c@).subrange(0, c@.len() as int) =~= inlines_v(c@));
                }
                out
            },
            _ => String::new(),
        }
    }
}

/// A block list without its empty paragraphs.
pub open spec fn spec_trim_empty_paragraphs(bs: Seq<BlockV>) -> Seq<BlockV>
    decreases bs.len(),
{
    if bs.len() == 0 {
        Seq::empty()
    } else if is_empty_paragraph(bs.last()) {
        spec_trim_empty_paragraphs(bs.drop_last())
    } else {
        spec_trim_empty_paragraphs(bs.drop_last()).push(bs.last())
    }
}

/// Prepending one attribute at the front of an attribute list prepends its
/// view.
pub proof fn lemma_attrs_v_insert0(s: Seq<Attribute>, x: Attribute)
    ensures
        attrs_v(s.insert(0, x)) == seq![x@] + attrs_v(s),
    decreases s.len(),
{
    let t = s.insert(0, x);
    if s.len() == 0 {
        assert(t =~= seq![x]);
        assert(t.len() == 1);
        assert(t.last() == x);
        assert(t.drop_last() =~= Seq::<Attribute>::empty());
        assert(attrs_v(Seq::<Attribute>::empty()) == Seq::<AttrV>::empty());
        assert(attrs_v(t) == attrs_v(t.drop_last()).push(t.last()@));
        assert(attrs_v(t) =~= seq![x@] + attrs_v(s));
    } else {
        assert(t.drop_last() =~= s.drop_last().insert(0, x));
        assert(t.last() == s.last());
        lemma_attrs_v_insert0(s.drop_last(), x);
        assert(attrs_v(t) == attrs_v(s.drop_last().insert(0, x)).push(s.last()@));
        assert(seq![x@] + attrs_v(s) =~= (seq![x@] + attrs_v(s.drop_last())).push(s.last()@));
    }
}

// ---------------------------------------------------------------------------
// The transition function
// ---------------------------------------------------------------------------

/// Pushes a new frame onto the stack.
pub open spec fn spec_push_frame(s: StateV, f: FrameV) -> StateV {
    if s.fault {
        s
    } else {
        StateV { stack: s.stack.push(f), ..s }
    }
}

/// Adds a mark to the active mark stack, with deduplication and inline-code
/// exclusivity.
pub open spec fn spec_add_mark(s: StateV, m: MarkV) -> StateV {
    if s.fault {
        s
    } else {
        StateV { marks: apply_mark_action(MarkActionV::Add(m), s.marks), ..s }
    }
}

/// Removes the most recently pushed mark of a kind.
pub open spec fn spec_pop_mark(s: StateV, k: MarkKind) -> StateV {
    StateV { marks: pop_last_matching(s.marks, k), ..s }
}

/// A style property read through a `style` attribute.
pub open spec fn style_prop(attrs: Seq<AttrV>, p: Seq<char>) -> Option<Seq<char>> {
    match attr_get(attrs, "style"@) {
        Option::Some(st) => crate::text::extract_style_spec(st, p),
        Option::None => Option::None,
    }
}

/// A pixel size read through a `style` attribute.
pub open spec fn style_px(attrs: Seq<AttrV>, p: Seq<char>) -> Option<u32> {
    match style_prop(attrs, p) {
        Option::Some(v) => parse_px_spec(v),
        Option::None => Option::None,
    }
}

/// An attribute value with a default for a missing attribute.
pub open spec fn attr_or(attrs: Seq<AttrV>, key: Seq<char>, dflt: Seq<char>) -> Seq<char> {
    match attr_get(attrs, key) {
        Option::Some(v) => v,
        Option::None => dflt,
    }
}

/// Closing frames that cannot contain a horizontal rule: paragraphs,
/// blockquotes, list items and table cells are closed innermost-first until
/// something else is on top.
pub open spec fn spec_rule_loop(s: StateV, fuel: nat) -> StateV
    decreases fuel,
{
    if fuel == 0 || s.fault || s.stack.len() == 0 {
        s
    } else {
        match s.stack.last() {
            FrameV::Paragraph(_) => spec_rule_loop(spec_close_block(s), (fuel - 1) as nat),
            FrameV::Blockquote(_) => spec_rule_loop(spec_close_block(s), (fuel - 1) as nat),
            FrameV::ListItem(_) => spec_rule_loop(spec_close_list_item(s), (fuel - 1) as nat),
            FrameV::TableBlockCell(_) => spec_rule_loop(spec_close_cell(s, false), (fuel - 1) as nat),
            FrameV::TableBlockHeader(_) => spec_rule_loop(spec_close_cell(s, true), (fuel - 1) as nat),
            _ => s,
        }
    }
}

/// The user type recorded in a mention attribute.
pub open spec fn user_type_of(v: Seq<char>) -> Option<UserType> {
    if v == "DEFAULT"@ {
        Option::Some(UserType::Standard)
    } else if v == "SPECIAL"@ {
        Option::Some(UserType::Special)
    } else if v == "APP"@ {
        Option::Some(UserType::App)
    } else {
        Option::None
    }
}

/// The access level recorded in a mention attribute.
pub open spec fn access_level_of(v: Seq<char>) -> Option<AccessLevel> {
    if v == "NONE"@ {
        Option::Some(AccessLevel::NoAccess)
    } else if v == "SITE"@ {
        Option::Some(AccessLevel::Site)
    } else if v == "APPLICATION"@ {
        Option::Some(AccessLevel::Application)
    } else {
        Option::None
    }
}

/// What a start tag of a media reference or inline card does, when the
/// custom tier consumes it: `None` means unconsumed.
pub open spec fn spec_media_card_start(s: StateV, name: Seq<char>, attrs: Seq<AttrV>) -> Option<
    StateV,
> {
    if s.stack.len() > 0 && (s.stack.last() matches FrameV::MediaBlock(..)) {
        let id = attr_or(attrs, "data-media-id"@, Seq::empty());
        let collection = attr_or(attrs, "data-collection"@, Seq::empty());
        let alt = attr_get(attrs, "alt"@);
        let width = style_px(attrs, "width"@);
        let height = style_px(attrs, "height"@);
        if name == "a"@ {
            match attr_get(attrs, "href"@) {
                Option::Some(href) => Option::Some(
                    spec_push_media(
                        s,
                        MediaV {
                            alt,
                            collection,
                            height,
                            id,
                            data_type: MediaDataType::Link,
                            width,
                            marks: Option::Some(
                                seq![
                                    MediaMarkV::Link(
                                        LinkMarkV {
                                            collection: Option::None,
                                            href,
                                            id: Option::None,
                                            occurrence_key: Option::None,
                                            title: Option::None,
                                        },
                                    ),
                                ],
                            ),
                        },
                    ),
                ),
                Option::None => Option::Some(faulted(s)),
            }
        } else {
            Option::Some(
                spec_push_media(
                    s,
                    MediaV {
                        alt,
                        collection,
                        height,
                        id,
                        data_type: MediaDataType::File,
                        width,
                        marks: Option::None,
                    },
                ),
            )
        }
    } else if name == "a"@ && (attr_get(attrs, "data-inline-card"@) is Some) {
        match attr_get(attrs, "href"@) {
            Option::Some(_) => Option::Some(
                spec_push_frame(
                    spec_flush(s),
                    FrameV::CustomBlock(CustomBlockType::InlineCard, Seq::empty(), attrs),
                ),
            ),
            Option::None => Option::Some(faulted(s)),
        }
    } else {
        Option::None
    }
}


/// What a bullet-list start tag does: takes the local-id/local-tag side
/// channel, flushes, and opens a pending list.
pub open spec fn spec_ul_start(s: StateV) -> StateV {
    let lid = s.custom_id;
    let ltag = s.custom_tag;
    let s0 = StateV { custom_id: Option::None, custom_tag: Option::None, ..s };
    spec_push_frame(
        spec_flush(s0),
        FrameV::PendingList { items: Seq::empty(), ordered: false, local_id: lid, local_tag: ltag },
    )
}

/// What an anchor start tag does outside media and inline-card contexts:
/// pushes a link mark when an href is present.
pub open spec fn spec_a_start(s: StateV, attrs: Seq<AttrV>) -> StateV {
    let s1 = spec_flush(s);
    match attr_get(attrs, "href"@) {
        Option::Some(href) => spec_add_mark(
            s1,
            MarkV::Link(
                LinkMarkV {
                    collection: Option::None,
                    href,
                    id: Option::None,
                    occurrence_key: Option::None,
                    title: Option::None,
                },
            ),
        ),
        Option::None => s1,
    }
}

/// What an inline-code start tag does: inside a code block nothing, outside
/// it pushes the exclusive code mark.
pub open spec fn spec_code_start(s: StateV) -> StateV {
    let s1 = spec_flush(s);
    if spec_in_pre(s1.stack) {
        s1
    } else {
        spec_add_mark(s1, MarkV::Code)
    }
}

/// What a span start tag does: pushes a text-color mark, a background-color
/// mark, both, or neither, as the style attribute dictates; a span without
/// either is an inline no-op.
pub open spec fn spec_span_start(s: StateV, attrs: Seq<AttrV>) -> StateV {
    let s1 = spec_flush(s);
    match attr_get(attrs, "style"@) {
        Option::Some(st) => {
            let s2 = match crate::text::extract_style_spec(st, "color"@) {
                Option::Some(c) => spec_add_mark(s1, MarkV::TextColor(c)),
                Option::None => s1,
            };
            match crate::text::extract_style_spec(st, "background-color"@) {
                Option::Some(b) => spec_add_mark(s2, MarkV::BackgroundColor(b)),
                Option::None => s2,
            }
        },
        Option::None => s1,
    }
}

/// What a horizontal rule does: closes inline-only contexts, then lands the
/// rule as a sibling block.
pub open spec fn spec_hr_start(s: StateV) -> StateV {
    let s1 = spec_flush(s);
    let s2 = spec_rule_loop(s1, s1.stack.len());
    spec_push_node_block(s2, BlockV::Rule)
}

/// What a task-item marker does: migrates the nearest list item frame into a
/// task item, reading the checkbox state and local id; a marker whose type is
/// not a checkbox is a structural fault; outside a list item it is ignored.
pub open spec fn spec_task_item_start(s: StateV, attrs: Seq<AttrV>) -> StateV {
    if !spec_has_list_item(s.stack) {
        s
    } else {
        match attr_get(attrs, "type"@) {
            Option::Some(t) => if crate::text::str_eq_ic_spec(t, "checkbox"@) {
                let st = if attr_get(attrs, "checked"@) is Some {
                    TaskItemState::Done
                } else {
                    TaskItemState::Todo
                };
                let id = attr_or(attrs, "id"@, Seq::empty());
                let popped = spec_pop_to_list_item(s.stack);
                StateV {
                    stack: popped.0.push(
                        FrameV::TaskItem(spec_flatten_paragraphs(popped.1), st, id),
                    ),
                    ..s
                }
            } else {
                faulted(s)
            },
            Option::None => faulted(s),
        }
    }
}

/// What a decision-item marker does: migrates the nearest list item frame
/// into a decision item; outside a list item it is ignored.
pub open spec fn spec_decision_item_start(s: StateV, attrs: Seq<AttrV>) -> StateV {
    if !spec_has_list_item(s.stack) {
        s
    } else {
        let id = attr_or(attrs, "id"@, Seq::empty());
        let popped = spec_pop_to_list_item(s.stack);
        StateV {
            stack: popped.0.push(FrameV::DecisionItem(spec_flatten_paragraphs(popped.1), id)),
            ..s
        }
    }
}

/// What one start tag does to the builder state.
pub open spec fn spec_step_start(s: StateV, name: Seq<char>, attrs: Seq<AttrV>) -> StateV {
    if name == "a"@ {
        match spec_media_card_start(s, name, attrs) {
            Option::Some(s2) => s2,
            Option::None => spec_a_start(s, attrs),
        }
    } else if name == "img"@ {
        match spec_media_card_start(s, name, attrs) {
            Option::Some(s2) => s2,
            Option::None => s,
        }
    } else {
        if name == "ul"@ {
            spec_ul_start(s)
        } else if name == "ol"@ {
            spec_push_frame(
                spec_flush(s),
                FrameV::PendingList {
                    items: Seq::empty(),
                    ordered: true,
                    local_id: Option::None,
                    local_tag: Option::None,
                },
            )
        } else if name == "li"@ {
            spec_push_frame(spec_flush(s), FrameV::ListItem(Seq::empty()))
        } else if name == "p"@ {
            spec_push_frame(spec_flush(s), FrameV::Paragraph(Seq::empty()))
        } else if name == "pre"@ {
            spec_push_frame(spec_flush(s), FrameV::CodeBlock(Seq::empty()))
        } else if name == "blockquote"@ {
            spec_push_frame(spec_flush(s), FrameV::Blockquote(Seq::empty()))
        } else if name == "em"@ {
            spec_add_mark(spec_flush(s), MarkV::Em)
        } else if name == "strong"@ {
            spec_add_mark(spec_flush(s), MarkV::Strong)
        } else if name == "del"@ {
            spec_add_mark(spec_flush(s), MarkV::Strike)
        } else if name == "u"@ {
            spec_add_mark(spec_flush(s), MarkV::Underline)
        } else if name == "sub"@ {
            spec_add_mark(spec_flush(s), MarkV::Subsup(Subsup::Sub))
        } else if name == "sup"@ {
            spec_add_mark(spec_flush(s), MarkV::Subsup(Subsup::Sup))
        } else if name == "code"@ {
            spec_code_start(s)
        } else if name == "div"@ {
            spec_push_frame(
                spec_flush(s),
                FrameV::CustomBlock(CustomBlockType::Div, Seq::empty(), attrs),
            )
        } else if name == "span"@ {
            spec_span_start(s, attrs)
        } else if name == "h1"@ {
            spec_push_frame(spec_flush(s), FrameV::Heading(1, Seq::empty()))
        } else if name == "h2"@ {
            spec_push_frame(spec_flush(s), FrameV::Heading(2, Seq::empty()))
        } else if name == "h3"@ {
            spec_push_frame(spec_flush(s), FrameV::Heading(3, Seq::empty()))
        } else if name == "h4"@ {
            spec_push_frame(spec_flush(s), FrameV::Heading(4, Seq::empty()))
        } else if name == "h5"@ {
            spec_push_frame(spec_flush(s), FrameV::Heading(5, Seq::empty()))
        } else if name == "h6"@ {
            spec_push_frame(spec_flush(s), FrameV::Heading(6, Seq::empty()))
        } else if name == "table"@ {
            spec_push_frame(spec_flush(s), FrameV::TableBlock(Seq::empty()))
        } else if name == "thead"@ || name == "tbody"@ {
            s
        } else if name == "tr"@ {
            spec_push_frame(spec_flush(s), FrameV::TableRowBlock(Seq::empty()))
        } else if name == "th"@ {
            spec_push_frame(spec_flush(s), FrameV::TableBlockHeader(Seq::empty()))
        } else if name == "td"@ {
            spec_push_frame(spec_flush(s), FrameV::TableBlockCell(Seq::empty()))
        } else if name == "br"@ {
            spec_push_inline(spec_flush(s), InlineV::HardBreak)
        } else if name == "hr"@ {
            spec_hr_start(s)
        } else if name == "time"@ {
            spec_push_frame(
                spec_flush(s),
                FrameV::CustomBlock(CustomBlockType::Date, Seq::empty(), attrs),
            )
        } else if name == "details"@ {
            let ty = if attr_get(attrs, "data-nested"@) is Some {
                CustomBlockType::NestedExpand
            } else {
                CustomBlockType::Expand
            };
            spec_push_frame(spec_flush(s), FrameV::CustomBlock(ty, Seq::empty(), attrs))
        } else if name == "figure"@ {
            spec_push_frame(
                spec_flush(s),
                FrameV::CustomBlock(CustomBlockType::Panel, Seq::empty(), attrs),
            )
        } else if name == "adf-task-item"@ {
            spec_task_item_start(s, attrs)
        } else if name == "adf-decision-item"@ {
            spec_decision_item_start(s, attrs)
        } else if name == "adf-local-data"@ {
            StateV {
                custom_id: attr_get(attrs, "id"@),
                custom_tag: attr_get(attrs, "data-tag"@),
                ..s
            }
        } else if name == "adf-status"@ {
            spec_push_frame(
                spec_flush(s),
                FrameV::CustomBlock(CustomBlockType::Status, Seq::empty(), attrs),
            )
        } else if name == "adf-emoji"@ {
            spec_push_frame(
                spec_flush(s),
                FrameV::CustomBlock(CustomBlockType::Emoji, Seq::empty(), attrs),
            )
        } else if name == "adf-mention"@ {
            spec_push_frame(
                spec_flush(s),
                FrameV::CustomBlock(CustomBlockType::Mention, Seq::empty(), attrs),
            )
        } else if name == "adf-media-single"@ {
            spec_push_frame(
                spec_flush(s),
                FrameV::MediaBlock(MediaBlockType::MediaSingle, Seq::empty(), attrs),
            )
        } else if name == "adf-media-group"@ {
            spec_push_frame(
                spec_flush(s),
                FrameV::MediaBlock(MediaBlockType::MediaGroup, Seq::empty(), attrs),
            )
        } else {
            s
        }
    }
}

/// Whether the top frame is an inline-card context.
pub open spec fn top_is_inline_card(s: StateV) -> bool {
    s.stack.len() > 0 && (s.stack.last() matches FrameV::CustomBlock(
        CustomBlockType::InlineCard,
        _,
        _,
    ))
}

/// A paragraph list that collapses to a single styled text run: exactly one
/// paragraph whose children are text runs and hard breaks.
pub open spec fn spec_para_inline_only(nodes: Seq<BlockV>) -> bool {
    nodes.len() == 1 && match nodes[0] {
        BlockV::Paragraph { content: Option::Some(c) } => spec_all_text_or_break(c),
        _ => false,
    }
}

/// The inline content of the single paragraph of a collapsible list.
pub open spec fn spec_the_para_content(nodes: Seq<BlockV>) -> Seq<InlineV> {
    match nodes[0] {
        BlockV::Paragraph { content: Option::Some(c) } => c,
        _ => Seq::empty(),
    }
}

/// The color marks a styled div collapses into.
pub open spec fn spec_color_marks(color: Option<Seq<char>>, bg: Option<Seq<char>>) -> Seq<MarkV> {
    let first = match color {
        Option::Some(c) => seq![MarkV::TextColor(c)],
        Option::None => Seq::empty(),
    };
    let second = match bg {
        Option::Some(b) => seq![MarkV::BackgroundColor(b)],
        Option::None => Seq::empty(),
    };
    first + second
}

/// Splices a list of finished blocks into the current frame, one after the
/// other.
pub open spec fn spec_splice(s: StateV, bs: Seq<BlockV>) -> StateV
    decreases bs.len(),
{
    if bs.len() == 0 {
        s
    } else {
        spec_splice(spec_push_node_block(s, bs[0]), bs.subrange(1, bs.len() as int))
    }
}

/// What closing a div does: nothing for an empty div, a styled text run for
/// a color-styled div holding one inline-only paragraph, and a transparent
/// splice of the children otherwise.
pub open spec fn spec_div_end(s: StateV) -> StateV {
    let s1 = spec_flush(s);
    if s1.fault {
        s1
    } else if s1.stack.len() == 0 {
        faulted(s1)
    } else {
        match s1.stack.last() {
            FrameV::CustomBlock(CustomBlockType::Div, nodes, cattrs) => {
                let s2 = StateV { stack: s1.stack.drop_last(), ..s1 };
                if nodes.len() == 0 {
                    s2
                } else {
                    let color = style_prop(cattrs, "color"@);
                    let bg = style_prop(cattrs, "background-color"@);
                    if (color is Some || bg is Some) && spec_para_inline_only(nodes) {
                        spec_push_node(
                            s2,
                            InlineV::Text {
                                text: spec_texts_concat(spec_the_para_content(nodes)),
                                marks: Option::Some(spec_color_marks(color, bg)),
                            },
                        )
                    } else {
                        spec_splice(s2, nodes)
                    }
                }
            },
            _ => faulted(s1),
        }
    }
}

/// What one end tag does to the builder state.
pub open spec fn spec_step_end(s: StateV, name: Seq<char>) -> StateV {
    if name == "a"@ {
        if top_is_inline_card(s) {
            spec_inline_card_end(s)
        } else {
            spec_pop_mark(spec_flush(s), MarkKind::Link)
        }
    } else if name == "ul"@ || name == "ol"@ || name == "pre"@ || name == "blockquote"@ {
        spec_close_block(spec_flush(s))
    } else if name == "li"@ {
        spec_close_list_item(s)
    } else if name == "p"@ {
        spec_p_end(s)
    } else if name == "em"@ {
        spec_pop_mark(spec_flush(s), MarkKind::Em)
    } else if name == "strong"@ {
        spec_pop_mark(spec_flush(s), MarkKind::Strong)
    } else if name == "del"@ {
        spec_pop_mark(spec_flush(s), MarkKind::Strike)
    } else if name == "u"@ {
        spec_pop_mark(spec_flush(s), MarkKind::Underline)
    } else if name == "sub"@ {
        spec_pop_mark(spec_flush(s), MarkKind::Sub)
    } else if name == "sup"@ {
        spec_pop_mark(spec_flush(s), MarkKind::Sup)
    } else if name == "span"@ {
        spec_pop_mark(spec_flush(s), MarkKind::Color)
    } else if name == "code"@ {
        let s1 = spec_flush(s);
        if spec_in_pre(s1.stack) {
            s1
        } else {
            spec_pop_mark(s1, MarkKind::Code)
        }
    } else if name == "h1"@ {
        spec_heading_end(s, 1)
    } else if name == "h2"@ {
        spec_heading_end(s, 2)
    } else if name == "h3"@ {
        spec_heading_end(s, 3)
    } else if name == "h4"@ {
        spec_heading_end(s, 4)
    } else if name == "h5"@ {
        spec_heading_end(s, 5)
    } else if name == "h6"@ {
        spec_heading_end(s, 6)
    } else if name == "table"@ {
        spec_table_end(s)
    } else if name == "thead"@ || name == "tbody"@ {
        s
    } else if name == "tr"@ {
        spec_close_row(s)
    } else if name == "td"@ {
        spec_close_cell(s, false)
    } else if name == "th"@ {
        spec_close_cell(s, true)
    } else if name == "time"@ {
        spec_time_end(s)
    } else if name == "details"@ {
        spec_details_end(s)
    } else if name == "figure"@ {
        spec_figure_end(s)
    } else if name == "summary"@ {
        spec_summary_end(s)
    } else if name == "div"@ {
        spec_div_end(s)
    } else if name == "adf-status"@ {
        spec_status_end(s)
    } else if name == "adf-emoji"@ {
        spec_emoji_end(s)
    } else if name == "adf-mention"@ {
        spec_mention_end(s)
    } else if name == "adf-media-single"@ {
        spec_media_single_end(s)
    } else if name == "adf-media-group"@ {
        spec_media_group_end(s)
    } else {
        s
    }
}


/// Closing an inline card: the collected text is discarded and the card node
/// carries the href captured at its start.
pub open spec fn spec_inline_card_end(s: StateV) -> StateV {
    match s.stack.last() {
        FrameV::CustomBlock(CustomBlockType::InlineCard, _, cattrs) => {
            let s1 = StateV { text: Seq::empty(), stack: s.stack.drop_last(), ..s };
            spec_push_node(
                s1,
                InlineV::InlineCard { url: Option::Some(attr_or(cattrs, "href"@, Seq::empty())) },
            )
        },
        _ => s,
    }
}

/// Closing a paragraph; after a frame migration into a task or decision item
/// the paragraph was already consumed and the end tag is a no-op.
pub open spec fn spec_p_end(s: StateV) -> StateV {
    let s1 = spec_flush(s);
    if s1.stack.len() > 0 && ((s1.stack.last() matches FrameV::TaskItem(..)) || (s1.stack.last()
        matches FrameV::DecisionItem(..))) {
        s1
    } else {
        spec_close_block(s1)
    }
}

/// Closing a table: the accumulated rows become a table node; a mismatched
/// frame leaves the event unhandled.
pub open spec fn spec_table_end(s: StateV) -> StateV {
    let s1 = spec_flush(s);
    if s1.fault {
        s1
    } else if s1.stack.len() > 0 && (s1.stack.last() matches FrameV::TableBlock(_)) {
        match s1.stack.last() {
            FrameV::TableBlock(rows) => spec_push_node_block(
                StateV { stack: s1.stack.drop_last(), ..s1 },
                BlockV::Table { attrs: Option::None, rows },
            ),
            _ => s1,
        }
    } else {
        s1
    }
}

/// Closing a date element: the datetime attribute is parsed as RFC 3339 and
/// re-emitted as a decimal epoch-millisecond timestamp; a missing attribute
/// defaults to epoch zero.
pub open spec fn spec_time_end(s: StateV) -> StateV {
    let s1 = spec_flush(s);
    if s1.fault {
        s1
    } else if s1.stack.len() > 0 {
        match s1.stack.last() {
            FrameV::CustomBlock(CustomBlockType::Date, _, cattrs) => {
                let ts = attr_or(cattrs, "datetime"@, Seq::empty());
                let ms: i64 = if ts.len() == 0 {
                    0
                } else {
                    millis_of_rfc3339(ts)
                };
                spec_push_node(
                    StateV { stack: s1.stack.drop_last(), ..s1 },
                    InlineV::Date { timestamp: dec_str_i64(ms as int) },
                )
            },
            _ => faulted(s1),
        }
    } else {
        faulted(s1)
    }
}

/// Closing an expand or nested expand: the summary text recorded on the
/// frame becomes the title.
pub open spec fn spec_details_end(s: StateV) -> StateV {
    let s1 = spec_flush(s);
    if s1.fault {
        s1
    } else if s1.stack.len() > 0 {
        match s1.stack.last() {
            FrameV::CustomBlock(CustomBlockType::Expand, nodes, cattrs) => {
                let title = attr_or(cattrs, "data-summary"@, Seq::empty());
                spec_push_node_block(
                    StateV { stack: s1.stack.drop_last(), ..s1 },
                    BlockV::Expand {
                        title: if title.len() == 0 {
                            Option::None
                        } else {
                            Option::Some(title)
                        },
                        content: nodes,
                    },
                )
            },
            FrameV::CustomBlock(CustomBlockType::NestedExpand, nodes, cattrs) => {
                spec_push_node_block(
                    StateV { stack: s1.stack.drop_last(), ..s1 },
                    BlockV::NestedExpand {
                        title: attr_or(cattrs, "data-summary"@, Seq::empty()),
                        content: nodes,
                    },
                )
            },
            _ => faulted(s1),
        }
    } else {
        faulted(s1)
    }
}

/// Closing a panel: the panel type attribute defaults to `info`.
pub open spec fn spec_figure_end(s: StateV) -> StateV {
    let s1 = spec_flush(s);
    if s1.fault {
        s1
    } else if s1.stack.len() > 0 {
        match s1.stack.last() {
            FrameV::CustomBlock(CustomBlockType::Panel, nodes, cattrs) => {
                spec_push_node_block(
                    StateV { stack: s1.stack.drop_last(), ..s1 },
                    BlockV::Panel {
                        panel_type: attr_or(cattrs, "data-panel-type"@, "info"@),
                        content: nodes,
                    },
                )
            },
            _ => faulted(s1),
        }
    } else {
        faulted(s1)
    }
}

/// Closing a summary: the trimmed collected text becomes the title of the
/// nearest enclosing expand frame.
pub open spec fn spec_summary_end(s: StateV) -> StateV {
    if s.fault {
        s
    } else {
        StateV { text: Seq::empty(), stack: spec_set_summary(s.stack, trim_spec(s.text)), ..s }
    }
}

/// Closing a status chip: the trimmed collected text, the background color
/// from the style attribute (defaulting to neutral), and the aria label.
pub open spec fn spec_status_end(s: StateV) -> StateV {
    if s.fault {
        s
    } else if s.stack.len() > 0 {
        match s.stack.last() {
            FrameV::CustomBlock(CustomBlockType::Status, _, cattrs) => {
                let text = trim_spec(s.text);
                let s1 = StateV { text: Seq::empty(), stack: s.stack.drop_last(), ..s };
                spec_push_node(
                    s1,
                    InlineV::Status {
                        local_id: attr_get(cattrs, "aria-label"@),
                        text,
                        color: match style_prop(cattrs, "background-color"@) {
                            Option::Some(c) => c,
                            Option::None => "neutral"@,
                        },
                    },
                )
            },
            _ => faulted(s),
        }
    } else {
        faulted(s)
    }
}

/// Closing an emoji: the aria-alt short name (with a fixed default) and the
/// trimmed collected text.
pub open spec fn spec_emoji_end(s: StateV) -> StateV {
    if s.fault {
        s
    } else if s.stack.len() > 0 {
        match s.stack.last() {
            FrameV::CustomBlock(CustomBlockType::Emoji, _, cattrs) => {
                let text = trim_spec(s.text);
                let s1 = StateV { text: Seq::empty(), stack: s.stack.drop_last(), ..s };
                spec_push_node(
                    s1,
                    InlineV::Emoji {
                        short_name: attr_or(cattrs, "aria-alt"@, ":smile:"@),
                        text: Option::Some(text),
                    },
                )
            },
            _ => faulted(s),
        }
    } else {
        faulted(s)
    }
}

/// Closing a mention: id, optional display text, and the optional access
/// level and user type read from their attributes.
pub open spec fn spec_mention_end(s: StateV) -> StateV {
    if s.fault {
        s
    } else if s.stack.len() > 0 {
        match s.stack.last() {
            FrameV::CustomBlock(CustomBlockType::Mention, _, cattrs) => {
                let text = trim_spec(s.text);
                let s1 = StateV { text: Seq::empty(), stack: s.stack.drop_last(), ..s };
                spec_push_node(
                    s1,
                    InlineV::Mention {
                        access_level: match attr_get(cattrs, "data-access-level"@) {
                            Option::Some(v) => access_level_of(v),
                            Option::None => Option::None,
                        },
                        id: attr_or(cattrs, "data-mention-id"@, Seq::empty()),
                        text: if text.len() == 0 {
                            Option::None
                        } else {
                            Option::Some(text)
                        },
                        user_type: match attr_get(cattrs, "data-user-type"@) {
                            Option::Some(v) => user_type_of(v),
                            Option::None => Option::None,
                        },
                    },
                )
            },
            _ => faulted(s),
        }
    } else {
        faulted(s)
    }
}

/// Closing a media single: the layout attribute is required.
pub open spec fn spec_media_single_end(s: StateV) -> StateV {
    let s1 = spec_flush(s);
    if s1.fault {
        s1
    } else if s1.stack.len() > 0 {
        match s1.stack.last() {
            FrameV::MediaBlock(MediaBlockType::MediaSingle, nodes, cattrs) => {
                match attr_get(cattrs, "data-layout"@) {
                    Option::Some(layout) => spec_push_node_block(
                        StateV { stack: s1.stack.drop_last(), ..s1 },
                        BlockV::MediaSingle { layout, content: nodes },
                    ),
                    Option::None => faulted(s1),
                }
            },
            _ => faulted(s1),
        }
    } else {
        faulted(s1)
    }
}

/// Closing a media group.
pub open spec fn spec_media_group_end(s: StateV) -> StateV {
    let s1 = spec_flush(s);
    if s1.fault {
        s1
    } else if s1.stack.len() > 0 {
        match s1.stack.last() {
            FrameV::MediaBlock(MediaBlockType::MediaGroup, nodes, _) => {
                spec_push_node_block(
                    StateV { stack: s1.stack.drop_last(), ..s1 },
                    BlockV::MediaGroup { content: nodes },
                )
            },
            _ => faulted(s1),
        }
    } else {
        faulted(s1)
    }
}

/// What the heading end tag of a level does.
pub open spec fn spec_heading_end(s: StateV, level: u8) -> StateV {
    let s1 = spec_flush(s);
    if s1.fault {
        s1
    } else if s1.stack.len() == 0 {
        faulted(s1)
    } else {
        match s1.stack.last() {
            FrameV::Heading(lvl, nodes) => if lvl == level {
                spec_push_node_block(
                    StateV { stack: s1.stack.drop_last(), ..s1 },
                    BlockV::Heading { level: lvl, content: Option::Some(nodes) },
                )
            } else {
                faulted(s1)
            },
            _ => faulted(s1),
        }
    }
}

/// What one lexical event does to the builder state: character data extends
/// the pending text buffer; start and end tags run their handlers. A faulted
/// state absorbs every event.
pub open spec fn spec_step(s: StateV, e: EventV) -> StateV {
    if s.fault {
        s
    } else {
        match e {
            EventV::Chars(t) => StateV { text: s.text + t, ..s },
            EventV::Start { name, attrs, self_closing } => spec_step_start(s, name, attrs),
            EventV::End { name } => spec_step_end(s, name),
        }
    }
}

// ---------------------------------------------------------------------------
// Executable dispatch
// ---------------------------------------------------------------------------

/// One step of the generic close lowers the stack by exactly one frame, or
/// faults.
pub proof fn lemma_close_block_shrinks(s: StateV)
    ensures
        !spec_close_block(s).fault ==> spec_close_block(s).stack.len() == s.stack.len() - 1,
{
}

/// Flushing never changes the stack depth.
pub proof fn lemma_flush_stack_len(s: StateV)
    ensures
        spec_flush(s).stack.len() == s.stack.len(),
        spec_flush(s).fault == s.fault,
{
}

/// Closing a list item lowers the stack by exactly one frame, or faults.
pub proof fn lemma_close_list_item_shrinks(s: StateV)
    ensures
        !spec_close_list_item(s).fault ==> spec_close_list_item(s).stack.len() == s.stack.len()
            - 1,
{
    lemma_flush_stack_len(s);
}

/// Closing a cell lowers the stack by exactly one frame, or faults.
pub proof fn lemma_close_cell_shrinks(s: StateV, header: bool)
    ensures
        !spec_close_cell(s, header).fault ==> spec_close_cell(s, header).stack.len()
            == s.stack.len() - 1,
{
    lemma_flush_stack_len(s);
}

/// A structural fault discovered during building or emission, with the tag
/// that triggered it.
#[derive(Debug)]
pub struct BuildError {
    pub tag: String,
}

impl BuildError {
    /// A human-readable description of the fault.
    pub fn message(&self) -> (r: String)
        ensures
            r@ == "structural fault near tag: "@ + self.tag@,
    {
        let mut m = String::from_str("structural fault near tag: ");
        m.append(self.tag.as_str());
        m
    }
}

impl ADFBuilder {
    /// A fresh builder holding one open document frame.
    pub fn new() -> (r: Self)
        ensures
            r@ == (StateV {
                stack: seq![FrameV::Document(Seq::empty())],
                marks: Seq::empty(),
                text: Seq::empty(),
                custom_id: Option::None,
                custom_tag: Option::None,
                fault: false,
            }),
    {
        let mut stack: Vec<BlockContext> = Vec::new();
        stack.push(BlockContext::Document(Vec::new()));
        let r = ADFBuilder {
            state: ADFBuilderState {
                stack,
                mark_stack: Vec::new(),
                current_text: String::new(),
                custom_block_id: Option::None,
                custom_block_tag: Option::None,
                fault: false,
                fault_tag: String::new(),
            },
        };
        proof {
            assert(r.state.stack@ =~= Seq::<BlockContext>::empty().push(
                r.state.stack@[0],
            ));
            lemma_frames_v_push(Seq::<BlockContext>::empty(), r.state.stack@[0]);
            assert(r@ =~= (StateV {
                stack: seq![FrameV::Document(Seq::empty())],
                marks: Seq::empty(),
                text: Seq::empty(),
                custom_id: Option::None,
                custom_tag: Option::None,
                fault: false,
            }));
        }
        r
    }

    /// Pushes a new frame onto the stack.
    fn push_frame(state: &mut ADFBuilderState, f: BlockContext)
        ensures
            final(state)@ == spec_push_frame(old(state)@, f@),
    {
        if state.fault {
            return ;
        }
        let ghost stack0 = state.stack@;
        let ghost fv = f@;
        state.stack.push(f);
        proof {
            lemma_frames_v_push(stack0, stack0.push(state.stack@.last()).last());
            assert(state.stack@ =~= stack0.push(state.stack@.last()));
            lemma_frames_v_push(stack0, state.stack@.last());
            assert(state@ =~= spec_push_frame(old(state)@, fv));
        }
    }

    /// Adds a mark to the active mark stack.
    fn add_mark(state: &mut ADFBuilderState, m: AdfMark)
        ensures
            final(state)@ == spec_add_mark(old(state)@, m@),
    {
        if state.fault {
            return ;
        }
        let ghost mv = m@;
        let action = MarkAction::Add(m);
        action.apply_to(&mut state.mark_stack);
        proof {
            assert(state@ =~= spec_add_mark(old(state)@, mv));
        }
    }

    /// Handles a bullet-list start tag.
    fn handle_ul_start(state: &mut ADFBuilderState)
        ensures
            final(state)@ == spec_ul_start(old(state)@),
    {
        let lid: Option<String> = match &state.custom_block_id {
            Option::Some(l) => Option::Some(l.local_id.clone()),
            Option::None => Option::None,
        };
        let ltag: Option<String> = match &state.custom_block_tag {
            Option::Some(t) => Option::Some(t.clone()),
            Option::None => Option::None,
        };
        state.custom_block_id = Option::None;
        state.custom_block_tag = Option::None;
        Self::flush_text(state);
        Self::push_frame(
            state,
            BlockContext::PendingList {
                nodes: Vec::new(),
                ordered: false,
                local_id: lid,
                local_tag: ltag,
            },
        );
        proof {
            assert(final(state)@ =~= spec_ul_start(old(state)@));
        }
    }

    /// Handles the rule element: closes inline-only contexts, then lands the
    /// rule.
    #[verifier::rlimit(100)]
    fn handle_hr(state: &mut ADFBuilderState)
        ensures
            final(state)@ == spec_hr_start(old(state)@),
    {
        Self::flush_text(state);
        let ghost s1 = state@;
        let mut fuel: usize = state.stack.len();
        proof {
            lemma_frames_v_props(state.stack@);
            assert(fuel == s1.stack.len());
        }
        loop
            invariant
                s1 == spec_flush(old(state)@),
                spec_rule_loop(state@, fuel as nat) == spec_rule_loop(s1, s1.stack.len()),
            decreases fuel,
        {
            proof {
                lemma_frames_v_props(state.stack@);
            }
            if fuel == 0 || state.fault || state.stack.len() == 0 {
                proof {
                    assert(spec_rule_loop(state@, fuel as nat) == state@);
                }
                Self::push_node_block_to_parent(state, AdfBlockNode::Rule);
                proof {
                    assert(state@ =~= spec_hr_start(old(state)@));
                }
                return ;
            }
            let n = state.stack.len();
            let ghost cur = state@;
            let kind: u8 = match &state.stack[n - 1] {
                BlockContext::Paragraph(_) => 1,
                BlockContext::Blockquote(_) => 1,
                BlockContext::ListItem(_) => 2,
                BlockContext::TableBlockCell(_) => 3,
                BlockContext::TableBlockHeader(_) => 4,
                _ => 0,
            };
            if kind == 0 {
                proof {
                    assert(spec_rule_loop(state@, fuel as nat) == state@);
                }
                Self::push_node_block_to_parent(state, AdfBlockNode::Rule);
                proof {
                    assert(state@ =~= spec_hr_start(old(state)@));
                }
                return ;
            } else if kind == 1 {
                Self::close_current_block(state);
            } else if kind == 2 {
                Self::close_current_list_item(state);
            } else if kind == 3 {
                Self::close_current_table_cell(state, false);
            } else {
                Self::close_current_table_cell(state, true);
            }
            proof {
                assert(spec_rule_loop(cur, fuel as nat) == spec_rule_loop(
                    state@,
                    (fuel - 1) as nat,
                ));
            }
            fuel = fuel - 1;
        }
    }

    /// Handles the task-item marker inside a list item.
    fn handle_task_item_start(state: &mut ADFBuilderState, attrs: &Vec<Attribute>)
        ensures
            final(state)@ == spec_task_item_start(old(state)@, attrs_v(attrs@)),
    {
        if !Self::has_list_item(&state.stack) {
            return ;
        }
        let ty = get_attr(attrs, "type");
        match ty {
            Option::Some(t) => {
                if crate::text::str_eq_ignore_ascii_case(t.as_str(), "checkbox") {
                    let checked = has_attr(attrs, "checked");
                    let st = if checked {
                        TaskItemState::Done
                    } else {
                        TaskItemState::Todo
                    };
                    let id: String = match get_attr(attrs, "id") {
                        Option::Some(i) => i,
                        Option::None => String::new(),
                    };
                    let inner = Self::pop_to_list_item(state);
                    let flat = Self::flatten_paragraphs(inner);
                    let ghost stack2 = state.stack@;
                    let newframe = BlockContext::TaskItem(flat, st, id);
                    state.stack.push(newframe);
                    proof {
                        lemma_frames_v_push(stack2, newframe);
                        assert(state@ =~= spec_task_item_start(old(state)@, attrs_v(attrs@)));
                    }
                } else {
                    state.fault = true;
                    proof {
                        assert(state@ =~= faulted(old(state)@));
                    }
                }
            },
            Option::None => {
                state.fault = true;
                proof {
                    assert(state@ =~= faulted(old(state)@));
                }
            },
        }
    }

    /// Handles the decision-item marker inside a list item.
    fn handle_decision_item_start(state: &mut ADFBuilderState, attrs: &Vec<Attribute>)
        ensures
            final(state)@ == spec_decision_item_start(old(state)@, attrs_v(attrs@)),
    {
        if !Self::has_list_item(&state.stack) {
            return ;
        }
        let id: String = match get_attr(attrs, "id") {
            Option::Some(i) => i,
            Option::None => String::new(),
        };
        let inner = Self::pop_to_list_item(state);
        let flat = Self::flatten_paragraphs(inner);
        let ghost stack2 = state.stack@;
        let newframe = BlockContext::DecisionItem(flat, id);
        state.stack.push(newframe);
        proof {
            lemma_frames_v_push(stack2, newframe);
            assert(state@ =~= spec_decision_item_start(old(state)@, attrs_v(attrs@)));
        }
    }

    /// Handles an anchor or image start in a media block, or an inline-card
    /// anchor; returns whether the event was consumed.
    #[verifier::rlimit(60)]
    fn handle_media_card_start(
        state: &mut ADFBuilderState,
        is_a: bool,
        attrs: &Vec<Attribute>,
    ) -> (consumed: bool)
        ensures
            ({
                let r = spec_media_card_start(
                    old(state)@,
                    if is_a {
                        "a"@
                    } else {
                        "img"@
                    },
                    attrs_v(attrs@),
                );
                match r {
                    Option::Some(s2) => consumed && final(state)@ == s2,
                    Option::None => !consumed && final(state)@ == old(state)@,
                }
            }),
    {
        let ghost av = attrs_v(attrs@);
        proof {
            lemma_frames_v_props(state.stack@);
            reveal_strlit("a");
            reveal_strlit("img");
            assert(("a"@).len() == 1 && ("img"@).len() == 3);
            assert("a"@ != "img"@);
        }
        let n = state.stack.len();
        let in_media = n > 0 && matches!(&state.stack[n - 1], BlockContext::MediaBlock(..));
        if in_media {
            let id: String = match get_attr(attrs, "data-media-id") {
                Option::Some(v) => v,
                Option::None => String::new(),
            };
            let collection: String = match get_attr(attrs, "data-collection") {
                Option::Some(v) => v,
                Option::None => String::new(),
            };
            let alt = get_attr(attrs, "alt");
            let style = get_attr(attrs, "style");
            let width: Option<u32> = match &style {
                Option::Some(st) => match crate::text::extract_style(st.as_str(), "width") {
                    Option::Some(v) => parse_px(v.as_str()),
                    Option::None => Option::None,
                },
                Option::None => Option::None,
            };
            let height: Option<u32> = match &style {
                Option::Some(st) => match crate::text::extract_style(st.as_str(), "height") {
                    Option::Some(v) => parse_px(v.as_str()),
                    Option::None => Option::None,
                },
                Option::None => Option::None,
            };
            if is_a {
                let href = get_attr(attrs, "href");
                match href {
                    Option::Some(h) => {
                        let mut marks: Vec<MediaMark> = Vec::new();
                        marks.push(
                            MediaMark::Link(
                                LinkMark {
                                    collection: Option::None,
                                    href: h,
                                    id: Option::None,
                                    occurrence_key: Option::None,
                                    title: Option::None,
                                },
                            ),
                        );
                        proof {
                            assert(marks@ =~= Seq::<MediaMark>::empty().push(marks@[0]));
                            lemma_media_marks_v_push(Seq::<MediaMark>::empty(), marks@[0]);
                            assert(media_marks_v(Seq::<MediaMark>::empty())
                                == Seq::<MediaMarkV>::empty());
                            assert(media_marks_v(marks@) =~= seq![media_mark_v(marks@[0])]);
                        }
                        let media = MediaNode {
                            media_type: MediaType::Media,
                            attrs: MediaAttrs {
                                alt,
                                collection,
                                height,
                                id,
                                type_: MediaDataType::Link,
                                width,
                            },
                            marks: Option::Some(marks),
                        };
                        Self::push_media_node_to_parent(state, media);
                        true
                    },
                    Option::None => {
                        state.fault = true;
                        proof {
                            assert(state@ =~= faulted(old(state)@));
                        }
                        true
                    },
                }
            } else {
                let media = MediaNode {
                    media_type: MediaType::Media,
                    attrs: MediaAttrs {
                        alt,
                        collection,
                        height,
                        id,
                        type_: MediaDataType::File,
                        width,
                    },
                    marks: Option::None,
                };
                Self::push_media_node_to_parent(state, media);
                true
            }
        } else if is_a && has_attr(attrs, "data-inline-card") {
            if has_attr(attrs, "href") {
                Self::flush_text(state);
                let kept = Self::copy_attrs(attrs);
                Self::push_frame(
                    state,
                    BlockContext::CustomBlock(CustomBlockType::InlineCard, Vec::new(), kept),
                );
                proof {
                    assert(final(state)@ =~= spec_push_frame(
                        spec_flush(old(state)@),
                        FrameV::CustomBlock(CustomBlockType::InlineCard, Seq::empty(), av),
                    ));
                }
                true
            } else {
                state.fault = true;
                proof {
                    assert(state@ =~= faulted(old(state)@));
                }
                true
            }
        } else {
            false
        }
    }

    /// Handles the end of an inline-card anchor; returns whether the event
    /// was consumed.
    fn handle_inline_card_end(state: &mut ADFBuilderState) -> (consumed: bool)
        ensures
            consumed == top_is_inline_card(old(state)@),
            consumed ==> final(state)@ == spec_inline_card_end(old(state)@),
            !consumed ==> final(state)@ == old(state)@,
    {
        proof {
            lemma_frames_v_props(state.stack@);
        }
        let n = state.stack.len();
        let is_card = n > 0 && matches!(
            &state.stack[n - 1],
            BlockContext::CustomBlock(CustomBlockType::InlineCard, _, _)
        );
        if !is_card {
            return false;
        }
        state.current_text = String::new();
        let ghost stack0 = state.stack@;
        let frame = state.stack.pop().unwrap();
        proof {
            assert(frames_v(stack0).last() == frame_v(frame));
            assert(frames_v(stack0).drop_last() == frames_v(state.stack@));
        }
        match frame {
            BlockContext::CustomBlock(CustomBlockType::InlineCard, _, cattrs) => {
                let href: String = match get_attr(&cattrs, "href") {
                    Option::Some(h) => h,
                    Option::None => String::new(),
                };
                Self::push_node_to_parent(
                    state,
                    AdfNode::InlineCard { attrs: InlineCardAttrs { url: Option::Some(href) } },
                );
                proof {
                    assert(final(state)@ =~= spec_inline_card_end(old(state)@));
                }
                true
            },
            _ => {
                proof {
                    assert(false);
                }
                true
            },
        }
    }
}

impl ADFBuilder {
    /// View-preserving copy of an attribute list.
    fn copy_attrs(v: &Vec<Attribute>) -> (r: Vec<Attribute>)
        ensures
            attrs_v(r@) == attrs_v(v@),
    {
        proof {
            lemma_attrs_v_props(v@);
        }
        let mut out: Vec<Attribute> = Vec::new();
        let mut i: usize = 0;
        while i < v.len()
            invariant
                0 <= i <= v.len(),
                attrs_v(out@) == attrs_v(v@.subrange(0, i as int)),
            decreases v.len() - i,
        {
            let ghost pre = v@.subrange(0, i as int);
            let ghost outv = out@;
            let a = Attribute { name: v[i].name.clone(), value: v[i].value.clone() };
            out.push(a);
            proof {
                assert(v@.subrange(0, i + 1).drop_last() =~= pre);
                assert(v@.subrange(0, i + 1).last() == v@[i as int]);
                lemma_attrs_v_push(pre, v@[i as int]);
                lemma_attrs_v_push(outv, a);
            }
            i += 1;
        }
        proof {
            assert(v@.subrange(0, v@.len() as int) =~= v@);
        }
        out
    }

    /// Handles an anchor start outside media and card contexts.
    fn handle_a_start(state: &mut ADFBuilderState, attrs: &Vec<Attribute>)
        ensures
            final(state)@ == spec_a_start(old(state)@, attrs_v(attrs@)),
    {
        Self::flush_text(state);
        let href = get_attr(attrs, "href");
        match href {
            Option::Some(h) => {
                Self::add_mark(
                    state,
                    AdfMark::Link(
                        LinkMark {
                            collection: Option::None,
                            href: h,
                            id: Option::None,
                            occurrence_key: Option::None,
                            title: Option::None,
                        },
                    ),
                );
                proof {
                    assert(final(state)@ =~= spec_a_start(old(state)@, attrs_v(attrs@)));
                }
            },
            Option::None => {},
        }
    }

    /// Handles an inline-code start tag.
    fn handle_code_start(state: &mut ADFBuilderState)
        ensures
            final(state)@ == spec_code_start(old(state)@),
    {
        Self::flush_text(state);
        if !Self::in_pre(&state.stack) {
            Self::add_mark(state, AdfMark::Code);
        }
    }

    /// Handles an inline-code end tag.
    fn handle_code_end(state: &mut ADFBuilderState)
        ensures
            final(state)@ == (if spec_in_pre(spec_flush(old(state)@).stack) {
                spec_flush(old(state)@)
            } else {
                spec_pop_mark(spec_flush(old(state)@), MarkKind::Code)
            }),
    {
        Self::flush_text(state);
        if !Self::in_pre(&state.stack) {
            Self::pop_mark(state, MarkKind::Code);
        }
    }

    /// Handles a span start tag.
    fn handle_span_start(state: &mut ADFBuilderState, attrs: &Vec<Attribute>)
        ensures
            final(state)@ == spec_span_start(old(state)@, attrs_v(attrs@)),
    {
        Self::flush_text(state);
        let style = get_attr(attrs, "style");
        match style {
            Option::Some(st) => {
                let color = crate::text::extract_style(st.as_str(), "color");
                match color {
                    Option::Some(c) => {
                        Self::add_mark(state, AdfMark::TextColor { color: c });
                    },
                    Option::None => {},
                }
                let bg = crate::text::extract_style(st.as_str(), "background-color");
                match bg {
                    Option::Some(b) => {
                        Self::add_mark(state, AdfMark::BackgroundColor { color: b });
                    },
                    Option::None => {},
                }
            },
            Option::None => {},
        }
    }

    /// Handles a paragraph end tag.
    fn handle_p_end(state: &mut ADFBuilderState)
        ensures
            final(state)@ == spec_p_end(old(state)@),
    {
        Self::flush_text(state);
        proof {
            lemma_frames_v_props(state.stack@);
        }
        let n = state.stack.len();
        let migrated = n > 0 && match &state.stack[n - 1] {
            BlockContext::TaskItem(..) => true,
            BlockContext::DecisionItem(..) => true,
            _ => false,
        };
        if !migrated {
            Self::close_current_block(state);
        }
    }

    /// Handles a heading end tag of one level.
    fn handle_heading_end(state: &mut ADFBuilderState, level: u8)
        ensures
            final(state)@ == spec_heading_end(old(state)@, level),
    {
        Self::flush_text(state);
        if state.fault {
            return ;
        }
        proof {
            lemma_frames_v_props(state.stack@);
        }
        if state.stack.len() == 0 {
            state.fault = true;
            return ;
        }
        let n = state.stack.len();
        let lvl_ok = match &state.stack[n - 1] {
            BlockContext::Heading(l, _) => *l == level,
            _ => false,
        };
        if !lvl_ok {
            state.fault = true;
            return ;
        }
        let ghost stack0 = state.stack@;
        let frame = state.stack.pop().unwrap();
        proof {
            assert(frames_v(stack0).last() == frame_v(frame));
            assert(frames_v(stack0).drop_last() == frames_v(state.stack@));
        }
        match frame {
            BlockContext::Heading(l, nodes) => {
                Self::push_node_block_to_parent(
                    state,
                    AdfBlockNode::Heading {
                        attrs: HeadingAttrs { level: l },
                        content: Option::Some(nodes),
                    },
                );
                proof {
                    assert(final(state)@ =~= spec_heading_end(old(state)@, level));
                }
            },
            _ => {
                proof {
                    assert(false);
                }
            },
        }
    }

    /// Handles a table end tag.
    fn handle_table_end(state: &mut ADFBuilderState)
        ensures
            final(state)@ == spec_table_end(old(state)@),
    {
        Self::flush_text(state);
        if state.fault {
            return ;
        }
        proof {
            lemma_frames_v_props(state.stack@);
        }
        let n = state.stack.len();
        let is_table = n > 0 && matches!(&state.stack[n - 1], BlockContext::TableBlock(_));
        if !is_table {
            return ;
        }
        let ghost stack0 = state.stack@;
        let frame = state.stack.pop().unwrap();
        proof {
            assert(frames_v(stack0).last() == frame_v(frame));
            assert(frames_v(stack0).drop_last() == frames_v(state.stack@));
        }
        match frame {
            BlockContext::TableBlock(rows) => {
                Self::push_node_block_to_parent(
                    state,
                    AdfBlockNode::Table { attrs: Option::None, content: rows },
                );
                proof {
                    assert(final(state)@ =~= spec_table_end(old(state)@));
                }
            },
            _ => {
                proof {
                    assert(false);
                }
            },
        }
    }

    /// Handles a date element's end tag.
    fn handle_time_end(state: &mut ADFBuilderState)
        ensures
            final(state)@ == spec_time_end(old(state)@),
    {
        Self::flush_text(state);
        if state.fault {
            return ;
        }
        proof {
            lemma_frames_v_props(state.stack@);
        }
        if state.stack.len() == 0 {
            state.fault = true;
            return ;
        }
        let n = state.stack.len();
        let is_date = matches!(
            &state.stack[n - 1],
            BlockContext::CustomBlock(CustomBlockType::Date, _, _)
        );
        if !is_date {
            state.fault = true;
            return ;
        }
        let ghost stack0 = state.stack@;
        let frame = state.stack.pop().unwrap();
        proof {
            assert(frames_v(stack0).last() == frame_v(frame));
            assert(frames_v(stack0).drop_last() == frames_v(state.stack@));
        }
        match frame {
            BlockContext::CustomBlock(CustomBlockType::Date, _, cattrs) => {
                let ts: String = match get_attr(&cattrs, "datetime") {
                    Option::Some(t) => t,
                    Option::None => String::new(),
                };
                let ms = rfc3339_to_millis(ts.as_str());
                let stamp = format_i64(ms);
                Self::push_node_to_parent(
                    state,
                    AdfNode::Date { attrs: DateAttrs { timestamp: stamp } },
                );
                proof {
                    assert(final(state)@ =~= spec_time_end(old(state)@));
                }
            },
            _ => {
                proof {
                    assert(false);
                }
            },
        }
    }

    /// Handles the end of an expand or nested-expand element.
    fn handle_details_end(state: &mut ADFBuilderState)
        ensures
            final(state)@ == spec_details_end(old(state)@),
    {
        Self::flush_text(state);
        if state.fault {
            return ;
        }
        proof {
            lemma_frames_v_props(state.stack@);
        }
        if state.stack.len() == 0 {
            state.fault = true;
            return ;
        }
        let n = state.stack.len();
        let kind: u8 = match &state.stack[n - 1] {
            BlockContext::CustomBlock(CustomBlockType::Expand, _, _) => 1,
            BlockContext::CustomBlock(CustomBlockType::NestedExpand, _, _) => 2,
            _ => 0,
        };
        if kind == 0 {
            state.fault = true;
            return ;
        }
        let ghost stack0 = state.stack@;
        let frame = state.stack.pop().unwrap();
        proof {
            assert(frames_v(stack0).last() == frame_v(frame));
            assert(frames_v(stack0).drop_last() == frames_v(state.stack@));
        }
        match frame {
            BlockContext::CustomBlock(CustomBlockType::Expand, nodes, cattrs) => {
                let title0: String = match get_attr(&cattrs, "data-summary") {
                    Option::Some(t) => t,
                    Option::None => String::new(),
                };
                let title: Option<String> = if title0.as_str().is_empty() {
                    Option::None
                } else {
                    Option::Some(title0)
                };
                Self::push_node_block_to_parent(
                    state,
                    AdfBlockNode::Expand { content: nodes, attrs: ExpandAttrs { title } },
                );
                proof {
                    assert(final(state)@ =~= spec_details_end(old(state)@));
                }
            },
            BlockContext::CustomBlock(CustomBlockType::NestedExpand, nodes, cattrs) => {
                let title: String = match get_attr(&cattrs, "data-summary") {
                    Option::Some(t) => t,
                    Option::None => String::new(),
                };
                Self::push_node_block_to_parent(
                    state,
                    AdfBlockNode::NestedExpand { attrs: NestedAttrs { title }, content: nodes },
                );
                proof {
                    assert(final(state)@ =~= spec_details_end(old(state)@));
                }
            },
            _ => {
                proof {
                    assert(false);
                }
            },
        }
    }

    /// Handles the end of a panel element.
    fn handle_figure_end(state: &mut ADFBuilderState)
        ensures
            final(state)@ == spec_figure_end(old(state)@),
    {
        Self::flush_text(state);
        if state.fault {
            return ;
        }
        proof {
            lemma_frames_v_props(state.stack@);
        }
        if state.stack.len() == 0 {
            state.fault = true;
            return ;
        }
        let n = state.stack.len();
        let is_panel = matches!(
            &state.stack[n - 1],
            BlockContext::CustomBlock(CustomBlockType::Panel, _, _)
        );
        if !is_panel {
            state.fault = true;
            return ;
        }
        let ghost stack0 = state.stack@;
        let frame = state.stack.pop().unwrap();
        proof {
            assert(frames_v(stack0).last() == frame_v(frame));
            assert(frames_v(stack0).drop_last() == frames_v(state.stack@));
        }
        match frame {
            BlockContext::CustomBlock(CustomBlockType::Panel, nodes, cattrs) => {
                let panel_type: String = match get_attr(&cattrs, "data-panel-type") {
                    Option::Some(t) => t,
                    Option::None => String::from_str("info"),
                };
                Self::push_node_block_to_parent(
                    state,
                    AdfBlockNode::Panel { attrs: PanelAttrs { panel_type }, content: nodes },
                );
                proof {
                    assert(final(state)@ =~= spec_figure_end(old(state)@));
                }
            },
            _ => {
                proof {
                    assert(false);
                }
            },
        }
    }

    /// Handles the end of a summary element.
    fn handle_summary_end(state: &mut ADFBuilderState)
        ensures
            final(state)@ == spec_summary_end(old(state)@),
    {
        if state.fault {
            return ;
        }
        let t: String = trim_str(state.current_text.as_str()).to_owned();
        state.current_text = String::new();
        let _ = Self::set_summary(&mut state.stack, t.as_str());
        proof {
            assert(state@ =~= spec_summary_end(old(state)@));
        }
    }

    /// Handles the end of a status chip.
    fn handle_status_end(state: &mut ADFBuilderState)
        ensures
            final(state)@ == spec_status_end(old(state)@),
    {
        if state.fault {
            return ;
        }
        proof {
            lemma_frames_v_props(state.stack@);
        }
        if state.stack.len() == 0 {
            state.fault = true;
            return ;
        }
        let n = state.stack.len();
        let is_status = matches!(
            &state.stack[n - 1],
            BlockContext::CustomBlock(CustomBlockType::Status, _, _)
        );
        if !is_status {
            state.fault = true;
            return ;
        }
        let text: String = trim_str(state.current_text.as_str()).to_owned();
        state.current_text = String::new();
        let ghost stack0 = state.stack@;
        let frame = state.stack.pop().unwrap();
        proof {
            assert(frames_v(stack0).last() == frame_v(frame));
            assert(frames_v(stack0).drop_last() == frames_v(state.stack@));
        }
        match frame {
            BlockContext::CustomBlock(CustomBlockType::Status, _, cattrs) => {
                let color: String = match get_attr(&cattrs, "style") {
                    Option::Some(st) => match crate::text::extract_style(
                        st.as_str(),
                        "background-color",
                    ) {
                        Option::Some(c) => c,
                        Option::None => String::from_str("neutral"),
                    },
                    Option::None => String::from_str("neutral"),
                };
                let local_id = get_attr(&cattrs, "aria-label");
                Self::push_node_to_parent(
                    state,
                    AdfNode::Status { attrs: StatusAttrs { local_id, text, color } },
                );
                proof {
                    assert(final(state)@ =~= spec_status_end(old(state)@));
                }
            },
            _ => {
                proof {
                    assert(false);
                }
            },
        }
    }

    /// Handles the end of an emoji element.
    fn handle_emoji_end(state: &mut ADFBuilderState)
        ensures
            final(state)@ == spec_emoji_end(old(state)@),
    {
        if state.fault {
            return ;
        }
        proof {
            lemma_frames_v_props(state.stack@);
        }
        if state.stack.len() == 0 {
            state.fault = true;
            return ;
        }
        let n = state.stack.len();
        let is_emoji = matches!(
            &state.stack[n - 1],
            BlockContext::CustomBlock(CustomBlockType::Emoji, _, _)
        );
        if !is_emoji {
            state.fault = true;
            return ;
        }
        let text: String = trim_str(state.current_text.as_str()).to_owned();
        state.current_text = String::new();
        let ghost stack0 = state.stack@;
        let frame = state.stack.pop().unwrap();
        proof {
            assert(frames_v(stack0).last() == frame_v(frame));
            assert(frames_v(stack0).drop_last() == frames_v(state.stack@));
        }
        match frame {
            BlockContext::CustomBlock(CustomBlockType::Emoji, _, cattrs) => {
                let short_name: String = match get_attr(&cattrs, "aria-alt") {
                    Option::Some(v) => v,
                    Option::None => String::from_str(":smile:"),
                };
                Self::push_node_to_parent(
                    state,
                    AdfNode::Emoji {
                        attrs: EmojiAttrs { short_name, text: Option::Some(text) },
                    },
                );
                proof {
                    assert(final(state)@ =~= spec_emoji_end(old(state)@));
                }
            },
            _ => {
                proof {
                    assert(false);
                }
            },
        }
    }

    /// Maps the serialized user-type attribute value to its variant.
    fn map_user_type(v: &str) -> (r: Option<UserType>)
        ensures
            r == user_type_of(v@),
    {
        if str_eq(v, "DEFAULT") {
            Option::Some(UserType::Standard)
        } else if str_eq(v, "SPECIAL") {
            Option::Some(UserType::Special)
        } else if str_eq(v, "APP") {
            Option::Some(UserType::App)
        } else {
            Option::None
        }
    }

    /// Maps the serialized access-level attribute value to its variant.
    fn map_access_level(v: &str) -> (r: Option<AccessLevel>)
        ensures
            r == access_level_of(v@),
    {
        if str_eq(v, "NONE") {
            Option::Some(AccessLevel::NoAccess)
        } else if str_eq(v, "SITE") {
            Option::Some(AccessLevel::Site)
        } else if str_eq(v, "APPLICATION") {
            Option::Some(AccessLevel::Application)
        } else {
            Option::None
        }
    }

    /// Handles the end of a mention element.
    fn handle_mention_end(state: &mut ADFBuilderState)
        ensures
            final(state)@ == spec_mention_end(old(state)@),
    {
        if state.fault {
            return ;
        }
        proof {
            lemma_frames_v_props(state.stack@);
        }
        if state.stack.len() == 0 {
            state.fault = true;
            return ;
        }
        let n = state.stack.len();
        let is_mention = matches!(
            &state.stack[n - 1],
            BlockContext::CustomBlock(CustomBlockType::Mention, _, _)
        );
        if !is_mention {
            state.fault = true;
            return ;
        }
        let text0: String = trim_str(state.current_text.as_str()).to_owned();
        state.current_text = String::new();
        let ghost stack0 = state.stack@;
        let frame = state.stack.pop().unwrap();
        proof {
            assert(frames_v(stack0).last() == frame_v(frame));
            assert(frames_v(stack0).drop_last() == frames_v(state.stack@));
        }
        match frame {
            BlockContext::CustomBlock(CustomBlockType::Mention, _, cattrs) => {
                let id: String = match get_attr(&cattrs, "data-mention-id") {
                    Option::Some(v) => v,
                    Option::None => String::new(),
                };
                let user_type: Option<UserType> = match get_attr(&cattrs, "data-user-type") {
                    Option::Some(v) => Self::map_user_type(v.as_str()),
                    Option::None => Option::None,
                };
                let access_level: Option<AccessLevel> = match get_attr(
                    &cattrs,
                    "data-access-level",
                ) {
                    Option::Some(v) => Self::map_access_level(v.as_str()),
                    Option::None => Option::None,
                };
                let text: Option<String> = if text0.as_str().is_empty() {
                    Option::None
                } else {
                    Option::Some(text0)
                };
                Self::push_node_to_parent(
                    state,
                    AdfNode::Mention {
                        attrs: MentionAttrs { access_level, id, text, user_type },
                    },
                );
                proof {
                    assert(final(state)@ =~= spec_mention_end(old(state)@));
                }
            },
            _ => {
                proof {
                    assert(false);
                }
            },
        }
    }

    /// Handles the end of a media-single element.
    fn handle_media_single_end(state: &mut ADFBuilderState)
        ensures
            final(state)@ == spec_media_single_end(old(state)@),
    {
        Self::flush_text(state);
        if state.fault {
            return ;
        }
        proof {
            lemma_frames_v_props(state.stack@);
        }
        if state.stack.len() == 0 {
            state.fault = true;
            return ;
        }
        let n = state.stack.len();
        let is_single = matches!(
            &state.stack[n - 1],
            BlockContext::MediaBlock(MediaBlockType::MediaSingle, _, _)
        );
        if !is_single {
            state.fault = true;
            return ;
        }
        let has_layout = match &state.stack[n - 1] {
            BlockContext::MediaBlock(MediaBlockType::MediaSingle, _, cattrs) => has_attr(
                cattrs,
                "data-layout",
            ),
            _ => false,
        };
        if !has_layout {
            state.fault = true;
            proof {
                assert(state@ =~= spec_media_single_end(old(state)@));
            }
            return ;
        }
        let ghost stack0 = state.stack@;
        let frame = state.stack.pop().unwrap();
        proof {
            assert(frames_v(stack0).last() == frame_v(frame));
            assert(frames_v(stack0).drop_last() == frames_v(state.stack@));
        }
        match frame {
            BlockContext::MediaBlock(MediaBlockType::MediaSingle, nodes, cattrs) => {
                let layout = get_attr(&cattrs, "data-layout");
                match layout {
                    Option::Some(lay) => {
                        Self::push_node_block_to_parent(
                            state,
                            AdfBlockNode::MediaSingle {
                                attrs: MediaSingleAttrs { layout: lay },
                                content: nodes,
                            },
                        );
                        proof {
                            assert(final(state)@ =~= spec_media_single_end(old(state)@));
                        }
                    },
                    Option::None => {
                        proof {
                            assert(false);
                        }
                    },
                }
            },
            _ => {
                proof {
                    assert(false);
                }
            },
        }
    }

    /// Handles the end of a media-group element.
    fn handle_media_group_end(state: &mut ADFBuilderState)
        ensures
            final(state)@ == spec_media_group_end(old(state)@),
    {
        Self::flush_text(state);
        if state.fault {
            return ;
        }
        proof {
            lemma_frames_v_props(state.stack@);
        }
        if state.stack.len() == 0 {
            state.fault = true;
            return ;
        }
        let n = state.stack.len();
        let is_group = matches!(
            &state.stack[n - 1],
            BlockContext::MediaBlock(MediaBlockType::MediaGroup, _, _)
        );
        if !is_group {
            state.fault = true;
            return ;
        }
        let ghost stack0 = state.stack@;
        let frame = state.stack.pop().unwrap();
        proof {
            assert(frames_v(stack0).last() == frame_v(frame));
            assert(frames_v(stack0).drop_last() == frames_v(state.stack@));
        }
        match frame {
            BlockContext::MediaBlock(MediaBlockType::MediaGroup, nodes, _) => {
                Self::push_node_block_to_parent(
                    state,
                    AdfBlockNode::MediaGroup { content: nodes },
                );
                proof {
                    assert(final(state)@ =~= spec_media_group_end(old(state)@));
                }
            },
            _ => {
                proof {
                    assert(false);
                }
            },
        }
    }
}

impl ADFBuilder {
    /// Whether a block list is a single paragraph of text runs and breaks.
    fn para_inline_only(nodes: &Vec<AdfBlockNode>) -> (r: bool)
        ensures
            r == spec_para_inline_only(blocks_v(nodes@)),
    {
        proof {
            lemma_blocks_v_props(nodes@);
        }
        if nodes.len() != 1 {
            return false;
        }
        match &nodes[0] {
            AdfBlockNode::Paragraph { content: Option::Some(c) } => {
                proof {
                    lemma_inlines_v_props(c@);
                }
                let mut i: usize = 0;
                while i < c.len()
                    invariant
                        0 <= i <= c.len(),
                        nodes@.len() == 1,
                        blocks_v(nodes@).len() == 1,
                        blocks_v(nodes@)[0] == block_v(nodes@[0]),
                        nodes@[0] matches AdfBlockNode::Paragraph { content: Option::Some(cc) }
                            && cc@ == c@,
                        inlines_v(c@).len() == c@.len(),
                        forall|j: int|
                            0 <= j < c@.len() ==> inlines_v(c@)[j] == inline_v(#[trigger] c@[j]),
                        forall|j: int|
                            0 <= j < i ==> ((inlines_v(c@)[j] matches InlineV::Text { .. }) || (
                            #[trigger] inlines_v(c@)[j] matches InlineV::HardBreak)),
                    decreases c.len() - i,
                {
                    let ok = match &c[i] {
                        AdfNode::Text { .. } => true,
                        AdfNode::HardBreak => true,
                        _ => false,
                    };
                    if !ok {
                        proof {
                            assert(!spec_all_text_or_break(inlines_v(c@)));
                        }
                        return false;
                    }
                    i += 1;
                }
                proof {
                    assert(spec_all_text_or_break(inlines_v(c@)));
                }
                true
            },
            _ => false,
        }
    }

    /// Handles the end of a div: empty divs vanish, color-styled inline divs
    /// collapse to a styled text run, and others splice their children into
    /// the parent.
    #[verifier::rlimit(60)]
    fn handle_div_end(state: &mut ADFBuilderState)
        ensures
            final(state)@ == spec_div_end(old(state)@),
    {
        Self::flush_text(state);
        if state.fault {
            return ;
        }
        proof {
            lemma_frames_v_props(state.stack@);
        }
        if state.stack.len() == 0 {
            state.fault = true;
            return ;
        }
        let n = state.stack.len();
        let is_div = matches!(
            &state.stack[n - 1],
            BlockContext::CustomBlock(CustomBlockType::Div, _, _)
        );
        if !is_div {
            state.fault = true;
            return ;
        }
        let ghost s1 = state@;
        let ghost stack0 = state.stack@;
        let frame = state.stack.pop().unwrap();
        proof {
            assert(frames_v(stack0).last() == frame_v(frame));
            assert(frames_v(stack0).drop_last() == frames_v(state.stack@));
        }
        match frame {
            BlockContext::CustomBlock(CustomBlockType::Div, nodes, cattrs) => {
                proof {
                    lemma_blocks_v_props(nodes@);
                }
                if nodes.len() == 0 {
                    proof {
                        assert(state@ =~= spec_div_end(old(state)@));
                    }
                    return ;
                }
                let color: Option<String> = match get_attr(&cattrs, "style") {
                    Option::Some(st) => crate::text::extract_style(st.as_str(), "color"),
                    Option::None => Option::None,
                };
                let bg: Option<String> = match get_attr(&cattrs, "style") {
                    Option::Some(st) => crate::text::extract_style(
                        st.as_str(),
                        "background-color",
                    ),
                    Option::None => Option::None,
                };
                let styled = (matches!(&color, Option::Some(_)) || matches!(
                    &bg,
                    Option::Some(_),
                )) && Self::para_inline_only(&nodes);
                if styled {
                    let text = Self::extract_text(&nodes[0]);
                    let mut marks: Vec<AdfMark> = Vec::new();
                    match &color {
                        Option::Some(c) => {
                            let ghost mpre = marks@;
                            marks.push(AdfMark::TextColor { color: c.clone() });
                            proof {
                                lemma_marks_v_push(mpre, marks@.last());
                            }
                        },
                        Option::None => {},
                    }
                    match &bg {
                        Option::Some(b) => {
                            let ghost mpre = marks@;
                            marks.push(AdfMark::BackgroundColor { color: b.clone() });
                            proof {
                                lemma_marks_v_push(mpre, marks@.last());
                            }
                        },
                        Option::None => {},
                    }
                    proof {
                        assert(marks_v(marks@) =~= spec_color_marks(
                            opt_str_v(color),
                            opt_str_v(bg),
                        ));
                    }
                    Self::push_node_to_parent(
                        state,
                        AdfNode::Text { text, marks: Option::Some(marks) },
                    );
                    proof {
                        assert(final(state)@ =~= spec_div_end(old(state)@));
                    }
                } else {
                    let ghost target = spec_splice(state@, blocks_v(nodes@));
                    let mut rest = nodes;
                    loop
                        invariant
                            spec_splice(state@, blocks_v(rest@)) == target,
                        ensures
                            state@ == target,
                        decreases rest@.len(),
                    {
                        proof {
                            lemma_blocks_v_props(rest@);
                        }
                        if rest.len() == 0 {
                            proof {
                                assert(blocks_v(rest@) =~= Seq::<BlockV>::empty());
                            }
                            break ;
                        }
                        let ghost prev = rest@;
                        let b = rest.remove(0);
                        proof {
                            assert(prev.remove(0) =~= prev.subrange(1, prev.len() as int));
                            assert(rest@ =~= prev.subrange(1, prev.len() as int));
                            lemma_blocks_v_props(prev);
                            assert forall|j: int|
                                0 <= j < rest@.len() implies blocks_v(rest@)[j] == blocks_v(
                                prev,
                            )[j + 1] by {
                                lemma_blocks_v_props(rest@);
                                assert(rest@[j] == prev[j + 1]);
                            }
                            lemma_blocks_v_props(rest@);
                            assert(blocks_v(rest@) =~= blocks_v(prev).subrange(
                                1,
                                blocks_v(prev).len() as int,
                            ));
                            assert(blocks_v(prev)[0] == block_v(b));
                        }
                        Self::push_node_block_to_parent(state, b);
                    }
                    proof {
                        assert(state@ =~= spec_div_end(old(state)@));
                    }
                }
            },
            _ => {
                proof {
                    assert(false);
                }
            },
        }
    }

    /// Feeds one lexical event into the builder.
    #[verifier::rlimit(100)]
    pub fn process_event(&mut self, ev: HtmlEvent)
        ensures
            final(self)@ == spec_step(old(self)@, ev@),
    {
        if self.state.fault {
            return ;
        }
        match ev {
            HtmlEvent::Characters(t) => {
                self.state.current_text.append(t.as_str());
                proof {
                    assert(self.state@ =~= spec_step(old(self)@, ev@));
                }
            },
            HtmlEvent::StartTag { name, attrs, self_closing } => {
                let ghost av = attrs_v(attrs@);
                let diag = name.clone();
                let state = &mut self.state;
                if str_eq(name.as_str(), "a") {
                    let consumed = Self::handle_media_card_start(state, true, &attrs);
                    if !consumed {
                        Self::handle_a_start(state, &attrs);
                    }
                } else if str_eq(name.as_str(), "img") {
                    let _ = Self::handle_media_card_start(state, false, &attrs);
                } else if str_eq(name.as_str(), "ul") {
                    Self::handle_ul_start(state);
                } else if str_eq(name.as_str(), "ol") {
                    Self::flush_text(state);
                    Self::push_frame(
                        state,
                        BlockContext::PendingList {
                            nodes: Vec::new(),
                            ordered: true,
                            local_id: Option::None,
                            local_tag: Option::None,
                        },
                    );
                } else if str_eq(name.as_str(), "li") {
                    Self::flush_text(state);
                    Self::push_frame(state, BlockContext::ListItem(Vec::new()));
                } else if str_eq(name.as_str(), "p") {
                    Self::flush_text(state);
                    Self::push_frame(state, BlockContext::Paragraph(Vec::new()));
                } else if str_eq(name.as_str(), "pre") {
                    Self::flush_text(state);
                    Self::push_frame(state, BlockContext::CodeBlock(String::new()));
                } else if str_eq(name.as_str(), "blockquote") {
                    Self::flush_text(state);
                    Self::push_frame(state, BlockContext::Blockquote(Vec::new()));
                } else if str_eq(name.as_str(), "em") {
                    Self::flush_text(state);
                    Self::add_mark(state, AdfMark::Em);
                } else if str_eq(name.as_str(), "strong") {
                    Self::flush_text(state);
                    Self::add_mark(state, AdfMark::Strong);
                } else if str_eq(name.as_str(), "del") {
                    Self::flush_text(state);
                    Self::add_mark(state, AdfMark::Strike);
                } else if str_eq(name.as_str(), "u") {
                    Self::flush_text(state);
                    Self::add_mark(state, AdfMark::Underline);
                } else if str_eq(name.as_str(), "sub") {
                    Self::flush_text(state);
                    Self::add_mark(state, AdfMark::Subsup { type_: Subsup::Sub });
                } else if str_eq(name.as_str(), "sup") {
                    Self::flush_text(state);
                    Self::add_mark(state, AdfMark::Subsup { type_: Subsup::Sup });
                } else if str_eq(name.as_str(), "code") {
                    Self::handle_code_start(state);
                } else if str_eq(name.as_str(), "div") {
                    Self::flush_text(state);
                    Self::push_frame(
                        state,
                        BlockContext::CustomBlock(CustomBlockType::Div, Vec::new(), attrs),
                    );
                } else if str_eq(name.as_str(), "span") {
                    Self::handle_span_start(state, &attrs);
                } else if str_eq(name.as_str(), "h1") {
                    Self::flush_text(state);
                    Self::push_frame(state, BlockContext::Heading(1, Vec::new()));
                } else if str_eq(name.as_str(), "h2") {
                    Self::flush_text(state);
                    Self::push_frame(state, BlockContext::Heading(2, Vec::new()));
                } else if str_eq(name.as_str(), "h3") {
                    Self::flush_text(state);
                    Self::push_frame(state, BlockContext::Heading(3, Vec::new()));
                } else if str_eq(name.as_str(), "h4") {
                    Self::flush_text(state);
                    Self::push_frame(state, BlockContext::Heading(4, Vec::new()));
                } else if str_eq(name.as_str(), "h5") {
                    Self::flush_text(state);
                    Self::push_frame(state, BlockContext::Heading(5, Vec::new()));
                } else if str_eq(name.as_str(), "h6") {
                    Self::flush_text(state);
                    Self::push_frame(state, BlockContext::Heading(6, Vec::new()));
                } else if str_eq(name.as_str(), "table") {
                    Self::flush_text(state);
                    Self::push_frame(state, BlockContext::TableBlock(Vec::new()));
                } else if str_eq(name.as_str(), "thead") || str_eq(name.as_str(), "tbody") {
                } else if str_eq(name.as_str(), "tr") {
                    Self::flush_text(state);
                    Self::push_frame(state, BlockContext::TableRowBlock(Vec::new()));
                } else if str_eq(name.as_str(), "th") {
                    Self::flush_text(state);
                    Self::push_frame(state, BlockContext::TableBlockHeader(Vec::new()));
                } else if str_eq(name.as_str(), "td") {
                    Self::flush_text(state);
                    Self::push_frame(state, BlockContext::TableBlockCell(Vec::new()));
                } else if str_eq(name.as_str(), "br") {
                    Self::flush_text_and_push_inline(state, AdfNode::HardBreak);
                } else if str_eq(name.as_str(), "hr") {
                    Self::handle_hr(state);
                } else if str_eq(name.as_str(), "time") {
                    Self::flush_text(state);
                    Self::push_frame(
                        state,
                        BlockContext::CustomBlock(CustomBlockType::Date, Vec::new(), attrs),
                    );
                } else if str_eq(name.as_str(), "details") {
                    let nested = has_attr(&attrs, "data-nested");
                    let ty = if nested {
                        CustomBlockType::NestedExpand
                    } else {
                        CustomBlockType::Expand
                    };
                    Self::flush_text(state);
                    Self::push_frame(state, BlockContext::CustomBlock(ty, Vec::new(), attrs));
                } else if str_eq(name.as_str(), "figure") {
                    Self::flush_text(state);
                    Self::push_frame(
                        state,
                        BlockContext::CustomBlock(CustomBlockType::Panel, Vec::new(), attrs),
                    );
                } else if str_eq(name.as_str(), "adf-task-item") {
                    Self::handle_task_item_start(state, &attrs);
                } else if str_eq(name.as_str(), "adf-decision-item") {
                    Self::handle_decision_item_start(state, &attrs);
                } else if str_eq(name.as_str(), "adf-local-data") {
                    let id = get_attr(&attrs, "id");
                    let tag = get_attr(&attrs, "data-tag");
                    state.custom_block_id = match id {
                        Option::Some(i) => Option::Some(LocalId { local_id: i }),
                        Option::None => Option::None,
                    };
                    state.custom_block_tag = tag;
                } else if str_eq(name.as_str(), "adf-status") {
                    Self::flush_text(state);
                    Self::push_frame(
                        state,
                        BlockContext::CustomBlock(CustomBlockType::Status, Vec::new(), attrs),
                    );
                } else if str_eq(name.as_str(), "adf-emoji") {
                    Self::flush_text(state);
                    Self::push_frame(
                        state,
                        BlockContext::CustomBlock(CustomBlockType::Emoji, Vec::new(), attrs),
                    );
                } else if str_eq(name.as_str(), "adf-mention") {
                    Self::flush_text(state);
                    Self::push_frame(
                        state,
                        BlockContext::CustomBlock(CustomBlockType::Mention, Vec::new(), attrs),
                    );
                } else if str_eq(name.as_str(), "adf-media-single") {
                    Self::flush_text(state);
                    Self::push_frame(
                        state,
                        BlockContext::MediaBlock(MediaBlockType::MediaSingle, Vec::new(), attrs),
                    );
                } else if str_eq(name.as_str(), "adf-media-group") {
                    Self::flush_text(state);
                    Self::push_frame(
                        state,
                        BlockContext::MediaBlock(MediaBlockType::MediaGroup, Vec::new(), attrs),
                    );
                }
                proof {
                    assert(self.state@ =~= spec_step_start(old(self)@, name@, av));
                }
                if self.state.fault && self.state.fault_tag.as_str().is_empty() {
                    self.state.fault_tag = diag;
                }
            },
            HtmlEvent::EndTag { name } => {
                let diag = name.clone();
                let state = &mut self.state;
                if str_eq(name.as_str(), "a") {
                    let consumed = Self::handle_inline_card_end(state);
                    if !consumed {
                        Self::flush_text(state);
                        Self::pop_mark(state, MarkKind::Link);
                    }
                } else if str_eq(name.as_str(), "ul") || str_eq(name.as_str(), "ol") || str_eq(
                    name.as_str(),
                    "pre",
                ) || str_eq(name.as_str(), "blockquote") {
                    Self::flush_text(state);
                    Self::close_current_block(state);
                } else if str_eq(name.as_str(), "li") {
                    Self::close_current_list_item(state);
                } else if str_eq(name.as_str(), "p") {
                    Self::handle_p_end(state);
                } else if str_eq(name.as_str(), "em") {
                    Self::flush_text(state);
                    Self::pop_mark(state, MarkKind::Em);
                } else if str_eq(name.as_str(), "strong") {
                    Self::flush_text(state);
                    Self::pop_mark(state, MarkKind::Strong);
                } else if str_eq(name.as_str(), "del") {
                    Self::flush_text(state);
                    Self::pop_mark(state, MarkKind::Strike);
                } else if str_eq(name.as_str(), "u") {
                    Self::flush_text(state);
                    Self::pop_mark(state, MarkKind::Underline);
                } else if str_eq(name.as_str(), "sub") {
                    Self::flush_text(state);
                    Self::pop_mark(state, MarkKind::Sub);
                } else if str_eq(name.as_str(), "sup") {
                    Self::flush_text(state);
                    Self::pop_mark(state, MarkKind::Sup);
                } else if str_eq(name.as_str(), "span") {
                    Self::flush_text(state);
                    Self::pop_mark(state, MarkKind::Color);
                } else if str_eq(name.as_str(), "code") {
                    Self::handle_code_end(state);
                } else if str_eq(name.as_str(), "h1") {
                    Self::handle_heading_end(state, 1);
                } else if str_eq(name.as_str(), "h2") {
                    Self::handle_heading_end(state, 2);
                } else if str_eq(name.as_str(), "h3") {
                    Self::handle_heading_end(state, 3);
                } else if str_eq(name.as_str(), "h4") {
                    Self::handle_heading_end(state, 4);
                } else if str_eq(name.as_str(), "h5") {
                    Self::handle_heading_end(state, 5);
                } else if str_eq(name.as_str(), "h6") {
                    Self::handle_heading_end(state, 6);
                } else if str_eq(name.as_str(), "table") {
                    Self::handle_table_end(state);
                } else if str_eq(name.as_str(), "thead") || str_eq(name.as_str(), "tbody") {
                } else if str_eq(name.as_str(), "tr") {
                    Self::close_current_table_row(state);
                } else if str_eq(name.as_str(), "td") {
                    Self::close_current_table_cell(state, false);
                } else if str_eq(name.as_str(), "th") {
                    Self::close_current_table_cell(state, true);
                } else if str_eq(name.as_str(), "time") {
                    Self::handle_time_end(state);
                } else if str_eq(name.as_str(), "details") {
                    Self::handle_details_end(state);
                } else if str_eq(name.as_str(), "figure") {
                    Self::handle_figure_end(state);
                } else if str_eq(name.as_str(), "summary") {
                    Self::handle_summary_end(state);
                } else if str_eq(name.as_str(), "div") {
                    Self::handle_div_end(state);
                } else if str_eq(name.as_str(), "adf-status") {
                    Self::handle_status_end(state);
                } else if str_eq(name.as_str(), "adf-emoji") {
                    Self::handle_emoji_end(state);
                } else if str_eq(name.as_str(), "adf-mention") {
                    Self::handle_mention_end(state);
                } else if str_eq(name.as_str(), "adf-media-single") {
                    Self::handle_media_single_end(state);
                } else if str_eq(name.as_str(), "adf-media-group") {
                    Self::handle_media_group_end(state);
                }
                proof {
                    assert(self.state@ =~= spec_step_end(old(self)@, name@));
                }
                if self.state.fault && self.state.fault_tag.as_str().is_empty() {
                    self.state.fault_tag = diag;
                }
            },
        }
    }
}

/// The initial builder state: one open document frame.
pub open spec fn spec_init_state() -> StateV {
    StateV {
        stack: seq![FrameV::Document(Seq::empty())],
        marks: Seq::empty(),
        text: Seq::empty(),
        custom_id: Option::None,
        custom_tag: Option::None,
        fault: false,
    }
}

/// Closing every open frame until only the document remains.
pub open spec fn spec_close_all(s: StateV, fuel: nat) -> StateV
    decreases fuel,
{
    if fuel == 0 || s.fault || s.stack.len() <= 1 {
        s
    } else {
        spec_close_all(spec_close_block(s), (fuel - 1) as nat)
    }
}

/// What emission yields: flush, close everything, and read off the document
/// node; a fault, or anything but a lone document frame, yields nothing.
pub open spec fn spec_build_doc(s: StateV) -> Option<BlockV> {
    let s1 = spec_flush(s);
    let s2 = spec_close_all(s1, s1.stack.len());
    if s2.fault || s2.stack.len() != 1 {
        Option::None
    } else {
        match s2.stack[0] {
            FrameV::Document(content) => Option::Some(
                BlockV::Doc { content, version: 1 },
            ),
            _ => Option::None,
        }
    }
}

/// Running a sequence of events from a state.
pub open spec fn spec_run(s: StateV, evs: Seq<EventV>) -> StateV
    decreases evs.len(),
{
    if evs.len() == 0 {
        s
    } else {
        spec_run(spec_step(s, evs[0]), evs.subrange(1, evs.len() as int))
    }
}

/// View of an event list.
pub open spec fn events_v(s: Seq<HtmlEvent>) -> Seq<EventV>
    decreases s,
{
    if s.len() == 0 {
        Seq::empty()
    } else {
        events_v(s.drop_last()).push(s.last()@)
    }
}

/// What building a whole event stream yields.
pub open spec fn spec_build(evs: Seq<EventV>) -> Option<BlockV> {
    spec_build_doc(spec_run(spec_init_state(), evs))
}

impl ADFBuilder {
    /// Unwinds every still-open frame and yields the finished document, or
    /// the structural fault that poisoned the conversion.
    pub fn emit(self) -> (r: Result<AdfBlockNode, BuildError>)
        ensures
            (match r {
                Result::Ok(d) => spec_build_doc(self@) == Option::Some(d@),
                Result::Err(_) => spec_build_doc(self@) is None,
            }),
    {
        let mut state = self.state;
        proof {
            assert(state@ == self@);
        }
        Self::flush_text(&mut state);
        let ghost s1 = state@;
        let mut fuel: usize = state.stack.len();
        proof {
            lemma_frames_v_props(state.stack@);
            assert(fuel == s1.stack.len());
        }
        loop
            invariant
                s1 == spec_flush(self@),
                spec_close_all(state@, fuel as nat) == spec_close_all(s1, s1.stack.len()),
            ensures
                state@ == spec_close_all(s1, s1.stack.len()),
            decreases fuel,
        {
            proof {
                lemma_frames_v_props(state.stack@);
            }
            if fuel == 0 || state.fault || state.stack.len() <= 1 {
                proof {
                    assert(spec_close_all(state@, fuel as nat) == state@);
                }
                break ;
            }
            let ghost cur = state@;
            Self::close_current_block(&mut state);
            proof {
                assert(spec_close_all(cur, fuel as nat) == spec_close_all(
                    state@,
                    (fuel - 1) as nat,
                ));
            }
            fuel = fuel - 1;
        }
        if state.fault {
            return Result::Err(BuildError { tag: state.fault_tag });
        }
        proof {
            lemma_frames_v_props(state.stack@);
        }
        if state.stack.len() != 1 {
            return Result::Err(BuildError { tag: state.fault_tag });
        }
        let frame = state.stack.pop().unwrap();
        match frame {
            BlockContext::Document(content) => {
                Result::Ok(AdfBlockNode::Doc { content, version: 1 })
            },
            _ => Result::Err(BuildError { tag: String::new() }),
        }
    }

    /// Builds a document from a whole stream of lexical events.
    pub fn build_document(events: Vec<HtmlEvent>) -> (r: Result<AdfBlockNode, BuildError>)
        ensures
            (match r {
                Result::Ok(d) => spec_build(events_v(events@)) == Option::Some(d@),
                Result::Err(_) => spec_build(events_v(events@)) is None,
            }),
    {
        let mut builder = Self::new();
        let ghost all = events_v(events@);
        let mut rest = events;
        proof {
            assert(spec_run(builder@, events_v(rest@)) == spec_run(spec_init_state(), all));
        }
        loop
            invariant
                spec_run(builder@, events_v(rest@)) == spec_run(spec_init_state(), all),
            ensures
                builder@ == spec_run(spec_init_state(), all),
            decreases rest@.len(),
        {
            if rest.len() == 0 {
                proof {
                    assert(events_v(rest@) =~= Seq::<EventV>::empty());
                }
                break ;
            }
            let ghost prev = rest@;
            let ev = rest.remove(0);
            proof {
                assert(rest@ =~= prev.subrange(1, prev.len() as int));
                lemma_events_v_props(prev);
                lemma_events_v_props(rest@);
                assert forall|j: int|
                    0 <= j < rest@.len() implies events_v(rest@)[j] == events_v(prev)[j + 1] by {
                    assert(rest@[j] == prev[j + 1]);
                }
                assert(events_v(rest@) =~= events_v(prev).subrange(
                    1,
                    events_v(prev).len() as int,
                ));
                assert(events_v(prev)[0] == ev@);
            }
            builder.process_event(ev);
        }
        builder.emit()
    }
}

pub proof fn lemma_events_v_props(s: Seq<HtmlEvent>)
    ensures
        events_v(s).len() == s.len(),
        forall|i: int| 0 <= i < s.len() ==> events_v(s)[i] == (#[trigger] s[i])@,
    decreases s.len(),
{
    if s.len() > 0 {
        lemma_events_v_props(s.drop_last());
        assert forall|i: int| 0 <= i < s.len() implies events_v(s)[i] == s[i]@ by {
            if i < s.len() - 1 {
                assert(s.drop_last()[i] == s[i]);
            } else {
                assert(s[i] == s.last());
            }
        }
    }
}

} // verus!
