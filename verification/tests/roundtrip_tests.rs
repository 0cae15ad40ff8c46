//! Round-trip tests: document tree to HTML and back, and the best-effort
//! Markdown leg through the outside conversion engines.

use std::cell::RefCell;

use adf_convert::adf_to_html;
use adf_convert::builder::ADFBuilder;
use adf_convert::event::{Attribute, HtmlEvent};
use adf_convert::model::{
    copy_block, AccessLevel, AdfBlockNode, AdfMark, AdfNode, DateAttrs, DecisionItem,
    DecisionItemAttrs, DecisionItemState, EmojiAttrs, ExpandAttrs, HeadingAttrs, InlineCardAttrs,
    LinkMark, ListItem, LocalId, MediaAttrs, MediaDataType, MediaNode, MediaSingleAttrs,
    MediaType, MentionAttrs, NestedAttrs, PanelAttrs, StatusAttrs, TableRow, TableRowEntry,
    TaskItem, TaskItemAttrs, TaskItemState, UserType,
};

use html5ever::tendril::Tendril;
use html5ever::tokenizer::{
    BufferQueue, Tag, TagKind, Token, TokenSink, TokenSinkResult, Tokenizer, TokenizerOpts,
};
use htmd::element_handler::{HandlerResult, Handlers};
use htmd::{Element, HtmlToMarkdown};
use html5ever::tendril::TendrilSink;

struct EventCollector {
    events: RefCell<Vec<HtmlEvent>>,
}

impl TokenSink for EventCollector {
    type Handle = ();

    fn process_token(&self, token: Token, _line_number: u64) -> TokenSinkResult<Self::Handle> {
        match token {
            Token::TagToken(Tag { kind, name, attrs, self_closing, .. }) => {
                let own_attrs: Vec<Attribute> = attrs
                    .iter()
                    .map(|a| Attribute {
                        name: a.name.local.as_ref().to_string(),
                        value: a.value.to_string(),
                    })
                    .collect();
                let ev = match kind {
                    TagKind::StartTag => HtmlEvent::StartTag {
                        name: name.as_ref().to_string(),
                        attrs: own_attrs,
                        self_closing,
                    },
                    TagKind::EndTag => HtmlEvent::EndTag { name: name.as_ref().to_string() },
                };
                self.events.borrow_mut().push(ev);
            }
            Token::CharacterTokens(t) => {
                self.events
                    .borrow_mut()
                    .push(HtmlEvent::Characters(t.to_string()));
            }
            _ => {}
        }
        TokenSinkResult::Continue
    }
}

fn tokenize_rt(input: &str) -> Vec<HtmlEvent> {
    let queue: BufferQueue = Default::default();
    queue.push_back(Tendril::from_slice(input));
    let sink = EventCollector { events: RefCell::new(Vec::new()) };
    let tok = Tokenizer::new(sink, TokenizerOpts::default());
    while !queue.is_empty() {
        let _ = tok.feed(&queue);
    }
    tok.end();
    tok.sink.events.into_inner()
}

fn html_to_adf(input: &str) -> AdfBlockNode {
    ADFBuilder::build_document(tokenize_rt(input)).expect("conversion fault")
}

fn passthrough(handlers: &dyn Handlers, element: Element) -> Option<HandlerResult> {
    let attrs = element
        .attrs
        .iter()
        .map(|attr| format!("{}=\"{}\"", attr.name.local.as_ref(), attr.value))
        .collect::<Vec<_>>()
        .join(" ");
    let content = handlers.walk_children(element.node).content;
    Some(HandlerResult {
        content: format!("<{0} {1}>{2}</{0}>", element.tag, attrs, content),
        markdown_translated: true,
    })
}

fn html_to_markdown(html: String) -> String {
    let converter = HtmlToMarkdown::builder()
        .add_handler(
            vec![
                "a",
                "span",
                "del",
                "img",
                "time",
                "input",
                "figure",
                "details",
                "summary",
                "adf-emoji",
                "adf-mention",
                "adf-status",
                "adf-media-single",
                "adf-media-group",
                "adf-decision-item",
                "adf-task-item",
                "adf-local-data",
                "adf-block-card",
                "adf-block-card-data-source",
                "adf-block-card-view",
            ],
            passthrough,
        )
        .build();
    converter.convert(&html).unwrap_or_default()
}

fn normalize_html(input: &str) -> String {
    let dom = html5ever::parse_document(markup5ever_rcdom::RcDom::default(), Default::default())
        .from_utf8()
        .read_from(&mut input.as_bytes())
        .unwrap();
    let mut output = Vec::new();
    html5ever::serialize(
        &mut output,
        &markup5ever_rcdom::SerializableHandle::from(dom.document.clone()),
        html5ever::serialize::SerializeOpts::default(),
    )
    .unwrap();
    String::from_utf8(output).unwrap()
}

fn is_block_custom(name: &str) -> bool {
    matches!(name, "details" | "table" | "adf-media-group" | "adf-media-single")
}

/// Drops paragraph tags that directly wrap block-level elements, so the
/// block becomes a sibling instead of a child of the paragraph.
fn hoist_block_paragraphs(events: Vec<HtmlEvent>) -> Vec<HtmlEvent> {
    let mut keep = vec![true; events.len()];
    let mut open_p: Vec<usize> = Vec::new();
    let mut drop_p: Vec<bool> = vec![false; events.len()];
    for (i, ev) in events.iter().enumerate() {
        match ev {
            HtmlEvent::StartTag { name, .. } => {
                if name == "p" {
                    open_p.push(i);
                } else if is_block_custom(name) {
                    if let Some(&j) = open_p.last() {
                        drop_p[j] = true;
                    }
                }
            }
            HtmlEvent::EndTag { name } => {
                if name == "p" {
                    if let Some(j) = open_p.pop() {
                        if drop_p[j] {
                            keep[j] = false;
                            keep[i] = false;
                        }
                    }
                }
            }
            _ => {}
        }
    }
    events
        .into_iter()
        .enumerate()
        .filter_map(|(i, ev)| if keep[i] { Some(ev) } else { None })
        .collect()
}

fn parse_events_to_adf(events: Vec<HtmlEvent>) -> AdfBlockNode {
    ADFBuilder::build_document(hoist_block_paragraphs(events)).expect("conversion fault")
}

fn markdown_to_adf(markdown: &str) -> Option<AdfBlockNode> {
    let parse_options = markdown::ParseOptions::gfm();
    let options = markdown::Options {
        parse: parse_options,
        compile: markdown::CompileOptions {
            allow_any_img_src: true,
            allow_dangerous_html: true,
            allow_dangerous_protocol: true,
            ..Default::default()
        },
    };
    let html = markdown::to_html_with_options(markdown, &options).unwrap_or_default();
    let sanitized = normalize_html(&html);
    Some(parse_events_to_adf(tokenize_rt(&sanitized)))
}

fn adf_to_markdown(adf: &[AdfBlockNode], buf: &str) -> String {
    let copies: Vec<AdfBlockNode> = adf.iter().map(copy_block).collect();
    html_to_markdown(adf_to_html(copies, buf))
}

fn roundtrip_adf_html_adf(adf: &AdfBlockNode) {
    let html = adf_to_html(vec![copy_block(adf)], "");
    let back = html_to_adf(&html);
    assert_eq!(&back, adf, "Failed roundtrip adf -> html -> adf: {html}");
}

fn roundtrip_adf_html_md_html_adf(adf: &AdfBlockNode) {
    let markdown = adf_to_markdown(std::slice::from_ref(adf), "");
    let back = markdown_to_adf(&markdown).unwrap();
    assert_eq!(
        &back, adf,
        "Failed roundtrip adf -> html -> md -> html -> adf: {markdown}"
    );
}

fn text(t: &str) -> AdfNode {
    AdfNode::Text { text: t.into(), marks: None }
}

fn para(t: &str) -> AdfBlockNode {
    AdfBlockNode::Paragraph { content: Some(vec![text(t)]) }
}

#[test]
fn adf_to_html_test_paragraph_roundtrip() {
    let adf = AdfBlockNode::Doc { content: vec![para("Simple text")], version: 1 };
    roundtrip_adf_html_adf(&adf);
    roundtrip_adf_html_md_html_adf(&adf);
}

#[test]
fn adf_to_html_test_heading_roundtrip() {
    let adf = AdfBlockNode::Doc {
        content: vec![AdfBlockNode::Heading {
            attrs: HeadingAttrs { level: 2 },
            content: Some(vec![text("Heading level 2")]),
        }],
        version: 1,
    };
    roundtrip_adf_html_adf(&adf);
    roundtrip_adf_html_md_html_adf(&adf);
}

#[test]
fn adf_to_html_test_panel_roundtrip() {
    let adf = AdfBlockNode::Doc {
        content: vec![AdfBlockNode::Panel {
            attrs: PanelAttrs { panel_type: "info".into() },
            content: vec![para("Inside panel")],
        }],
        version: 1,
    };
    roundtrip_adf_html_adf(&adf);
    roundtrip_adf_html_md_html_adf(&adf);
}

#[test]
fn adf_to_html_test_media_group_roundtrip() {
    let adf = AdfBlockNode::Doc {
        content: vec![AdfBlockNode::MediaGroup {
            content: vec![MediaNode {
                media_type: MediaType::Media,
                attrs: MediaAttrs {
                    alt: Some("Image description".into()),
                    height: None,
                    width: None,
                    id: "media-id".into(),
                    collection: "collection".into(),
                    type_: MediaDataType::File,
                },
                marks: None,
            }],
        }],
        version: 1,
    };
    roundtrip_adf_html_adf(&adf);
    roundtrip_adf_html_md_html_adf(&adf);
}

#[test]
fn adf_to_html_test_media_single_roundtrip() {
    let adf = AdfBlockNode::Doc {
        content: vec![AdfBlockNode::MediaSingle {
            attrs: MediaSingleAttrs { layout: "center".into() },
            content: vec![MediaNode {
                media_type: MediaType::Media,
                attrs: MediaAttrs {
                    alt: None,
                    height: Some(300),
                    width: Some(300),
                    id: "media-id".into(),
                    collection: "collection".into(),
                    type_: MediaDataType::File,
                },
                marks: None,
            }],
        }],
        version: 1,
    };
    roundtrip_adf_html_adf(&adf);
    roundtrip_adf_html_md_html_adf(&adf);
}

#[test]
fn adf_to_html_test_task_list_roundtrip() {
    let adf = AdfBlockNode::Doc {
        content: vec![AdfBlockNode::TaskList {
            attrs: LocalId { local_id: "task-list-1".into() },
            content: vec![
                TaskItem::new(
                    vec![text("Task item")],
                    TaskItemAttrs { local_id: "item-1".into(), state: TaskItemState::Todo },
                ),
                TaskItem::new(
                    vec![text("Task item 2")],
                    TaskItemAttrs { local_id: "item-2".into(), state: TaskItemState::Done },
                ),
            ],
        }],
        version: 1,
    };
    roundtrip_adf_html_adf(&adf);
    roundtrip_adf_html_md_html_adf(&adf);
}

#[test]
fn adf_to_html_test_status_emoji_roundtrip() {
    let adf = AdfBlockNode::Doc {
        content: vec![AdfBlockNode::Paragraph {
            content: Some(vec![
                AdfNode::Status {
                    attrs: StatusAttrs {
                        text: "Done".into(),
                        color: "green".into(),
                        local_id: Some("status-1".into()),
                    },
                },
                AdfNode::Emoji {
                    attrs: EmojiAttrs {
                        text: Some("😄".into()),
                        short_name: ":smile:".into(),
                    },
                },
            ]),
        }],
        version: 1,
    };
    roundtrip_adf_html_adf(&adf);
    roundtrip_adf_html_md_html_adf(&adf);
}

#[test]
fn test_expand_roundtrip() {
    let adf = AdfBlockNode::Doc {
        content: vec![AdfBlockNode::Expand {
            attrs: ExpandAttrs { title: Some("Expand Title".into()) },
            content: vec![para("Expandable content")],
        }],
        version: 1,
    };
    roundtrip_adf_html_adf(&adf);
    roundtrip_adf_html_md_html_adf(&adf);
}

#[test]
fn test_nested_expand_roundtrip() {
    let adf = AdfBlockNode::Doc {
        content: vec![AdfBlockNode::NestedExpand {
            attrs: NestedAttrs { title: "Nested Title".into() },
            content: vec![para("Nested content")],
        }],
        version: 1,
    };
    roundtrip_adf_html_adf(&adf);
    roundtrip_adf_html_md_html_adf(&adf);
}

#[test]
fn test_date_roundtrip() {
    let adf = AdfBlockNode::Doc {
        content: vec![AdfBlockNode::Paragraph {
            content: Some(vec![AdfNode::Date {
                attrs: DateAttrs { timestamp: "1700000000".into() },
            }]),
        }],
        version: 1,
    };
    roundtrip_adf_html_adf(&adf);
    roundtrip_adf_html_md_html_adf(&adf);
}

#[test]
fn test_mention_roundtrip() {
    let adf = AdfBlockNode::Doc {
        content: vec![AdfBlockNode::Paragraph {
            content: Some(vec![AdfNode::Mention {
                attrs: MentionAttrs {
                    id: "user-1".into(),
                    text: Some("Mentioned User".into()),
                    access_level: Some(AccessLevel::Site),
                    user_type: Some(UserType::App),
                },
            }]),
        }],
        version: 1,
    };
    roundtrip_adf_html_adf(&adf);
    roundtrip_adf_html_md_html_adf(&adf);
}

#[test]
fn test_inline_card_roundtrip() {
    let adf = AdfBlockNode::Doc {
        content: vec![AdfBlockNode::Paragraph {
            content: Some(vec![AdfNode::InlineCard {
                attrs: InlineCardAttrs { url: Some("https://example.com".into()) },
            }]),
        }],
        version: 1,
    };
    roundtrip_adf_html_adf(&adf);
    roundtrip_adf_html_md_html_adf(&adf);
}

#[test]
fn test_rule_roundtrip() {
    let adf = AdfBlockNode::Doc { content: vec![AdfBlockNode::Rule], version: 1 };
    roundtrip_adf_html_adf(&adf);
    roundtrip_adf_html_md_html_adf(&adf);
}

#[test]
fn test_bullet_list_roundtrip() {
    let adf = AdfBlockNode::Doc {
        content: vec![AdfBlockNode::BulletList {
            content: vec![
                ListItem::new(vec![para("Bullet 1")]),
                ListItem::new(vec![para("Bullet 2")]),
            ],
        }],
        version: 1,
    };
    roundtrip_adf_html_adf(&adf);
    roundtrip_adf_html_md_html_adf(&adf);
}

#[test]
fn test_ordered_list_roundtrip() {
    let adf = AdfBlockNode::Doc {
        content: vec![AdfBlockNode::OrderedList {
            content: vec![
                ListItem::new(vec![para("Ordered 1")]),
                ListItem::new(vec![para("Ordered 2")]),
            ],
            attrs: None,
        }],
        version: 1,
    };
    roundtrip_adf_html_adf(&adf);
    roundtrip_adf_html_md_html_adf(&adf);
}

#[test]
fn test_blockquote_roundtrip() {
    let adf = AdfBlockNode::Doc {
        content: vec![AdfBlockNode::Blockquote { content: vec![para("Blockquoted text")] }],
        version: 1,
    };
    roundtrip_adf_html_adf(&adf);
    roundtrip_adf_html_md_html_adf(&adf);
}

#[test]
fn test_codeblock_roundtrip() {
    let adf = AdfBlockNode::Doc {
        content: vec![AdfBlockNode::CodeBlock {
            attrs: None,
            content: Some(vec![text("let x = 42;\n")]),
        }],
        version: 1,
    };
    roundtrip_adf_html_adf(&adf);
    roundtrip_adf_html_md_html_adf(&adf);
}

#[test]
fn test_hardbreak_roundtrip() {
    let adf = AdfBlockNode::Doc {
        content: vec![AdfBlockNode::Paragraph {
            content: Some(vec![text("Line one"), AdfNode::HardBreak, text("Line two")]),
        }],
        version: 1,
    };
    roundtrip_adf_html_adf(&adf);
    roundtrip_adf_html_md_html_adf(&adf);
}

#[test]
fn test_decision_list_roundtrip() {
    let adf = AdfBlockNode::Doc {
        content: vec![AdfBlockNode::DecisionList {
            attrs: LocalId { local_id: "decision-list-1".into() },
            content: vec![DecisionItem::new(
                vec![text("Decision content")],
                DecisionItemAttrs { state: DecisionItemState, local_id: "item-1".into() },
            )],
        }],
        version: 1,
    };
    roundtrip_adf_html_adf(&adf);
    roundtrip_adf_html_md_html_adf(&adf);
}

#[test]
fn test_table_roundtrip() {
    let adf = AdfBlockNode::Doc {
        content: vec![AdfBlockNode::Table {
            attrs: None,
            content: vec![
                TableRow::new(vec![TableRowEntry::new_table_header(
                    vec![para("Header")],
                    None,
                )]),
                TableRow::new(vec![TableRowEntry::new_table_cell(vec![para("Cell")], None)]),
            ],
        }],
        version: 1,
    };
    roundtrip_adf_html_adf(&adf);
    roundtrip_adf_html_md_html_adf(&adf);
}

#[test]
fn test_full_doc_with_header_paragraph_list_table() {
    let adf = AdfBlockNode::Doc {
        content: vec![
            AdfBlockNode::Heading {
                attrs: HeadingAttrs { level: 1 },
                content: Some(vec![text("Document Title")]),
            },
            para("Introductory paragraph."),
            AdfBlockNode::BulletList {
                content: vec![
                    ListItem::new(vec![para("Item 1")]),
                    ListItem::new(vec![para("Item 2")]),
                ],
            },
            AdfBlockNode::Table {
                attrs: None,
                content: vec![
                    TableRow::new(vec![
                        TableRowEntry::new_table_header(vec![para("Header 1")], None),
                        TableRowEntry::new_table_header(vec![para("Header 2")], None),
                    ]),
                    TableRow::new(vec![
                        TableRowEntry::new_table_cell(vec![para("Cell 1")], None),
                        TableRowEntry::new_table_cell(vec![para("Cell 2")], None),
                    ]),
                ],
            },
        ],
        version: 1,
    };
    roundtrip_adf_html_adf(&adf);
    roundtrip_adf_html_md_html_adf(&adf);
}

#[test]
fn test_full_doc_with_decision_status_panel() {
    let adf = AdfBlockNode::Doc {
        content: vec![
            AdfBlockNode::DecisionList {
                attrs: LocalId { local_id: "decision-1".into() },
                content: vec![DecisionItem::new(
                    vec![text("We will proceed.")],
                    DecisionItemAttrs { state: DecisionItemState, local_id: "item-1".into() },
                )],
            },
            AdfBlockNode::Paragraph {
                content: Some(vec![AdfNode::Status {
                    attrs: StatusAttrs {
                        text: "Approved".into(),
                        color: "green".into(),
                        local_id: Some("status-1".into()),
                    },
                }]),
            },
            AdfBlockNode::Panel {
                attrs: PanelAttrs { panel_type: "warning".into() },
                content: vec![para("This is important context.")],
            },
        ],
        version: 1,
    };
    roundtrip_adf_html_adf(&adf);
    roundtrip_adf_html_md_html_adf(&adf);
}

#[test]
fn test_full_doc_with_media_inline_expand() {
    let adf = AdfBlockNode::Doc {
        content: vec![
            AdfBlockNode::Paragraph {
                content: Some(vec![AdfNode::InlineCard {
                    attrs: InlineCardAttrs { url: Some("https://example.com".into()) },
                }]),
            },
            AdfBlockNode::MediaGroup {
                content: vec![MediaNode {
                    media_type: MediaType::Media,
                    attrs: MediaAttrs {
                        alt: Some("Diagram".into()),
                        height: None,
                        width: None,
                        id: "media-id".into(),
                        collection: "collection".into(),
                        type_: MediaDataType::File,
                    },
                    marks: None,
                }],
            },
            AdfBlockNode::Expand {
                attrs: ExpandAttrs { title: Some("See more".into()) },
                content: vec![para("Hidden details.")],
            },
        ],
        version: 1,
    };
    roundtrip_adf_html_adf(&adf);
    roundtrip_adf_html_md_html_adf(&adf);
}

#[test]
fn test_paragraph_with_mixed_inline() {
    let adf = AdfBlockNode::Doc {
        content: vec![AdfBlockNode::Paragraph {
            content: Some(vec![
                text("Hello "),
                AdfNode::Emoji {
                    attrs: EmojiAttrs { text: Some("😄".into()), short_name: ":smile:".into() },
                },
                AdfNode::Mention {
                    attrs: MentionAttrs {
                        id: "user-1".into(),
                        text: Some("User".into()),
                        access_level: None,
                        user_type: None,
                    },
                },
                AdfNode::Text {
                    text: "link".into(),
                    marks: Some(vec![AdfMark::Link(LinkMark {
                        href: "https://example.com".into(),
                        ..Default::default()
                    })]),
                },
                AdfNode::Status {
                    attrs: StatusAttrs {
                        text: "In Progress".into(),
                        color: "blue".into(),
                        local_id: Some("status-1".into()),
                    },
                },
                AdfNode::InlineCard {
                    attrs: InlineCardAttrs { url: Some("https://card.com".into()) },
                },
            ]),
        }],
        version: 1,
    };
    roundtrip_adf_html_adf(&adf);
    roundtrip_adf_html_md_html_adf(&adf);
}

#[test]
fn test_nested_expand_inside_panel() {
    let adf = AdfBlockNode::Doc {
        content: vec![AdfBlockNode::Panel {
            attrs: PanelAttrs { panel_type: "info".into() },
            content: vec![
                para("Intro panel"),
                AdfBlockNode::Expand {
                    attrs: ExpandAttrs { title: Some("Expand inside panel".into()) },
                    content: vec![para("More details")],
                },
            ],
        }],
        version: 1,
    };
    roundtrip_adf_html_adf(&adf);
    roundtrip_adf_html_md_html_adf(&adf);
}

#[test]
fn test_mixed_decision_and_task_lists() {
    let adf = AdfBlockNode::Doc {
        content: vec![
            AdfBlockNode::TaskList {
                attrs: LocalId { local_id: "task-list".into() },
                content: vec![
                    TaskItem::new(
                        vec![text("First task")],
                        TaskItemAttrs { local_id: "task-1".into(), state: TaskItemState::Todo },
                    ),
                    TaskItem::new(
                        vec![text("Second task")],
                        TaskItemAttrs { local_id: "task-2".into(), state: TaskItemState::Done },
                    ),
                ],
            },
            AdfBlockNode::DecisionList {
                attrs: LocalId { local_id: "decision-list".into() },
                content: vec![
                    DecisionItem::new(
                        vec![text("Agreed decision")],
                        DecisionItemAttrs {
                            state: DecisionItemState,
                            local_id: "decision-1".into(),
                        },
                    ),
                    DecisionItem::new(
                        vec![text("Pending decision")],
                        DecisionItemAttrs {
                            state: DecisionItemState,
                            local_id: "decision-2".into(),
                        },
                    ),
                ],
            },
        ],
        version: 1,
    };
    roundtrip_adf_html_adf(&adf);
    roundtrip_adf_html_md_html_adf(&adf);
}

#[test]
fn test_table_with_complex_content() {
    let adf = AdfBlockNode::Doc {
        content: vec![AdfBlockNode::Table {
            attrs: None,
            content: vec![
                TableRow::new(vec![
                    TableRowEntry::new_table_header(
                        vec![AdfBlockNode::Paragraph {
                            content: Some(vec![
                                AdfNode::Text {
                                    text: "Bold header".into(),
                                    marks: Some(vec![AdfMark::Strong]),
                                },
                                AdfNode::Emoji {
                                    attrs: EmojiAttrs {
                                        text: Some("📊".into()),
                                        short_name: ":bar_chart:".into(),
                                    },
                                },
                            ]),
                        }],
                        None,
                    ),
                    TableRowEntry::new_table_header(vec![para("Plain header")], None),
                ]),
                TableRow::new(vec![
                    TableRowEntry::new_table_cell(
                        vec![AdfBlockNode::Paragraph {
                            content: Some(vec![
                                text("Line 1 "),
                                AdfNode::Text {
                                    text: "Line 2".into(),
                                    marks: Some(vec![AdfMark::Strong]),
                                },
                            ]),
                        }],
                        None,
                    ),
                    TableRowEntry::new_table_cell(
                        vec![AdfBlockNode::Paragraph {
                            content: Some(vec![AdfNode::InlineCard {
                                attrs: InlineCardAttrs {
                                    url: Some("https://inline.cell".into()),
                                },
                            }]),
                        }],
                        None,
                    ),
                ]),
            ],
        }],
        version: 1,
    };
    roundtrip_adf_html_adf(&adf);
    roundtrip_adf_html_md_html_adf(&adf);
}

#[test]
fn test_complex_blockquote() {
    let adf = AdfBlockNode::Doc {
        content: vec![AdfBlockNode::Blockquote {
            content: vec![
                para("Intro quote"),
                AdfBlockNode::OrderedList {
                    content: vec![
                        ListItem::new(vec![para("List item 1")]),
                        ListItem::new(vec![para("List item 2")]),
                    ],
                    attrs: None,
                },
                AdfBlockNode::CodeBlock {
                    content: Some(vec![text("let x = 10;\n")]),
                    attrs: None,
                },
            ],
        }],
        version: 1,
    };
    roundtrip_adf_html_adf(&adf);
    roundtrip_adf_html_md_html_adf(&adf);
}

#[test]
fn test_full_document_comprehensive() {
    let adf = AdfBlockNode::Doc {
        content: vec![
            AdfBlockNode::Heading {
                attrs: HeadingAttrs { level: 1 },
                content: Some(vec![text("Comprehensive Doc")]),
            },
            AdfBlockNode::Paragraph {
                content: Some(vec![
                    AdfNode::Text {
                        text: " Mixed content paragraph ".into(),
                        marks: Some(vec![AdfMark::TextColor { color: "blue".into() }]),
                    },
                    AdfNode::Emoji {
                        attrs: EmojiAttrs { text: Some("🎉".into()), short_name: ":tada:".into() },
                    },
                    AdfNode::Status {
                        attrs: StatusAttrs {
                            text: "Done".into(),
                            color: "green".into(),
                            local_id: Some("status-4".into()),
                        },
                    },
                ]),
            },
            AdfBlockNode::Rule,
            AdfBlockNode::MediaGroup {
                content: vec![MediaNode {
                    media_type: MediaType::Media,
                    attrs: MediaAttrs {
                        alt: Some("Diagram".into()),
                        collection: "collection".into(),
                        height: Some(200),
                        id: "media-1".into(),
                        type_: MediaDataType::File,
                        width: Some(300),
                    },
                    marks: None,
                }],
            },
            AdfBlockNode::Expand {
                attrs: ExpandAttrs { title: Some("Expand Block".into()) },
                content: vec![AdfBlockNode::Paragraph {
                    content: Some(vec![AdfNode::Text {
                        text: "Expandable content. ".into(),
                        marks: Some(vec![
                            AdfMark::BackgroundColor { color: "#000".into() },
                            AdfMark::TextColor { color: "#fff".into() },
                        ]),
                    }]),
                }],
            },
            AdfBlockNode::Table {
                attrs: None,
                content: vec![
                    TableRow::new(vec![TableRowEntry::new_table_header(
                        vec![para("Header 1")],
                        None,
                    )]),
                    TableRow::new(vec![TableRowEntry::new_table_cell(
                        vec![para("Cell 1")],
                        None,
                    )]),
                ],
            },
            AdfBlockNode::Blockquote { content: vec![para("Quote in block")] },
        ],
        version: 1,
    };
    roundtrip_adf_html_adf(&adf);
    roundtrip_adf_html_md_html_adf(&adf);
}

#[test]
fn test_header_with_emoji() {
    let adf = AdfBlockNode::Doc {
        content: vec![AdfBlockNode::Heading {
            attrs: HeadingAttrs { level: 1 },
            content: Some(vec![
                text("🚀 Let's launch "),
                AdfNode::Emoji {
                    attrs: EmojiAttrs { text: Some("😄".into()), short_name: ":smile:".into() },
                },
                text(" today"),
            ]),
        }],
        version: 1,
    };

    let markdown = adf_to_markdown(std::slice::from_ref(&adf), "");
    let parsed = markdown_to_adf(&markdown).unwrap();

    assert_eq!(
        parsed, adf,
        "Failed roundtrip for header containing emoji: {markdown}"
    );
}
