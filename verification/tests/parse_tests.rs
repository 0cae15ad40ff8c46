//! Parser tests: HTML input through an HTML5 tokenizer into the builder.

use std::cell::RefCell;

use adf_convert::builder::ADFBuilder;
use adf_convert::event::{Attribute, HtmlEvent};
use adf_convert::model::{
    AdfBlockNode, AdfMark, AdfNode, DecisionItem, DecisionItemAttrs, DecisionItemState,
    HeadingAttrs, LinkMark, ListItem, MediaAttrs, MediaDataType, MediaNode, MediaSingleAttrs,
    MediaType, Subsup, TableRow, TableRowEntry, LocalId,
};
use adf_convert::clean_surrounding_text;

use html5ever::tendril::Tendril;
use html5ever::tokenizer::{
    BufferQueue, Tag, TagKind, Token, TokenSink, TokenSinkResult, Tokenizer, TokenizerOpts,
};

struct EventCollector {
    events: RefCell<Vec<HtmlEvent>>,
}

impl TokenSink for EventCollector {
    type Handle = ();

    fn process_token(&self, token: Token, _line_number: u64) -> TokenSinkResult<Self::Handle> {
        match token {
            Token::TagToken(Tag { kind, name, attrs, self_closing, .. }) => {
                let own_attrs: Vec<Attribute> = attrs
                    .iter()
                    .map(|a| Attribute {
                        name: a.name.local.as_ref().to_string(),
                        value: a.value.to_string(),
                    })
                    .collect();
                let ev = match kind {
                    TagKind::StartTag => HtmlEvent::StartTag {
                        name: name.as_ref().to_string(),
                        attrs: own_attrs,
                        self_closing,
                    },
                    TagKind::EndTag => HtmlEvent::EndTag { name: name.as_ref().to_string() },
                };
                self.events.borrow_mut().push(ev);
            }
            Token::CharacterTokens(t) => {
                self.events
                    .borrow_mut()
                    .push(HtmlEvent::Characters(t.to_string()));
            }
            _ => {}
        }
        TokenSinkResult::Continue
    }
}

fn tokenize_html(input: &str) -> Vec<HtmlEvent> {
    let queue: BufferQueue = Default::default();
    queue.push_back(Tendril::from_slice(input));
    let sink = EventCollector { events: RefCell::new(Vec::new()) };
    let tok = Tokenizer::new(sink, TokenizerOpts::default());
    while !queue.is_empty() {
        let _ = tok.feed(&queue);
    }
    tok.end();
    tok.sink.events.into_inner()
}

fn html_to_adf(input: &str) -> AdfBlockNode {
    ADFBuilder::build_document(tokenize_html(input)).expect("conversion fault")
}

fn assert_content_eq(adf: AdfBlockNode, expected: Vec<AdfBlockNode>) {
    assert_eq!(
        adf,
        AdfBlockNode::Doc { content: expected, version: 1 }
    );
}

#[test]
fn html_to_adf_test_clean_surrounding_text() {
    assert_eq!(clean_surrounding_text("\n  Heading 1  \n  "), "  Heading 1  ");
    assert_eq!(clean_surrounding_text("\nHeading 1"), "Heading 1");
    assert_eq!(clean_surrounding_text("Heading 1\n  "), "Heading 1");
    assert_eq!(clean_surrounding_text("Heading 1"), "Heading 1");
    assert_eq!(clean_surrounding_text("   Heading 1   "), "   Heading 1   ");
    assert_eq!(clean_surrounding_text("\n   Heading 1   "), "   Heading 1   ");
    assert_eq!(clean_surrounding_text("   Heading 1   \n"), "   Heading 1   ");
}

#[test]
fn html_to_adf_test_blockquote() {
    let adf = html_to_adf(r#"<blockquote>Quoted text.</blockquote>"#);
    assert_content_eq(
        adf,
        vec![AdfBlockNode::Blockquote {
            content: vec![AdfBlockNode::Paragraph {
                content: Some(vec![AdfNode::Text { text: "Quoted text.".into(), marks: None }]),
            }],
        }],
    );
}

#[test]
fn html_to_adf_test_bullet_list_with_list_items() {
    let adf = html_to_adf(r#"<ul><li>Item one</li><li>Item two</li></ul>"#);
    assert_content_eq(
        adf,
        vec![AdfBlockNode::BulletList {
            content: vec![
                ListItem::new(vec![AdfBlockNode::Paragraph {
                    content: Some(vec![AdfNode::Text { text: "Item one".into(), marks: None }]),
                }]),
                ListItem::new(vec![AdfBlockNode::Paragraph {
                    content: Some(vec![AdfNode::Text { text: "Item two".into(), marks: None }]),
                }]),
            ],
        }],
    );
}

#[test]
fn html_to_adf_test_ordered_list_with_list_items() {
    let adf = html_to_adf(r#"<ol><li>Item one</li><li>Item two</li></ol>"#);
    assert_content_eq(
        adf,
        vec![AdfBlockNode::OrderedList {
            attrs: None,
            content: vec![
                ListItem::new(vec![AdfBlockNode::Paragraph {
                    content: Some(vec![AdfNode::Text { text: "Item one".into(), marks: None }]),
                }]),
                ListItem::new(vec![AdfBlockNode::Paragraph {
                    content: Some(vec![AdfNode::Text { text: "Item two".into(), marks: None }]),
                }]),
            ],
        }],
    );
}

#[test]
fn html_to_adf_test_combined_marks_splitting() {
    let adf = html_to_adf(
        r#"<p>Some text <a href="https://www.example.com">examples</a> are <strong><em>complicated</em></strong></p>"#,
    );
    assert_content_eq(
        adf,
        vec![AdfBlockNode::Paragraph {
            content: Some(vec![
                AdfNode::Text { text: "Some text ".into(), marks: None },
                AdfNode::Text {
                    text: "examples".into(),
                    marks: Some(vec![AdfMark::Link(LinkMark {
                        href: "https://www.example.com".into(),
                        ..Default::default()
                    })]),
                },
                AdfNode::Text { text: " are ".into(), marks: None },
                AdfNode::Text {
                    text: "complicated".into(),
                    marks: Some(vec![AdfMark::Strong, AdfMark::Em]),
                },
            ]),
        }],
    );
}

#[test]
fn html_to_adf_test_subsup_underline() {
    let adf = html_to_adf(
        r#"<p>This is <u>underlined</u> and <sub>subscript</sub> and <sup>superscript</sup>.</p>"#,
    );
    assert_content_eq(
        adf,
        vec![AdfBlockNode::Paragraph {
            content: Some(vec![
                AdfNode::Text { text: "This is ".into(), marks: None },
                AdfNode::Text {
                    text: "underlined".into(),
                    marks: Some(vec![AdfMark::Underline]),
                },
                AdfNode::Text { text: " and ".into(), marks: None },
                AdfNode::Text {
                    text: "subscript".into(),
                    marks: Some(vec![AdfMark::Subsup { type_: Subsup::Sub }]),
                },
                AdfNode::Text { text: " and ".into(), marks: None },
                AdfNode::Text {
                    text: "superscript".into(),
                    marks: Some(vec![AdfMark::Subsup { type_: Subsup::Sup }]),
                },
                AdfNode::Text { text: ".".into(), marks: None },
            ]),
        }],
    );
}

#[test]
fn html_to_adf_test_span_styles() {
    let adf = html_to_adf(
        r#"<p><span style="color: red">red text</span> and <span style="background-color: yellow">yellow background</span>.</p>"#,
    );
    assert_content_eq(
        adf,
        vec![AdfBlockNode::Paragraph {
            content: Some(vec![
                AdfNode::Text {
                    text: "red text".into(),
                    marks: Some(vec![AdfMark::TextColor { color: "red".into() }]),
                },
                AdfNode::Text { text: " and ".into(), marks: None },
                AdfNode::Text {
                    text: "yellow background".into(),
                    marks: Some(vec![AdfMark::BackgroundColor { color: "yellow".into() }]),
                },
                AdfNode::Text { text: ".".into(), marks: None },
            ]),
        }],
    );
}

#[test]
fn test_span_combined_styles() {
    let adf = html_to_adf(
        r#"<p><span style="color: green; background-color: black">styled text</span></p>"#,
    );
    assert_content_eq(
        adf,
        vec![AdfBlockNode::Paragraph {
            content: Some(vec![AdfNode::Text {
                text: "styled text".into(),
                marks: Some(vec![
                    AdfMark::TextColor { color: "green".into() },
                    AdfMark::BackgroundColor { color: "black".into() },
                ]),
            }]),
        }],
    );
}

#[test]
fn html_to_adf_test_code_inside_pre_and_outside_pre() {
    let adf = html_to_adf(
        r#"<pre><code>let x = 42;</code></pre><p>This is <code>inline code</code>.</p>"#,
    );
    assert_content_eq(
        adf,
        vec![
            AdfBlockNode::CodeBlock {
                content: Some(vec![AdfNode::Text { text: "let x = 42;".into(), marks: None }]),
                attrs: None,
            },
            AdfBlockNode::Paragraph {
                content: Some(vec![
                    AdfNode::Text { text: "This is ".into(), marks: None },
                    AdfNode::Text {
                        text: "inline code".into(),
                        marks: Some(vec![AdfMark::Code]),
                    },
                    AdfNode::Text { text: ".".into(), marks: None },
                ]),
            },
        ],
    );
}

#[test]
fn html_to_adf_test_html_table_parsing() {
    let adf = html_to_adf(
        r#"
        <table>
            <tr>
                <th>Header 1</th>
                <th>Header 2</th>
            </tr>
            <tr>
                <td>Cell 1</td>
                <td></td>
            </tr>
            <tr>
                <td>
                    <p>Nested paragraph</p>
                    <blockquote>Blockquote inside cell</blockquote>
                </td>
                <td>Simple text</td>
            </tr>
        </table>
    "#,
    );

    assert_content_eq(
        adf,
        vec![AdfBlockNode::Table {
            attrs: None,
            content: vec![
                TableRow::new(vec![
                    TableRowEntry::new_table_header(
                        vec![AdfBlockNode::Paragraph {
                            content: Some(vec![AdfNode::Text {
                                text: "Header 1".into(),
                                marks: None,
                            }]),
                        }],
                        None,
                    ),
                    TableRowEntry::new_table_header(
                        vec![AdfBlockNode::Paragraph {
                            content: Some(vec![AdfNode::Text {
                                text: "Header 2".into(),
                                marks: None,
                            }]),
                        }],
                        None,
                    ),
                ]),
                TableRow::new(vec![
                    TableRowEntry::new_table_cell(
                        vec![AdfBlockNode::Paragraph {
                            content: Some(vec![AdfNode::Text {
                                text: "Cell 1".into(),
                                marks: None,
                            }]),
                        }],
                        None,
                    ),
                    TableRowEntry::new_table_cell(vec![], None),
                ]),
                TableRow::new(vec![
                    TableRowEntry::new_table_cell(
                        vec![
                            AdfBlockNode::Paragraph {
                                content: Some(vec![AdfNode::Text {
                                    text: "Nested paragraph".into(),
                                    marks: None,
                                }]),
                            },
                            AdfBlockNode::Blockquote {
                                content: vec![AdfBlockNode::Paragraph {
                                    content: Some(vec![AdfNode::Text {
                                        text: "Blockquote inside cell".into(),
                                        marks: None,
                                    }]),
                                }],
                            },
                        ],
                        None,
                    ),
                    TableRowEntry::new_table_cell(
                        vec![AdfBlockNode::Paragraph {
                            content: Some(vec![AdfNode::Text {
                                text: "Simple text".into(),
                                marks: None,
                            }]),
                        }],
                        None,
                    ),
                ]),
            ],
        }],
    );
}

#[test]
fn test_media_parsing() {
    let adf = html_to_adf(
        r#"
            <adf-media-single data-layout="align-start">
                <img
                    data-collection=""
                    data-media-id="76add7bf-0485-4fe8-88c2-30dcad78e7b5"
                    alt="pants.png"
                    style="width: 659px; height: 291px">
                </img>
            </adf-media-single>
        "#,
    );
    assert_content_eq(
        adf,
        vec![AdfBlockNode::MediaSingle {
            content: vec![MediaNode {
                media_type: MediaType::Media,
                attrs: MediaAttrs {
                    alt: Some("pants.png".to_string()),
                    collection: "".to_string(),
                    height: Some(291),
                    id: "76add7bf-0485-4fe8-88c2-30dcad78e7b5".to_string(),
                    type_: MediaDataType::File,
                    width: Some(659),
                },
                marks: None,
            }],
            attrs: MediaSingleAttrs { layout: "align-start".to_string() },
        }],
    );
}

#[test]
fn test_decision_item_parsing() {
    let adf = html_to_adf(
        r#"
        <p><adf-local-data data-tag="decision-list" id="6e80893d-7501-409d-9cd9-d2f5366ba665"></adf-local-data></p>
        <ul>
            <li>
                <p><adf-decision-item id="f041c6cd-eb80-47ec-8cba-2e6d13d726de">Decision?</adf-decision-item></p>
            </li>
            <li>
                <p><adf-decision-item id="d34c6e8f-fc4b-4368-bb3c-794b29b6190b">Do it</adf-decision-item></p>
            </li>
        </ul>
        "#,
    );
    assert_content_eq(
        adf,
        vec![AdfBlockNode::DecisionList {
            content: vec![
                DecisionItem::new(
                    vec![AdfNode::Text { text: "Decision?".into(), marks: None }],
                    DecisionItemAttrs {
                        local_id: "f041c6cd-eb80-47ec-8cba-2e6d13d726de".to_string(),
                        state: DecisionItemState,
                    },
                ),
                DecisionItem::new(
                    vec![AdfNode::Text { text: "Do it".into(), marks: None }],
                    DecisionItemAttrs {
                        local_id: "d34c6e8f-fc4b-4368-bb3c-794b29b6190b".to_string(),
                        state: DecisionItemState,
                    },
                ),
            ],
            attrs: LocalId { local_id: "6e80893d-7501-409d-9cd9-d2f5366ba665".to_string() },
        }],
    );
}

#[test]
fn html_to_adf_test_br_inside_paragraph() {
    let adf = html_to_adf(r#"<p>First line<br/>Second line</p>"#);
    assert_content_eq(
        adf,
        vec![AdfBlockNode::Paragraph {
            content: Some(vec![
                AdfNode::Text { text: "First line".into(), marks: None },
                AdfNode::HardBreak,
                AdfNode::Text { text: "Second line".into(), marks: None },
            ]),
        }],
    );
}

#[test]
fn html_to_adf_test_hr_between_paragraphs() {
    let adf = html_to_adf(r#"<p>Before rule</p><hr/><p>After rule</p>"#);
    assert_content_eq(
        adf,
        vec![
            AdfBlockNode::Paragraph {
                content: Some(vec![AdfNode::Text { text: "Before rule".into(), marks: None }]),
            },
            AdfBlockNode::Rule,
            AdfBlockNode::Paragraph {
                content: Some(vec![AdfNode::Text { text: "After rule".into(), marks: None }]),
            },
        ],
    );
}

#[test]
fn html_to_adf_test_headings_parsing() {
    let adf = html_to_adf(
        r#"
        <h1>Main Heading</h1>
        <h2>Sub Heading</h2>
        <h3><em>Marked</em> heading</h3>
    "#,
    );

    assert_content_eq(
        adf,
        vec![
            AdfBlockNode::Heading {
                attrs: HeadingAttrs { level: 1 },
                content: Some(vec![AdfNode::Text { text: "Main Heading".into(), marks: None }]),
            },
            AdfBlockNode::Heading {
                attrs: HeadingAttrs { level: 2 },
                content: Some(vec![AdfNode::Text { text: "Sub Heading".into(), marks: None }]),
            },
            AdfBlockNode::Heading {
                attrs: HeadingAttrs { level: 3 },
                content: Some(vec![
                    AdfNode::Text { text: "Marked".into(), marks: Some(vec![AdfMark::Em]) },
                    AdfNode::Text { text: " heading".into(), marks: None },
                ]),
            },
        ],
    );
}

#[test]
fn test_heading_level_clamped_on_render() {
    let tall = AdfBlockNode::Heading {
        attrs: HeadingAttrs { level: 9 },
        content: Some(vec![AdfNode::Text { text: "Too deep".into(), marks: None }]),
    };
    let html = adf_convert::adf_to_html(vec![tall], "");
    assert!(html.contains("<h6>"));
    let back = html_to_adf(&html);
    assert_content_eq(
        back,
        vec![AdfBlockNode::Heading {
            attrs: HeadingAttrs { level: 6 },
            content: Some(vec![AdfNode::Text { text: "Too deep".into(), marks: None }]),
        }],
    );
}

#[test]
fn test_empty_cell_kept_not_omitted() {
    let adf = html_to_adf(r#"<table><tr><td></td></tr></table>"#);
    assert_content_eq(
        adf,
        vec![AdfBlockNode::Table {
            attrs: None,
            content: vec![TableRow::new(vec![TableRowEntry::new_table_cell(vec![], None)])],
        }],
    );
}

#[test]
fn test_structural_fault_is_reported() {
    let events = tokenize_html("<table>text</p></table>");
    let r = ADFBuilder::build_document(events);
    assert!(r.is_err());
}

#[test]
fn test_chunked_characters_merge() {
    let mut builder = ADFBuilder::new();
    builder.process_event(HtmlEvent::StartTag {
        name: "p".to_string(),
        attrs: vec![],
        self_closing: false,
    });
    builder.process_event(HtmlEvent::Characters("Hello ".to_string()));
    builder.process_event(HtmlEvent::Characters("world".to_string()));
    builder.process_event(HtmlEvent::EndTag { name: "p".to_string() });
    let doc = builder.emit().expect("conversion fault");
    assert_content_eq(
        doc,
        vec![AdfBlockNode::Paragraph {
            content: Some(vec![AdfNode::Text { text: "Hello world".into(), marks: None }]),
        }],
    );
}

#[test]
fn test_code_mark_clears_other_marks() {
    let adf = html_to_adf(r#"<p><strong><em><code>only code</code></em></strong></p>"#);
    assert_content_eq(
        adf,
        vec![AdfBlockNode::Paragraph {
            content: Some(vec![AdfNode::Text {
                text: "only code".into(),
                marks: Some(vec![AdfMark::Code]),
            }]),
        }],
    );
}
