//! Laws the builder obeys, stated over the transition function and proved
//! once for all inputs.

use vstd::prelude::*;
use crate::builder::{StateV, FrameV, spec_step, spec_step_start, spec_step_end, spec_flush,
    spec_push_frame, spec_p_end, spec_div_end, spec_close_block, spec_build, spec_build_doc,
    spec_run, spec_init_state, spec_close_all, spec_push_node_block, spec_splice,
    pop_last_matching, MarkKind, CustomBlockType};
use crate::event::{EventV, AttrV, attr_get};
use crate::model::apply_mark_action;
use crate::text::{clean_spec, trim_spec};
use crate::view::{BlockV, InlineV, MarkV, MarkActionV};

verus! {

/// Whitespace handling is insensitive to how character data is chunked:
/// feeding two adjacent character-data events is the same as feeding their
/// concatenation once.
pub proof fn lemma_adjacent_characters_merge(s: StateV, a: Seq<char>, b: Seq<char>)
    ensures
        spec_step(spec_step(s, EventV::Chars(a)), EventV::Chars(b)) == spec_step(
            s,
            EventV::Chars(a + b),
        ),
{
    if !s.fault {
        assert((s.text + a) + b =~= s.text + (a + b));
        assert(spec_step(spec_step(s, EventV::Chars(a)), EventV::Chars(b)) =~= spec_step(
            s,
            EventV::Chars(a + b),
        ));
    }
}

/// Flushing is idempotent: the buffer is emptied by a flush, so flushing
/// again changes nothing.
pub proof fn lemma_flush_idempotent(s: StateV)
    ensures
        spec_flush(spec_flush(s)) == spec_flush(s),
{
    let s1 = spec_flush(s);
    assert(s1.fault || s1.text.len() == 0);
    assert(spec_flush(s1) =~= s1);
}

/// The inline-code mark is exclusive: adding it to any active-mark list that
/// does not hold it yet clears every other mark; popping it afterwards and
/// adding a strong mark yields exactly the strong mark, resurrecting nothing.
pub proof fn lemma_code_mark_exclusive(s: Seq<MarkV>)
    requires
        !s.contains(MarkV::Code),
    ensures
        apply_mark_action(MarkActionV::Add(MarkV::Code), s) == seq![MarkV::Code],
        pop_last_matching(seq![MarkV::Code], MarkKind::Code) == Seq::<MarkV>::empty(),
        apply_mark_action(
            MarkActionV::Add(MarkV::Strong),
            pop_last_matching(seq![MarkV::Code], MarkKind::Code),
        ) == seq![MarkV::Strong],
{
    let code_only: Seq<MarkV> = seq![MarkV::Code];
    assert(code_only.last() == MarkV::Code);
    assert(code_only.drop_last() =~= Seq::<MarkV>::empty());
    assert(pop_last_matching(code_only, MarkKind::Code) =~= Seq::<MarkV>::empty());
    assert(!Seq::<MarkV>::empty().contains(MarkV::Strong));
    assert(Seq::<MarkV>::empty().push(MarkV::Strong) =~= seq![MarkV::Strong]);
}

/// Tag routing: a paragraph start tag reaches the paragraph handler.
pub proof fn lemma_route_p_start(s: StateV, attrs: Seq<AttrV>)
    ensures
        spec_step_start(s, "p"@, attrs) == spec_push_frame(
            spec_flush(s),
            FrameV::Paragraph(Seq::empty()),
        ),
{
    reveal_strlit("a");
    reveal_strlit("img");
    reveal_strlit("ul");
    reveal_strlit("ol");
    reveal_strlit("li");
    reveal_strlit("p");
    assert(("p"@).len() == 1 && ("a"@).len() == 1 && ("img"@).len() == 3);
    assert(("ul"@).len() == 2 && ("ol"@).len() == 2 && ("li"@).len() == 2);
    assert(("p"@)[0] == 'p' && ("a"@)[0] == 'a');
    assert("p"@ != "a"@ && "p"@ != "img"@ && "p"@ != "ul"@ && "p"@ != "ol"@ && "p"@ != "li"@);
}

/// Tag routing: a div start tag reaches the div handler.
pub proof fn lemma_route_div_start(s: StateV, attrs: Seq<AttrV>)
    ensures
        spec_step_start(s, "div"@, attrs) == spec_push_frame(
            spec_flush(s),
            FrameV::CustomBlock(CustomBlockType::Div, Seq::empty(), attrs),
        ),
{
    reveal_strlit("a");
    reveal_strlit("img");
    reveal_strlit("ul");
    reveal_strlit("ol");
    reveal_strlit("li");
    reveal_strlit("p");
    reveal_strlit("pre");
    reveal_strlit("blockquote");
    reveal_strlit("em");
    reveal_strlit("strong");
    reveal_strlit("del");
    reveal_strlit("u");
    reveal_strlit("sub");
    reveal_strlit("sup");
    reveal_strlit("code");
    reveal_strlit("div");
    assert(("div"@).len() == 3);
    assert(("a"@).len() == 1 && ("p"@).len() == 1 && ("u"@).len() == 1);
    assert(("ul"@).len() == 2 && ("ol"@).len() == 2 && ("li"@).len() == 2 && ("em"@).len() == 2);
    assert(("blockquote"@).len() == 10 && ("strong"@).len() == 6 && ("code"@).len() == 4);
    assert(("img"@)[0] == 'i' && ("pre"@)[0] == 'p' && ("del"@)[1] == 'e' && ("sub"@)[0] == 's'
        && ("sup"@)[0] == 's' && ("div"@)[0] == 'd' && ("div"@)[1] == 'i');
    assert("div"@ != "a"@ && "div"@ != "img"@ && "div"@ != "ul"@ && "div"@ != "ol"@ && "div"@
        != "li"@ && "div"@ != "p"@ && "div"@ != "pre"@ && "div"@ != "blockquote"@ && "div"@
        != "em"@ && "div"@ != "strong"@ && "div"@ != "del"@ && "div"@ != "u"@ && "div"@ != "sub"@
        && "div"@ != "sup"@ && "div"@ != "code"@);
}

/// Tag routing: a paragraph end tag reaches the paragraph-close handler.
pub proof fn lemma_route_p_end(s: StateV)
    ensures
        spec_step_end(s, "p"@) == spec_p_end(s),
{
    reveal_strlit("a");
    reveal_strlit("ul");
    reveal_strlit("ol");
    reveal_strlit("pre");
    reveal_strlit("blockquote");
    reveal_strlit("li");
    reveal_strlit("p");
    assert(("p"@).len() == 1 && ("a"@).len() == 1);
    assert(("ul"@).len() == 2 && ("ol"@).len() == 2 && ("li"@).len() == 2);
    assert(("pre"@).len() == 3 && ("blockquote"@).len() == 10);
    assert(("p"@)[0] == 'p' && ("a"@)[0] == 'a');
    assert("p"@ != "a"@ && "p"@ != "ul"@ && "p"@ != "ol"@ && "p"@ != "pre"@ && "p"@
        != "blockquote"@ && "p"@ != "li"@);
}

/// Tag routing: a div end tag reaches the div-close handler.
pub proof fn lemma_route_div_end(s: StateV)
    ensures
        spec_step_end(s, "div"@) == spec_div_end(s),
{
    reveal_strlit("a");
    reveal_strlit("ul");
    reveal_strlit("ol");
    reveal_strlit("pre");
    reveal_strlit("blockquote");
    reveal_strlit("li");
    reveal_strlit("p");
    reveal_strlit("em");
    reveal_strlit("strong");
    reveal_strlit("del");
    reveal_strlit("u");
    reveal_strlit("sub");
    reveal_strlit("sup");
    reveal_strlit("span");
    reveal_strlit("code");
    reveal_strlit("h1");
    reveal_strlit("h2");
    reveal_strlit("h3");
    reveal_strlit("h4");
    reveal_strlit("h5");
    reveal_strlit("h6");
    reveal_strlit("table");
    reveal_strlit("thead");
    reveal_strlit("tbody");
    reveal_strlit("tr");
    reveal_strlit("td");
    reveal_strlit("th");
    reveal_strlit("time");
    reveal_strlit("details");
    reveal_strlit("figure");
    reveal_strlit("summary");
    reveal_strlit("div");
    assert(("div"@).len() == 3);
    assert(("a"@).len() == 1 && ("u"@).len() == 1 && ("p"@).len() == 1);
    assert(("ul"@).len() == 2 && ("ol"@).len() == 2 && ("li"@).len() == 2 && ("em"@).len() == 2
        && ("h1"@).len() == 2 && ("h2"@).len() == 2 && ("h3"@).len() == 2 && ("h4"@).len() == 2
        && ("h5"@).len() == 2 && ("h6"@).len() == 2 && ("tr"@).len() == 2 && ("td"@).len() == 2
        && ("th"@).len() == 2);
    assert(("blockquote"@).len() == 10 && ("strong"@).len() == 6 && ("span"@).len() == 4 && (
    "code"@).len() == 4 && ("table"@).len() == 5 && ("thead"@).len() == 5 && ("tbody"@).len() == 5
        && ("time"@).len() == 4 && ("details"@).len() == 7 && ("figure"@).len() == 6 && (
    "summary"@).len() == 7);
    assert(("pre"@)[0] == 'p' && ("del"@)[1] == 'e' && ("sub"@)[0] == 's' && ("sup"@)[0] == 's'
        && ("div"@)[0] == 'd' && ("div"@)[1] == 'i');
    assert("div"@ != "a"@ && "div"@ != "ul"@ && "div"@ != "ol"@ && "div"@ != "pre"@ && "div"@
        != "blockquote"@ && "div"@ != "li"@ && "div"@ != "p"@ && "div"@ != "em"@ && "div"@
        != "strong"@ && "div"@ != "del"@ && "div"@ != "u"@ && "div"@ != "sub"@ && "div"@
        != "sup"@ && "div"@ != "span"@ && "div"@ != "code"@ && "div"@ != "h1"@ && "div"@ != "h2"@
        && "div"@ != "h3"@ && "div"@ != "h4"@ && "div"@ != "h5"@ && "div"@ != "h6"@ && "div"@
        != "table"@ && "div"@ != "thead"@ && "div"@ != "tbody"@ && "div"@ != "tr"@ && "div"@
        != "td"@ && "div"@ != "th"@ && "div"@ != "time"@ && "div"@ != "details"@ && "div"@
        != "figure"@ && "div"@ != "summary"@);
}

/// A first record of the round-trip identity: the event sequence the
/// renderer's output tokenizes to, for a document holding one paragraph with
/// one unmarked text run, builds back to exactly that document. The text must
/// survive the builder's whitespace handling: trimming around newlines keeps
/// it, and it is not whitespace-only.
pub proof fn lemma_round_trip_paragraph(t: Seq<char>)
    requires
        clean_spec(t) == t,
        trim_spec(t).len() > 0,
    ensures
        spec_build(
            seq![
                EventV::Start { name: "div"@, attrs: Seq::empty(), self_closing: false },
                EventV::Start { name: "p"@, attrs: Seq::empty(), self_closing: false },
                EventV::Chars(t),
                EventV::End { name: "p"@ },
                EventV::End { name: "div"@ },
            ],
        ) == Option::Some(
            (BlockV::Doc {
                content: seq![
                    BlockV::Paragraph {
                        content: Option::Some(
                            seq![InlineV::Text { text: t, marks: Option::None }],
                        ),
                    },
                ],
                version: 1,
            }),
        ),
{
    let evs = seq![
        EventV::Start { name: "div"@, attrs: Seq::<AttrV>::empty(), self_closing: false },
        EventV::Start { name: "p"@, attrs: Seq::<AttrV>::empty(), self_closing: false },
        EventV::Chars(t),
        EventV::End { name: "p"@ },
        EventV::End { name: "div"@ },
    ];
    let s0 = spec_init_state();
    let s1 = spec_step(s0, evs[0]);
    let s2 = spec_step(s1, evs[1]);
    let s3 = spec_step(s2, evs[2]);
    let s4 = spec_step(s3, evs[3]);
    let s5 = spec_step(s4, evs[4]);

    assert(spec_run(s0, evs) == s5) by {
        reveal_with_fuel(spec_run, 6);
        assert(evs.subrange(1, 5) =~= evs.subrange(1, 5));
        assert(evs.subrange(1, 5)[0] == evs[1]);
        assert(evs.subrange(1, 5).subrange(1, 4) =~= evs.subrange(2, 5));
        assert(evs.subrange(2, 5)[0] == evs[2]);
        assert(evs.subrange(2, 5).subrange(1, 3) =~= evs.subrange(3, 5));
        assert(evs.subrange(3, 5)[0] == evs[3]);
        assert(evs.subrange(3, 5).subrange(1, 2) =~= evs.subrange(4, 5));
        assert(evs.subrange(4, 5)[0] == evs[4]);
        assert(evs.subrange(4, 5).subrange(1, 1) =~= Seq::<EventV>::empty());
    }

    let div_frame = FrameV::CustomBlock(CustomBlockType::Div, Seq::empty(), Seq::empty());
    lemma_route_div_start(s0, Seq::empty());
    assert(spec_flush(s0) =~= s0);
    assert(s1 =~= (StateV { stack: s0.stack.push(div_frame), ..s0 }));

    lemma_route_p_start(s1, Seq::empty());
    assert(spec_flush(s1) =~= s1);
    assert(s2 =~= (StateV { stack: s1.stack.push(FrameV::Paragraph(Seq::empty())), ..s1 }));

    assert(s3 =~= (StateV { text: t, ..s2 }));
    assert(s3.stack.len() == 3);
    assert(s3.stack.last() == FrameV::Paragraph(Seq::empty()));

    lemma_route_p_end(s3);
    let txt = InlineV::Text { text: t, marks: Option::None };
    let flushed = spec_flush(s3);
    assert(flushed =~= (StateV {
        stack: s3.stack.drop_last().push(FrameV::Paragraph(seq![txt])),
        text: Seq::empty(),
        ..s3
    })) by {
        assert(Seq::<InlineV>::empty().push(txt) =~= seq![txt]);
    }
    let para_node = BlockV::Paragraph { content: Option::Some(seq![txt]) };
    assert(s4 =~= (StateV {
        stack: seq![
            FrameV::Document(Seq::empty()),
            FrameV::CustomBlock(CustomBlockType::Div, seq![para_node], Seq::empty()),
        ],
        text: Seq::empty(),
        ..s3
    })) by {
        assert(flushed.stack.len() == 3);
        assert(flushed.stack.last() == FrameV::Paragraph(seq![txt]));
        assert(flushed.stack.drop_last().last() == div_frame);
        assert(spec_p_end(s3) == spec_close_block(flushed));
        assert(Seq::<BlockV>::empty().push(para_node) =~= seq![para_node]);
        assert(flushed.stack.drop_last().drop_last().push(
            FrameV::CustomBlock(CustomBlockType::Div, seq![para_node], Seq::empty()),
        ) =~= seq![
            FrameV::Document(Seq::empty()),
            FrameV::CustomBlock(CustomBlockType::Div, seq![para_node], Seq::empty()),
        ]);
    }

    lemma_route_div_end(s4);
    assert(s5 =~= (StateV { stack: seq![FrameV::Document(seq![para_node])], ..s4 })) by {
        assert(spec_flush(s4) =~= s4);
        assert(s4.stack.last() == FrameV::CustomBlock(
            CustomBlockType::Div,
            seq![para_node],
            Seq::empty(),
        ));
        assert(attr_get(Seq::<AttrV>::empty(), "style"@) is None);
        let s4p = StateV { stack: s4.stack.drop_last(), ..s4 };
        assert(s4p.stack =~= seq![FrameV::Document(Seq::<BlockV>::empty())]);
        assert(spec_div_end(s4) == spec_splice(s4p, seq![para_node]));
        assert(seq![para_node].subrange(1, 1) =~= Seq::<BlockV>::empty());
        assert(spec_splice(s4p, seq![para_node]) == spec_splice(
            spec_push_node_block(s4p, para_node),
            Seq::empty(),
        ));
        assert(spec_push_node_block(s4p, para_node).stack =~= seq![
            FrameV::Document(seq![para_node]),
        ]) by {
            assert(s4p.stack.last() == FrameV::Document(Seq::<BlockV>::empty()));
            assert(Seq::<BlockV>::empty().push(para_node) =~= seq![para_node]);
            assert(s4p.stack.drop_last().push(FrameV::Document(seq![para_node])) =~= seq![
                FrameV::Document(seq![para_node]),
            ]);
        }
    }

    assert(spec_build_doc(s5) == Option::Some(
        (BlockV::Doc { content: seq![para_node], version: 1 }),
    )) by {
        assert(spec_flush(s5) =~= s5);
        assert(spec_close_all(s5, s5.stack.len()) == s5);
        assert(s5.stack[0] == FrameV::Document(seq![para_node]));
    }
}

/// Tag routing: a heading start tag of an in-range level reaches the heading
/// handler for that level.
pub proof fn lemma_route_heading_start(s: StateV, attrs: Seq<AttrV>, level: u8)
    requires
        1 <= level <= 6,
    ensures
        spec_step_start(s, crate::render::heading_tag_spec(level), attrs) == spec_push_frame(
            spec_flush(s),
            FrameV::Heading(level, Seq::empty()),
        ),
{
    reveal_strlit("a");
    reveal_strlit("img");
    reveal_strlit("ul");
    reveal_strlit("ol");
    reveal_strlit("li");
    reveal_strlit("p");
    reveal_strlit("pre");
    reveal_strlit("blockquote");
    reveal_strlit("em");
    reveal_strlit("strong");
    reveal_strlit("del");
    reveal_strlit("u");
    reveal_strlit("sub");
    reveal_strlit("sup");
    reveal_strlit("code");
    reveal_strlit("div");
    reveal_strlit("span");
    reveal_strlit("h1");
    reveal_strlit("h2");
    reveal_strlit("h3");
    reveal_strlit("h4");
    reveal_strlit("h5");
    reveal_strlit("h6");
    let name = crate::render::heading_tag_spec(level);
    assert(name.len() == 2 && name[0] == 'h');
    assert(("a"@).len() == 1 && ("p"@).len() == 1 && ("u"@).len() == 1);
    assert(("img"@).len() == 3 && ("pre"@).len() == 3 && ("del"@).len() == 3 && ("sub"@).len()
        == 3 && ("sup"@).len() == 3 && ("div"@).len() == 3);
    assert(("blockquote"@).len() == 10 && ("strong"@).len() == 6 && ("code"@).len() == 4 && (
    "span"@).len() == 4);
    assert(("ul"@)[0] == 'u' && ("ol"@)[0] == 'o' && ("li"@)[0] == 'l' && ("em"@)[0] == 'e');
    assert(name != "a"@ && name != "img"@ && name != "ul"@ && name != "ol"@ && name != "li"@
        && name != "p"@ && name != "pre"@ && name != "blockquote"@ && name != "em"@ && name
        != "strong"@ && name != "del"@ && name != "u"@ && name != "sub"@ && name != "sup"@
        && name != "code"@ && name != "div"@ && name != "span"@);
    assert(("h1"@)[1] == '1' && ("h2"@)[1] == '2' && ("h3"@)[1] == '3' && ("h4"@)[1] == '4' && (
    "h5"@)[1] == '5' && ("h6"@)[1] == '6');
}

/// Tag routing: a heading end tag of an in-range level reaches the
/// heading-close handler for that level.
pub proof fn lemma_route_heading_end(s: StateV, level: u8)
    requires
        1 <= level <= 6,
    ensures
        spec_step_end(s, crate::render::heading_tag_spec(level)) == crate::builder::spec_heading_end(
            s,
            level,
        ),
{
    reveal_strlit("a");
    reveal_strlit("ul");
    reveal_strlit("ol");
    reveal_strlit("pre");
    reveal_strlit("blockquote");
    reveal_strlit("li");
    reveal_strlit("p");
    reveal_strlit("em");
    reveal_strlit("strong");
    reveal_strlit("del");
    reveal_strlit("u");
    reveal_strlit("sub");
    reveal_strlit("sup");
    reveal_strlit("span");
    reveal_strlit("code");
    reveal_strlit("h1");
    reveal_strlit("h2");
    reveal_strlit("h3");
    reveal_strlit("h4");
    reveal_strlit("h5");
    reveal_strlit("h6");
    let name = crate::render::heading_tag_spec(level);
    assert(name.len() == 2 && name[0] == 'h');
    assert(("a"@).len() == 1 && ("p"@).len() == 1 && ("u"@).len() == 1);
    assert(("pre"@).len() == 3 && ("del"@).len() == 3 && ("sub"@).len() == 3 && ("sup"@).len()
        == 3);
    assert(("blockquote"@).len() == 10 && ("strong"@).len() == 6 && ("code"@).len() == 4 && (
    "span"@).len() == 4);
    assert(("ul"@)[0] == 'u' && ("ol"@)[0] == 'o' && ("li"@)[0] == 'l' && ("em"@)[0] == 'e');
    assert(name != "a"@ && name != "ul"@ && name != "ol"@ && name != "pre"@ && name
        != "blockquote"@ && name != "li"@ && name != "p"@ && name != "em"@ && name != "strong"@
        && name != "del"@ && name != "u"@ && name != "sub"@ && name != "sup"@ && name != "span"@
        && name != "code"@);
    assert(("h1"@)[1] == '1' && ("h2"@)[1] == '2' && ("h3"@)[1] == '3' && ("h4"@)[1] == '4' && (
    "h5"@)[1] == '5' && ("h6"@)[1] == '6');
}

/// A second record of the round-trip identity: a document holding one
/// heading of an in-range level with one unmarked text run builds back to
/// exactly itself from the event sequence its rendering tokenizes to. The
/// heading tag carries the level, so together with [`lemma_route_heading_start`]
/// a rendered clamped heading parses back to level 6, never the original
/// out-of-range value.
pub proof fn lemma_round_trip_heading(level: u8, t: Seq<char>)
    requires
        1 <= level <= 6,
        clean_spec(t) == t,
        trim_spec(t).len() > 0,
    ensures
        spec_build(
            seq![
                EventV::Start { name: "div"@, attrs: Seq::empty(), self_closing: false },
                EventV::Start {
                    name: crate::render::heading_tag_spec(level),
                    attrs: Seq::empty(),
                    self_closing: false,
                },
                EventV::Chars(t),
                EventV::End { name: crate::render::heading_tag_spec(level) },
                EventV::End { name: "div"@ },
            ],
        ) == Option::Some(
            (BlockV::Doc {
                content: seq![
                    BlockV::Heading {
                        level,
                        content: Option::Some(
                            seq![InlineV::Text { text: t, marks: Option::None }],
                        ),
                    },
                ],
                version: 1,
            }),
        ),
{
    let hname = crate::render::heading_tag_spec(level);
    let evs = seq![
        EventV::Start { name: "div"@, attrs: Seq::<AttrV>::empty(), self_closing: false },
        EventV::Start { name: hname, attrs: Seq::<AttrV>::empty(), self_closing: false },
        EventV::Chars(t),
        EventV::End { name: hname },
        EventV::End { name: "div"@ },
    ];
    let s0 = spec_init_state();
    let s1 = spec_step(s0, evs[0]);
    let s2 = spec_step(s1, evs[1]);
    let s3 = spec_step(s2, evs[2]);
    let s4 = spec_step(s3, evs[3]);
    let s5 = spec_step(s4, evs[4]);

    assert(spec_run(s0, evs) == s5) by {
        reveal_with_fuel(spec_run, 6);
        assert(evs.subrange(1, 5)[0] == evs[1]);
        assert(evs.subrange(1, 5).subrange(1, 4) =~= evs.subrange(2, 5));
        assert(evs.subrange(2, 5)[0] == evs[2]);
        assert(evs.subrange(2, 5).subrange(1, 3) =~= evs.subrange(3, 5));
        assert(evs.subrange(3, 5)[0] == evs[3]);
        assert(evs.subrange(3, 5).subrange(1, 2) =~= evs.subrange(4, 5));
        assert(evs.subrange(4, 5)[0] == evs[4]);
        assert(evs.subrange(4, 5).subrange(1, 1) =~= Seq::<EventV>::empty());
    }

    let div_frame = FrameV::CustomBlock(CustomBlockType::Div, Seq::empty(), Seq::empty());
    lemma_route_div_start(s0, Seq::empty());
    assert(spec_flush(s0) =~= s0);
    assert(s1 =~= (StateV { stack: s0.stack.push(div_frame), ..s0 }));

    lemma_route_heading_start(s1, Seq::empty(), level);
    assert(spec_flush(s1) =~= s1);
    assert(s2 =~= (StateV { stack: s1.stack.push(FrameV::Heading(level, Seq::empty())), ..s1 }));

    assert(s3 =~= (StateV { text: t, ..s2 }));
    assert(s3.stack.len() == 3);
    assert(s3.stack.last() == FrameV::Heading(level, Seq::empty()));

    lemma_route_heading_end(s3, level);
    let txt = InlineV::Text { text: t, marks: Option::None };
    let flushed = spec_flush(s3);
    assert(flushed =~= (StateV {
        stack: s3.stack.drop_last().push(FrameV::Heading(level, seq![txt])),
        text: Seq::empty(),
        ..s3
    })) by {
        assert(Seq::<InlineV>::empty().push(txt) =~= seq![txt]);
    }
    let h_node = BlockV::Heading { level, content: Option::Some(seq![txt]) };
    assert(s4 =~= (StateV {
        stack: seq![
            FrameV::Document(Seq::empty()),
            FrameV::CustomBlock(CustomBlockType::Div, seq![h_node], Seq::empty()),
        ],
        text: Seq::empty(),
        ..s3
    })) by {
        assert(flushed.stack.len() == 3);
        assert(flushed.stack.last() == FrameV::Heading(level, seq![txt]));
        assert(flushed.stack.drop_last().last() == div_frame);
        let popped = StateV { stack: flushed.stack.drop_last(), ..flushed };
        assert(crate::builder::spec_heading_end(s3, level) == spec_push_node_block(
            popped,
            h_node,
        ));
        assert(Seq::<BlockV>::empty().push(h_node) =~= seq![h_node]);
        assert(popped.stack.drop_last().push(
            FrameV::CustomBlock(CustomBlockType::Div, seq![h_node], Seq::empty()),
        ) =~= seq![
            FrameV::Document(Seq::empty()),
            FrameV::CustomBlock(CustomBlockType::Div, seq![h_node], Seq::empty()),
        ]);
    }

    lemma_route_div_end(s4);
    assert(s5 =~= (StateV { stack: seq![FrameV::Document(seq![h_node])], ..s4 })) by {
        assert(spec_flush(s4) =~= s4);
        assert(s4.stack.last() == FrameV::CustomBlock(
            CustomBlockType::Div,
            seq![h_node],
            Seq::empty(),
        ));
        assert(attr_get(Seq::<AttrV>::empty(), "style"@) is None);
        let s4p = StateV { stack: s4.stack.drop_last(), ..s4 };
        assert(s4p.stack =~= seq![FrameV::Document(Seq::<BlockV>::empty())]);
        assert(spec_div_end(s4) == spec_splice(s4p, seq![h_node]));
        assert(seq![h_node].subrange(1, 1) =~= Seq::<BlockV>::empty());
        assert(spec_splice(s4p, seq![h_node]) == spec_splice(
            spec_push_node_block(s4p, h_node),
            Seq::empty(),
        ));
        assert(spec_push_node_block(s4p, h_node).stack =~= seq![
            FrameV::Document(seq![h_node]),
        ]) by {
            assert(s4p.stack.last() == FrameV::Document(Seq::<BlockV>::empty()));
            assert(Seq::<BlockV>::empty().push(h_node) =~= seq![h_node]);
            assert(s4p.stack.drop_last().push(FrameV::Document(seq![h_node])) =~= seq![
                FrameV::Document(seq![h_node]),
            ]);
        }
    }

    assert(spec_build_doc(s5) == Option::Some(
        (BlockV::Doc { content: seq![h_node], version: 1 }),
    )) by {
        assert(spec_flush(s5) =~= s5);
        assert(spec_close_all(s5, s5.stack.len()) == s5);
        assert(s5.stack[0] == FrameV::Document(seq![h_node]));
    }
}

/// Tag routing: a bullet-list start tag reaches the list handler.
pub proof fn lemma_route_ul_start(s: StateV, attrs: Seq<AttrV>)
    ensures
        spec_step_start(s, "ul"@, attrs) == crate::builder::spec_ul_start(s),
{
    reveal_strlit("a");
    reveal_strlit("img");
    reveal_strlit("ul");
    assert(("ul"@).len() == 2 && ("a"@).len() == 1 && ("img"@).len() == 3);
}

/// Tag routing: a list-item start tag reaches the list-item handler.
pub proof fn lemma_route_li_start(s: StateV, attrs: Seq<AttrV>)
    ensures
        spec_step_start(s, "li"@, attrs) == spec_push_frame(
            spec_flush(s),
            FrameV::ListItem(Seq::empty()),
        ),
{
    reveal_strlit("a");
    reveal_strlit("img");
    reveal_strlit("ul");
    reveal_strlit("ol");
    reveal_strlit("li");
    assert(("li"@).len() == 2 && ("a"@).len() == 1 && ("img"@).len() == 3);
    assert(("ul"@)[0] == 'u' && ("ol"@)[0] == 'o' && ("li"@)[0] == 'l');
    assert("li"@ != "a"@ && "li"@ != "img"@ && "li"@ != "ul"@ && "li"@ != "ol"@);
}

/// Tag routing: a bullet-list end tag reaches the generic close.
pub proof fn lemma_route_ul_end(s: StateV)
    ensures
        spec_step_end(s, "ul"@) == spec_close_block(spec_flush(s)),
{
    reveal_strlit("a");
    reveal_strlit("ul");
    assert(("ul"@).len() == 2 && ("a"@).len() == 1);
}

/// Tag routing: a list-item end tag reaches the list-item close.
pub proof fn lemma_route_li_end(s: StateV)
    ensures
        spec_step_end(s, "li"@) == crate::builder::spec_close_list_item(s),
{
    reveal_strlit("a");
    reveal_strlit("ul");
    reveal_strlit("ol");
    reveal_strlit("pre");
    reveal_strlit("blockquote");
    reveal_strlit("li");
    assert(("li"@).len() == 2 && ("a"@).len() == 1 && ("pre"@).len() == 3 && ("blockquote"@).len()
        == 10);
    assert(("ul"@)[0] == 'u' && ("ol"@)[0] == 'o' && ("li"@)[0] == 'l');
    assert("li"@ != "a"@ && "li"@ != "ul"@ && "li"@ != "ol"@ && "li"@ != "pre"@ && "li"@
        != "blockquote"@);
}

/// One list item of a pending list: the five events of an item holding one
/// paragraph with one unmarked text run append one plain item to the list
/// frame and leave everything else unchanged.
#[verifier::rlimit(100)]
pub proof fn lemma_list_item_steps(
    s: StateV,
    t: Seq<char>,
    items: Seq<crate::builder::ListItemTypeV>,
    ord: bool,
    lid: Option<Seq<char>>,
    ltag: Option<Seq<char>>,
)
    requires
        !s.fault,
        s.text == Seq::<char>::empty(),
        s.marks == Seq::<MarkV>::empty(),
        s.stack.len() >= 1,
        s.stack.last() == (FrameV::PendingList { items, ordered: ord, local_id: lid, local_tag: ltag }),
        clean_spec(t) == t,
        trim_spec(t).len() > 0,
    ensures
        spec_step(
            spec_step(
                spec_step(
                    spec_step(
                        spec_step(
                            s,
                            EventV::Start {
                                name: "li"@,
                                attrs: Seq::empty(),
                                self_closing: false,
                            },
                        ),
                        EventV::Start { name: "p"@, attrs: Seq::empty(), self_closing: false },
                    ),
                    EventV::Chars(t),
                ),
                EventV::End { name: "p"@ },
            ),
            EventV::End { name: "li"@ },
        ) == (StateV {
            stack: s.stack.drop_last().push(
                FrameV::PendingList {
                    items: items.push(
                        crate::builder::ListItemTypeV::Plain(
                            seq![
                                BlockV::Paragraph {
                                    content: Option::Some(
                                        seq![InlineV::Text { text: t, marks: Option::None }],
                                    ),
                                },
                            ],
                        ),
                    ),
                    ordered: ord,
                    local_id: lid,
                    local_tag: ltag,
                },
            ),
            ..s
        }),
{
    let u1 = spec_step(
        s,
        EventV::Start { name: "li"@, attrs: Seq::empty(), self_closing: false },
    );
    let u2 = spec_step(
        u1,
        EventV::Start { name: "p"@, attrs: Seq::empty(), self_closing: false },
    );
    let u3 = spec_step(u2, EventV::Chars(t));
    let u4 = spec_step(u3, EventV::End { name: "p"@ });
    let u5 = spec_step(u4, EventV::End { name: "li"@ });

    lemma_route_li_start(s, Seq::empty());
    assert(spec_flush(s) =~= s);
    assert(u1 =~= (StateV { stack: s.stack.push(FrameV::ListItem(Seq::empty())), ..s }));

    lemma_route_p_start(u1, Seq::empty());
    assert(spec_flush(u1) =~= u1);
    assert(u2 =~= (StateV { stack: u1.stack.push(FrameV::Paragraph(Seq::empty())), ..u1 }));

    assert(u3 =~= (StateV { text: t, ..u2 }));

    let txt = InlineV::Text { text: t, marks: Option::None };
    let para = BlockV::Paragraph { content: Option::Some(seq![txt]) };
    lemma_route_p_end(u3);
    assert(u4 =~= (StateV {
        stack: s.stack.push(FrameV::ListItem(seq![para])),
        text: Seq::empty(),
        ..u3
    })) by {
        let flushed = spec_flush(u3);
        assert(u3.stack.last() == FrameV::Paragraph(Seq::empty()));
        assert(Seq::<InlineV>::empty().push(txt) =~= seq![txt]);
        assert(flushed =~= (StateV {
            stack: u3.stack.drop_last().push(FrameV::Paragraph(seq![txt])),
            text: Seq::empty(),
            ..u3
        }));
        assert(flushed.stack.last() == FrameV::Paragraph(seq![txt]));
        assert(flushed.stack.drop_last() =~= u1.stack);
        assert(flushed.stack.drop_last().last() == FrameV::ListItem(Seq::empty()));
        assert(spec_p_end(u3) == spec_close_block(flushed));
        assert(Seq::<BlockV>::empty().push(para) =~= seq![para]);
        assert(flushed.stack.drop_last().drop_last() =~= s.stack);
    }

    lemma_route_li_end(u4);
    assert(u5 =~= (StateV {
        stack: s.stack.drop_last().push(
            FrameV::PendingList {
                items: items.push(crate::builder::ListItemTypeV::Plain(seq![para])),
                ordered: ord,
                local_id: lid,
                local_tag: ltag,
            },
        ),
        ..s
    })) by {
        assert(spec_flush(u4) =~= u4);
        assert(u4.stack.last() == FrameV::ListItem(seq![para]));
        assert(u4.stack.drop_last() =~= s.stack);
        assert(u4.stack.drop_last().last() == (FrameV::PendingList {
            items,
            ordered: ord,
            local_id: lid,
            local_tag: ltag,
        }));
        assert(u4.stack.drop_last().drop_last() =~= s.stack.drop_last());
    }
}

/// A third record of the round-trip identity: a bullet list of two items,
/// each a paragraph with one unmarked text run, builds back to exactly
/// itself. List items hold block content, so each item wraps its paragraph.
#[verifier::rlimit(100)]
pub proof fn lemma_round_trip_bullet_list(a: Seq<char>, b: Seq<char>)
    requires
        clean_spec(a) == a,
        trim_spec(a).len() > 0,
        clean_spec(b) == b,
        trim_spec(b).len() > 0,
    ensures
        spec_build(
            seq![
                EventV::Start { name: "div"@, attrs: Seq::empty(), self_closing: false },
                EventV::Start { name: "ul"@, attrs: Seq::empty(), self_closing: false },
                EventV::Start { name: "li"@, attrs: Seq::empty(), self_closing: false },
                EventV::Start { name: "p"@, attrs: Seq::empty(), self_closing: false },
                EventV::Chars(a),
                EventV::End { name: "p"@ },
                EventV::End { name: "li"@ },
                EventV::Start { name: "li"@, attrs: Seq::empty(), self_closing: false },
                EventV::Start { name: "p"@, attrs: Seq::empty(), self_closing: false },
                EventV::Chars(b),
                EventV::End { name: "p"@ },
                EventV::End { name: "li"@ },
                EventV::End { name: "ul"@ },
                EventV::End { name: "div"@ },
            ],
        ) == Option::Some(
            (BlockV::Doc {
                content: seq![
                    BlockV::BulletList {
                        items: seq![
                            seq![
                                BlockV::Paragraph {
                                    content: Option::Some(
                                        seq![InlineV::Text { text: a, marks: Option::None }],
                                    ),
                                },
                            ],
                            seq![
                                BlockV::Paragraph {
                                    content: Option::Some(
                                        seq![InlineV::Text { text: b, marks: Option::None }],
                                    ),
                                },
                            ],
                        ],
                    },
                ],
                version: 1,
            }),
        ),
{
    let evs = seq![
        EventV::Start { name: "div"@, attrs: Seq::<AttrV>::empty(), self_closing: false },
        EventV::Start { name: "ul"@, attrs: Seq::<AttrV>::empty(), self_closing: false },
        EventV::Start { name: "li"@, attrs: Seq::<AttrV>::empty(), self_closing: false },
        EventV::Start { name: "p"@, attrs: Seq::<AttrV>::empty(), self_closing: false },
        EventV::Chars(a),
        EventV::End { name: "p"@ },
        EventV::End { name: "li"@ },
        EventV::Start { name: "li"@, attrs: Seq::<AttrV>::empty(), self_closing: false },
        EventV::Start { name: "p"@, attrs: Seq::<AttrV>::empty(), self_closing: false },
        EventV::Chars(b),
        EventV::End { name: "p"@ },
        EventV::End { name: "li"@ },
        EventV::End { name: "ul"@ },
        EventV::End { name: "div"@ },
    ];
    let s0 = spec_init_state();
    let s1 = spec_step(s0, evs[0]);
    let s2 = spec_step(s1, evs[1]);
    let s3 = spec_step(s2, evs[2]);
    let s4 = spec_step(s3, evs[3]);
    let s5 = spec_step(s4, evs[4]);
    let s6 = spec_step(s5, evs[5]);
    let s7 = spec_step(s6, evs[6]);
    let s8 = spec_step(s7, evs[7]);
    let s9 = spec_step(s8, evs[8]);
    let s10 = spec_step(s9, evs[9]);
    let s11 = spec_step(s10, evs[10]);
    let s12 = spec_step(s11, evs[11]);
    let s13 = spec_step(s12, evs[12]);
    let s14 = spec_step(s13, evs[13]);

    assert(spec_run(s0, evs) == s14) by {
        reveal_with_fuel(spec_run, 15);
        assert forall|k: int| 1 <= k < 14 implies #[trigger] evs.subrange(k, 14)[0] == evs[k]
            && evs.subrange(k, 14).subrange(1, 14 - k) =~= evs.subrange(k + 1, 14) by {}
        assert(evs.subrange(1, 14)[0] == evs[1]);
        assert(evs.subrange(13, 14).subrange(1, 1) =~= Seq::<EventV>::empty());
    }

    let div_frame = FrameV::CustomBlock(CustomBlockType::Div, Seq::empty(), Seq::empty());
    let txt_a = InlineV::Text { text: a, marks: Option::None };
    let para_a = BlockV::Paragraph { content: Option::Some(seq![txt_a]) };
    let txt_b = InlineV::Text { text: b, marks: Option::None };
    let para_b = BlockV::Paragraph { content: Option::Some(seq![txt_b]) };
    let item_a = crate::builder::ListItemTypeV::Plain(seq![para_a]);
    let item_b = crate::builder::ListItemTypeV::Plain(seq![para_b]);

    lemma_route_div_start(s0, Seq::empty());
    assert(spec_flush(s0) =~= s0);
    assert(s1 =~= (StateV { stack: s0.stack.push(div_frame), ..s0 }));

    let list0 = FrameV::PendingList {
        items: Seq::empty(),
        ordered: false,
        local_id: Option::None,
        local_tag: Option::None,
    };
    lemma_route_ul_start(s1, Seq::empty());
    assert(s2 =~= (StateV { stack: s1.stack.push(list0), ..s1 })) by {
        assert((StateV { custom_id: Option::None, custom_tag: Option::None, ..s1 }) =~= s1);
        assert(spec_flush(s1) =~= s1);
    }

    lemma_list_item_steps(s2, a, Seq::empty(), false, Option::None, Option::None);
    let list1 = FrameV::PendingList {
        items: seq![item_a],
        ordered: false,
        local_id: Option::None,
        local_tag: Option::None,
    };
    assert(s7 =~= (StateV {
        stack: seq![FrameV::Document(Seq::empty()), div_frame, list1],
        ..s2
    })) by {
        assert(Seq::<crate::builder::ListItemTypeV>::empty().push(item_a) =~= seq![item_a]);
        assert(s2.stack.drop_last().push(list1) =~= seq![
            FrameV::Document(Seq::empty()),
            div_frame,
            list1,
        ]);
    }

    lemma_list_item_steps(s7, b, seq![item_a], false, Option::None, Option::None);
    let list2 = FrameV::PendingList {
        items: seq![item_a, item_b],
        ordered: false,
        local_id: Option::None,
        local_tag: Option::None,
    };
    assert(s12 =~= (StateV {
        stack: seq![FrameV::Document(Seq::empty()), div_frame, list2],
        ..s7
    })) by {
        assert(seq![item_a].push(item_b) =~= seq![item_a, item_b]);
        assert(s7.stack.drop_last().push(list2) =~= seq![
            FrameV::Document(Seq::empty()),
            div_frame,
            list2,
        ]);
    }

    let list_node = BlockV::BulletList { items: seq![seq![para_a], seq![para_b]] };
    lemma_route_ul_end(s12);
    assert(s13 =~= (StateV {
        stack: seq![
            FrameV::Document(Seq::empty()),
            FrameV::CustomBlock(CustomBlockType::Div, seq![list_node], Seq::empty()),
        ],
        ..s12
    })) by {
        assert(spec_flush(s12) =~= s12);
        assert(s12.stack.last() == list2);
        assert(s12.stack.drop_last().last() == div_frame);
        assert(crate::builder::plain_items_of(seq![item_a, item_b]) =~= seq![
            seq![para_a],
            seq![para_b],
        ]) by {
            assert(seq![item_a, item_b].drop_last() =~= seq![item_a]);
            assert(seq![item_a].drop_last() =~= Seq::<crate::builder::ListItemTypeV>::empty());
            assert(crate::builder::plain_items_of(
                Seq::<crate::builder::ListItemTypeV>::empty(),
            ) =~= Seq::<Seq<BlockV>>::empty());
        }
        assert(crate::builder::spec_pending_list_node(
            seq![item_a, item_b],
            false,
            Option::None,
            Option::None,
        ) == list_node);
        assert(Seq::<BlockV>::empty().push(list_node) =~= seq![list_node]);
        assert(s12.stack.drop_last().drop_last().push(
            FrameV::CustomBlock(CustomBlockType::Div, seq![list_node], Seq::empty()),
        ) =~= seq![
            FrameV::Document(Seq::empty()),
            FrameV::CustomBlock(CustomBlockType::Div, seq![list_node], Seq::empty()),
        ]);
    }

    lemma_route_div_end(s13);
    assert(s14 =~= (StateV { stack: seq![FrameV::Document(seq![list_node])], ..s13 })) by {
        assert(spec_flush(s13) =~= s13);
        assert(s13.stack.last() == FrameV::CustomBlock(
            CustomBlockType::Div,
            seq![list_node],
            Seq::empty(),
        ));
        assert(attr_get(Seq::<AttrV>::empty(), "style"@) is None);
        let s13p = StateV { stack: s13.stack.drop_last(), ..s13 };
        assert(s13p.stack =~= seq![FrameV::Document(Seq::<BlockV>::empty())]);
        assert(spec_div_end(s13) == spec_splice(s13p, seq![list_node]));
        assert(seq![list_node].subrange(1, 1) =~= Seq::<BlockV>::empty());
        assert(spec_splice(s13p, seq![list_node]) == spec_splice(
            spec_push_node_block(s13p, list_node),
            Seq::empty(),
        ));
        assert(spec_push_node_block(s13p, list_node).stack =~= seq![
            FrameV::Document(seq![list_node]),
        ]) by {
            assert(s13p.stack.last() == FrameV::Document(Seq::<BlockV>::empty()));
            assert(Seq::<BlockV>::empty().push(list_node) =~= seq![list_node]);
            assert(s13p.stack.drop_last().push(FrameV::Document(seq![list_node])) =~= seq![
                FrameV::Document(seq![list_node]),
            ]);
        }
    }

    assert(spec_build_doc(s14) == Option::Some(
        (BlockV::Doc { content: seq![list_node], version: 1 }),
    )) by {
        assert(spec_flush(s14) =~= s14);
        assert(spec_close_all(s14, s14.stack.len()) == s14);
        assert(s14.stack[0] == FrameV::Document(seq![list_node]));
    }
}

/// Tag routing: a strong start tag reaches the strong-mark handler.
pub proof fn lemma_route_strong_start(s: StateV, attrs: Seq<AttrV>)
    ensures
        spec_step_start(s, "strong"@, attrs) == crate::builder::spec_add_mark(
            spec_flush(s),
            MarkV::Strong,
        ),
{
    reveal_strlit("a");
    reveal_strlit("img");
    reveal_strlit("ul");
    reveal_strlit("ol");
    reveal_strlit("li");
    reveal_strlit("p");
    reveal_strlit("pre");
    reveal_strlit("blockquote");
    reveal_strlit("em");
    reveal_strlit("strong");
    assert(("strong"@).len() == 6 && ("a"@).len() == 1 && ("img"@).len() == 3 && ("ul"@).len()
        == 2 && ("ol"@).len() == 2 && ("li"@).len() == 2 && ("p"@).len() == 1 && ("pre"@).len()
        == 3 && ("blockquote"@).len() == 10 && ("em"@).len() == 2);
}

/// Tag routing: an emphasis start tag reaches the emphasis-mark handler.
pub proof fn lemma_route_em_start(s: StateV, attrs: Seq<AttrV>)
    ensures
        spec_step_start(s, "em"@, attrs) == crate::builder::spec_add_mark(
            spec_flush(s),
            MarkV::Em,
        ),
{
    reveal_strlit("a");
    reveal_strlit("img");
    reveal_strlit("ul");
    reveal_strlit("ol");
    reveal_strlit("li");
    reveal_strlit("p");
    reveal_strlit("pre");
    reveal_strlit("blockquote");
    reveal_strlit("em");
    assert(("em"@).len() == 2 && ("a"@).len() == 1 && ("img"@).len() == 3 && ("p"@).len() == 1
        && ("pre"@).len() == 3 && ("blockquote"@).len() == 10);
    assert(("ul"@)[0] == 'u' && ("ol"@)[0] == 'o' && ("li"@)[0] == 'l' && ("em"@)[0] == 'e');
    assert("em"@ != "ul"@ && "em"@ != "ol"@ && "em"@ != "li"@);
}

/// Tag routing: an emphasis end tag pops the most recent emphasis mark.
pub proof fn lemma_route_em_end(s: StateV)
    ensures
        spec_step_end(s, "em"@) == crate::builder::spec_pop_mark(spec_flush(s), MarkKind::Em),
{
    reveal_strlit("a");
    reveal_strlit("ul");
    reveal_strlit("ol");
    reveal_strlit("pre");
    reveal_strlit("blockquote");
    reveal_strlit("li");
    reveal_strlit("p");
    reveal_strlit("em");
    assert(("em"@).len() == 2 && ("a"@).len() == 1 && ("p"@).len() == 1 && ("pre"@).len() == 3
        && ("blockquote"@).len() == 10);
    assert(("ul"@)[0] == 'u' && ("ol"@)[0] == 'o' && ("li"@)[0] == 'l' && ("em"@)[0] == 'e');
    assert("em"@ != "ul"@ && "em"@ != "ol"@ && "em"@ != "li"@);
}

/// Tag routing: a strong end tag pops the most recent strong mark.
pub proof fn lemma_route_strong_end(s: StateV)
    ensures
        spec_step_end(s, "strong"@) == crate::builder::spec_pop_mark(
            spec_flush(s),
            MarkKind::Strong,
        ),
{
    reveal_strlit("a");
    reveal_strlit("ul");
    reveal_strlit("ol");
    reveal_strlit("pre");
    reveal_strlit("blockquote");
    reveal_strlit("li");
    reveal_strlit("p");
    reveal_strlit("em");
    reveal_strlit("strong");
    assert(("strong"@).len() == 6 && ("a"@).len() == 1 && ("p"@).len() == 1 && ("pre"@).len()
        == 3 && ("blockquote"@).len() == 10 && ("ul"@).len() == 2 && ("ol"@).len() == 2 && (
    "li"@).len() == 2 && ("em"@).len() == 2);
}

/// A fourth record of the round-trip identity: a paragraph holding one text
/// run with the stacked marks strong and emphasis, in that order, builds
/// back to exactly itself — the mark vector is preserved element for
/// element.
#[verifier::rlimit(100)]
pub proof fn lemma_round_trip_stacked_marks(t: Seq<char>)
    requires
        clean_spec(t) == t,
        trim_spec(t).len() > 0,
    ensures
        spec_build(
            seq![
                EventV::Start { name: "div"@, attrs: Seq::empty(), self_closing: false },
                EventV::Start { name: "p"@, attrs: Seq::empty(), self_closing: false },
                EventV::Start { name: "strong"@, attrs: Seq::empty(), self_closing: false },
                EventV::Start { name: "em"@, attrs: Seq::empty(), self_closing: false },
                EventV::Chars(t),
                EventV::End { name: "em"@ },
                EventV::End { name: "strong"@ },
                EventV::End { name: "p"@ },
                EventV::End { name: "div"@ },
            ],
        ) == Option::Some(
            (BlockV::Doc {
                content: seq![
                    BlockV::Paragraph {
                        content: Option::Some(
                            seq![
                                InlineV::Text {
                                    text: t,
                                    marks: Option::Some(seq![MarkV::Strong, MarkV::Em]),
                                },
                            ],
                        ),
                    },
                ],
                version: 1,
            }),
        ),
{
    let evs = seq![
        EventV::Start { name: "div"@, attrs: Seq::<AttrV>::empty(), self_closing: false },
        EventV::Start { name: "p"@, attrs: Seq::<AttrV>::empty(), self_closing: false },
        EventV::Start { name: "strong"@, attrs: Seq::<AttrV>::empty(), self_closing: false },
        EventV::Start { name: "em"@, attrs: Seq::<AttrV>::empty(), self_closing: false },
        EventV::Chars(t),
        EventV::End { name: "em"@ },
        EventV::End { name: "strong"@ },
        EventV::End { name: "p"@ },
        EventV::End { name: "div"@ },
    ];
    let s0 = spec_init_state();
    let s1 = spec_step(s0, evs[0]);
    let s2 = spec_step(s1, evs[1]);
    let s3 = spec_step(s2, evs[2]);
    let s4 = spec_step(s3, evs[3]);
    let s5 = spec_step(s4, evs[4]);
    let s6 = spec_step(s5, evs[5]);
    let s7 = spec_step(s6, evs[6]);
    let s8 = spec_step(s7, evs[7]);
    let s9 = spec_step(s8, evs[8]);

    assert(spec_run(s0, evs) == s9) by {
        reveal_with_fuel(spec_run, 10);
        assert forall|k: int| 1 <= k < 9 implies #[trigger] evs.subrange(k, 9)[0] == evs[k]
            && evs.subrange(k, 9).subrange(1, 9 - k) =~= evs.subrange(k + 1, 9) by {}
        assert(evs.subrange(1, 9)[0] == evs[1]);
        assert(evs.subrange(8, 9).subrange(1, 1) =~= Seq::<EventV>::empty());
    }

    let div_frame = FrameV::CustomBlock(CustomBlockType::Div, Seq::empty(), Seq::empty());
    lemma_route_div_start(s0, Seq::empty());
    assert(spec_flush(s0) =~= s0);
    assert(s1 =~= (StateV { stack: s0.stack.push(div_frame), ..s0 }));

    lemma_route_p_start(s1, Seq::empty());
    assert(spec_flush(s1) =~= s1);
    assert(s2 =~= (StateV { stack: s1.stack.push(FrameV::Paragraph(Seq::empty())), ..s1 }));

    lemma_route_strong_start(s2, Seq::empty());
    assert(s3 =~= (StateV { marks: seq![MarkV::Strong], ..s2 })) by {
        assert(spec_flush(s2) =~= s2);
        assert(!Seq::<MarkV>::empty().contains(MarkV::Strong));
        assert(Seq::<MarkV>::empty().push(MarkV::Strong) =~= seq![MarkV::Strong]);
    }

    lemma_route_em_start(s3, Seq::empty());
    assert(s4 =~= (StateV { marks: seq![MarkV::Strong, MarkV::Em], ..s3 })) by {
        assert(spec_flush(s3) =~= s3);
        assert(!seq![MarkV::Strong].contains(MarkV::Em)) by {
            assert(forall|j: int|
                0 <= j < 1 ==> #[trigger] seq![MarkV::Strong][j] != MarkV::Em);
        }
        assert(seq![MarkV::Strong].push(MarkV::Em) =~= seq![MarkV::Strong, MarkV::Em]);
    }

    assert(s5 =~= (StateV { text: t, ..s4 }));

    let txt = InlineV::Text { text: t, marks: Option::Some(seq![MarkV::Strong, MarkV::Em]) };
    lemma_route_em_end(s5);
    assert(s6 =~= (StateV {
        stack: s2.stack.drop_last().push(FrameV::Paragraph(seq![txt])),
        text: Seq::empty(),
        marks: seq![MarkV::Strong],
        ..s5
    })) by {
        let flushed = spec_flush(s5);
        assert(s5.stack.last() == FrameV::Paragraph(Seq::empty()));
        assert(s5.marks.len() > 0);
        assert(Seq::<InlineV>::empty().push(txt) =~= seq![txt]);
        assert(flushed =~= (StateV {
            stack: s5.stack.drop_last().push(FrameV::Paragraph(seq![txt])),
            text: Seq::empty(),
            ..s5
        }));
        assert(seq![MarkV::Strong, MarkV::Em].last() == MarkV::Em);
        assert(seq![MarkV::Strong, MarkV::Em].drop_last() =~= seq![MarkV::Strong]);
        assert(crate::builder::pop_last_matching(
            seq![MarkV::Strong, MarkV::Em],
            MarkKind::Em,
        ) =~= seq![MarkV::Strong]);
        assert(s5.stack.drop_last() =~= s2.stack.drop_last());
    }

    lemma_route_strong_end(s6);
    assert(s7 =~= (StateV { marks: Seq::empty(), ..s6 })) by {
        assert(spec_flush(s6) =~= s6);
        assert(seq![MarkV::Strong].last() == MarkV::Strong);
        assert(seq![MarkV::Strong].drop_last() =~= Seq::<MarkV>::empty());
        assert(crate::builder::pop_last_matching(seq![MarkV::Strong], MarkKind::Strong)
            =~= Seq::<MarkV>::empty());
    }

    let para_node = BlockV::Paragraph { content: Option::Some(seq![txt]) };
    lemma_route_p_end(s7);
    assert(s8 =~= (StateV {
        stack: seq![
            FrameV::Document(Seq::empty()),
            FrameV::CustomBlock(CustomBlockType::Div, seq![para_node], Seq::empty()),
        ],
        ..s7
    })) by {
        assert(spec_flush(s7) =~= s7);
        assert(s7.stack.last() == FrameV::Paragraph(seq![txt]));
        assert(s7.stack.drop_last().last() == div_frame);
        assert(spec_p_end(s7) == spec_close_block(s7));
        assert(Seq::<BlockV>::empty().push(para_node) =~= seq![para_node]);
        assert(s7.stack.drop_last().drop_last().push(
            FrameV::CustomBlock(CustomBlockType::Div, seq![para_node], Seq::empty()),
        ) =~= seq![
            FrameV::Document(Seq::empty()),
            FrameV::CustomBlock(CustomBlockType::Div, seq![para_node], Seq::empty()),
        ]);
    }

    lemma_route_div_end(s8);
    assert(s9 =~= (StateV { stack: seq![FrameV::Document(seq![para_node])], ..s8 })) by {
        assert(spec_flush(s8) =~= s8);
        assert(s8.stack.last() == FrameV::CustomBlock(
            CustomBlockType::Div,
            seq![para_node],
            Seq::empty(),
        ));
        assert(attr_get(Seq::<AttrV>::empty(), "style"@) is None);
        let s8p = StateV { stack: s8.stack.drop_last(), ..s8 };
        assert(s8p.stack =~= seq![FrameV::Document(Seq::<BlockV>::empty())]);
        assert(spec_div_end(s8) == spec_splice(s8p, seq![para_node]));
        assert(seq![para_node].subrange(1, 1) =~= Seq::<BlockV>::empty());
        assert(spec_splice(s8p, seq![para_node]) == spec_splice(
            spec_push_node_block(s8p, para_node),
            Seq::empty(),
        ));
        assert(spec_push_node_block(s8p, para_node).stack =~= seq![
            FrameV::Document(seq![para_node]),
        ]) by {
            assert(s8p.stack.last() == FrameV::Document(Seq::<BlockV>::empty()));
            assert(Seq::<BlockV>::empty().push(para_node) =~= seq![para_node]);
            assert(s8p.stack.drop_last().push(FrameV::Document(seq![para_node])) =~= seq![
                FrameV::Document(seq![para_node]),
            ]);
        }
    }

    assert(spec_build_doc(s9) == Option::Some(
        (BlockV::Doc { content: seq![para_node], version: 1 }),
    )) by {
        assert(spec_flush(s9) =~= s9);
        assert(spec_close_all(s9, s9.stack.len()) == s9);
        assert(s9.stack[0] == FrameV::Document(seq![para_node]));
    }
}

} // verus!
