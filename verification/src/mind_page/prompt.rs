//! Streaming parser for the concept markup a model writes, which may be preceded by
//! a `<think>...</think>` section.

use crate::concept_tags::{classify_tag, tag_name, TagName};
use crate::mind::llm_adapters::{is_message, Message};
use crate::text::{
    chars_of, find_chars, first_occurrence, lemma_first_occurrence, lossy_string, occurs_at,
    utf8_lossy,
};
use crate::xml::{
    event_tokens, is_terminal, text_content, text_of, xml_events, xml_tokens, XmlEvent, XmlToken,
};
use vstd::prelude::*;
use vstd::string::*;

verus! {

/// A concept: its core, the clarification that narrows it, and the concept it was
/// derived from.
#[derive(Debug, PartialEq, Eq)]
pub struct Concept {
    pub core: String,
    pub clarification: String,
    pub parent: Option<Box<Concept>>,
}

/// The text of a concept and of each of its ancestors, nearest first.
pub open spec fn lineage(c: Concept) -> Seq<(Seq<char>, Seq<char>)>
    decreases c,
{
    match c.parent {
        Some(p) => seq![(c.core@, c.clarification@)] + lineage(*p),
        None => seq![(c.core@, c.clarification@)],
    }
}

impl Clone for Concept {
    /// A deep copy: the same texts, and a copy of each ancestor.
    fn clone(&self) -> (c: Self)
        ensures
            lineage(c) == lineage(*self),
        decreases self,
    {
        let parent = match &self.parent {
            Some(p) => Some(Box::new((**p).clone())),
            None => None,
        };
        Concept { core: self.core.clone(), clarification: self.clarification.clone(), parent }
    }
}

impl Concept {
    /// An empty concept derived from `parent`.
    pub fn new(parent: Option<Self>) -> (c: Self)
        ensures
            c.core@ == Seq::<char>::empty(),
            c.clarification@ == Seq::<char>::empty(),
            c.parent == match parent {
                Some(p) => Some(Box::new(p)),
                None => None::<Box<Concept>>,
            },
    {
        let parent = match parent {
            Some(p) => Some(Box::new(p)),
            None => None,
        };
        Concept { core: String::new(), clarification: String::new(), parent }
    }
}

/// What the parser has read so far: the thinking section, if any, and the concepts.
pub struct ParseResult {
    pub thinking: Option<String>,
    pub sub_concepts: Vec<Concept>,
}

/// Accumulates the chunks a model streams and parses them as a whole each time.
pub struct ConceptStreamParser {
    buffer: String,
}

/// Where the parser stands in the markup.
pub enum TagModel {
    Outside,
    Unknown(Seq<char>),
    InConcepts,
    InConcept,
    InCore,
    InClarification,
}

/// The state of the parse: the tag state, the concepts as (core, clarification)
/// pairs, and whether the input is one the parser cannot accept.
pub struct ParseModel {
    pub tag: TagModel,
    pub concepts: Seq<(Seq<char>, Seq<char>)>,
    pub aborted: bool,
}

/// The state before any event: outside all tags, no concepts.
pub open spec fn initial_model() -> ParseModel {
    ParseModel { tag: TagModel::Outside, concepts: Seq::empty(), aborted: false }
}

/// `m` with the tag state `tag`.
pub open spec fn with_tag(m: ParseModel, tag: TagModel) -> ParseModel {
    ParseModel { tag, concepts: m.concepts, aborted: m.aborted }
}

/// `m` marked as not acceptable.
pub open spec fn aborted_model(m: ParseModel) -> ParseModel {
    ParseModel { tag: m.tag, concepts: m.concepts, aborted: true }
}

/// Appends `s` to the core (`field == 0`) or clarification of the last concept.
pub open spec fn extend_last(
    cs: Seq<(Seq<char>, Seq<char>)>,
    field: int,
    s: Seq<char>,
) -> Seq<(Seq<char>, Seq<char>)> {
    let last = cs.last();
    cs.update(
        cs.len() - 1,
        if field == 0 {
            (last.0 + s, last.1)
        } else {
            (last.0, last.1 + s)
        },
    )
}

/// One event of the markup applied to the parse state.
pub open spec fn step(m: ParseModel, t: XmlToken) -> ParseModel {
    match t {
        XmlToken::Start(n) => match m.tag {
            TagModel::Unknown(_) => m,
            _ => match tag_name(n) {
                TagName::Concepts => with_tag(m, TagModel::InConcepts),
                TagName::Concept => ParseModel {
                    tag: TagModel::InConcept,
                    concepts: m.concepts.push((Seq::empty(), Seq::empty())),
                    aborted: m.aborted,
                },
                TagName::Core => with_tag(m, TagModel::InCore),
                TagName::Clarification => with_tag(m, TagModel::InClarification),
                TagName::Other => if m.tag is Outside {
                    with_tag(m, TagModel::Unknown(utf8_lossy(n)))
                } else {
                    m
                },
            },
        },
        XmlToken::End(n) => match m.tag {
            TagModel::Unknown(u) => if u == utf8_lossy(n) {
                with_tag(m, TagModel::Outside)
            } else {
                m
            },
            _ => match tag_name(n) {
                TagName::Concepts => if m.tag is InConcepts {
                    with_tag(m, TagModel::Outside)
                } else {
                    aborted_model(m)
                },
                TagName::Concept => if m.tag is InConcept {
                    with_tag(m, TagModel::InConcepts)
                } else {
                    aborted_model(m)
                },
                TagName::Core => if m.tag is InCore {
                    with_tag(m, TagModel::InConcept)
                } else {
                    aborted_model(m)
                },
                TagName::Clarification => if m.tag is InClarification {
                    with_tag(m, TagModel::InConcept)
                } else {
                    aborted_model(m)
                },
                TagName::Other => m,
            },
        },
        XmlToken::Text(raw) => match m.tag {
            TagModel::InCore => match text_content(raw) {
                Some(s) => if m.concepts.len() == 0 {
                    aborted_model(m)
                } else {
                    ParseModel { tag: m.tag, concepts: extend_last(m.concepts, 0, s), aborted: m.aborted }
                },
                None => aborted_model(m),
            },
            TagModel::InClarification => match text_content(raw) {
                Some(s) => if m.concepts.len() == 0 {
                    aborted_model(m)
                } else {
                    ParseModel { tag: m.tag, concepts: extend_last(m.concepts, 1, s), aborted: m.aborted }
                },
                None => aborted_model(m),
            },
            _ => m,
        },
        _ => m,
    }
}

/// The parse state after the events `ts`, read up to the end of input or the first
/// error, or up to the first event the parser cannot accept.
pub open spec fn run(m: ParseModel, ts: Seq<XmlToken>) -> ParseModel
    decreases ts.len(),
{
    if ts.len() == 0 || m.aborted || is_terminal(ts[0]) {
        m
    } else {
        run(step(m, ts[0]), ts.drop_first())
    }
}

/// The parse of a whole event stream.
pub open spec fn parse_tokens(ts: Seq<XmlToken>) -> ParseModel {
    run(initial_model(), ts)
}

/// The thinking section: the text after the first `<think>` up to the first
/// `</think>`, or to the end where there is none.
pub open spec fn thinking_of(b: Seq<char>) -> Option<Seq<char>> {
    match first_occurrence(b, "<think>"@) {
        None => None,
        Some(ts) => match first_occurrence(b, "</think>"@) {
            Some(te) => Some(b.subrange(ts + "<think>"@.len(), te)),
            None => Some(b.skip(ts + "<think>"@.len())),
        },
    }
}

/// The thinking section can be cut out: where both markers occur, the first
/// `</think>` does not begin before the first `<think>` ends.
pub open spec fn think_split_ok(b: Seq<char>) -> bool {
    match (first_occurrence(b, "<think>"@), first_occurrence(b, "</think>"@)) {
        (Some(ts), Some(te)) => ts + "<think>"@.len() <= te,
        _ => true,
    }
}

/// The text after the first `</think>`, or all of it where there is none.
pub open spec fn output_of(b: Seq<char>) -> Seq<char> {
    match first_occurrence(b, "</think>"@) {
        Some(te) => b.skip(te + "</think>"@.len()),
        None => b,
    }
}

/// The concepts parsed from the text `b` accumulated so far.
pub open spec fn concepts_of(b: Seq<char>) -> Seq<(Seq<char>, Seq<char>)> {
    parse_tokens(xml_tokens(output_of(b))).concepts
}

/// The accumulated text is one the parser accepts.
pub open spec fn accepts(b: Seq<char>) -> bool {
    think_split_ok(b) && !parse_tokens(xml_tokens(output_of(b))).aborted
}

/// `v` holds exactly the concepts `m`, each without a parent.
pub open spec fn concepts_match(v: Seq<Concept>, m: Seq<(Seq<char>, Seq<char>)>) -> bool {
    &&& v.len() == m.len()
    &&& forall|i: int|
        0 <= i < v.len() ==> (#[trigger] v[i]).core@ == m[i].0 && v[i].clarification@ == m[i].1
            && v[i].parent is None
}

/// What a parse result says of the accumulated text `b`.
pub open spec fn result_matches(r: ParseResult, b: Seq<char>) -> bool {
    &&& match r.thinking {
        Some(t) => thinking_of(b) == Some(t@),
        None => thinking_of(b) is None,
    }
    &&& concepts_match(r.sub_concepts@, concepts_of(b))
}

enum TagState {
    Outside,
    Unknown(String),
    InConcepts,
    InConcept,
    InCore,
    InClarification,
}

impl View for TagState {
    type V = TagModel;

    closed spec fn view(&self) -> TagModel {
        match self {
            TagState::Outside => TagModel::Outside,
            TagState::Unknown(s) => TagModel::Unknown(s@),
            TagState::InConcepts => TagModel::InConcepts,
            TagState::InConcept => TagModel::InConcept,
            TagState::InCore => TagModel::InCore,
            TagState::InClarification => TagModel::InClarification,
        }
    }
}

/// The (core, clarification) pairs of `v`.
pub open spec fn concept_pairs(v: Seq<Concept>) -> Seq<(Seq<char>, Seq<char>)> {
    v.map_values(|c: Concept| (c.core@, c.clarification@))
}

proof fn lemma_run_aborted(m: ParseModel, ts: Seq<XmlToken>)
    requires
        m.aborted,
    ensures
        run(m, ts) == m,
{
}

/// One step of `run` on a stream whose first event is not terminal.
proof fn lemma_run_step(m: ParseModel, ts: Seq<XmlToken>)
    requires
        ts.len() > 0,
        !m.aborted,
    ensures
        is_terminal(ts[0]) ==> run(m, ts) == m,
        !is_terminal(ts[0]) ==> run(m, ts) == run(step(m, ts[0]), ts.drop_first()),
        !is_terminal(ts[0]) && step(m, ts[0]).aborted ==> run(m, ts) == step(m, ts[0]),
{
    if !is_terminal(ts[0]) && step(m, ts[0]).aborted {
        lemma_run_aborted(step(m, ts[0]), ts.drop_first());
    }
}

/// Parses the concept markup in `text`; `None` where the markup is one the parser
/// cannot accept (a closing tag out of place, text that cannot be unescaped, or text
/// inside `core`/`clarification` before any `concept`).
pub fn parse_concepts(text: &str) -> (r: Option<Vec<Concept>>)
    ensures
        r is None <==> parse_tokens(xml_tokens(text@)).aborted,
        r matches Some(v) ==> concepts_match(v@, parse_tokens(xml_tokens(text@)).concepts),
{
    let events = xml_events(text);
    parse_events(&events)
}

/// Parses the concept markup read as `events`; `None` where the parser cannot accept
/// them.
pub fn parse_events(events: &Vec<XmlEvent>) -> (r: Option<Vec<Concept>>)
    ensures
        r is None <==> parse_tokens(event_tokens(events@)).aborted,
        r matches Some(v) ==> concepts_match(v@, parse_tokens(event_tokens(events@)).concepts),
{
    let ghost all = event_tokens(events@);
    let mut tag = TagState::Outside;
    let mut output: Vec<Concept> = Vec::new();
    assert(concept_pairs(output@) =~= Seq::empty());
    assert(all.skip(0) =~= all);
    let mut i: usize = 0;
    while i < events.len()
        invariant
            all == event_tokens(events@),
            i <= events.len(),
            parse_tokens(all) == run(
                ParseModel { tag: tag@, concepts: concept_pairs(output@), aborted: false },
                all.skip(i as int),
            ),
            forall|j: int| 0 <= j < output@.len() ==> (#[trigger] output@[j]).parent is None,
        decreases events.len() - i,
    {
        let ghost pending = all.skip(i as int);
        let ghost m = ParseModel { tag: tag@, concepts: concept_pairs(output@), aborted: false };
        let event = &events[i];
        proof {
            assert(pending[0] == event@);
            assert(pending.drop_first() =~= all.skip(i + 1));
            lemma_run_step(m, pending);
        }
        i = i + 1;
        match event {
            XmlEvent::Eof | XmlEvent::Error => {
                assert(is_terminal(pending[0]));
                assert(parse_tokens(all) == m);
                assert(concepts_match(output@, concept_pairs(output@)));
                return Some(output);
            },
            XmlEvent::Other => {},
            XmlEvent::Start(name) => {
                match tag {
                    TagState::Unknown(_) => {},
                    _ => {
                        match classify_tag(name) {
                            TagName::Concepts => {
                                tag = TagState::InConcepts;
                            },
                            TagName::Concept => {
                                tag = TagState::InConcept;
                                output.push(Concept::new(None));
                                assert(concept_pairs(output@) =~= m.concepts.push(
                                    (Seq::empty(), Seq::empty()),
                                ));
                            },
                            TagName::Core => {
                                tag = TagState::InCore;
                            },
                            TagName::Clarification => {
                                tag = TagState::InClarification;
                            },
                            TagName::Other => {
                                if let TagState::Outside = tag {
                                    tag = TagState::Unknown(lossy_string(name));
                                }
                            },
                        }
                    },
                }
            },
            XmlEvent::End(name) => {
                let unknown_closed = match &tag {
                    TagState::Unknown(u) => Some(u.eq(&lossy_string(name))),
                    _ => None,
                };
                match unknown_closed {
                    Some(closes) => {
                        if closes {
                            tag = TagState::Outside;
                        }
                    },
                    None => {
                        match classify_tag(name) {
                            TagName::Concepts => {
                                if let TagState::InConcepts = tag {
                                    tag = TagState::Outside;
                                } else {
                                    return None;
                                }
                            },
                            TagName::Concept => {
                                if let TagState::InConcept = tag {
                                    tag = TagState::InConcepts;
                                } else {
                                    return None;
                                }
                            },
                            TagName::Core => {
                                if let TagState::InCore = tag {
                                    tag = TagState::InConcept;
                                } else {
                                    return None;
                                }
                            },
                            TagName::Clarification => {
                                if let TagState::InClarification = tag {
                                    tag = TagState::InConcept;
                                } else {
                                    return None;
                                }
                            },
                            TagName::Other => {},
                        }
                    },
                }
            },
            XmlEvent::Text(raw) => {
                let field: u8 = match tag {
                    TagState::InCore => 0,
                    TagState::InClarification => 1,
                    _ => 2,
                };
                if field < 2 {
                    match text_of(raw) {
                        None => {
                            return None;
                        },
                        Some(s) => {
                            if output.len() == 0 {
                                return None;
                            }
                            let mut last = output.pop().unwrap();
                            if field == 0 {
                                last.core.append(s.as_str());
                            } else {
                                last.clarification.append(s.as_str());
                            }
                            output.push(last);
                            assert(concept_pairs(output@) =~= extend_last(
                                m.concepts,
                                field as int,
                                s@,
                            ));
                        },
                    }
                }
            },
        }
    }
    proof {
        assert(all.skip(i as int).len() == 0);
        assert(concepts_match(output@, concept_pairs(output@)));
    }
    Some(output)
}

} // verus!

verus! {

/// Whether the thinking section can be cut out of `text`.
pub fn thinking_splits(text: &str) -> (b: bool)
    ensures
        b == think_split_ok(text@),
{
    let v = chars_of(text);
    let open = chars_of("<think>");
    let close = chars_of("</think>");
    proof {
        reveal_strlit("<think>");
        reveal_strlit("</think>");
    }
    match (find_chars(&v, &open), find_chars(&v, &close)) {
        (Some(ts), Some(te)) => {
            proof {
                lemma_first_occurrence(text@, "<think>"@);
                assert(open@.len() == 7);
                assert(v@ == text@);
                assert(open@ == "<think>"@);
                assert(occurs_at(text@, "<think>"@, ts as int));
                assert(ts + 7 <= v.len());
            }
            ts + 7 <= te
        },
        _ => true,
    }
}

/// The thinking section of `text`.
pub fn thinking_section(text: &str) -> (r: Option<String>)
    requires
        think_split_ok(text@),
    ensures
        match r {
            Some(t) => thinking_of(text@) == Some(t@),
            None => thinking_of(text@) is None,
        },
{
    let v = chars_of(text);
    let open = chars_of("<think>");
    let close = chars_of("</think>");
    proof {
        reveal_strlit("<think>");
        reveal_strlit("</think>");
        lemma_first_occurrence(text@, "<think>"@);
        lemma_first_occurrence(text@, "</think>"@);
        assert(open@.len() == 7);
        assert(close@.len() == 8);
    }
    match find_chars(&v, &open) {
        None => None,
        Some(ts) => {
            proof {
                assert(occurs_at(text@, "<think>"@, ts as int));
                assert(ts + 7 <= v.len());
            }
            let start = ts + 7;
            match find_chars(&v, &close) {
                Some(te) => {
                    proof {
                        assert(occurs_at(text@, "</think>"@, te as int));
                    }
                    Some(text.substring_char(start, te).to_owned())
                },
                None => Some(text.substring_char(start, v.len()).to_owned()),
            }
        },
    }
}

/// `text` after the thinking section.
pub fn output_section(text: &str) -> (r: String)
    ensures
        r@ == output_of(text@),
{
    let v = chars_of(text);
    let close = chars_of("</think>");
    proof {
        reveal_strlit("</think>");
        lemma_first_occurrence(text@, "</think>"@);
        assert(close@.len() == 8);
    }
    match find_chars(&v, &close) {
        Some(te) => {
            proof {
                assert(occurs_at(text@, "</think>"@, te as int));
                assert(te + 8 <= v.len());
            }
            text.substring_char(te + 8, v.len()).to_owned()
        },
        None => text.to_owned(),
    }
}


impl View for ConceptStreamParser {
    type V = Seq<char>;

    /// The text accumulated so far.
    closed spec fn view(&self) -> Seq<char> {
        self.buffer@
    }
}

impl ConceptStreamParser {
    /// A parser that has read nothing yet.
    pub fn new() -> (p: Self)
        ensures
            p@ == Seq::<char>::empty(),
    {
        ConceptStreamParser { buffer: String::new() }
    }

    /// Whether the thinking section can be cut out of the accumulated text.
    pub fn think_split_ok(&self) -> (b: bool)
        ensures
            b == think_split_ok(self@),
    {
        thinking_splits(self.buffer.as_str())
    }

    /// The thinking section of the accumulated text.
    pub fn thinking_content(&self) -> (r: Option<String>)
        requires
            think_split_ok(self@),
        ensures
            match r {
                Some(t) => thinking_of(self@) == Some(t@),
                None => thinking_of(self@) is None,
            },
    {
        thinking_section(self.buffer.as_str())
    }

    /// The accumulated text after the thinking section.
    pub fn output_content(&self) -> (r: String)
        ensures
            r@ == output_of(self@),
    {
        output_section(self.buffer.as_str())
    }

    fn parse(&self) -> (r: ParseResult)
        requires
            accepts(self@),
        ensures
            result_matches(r, self@),
    {
        let thinking = self.thinking_content();
        let output = self.output_content();
        let sub_concepts = parse_concepts(output.as_str()).unwrap();
        ParseResult { thinking, sub_concepts }
    }

    /// Appends a chunk of the model's answer and parses all text accumulated so far.
    pub fn push_chunk(&mut self, chunk: &str) -> (r: ParseResult)
        requires
            accepts(old(self)@ + chunk@),
        ensures
            final(self)@ == old(self)@ + chunk@,
            result_matches(r, final(self)@),
    {
        self.buffer.append(chunk);
        self.parse()
    }

    /// Appends a chunk and parses, where the resulting text is one the parser accepts;
    /// otherwise leaves the parser as it was and returns `None`.
    pub fn try_push_chunk(&mut self, chunk: &str) -> (r: Option<ParseResult>)
        ensures
            match r {
                Some(res) => accepts(old(self)@ + chunk@) && final(self)@ == old(self)@ + chunk@
                    && result_matches(res, final(self)@),
                None => !accepts(old(self)@ + chunk@) && final(self)@ == old(self)@,
            },
    {
        let mut candidate = self.buffer.clone();
        candidate.append(chunk);
        let probe = ConceptStreamParser { buffer: candidate };
        if !probe.think_split_ok() {
            return None;
        }
        let output = probe.output_content();
        match parse_concepts(output.as_str()) {
            None => None,
            Some(_) => Some(self.push_chunk(chunk)),
        }
    }
}

/// Chunk boundaries do not matter: pushing `c1` and then `c2` onto a parser holding
/// `s` leaves the same text as pushing `c1 + c2` at once, that text is accepted or
/// refused alike, and the result of the last push agrees with the result of the single
/// push on the thinking section and on every concept.
pub proof fn law_chunking_invariant(
    s: Seq<char>,
    c1: Seq<char>,
    c2: Seq<char>,
    split: ParseResult,
    whole: ParseResult,
)
    requires
        result_matches(split, (s + c1) + c2),
        result_matches(whole, s + (c1 + c2)),
    ensures
        (s + c1) + c2 == s + (c1 + c2),
        accepts((s + c1) + c2) == accepts(s + (c1 + c2)),
        same_result(split, whole),
{
    assert((s + c1) + c2 =~= s + (c1 + c2));
    law_result_determined(split, whole, s + (c1 + c2));
}

/// Two parse results with the same thinking section and the same concepts, in order.
pub open spec fn same_result(r1: ParseResult, r2: ParseResult) -> bool {
    &&& r1.sub_concepts@.len() == r2.sub_concepts@.len()
    &&& forall|i: int|
        0 <= i < r1.sub_concepts@.len() ==> (#[trigger] r1.sub_concepts@[i]).core@
            == r2.sub_concepts@[i].core@ && r1.sub_concepts@[i].clarification@
            == r2.sub_concepts@[i].clarification@
    &&& match (r1.thinking, r2.thinking) {
        (Some(t1), Some(t2)) => t1@ == t2@,
        (None, None) => true,
        _ => false,
    }
}

/// Two parse results of the same text agree on the thinking section and the concepts.
pub proof fn law_result_determined(r1: ParseResult, r2: ParseResult, b: Seq<char>)
    requires
        result_matches(r1, b),
        result_matches(r2, b),
    ensures
        same_result(r1, r2),
{
}

} // verus!

verus! {

/// The instruction that fixes the answer's markup.
pub const DIVERGENCE_SYSTEM_PROMPT: &'static str = "\n你是一名格式专家，所有输出必须严格遵循以下xml标记格式，不要包含任何额外文字，说明或标记。\n严格符合xml格式，不要输出不符合格式的标签。\n常见不符合规范的格式，严禁这样输出！：\n- <tag/>: 应为</tag>\n- </tag/>: 应为</tag>\n\n输出格式示例：\n<concepts>\n    <concept>\n        <core>\n            核心概念1\n        </core>\n        <clarification>\n            概念的明确1(让概念更加限定性)\n        </clarification>\n    </concept>\n    <concept>\n        <core>\n            核心概念2\n        </core>\n        <clarification>\n            概念的明确2(让概念更加限定性)\n        </clarification>\n    </concept>\n</concepts>\n";

/// The request text before the serialized concept.
pub const DIVERGENCE_USER_HEAD: &'static str = "\n根据输入概念信息生成几个相关的子领域内容。\n\n遵循以下要求：\n\n- 输入概念为最外层概念，内层为父概念仅供参考思考历史，以下要求所指“概念”是指最外层概念。\n- 回答语言使用用户输入概念的语言的主导为主导语言。\n- 内容少而精，避免冗长的描述。\n- 生成内容不能高于原概念，比如输入概念是苹果，输出概念就不能是水果(因为它包括苹果)\n- 生成的内容应该是概念的子领域，比如输入概念是苹果，输出概念就不能是香蕉，芒果，因为他们和苹果的概念平行而不是子集。\n- 生成的内容应该是尽量发散到不同方面，避免生成相对重复的内容。\n\n>>>START OF INPUT\n";

/// The request text after the serialized concept.
pub const DIVERGENCE_USER_TAIL: &'static str = "\n>>>END OF INPUT\n";

/// The text of the request for sub-concepts of the concept serialized as `concept_xml`.
pub open spec fn divergence_request(concept_xml: Seq<char>) -> Seq<char> {
    DIVERGENCE_USER_HEAD@ + concept_xml + DIVERGENCE_USER_TAIL@
}

/// The conversation that asks a model for sub-concepts of a concept, given the
/// concept (with its ancestry) serialized as XML: the markup instruction, then the
/// request that embeds the serialized concept.
pub fn divergence(concept_xml: &str) -> (msgs: Vec<Message>)
    ensures
        msgs@.len() == 2,
        is_message(msgs@[0], "system"@, DIVERGENCE_SYSTEM_PROMPT@),
        is_message(msgs@[1], "user"@, divergence_request(concept_xml@)),
{
    let mut request = DIVERGENCE_USER_HEAD.to_owned();
    request.append(concept_xml);
    request.append(DIVERGENCE_USER_TAIL);
    let mut msgs: Vec<Message> = Vec::new();
    msgs.push(Message::system(DIVERGENCE_SYSTEM_PROMPT.to_owned()));
    msgs.push(Message::user(request));
    msgs
}

} // verus!

verus! {

/// Cutting out the thinking section loses nothing: where the text holds both
/// markers in order, it is the text before `<think>`, the marker, the thinking
/// section, `</think>`, and the output.
pub proof fn law_think_split_reassembles(b: Seq<char>)
    requires
        first_occurrence(b, "<think>"@) is Some,
        first_occurrence(b, "</think>"@) is Some,
        think_split_ok(b),
    ensures
        b == b.take(first_occurrence(b, "<think>"@).unwrap()) + "<think>"@ + thinking_of(
            b,
        ).unwrap() + "</think>"@ + output_of(b),
{
    lemma_first_occurrence(b, "<think>"@);
    lemma_first_occurrence(b, "</think>"@);
    let ts = first_occurrence(b, "<think>"@).unwrap();
    let te = first_occurrence(b, "</think>"@).unwrap();
    let o = "<think>"@;
    let c = "</think>"@;
    assert(b.subrange(ts, ts + o.len()) == o);
    assert(b.subrange(te, te + c.len()) == c);
    assert(b =~= b.take(ts) + b.subrange(ts, ts + o.len()) + b.subrange(ts + o.len(), te)
        + b.subrange(te, te + c.len()) + b.skip(te + c.len()));
}

} // verus!

verus! {

/// No occurrence of `</think>` straddles the end of a text that has none and a
/// `</think>` appended to it: the first one is the appended marker.
proof fn lemma_close_marker_first(p: Seq<char>, x: Seq<char>)
    requires
        first_occurrence(p, "</think>"@) is None,
    ensures
        first_occurrence(p + "</think>"@ + x, "</think>"@) == Some(p.len() as int),
{
    reveal_strlit("</think>");
    let c = "</think>"@;
    let b = p + c + x;
    lemma_first_occurrence(p, c);
    lemma_first_occurrence(b, c);
    assert(b.subrange(p.len() as int, p.len() + 8int) =~= c);
    assert(occurs_at(b, c, p.len() as int));
    assert forall|j: int| 0 <= j < p.len() implies !occurs_at(b, c, j) by {
        if occurs_at(b, c, j) {
            if j + 8 <= p.len() {
                assert(b.subrange(j, j + 8) =~= p.subrange(j, j + 8));
                assert(occurs_at(p, c, j));
            } else {
                let d = p.len() - j;
                assert(b.subrange(j, j + 8)[d] == b[p.len() as int]);
                assert(b[p.len() as int] == '<');
                assert(c[d] != '<');
            }
        }
    }
}

/// Text before the first `</think>` never yields or changes concepts: after a prefix
/// `p` holding no `</think>` and the marker itself, the output is exactly the rest `y`,
/// so the concepts are those `y` gives on its own; where `y` holds no `</think>`
/// either, they are the concepts of `y` as a whole text.
pub proof fn law_text_before_think_end_ignored(p: Seq<char>, y: Seq<char>)
    requires
        first_occurrence(p, "</think>"@) is None,
    ensures
        output_of(p + "</think>"@ + y) == y,
        concepts_of(p + "</think>"@ + y) == parse_tokens(xml_tokens(y)).concepts,
        first_occurrence(y, "</think>"@) is None ==> concepts_of(p + "</think>"@ + y)
            == concepts_of(y),
{
    reveal_strlit("</think>");
    lemma_close_marker_first(p, y);
    let b = p + "</think>"@ + y;
    assert(b.skip(p.len() + 8int) =~= y);
}

} // verus!

verus! {

/// Where a walk over the events stands: at the top level, inside a top-level
/// `<concepts>` element, or inside a top-level element with the unrecognised name
/// given (until its first closing tag of that name).
pub enum TopLevel {
    Top,
    InConcepts,
    InUnknown(Seq<char>),
}

/// The number of `<concept>` start tags inside top-level `<concepts>` elements among
/// the events before the end of input or the first error, from the position `w`.
pub open spec fn concepts_in_lists(ts: Seq<XmlToken>, w: TopLevel) -> nat
    decreases ts.len(),
{
    if ts.len() == 0 || is_terminal(ts[0]) {
        0
    } else {
        let rest = ts.drop_first();
        match w {
            TopLevel::Top => match ts[0] {
                XmlToken::Start(n) => match tag_name(n) {
                    TagName::Concepts => concepts_in_lists(rest, TopLevel::InConcepts),
                    TagName::Other => concepts_in_lists(rest, TopLevel::InUnknown(utf8_lossy(n))),
                    _ => concepts_in_lists(rest, w),
                },
                _ => concepts_in_lists(rest, w),
            },
            TopLevel::InConcepts => match ts[0] {
                XmlToken::Start(n) => if tag_name(n) is Concept {
                    1 + concepts_in_lists(rest, w)
                } else {
                    concepts_in_lists(rest, w)
                },
                XmlToken::End(n) => if tag_name(n) is Concepts {
                    concepts_in_lists(rest, TopLevel::Top)
                } else {
                    concepts_in_lists(rest, w)
                },
                _ => concepts_in_lists(rest, w),
            },
            TopLevel::InUnknown(u) => match ts[0] {
                XmlToken::End(n) => if utf8_lossy(n) == u {
                    concepts_in_lists(rest, TopLevel::Top)
                } else {
                    concepts_in_lists(rest, w)
                },
                _ => concepts_in_lists(rest, w),
            },
        }
    }
}

/// Every top-level element among the events before the end of input or the first
/// error, from the position `w`, is a `<concepts>` or has an unrecognised name.
pub open spec fn top_level_is_lists(ts: Seq<XmlToken>, w: TopLevel) -> bool
    decreases ts.len(),
{
    if ts.len() == 0 || is_terminal(ts[0]) {
        true
    } else {
        let rest = ts.drop_first();
        match w {
            TopLevel::Top => match ts[0] {
                XmlToken::Start(n) => match tag_name(n) {
                    TagName::Concepts => top_level_is_lists(rest, TopLevel::InConcepts),
                    TagName::Other => top_level_is_lists(rest, TopLevel::InUnknown(utf8_lossy(n))),
                    _ => false,
                },
                _ => top_level_is_lists(rest, w),
            },
            TopLevel::InConcepts => match ts[0] {
                XmlToken::End(n) => if tag_name(n) is Concepts {
                    top_level_is_lists(rest, TopLevel::Top)
                } else {
                    top_level_is_lists(rest, w)
                },
                _ => top_level_is_lists(rest, w),
            },
            TopLevel::InUnknown(u) => match ts[0] {
                XmlToken::End(n) => if utf8_lossy(n) == u {
                    top_level_is_lists(rest, TopLevel::Top)
                } else {
                    top_level_is_lists(rest, w)
                },
                _ => top_level_is_lists(rest, w),
            },
        }
    }
}

/// The walk position that matches a parser tag state.
pub open spec fn top_level_of(t: TagModel) -> TopLevel {
    match t {
        TagModel::Outside => TopLevel::Top,
        TagModel::Unknown(u) => TopLevel::InUnknown(u),
        _ => TopLevel::InConcepts,
    }
}

proof fn lemma_concept_count(m: ParseModel, ts: Seq<XmlToken>)
    requires
        !m.aborted,
        top_level_is_lists(ts, top_level_of(m.tag)),
        !run(m, ts).aborted,
    ensures
        run(m, ts).concepts.len() == m.concepts.len() + concepts_in_lists(
            ts,
            top_level_of(m.tag),
        ),
    decreases ts.len(),
{
    if ts.len() == 0 || is_terminal(ts[0]) {
    } else {
        let m2 = step(m, ts[0]);
        if m2.aborted {
            lemma_run_aborted(m2, ts.drop_first());
        } else {
            lemma_concept_count(m2, ts.drop_first());
        }
    }
}

/// Every concept comes from a `<concept>` start tag inside a top-level `<concepts>`:
/// where the parser accepts the text and every top-level element of its output is a
/// `<concepts>` or has an unrecognised name, there are as many concepts as
/// `<concept>` start tags inside the top-level `<concepts>` elements before the end of
/// input or the first error.
pub proof fn law_concept_count(b: Seq<char>)
    requires
        accepts(b),
        top_level_is_lists(xml_tokens(output_of(b)), TopLevel::Top),
    ensures
        concepts_of(b).len() == concepts_in_lists(xml_tokens(output_of(b)), TopLevel::Top),
{
    lemma_concept_count(initial_model(), xml_tokens(output_of(b)));
}

} // verus!

verus! {

/// Cutting out an unfinished thinking section loses nothing: where the text holds
/// `<think>` and no `</think>`, it is the text before the first `<think>`, the marker,
/// and the thinking section, which runs to the end; the output is then the whole text.
pub proof fn law_unfinished_think_reassembles(b: Seq<char>)
    requires
        first_occurrence(b, "<think>"@) is Some,
        first_occurrence(b, "</think>"@) is None,
    ensures
        b == b.take(first_occurrence(b, "<think>"@).unwrap()) + "<think>"@ + thinking_of(
            b,
        ).unwrap(),
        output_of(b) == b,
{
    lemma_first_occurrence(b, "<think>"@);
    let ts = first_occurrence(b, "<think>"@).unwrap();
    let o = "<think>"@;
    assert(b.subrange(ts, ts + o.len()) == o);
    assert(b =~= b.take(ts) + b.subrange(ts, ts + o.len()) + b.skip(ts + o.len()));
}

} // verus!

verus! {

/// Running over `p` and then `q` is running over `p + q`, where `p` holds no end of
/// input or error.
proof fn lemma_run_append(m: ParseModel, p: Seq<XmlToken>, q: Seq<XmlToken>)
    requires
        forall|i: int| 0 <= i < p.len() ==> !is_terminal(#[trigger] p[i]),
    ensures
        run(m, p + q) == run(run(m, p), q),
    decreases p.len(),
{
    if p.len() == 0 {
        assert(p + q =~= q);
    } else if m.aborted {
        lemma_run_aborted(m, p + q);
        lemma_run_aborted(m, p);
        lemma_run_aborted(m, q);
    } else {
        assert((p + q)[0] == p[0]);
        assert((p + q).drop_first() =~= p.drop_first() + q);
        assert forall|i: int| 0 <= i < p.drop_first().len() implies !is_terminal(
            #[trigger] p.drop_first()[i],
        ) by {
            assert(p.drop_first()[i] == p[i + 1]);
        }
        lemma_run_append(step(m, p[0]), p.drop_first(), q);
    }
}

/// Character data before the first tag never changes the parse: it neither refuses
/// the input nor yields or changes a concept.
pub proof fn law_leading_text_ignored(raw: Seq<u8>, q: Seq<XmlToken>)
    ensures
        parse_tokens(seq![XmlToken::Text(raw)] + q) == parse_tokens(q),
{
    let ts = seq![XmlToken::Text(raw)] + q;
    assert(ts[0] == XmlToken::Text(raw));
    assert(ts.drop_first() =~= q);
}

/// Character data right after a `<concepts>` or `<concept>` tag opens or closes (that
/// is, outside every `core` and `clarification`) never changes the parse, whatever
/// came before: the input is accepted or refused alike, and the concepts are the same.
pub proof fn law_text_between_tags_ignored(
    p: Seq<XmlToken>,
    t: XmlToken,
    raw: Seq<u8>,
    q: Seq<XmlToken>,
)
    requires
        forall|i: int| 0 <= i < p.len() ==> !is_terminal(#[trigger] p[i]),
        match t {
            XmlToken::Start(n) => tag_name(n) is Concepts || tag_name(n) is Concept,
            XmlToken::End(n) => tag_name(n) is Concepts || tag_name(n) is Concept,
            _ => false,
        },
    ensures
        parse_tokens(p + seq![t, XmlToken::Text(raw)] + q) == parse_tokens(p + seq![t] + q),
{
    let with_text = seq![t, XmlToken::Text(raw)] + q;
    let without = seq![t] + q;
    assert(p + seq![t, XmlToken::Text(raw)] + q =~= p + with_text);
    assert(p + seq![t] + q =~= p + without);
    lemma_run_append(initial_model(), p, with_text);
    lemma_run_append(initial_model(), p, without);
    let m1 = run(initial_model(), p);
    if m1.aborted {
        lemma_run_aborted(m1, with_text);
        lemma_run_aborted(m1, without);
    } else {
        let m2 = step(m1, t);
        assert(with_text[0] == t);
        assert(without[0] == t);
        assert(without.drop_first() =~= q);
        let rest = with_text.drop_first();
        assert(rest[0] == XmlToken::Text(raw));
        assert(rest.drop_first() =~= q);
        lemma_run_step(m1, with_text);
        lemma_run_step(m1, without);
        if m2.aborted {
            lemma_run_aborted(m2, rest);
            lemma_run_aborted(m2, q);
        } else {
            assert(step(m2, XmlToken::Text(raw)) == m2);
            lemma_run_step(m2, rest);
        }
    }
}

} // verus!
