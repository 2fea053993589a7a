//! The first concept-markup parser: it keeps the concepts it has found between chunks
//! and rewrites only the one it is working on.

use crate::concept_tags::{classify_tag, tag_name, TagName};
use crate::mind::llm_adapters::{is_message, Message};
use crate::xml::{
    event_tokens, is_terminal, text_content, text_of, xml_events, xml_tokens, XmlEvent, XmlToken,
};
use vstd::prelude::*;
use vstd::string::*;

verus! {

/// The instruction that fixes the answer's markup.
pub const DIVERGENCE_SYSTEM_PROMPT: &'static str = "\n你是一名格式专家，所有输出必须严格遵循以下简单标记格式，不要包含任何额外文字或说明。\n输出示例：\n<concepts>\n    <concept>\n        <core>\n            核心概念1\n        </core>\n        <clarification>\n            概念的明确1(让概念更加限定性)\n        </clarification>\n    <concept/>\n    <concept>\n        <core>\n            核心概念2\n        </core>\n        <clarification>\n            概念的明确2(让概念更加限定性)\n        </clarification>\n    </concept>\n</concepts>\n";

/// The request text before the concept's core.
pub const DIVERGENCE_USER_HEAD: &'static str = "\n请根据以下概念信息生成几个相关的子领域内容。输出结果必须严格按照上面的简单标记格式输出，并且尽量遵循以下要求：\n\n- 内容少而精，避免冗长的描述。\n- 生成的内容应该是概念接近的子领域，避免生成与概念无关或者关系太远的内容。\n- 生成的内容应该是尽量发散到概念的不同方面，避免生成相对重复的内容。\n\n<concept>\n    <core>\n        ";

/// The request text between the core and the clarification.
pub const DIVERGENCE_USER_MIDDLE: &'static str = "\n    </core>\n    <clarification>\n        ";

/// The request text after the clarification.
pub const DIVERGENCE_USER_TAIL: &'static str = "\n    </clarification>\n</concept>\n";

/// A concept: its core and the clarification that narrows it.
#[derive(Debug)]
pub struct Concept {
    pub core: String,
    pub clarification: String,
}

fn empty_concept() -> (c: Concept)
    ensures
        c.core@ == Seq::<char>::empty(),
        c.clarification@ == Seq::<char>::empty(),
{
    Concept { core: String::new(), clarification: String::new() }
}

impl Default for Concept {
    fn default() -> (c: Self)
        ensures
            c.core@ == Seq::<char>::empty(),
            c.clarification@ == Seq::<char>::empty(),
    {
        empty_concept()
    }
}

/// The text of the request for sub-concepts of `c`.
pub open spec fn divergence_request(core: Seq<char>, clarification: Seq<char>) -> Seq<char> {
    DIVERGENCE_USER_HEAD@ + core + DIVERGENCE_USER_MIDDLE@ + clarification
        + DIVERGENCE_USER_TAIL@
}

/// The conversation that asks a model for sub-concepts of `concept`: the markup
/// instruction, then the request naming the concept's core and clarification.
pub fn divergence(concept: &Concept) -> (msgs: Vec<Message>)
    ensures
        msgs@.len() == 2,
        is_message(msgs@[0], "system"@, DIVERGENCE_SYSTEM_PROMPT@),
        is_message(
            msgs@[1],
            "user"@,
            divergence_request(concept.core@, concept.clarification@),
        ),
{
    let mut request = DIVERGENCE_USER_HEAD.to_owned();
    request.append(concept.core.as_str());
    request.append(DIVERGENCE_USER_MIDDLE);
    request.append(concept.clarification.as_str());
    request.append(DIVERGENCE_USER_TAIL);
    let mut msgs: Vec<Message> = Vec::new();
    msgs.push(Message::system(DIVERGENCE_SYSTEM_PROMPT.to_owned()));
    msgs.push(Message::user(request));
    msgs
}

/// Where the parser stands in the markup.
pub enum Stage {
    Outside,
    InConcepts,
    InConcept,
    InCore,
    InClarification,
}

/// The state of one pass over the text: the stage, how many already-known concepts
/// are still to be passed over, the core and clarification text gathered, how many
/// concepts were started, and whether the input is one the parser cannot accept.
pub struct ScanModel {
    pub stage: Stage,
    pub skip: nat,
    pub core: Seq<char>,
    pub clarification: Seq<char>,
    pub pushed: nat,
    pub aborted: bool,
}

/// The state before any event, with `known` concepts already found.
pub open spec fn scan_start(known: nat) -> ScanModel {
    ScanModel {
        stage: Stage::Outside,
        skip: known,
        core: Seq::empty(),
        clarification: Seq::empty(),
        pushed: 0,
        aborted: false,
    }
}

/// `m` at stage `stage`.
pub open spec fn at_stage(m: ScanModel, stage: Stage) -> ScanModel {
    ScanModel { stage, ..m }
}

/// `m` marked as not acceptable.
pub open spec fn scan_aborted(m: ScanModel) -> ScanModel {
    ScanModel { aborted: true, ..m }
}

/// One event applied to the pass.
pub open spec fn scan_step(m: ScanModel, t: XmlToken) -> ScanModel {
    match t {
        XmlToken::Start(n) => match tag_name(n) {
            TagName::Concepts => at_stage(m, Stage::InConcepts),
            TagName::Concept => ScanModel {
                stage: Stage::InConcept,
                pushed: if m.skip == 0 {
                    m.pushed + 1
                } else {
                    m.pushed
                },
                ..m
            },
            TagName::Core => at_stage(m, Stage::InCore),
            TagName::Clarification => at_stage(m, Stage::InClarification),
            TagName::Other => m,
        },
        XmlToken::End(n) => match tag_name(n) {
            TagName::Concepts => if m.stage is InConcepts {
                at_stage(m, Stage::Outside)
            } else {
                scan_aborted(m)
            },
            TagName::Concept => if m.stage is InConcept {
                ScanModel {
                    stage: Stage::InConcepts,
                    skip: if m.skip > 0 {
                        (m.skip - 1) as nat
                    } else {
                        0
                    },
                    ..m
                }
            } else {
                scan_aborted(m)
            },
            TagName::Core => if m.stage is InCore {
                at_stage(m, Stage::InConcept)
            } else {
                scan_aborted(m)
            },
            TagName::Clarification => if m.stage is InClarification {
                at_stage(m, Stage::InConcept)
            } else {
                scan_aborted(m)
            },
            TagName::Other => m,
        },
        XmlToken::Text(raw) => if m.skip > 1 {
            m
        } else {
            match m.stage {
                Stage::InCore => match text_content(raw) {
                    Some(s) => ScanModel { core: m.core + s, ..m },
                    None => scan_aborted(m),
                },
                Stage::InClarification => match text_content(raw) {
                    Some(s) => ScanModel { clarification: m.clarification + s, ..m },
                    None => scan_aborted(m),
                },
                _ => m,
            }
        },
        _ => m,
    }
}

/// The pass over the events `ts`, up to the end of input or the first error, or up
/// to the first event the parser cannot accept.
pub open spec fn scan_run(m: ScanModel, ts: Seq<XmlToken>) -> ScanModel
    decreases ts.len(),
{
    if ts.len() == 0 || m.aborted || is_terminal(ts[0]) {
        m
    } else {
        scan_run(scan_step(m, ts[0]), ts.drop_first())
    }
}

/// The pass over `text` when `known` concepts were found before.
pub open spec fn scan_text(known: nat, text: Seq<char>) -> ScanModel {
    scan_run(scan_start(known), xml_tokens(text))
}

/// The concepts after a pass: the known ones, one empty concept for each concept
/// started, and the last of them set to the gathered core and clarification.
pub open spec fn apply_scan(
    known: Seq<(Seq<char>, Seq<char>)>,
    m: ScanModel,
) -> Seq<(Seq<char>, Seq<char>)> {
    let all = known + Seq::new(m.pushed, |i: int| (Seq::<char>::empty(), Seq::<char>::empty()));
    if all.len() > 0 {
        all.update(all.len() - 1, (m.core, m.clarification))
    } else {
        all
    }
}

/// The (core, clarification) pairs of `v`.
pub open spec fn concept_pairs(v: Seq<Concept>) -> Seq<(Seq<char>, Seq<char>)> {
    v.map_values(|c: Concept| (c.core@, c.clarification@))
}

/// Accumulates the chunks a model streams and keeps the concepts found in them.
pub struct ConceptStreamParser {
    buffer: String,
    output: Vec<Concept>,
}

impl ConceptStreamParser {
    /// The text accumulated so far.
    pub closed spec fn text(&self) -> Seq<char> {
        self.buffer@
    }

    /// The concepts found so far, as (core, clarification) pairs.
    pub closed spec fn found(&self) -> Seq<(Seq<char>, Seq<char>)> {
        concept_pairs(self.output@)
    }

    /// A parser that has read nothing and found nothing.
    pub fn new() -> (p: Self)
        ensures
            p.text() == Seq::<char>::empty(),
            p.found() == Seq::<(Seq<char>, Seq<char>)>::empty(),
    {
        let p = ConceptStreamParser { buffer: String::new(), output: Vec::new() };
        assert(concept_pairs(p.output@) =~= Seq::empty());
        p
    }

    /// The concepts found so far.
    pub fn concepts(&self) -> (r: &[Concept])
        ensures
            concept_pairs(r@) == self.found(),
    {
        self.output.as_slice()
    }

    /// Appends a chunk of the model's answer and parses all text accumulated so far.
    pub fn push_chunk(&mut self, chunk: &str)
        requires
            !scan_text(old(self).found().len(), old(self).text() + chunk@).aborted,
        ensures
            final(self).text() == old(self).text() + chunk@,
            final(self).found() == apply_scan(
                old(self).found(),
                scan_text(old(self).found().len(), final(self).text()),
            ),
    {
        self.buffer.append(chunk);
        let scan = scan_concepts(self.buffer.as_str(), self.output.len());
        let (pushed, core, clarification) = scan.unwrap();
        let ghost known = concept_pairs(self.output@);
        let ghost m = scan_text(known.len(), self.buffer@);
        let ghost text = self.buffer@;
        let mut k: usize = 0;
        while k < pushed
            invariant
                k <= pushed,
                self.buffer@ == text,
                concept_pairs(self.output@) == known + Seq::new(
                    k as nat,
                    |i: int| (Seq::<char>::empty(), Seq::<char>::empty()),
                ),
            decreases pushed - k,
        {
            let c = empty_concept();
            let ghost prev = self.output@;
            self.output.push(c);
            k = k + 1;
            assert(concept_pairs(self.output@) =~= concept_pairs(prev).push(
                (Seq::<char>::empty(), Seq::<char>::empty()),
            ));
            assert(concept_pairs(self.output@) =~= known + Seq::new(
                k as nat,
                |i: int| (Seq::<char>::empty(), Seq::<char>::empty()),
            ));
        }
        let n = self.output.len();
        if n > 0 {
            let ghost before = concept_pairs(self.output@);
            let mut last = self.output.pop().unwrap();
            last.core = core;
            last.clarification = clarification;
            self.output.push(last);
            assert(concept_pairs(self.output@) =~= before.update(
                n - 1,
                (core@, clarification@),
            ));
        }
        assert(self.found() == apply_scan(known, m));
    }

    /// Appends a chunk and parses, where the resulting text is one the parser accepts;
    /// otherwise leaves the parser as it was and returns `false`.
    pub fn try_push_chunk(&mut self, chunk: &str) -> (accepted: bool)
        ensures
            accepted == !scan_text(old(self).found().len(), old(self).text() + chunk@).aborted,
            accepted ==> final(self).text() == old(self).text() + chunk@ && final(self).found()
                == apply_scan(
                old(self).found(),
                scan_text(old(self).found().len(), final(self).text()),
            ),
            !accepted ==> final(self).text() == old(self).text() && final(self).found() == old(
                self,
            ).found(),
    {
        let mut candidate = self.buffer.clone();
        candidate.append(chunk);
        match scan_concepts(candidate.as_str(), self.output.len()) {
            None => false,
            Some(_) => {
                self.push_chunk(chunk);
                true
            },
        }
    }
}

/// Completed concepts are never rewritten: a pass (the concepts `push_chunk` leaves
/// are `apply_scan` of those found before) keeps every concept found before and never
/// loses one; only the last of them may change, and only when the pass started no
/// new concept.
pub proof fn law_found_concepts_stable(known: Seq<(Seq<char>, Seq<char>)>, m: ScanModel)
    ensures
        apply_scan(known, m).len() == known.len() + m.pushed,
        forall|i: int| 0 <= i < known.len() - 1 ==> #[trigger] apply_scan(known, m)[i] == known[i],
        m.pushed > 0 ==> forall|i: int|
            0 <= i < known.len() ==> #[trigger] apply_scan(known, m)[i] == known[i],
{
}

enum StageState {
    Outside,
    InConcepts,
    InConcept,
    InCore,
    InClarification,
}

impl View for StageState {
    type V = Stage;

    closed spec fn view(&self) -> Stage {
        match self {
            StageState::Outside => Stage::Outside,
            StageState::InConcepts => Stage::InConcepts,
            StageState::InConcept => Stage::InConcept,
            StageState::InCore => Stage::InCore,
            StageState::InClarification => Stage::InClarification,
        }
    }
}

proof fn lemma_scan_run_aborted(m: ScanModel, ts: Seq<XmlToken>)
    requires
        m.aborted,
    ensures
        scan_run(m, ts) == m,
{
}

proof fn lemma_scan_run_step(m: ScanModel, ts: Seq<XmlToken>)
    requires
        ts.len() > 0,
        !m.aborted,
    ensures
        is_terminal(ts[0]) ==> scan_run(m, ts) == m,
        !is_terminal(ts[0]) ==> scan_run(m, ts) == scan_run(scan_step(m, ts[0]), ts.drop_first()),
        !is_terminal(ts[0]) && scan_step(m, ts[0]).aborted ==> scan_run(m, ts) == scan_step(
            m,
            ts[0],
        ),
{
    if !is_terminal(ts[0]) && scan_step(m, ts[0]).aborted {
        lemma_scan_run_aborted(scan_step(m, ts[0]), ts.drop_first());
    }
}

/// One pass over `text` when `known` concepts were found before: the number of
/// concepts started, and the core and clarification gathered; `None` where the text
/// is one the parser cannot accept.
pub fn scan_concepts(text: &str, known: usize) -> (r: Option<(usize, String, String)>)
    ensures
        r is None <==> scan_text(known as nat, text@).aborted,
        r matches Some((pushed, core, clarification)) ==> {
            let m = scan_text(known as nat, text@);
            &&& pushed == m.pushed
            &&& core@ == m.core
            &&& clarification@ == m.clarification
        },
{
    let events = xml_events(text);
    scan_events(&events, known)
}

/// One pass over the events `events` when `known` concepts were found before: the
/// number of concepts started, and the core and clarification gathered; `None` where
/// the parser cannot accept them.
pub fn scan_events(events: &Vec<XmlEvent>, known: usize) -> (r: Option<(usize, String, String)>)
    ensures
        r is None <==> scan_run(scan_start(known as nat), event_tokens(events@)).aborted,
        r matches Some((pushed, core, clarification)) ==> {
            let m = scan_run(scan_start(known as nat), event_tokens(events@));
            &&& pushed == m.pushed
            &&& core@ == m.core
            &&& clarification@ == m.clarification
        },
{
    let ghost all = event_tokens(events@);
    let mut stage = StageState::Outside;
    let mut skip: usize = known;
    let mut core = String::new();
    let mut clarification = String::new();
    let mut pushed: usize = 0;
    let mut i: usize = 0;
    assert(all.skip(0) =~= all);
    while i < events.len()
        invariant
            all == event_tokens(events@),
            i <= events.len(),
            pushed <= i,
            scan_run(scan_start(known as nat), all) == scan_run(
                ScanModel {
                    stage: stage@,
                    skip: skip as nat,
                    core: core@,
                    clarification: clarification@,
                    pushed: pushed as nat,
                    aborted: false,
                },
                all.skip(i as int),
            ),
        decreases events.len() - i,
    {
        let ghost pending = all.skip(i as int);
        let ghost m = ScanModel {
            stage: stage@,
            skip: skip as nat,
            core: core@,
            clarification: clarification@,
            pushed: pushed as nat,
            aborted: false,
        };
        let event = &events[i];
        proof {
            assert(pending[0] == event@);
            assert(pending.drop_first() =~= all.skip(i + 1));
            lemma_scan_run_step(m, pending);
        }
        i = i + 1;
        match event {
            XmlEvent::Eof | XmlEvent::Error => {
                assert(is_terminal(pending[0]));
                return Some((pushed, core, clarification));
            },
            XmlEvent::Other => {},
            XmlEvent::Start(name) => {
                match classify_tag(name) {
                    TagName::Concepts => {
                        stage = StageState::InConcepts;
                    },
                    TagName::Concept => {
                        stage = StageState::InConcept;
                        if skip == 0 {
                            pushed = pushed + 1;
                        }
                    },
                    TagName::Core => {
                        stage = StageState::InCore;
                    },
                    TagName::Clarification => {
                        stage = StageState::InClarification;
                    },
                    TagName::Other => {},
                }
            },
            XmlEvent::End(name) => {
                match classify_tag(name) {
                    TagName::Concepts => {
                        if let StageState::InConcepts = stage {
                            stage = StageState::Outside;
                        } else {
                            return None;
                        }
                    },
                    TagName::Concept => {
                        if let StageState::InConcept = stage {
                            stage = StageState::InConcepts;
                            skip = skip.saturating_sub(1);
                        } else {
                            return None;
                        }
                    },
                    TagName::Core => {
                        if let StageState::InCore = stage {
                            stage = StageState::InConcept;
                        } else {
                            return None;
                        }
                    },
                    TagName::Clarification => {
                        if let StageState::InClarification = stage {
                            stage = StageState::InConcept;
                        } else {
                            return None;
                        }
                    },
                    TagName::Other => {},
                }
            },
            XmlEvent::Text(raw) => {
                if skip <= 1 {
                    match stage {
                        StageState::InCore => {
                            match text_of(raw) {
                                Some(s) => core.append(s.as_str()),
                                None => {
                                    return None;
                                },
                            }
                        },
                        StageState::InClarification => {
                            match text_of(raw) {
                                Some(s) => clarification.append(s.as_str()),
                                None => {
                                    return None;
                                },
                            }
                        },
                        _ => {},
                    }
                }
            },
        }
    }
    assert(all.skip(i as int).len() == 0);
    Some((pushed, core, clarification))
}

} // verus!

verus! {

/// A pass over `p` and then `q` is a pass over `p + q`, where `p` holds no end of
/// input or error.
proof fn lemma_scan_run_append(m: ScanModel, p: Seq<XmlToken>, q: Seq<XmlToken>)
    requires
        forall|i: int| 0 <= i < p.len() ==> !is_terminal(#[trigger] p[i]),
    ensures
        scan_run(m, p + q) == scan_run(scan_run(m, p), q),
    decreases p.len(),
{
    if p.len() == 0 {
        assert(p + q =~= q);
    } else if m.aborted {
        lemma_scan_run_aborted(m, p + q);
        lemma_scan_run_aborted(m, p);
        lemma_scan_run_aborted(m, q);
    } else {
        assert((p + q)[0] == p[0]);
        assert((p + q).drop_first() =~= p.drop_first() + q);
        assert forall|i: int| 0 <= i < p.drop_first().len() implies !is_terminal(
            #[trigger] p.drop_first()[i],
        ) by {
            assert(p.drop_first()[i] == p[i + 1]);
        }
        lemma_scan_run_append(scan_step(m, p[0]), p.drop_first(), q);
    }
}

/// Character data before the first tag never changes a pass: it neither refuses the
/// input nor enters a core or clarification, whatever concepts were known before.
pub proof fn law_scan_leading_text_ignored(known: nat, raw: Seq<u8>, q: Seq<XmlToken>)
    ensures
        scan_run(scan_start(known), seq![XmlToken::Text(raw)] + q) == scan_run(
            scan_start(known),
            q,
        ),
{
    let ts = seq![XmlToken::Text(raw)] + q;
    assert(ts[0] == XmlToken::Text(raw));
    assert(ts.drop_first() =~= q);
}

/// The core and clarification are made only of character data inside `core` and
/// `clarification`: text right after a `<concepts>` or `<concept>` tag opens or closes
/// never changes a pass, whatever came before.
pub proof fn law_scan_text_between_tags_ignored(
    known: nat,
    p: Seq<XmlToken>,
    t: XmlToken,
    raw: Seq<u8>,
    q: Seq<XmlToken>,
)
    requires
        forall|i: int| 0 <= i < p.len() ==> !is_terminal(#[trigger] p[i]),
        match t {
            XmlToken::Start(n) => tag_name(n) is Concepts || tag_name(n) is Concept,
            XmlToken::End(n) => tag_name(n) is Concepts || tag_name(n) is Concept,
            _ => false,
        },
    ensures
        scan_run(scan_start(known), p + seq![t, XmlToken::Text(raw)] + q) == scan_run(
            scan_start(known),
            p + seq![t] + q,
        ),
{
    let with_text = seq![t, XmlToken::Text(raw)] + q;
    let without = seq![t] + q;
    assert(p + seq![t, XmlToken::Text(raw)] + q =~= p + with_text);
    assert(p + seq![t] + q =~= p + without);
    lemma_scan_run_append(scan_start(known), p, with_text);
    lemma_scan_run_append(scan_start(known), p, without);
    let m1 = scan_run(scan_start(known), p);
    if m1.aborted {
        lemma_scan_run_aborted(m1, with_text);
        lemma_scan_run_aborted(m1, without);
    } else {
        let m2 = scan_step(m1, t);
        assert(with_text[0] == t);
        assert(without[0] == t);
        assert(without.drop_first() =~= q);
        let rest = with_text.drop_first();
        assert(rest[0] == XmlToken::Text(raw));
        assert(rest.drop_first() =~= q);
        lemma_scan_run_step(m1, with_text);
        lemma_scan_run_step(m1, without);
        if m2.aborted {
            lemma_scan_run_aborted(m2, rest);
            lemma_scan_run_aborted(m2, q);
        } else {
            assert(scan_step(m2, XmlToken::Text(raw)) == m2);
            lemma_scan_run_step(m2, rest);
        }
    }
}

} // verus!
