use scepter::mind::prompt::{
    divergence as first_divergence, Concept as FirstConcept,
    ConceptStreamParser as FirstParser, DIVERGENCE_SYSTEM_PROMPT as FIRST_SYSTEM_PROMPT,
};
use scepter::mind_page::plan::{plan_nodes, NodeAction};
use scepter::xml::XmlEvent;
use scepter::mind::prompt::scan_events;
use scepter::mind_page::prompt::{
    output_section, parse_events, thinking_section, thinking_splits,
    divergence, parse_concepts, Concept, ConceptStreamParser, DIVERGENCE_SYSTEM_PROMPT,
    DIVERGENCE_USER_HEAD, DIVERGENCE_USER_TAIL,
};

#[test]
fn test_concept_stream_parser_basic() {
    let mut parser = ConceptStreamParser::new();

    parser.push_chunk("<concepts>");
    parser.push_chunk("<concept><core>逻辑");
    parser.push_chunk("</core><clarification>研究思维规律");
    parser.push_chunk("</clarification></concept>");
    let concepts = parser.push_chunk("</concepts>").sub_concepts;

    assert_eq!(concepts.len(), 1);
    assert_eq!(concepts[0].core, "逻辑");
    assert_eq!(concepts[0].clarification, "研究思维规律");
}

#[test]
fn test_concept_stream_parser_multiple_chunks() {
    let mut parser = ConceptStreamParser::new();

    parser.push_chunk("<concepts>");
    parser.push_chunk("<concept><core>人工智能</core>");
    parser.push_chunk("<clarification>研究智能系统的构建</clarification></concept>");
    parser.push_chunk("<concept><core>数学</core><clarification>");
    parser.push_chunk("研究数量和结构</clarification></concept>");
    let concepts = parser.push_chunk("</concepts>").sub_concepts;

    assert_eq!(concepts.len(), 2);
    assert_eq!(concepts[0].core, "人工智能");
    assert_eq!(concepts[0].clarification, "研究智能系统的构建");
    assert_eq!(concepts[1].core, "数学");
    assert_eq!(concepts[1].clarification, "研究数量和结构");
}

#[test]
fn test_partial_incomplete_tag_does_not_panic() {
    let mut parser = ConceptStreamParser::new();
    parser.push_chunk("<concepts>");
    let concepts = parser.push_chunk("<concept><core>未闭合").sub_concepts;

    assert_eq!(concepts.len(), 1);
    assert_eq!(concepts[0].core, "未闭合");

    parser.push_chunk("</core><clarification>解释</clarification>");
    let concepts = parser.push_chunk("</concepts>").sub_concepts;
    assert_eq!(concepts[0].core, "未闭合");
    assert_eq!(concepts[0].clarification, "解释");
}

#[test]
fn test_noise_tags() {
    let mut parser = ConceptStreamParser::new();
    parser.push_chunk("<noise><concept>应该被忽略</concept></noise>");
    parser.push_chunk("<concepts>");
    parser.push_chunk("<concept><core>概念</core><clarification>描述</clarification>");
    parser.push_chunk("<noise>噪声数据</noise></concept>");
    let concepts = parser.push_chunk("</concepts>").sub_concepts;

    assert_eq!(concepts.len(), 1);
    assert_eq!(concepts[0].core, "概念");
    assert_eq!(concepts[0].clarification, "描述");
}

#[test]
fn test_thinking_splite() {
    let mut parser = ConceptStreamParser::new();
    let concepts = parser
        .push_chunk(
            r"
<think>
好的，我现在需要处理用户提供的关于“苹果”概念的查询，并生成几个相关的子领域内容。首先，我需要仔细理解用户的要求。用户希望输出符合XML格式的内容，<core>每个子领域用标签包裹，每个子领域使用标签，内部包含和两个标签。
</think>

<concepts>
    <concept>
        <core>蔷薇科</core>
        <clarification>苹果属于蔷薇科植物</clarification>
    </concept>
</concepts>",
        )
        .sub_concepts;
    assert_eq!(
        concepts,
        vec![Concept {
            core: "蔷薇科".to_string(),
            clarification: "苹果属于蔷薇科植物".to_string(),
            parent: None,
        }]
    );
}

#[test]
fn prompt_test_concept_stream_parser_basic() {
    let mut parser = FirstParser::new();

    parser.push_chunk("<concepts><concept><core>逻辑");
    parser.push_chunk("</core><clarification>研究思维规律");
    parser.push_chunk("</clarification></concept></concepts>");

    let concepts = parser.concepts();
    assert_eq!(concepts.len(), 1);
    assert_eq!(concepts[0].core, "逻辑");
    assert_eq!(concepts[0].clarification, "研究思维规律");
}

#[test]
fn prompt_test_concept_stream_parser_multiple_chunks() {
    let mut parser = FirstParser::new();

    parser.push_chunk("<concept><core>人工智能</core>");
    parser.push_chunk("<clarification>研究智能系统的构建</clarification></concept>");
    parser.push_chunk("<concept><core>数学</core><clarification>");
    parser.push_chunk("研究数量和结构</clarification></concept>");

    let concepts = parser.concepts();
    assert_eq!(concepts.len(), 2);
    assert_eq!(concepts[0].core, "人工智能");
    assert_eq!(concepts[0].clarification, "研究智能系统的构建");
    assert_eq!(concepts[1].core, "数学");
    assert_eq!(concepts[1].clarification, "研究数量和结构");
}

#[test]
fn prompt_test_partial_incomplete_tag_does_not_panic() {
    let mut parser = FirstParser::new();
    parser.push_chunk("<concept><core>未闭合");

    assert_eq!(parser.concepts().len(), 1);
    assert_eq!(parser.concepts()[0].core, "未闭合");

    parser.push_chunk("</core><clarification>解释</clarification>");
    assert_eq!(parser.concepts()[0].core, "未闭合");
    assert_eq!(parser.concepts()[0].clarification, "解释");
}

#[test]
fn thinking_section_is_cut_out() {
    let mut parser = ConceptStreamParser::new();
    let result = parser.push_chunk("<think>思考</think><concepts><concept><core>甲</core>");
    assert_eq!(result.thinking, Some("思考".to_string()));
    assert_eq!(parser.output_content(), "<concepts><concept><core>甲</core>");
    assert_eq!(result.sub_concepts.len(), 1);
    assert_eq!(result.sub_concepts[0].core, "甲");
}

#[test]
fn unfinished_thinking_runs_to_the_end() {
    let mut parser = ConceptStreamParser::new();
    let result = parser.push_chunk("<think>还在想");
    assert_eq!(result.thinking, Some("还在想".to_string()));
    assert!(result.sub_concepts.is_empty());
    assert_eq!(parser.thinking_content(), Some("还在想".to_string()));
}

#[test]
fn no_thinking_without_marker() {
    let parser = ConceptStreamParser::new();
    assert_eq!(parser.thinking_content(), None);
    assert_eq!(parser.output_content(), "");
}

#[test]
fn chunking_does_not_change_the_result() {
    let text = "<concepts><concept><core>光</core><clarification>电磁波</clarification></concept></concepts>";
    let mut whole = ConceptStreamParser::new();
    let a = whole.push_chunk(text);
    let mut pieces = ConceptStreamParser::new();
    let mut last = None;
    for chunk in ["<concepts><con", "cept><core>光</core><clar", "ification>电磁波</clarification></concept></concepts>"] {
        last = Some(pieces.push_chunk(chunk));
    }
    let b = last.unwrap();
    assert_eq!(a.sub_concepts, b.sub_concepts);
    assert_eq!(a.thinking, b.thinking);
}

#[test]
fn misplaced_closing_tag_is_refused() {
    let mut parser = ConceptStreamParser::new();
    assert!(parser.try_push_chunk("<concepts>").is_some());
    assert!(parser.try_push_chunk("<concept><concepts></concepts></concept>").is_none());
    // the refused chunk was not kept
    let result = parser.try_push_chunk("<concept><core>乙</core></concept>").unwrap();
    assert_eq!(result.sub_concepts.len(), 1);
    assert_eq!(result.sub_concepts[0].core, "乙");
}

#[test]
fn text_before_any_concept_is_refused() {
    let mut parser = ConceptStreamParser::new();
    assert!(parser.try_push_chunk("<core>孤立</core>").is_none());
}

#[test]
fn closing_marker_before_opening_is_refused() {
    let mut parser = ConceptStreamParser::new();
    assert!(parser.try_push_chunk("</think><think>").is_none());
}

#[test]
fn unknown_entity_is_refused() {
    let mut parser = ConceptStreamParser::new();
    assert!(parser.try_push_chunk("<concept><core>&nosuch;</core></concept>").is_none());
}

#[test]
fn escaped_text_is_unescaped() {
    let concepts = parse_concepts("<concept><core>a &amp; b</core></concept>").unwrap();
    assert_eq!(concepts[0].core, "a & b");
}

#[test]
fn new_concept_has_parent() {
    let parent = Concept::new(None);
    assert!(parent.parent.is_none());
    let child = Concept::new(Some(parent));
    assert_eq!(child.core, "");
    assert_eq!(child.parent.as_ref().map(|p| p.core.clone()), Some(String::new()));
}

#[test]
fn divergence_embeds_serialized_concept() {
    let msgs = divergence("<Concept><core>苹果</core></Concept>");
    assert_eq!(msgs.len(), 2);
    assert_eq!(msgs[0].role, "system");
    assert_eq!(msgs[0].content, DIVERGENCE_SYSTEM_PROMPT);
    assert_eq!(msgs[1].role, "user");
    assert_eq!(
        msgs[1].content,
        format!("{}{}{}", DIVERGENCE_USER_HEAD, "<Concept><core>苹果</core></Concept>", DIVERGENCE_USER_TAIL)
    );
    assert!(msgs[1].content.contains(">>>START OF INPUT\n<Concept><core>苹果</core></Concept>\n>>>END OF INPUT"));
}

#[test]
fn first_divergence_names_core_and_clarification() {
    let concept = FirstConcept { core: "苹果".to_string(), clarification: "水果".to_string() };
    let msgs = first_divergence(&concept);
    assert_eq!(msgs.len(), 2);
    assert_eq!(msgs[0].role, "system");
    assert_eq!(msgs[0].content, FIRST_SYSTEM_PROMPT);
    assert_eq!(msgs[1].role, "user");
    assert!(msgs[1].content.contains("<core>\n        苹果\n    </core>"));
    assert!(msgs[1].content.contains("<clarification>\n        水果\n    </clarification>"));
}

#[test]
fn first_parser_keeps_completed_concepts() {
    let mut parser = FirstParser::new();
    parser.push_chunk("<concepts><concept><core>一</core><clarification>壹</clarification></concept>");
    parser.push_chunk("<concept><core>二</core>");
    let concepts = parser.concepts();
    assert_eq!(concepts.len(), 2);
    assert_eq!(concepts[0].core, "一");
    assert_eq!(concepts[0].clarification, "壹");
    // the pass gathers the text of the last completed concept too, as the parser
    // always has
    assert_eq!(concepts[1].core, "一二");
    assert_eq!(concepts[1].clarification, "壹");
}

#[test]
fn first_parser_refuses_misplaced_closing_tag() {
    let mut parser = FirstParser::new();
    assert!(parser.try_push_chunk("<concepts>"));
    assert!(!parser.try_push_chunk("<concept><concepts></concepts></concept>"));
    assert!(parser.try_push_chunk("<concept><core>三</core></concept>"));
    assert_eq!(parser.concepts().len(), 1);
    assert_eq!(parser.concepts()[0].core, "三");
}

#[test]
fn default_concept_is_empty() {
    let c = FirstConcept::default();
    assert_eq!(c.core, "");
    assert_eq!(c.clarification, "");
}

#[test]
fn clone_copies_the_lineage() {
    let mut root = Concept::new(None);
    root.core = "水果".to_string();
    let mut child = Concept::new(Some(root));
    child.core = "苹果".to_string();
    child.clarification = "蔷薇科".to_string();
    let copy = child.clone();
    assert_eq!(copy, child);
    assert_eq!(copy.parent.unwrap().core, "水果");
}

#[test]
fn text_before_the_end_of_thinking_yields_no_concepts() {
    let rest = "<concepts><concept><core>丙</core><clarification>第三</clarification></concept></concepts>";
    let mut alone = ConceptStreamParser::new();
    let a = alone.push_chunk(rest);
    let mut after = ConceptStreamParser::new();
    let b = after.push_chunk(&format!(
        "<think><concepts><concept><core>草稿</core></concept></concepts></think>{rest}"
    ));
    assert_eq!(a.sub_concepts, b.sub_concepts);
    assert_eq!(b.sub_concepts.len(), 1);
    assert_eq!(b.sub_concepts[0].core, "丙");
}

#[test]
fn one_concept_per_concept_start_tag() {
    let v = parse_concepts(
        "<concepts><concept><core>a</core></concept><concept></concept><concept><core>c</core>",
    )
    .unwrap();
    assert_eq!(v.len(), 3);
    assert_eq!(v[0].core, "a");
    assert_eq!(v[1].core, "");
    assert_eq!(v[2].core, "c");
}

#[test]
fn first_parser_changes_only_the_last_concept() {
    let mut parser = FirstParser::new();
    parser.push_chunk("<concepts><concept><core>一</core></concept>");
    parser.push_chunk("<concept><core>二</core>");
    assert_eq!(parser.concepts().len(), 2);
    parser.push_chunk("<clarification>贰</clarification>");
    let concepts = parser.concepts();
    assert_eq!(concepts.len(), 2);
    assert_eq!(concepts[0].core, "一");
    assert_eq!(concepts[0].clarification, "");
    assert_eq!(concepts[1].core, "二");
    assert_eq!(concepts[1].clarification, "贰");
}

#[test]
fn report_updates_made_nodes_and_creates_the_rest() {
    let mut a = Concept::new(None);
    a.core = "甲".to_string();
    a.clarification = "一".to_string();
    let b = Concept::new(None);
    let c = Concept::new(None);
    let actions = plan_nodes(1, &vec![a, b, c]);
    assert_eq!(actions.len(), 3);
    match &actions[0] {
        NodeAction::Update { index, core, clarification } => {
            assert_eq!((*index, core.as_str(), clarification.as_str()), (0, "甲", "一"));
        }
        NodeAction::Create { .. } => panic!("expected an update"),
    }
    assert!(matches!(actions[1], NodeAction::Create { index: 1 }));
    assert!(matches!(actions[2], NodeAction::Create { index: 2 }));
    assert!(plan_nodes(0, &Vec::new()).is_empty());
}

fn start(name: &str) -> XmlEvent {
    XmlEvent::Start(name.as_bytes().to_vec())
}

fn end(name: &str) -> XmlEvent {
    XmlEvent::End(name.as_bytes().to_vec())
}

fn text(t: &str) -> XmlEvent {
    XmlEvent::Text(t.as_bytes().to_vec())
}

#[test]
fn events_parse_into_concepts() {
    let events = vec![
        start("concepts"),
        start("concept"),
        start("core"),
        text("a&amp;b"),
        end("core"),
        start("clarification"),
        text("c"),
        end("clarification"),
        end("concept"),
        XmlEvent::Eof,
        start("concept"),
    ];
    let v = parse_events(&events).unwrap();
    assert_eq!(v.len(), 1);
    assert_eq!(v[0].core, "a&b");
    assert_eq!(v[0].clarification, "c");
    assert!(v[0].parent.is_none());
    assert!(parse_events(&vec![start("concepts"), end("concept"), XmlEvent::Eof]).is_none());
    assert!(parse_events(&vec![start("core"), text("x"), XmlEvent::Eof]).is_none());
}

#[test]
fn events_scan_from_the_known_concepts() {
    let events = vec![
        start("concept"),
        start("core"),
        text("one"),
        end("core"),
        end("concept"),
        start("concept"),
        start("core"),
        text("two"),
        XmlEvent::Error,
        start("concept"),
    ];
    let (pushed, core, clarification) = scan_events(&events, 1).unwrap();
    assert_eq!(pushed, 1);
    assert_eq!(core, "onetwo");
    assert_eq!(clarification, "");
    assert!(scan_events(&vec![end("core"), XmlEvent::Eof], 0).is_none());
}

#[test]
fn thinking_split_on_text() {
    assert!(thinking_splits("<think>a</think>b"));
    assert!(!thinking_splits("</think><think>"));
    assert_eq!(thinking_section("x<think>a</think>b"), Some("a".to_string()));
    assert_eq!(thinking_section("<think>open"), Some("open".to_string()));
    assert_eq!(thinking_section("plain"), None);
    assert_eq!(output_section("x<think>a</think>b"), "b");
    assert_eq!(output_section("plain"), "plain");
}

#[test]
fn unknown_top_level_elements_yield_no_concepts() {
    let v = parse_concepts(
        "<note><concept><core>x</core></concept></note><concepts><concept><core>a</core></concept><concept></concept></concepts>",
    )
    .unwrap();
    assert_eq!(v.len(), 2);
    assert_eq!(v[0].core, "a");
}
