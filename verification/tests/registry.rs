use scepter::colors::{conatiner_background, editor, pin};
use scepter::llama::params::Params;
use scepter::page::node::NodeOfThought;
use scepter::llama::{Llama, ModelInfo};
use scepter::navigation::NavigationController;
use scepter::ollama_wrapper::OllamaWrapper;
use scepter::text::{find_chars, is_blank, is_whitespace};

fn info(name: &str, desc: &str) -> ModelInfo {
    ModelInfo { name: name.to_string(), desc: desc.to_string() }
}

fn path(p: &str) -> Vec<u8> {
    p.as_bytes().to_vec()
}

#[test]
fn lookup_reads_back_what_was_recorded() {
    let mut llama = Llama::new();
    assert!(llama.is_empty());
    assert!(llama.current_model().is_none());
    llama.record_model(path("/m/a.gguf"), info("A", "first"));
    llama.record_model(path("/m/b.gguf"), info("B", "second"));
    assert_eq!(llama.get_model_info(&path("/m/a.gguf")).map(|m| m.name.clone()), Some("A".to_string()));
    assert_eq!(llama.get_model_info(&path("/m/b.gguf")).map(|m| m.desc.clone()), Some("second".to_string()));
    assert!(llama.get_model_info(&path("/m/c.gguf")).is_none());
    let (p, current) = llama.current_model().unwrap();
    assert_eq!((p.as_slice(), current.name.as_str()), (b"/m/b.gguf".as_slice(), "B"));
    llama.record_model(path("/m/a.gguf"), info("A2", "again"));
    assert_eq!(llama.models().len(), 2);
    assert_eq!(llama.get_model_info(&path("/m/a.gguf")).map(|m| m.name.clone()), Some("A2".to_string()));
    assert_eq!(llama.models()[0].0, path("/m/a.gguf"));
}

#[test]
fn paths_differing_in_bytes_are_kept_apart() {
    let mut llama = Llama::new();
    llama.record_model(vec![0x2f, 0xff], info("X", ""));
    llama.record_model(vec![0x2f, 0xfe], info("Y", ""));
    assert_eq!(llama.models().len(), 2);
    assert_eq!(llama.get_model_info(&vec![0x2f, 0xff]).map(|m| m.name.clone()), Some("X".to_string()));
}

#[test]
fn retain_keeps_flagged_models_in_order() {
    let mut llama = Llama::new();
    llama.record_model(path("1"), info("one", ""));
    llama.record_model(path("2"), info("two", ""));
    llama.record_model(path("3"), info("three", ""));
    llama.retain_models(&vec![true, false, true]);
    let names: Vec<&str> = llama.models().iter().map(|(_, m)| m.name.as_str()).collect();
    assert_eq!(names, vec!["one", "three"]);
    assert_eq!(llama.current_model().unwrap().0, &path("3"));
}

#[test]
fn default_params() {
    let p = Params::default();
    assert_eq!((p.n_ctx, p.n_gpu_layers), (2048, 99));
}

#[test]
fn ollama_wrapper_lists_models() {
    let w = OllamaWrapper::new();
    assert!(w.current_model.is_none());
    assert_eq!(w.model_list, vec!["llm-1", "llm-2", "llm-3"]);
}

#[test]
fn navigation_push_pop() {
    let mut nav = NavigationController::new("home");
    assert_eq!(nav.len(), 1);
    nav.push("mind");
    assert_eq!(*nav.current_page(), "mind");
    assert_eq!(nav.pop(), Some("mind"));
    assert_eq!(nav.len(), 1);
    assert_eq!(*nav.current_page(), "home");
    assert_eq!(nav.pop(), Some("home"));
    assert_eq!(nav.pop(), None);
    assert_eq!(nav.len(), 0);
}

#[test]
fn navigation_set_current_page_leaves_all() {
    let mut nav = NavigationController::new(1);
    nav.push(2);
    nav.push(3);
    let left = nav.set_current_page(9);
    assert_eq!(left, vec![3, 2, 1]);
    assert_eq!(nav.len(), 1);
    assert_eq!(*nav.current_page(), 9);
    nav.pages_mut().push(10);
    assert_eq!(*nav.current_page(), 10);
}

#[test]
fn text_helpers() {
    assert!(is_whitespace(' '));
    assert!(is_whitespace('\u{3000}'));
    assert!(!is_whitespace('x'));
    assert!(is_blank(" \t\n"));
    assert!(!is_blank(" a "));
    let hay: Vec<char> = "ab</think>cd</think>".chars().collect();
    let needle: Vec<char> = "</think>".chars().collect();
    assert_eq!(find_chars(&hay, &needle), Some(2));
    let missing: Vec<char> = "zz".chars().collect();
    assert_eq!(find_chars(&hay, &missing), None);
}

#[test]
fn node_children_connect_and_disconnect() {
    let mut node = NodeOfThought::new(true);
    assert!(node.is_root);
    assert!(node.childs.is_empty());
    node.connect(3);
    node.connect(5);
    node.connect(3);
    node.connect(7);
    node.disconnect(3);
    assert_eq!(node.childs, vec![5, 7]);
    node.disconnect(9);
    assert_eq!(node.childs, vec![5, 7]);
    assert_eq!(node.concept, "");
}

#[test]
fn palette() {
    assert_eq!(conatiner_background(true), (66, 66, 66));
    assert_eq!(conatiner_background(false), (238, 238, 238));
    assert_eq!(pin(true), (255, 235, 59));
    assert_eq!(pin(false), (176, 190, 197));
    assert_eq!(editor(true), (33, 33, 33));
    assert_eq!(editor(false), (250, 250, 250));
}
