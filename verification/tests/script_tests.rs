use html2pdf::html::{Document, Element, Node, TextNode};
use html2pdf::script::dom_api;
use html2pdf::script::{
    execute_scripts_on_document, execution_order, extract_scripts, JsContext, NoOpScriptEngine, Script,
    ScriptConfig, ScriptMode, ScriptSandbox, ScriptType,
};
use html2pdf::Input;
use html2pdf::script::assign::{
    extract_document_title, extract_inner_html_assignments, extract_text_content_assignments,
};
use html2pdf::script::{create_script_engine, JsEngine, ScriptEngine};

fn script(async_flag: bool, defer: bool, mime: Option<&str>) -> Script {
    Script {
        script_type: ScriptType::Inline,
        content: "".to_string(),
        async_flag,
        defer,
        mime_type: mime.map(|m| m.to_string()),
    }
}

#[test]
fn test_script_type_detection() {
    let inline_js = Script {
        script_type: ScriptType::Inline,
        content: "console.log('test')".to_string(),
        async_flag: false,
        defer: false,
        mime_type: None,
    };
    assert!(inline_js.is_javascript());

    let text_js = script(false, false, Some("text/javascript"));
    assert!(text_js.is_javascript());

    let not_js = script(false, false, Some("text/plain"));
    assert!(!not_js.is_javascript());
    assert!(script(false, false, Some("Application/JavaScript")).is_javascript());
}

#[test]
fn test_script_timing() {
    let immediate = script(false, false, None);
    assert!(immediate.is_immediate());
    assert!(!immediate.is_deferred());

    let async_script = script(true, false, None);
    assert!(!async_script.is_immediate());
    assert!(async_script.is_deferred());

    let deferred = script(false, true, None);
    assert!(!deferred.is_immediate());
    assert!(deferred.is_deferred());
}

#[test]
fn test_sandbox_config() {
    let strict = ScriptSandbox::strict();
    assert!(!strict.allow_network);
    assert!(!strict.allow_fs);
    assert!(!strict.allow_eval);
    assert_eq!(strict.timeout_ms, 5000);

    let permissive = ScriptSandbox::permissive();
    assert!(permissive.allow_network);
    assert!(permissive.allow_fs);
    assert!(permissive.allow_eval);
    assert_eq!(permissive.timeout_ms, 0);
}

#[test]
fn sandbox_and_config_builders() {
    let s = ScriptSandbox::default().with_timeout(10).with_memory_limit(1 << 20);
    assert_eq!(s.timeout_ms, 10);
    assert_eq!(s.max_memory_bytes, 1 << 20);
    let c = ScriptConfig::disabled().with_timeout(7);
    assert_eq!(c.mode, ScriptMode::Disabled);
    assert_eq!(c.sandbox.timeout_ms, 7);
    assert_eq!(ScriptConfig::strict().sandbox, ScriptSandbox::strict());
    let mut ctx = JsContext::default();
    ctx.console_log("hi");
    ctx.console_error("bad");
    assert_eq!(ctx.console_output, vec!["[LOG] hi".to_string(), "[ERROR] bad".to_string()]);
}

#[test]
fn test_dom_api_style() {
    let mut el = Element::new("div", Vec::new());

    dom_api::set_style(&mut el, "color", "red");
    assert_eq!(el.attr("style"), Some("color: red"));

    dom_api::set_style(&mut el, "font-size", "14px");
    assert!(el.attr("style").unwrap().contains("color: red"));
    assert!(el.attr("style").unwrap().contains("font-size: 14px"));

    dom_api::set_style(&mut el, "color", "blue");
    assert!(el.attr("style").unwrap().contains("color: blue"));
}

#[test]
fn style_attribute_reading_and_rewriting() {
    let mut el = Element::new("p", vec![("style".to_string(), " margin : 0 ;; junk; color:red:dark ".to_string())]);
    assert_eq!(dom_api::get_style(&el, "color"), Some("red:dark".to_string()));
    assert_eq!(dom_api::get_style(&el, "margin"), Some("0".to_string()));
    assert_eq!(dom_api::get_style(&el, "junk"), None);
    dom_api::set_style(&mut el, "margin", "1px");
    assert_eq!(el.attr("style"), Some("margin: 1px; color: red:dark"));
    assert_eq!(dom_api::get_style(&Element::new("p", vec![]), "margin"), None);
}

fn el(tag: &str, attrs: &[(&str, &str)], children: Vec<Node>) -> Node {
    let mut e = Element::new(tag, attrs.iter().map(|(k, v)| (k.to_string(), v.to_string())).collect());
    for c in children {
        e.append_child(c);
    }
    Node::Element(e)
}

fn text(t: &str) -> Node {
    Node::Text(TextNode::new(t))
}

fn sample_document() -> Document {
    let head = el("head", &[], vec![el("script", &[], vec![text("var x = 1;")])]);
    let body = el("body", &[], vec![
        el("script", &[("src", "external.js")], vec![]),
        el("div", &[("id", "main"), ("class", "box big")], vec![
            el("SCRIPT", &[("async", "")], vec![text("a()")]),
            el("span", &[("class", "big")], vec![text("x")]),
        ]),
        el("script", &[("defer", ""), ("type", "text/plain")], vec![text("not js")]),
    ]);
    let html = match el("html", &[], vec![head, body]) {
        Node::Element(e) => e,
        _ => unreachable!(),
    };
    Document::new(html)
}

#[test]
fn scripts_are_extracted_in_document_order() {
    let doc = sample_document();
    let scripts = extract_scripts(&doc);
    assert_eq!(scripts.len(), 3);
    assert_eq!(scripts[0].0.content, "var x = 1;");
    assert_eq!(scripts[0].1.as_ref().map(|e| e.tag_name.clone()), Some("script".to_string()));
    assert!(matches!(scripts[1].0.script_type, ScriptType::External { ref src } if src == "external.js"));
    assert!(scripts[2].0.async_flag);
    assert_eq!(scripts[2].0.content, "a()");
    let (immediate, deferred) = execution_order(&scripts);
    assert_eq!(immediate, vec![0, 1]);
    assert_eq!(deferred, vec![2]);
    let mut doc = doc;
    let mut engine = NoOpScriptEngine::new();
    assert!(execute_scripts_on_document(&mut doc, &mut engine).is_ok());
}

#[test]
fn test_extract_scripts() {
    let head = el("head", &[], vec![el("script", &[], vec![text("var x = 1;")])]);
    let body = el("body", &[], vec![
        el("script", &[("src", "external.js")], vec![]),
        el("script", &[("async", "")], vec![text("console.log('async');")]),
        el("script", &[("defer", "")], vec![text("console.log('defer');")]),
        el("script", &[("type", "text/plain")], vec![text("not js")]),
    ]);
    let html = match el("html", &[], vec![head, body]) {
        Node::Element(e) => e,
        _ => unreachable!(),
    };
    let doc = Document::new(html);
    let scripts = extract_scripts(&doc);

    assert_eq!(scripts.len(), 4);

    // Check script types
    assert!(matches!(scripts[0].0.script_type, ScriptType::Inline));
    assert!(matches!(
        scripts[1].0.script_type,
        ScriptType::External { .. }
    ));

    // Check async/defer
    assert!(!scripts[0].0.async_flag && !scripts[0].0.defer);
    assert!(scripts[2].0.async_flag);
    assert!(scripts[3].0.defer);
}

#[test]
fn dom_queries() {
    let doc = sample_document();
    assert_eq!(dom_api::get_element_by_id(&doc, "main").map(|e| e.tag_name.clone()), Some("div".to_string()));
    assert_eq!(dom_api::query_selector(&doc, "#main").map(|e| e.tag_name.clone()), Some("div".to_string()));
    assert_eq!(dom_api::query_selector_all(&doc, ".big").len(), 2);
    assert_eq!(dom_api::query_selector_all(&doc, "script").len(), 4);
    assert!(dom_api::query_selector(&doc, "  ").is_none());
    assert_eq!(doc.body_element().map(|e| e.children.len()), Some(3));
    let mut e = dom_api::create_element("p");
    dom_api::set_text_content(&mut e, "hello");
    assert_eq!(dom_api::get_text_content(&e), "hello");
    dom_api::set_attribute(&mut e, "id", "x");
    assert_eq!(dom_api::get_attribute(&e, "id"), Some("x".to_string()));
    dom_api::set_inner_html(&mut e, "<b>bold</b>");
    assert_eq!(e.text_content(), "<b>bold</b>");
    dom_api::append_child(&mut e, text("!"));
    assert_eq!(e.children.len(), 2);
}

#[test]
fn test_input_description() {
    let file = Input::File("test.html".to_string());
    assert_eq!(file.description(), "file: test.html");

    let html = Input::Html("<h1>Test</h1>".to_string());
    assert_eq!(html.description(), "HTML string");

    let url = Input::Url("https://example.com".to_string());
    assert_eq!(url.description(), "URL: https://example.com");
}

#[test]
fn title_and_element_assignments_are_extracted() {
    assert_eq!(extract_document_title("document.title = 'Report';"), Some("Report".to_string()));
    assert_eq!(extract_document_title("document.title=\"A b\""), Some("A b".to_string()));
    assert_eq!(extract_document_title("document.title = x;"), None);
    assert_eq!(extract_document_title("document.title = 'open"), None);
    assert_eq!(extract_document_title("var t = 1;"), None);
    let js = "document.getElementById('a').innerHTML = \"<b>x</b>\";\n\
              document.getElementById('c').innerHTML = 'y';";
    assert_eq!(
        extract_inner_html_assignments(js),
        vec![("a".to_string(), "<b>x</b>".to_string()), ("c".to_string(), "y".to_string())]
    );
    assert!(extract_text_content_assignments(js).is_empty());
    // The property is looked for anywhere after the id, as the text scan does.
    let mixed = "document.getElementById(\"b\").textContent = 'plain'; document.getElementById('c').innerHTML = 'y';";
    assert_eq!(
        extract_inner_html_assignments(mixed),
        vec![("b".to_string(), "plain".to_string()), ("c".to_string(), "y".to_string())]
    );
    assert_eq!(extract_text_content_assignments(mixed), vec![("b".to_string(), "plain".to_string())]);
    assert!(extract_inner_html_assignments("document.getElementById(x).innerHTML = 'z'").is_empty());
}

#[test]
fn js_engine_applies_assignments_to_the_document() {
    let mut doc = sample_document();
    let mut engine = create_script_engine(ScriptSandbox::default()).unwrap();
    let s = Script {
        script_type: ScriptType::Inline,
        content: "document.title = 'Done'; document.getElementById('main').textContent = 'replaced';".to_string(),
        async_flag: false,
        defer: false,
        mime_type: None,
    };
    engine.execute(&s, &mut doc).unwrap();
    assert_eq!(doc.title, Some("Done".to_string()));
    let main = dom_api::get_element_by_id(&doc, "main").unwrap();
    assert_eq!(main.children.len(), 1);
    assert_eq!(main.text_content(), "replaced");
    assert_eq!(engine.context.console_output.len(), 1);
    assert_eq!(
        engine.context.console_output[0],
        format!("[LOG] Would execute inline script: {} bytes", s.content.len())
    );
    let plain = Script { mime_type: Some("text/plain".to_string()), ..s.clone() };
    engine.execute(&plain, &mut doc).unwrap();
    assert_eq!(engine.context.console_output.len(), 1);
    engine.fire_dom_content_loaded(&mut doc).unwrap();
    engine.fire_window_load(&mut doc).unwrap();
    assert!(engine.context.dom_content_loaded && engine.context.window_loaded);
    engine.reset();
    assert!(engine.context.console_output.is_empty());
    assert!(!engine.context.dom_content_loaded);
}

#[test]
fn js_engine_changes_only_the_first_element_with_the_id() {
    let body = el("body", &[], vec![
        el("p", &[("id", "t")], vec![text("one")]),
        el("p", &[("id", "t")], vec![text("two")]),
    ]);
    let root = match el("html", &[], vec![body]) {
        Node::Element(e) => e,
        _ => unreachable!(),
    };
    let mut doc = Document::new(root);
    let mut engine = JsEngine::new(ScriptSandbox::strict()).unwrap();
    let s = Script {
        script_type: ScriptType::External { src: "x.js".to_string() },
        content: "document.getElementById('t').innerHTML = 'new'".to_string(),
        async_flag: false,
        defer: false,
        mime_type: Some("application/javascript".to_string()),
    };
    engine.execute(&s, &mut doc).unwrap();
    let texts: Vec<String> = doc.root.children[0]
        .as_element()
        .unwrap()
        .children
        .iter()
        .map(|n| n.as_element().unwrap().text_content())
        .collect();
    assert_eq!(texts, vec!["new".to_string(), "two".to_string()]);
    assert!(engine.context.console_output[0].contains("external script"));
    assert_eq!(doc.title, None);
}
