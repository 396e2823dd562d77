//! Scripts of HTML documents: what a script element holds, when it runs,
//! the sandbox it would run in, and the engine interface that runs it.
//! No JavaScript engine is built in; the engine here records and applies
//! simple DOM assignments.

use vstd::prelude::*;
use crate::html::{Document, Element, Node, TextNode, ElementQuery, attr_of, children_text, preorder,
    nodes_preorder, matching, first_matching, collect_descendants, copy_element, same_element};
use crate::strings::{lower_chars, chars_are, ascii_lower_seq, str_eq};
use crate::types::PdfError;
use crate::strings::{decimal, decimal_string};
use crate::script::tree_view::{ElementView, element_view, retext_element, retexted};
use crate::script::assign::{title_assignment, id_assignments, extract_document_title,
    extract_inner_html_assignments, extract_text_content_assignments};
use crate::html::attrs_view;
use vstd::utf8::encode_utf8;

pub mod dom_api;
pub mod tree_view;
pub mod assign;

verus! {

/// Script execution mode: run all scripts, none, or only same-origin and inline ones
#[derive(Debug, Clone, Copy, PartialEq, Eq, Structural)]
pub enum ScriptMode {
    Enabled,
    Disabled,
    SameOriginOnly,
}

impl Default for ScriptMode {
    fn default() -> (r: Self)
        ensures
            r == ScriptMode::Enabled,
    {
        ScriptMode::Enabled
    }
}

/// Script type classification
#[derive(Debug, Clone, PartialEq)]
pub enum ScriptType {
    /// Inline script (`<script>code</script>`)
    Inline,
    /// External script (`<script src="...">`)
    External { src: String },
    /// Module script
    Module,
}

/// Script element with metadata
#[derive(Debug, Clone, PartialEq)]
pub struct Script {
    /// Script type (inline or external)
    pub script_type: ScriptType,
    /// Script content (for inline scripts)
    pub content: String,
    /// Whether script should be executed asynchronously
    pub async_flag: bool,
    /// Whether script should be deferred until DOM is parsed
    pub defer: bool,
    /// Script type attribute ("text/javascript", "module", etc.)
    pub mime_type: Option<String>,
}

/// The MIME types that mark JavaScript, in lowercase.
pub open spec fn is_js_mime(m: Seq<char>) -> bool {
    m == "text/javascript"@ || m == "application/javascript"@ || m == "application/ecmascript"@ || m == "module"@
}

/// A script is JavaScript when it has no type, or a JavaScript type in any
/// letter case. (Full Unicode lowercasing maps no character outside ASCII
/// onto these ASCII types, so comparing by ASCII case decides the same.)
pub open spec fn script_is_js(s: Script) -> bool {
    match s.mime_type {
        None => true,
        Some(m) => is_js_mime(ascii_lower_seq(m@)),
    }
}

impl Script {
    /// Check if this is a JavaScript script
    pub fn is_javascript(&self) -> (r: bool)
        ensures
            r == script_is_js(*self),
    {
        match &self.mime_type {
            None => true,
            Some(mime) => {
                let m = lower_chars(mime.as_str());
                chars_are(&m, "text/javascript") || chars_are(&m, "application/javascript")
                    || chars_are(&m, "application/ecmascript") || chars_are(&m, "module")
            },
        }
    }

    /// Check if script should execute immediately
    pub fn is_immediate(&self) -> (r: bool)
        ensures
            r == (!self.async_flag && !self.defer),
    {
        !self.async_flag && !self.defer
    }

    /// Check if script should execute after DOM is ready
    pub fn is_deferred(&self) -> (r: bool)
        ensures
            r == (self.defer || self.async_flag),
    {
        self.defer || self.async_flag
    }
}

/// Security sandbox configuration for script execution
#[derive(Debug, Clone, Copy, PartialEq, Eq, Structural)]
pub struct ScriptSandbox {
    /// Maximum execution time in milliseconds (0 = no limit)
    pub timeout_ms: u64,
    /// Maximum memory usage in bytes (0 = no limit)
    pub max_memory_bytes: usize,
    /// Whether to allow network requests
    pub allow_network: bool,
    /// Whether to allow file system access
    pub allow_fs: bool,
    /// Whether to allow eval() and Function constructor
    pub allow_eval: bool,
}

/// The default sandbox: a 5 second timeout, no memory limit, nothing
/// allowed.
pub open spec fn default_sandbox() -> ScriptSandbox {
    ScriptSandbox { timeout_ms: 5000, max_memory_bytes: 0, allow_network: false, allow_fs: false, allow_eval: false }
}

impl Default for ScriptSandbox {
    fn default() -> (r: Self)
        ensures
            r == default_sandbox(),
    {
        ScriptSandbox { timeout_ms: 5000, max_memory_bytes: 0, allow_network: false, allow_fs: false, allow_eval: false }
    }
}

impl ScriptSandbox {
    /// Create a permissive sandbox (use with caution): no limits, all allowed
    pub fn permissive() -> (r: Self)
        ensures
            r == (ScriptSandbox { timeout_ms: 0, max_memory_bytes: 0, allow_network: true, allow_fs: true, allow_eval: true }),
    {
        ScriptSandbox { timeout_ms: 0, max_memory_bytes: 0, allow_network: true, allow_fs: true, allow_eval: true }
    }

    /// Create a strict sandbox (recommended): the default one
    pub fn strict() -> (r: Self)
        ensures
            r == default_sandbox(),
    {
        ScriptSandbox::default()
    }

    /// Set execution timeout
    pub fn with_timeout(self, ms: u64) -> (r: Self)
        ensures
            r == (ScriptSandbox { timeout_ms: ms, ..self }),
    {
        let mut s = self;
        s.timeout_ms = ms;
        s
    }

    /// Set memory limit
    pub fn with_memory_limit(self, bytes: usize) -> (r: Self)
        ensures
            r == (ScriptSandbox { max_memory_bytes: bytes, ..self }),
    {
        let mut s = self;
        s.max_memory_bytes = bytes;
        s
    }
}

/// Script engine trait for executing JavaScript: implementations run
/// scripts against a document. Each implementation says, by the three
/// relations below, what its operations may do.
pub trait ScriptEngine: Sized {
    /// Running `script` from this engine on `doc` may give the engine
    /// `after`, the document `doc_after` and the result `r`.
    spec fn executes(&self, script: Script, doc: Document, after: Self, doc_after: Document,
        r: crate::types::Result<()>) -> bool;

    /// Firing DOMContentLoaded from this engine on `doc` may give `after`,
    /// `doc_after` and `r`.
    spec fn loads_dom(&self, doc: Document, after: Self, doc_after: Document, r: crate::types::Result<()>) -> bool;

    /// Firing the window load event from this engine on `doc` may give
    /// `after`, `doc_after` and `r`.
    spec fn loads_window(&self, doc: Document, after: Self, doc_after: Document, r: crate::types::Result<()>) -> bool;

    /// Execute a script in the context of a document
    fn execute(&mut self, script: &Script, document: &mut Document) -> (r: crate::types::Result<()>)
        ensures
            old(self).executes(*script, *old(document), *final(self), *final(document), r),
    ;

    /// Execute multiple scripts in order, stopping at the first error
    fn execute_batch(&mut self, scripts: &Vec<Script>, document: &mut Document) -> (r: crate::types::Result<()>)
        ensures
            batch_runs((|a: Self, sc: Script, da: Document, b: Self, db: Document, rr: crate::types::Result<()>| a.executes(sc, da, b, db, rr)),
                *old(self), scripts@, *old(document), *final(self), *final(document), r),
    {
        let ghost e0 = *self;
        let ghost d0 = *document;
        let ghost step = (|a: Self, sc: Script, da: Document, b: Self, db: Document, rr: crate::types::Result<()>| a.executes(sc, da, b, db, rr));
        let ghost mut es: Seq<Self> = seq![*self];
        let ghost mut ds: Seq<Document> = seq![*document];
        let mut i: usize = 0;
        proof {
            assert(scripts@.take(0) =~= Seq::<Script>::empty());
        }
        while i < scripts.len()
            invariant
                i <= scripts@.len(),
                traces(step, es, ds, scripts@.take(i as int)),
                es[0] == e0,
                ds[0] == d0,
                es.last() == *self,
                ds.last() == *document,
                step == (|a: Self, sc: Script, da: Document, b: Self, db: Document, rr: crate::types::Result<()>| a.executes(sc, da, b, db, rr)),
                e0 == *old(self),
                d0 == *old(document),
            decreases scripts@.len() - i,
        {
            let ghost eb = *self;
            let ghost db = *document;
            let res = self.execute(&scripts[i], document);
            proof {
                assert(eb.executes(scripts@[i as int], db, *self, *document, res));
                assert(scripts@.take(i as int).len() == i);
            }
            if res.is_err() {
                proof {
                    let k = i as int;
                    assert(traces(step, es, ds, scripts@.take(k)));
                    assert(runs_ok(step, e0, scripts@.take(k), d0, eb, db));
                    assert(step(eb, scripts@[k], db, *self, *document, res));
                }
                return res;
            }
            proof {
                let u: () = res->Ok_0;
                assert(res == Ok::<(), crate::types::PdfError>(u));
                let es2 = es.push(*self);
                let ds2 = ds.push(*document);
                let t = scripts@.take(i + 1);
                assert forall|k: int| #![trigger es2[k]] 0 <= k < t.len()
                    implies step(es2[k], t[k], ds2[k], es2[k + 1], ds2[k + 1], Ok(())) by {
                    if k < i {
                        assert(es2[k] == es[k] && es2[k + 1] == es[k + 1]);
                        assert(ds2[k] == ds[k] && ds2[k + 1] == ds[k + 1]);
                        assert(t[k] == scripts@.take(i as int)[k]);
                        assert(es[k] == es[k]);
                    } else {
                        assert(es2[k] == eb && ds2[k] == db);
                        assert(es2[k + 1] == *self && ds2[k + 1] == *document);
                    }
                }
                es = es2;
                ds = ds2;
            }
            i = i + 1;
        }
        proof {
            assert(scripts@.take(scripts@.len() as int) =~= scripts@);
            assert(traces(step, es, ds, scripts@));
        }
        Ok(())
    }

    /// Fire DOMContentLoaded event
    fn fire_dom_content_loaded(&mut self, document: &mut Document) -> (r: crate::types::Result<()>)
        ensures
            old(self).loads_dom(*old(document), *final(self), *final(document), r),
    ;

    /// Fire window.onload event
    fn fire_window_load(&mut self, document: &mut Document) -> (r: crate::types::Result<()>)
        ensures
            old(self).loads_window(*old(document), *final(self), *final(document), r),
    ;

    /// Reset the engine state
    fn reset(&mut self);
}

/// The engines `es` and documents `ds` trace successful runs of the
/// scripts `ss`: one more state than scripts, the run of each script
/// taking state `k` to state `k + 1` and succeeding.
pub open spec fn traces<E>(step: spec_fn(E, Script, Document, E, Document, crate::types::Result<()>) -> bool,
    es: Seq<E>, ds: Seq<Document>, ss: Seq<Script>) -> bool {
    &&& es.len() == ss.len() + 1
    &&& ds.len() == ss.len() + 1
    &&& forall|k: int| #![trigger es[k]] 0 <= k < ss.len() ==> step(es[k], ss[k], ds[k], es[k + 1], ds[k + 1], Ok(()))
}

/// Running every script of `ss` in turn succeeds, from engine `e` and
/// document `d` to engine `e2` and document `d2`, where `step` says what
/// one run may do.
pub open spec fn runs_ok<E>(step: spec_fn(E, Script, Document, E, Document, crate::types::Result<()>) -> bool,
    e: E, ss: Seq<Script>, d: Document, e2: E, d2: Document) -> bool {
    exists|es: Seq<E>, ds: Seq<Document>| #[trigger] traces(step, es, ds, ss)
        && es[0] == e && ds[0] == d && es.last() == e2 && ds.last() == d2
}

/// What running `ss` in order, stopping at the first error, may do: all
/// succeed, or those before the `k`-th succeed and the `k`-th fails with
/// the error returned.
pub open spec fn batch_runs<E>(step: spec_fn(E, Script, Document, E, Document, crate::types::Result<()>) -> bool,
    e: E, ss: Seq<Script>, d: Document, e2: E, d2: Document, r: crate::types::Result<()>) -> bool {
    ||| r is Ok && runs_ok(step, e, ss, d, e2, d2)
    ||| r is Err && exists|k: int, em: E, dm: Document| 0 <= k < ss.len()
        && #[trigger] runs_ok(step, e, ss.take(k), d, em, dm) && step(em, ss[k], dm, e2, d2, r)
}

/// No-op script engine: scripts are ignored
pub struct NoOpScriptEngine;

impl NoOpScriptEngine {
    pub fn new() -> (r: Self) {
        NoOpScriptEngine
    }
}

impl Default for NoOpScriptEngine {
    fn default() -> (r: Self) {
        NoOpScriptEngine
    }
}

impl ScriptEngine for NoOpScriptEngine {
    /// A script runs without effect.
    open spec fn executes(&self, script: Script, doc: Document, after: Self, doc_after: Document,
        r: crate::types::Result<()>) -> bool {
        r is Ok && after == *self && doc_after == doc
    }

    /// The event has no effect.
    open spec fn loads_dom(&self, doc: Document, after: Self, doc_after: Document, r: crate::types::Result<()>) -> bool {
        r is Ok && after == *self && doc_after == doc
    }

    /// The event has no effect.
    open spec fn loads_window(&self, doc: Document, after: Self, doc_after: Document, r: crate::types::Result<()>) -> bool {
        r is Ok && after == *self && doc_after == doc
    }

    fn execute(&mut self, script: &Script, document: &mut Document) -> (r: crate::types::Result<()>) {
        Ok(())
    }

    fn fire_dom_content_loaded(&mut self, document: &mut Document) -> (r: crate::types::Result<()>) {
        Ok(())
    }

    fn fire_window_load(&mut self, document: &mut Document) -> (r: crate::types::Result<()>) {
        Ok(())
    }

    fn reset(&mut self) {
    }
}

/// JavaScript context for DOM manipulation: the sandbox, the captured
/// console output and the events fired.
#[derive(Debug, Clone, PartialEq)]
pub struct JsContext {
    /// Sandbox configuration
    pub sandbox: ScriptSandbox,
    /// Console output capture
    pub console_output: Vec<String>,
    /// Whether DOMContentLoaded has fired
    pub dom_content_loaded: bool,
    /// Whether window.onload has fired
    pub window_loaded: bool,
}

impl JsContext {
    pub fn new(sandbox: ScriptSandbox) -> (r: Self)
        ensures
            r.sandbox == sandbox,
            r.console_output@.len() == 0,
            !r.dom_content_loaded,
            !r.window_loaded,
    {
        JsContext { sandbox, console_output: Vec::new(), dom_content_loaded: false, window_loaded: false }
    }

    /// Log a console message: `[LOG] ` and the message
    pub fn console_log(&mut self, message: &str)
        ensures
            final(self).console_output@.len() == old(self).console_output@.len() + 1,
            forall|i: int| 0 <= i < old(self).console_output@.len() ==> final(self).console_output@[i] == old(self).console_output@[i],
            final(self).console_output@.last()@ == "[LOG] "@ + message@,
            final(self).sandbox == old(self).sandbox,
            final(self).dom_content_loaded == old(self).dom_content_loaded,
            final(self).window_loaded == old(self).window_loaded,
    {
        let mut line = String::from_str("[LOG] ");
        line.append(message);
        self.console_output.push(line);
    }

    /// Log a console error: `[ERROR] ` and the message
    pub fn console_error(&mut self, message: &str)
        ensures
            final(self).console_output@.len() == old(self).console_output@.len() + 1,
            forall|i: int| 0 <= i < old(self).console_output@.len() ==> final(self).console_output@[i] == old(self).console_output@[i],
            final(self).console_output@.last()@ == "[ERROR] "@ + message@,
            final(self).sandbox == old(self).sandbox,
            final(self).dom_content_loaded == old(self).dom_content_loaded,
            final(self).window_loaded == old(self).window_loaded,
    {
        let mut line = String::from_str("[ERROR] ");
        line.append(message);
        self.console_output.push(line);
    }
}

impl Default for JsContext {
    fn default() -> (r: Self)
        ensures
            r.sandbox == default_sandbox(),
            r.console_output@.len() == 0,
            !r.dom_content_loaded,
            !r.window_loaded,
    {
        JsContext::new(ScriptSandbox::default())
    }
}

/// Configuration for script execution
#[derive(Debug, Clone, Copy, PartialEq, Eq, Structural)]
pub struct ScriptConfig {
    /// Script execution mode
    pub mode: ScriptMode,
    /// Sandbox settings
    pub sandbox: ScriptSandbox,
}

impl Default for ScriptConfig {
    fn default() -> (r: Self)
        ensures
            r == (ScriptConfig { mode: ScriptMode::Enabled, sandbox: default_sandbox() }),
    {
        ScriptConfig { mode: ScriptMode::Enabled, sandbox: ScriptSandbox::default() }
    }
}

impl ScriptConfig {
    /// Disable script execution
    pub fn disabled() -> (r: Self)
        ensures
            r == (ScriptConfig { mode: ScriptMode::Disabled, sandbox: default_sandbox() }),
    {
        ScriptConfig { mode: ScriptMode::Disabled, sandbox: ScriptSandbox::default() }
    }

    /// Enable with strict sandbox
    pub fn strict() -> (r: Self)
        ensures
            r == (ScriptConfig { mode: ScriptMode::Enabled, sandbox: default_sandbox() }),
    {
        ScriptConfig { mode: ScriptMode::Enabled, sandbox: ScriptSandbox::strict() }
    }

    /// Enable with custom timeout
    pub fn with_timeout(self, ms: u64) -> (r: Self)
        ensures
            r == (ScriptConfig { mode: self.mode, sandbox: ScriptSandbox { timeout_ms: ms, ..self.sandbox } }),
    {
        ScriptConfig { mode: self.mode, sandbox: self.sandbox.with_timeout(ms) }
    }
}


/// `s` is what a script element `e` declares: an external script when it
/// has `src` (with no content), else an inline one with the element's text;
/// `async`, `defer` and `type` from its attributes.
pub open spec fn script_of(s: Script, e: Element) -> bool {
    &&& match attr_of(e.attributes@, "src"@) {
        Some(v) => (s.script_type matches ScriptType::External { src } && src@ == v) && s.content@ == Seq::<char>::empty(),
        None => s.script_type == ScriptType::Inline && s.content@ == children_text(e.children@),
    }
    &&& s.async_flag == attr_of(e.attributes@, "async"@) is Some
    &&& s.defer == attr_of(e.attributes@, "defer"@) is Some
    &&& match attr_of(e.attributes@, "type"@) {
        Some(v) => s.mime_type matches Some(m) && m@ == v,
        None => s.mime_type is None,
    }
}

/// The script elements among the descendants of `e`, in document order
/// (tag names compared without ASCII case).
pub open spec fn scripts_under(e: Element) -> Seq<Element> {
    matching(nodes_preorder(e.children@), ElementQuery::Tag, "script"@)
}

/// A script element declares JavaScript: it has no `type`, or a JavaScript
/// type in any letter case.
pub open spec fn element_is_js(e: Element) -> bool {
    match attr_of(e.attributes@, "type"@) {
        None => true,
        Some(v) => is_js_mime(ascii_lower_seq(v)),
    }
}

/// The JavaScript script elements of a document in document order: those
/// in the first `head`, then those in the first `body`.
pub open spec fn document_scripts(d: Document) -> Seq<Element> {
    ((match first_matching(preorder(d.root), ElementQuery::Tag, "head"@) {
        Some(h) => scripts_under(h),
        None => Seq::empty(),
    }) + (match first_matching(preorder(d.root), ElementQuery::Tag, "body"@) {
        Some(b) => scripts_under(b),
        None => Seq::empty(),
    })).filter(|e: Element| element_is_js(e))
}

/// The script an element declares.
pub fn parse_script_element(element: &Element) -> (r: Script)
    ensures
        script_of(r, *element),
{
    let async_flag = element.has_attr("async");
    let defer = element.has_attr("defer");
    let mime_type = match element.attr("type") {
        Some(t) => Some(String::from_str(t)),
        None => None,
    };
    match element.attr("src") {
        Some(src) => Script {
            script_type: ScriptType::External { src: String::from_str(src) },
            content: String::new(),
            async_flag,
            defer,
            mime_type,
        },
        None => Script {
            script_type: ScriptType::Inline,
            content: element.text_content(),
            async_flag,
            defer,
            mime_type,
        },
    }
}

/// The script of each JavaScript element of `els`, in order, with a copy
/// of the element.
fn js_scripts(els: &Vec<&Element>) -> (r: Vec<(Script, Option<Element>)>)
    ensures
        scripts_extracted(r@, els@.map_values(|x: &Element| *x).filter(|e: Element| element_is_js(e))),
{
    let ghost view = els@.map_values(|x: &Element| *x);
    let ghost p = |e: Element| element_is_js(e);
    let mut out: Vec<(Script, Option<Element>)> = Vec::new();
    let mut i: usize = 0;
    assert(view.take(0).filter(p) =~= Seq::<Element>::empty()) by {
        reveal(Seq::filter);
    }
    while i < els.len()
        invariant
            i <= els@.len(),
            view == els@.map_values(|x: &Element| *x),
            p == (|e: Element| element_is_js(e)),
            scripts_extracted(out@, view.take(i as int).filter(p)),
        decreases els@.len() - i,
    {
        let el = els[i];
        let script = parse_script_element(el);
        proof {
            assert(view.take(i + 1).drop_last() =~= view.take(i as int));
            assert(view.take(i + 1).last() == *el);
            assert(view.take(i + 1).filter(p) == if p(*el) {
                view.take(i as int).filter(p).push(*el)
            } else {
                view.take(i as int).filter(p)
            }) by {
                reveal(Seq::filter);
            }
            assert(script_is_js(script) == element_is_js(*el));
        }
        if script.is_javascript() {
            let copy = copy_element(el);
            let ghost before = out@;
            out.push((script, Some(copy)));
            proof {
                let f = view.take(i + 1).filter(p);
                assert forall|k: int| 0 <= k < out@.len() implies script_of(#[trigger] out@[k].0, f[k])
                    && (out@[k].1 matches Some(c) && same_element(f[k], c)) by {
                    if k < before.len() {
                        assert(out@[k] == before[k]);
                    }
                }
            }
        }
        i = i + 1;
    }
    assert(view.take(els@.len() as int) =~= view);
    out
}

/// Each entry holds the script that the corresponding element declares and
/// a copy of that element.
pub open spec fn scripts_extracted(r: Seq<(Script, Option<Element>)>, els: Seq<Element>) -> bool {
    &&& r.len() == els.len()
    &&& forall|i: int| 0 <= i < r.len() ==> script_of(#[trigger] r[i].0, els[i])
            && (r[i].1 matches Some(c) && same_element(els[i], c))
}

/// Extract the JavaScript scripts of a document in document order: those in
/// the head, then those in the body, each with a copy of its element.
/// Scripts of another type are left out.
pub fn extract_scripts(document: &Document) -> (r: Vec<(Script, Option<Element>)>)
    ensures
        scripts_extracted(r@, document_scripts(*document)),
{
    let mut found: Vec<&Element> = Vec::new();
    let ghost head_part: Seq<Element> = Seq::empty();
    if let Some(head) = document.head_element() {
        collect_descendants(head, ElementQuery::Tag, "script", &mut found);
        proof {
            head_part = scripts_under(*head);
        }
    }
    assert(found@.map_values(|x: &Element| *x) =~= head_part) by {
        assert(Seq::<&Element>::empty().map_values(|x: &Element| *x) =~= Seq::<Element>::empty());
    }
    let ghost body_part: Seq<Element> = Seq::empty();
    if let Some(body) = document.body_element() {
        collect_descendants(body, ElementQuery::Tag, "script", &mut found);
        proof {
            body_part = scripts_under(*body);
        }
    }
    assert(found@.map_values(|x: &Element| *x) =~= head_part + body_part);
    js_scripts(&found)
}


/// The positions of the JavaScript scripts among the first `n` of `ss`
/// that run before the document is loaded (`immediate`) or after it.
pub open spec fn run_order(ss: Seq<(Script, Option<Element>)>, n: int, immediate: bool) -> Seq<usize>
    decreases n,
{
    if n <= 0 {
        Seq::empty()
    } else {
        let s = ss[n - 1].0;
        let rest = run_order(ss, n - 1, immediate);
        if script_is_js(s) && ((!s.async_flag && !s.defer) == immediate) { rest.push((n - 1) as usize) } else { rest }
    }
}

proof fn lemma_run_order_bounds(ss: Seq<(Script, Option<Element>)>, n: int, immediate: bool)
    requires
        0 <= n <= usize::MAX,
    ensures
        forall|k: int| 0 <= k < run_order(ss, n, immediate).len() ==> #[trigger] run_order(ss, n, immediate)[k] < n,
    decreases n,
{
    if n > 0 {
        lemma_run_order_bounds(ss, n - 1, immediate);
        let rest = run_order(ss, n - 1, immediate);
        assert(((n - 1) as usize) as int == n - 1);
        assert forall|k: int| 0 <= k < run_order(ss, n, immediate).len() implies #[trigger] run_order(ss, n, immediate)[k] < n by {
            if k < rest.len() {
                assert(run_order(ss, n, immediate)[k] == rest[k]);
            }
        }
    }
}

/// The order in which scripts run: the positions of the immediate
/// JavaScript scripts, then those of the deferred ones, each in document
/// order. Scripts of other types do not run.
pub fn execution_order(scripts: &Vec<(Script, Option<Element>)>) -> (r: (Vec<usize>, Vec<usize>))
    ensures
        r.0@ == run_order(scripts@, scripts@.len() as int, true),
        r.1@ == run_order(scripts@, scripts@.len() as int, false),
{
    let mut immediate: Vec<usize> = Vec::new();
    let mut deferred: Vec<usize> = Vec::new();
    let mut i: usize = 0;
    while i < scripts.len()
        invariant
            i <= scripts@.len(),
            immediate@ == run_order(scripts@, i as int, true),
            deferred@ == run_order(scripts@, i as int, false),
        decreases scripts@.len() - i,
    {
        let s = &scripts[i].0;
        if s.is_javascript() {
            if s.is_immediate() {
                immediate.push(i);
            } else {
                deferred.push(i);
            }
        }
        i = i + 1;
    }
    (immediate, deferred)
}

/// What one run of `execute` may do, for engines of type `E`.
pub open spec fn execute_step<E: ScriptEngine>() -> spec_fn(E, Script, Document, E, Document, crate::types::Result<()>) -> bool {
    (|a: E, sc: Script, da: Document, b: E, db: Document, rr: crate::types::Result<()>| a.executes(sc, da, b, db, rr))
}

/// The scripts at the positions `order` among the extracted `ss`.
pub open spec fn picked(ss: Seq<(Script, Option<Element>)>, order: Seq<usize>) -> Seq<Script> {
    Seq::new(order.len(), |k: int| ss[order[k] as int].0)
}

/// What the last two phases may do: the deferred scripts, then, unless
/// one fails, the load event.
pub open spec fn deferred_then_load<E: ScriptEngine>(deferred: Seq<Script>, e: E, d: Document, e2: E, d2: Document,
    r: crate::types::Result<()>) -> bool {
    exists|e4: E, d4: Document, r4: crate::types::Result<()>|
        #[trigger] batch_runs(execute_step::<E>(), e, deferred, d, e4, d4, r4)
        && (if r4 is Err { e2 == e4 && d2 == d4 && r == r4 } else { e4.loads_window(d4, e2, d2, r) })
}

/// What the last three phases may do: DOMContentLoaded, then, unless it
/// fails, the deferred scripts and the load event.
pub open spec fn dom_then_rest<E: ScriptEngine>(deferred: Seq<Script>, e: E, d: Document, e2: E, d2: Document,
    r: crate::types::Result<()>) -> bool {
    exists|e3: E, d3: Document, r3: crate::types::Result<()>| #[trigger] e.loads_dom(d, e3, d3, r3)
        && (if r3 is Err { e2 == e3 && d2 == d3 && r == r3 } else { deferred_then_load(deferred, e3, d3, e2, d2, r) })
}

/// What running a document's extracted scripts `ss` may do: the immediate
/// JavaScript scripts in document order, DOMContentLoaded, the deferred
/// JavaScript scripts in document order, the load event; the first error
/// stops the run and is returned.
pub open spec fn document_runs<E: ScriptEngine>(ss: Seq<(Script, Option<Element>)>, e: E, d: Document, e2: E,
    d2: Document, r: crate::types::Result<()>) -> bool {
    let immediate = picked(ss, run_order(ss, ss.len() as int, true));
    let deferred = picked(ss, run_order(ss, ss.len() as int, false));
    exists|e1: E, d1: Document, r1: crate::types::Result<()>|
        #[trigger] batch_runs(execute_step::<E>(), e, immediate, d, e1, d1, r1)
        && (if r1 is Err { e2 == e1 && d2 == d1 && r == r1 } else { dom_then_rest(deferred, e1, d1, e2, d2, r) })
}

/// Runs the scripts at the positions `order`, in turn, stopping at the
/// first error.
fn run_picked<E: ScriptEngine>(engine: &mut E, scripts: &Vec<(Script, Option<Element>)>, order: &Vec<usize>,
    document: &mut Document) -> (r: crate::types::Result<()>)
    requires
        forall|k: int| 0 <= k < order@.len() ==> #[trigger] order@[k] < scripts@.len(),
    ensures
        batch_runs(execute_step::<E>(), *old(engine), picked(scripts@, order@), *old(document), *final(engine),
            *final(document), r),
{
    let ghost step = execute_step::<E>();
    let ghost ps = picked(scripts@, order@);
    let ghost e0 = *engine;
    let ghost d0 = *document;
    let ghost mut es: Seq<E> = seq![*engine];
    let ghost mut ds: Seq<Document> = seq![*document];
    let mut i: usize = 0;
    proof {
        assert(ps.take(0) =~= Seq::<Script>::empty());
    }
    while i < order.len()
        invariant
            i <= order@.len(),
            forall|k: int| 0 <= k < order@.len() ==> #[trigger] order@[k] < scripts@.len(),
            ps == picked(scripts@, order@),
            traces(step, es, ds, ps.take(i as int)),
            es[0] == e0,
            ds[0] == d0,
            es.last() == *engine,
            ds.last() == *document,
            step == execute_step::<E>(),
            e0 == *old(engine),
            d0 == *old(document),
        decreases order@.len() - i,
    {
        let ghost eb = *engine;
        let ghost db = *document;
        let idx = order[i];
        let res = engine.execute(&scripts[idx].0, document);
        proof {
            assert(ps[i as int] == scripts@[idx as int].0);
            assert(eb.executes(ps[i as int], db, *engine, *document, res));
            assert(ps.take(i as int).len() == i);
        }
        if res.is_err() {
            proof {
                let k = i as int;
                assert(traces(step, es, ds, ps.take(k)));
                assert(runs_ok(step, e0, ps.take(k), d0, eb, db));
                assert(step(eb, ps[k], db, *engine, *document, res));
            }
            return res;
        }
        proof {
            let u: () = res->Ok_0;
            assert(res == Ok::<(), crate::types::PdfError>(u));
            let es2 = es.push(*engine);
            let ds2 = ds.push(*document);
            let t = ps.take(i + 1);
            assert forall|k: int| #![trigger es2[k]] 0 <= k < t.len()
                implies step(es2[k], t[k], ds2[k], es2[k + 1], ds2[k + 1], Ok(())) by {
                if k < i {
                    assert(es2[k] == es[k] && es2[k + 1] == es[k + 1]);
                    assert(ds2[k] == ds[k] && ds2[k + 1] == ds[k + 1]);
                    assert(t[k] == ps.take(i as int)[k]);
                    assert(es[k] == es[k]);
                } else {
                    assert(es2[k] == eb && ds2[k] == db);
                    assert(es2[k + 1] == *engine && ds2[k + 1] == *document);
                }
            }
            es = es2;
            ds = ds2;
        }
        i = i + 1;
    }
    proof {
        assert(ps.take(ps.len() as int) =~= ps);
        assert(traces(step, es, ds, ps));
    }
    Ok(())
}

/// Execute scripts on a document: the immediate JavaScript scripts in
/// order, then the DOMContentLoaded event, the deferred scripts, and the
/// load event; the first error stops the run.
pub fn execute_scripts_on_document<E: ScriptEngine>(document: &mut Document, engine: &mut E) -> (r: crate::types::Result<()>)
    ensures
        exists|ss: Seq<(Script, Option<Element>)>| #[trigger] scripts_extracted(ss, document_scripts(*old(document)))
            && document_runs(ss, *old(engine), *old(document), *final(engine), *final(document), r),
{
    let scripts = extract_scripts(document);
    let (immediate, deferred) = execution_order(&scripts);
    let _count: usize = scripts.len();
    proof {
        lemma_run_order_bounds(scripts@, scripts@.len() as int, true);
        lemma_run_order_bounds(scripts@, scripts@.len() as int, false);
    }
    let ghost ss = scripts@;
    let ghost imm = picked(ss, run_order(ss, ss.len() as int, true));
    let ghost def = picked(ss, run_order(ss, ss.len() as int, false));
    let ghost e0 = *engine;
    let ghost d0 = *document;
    let r1 = run_picked(engine, &scripts, &immediate, document);
    let ghost e1 = *engine;
    let ghost d1 = *document;
    if r1.is_err() {
        proof {
            assert(batch_runs(execute_step::<E>(), e0, imm, d0, e1, d1, r1));
            assert(document_runs(ss, e0, d0, *engine, *document, r1));
        }
        return r1;
    }
    let r3 = engine.fire_dom_content_loaded(document);
    let ghost e3 = *engine;
    let ghost d3 = *document;
    if r3.is_err() {
        proof {
            assert(e1.loads_dom(d1, e3, d3, r3));
            assert(dom_then_rest(def, e1, d1, *engine, *document, r3));
            assert(batch_runs(execute_step::<E>(), e0, imm, d0, e1, d1, r1));
            assert(document_runs(ss, e0, d0, *engine, *document, r3));
        }
        return r3;
    }
    let r4 = run_picked(engine, &scripts, &deferred, document);
    let ghost e4 = *engine;
    let ghost d4 = *document;
    if r4.is_err() {
        proof {
            assert(batch_runs(execute_step::<E>(), e3, def, d3, e4, d4, r4));
            assert(deferred_then_load(def, e3, d3, *engine, *document, r4));
            assert(e1.loads_dom(d1, e3, d3, r3));
            assert(dom_then_rest(def, e1, d1, *engine, *document, r4));
            assert(batch_runs(execute_step::<E>(), e0, imm, d0, e1, d1, r1));
            assert(document_runs(ss, e0, d0, *engine, *document, r4));
        }
        return r4;
    }
    let r = engine.fire_window_load(document);
    proof {
        assert(e4.loads_window(d4, *engine, *document, r));
        assert(batch_runs(execute_step::<E>(), e3, def, d3, e4, d4, r4));
        assert(deferred_then_load(def, e3, d3, *engine, *document, r));
        assert(e1.loads_dom(d1, e3, d3, r3));
        assert(dom_then_rest(def, e1, d1, *engine, *document, r));
        assert(batch_runs(execute_step::<E>(), e0, imm, d0, e1, d1, r1));
        assert(document_runs(ss, e0, d0, *engine, *document, r));
        assert(scripts_extracted(ss, document_scripts(d0)));
    }
    r
}


/// How the console names a script's kind.
pub open spec fn script_kind(t: ScriptType) -> Seq<char> {
    match t {
        ScriptType::Inline => "inline"@,
        ScriptType::External { .. } => "external"@,
        ScriptType::Module => "module"@,
    }
}

/// The console line for running a script: its kind and its size in
/// UTF-8 bytes.
pub open spec fn execute_message(s: Script) -> Seq<char> {
    "Would execute "@ + script_kind(s.script_type) + " script: "@
        + decimal((encode_utf8(s.content@).len() as usize) as nat) + " bytes"@
}

/// The tree after the assignments `list`, in order, each replacing the
/// children of the first element with the id by the text.
pub open spec fn retext_all(root: ElementView, list: Seq<(Seq<char>, Seq<char>)>) -> ElementView
    decreases list.len(),
{
    if list.len() == 0 {
        root
    } else {
        let last = list[list.len() - 1];
        retext_element(retext_all(root, list.subrange(0, list.len() - 1)), last.0, last.1).0
    }
}

/// The tree after a script's `innerHTML` and then its `textContent`
/// assignments.
pub open spec fn script_tree(root: ElementView, content: Seq<char>) -> ElementView {
    retext_all(retext_all(root, id_assignments(content, "innerHTML"@)), id_assignments(content, "textContent"@))
}

/// The script engine of this converter. It runs no JavaScript: it notes
/// each JavaScript script in the console and applies the DOM assignments
/// that the script's text makes in the simplest forms (`document.title`,
/// and `innerHTML` or `textContent` of `document.getElementById`).
pub struct JsEngine {
    pub context: JsContext,
}

/// Replaces, assignment by assignment, the children of the first element
/// with the id by the text.
fn apply_assignments(document: &mut Document, list: &Vec<(String, String)>)
    ensures
        element_view(final(document).root) == retext_all(element_view(old(document).root), attrs_view(list@)),
        final(document).title == old(document).title,
{
    let mut i: usize = 0;
    assert(attrs_view(list@).subrange(0, 0) =~= Seq::<(Seq<char>, Seq<char>)>::empty());
    while i < list.len()
        invariant
            i <= list@.len(),
            element_view(document.root) == retext_all(element_view(old(document).root), attrs_view(list@).subrange(0, i as int)),
            document.title == old(document).title,
        decreases list@.len() - i,
    {
        let (root, _found) = retexted(&document.root, list[i].0.as_str(), list[i].1.as_str());
        document.root = root;
        proof {
            let sub = attrs_view(list@).subrange(0, i + 1);
            assert(sub.subrange(0, i as int) =~= attrs_view(list@).subrange(0, i as int));
            assert(sub[i as int] == (list@[i as int].0@, list@[i as int].1@));
        }
        i = i + 1;
    }
    assert(attrs_view(list@).subrange(0, list@.len() as int) =~= attrs_view(list@));
}

impl JsEngine {
    /// An engine with a fresh context for the sandbox.
    pub fn new(sandbox: ScriptSandbox) -> (r: crate::types::Result<JsEngine>)
        ensures
            r matches Ok(e) && e.context.sandbox == sandbox && e.context.console_output@.len() == 0
                && !e.context.dom_content_loaded && !e.context.window_loaded,
    {
        Ok(JsEngine { context: JsContext::new(sandbox) })
    }

    /// Applies the title and the element assignments of a script's text.
    fn execute_basic_dom_manipulation(&mut self, script: &Script, document: &mut Document) -> (r: crate::types::Result<()>)
        ensures
            r is Ok,
            *final(self) == *old(self),
            element_view(final(document).root) == script_tree(element_view(old(document).root), script.content@),
            title_assignment(script.content@) matches Some(t)
                ==> final(document).title matches Some(ft) && ft@ == t,
            title_assignment(script.content@) is None ==> final(document).title == old(document).title,
    {
        let content = script.content.as_str();
        match extract_document_title(content) {
            Some(title) => document.set_title(title.as_str()),
            None => {},
        }
        let inner = extract_inner_html_assignments(content);
        apply_assignments(document, &inner);
        let texts = extract_text_content_assignments(content);
        apply_assignments(document, &texts);
        Ok(())
    }
}

impl ScriptEngine for JsEngine {
    /// A script that is not JavaScript changes nothing; a JavaScript one
    /// logs what would run and applies its title and DOM assignments.
    open spec fn executes(&self, script: Script, doc: Document, after: Self, doc_after: Document,
        r: crate::types::Result<()>) -> bool {
        &&& r is Ok
        &&& !script_is_js(script) ==> after == *self
            && element_view(doc_after.root) == element_view(doc.root)
            && doc_after.title == doc.title
        &&& script_is_js(script) ==> {
            &&& after.context.sandbox == self.context.sandbox
            &&& after.context.dom_content_loaded == self.context.dom_content_loaded
            &&& after.context.window_loaded == self.context.window_loaded
            &&& after.context.console_output@.len() == self.context.console_output@.len() + 1
            &&& forall|i: int| 0 <= i < self.context.console_output@.len()
                ==> after.context.console_output@[i] == self.context.console_output@[i]
            &&& after.context.console_output@.last()@ == "[LOG] "@ + execute_message(script)
            &&& element_view(doc_after.root) == script_tree(element_view(doc.root), script.content@)
            &&& title_assignment(script.content@) matches Some(t)
                ==> doc_after.title matches Some(ft) && ft@ == t
            &&& title_assignment(script.content@) is None ==> doc_after.title == doc.title
        }
    }

    /// DOMContentLoaded is recorded; nothing else changes.
    open spec fn loads_dom(&self, doc: Document, after: Self, doc_after: Document, r: crate::types::Result<()>) -> bool {
        &&& r is Ok
        &&& doc_after == doc
        &&& after.context.dom_content_loaded
        &&& after.context.window_loaded == self.context.window_loaded
        &&& after.context.sandbox == self.context.sandbox
        &&& after.context.console_output == self.context.console_output
    }

    /// The load event is recorded; nothing else changes.
    open spec fn loads_window(&self, doc: Document, after: Self, doc_after: Document, r: crate::types::Result<()>) -> bool {
        &&& r is Ok
        &&& doc_after == doc
        &&& after.context.window_loaded
        &&& after.context.dom_content_loaded == self.context.dom_content_loaded
        &&& after.context.sandbox == self.context.sandbox
        &&& after.context.console_output == self.context.console_output
    }

    fn execute(&mut self, script: &Script, document: &mut Document) -> (r: crate::types::Result<()>) {
        if !script.is_javascript() {
            return Ok(());
        }
        let mut msg = String::from_str("Would execute ");
        match &script.script_type {
            ScriptType::Inline => msg.append("inline"),
            ScriptType::External { .. } => msg.append("external"),
            ScriptType::Module => msg.append("module"),
        }
        msg.append(" script: ");
        assert(msg@ =~= "Would execute "@ + script_kind(script.script_type) + " script: "@);
        let n = script.content.as_str().len();
        let digits = decimal_string(n as u128);
        msg.append(digits.as_str());
        msg.append(" bytes");
        assert(msg@ =~= execute_message(*script));
        self.context.console_log(msg.as_str());
        self.execute_basic_dom_manipulation(script, document)
    }

    fn fire_dom_content_loaded(&mut self, document: &mut Document) -> (r: crate::types::Result<()>) {
        if !self.context.dom_content_loaded {
            self.context.dom_content_loaded = true;
        }
        Ok(())
    }

    fn fire_window_load(&mut self, document: &mut Document) -> (r: crate::types::Result<()>) {
        if !self.context.window_loaded {
            self.context.window_loaded = true;
        }
        Ok(())
    }

    fn reset(&mut self)
        ensures
            final(self).context.sandbox == old(self).context.sandbox,
            final(self).context.console_output@.len() == 0,
            !final(self).context.dom_content_loaded,
            !final(self).context.window_loaded,
    {
        self.context = JsContext::new(self.context.sandbox);
    }
}

/// Create a script engine based on configuration: the engine of this
/// converter, with a fresh context for the sandbox.
pub fn create_script_engine(sandbox: ScriptSandbox) -> (r: crate::types::Result<JsEngine>)
    ensures
        r matches Ok(e) && e.context.sandbox == sandbox && e.context.console_output@.len() == 0
            && !e.context.dom_content_loaded && !e.context.window_loaded,
{
    JsEngine::new(sandbox)
}

} // verus!
