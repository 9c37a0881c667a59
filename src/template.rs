//! The HTML page that loads a module's generated bindings in a browser.
use vstd::prelude::*;

use crate::page_proofs::{lemma_module_ref_only_at_home, lemma_script_tag_only_at_home};

verus! {

/// The page up to the tag that loads the bindings' script.
pub const PAGE_TOP: &'static str = "<!DOCTYPE html>
<html lang=\"en\">
  <head>
    <meta charset=\"UTF-8\">
    <meta name=\"viewport\" content=\"width=device-width, initial-scale=1\">
    <title>wasm-bindgen-runner</title>
  </head>
  <body style=\"margin: 0; padding: 0; width: 100%; height: 100%;\">
    <div id=\"rust-web-app\" style=\"width: 100%; height: 100%;\"></div>
    ";

/// Between the script tag and the quoted module name: the call of the loader.
pub const PAGE_LOADER: &'static str = "</script>
    <script>window.wasm_bindgen(";

/// The page after the quoted module name.
pub const PAGE_END: &'static str = ")</script>
  </body>
</html>
";

/// The tag that loads the bindings' script, `<script src="stem.js">`.
pub open spec fn script_tag(stem: Seq<char>) -> Seq<char> {
    "<script src=\""@ + stem + ".js\">"@
}

/// The quoted module name handed to the loader, `` `stem_bg.wasm` ``.
pub open spec fn module_ref(stem: Seq<char>) -> Seq<char> {
    "`"@ + stem + "_bg.wasm`"@
}

/// The page for the module whose bindings were generated under `stem`.
pub open spec fn page_text(stem: Seq<char>) -> Seq<char> {
    PAGE_TOP@ + script_tag(stem) + PAGE_LOADER@ + module_ref(stem) + PAGE_END@
}

/// Whether `pat` stands in `text` starting at index `i`.
pub open spec fn occurs_at(text: Seq<char>, pat: Seq<char>, i: int) -> bool {
    0 <= i && i + pat.len() <= text.len() && text.subrange(i, i + pat.len()) == pat
}

/// Where the quoted module name starts in the page for `stem`.
pub open spec fn module_ref_index(stem: Seq<char>) -> int {
    (PAGE_TOP@.len() + script_tag(stem).len() + PAGE_LOADER@.len()) as int
}

/// Renders the page that loads the bindings generated for `wasm`: its script
/// is `wasm.js` and its module `wasm_bg.wasm`.
pub fn render_page(wasm: &str) -> (r: String)
    ensures
        r@ == page_text(wasm@),
{
    let mut page = String::from_str(PAGE_TOP);
    page.append("<script src=\"");
    page.append(wasm);
    page.append(".js\">");
    page.append(PAGE_LOADER);
    page.append("`");
    page.append(wasm);
    page.append("_bg.wasm`");
    page.append(PAGE_END);
    page
}

/// The page holds the script tag `<script src="stem.js">` and the quoted
/// module name `` `stem_bg.wasm` ``, each where the template puts it.
pub proof fn lemma_page_refers_to_stem(stem: Seq<char>)
    ensures
        occurs_at(page_text(stem), script_tag(stem), PAGE_TOP@.len() as int),
        occurs_at(
            page_text(stem),
            module_ref(stem),
            module_ref_index(stem),
        ),
{
    let page = page_text(stem);
    let a: int = PAGE_TOP@.len() as int;
    let b: int = a + script_tag(stem).len();
    let c: int = b + PAGE_LOADER@.len();
    let d: int = c + module_ref(stem).len();
    assert(page.subrange(a, b) =~= script_tag(stem));
    assert(page.subrange(c, d) =~= module_ref(stem));
}

/// Rendering is a function of the stem alone: two renders of one stem give
/// the same text.
pub proof fn lemma_render_is_repeatable(a: String, b: String, stem: Seq<char>)
    requires
        a@ == page_text(stem),
        b@ == page_text(stem),
    ensures
        a@ == b@,
{
}

/// The script tag `<script src="stem.js">` stands in the page exactly once:
/// at the index where the template puts it.
pub proof fn lemma_script_tag_once(stem: Seq<char>)
    ensures
        forall|i: int|
            occurs_at(page_text(stem), script_tag(stem), i) <==> i == PAGE_TOP@.len(),
{
    lemma_page_refers_to_stem(stem);
    assert forall|i: int|
        occurs_at(page_text(stem), script_tag(stem), i) implies i == PAGE_TOP@.len() by {
        lemma_script_tag_only_at_home(stem, i);
    }
}

/// The quoted module name `` `stem_bg.wasm` `` stands in the page exactly
/// once: at the index where the template puts it.
pub proof fn lemma_module_ref_once(stem: Seq<char>)
    ensures
        forall|i: int|
            occurs_at(page_text(stem), module_ref(stem), i) <==> i == module_ref_index(stem),
{
    lemma_page_refers_to_stem(stem);
    assert forall|i: int|
        occurs_at(page_text(stem), module_ref(stem), i) implies i == module_ref_index(stem) by {
        lemma_module_ref_only_at_home(stem, i);
    }
}

} // verus!
