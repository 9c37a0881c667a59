use wasm_runner::template::render_page;

const LIBWEB_PAGE: &str = "<!DOCTYPE html>
<html lang=\"en\">
  <head>
    <meta charset=\"UTF-8\">
    <meta name=\"viewport\" content=\"width=device-width, initial-scale=1\">
    <title>wasm-bindgen-runner</title>
  </head>
  <body style=\"margin: 0; padding: 0; width: 100%; height: 100%;\">
    <div id=\"rust-web-app\" style=\"width: 100%; height: 100%;\"></div>
    <script src=\"libweb.js\"></script>
    <script>window.wasm_bindgen(`libweb_bg.wasm`)</script>
  </body>
</html>
";

#[test]
fn page_names_script_and_module_of_the_stem() {
    let page = render_page("libweb");
    assert!(page.contains("<script src=\"libweb.js\"></script>"));
    assert!(page.contains("window.wasm_bindgen(`libweb_bg.wasm`)"));
}

#[test]
fn page_for_libweb_is_exact() {
    assert_eq!(render_page("libweb"), LIBWEB_PAGE);
}

#[test]
fn page_has_one_script_tag_and_one_module_reference() {
    let page = render_page("app");
    assert_eq!(page.matches("<script src=\"app.js\">").count(), 1);
    assert_eq!(page.matches("`app_bg.wasm`").count(), 1);
}

#[test]
fn rendering_twice_gives_the_same_bytes() {
    let a = render_page("libweb");
    let b = render_page("libweb");
    assert_eq!(a.as_bytes(), b.as_bytes());
    assert_ne!(render_page("other"), a);
}

#[test]
fn empty_stem_still_renders() {
    let page = render_page("");
    assert!(page.contains("<script src=\".js\"></script>"));
    assert!(page.contains("window.wasm_bindgen(`_bg.wasm`)"));
}

#[test]
fn stems_with_markup_characters_still_appear_once() {
    for stem in ["a`b", "`", "<script src=\"x", "x.js\">"] {
        let page = render_page(stem);
        let tag = format!("<script src=\"{}.js\">", stem);
        let module = format!("`{}_bg.wasm`", stem);
        assert_eq!(page.matches(tag.as_str()).count(), 1);
        assert_eq!(page.matches(module.as_str()).count(), 1);
    }
}
