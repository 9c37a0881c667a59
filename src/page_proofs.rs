//! Why the page names its script and its module exactly once: a window of
//! the page that held a second copy would hold as many backticks, `j` or
//! `"` as the copy does, and the template's fixed text leaves it too few.
use vstd::prelude::*;

use crate::template::{
    module_ref, module_ref_index, occurs_at, page_text, script_tag, PAGE_END, PAGE_LOADER,
    PAGE_TOP,
};

verus! {

/// `p` holds of every index in `lo..hi`, split in halves so that a fixed
/// range unfolds in few steps.
pub(crate) open spec fn holds_on(lo: int, hi: int, p: spec_fn(int) -> bool) -> bool
    decreases hi - lo,
{
    if hi - lo <= 0 {
        true
    } else if hi - lo == 1 {
        p(lo)
    } else {
        holds_on(lo, lo + (hi - lo) / 2, p) && holds_on(lo + (hi - lo) / 2, hi, p)
    }
}

/// What `holds_on` says of one index.
pub(crate) proof fn lemma_holds_on(lo: int, hi: int, p: spec_fn(int) -> bool, k: int)
    requires
        holds_on(lo, hi, p),
        lo <= k < hi,
    ensures
        p(k),
    decreases hi - lo,
{
    if hi - lo > 1 {
        let mid = lo + (hi - lo) / 2;
        if k < mid {
            lemma_holds_on(lo, mid, p, k);
        } else {
            lemma_holds_on(mid, hi, p, k);
        }
    }
}

/// No `ch` at index `k` of `s`.
pub(crate) open spec fn no_char(s: Seq<char>, ch: char) -> spec_fn(int) -> bool {
    |k: int| s[k] != ch
}

/// The fixed pieces of the page: their lengths, and which characters they
/// lack.
pub(crate) proof fn lemma_fixed_pieces()
    ensures
        holds_on(0, PAGE_TOP@.len() as int, no_char(PAGE_TOP@, '`')),
        holds_on(PAGE_TOP@.len() - 3, PAGE_TOP@.len() as int, no_char(PAGE_TOP@, '<')),
        holds_on(0, PAGE_LOADER@.len() as int, no_char(PAGE_LOADER@, '`')),
        holds_on(0, PAGE_END@.len() as int, no_char(PAGE_END@, '`')),
        holds_on(0, 13, no_char("<script src=\""@, '`')),
        holds_on(0, 5, no_char(".js\">"@, '`')),
        holds_on(0, 8, no_char("_bg.wasm`"@, '`')),
        holds_on(0, PAGE_TOP@.len() as int, no_char(PAGE_TOP@, 'j')),
        holds_on(0, PAGE_LOADER@.len() as int, no_char(PAGE_LOADER@, 'j')),
        holds_on(0, PAGE_LOADER@.len() as int, no_char(PAGE_LOADER@, '"')),
        holds_on(0, PAGE_END@.len() as int, no_char(PAGE_END@, 'j')),
        holds_on(1, 13, no_char("<script src=\""@, '<')),
        "<script src=\""@.len() == 13,
        PAGE_LOADER@.len() > 20,
        ".js\">"@.len() == 5,
        "_bg.wasm`"@.len() == 9,
        "`"@ == seq!['`'],
        "_bg.wasm`"@[8] == '`',
        "<script src=\""@[0] == '<',
{
    reveal_strlit("<!DOCTYPE html>
<html lang=\"en\">
  <head>
    <meta charset=\"UTF-8\">
    <meta name=\"viewport\" content=\"width=device-width, initial-scale=1\">
    <title>wasm-bindgen-runner</title>
  </head>
  <body style=\"margin: 0; padding: 0; width: 100%; height: 100%;\">
    <div id=\"rust-web-app\" style=\"width: 100%; height: 100%;\"></div>
    ");
    reveal_strlit("</script>
    <script>window.wasm_bindgen(");
    reveal_strlit(")</script>
  </body>
</html>
");
    reveal_strlit("<script src=\"");
    reveal_strlit(".js\">");
    reveal_strlit("`");
    reveal_strlit("_bg.wasm`");
    reveal_with_fuel(holds_on, 12);
    assert("`"@ =~= seq!['`']);
}

/// How many times `ch` stands in `s`.
pub(crate) open spec fn count_of(s: Seq<char>, ch: char) -> nat
    decreases s.len(),
{
    if s.len() == 0 {
        0
    } else {
        count_of(s.drop_last(), ch) + if s.last() == ch { 1nat } else { 0nat }
    }
}

/// Counting is additive over concatenation.
pub(crate) proof fn lemma_count_add(a: Seq<char>, b: Seq<char>, ch: char)
    ensures
        count_of(a + b, ch) == count_of(a, ch) + count_of(b, ch),
    decreases b.len(),
{
    if b.len() > 0 {
        lemma_count_add(a, b.drop_last(), ch);
        assert((a + b).drop_last() =~= a + b.drop_last());
    } else {
        assert(a + b =~= a);
    }
}

/// Counting over a stretch is the sum over its two parts.
pub(crate) proof fn lemma_count_split(s: Seq<char>, lo: int, mid: int, hi: int, ch: char)
    requires
        0 <= lo <= mid <= hi <= s.len(),
    ensures
        count_of(s.subrange(lo, hi), ch) == count_of(s.subrange(lo, mid), ch) + count_of(
            s.subrange(mid, hi),
            ch,
        ),
{
    assert(s.subrange(lo, hi) =~= s.subrange(lo, mid) + s.subrange(mid, hi));
    lemma_count_add(s.subrange(lo, mid), s.subrange(mid, hi), ch);
}

/// A sequence without `ch` counts none.
pub(crate) proof fn lemma_count_none(s: Seq<char>, ch: char)
    requires
        forall|k: int| 0 <= k < s.len() ==> s[k] != ch,
    ensures
        count_of(s, ch) == 0,
    decreases s.len(),
{
    if s.len() > 0 {
        lemma_count_none(s.drop_last(), ch);
    }
}

/// `ch` stands nowhere in the first `len` characters of `s`, as `holds_on`
/// with `p` shows.
pub(crate) proof fn lemma_count_none_prefix(s: Seq<char>, len: int, p: spec_fn(int) -> bool, ch: char)
    requires
        0 <= len <= s.len(),
        holds_on(0, len, p),
        forall|k: int| 0 <= k < len && #[trigger] p(k) ==> s[k] != ch,
    ensures
        count_of(s.subrange(0, len), ch) == 0,
{
    assert forall|k: int| 0 <= k < len implies s.subrange(0, len)[k] != ch by {
        lemma_holds_on(0, len, p, k);
    }
    lemma_count_none(s.subrange(0, len), ch);
}

/// A stretch of `s` holds no more of `ch` than `s` does.
pub(crate) proof fn lemma_count_sub(s: Seq<char>, lo: int, hi: int, ch: char)
    requires
        0 <= lo <= hi <= s.len(),
    ensures
        count_of(s.subrange(lo, hi), ch) <= count_of(s, ch),
{
    lemma_count_split(s, 0, lo, s.len() as int, ch);
    lemma_count_split(s, lo, hi, s.len() as int, ch);
    assert(s.subrange(0, s.len() as int) =~= s);
}

/// The quoted module name holds two backticks more than the stem.
pub(crate) proof fn lemma_module_ref_count(stem: Seq<char>)
    ensures
        count_of(module_ref(stem), '`') == count_of(stem, '`') + 2,
{
    let mc = "_bg.wasm`"@;
    lemma_fixed_pieces();
    lemma_count_add("`"@ + stem, mc, '`');
    lemma_count_add("`"@, stem, '`');
    lemma_count_none_prefix(mc, 8, no_char(mc, '`'), '`');
    lemma_count_split(mc, 0, 8, 9, '`');
    assert(mc.subrange(0, 9) =~= mc);
    assert(mc.subrange(8, 9).drop_last() =~= Seq::<char>::empty());
    assert("`"@.drop_last() =~= Seq::<char>::empty());
}

/// Between the stem's first copy and the opening backtick there is none.
pub(crate) proof fn lemma_gap_count()
    ensures
        count_of(".js\">"@ + PAGE_LOADER@, '`') == 0,
{
    let sc = ".js\">"@;
    lemma_fixed_pieces();
    lemma_count_add(sc, PAGE_LOADER@, '`');
    lemma_count_none_prefix(sc, 5, no_char(sc, '`'), '`');
    assert(sc.subrange(0, 5) =~= sc);
    lemma_count_none_prefix(PAGE_LOADER@, PAGE_LOADER@.len() as int, no_char(PAGE_LOADER@, '`'), '`');
    assert(PAGE_LOADER@.subrange(0, PAGE_LOADER@.len() as int) =~= PAGE_LOADER@);
}

/// The page from the stem's first copy to the end of the quoted module name.
pub(crate) proof fn lemma_page_middle(stem: Seq<char>)
    ensures
        page_text(stem).subrange(
            PAGE_TOP@.len() + 13 as int,
            module_ref_index(stem),
        ) =~= stem + (".js\">"@ + PAGE_LOADER@),
        page_text(stem).subrange(
            module_ref_index(stem),
            module_ref_index(stem) + stem.len() + 10,
        ) =~= module_ref(stem),
        module_ref_index(stem) == PAGE_TOP@.len() + 13 + stem.len() + 5 + PAGE_LOADER@.len(),
{
    lemma_fixed_pieces();
}

/// A window that starts in the stem's first copy or the gap after it, and
/// reaches past the opening backtick, holds at most one backtick more than
/// the stem.
pub(crate) proof fn lemma_straddling_window(stem: Seq<char>, i: int)
    requires
        PAGE_TOP@.len() + 13 <= i < module_ref_index(stem) < i + stem.len() + 10,
    ensures
        count_of(page_text(stem).subrange(i, i + stem.len() + 10), '`') <= count_of(stem, '`') + 1,
{
    let bt = '`';
    lemma_fixed_pieces();
    lemma_page_middle(stem);
    lemma_gap_count();
    let page = page_text(stem);
    let n: int = stem.len() as int;
    let b: int = PAGE_TOP@.len() + 13 as int;
    let c: int = module_ref_index(stem);
    let gap = ".js\">"@ + PAGE_LOADER@;
    let mid = page.subrange(b, c);
    let r = page.subrange(c, c + n + 10);
    let x: int = i - b;
    let y: int = i + n + 10 - c;
    assert(page.subrange(i, i + n + 10) =~= mid.subrange(x, c - b) + r.subrange(0, y));
    lemma_count_add(mid.subrange(x, c - b), r.subrange(0, y), bt);
    // The head of the quoted name misses its closing backtick.
    assert(r.subrange(0, y) =~= ("`"@ + stem + "_bg.wasm`"@).subrange(0, y));
    lemma_count_split(r, 0, y, n + 9, bt);
    assert(r.subrange(0, n + 9) =~= "`"@ + (stem + "_bg.wasm`"@.subrange(0, 8)));
    lemma_count_add("`"@, stem + "_bg.wasm`"@.subrange(0, 8), bt);
    lemma_count_add(stem, "_bg.wasm`"@.subrange(0, 8), bt);
    lemma_count_none_prefix("_bg.wasm`"@, 8, no_char("_bg.wasm`"@, '`'), bt);
    assert(count_of("`"@, bt) == 1) by {
        reveal_with_fuel(count_of, 2);
    }
    assert(count_of(r.subrange(0, n + 9), bt) == count_of(stem, bt) + 1);
    assert(count_of(r.subrange(0, y), bt) <= count_of(stem, bt) + 1);
    if x >= n {
        assert(mid.subrange(x, c - b) =~= gap.subrange(x - n, gap.len() as int));
        lemma_count_sub(gap, x - n, gap.len() as int, bt);
        assert(count_of(mid.subrange(x, c - b), bt) == 0);
    } else {
        // The head of the second copy misses the tail of the first.
        let z: int = y - 1;
        assert(mid.subrange(x, c - b) =~= stem.subrange(x, n) + gap);
        lemma_count_add(stem.subrange(x, n), gap, bt);
        assert(r.subrange(0, y) =~= "`"@ + stem.subrange(0, z));
        lemma_count_add("`"@, stem.subrange(0, z), bt);
        lemma_count_split(stem, 0, z, x, bt);
        lemma_count_split(stem, 0, x, n, bt);
        assert(stem.subrange(0, n) =~= stem);
    }
}

/// A window that ends by the opening backtick holds no more backticks than
/// the stem.
pub(crate) proof fn lemma_early_window(stem: Seq<char>, i: int)
    requires
        0 <= i,
        i + stem.len() + 10 <= module_ref_index(stem),
    ensures
        count_of(page_text(stem).subrange(i, i + stem.len() + 10), '`') <= count_of(stem, '`'),
{
    let bt = '`';
    lemma_fixed_pieces();
    lemma_page_middle(stem);
    lemma_gap_count();
    let page = page_text(stem);
    let so = "<script src=\""@;
    let c: int = module_ref_index(stem);
    let head = PAGE_TOP@ + so;
    let gap = ".js\">"@ + PAGE_LOADER@;
    assert(page.subrange(0, c) =~= head + (stem + gap));
    lemma_count_add(head, stem + gap, bt);
    lemma_count_add(stem, gap, bt);
    lemma_count_add(PAGE_TOP@, so, bt);
    lemma_count_none_prefix(PAGE_TOP@, PAGE_TOP@.len() as int, no_char(PAGE_TOP@, '`'), bt);
    assert(PAGE_TOP@.subrange(0, PAGE_TOP@.len() as int) =~= PAGE_TOP@);
    lemma_count_none_prefix(so, 13, no_char(so, '`'), bt);
    assert(so.subrange(0, 13) =~= so);
    assert(page.subrange(i, i + stem.len() + 10) =~= page.subrange(0, c).subrange(
        i,
        i + stem.len() + 10,
    ));
    lemma_count_sub(page.subrange(0, c), i, i + stem.len() + 10, bt);
}

/// The quoted module name stands in the page only where the template puts
/// it, whatever the stem holds.
pub(crate) proof fn lemma_module_ref_only_at_home(stem: Seq<char>, i: int)
    requires
        occurs_at(page_text(stem), module_ref(stem), i),
    ensures
        i == module_ref_index(stem),
{
    lemma_fixed_pieces();
    lemma_page_middle(stem);
    let page = page_text(stem);
    let pat = module_ref(stem);
    let n: int = stem.len() as int;
    let c: int = module_ref_index(stem);
    let e: int = c + n + 10;
    let w = page.subrange(i, i + n + 10);
    assert(w[n + 9] == pat[n + 9]);
    if i > c {
        lemma_holds_on(0, PAGE_END@.len() as int, no_char(PAGE_END@, '`'), i + n + 9 - e);
    } else if i < c {
        lemma_module_ref_count(stem);
        if i + n + 10 <= c {
            lemma_early_window(stem, i);
        } else {
            lemma_straddling_window(stem, i);
        }
    }
}

/// A piece without `ch`, as `holds_on` shows, counts none.
pub(crate) proof fn lemma_count_none_whole(s: Seq<char>, ch: char)
    requires
        holds_on(0, s.len() as int, no_char(s, ch)),
    ensures
        count_of(s, ch) == 0,
{
    lemma_count_none_prefix(s, s.len() as int, no_char(s, ch), ch);
    assert(s.subrange(0, s.len() as int) =~= s);
}

/// The `j` and `"` of the short pieces around the stem.
pub(crate) proof fn lemma_short_piece_counts()
    ensures
        "<script src=\""@.len() == 13,
        ".js\">"@.len() == 5,
        count_of("<script src=\""@, 'j') == 0,
        count_of("<script src=\""@, '"') == 1,
        count_of(".js\">"@, '"') == 1,
        count_of(".js\">"@, 'j') == 1,
        count_of(".js\">"@.subrange(0, 1), 'j') == 0,
        ".js\">"@[1] == 'j',
        count_of(".js\">"@.subrange(2, 5), 'j') == 0,
        count_of("`"@, 'j') == 0,
        count_of("`"@, '"') == 0,
        count_of("_bg.wasm`"@, 'j') == 0,
{
    reveal_strlit("<script src=\"");
    reveal_strlit(".js\">");
    reveal_strlit("`");
    reveal_strlit("_bg.wasm`");
    reveal_with_fuel(count_of, 14);
}

/// The page around the `j` of the script tag's `.js`: before it and after
/// it the page holds as many `j` as the stem.
pub(crate) proof fn lemma_j_sides(stem: Seq<char>)
    ensures
        page_text(stem)[(PAGE_TOP@.len() + 14 + stem.len()) as int] == 'j',
        count_of(page_text(stem).subrange(0, (PAGE_TOP@.len() + 14 + stem.len()) as int), 'j') == count_of(
            stem,
            'j',
        ),
        count_of(
            page_text(stem).subrange(
                (PAGE_TOP@.len() + 15 + stem.len()) as int,
                page_text(stem).len() as int,
            ),
            'j',
        ) == count_of(stem, 'j'),
{
    let ch = 'j';
    lemma_fixed_pieces();
    lemma_short_piece_counts();
    let page = page_text(stem);
    let n: int = stem.len() as int;
    let q: int = PAGE_TOP@.len() + 14 + n;
    let so = "<script src=\""@;
    let sc = ".js\">"@;
    let left = PAGE_TOP@ + so + stem + sc.subrange(0, 1);
    let right = sc.subrange(2, 5) + PAGE_LOADER@ + "`"@ + stem + "_bg.wasm`"@ + PAGE_END@;
    assert(page.subrange(0, q) =~= left);
    assert(page.subrange(q + 1, page.len() as int) =~= right);
    lemma_count_none_whole(PAGE_TOP@, ch);
    lemma_count_none_whole(PAGE_LOADER@, ch);
    lemma_count_none_whole(PAGE_END@, ch);
    lemma_count_add(PAGE_TOP@ + so + stem, sc.subrange(0, 1), ch);
    lemma_count_add(PAGE_TOP@ + so, stem, ch);
    lemma_count_add(PAGE_TOP@, so, ch);
    lemma_count_add(sc.subrange(2, 5) + PAGE_LOADER@ + "`"@ + stem + "_bg.wasm`"@, PAGE_END@, ch);
    lemma_count_add(sc.subrange(2, 5) + PAGE_LOADER@ + "`"@ + stem, "_bg.wasm`"@, ch);
    lemma_count_add(sc.subrange(2, 5) + PAGE_LOADER@ + "`"@, stem, ch);
    lemma_count_add(sc.subrange(2, 5) + PAGE_LOADER@, "`"@, ch);
    lemma_count_add(sc.subrange(2, 5), PAGE_LOADER@, ch);
}

/// A window as long as the script tag that starts in the stem's first copy
/// or in the `.js` after it holds at most one `"` more than the stem.
pub(crate) proof fn lemma_quote_window(stem: Seq<char>, i: int)
    requires
        PAGE_TOP@.len() + 13 <= i <= PAGE_TOP@.len() + 14 + stem.len(),
    ensures
        count_of(page_text(stem).subrange(i, i + stem.len() + 18), '"') <= count_of(stem, '"') + 1,
{
    let ch = '"';
    lemma_fixed_pieces();
    lemma_short_piece_counts();
    lemma_page_middle(stem);
    let page = page_text(stem);
    let n: int = stem.len() as int;
    let b: int = PAGE_TOP@.len() + 13 as int;
    let g = ".js\">"@ + PAGE_LOADER@ + "`"@;
    let gl: int = g.len() as int;
    let mid = stem + g + stem;
    assert(page.subrange(b, b + 2 * n + gl) =~= mid);
    lemma_count_none_whole(PAGE_LOADER@, ch);
    lemma_count_add(".js\">"@ + PAGE_LOADER@, "`"@, ch);
    lemma_count_add(".js\">"@, PAGE_LOADER@, ch);
    assert(count_of(g, ch) == 1);
    let x: int = i - b;
    let y: int = x + n + 18;
    let x1: int = if x < n { x } else { n };
    assert(page.subrange(i, i + n + 18) =~= mid.subrange(x, y));
    lemma_count_split(mid, x1, x, y, ch);
    if y <= n + gl {
        assert(mid.subrange(x1, y) =~= stem.subrange(x1, n) + g.subrange(0, y - n));
        lemma_count_add(stem.subrange(x1, n), g.subrange(0, y - n), ch);
        lemma_count_sub(stem, x1, n, ch);
        lemma_count_sub(g, 0, y - n, ch);
    } else {
        let z: int = y - n - gl;
        assert(mid.subrange(x1, y) =~= stem.subrange(x1, n) + g + stem.subrange(0, z));
        lemma_count_add(stem.subrange(x1, n) + g, stem.subrange(0, z), ch);
        lemma_count_add(stem.subrange(x1, n), g, ch);
        lemma_count_split(stem, 0, z, x1, ch);
        lemma_count_split(stem, 0, x1, n, ch);
        assert(stem.subrange(0, n) =~= stem);
    }
}

/// A window that holds the script tag covers the `j` of the template's own
/// `.js`: either side of it holds too few.
pub(crate) proof fn lemma_script_window_covers_j(stem: Seq<char>, i: int)
    requires
        occurs_at(page_text(stem), script_tag(stem), i),
    ensures
        i <= PAGE_TOP@.len() + 14 + stem.len() < i + stem.len() + 18,
{
    lemma_short_piece_counts();
    lemma_j_sides(stem);
    let page = page_text(stem);
    let n: int = stem.len() as int;
    let q: int = PAGE_TOP@.len() + 14 + n;
    let w = page.subrange(i, i + n + 18);
    let so = "<script src=\""@;
    let sc = ".js\">"@;
    lemma_count_add(so + stem, sc, 'j');
    lemma_count_add(so, stem, 'j');
    assert(count_of(w, 'j') == count_of(stem, 'j') + 1);
    if i + n + 18 <= q {
        assert(count_of(w, 'j') <= count_of(stem, 'j')) by {
            assert(w =~= page.subrange(0, q).subrange(i, i + n + 18));
            lemma_count_sub(page.subrange(0, q), i, i + n + 18, 'j');
        }
    } else if i > q {
        assert(count_of(w, 'j') <= count_of(stem, 'j')) by {
            let len: int = page.len() as int;
            assert(w =~= page.subrange(q + 1, len).subrange(i - q - 1, i - q - 1 + n + 18));
            lemma_count_sub(page.subrange(q + 1, len), i - q - 1, i - q - 1 + n + 18, 'j');
        }
    }
}

/// The script tag stands in the page only where the template puts it,
/// whatever the stem holds.
pub(crate) proof fn lemma_script_tag_only_at_home(stem: Seq<char>, i: int)
    requires
        occurs_at(page_text(stem), script_tag(stem), i),
    ensures
        i == PAGE_TOP@.len(),
{
    lemma_script_window_covers_j(stem, i);
    let page = page_text(stem);
    let pat = script_tag(stem);
    let t: int = PAGE_TOP@.len() as int;
    let w = page.subrange(i, i + stem.len() + 18);
    let so = "<script src=\""@;
    let sc = ".js\">"@;
    if i < t {
        lemma_fixed_pieces();
        assert(w[0] == pat[0]);
        lemma_holds_on(t - 3, t, no_char(PAGE_TOP@, '<'), i);
    } else if i > t {
        if i < t + 13 {
            lemma_fixed_pieces();
            assert(w[0] == pat[0]);
            lemma_holds_on(1, 13, no_char(so, '<'), i - t);
        } else {
            lemma_short_piece_counts();
            lemma_quote_window(stem, i);
            lemma_count_add(so + stem, sc, '"');
            lemma_count_add(so, stem, '"');
        }
    }
}

} // verus!
