//! The HTML documentation face: a namespace, rendered for people.
//!
//! The page is built from the same vocabulary the namespace serves — its
//! terms are read with SPARQL through the kernel — so the documentation
//! cannot drift from the vocabulary. Colour is a floor, not a preference:
//! every palette here is held to the WCAG contrast floors by the tests.

use vstd::prelude::*;
use vstd::string::*;
use crate::error::{NameError, Refusal, arg_view, text_outcome, unit_outcome};
use crate::iri::{iri_parse_error, iri_problem};
use crate::registry::{NamespaceView, Registry, Strategy, StrategyView, claims, first_claiming};
use crate::resolve::{resolve_path, retired_error, retired_refusal};
use crate::admin::unclaimed;
use crate::document::{CANONICAL, StepView, lemma_turtle_is_bare, step_outcome};
use crate::text::{
    contains_char, debug_text, decimal, decimal_text, has_char, is_space, is_space_char, push_char_of, quoted,
    same, trim, trimmed,
};

verus! {

// --- palettes ---------------------------------------------------------------

/// A documentation palette. Every field that carries text is held to a
/// contrast floor against [`Palette::ground`].
#[derive(Debug, Clone, Copy, PartialEq, Eq)]
pub struct Palette {
    /// Machine name, as accepted by `theme=`.
    pub name: &'static str,
    /// Human label for the chooser.
    pub label: &'static str,
    /// Page background.
    pub ground: &'static str,
    /// Body text.
    pub ink: &'static str,
    /// De-emphasised text.
    pub muted: &'static str,
    /// Links and accents.
    pub accent: &'static str,
    /// Rules and borders, which carry no text.
    pub edge: &'static str,
    /// Inline code background.
    pub code_ground: &'static str,
}

/// The light palette, also the default.
pub open spec fn light_palette() -> Palette {
    Palette {
        name: "light",
        label: "Light",
        ground: "#ffffff",
        ink: "#1a1a1a",
        muted: "#595959",
        accent: "#0b4fa8",
        edge: "#767676",
        code_ground: "#f2f2f2",
    }
}

/// The dark palette.
pub open spec fn dark_palette() -> Palette {
    Palette {
        name: "dark",
        label: "Dark",
        ground: "#14161a",
        ink: "#eceff4",
        muted: "#a8b0bd",
        accent: "#8ab4f8",
        edge: "#7d8695",
        code_ground: "#22262e",
    }
}

/// The palette above the AAA floor.
pub open spec fn contrast_palette() -> Palette {
    Palette {
        name: "contrast",
        label: "High contrast",
        ground: "#000000",
        ink: "#ffffff",
        muted: "#e0e0e0",
        accent: "#ffe066",
        edge: "#ffffff",
        code_ground: "#1a1a1a",
    }
}

/// Every offered palette, in chooser order.
pub open spec fn all_palettes() -> Seq<Palette> {
    seq![light_palette(), dark_palette(), contrast_palette()]
}

/// The light palette.
pub fn light() -> (p: Palette)
    ensures
        p == light_palette(),
{
    Palette {
        name: "light",
        label: "Light",
        ground: "#ffffff",
        ink: "#1a1a1a",
        muted: "#595959",
        accent: "#0b4fa8",
        edge: "#767676",
        code_ground: "#f2f2f2",
    }
}

/// The dark palette.
pub fn dark() -> (p: Palette)
    ensures
        p == dark_palette(),
{
    Palette {
        name: "dark",
        label: "Dark",
        ground: "#14161a",
        ink: "#eceff4",
        muted: "#a8b0bd",
        accent: "#8ab4f8",
        edge: "#7d8695",
        code_ground: "#22262e",
    }
}

/// The high-contrast palette.
pub fn high_contrast() -> (p: Palette)
    ensures
        p == contrast_palette(),
{
    Palette {
        name: "contrast",
        label: "High contrast",
        ground: "#000000",
        ink: "#ffffff",
        muted: "#e0e0e0",
        accent: "#ffe066",
        edge: "#ffffff",
        code_ground: "#1a1a1a",
    }
}

/// Every offered palette, in chooser order.
pub fn palettes() -> (all: Vec<Palette>)
    ensures
        all@ == all_palettes(),
{
    let mut all = Vec::new();
    all.push(light());
    all.push(dark());
    all.push(high_contrast());
    assert(all@ =~= all_palettes());
    all
}

/// The palette `theme=` names: the first offered palette of that name, or
/// the light one for `auto` and anything unrecognised.
pub open spec fn palette_named(name: Seq<char>) -> Palette {
    if name == light_palette().name@ {
        light_palette()
    } else if name == dark_palette().name@ {
        dark_palette()
    } else if name == contrast_palette().name@ {
        contrast_palette()
    } else {
        light_palette()
    }
}

/// The palette named by `theme=`, or the light one — an unknown name
/// degrades to a readable page, never to no page.
pub fn palette(name: &str) -> (p: Palette)
    ensures
        p == palette_named(name@),
{
    let all = palettes();
    let mut i: usize = 0;
    while i < all.len()
        invariant
            all@ == all_palettes(),
            i <= 3,
            forall|j: int| 0 <= j < i ==> (#[trigger] all@[j]).name@ != name@,
        decreases 3 - i,
    {
        if same(all[i].name, name) {
            return all[i];
        }
        i = i + 1;
    }
    light()
}

// --- the stylesheet ---------------------------------------------------------

/// A palette as CSS custom properties.
pub open spec fn palette_vars(p: Palette) -> Seq<char> {
    "--ground:"@ + p.ground@ + ";--ink:"@ + p.ink@ + ";--muted:"@ + p.muted@ + ";--accent:"@
        + p.accent@ + ";--edge:"@ + p.edge@ + ";--code:"@ + p.code_ground@ + ";"@
}

/// The rules every page carries whatever its theme, reduced motion among
/// them.
pub open spec fn style_rules() -> Seq<char> {
    STYLE_RULES@
}

/// The colour scheme a theme emits: `auto` emits both palettes behind
/// `prefers-color-scheme`; an explicit theme emits just that one.
pub open spec fn scheme_css(theme: Seq<char>) -> Seq<char> {
    if theme == "auto"@ {
        ":root{color-scheme:light dark;"@ + palette_vars(light_palette())
            + "}@media (prefers-color-scheme:dark){:root{"@ + palette_vars(dark_palette()) + "}}"@
    } else {
        let chosen = palette_named(theme);
        let hint = if chosen.name@ == "light"@ {
            "light"@
        } else {
            "dark"@
        };
        ":root{color-scheme:"@ + hint + ";"@ + palette_vars(chosen) + "}"@
    }
}

/// The stylesheet for `theme`.
pub open spec fn stylesheet_css(theme: Seq<char>) -> Seq<char> {
    scheme_css(theme) + style_rules()
}

proof fn lemma_no_at_concat(a: Seq<char>, b: Seq<char>)
    requires
        !has_char(a, '@'),
        !has_char(b, '@'),
    ensures
        !has_char(a + b, '@'),
{
    if has_char(a + b, '@') {
        let i = choose|i: int| 0 <= i < (a + b).len() && (a + b)[i] == '@';
        if i < a.len() {
            assert(a[i] == '@');
        } else {
            assert(b[i - a.len()] == '@');
        }
    }
}

proof fn lemma_vars_have_no_at(p: Palette)
    requires
        p == light_palette() || p == dark_palette() || p == contrast_palette(),
    ensures
        !has_char(palette_vars(p), '@'),
{
    reveal_strlit("--ground:");
    reveal_strlit(";--ink:");
    reveal_strlit(";--muted:");
    reveal_strlit(";--accent:");
    reveal_strlit(";--edge:");
    reveal_strlit(";--code:");
    reveal_strlit(";");
    reveal_strlit("#ffffff");
    reveal_strlit("#1a1a1a");
    reveal_strlit("#595959");
    reveal_strlit("#0b4fa8");
    reveal_strlit("#767676");
    reveal_strlit("#f2f2f2");
    reveal_strlit("#14161a");
    reveal_strlit("#eceff4");
    reveal_strlit("#a8b0bd");
    reveal_strlit("#8ab4f8");
    reveal_strlit("#7d8695");
    reveal_strlit("#22262e");
    reveal_strlit("#000000");
    reveal_strlit("#e0e0e0");
    reveal_strlit("#ffe066");
    let a = "--ground:"@ + p.ground@;
    lemma_no_at_concat("--ground:"@, p.ground@);
    let b = a + ";--ink:"@;
    lemma_no_at_concat(a, ";--ink:"@);
    let c = b + p.ink@;
    lemma_no_at_concat(b, p.ink@);
    let d = c + ";--muted:"@;
    lemma_no_at_concat(c, ";--muted:"@);
    let e = d + p.muted@;
    lemma_no_at_concat(d, p.muted@);
    let f = e + ";--accent:"@;
    lemma_no_at_concat(e, ";--accent:"@);
    let g = f + p.accent@;
    lemma_no_at_concat(f, p.accent@);
    let h = g + ";--edge:"@;
    lemma_no_at_concat(g, ";--edge:"@);
    let i = h + p.edge@;
    lemma_no_at_concat(h, p.edge@);
    let j = i + ";--code:"@;
    lemma_no_at_concat(i, ";--code:"@);
    let k = j + p.code_ground@;
    lemma_no_at_concat(j, p.code_ground@);
    lemma_no_at_concat(k, ";"@);
}

/// An explicit theme is never overridden by the system's preference: only
/// `auto` gives the stylesheet an at-rule (the `prefers-color-scheme` media
/// query) of its own, and an explicit theme's colour scheme ends with the
/// chosen palette's variables — that palette's and no other's at its end.
pub proof fn an_explicit_theme_is_never_overridden(theme: Seq<char>)
    ensures
        has_char(scheme_css(theme), '@') <==> theme == "auto"@,
        theme != "auto"@ ==> exists|head: Seq<char>|
            !has_char(head, '@') && scheme_css(theme) == head + palette_vars(palette_named(theme))
                + "}"@,
        stylesheet_css(theme) == scheme_css(theme) + style_rules(),
{
    reveal_strlit("auto");
    reveal_strlit("light");
    reveal_strlit("dark");
    reveal_strlit(";");
    reveal_strlit("}");
    reveal_strlit(":root{color-scheme:");
    reveal_strlit(":root{color-scheme:light dark;");
    reveal_strlit("}@media (prefers-color-scheme:dark){:root{");
    reveal_strlit("}}");
    if theme == "auto"@ {
        let pre = ":root{color-scheme:light dark;"@ + palette_vars(light_palette());
        let at = "}@media (prefers-color-scheme:dark){:root{"@;
        assert(at[1] == '@');
        let whole = pre + at + palette_vars(dark_palette()) + "}}"@;
        assert(whole[pre.len() as int + 1] == '@');
        assert(scheme_css(theme) == whole);
    } else {
        let chosen = palette_named(theme);
        let hint = if chosen.name@ == "light"@ {
            "light"@
        } else {
            "dark"@
        };
        let head = ":root{color-scheme:"@ + hint + ";"@;
        lemma_no_at_concat(":root{color-scheme:"@, hint);
        lemma_no_at_concat(":root{color-scheme:"@ + hint, ";"@);
        lemma_vars_have_no_at(chosen);
        lemma_no_at_concat(head, palette_vars(chosen));
        lemma_no_at_concat(head + palette_vars(chosen), "}"@);
        assert(scheme_css(theme) == head + palette_vars(chosen) + "}"@);
    }
}

/// The theme-independent rules.
pub const STYLE_RULES: &'static str = "*{box-sizing:border-box}\
     body{margin:0;padding:1.5rem;background:var(--ground);color:var(--ink);\
     font:16px/1.6 system-ui,-apple-system,Segoe UI,sans-serif;max-width:60rem}\
     a{color:var(--accent)}\
     h1{font-size:1.5rem;margin:0 0 .25rem}\
     .muted{color:var(--muted)}\
     code,.iri{background:var(--code);padding:.1em .35em;border-radius:3px;\
     font-family:ui-monospace,SFMono-Regular,Menlo,monospace;font-size:.9em}\
     .terms{list-style:none;padding:0;display:grid;gap:.5rem;\
     grid-template-columns:repeat(auto-fill,minmax(14rem,1fr))}\
     .term{display:block;width:100%;text-align:left;padding:.6rem .75rem;\
     border:1px solid var(--edge);border-radius:6px;background:var(--ground);\
     color:var(--ink);font:inherit;cursor:pointer}\
     .term:hover,.term:focus-visible{border-color:var(--accent);outline:none}\
     .term:focus-visible{outline:3px solid var(--accent);outline-offset:2px}\
     .detail{margin-top:1.5rem;padding:1rem;border:1px solid var(--edge);border-radius:6px}\
     .chooser{display:flex;gap:.5rem;align-items:center;margin:1rem 0}\
     select{background:var(--ground);color:var(--ink);border:1px solid var(--edge);\
     padding:.3rem;border-radius:4px;font:inherit}\
     @media (prefers-reduced-motion:reduce){*{transition:none!important;\
     animation:none!important}}";

fn append_vars(out: &mut String, p: &Palette)
    ensures
        final(out)@ == old(out)@ + palette_vars(*p),
{
    out.append("--ground:");
    out.append(p.ground);
    out.append(";--ink:");
    out.append(p.ink);
    out.append(";--muted:");
    out.append(p.muted);
    out.append(";--accent:");
    out.append(p.accent);
    out.append(";--edge:");
    out.append(p.edge);
    out.append(";--code:");
    out.append(p.code_ground);
    out.append(";");
    assert(final(out)@ =~= old(out)@ + palette_vars(*p));
}

/// The stylesheet.
pub fn stylesheet(theme: &str) -> (css: String)
    ensures
        css@ == stylesheet_css(theme@),
{
    let mut css = String::new();
    if same(theme, "auto") {
        css.append(":root{color-scheme:light dark;");
        append_vars(&mut css, &light());
        css.append("}@media (prefers-color-scheme:dark){:root{");
        append_vars(&mut css, &dark());
        css.append("}}");
    } else {
        let chosen = palette(theme);
        css.append(":root{color-scheme:");
        if same(chosen.name, "light") {
            css.append("light");
        } else {
            css.append("dark");
        }
        css.append(";");
        append_vars(&mut css, &chosen);
        css.append("}");
    }
    assert(css@ =~= scheme_css(theme@));
    css.append(STYLE_RULES);
    css
}

// --- escaping and names -----------------------------------------------------

/// One character, escaped for HTML.
pub open spec fn escape_char(c: char) -> Seq<char> {
    if c == '&' {
        "&amp;"@
    } else if c == '<' {
        "&lt;"@
    } else if c == '>' {
        "&gt;"@
    } else if c == '"' {
        "&quot;"@
    } else {
        seq![c]
    }
}

/// Text escaped for HTML: `&`, `<`, `>` and `"` as entities.
pub open spec fn escaped(s: Seq<char>) -> Seq<char>
    decreases s.len(),
{
    if s.len() == 0 {
        Seq::empty()
    } else {
        escaped(s.drop_last()) + escape_char(s.last())
    }
}

/// Escape text for HTML.
pub fn esc(text: &str) -> (out: String)
    ensures
        out@ == escaped(text@),
{
    let n = text.unicode_len();
    let mut out = String::new();
    let mut i: usize = 0;
    assert(text@.take(0) =~= Seq::<char>::empty());
    while i < n
        invariant
            n == text@.len(),
            i <= n,
            out@ == escaped(text@.take(i as int)),
        decreases n - i,
    {
        let c = text.get_char(i);
        let ghost before = out@;
        if c == '&' {
            out.append("&amp;");
        } else if c == '<' {
            out.append("&lt;");
        } else if c == '>' {
            out.append("&gt;");
        } else if c == '"' {
            out.append("&quot;");
        } else {
            push_char_of(&mut out, text, i);
        }
        assert(text@.take(i + 1).drop_last() =~= text@.take(i as int));
        assert(text@.take(i + 1).last() == c);
        i = i + 1;
    }
    assert(text@.take(n as int) =~= text@);
    out
}

proof fn lemma_escape_char_inert(c: char)
    ensures
        !has_char(escape_char(c), '<'),
        !has_char(escape_char(c), '>'),
        !has_char(escape_char(c), '"'),
{
    reveal_strlit("&amp;");
    reveal_strlit("&lt;");
    reveal_strlit("&gt;");
    reveal_strlit("&quot;");
}

/// Escaped text cannot open or close a tag or end an attribute: it holds no
/// `<`, `>` or `"`, whatever the text was.
pub proof fn escaped_text_is_inert(s: Seq<char>)
    ensures
        !has_char(escaped(s), '<'),
        !has_char(escaped(s), '>'),
        !has_char(escaped(s), '"'),
    decreases s.len(),
{
    if s.len() > 0 {
        escaped_text_is_inert(s.drop_last());
        lemma_escape_char_inert(s.last());
        let a = escaped(s.drop_last());
        let b = escape_char(s.last());
        assert forall|c: char| !has_char(a, c) && !has_char(b, c) implies !has_char(a + b, c) by {
            if has_char(a + b, c) {
                let i = choose|i: int| 0 <= i < (a + b).len() && (a + b)[i] == c;
                if i < a.len() {
                    assert(a[i] == c);
                } else {
                    assert(b[i - a.len()] == c);
                }
            }
        }
    }
}

/// Text with the entities `&amp;`, `&lt;`, `&gt;` and `&quot;` decoded, read
/// left to right; anything else is kept as it is.
pub open spec fn unescaped(s: Seq<char>) -> Seq<char>
    decreases s.len(),
{
    if s.len() == 0 {
        Seq::empty()
    } else if seq!['&', 'a', 'm', 'p', ';'].is_prefix_of(s) {
        seq!['&'] + unescaped(s.skip(5))
    } else if seq!['&', 'l', 't', ';'].is_prefix_of(s) {
        seq!['<'] + unescaped(s.skip(4))
    } else if seq!['&', 'g', 't', ';'].is_prefix_of(s) {
        seq!['>'] + unescaped(s.skip(4))
    } else if seq!['&', 'q', 'u', 'o', 't', ';'].is_prefix_of(s) {
        seq!['"'] + unescaped(s.skip(6))
    } else {
        seq![s[0]] + unescaped(s.skip(1))
    }
}

proof fn lemma_escaped_front(s: Seq<char>)
    requires
        s.len() > 0,
    ensures
        escaped(s) == escape_char(s[0]) + escaped(s.drop_first()),
    decreases s.len(),
{
    if s.len() == 1 {
        assert(s.drop_last() =~= Seq::<char>::empty());
        assert(s.drop_first() =~= Seq::<char>::empty());
        assert(escaped(s.drop_first()) =~= Seq::<char>::empty());
        assert(escape_char(s[0]) + Seq::<char>::empty() =~= escape_char(s[0]));
        assert(Seq::<char>::empty() + escape_char(s.last()) =~= escape_char(s.last()));
    } else {
        let init = s.drop_last();
        lemma_escaped_front(init);
        assert(init.drop_first() =~= s.drop_first().drop_last());
        assert(s.drop_first().last() == s.last());
        assert(init[0] == s[0]);
        assert(escaped(s.drop_first()) == escaped(s.drop_first().drop_last()) + escape_char(s.last()));
        assert(escaped(s) =~= escape_char(s[0]) + escaped(s.drop_first()));
    }
}

proof fn lemma_unescape_one(c: char, rest: Seq<char>)
    ensures
        unescaped(escape_char(c) + rest) == seq![c] + unescaped(rest),
{
    reveal_strlit("&amp;");
    reveal_strlit("&lt;");
    reveal_strlit("&gt;");
    reveal_strlit("&quot;");
    let e = escape_char(c);
    let w = e + rest;
    if c == '&' {
        assert(seq!['&', 'a', 'm', 'p', ';'].is_prefix_of(w));
        assert(w.skip(5) =~= rest);
    } else if c == '<' {
        assert(!seq!['&', 'a', 'm', 'p', ';'].is_prefix_of(w)) by {
            assert(w[1] == 'l');
        }
        assert(seq!['&', 'l', 't', ';'].is_prefix_of(w));
        assert(w.skip(4) =~= rest);
    } else if c == '>' {
        assert(!seq!['&', 'a', 'm', 'p', ';'].is_prefix_of(w)) by {
            assert(w[1] == 'g');
        }
        assert(!seq!['&', 'l', 't', ';'].is_prefix_of(w)) by {
            assert(w[1] == 'g');
        }
        assert(seq!['&', 'g', 't', ';'].is_prefix_of(w));
        assert(w.skip(4) =~= rest);
    } else if c == '"' {
        assert(!seq!['&', 'a', 'm', 'p', ';'].is_prefix_of(w)) by {
            assert(w[1] == 'q');
        }
        assert(!seq!['&', 'l', 't', ';'].is_prefix_of(w)) by {
            assert(w[1] == 'q');
        }
        assert(!seq!['&', 'g', 't', ';'].is_prefix_of(w)) by {
            assert(w[1] == 'q');
        }
        assert(seq!['&', 'q', 'u', 'o', 't', ';'].is_prefix_of(w));
        assert(w.skip(6) =~= rest);
    } else {
        assert(w[0] == c);
        assert(!seq!['&', 'a', 'm', 'p', ';'].is_prefix_of(w)) by {
            assert(seq!['&', 'a', 'm', 'p', ';'][0] == '&');
        }
        assert(!seq!['&', 'l', 't', ';'].is_prefix_of(w)) by {
            assert(seq!['&', 'l', 't', ';'][0] == '&');
        }
        assert(!seq!['&', 'g', 't', ';'].is_prefix_of(w)) by {
            assert(seq!['&', 'g', 't', ';'][0] == '&');
        }
        assert(!seq!['&', 'q', 'u', 'o', 't', ';'].is_prefix_of(w)) by {
            assert(seq!['&', 'q', 'u', 'o', 't', ';'][0] == '&');
        }
        assert(w.skip(1) =~= rest);
    }
}

/// Escaping loses nothing: decoding the entities of [`esc`]'s output, left
/// to right, gives back exactly the text that was escaped.
pub proof fn escaping_round_trips(t: Seq<char>)
    ensures
        unescaped(escaped(t)) == t,
    decreases t.len(),
{
    if t.len() == 0 {
        assert(escaped(t) =~= Seq::<char>::empty());
    } else {
        lemma_escaped_front(t);
        escaping_round_trips(t.drop_first());
        lemma_unescape_one(t[0], escaped(t.drop_first()));
        assert(seq![t[0]] + t.drop_first() =~= t);
    }
}

/// The local name of an IRI: what follows its last `#` or `/`, or all of it.
pub open spec fn local_part(iri: Seq<char>) -> Seq<char>
    decreases iri.len(),
{
    if iri.len() == 0 {
        iri
    } else if iri.last() == '#' || iri.last() == '/' {
        Seq::empty()
    } else {
        local_part(iri.drop_last()).push(iri.last())
    }
}

proof fn lemma_local_part(s: Seq<char>, i: int)
    requires
        0 <= i <= s.len(),
        forall|k: int| i <= k < s.len() ==> #[trigger] s[k] != '#' && s[k] != '/',
        i == 0 || s[i - 1] == '#' || s[i - 1] == '/',
    ensures
        local_part(s) == s.skip(i),
    decreases s.len() - i,
{
    if i == s.len() {
        if s.len() == 0 {
            assert(s.skip(i) =~= s);
        } else {
            assert(s.skip(i) =~= Seq::<char>::empty());
        }
    } else {
        let t = s.drop_last();
        assert(s.last() == s[s.len() - 1]);
        assert forall|k: int| i <= k < t.len() implies #[trigger] t[k] != '#' && t[k] != '/' by {
            assert(t[k] == s[k]);
        }
        if i > 0 {
            assert(t[i - 1] == s[i - 1]);
        }
        lemma_local_part(t, i);
        assert(t.skip(i).push(s.last()) =~= s.skip(i));
    }
}

/// The local name of an IRI — after the last `#` or `/`.
pub fn local_name(iri: &str) -> (name: String)
    ensures
        name@ == local_part(iri@),
{
    let n = iri.unicode_len();
    let mut i: usize = n;
    while i > 0 && iri.get_char(i - 1) != '#' && iri.get_char(i - 1) != '/'
        invariant
            n == iri@.len(),
            i <= n,
            forall|k: int| i <= k < n ==> #[trigger] iri@[k] != '#' && iri@[k] != '/',
        decreases i,
    {
        i = i - 1;
    }
    proof {
        lemma_local_part(iri@, i as int);
        assert(iri@.skip(i as int) =~= iri@.subrange(i as int, n as int));
    }
    String::from_str(iri.substring_char(i, n))
}

// --- the query --------------------------------------------------------------

/// The query text before the graph's IRI.
pub const QUERY_HEAD: &'static str = "PREFIX rdfs: <http://www.w3.org/2000/01/rdf-schema#>\n\
     PREFIX rdf: <http://www.w3.org/1999/02/22-rdf-syntax-ns#>\n\
     PREFIX owl: <http://www.w3.org/2002/07/owl#>\n\
     SELECT ?term ?comment ?parent ?domain ?range WHERE {\n\
       GRAPH <";

/// The query text after the graph's IRI.
pub const QUERY_TAIL: &'static str = "> {\n\
         ?term a ?kind .\n\
         FILTER(?kind IN (rdfs:Class, rdf:Property, owl:Class, owl:ObjectProperty, \
                          owl:DatatypeProperty))\n\
         OPTIONAL { ?term rdfs:comment ?comment }\n\
         OPTIONAL { ?term rdfs:subClassOf ?parent }\n\
         OPTIONAL { ?term rdfs:subPropertyOf ?parent }\n\
         OPTIONAL { ?term rdfs:domain ?domain }\n\
         OPTIONAL { ?term rdfs:range ?range }\n\
       }\n\
     }\n\
     ORDER BY ?term";

/// The query for one namespace's terms, scoped to its named graph — an
/// unscoped query would document the engine's own vocabulary as well.
pub fn term_query(graph: &str) -> (q: String)
    ensures
        q@ == QUERY_HEAD@ + graph@ + QUERY_TAIL@,
{
    let mut q = String::from_str(QUERY_HEAD);
    q.append(graph);
    q.append(QUERY_TAIL);
    q
}

// --- terms -------------------------------------------------------------------

/// One documented term.
#[derive(Debug, Clone, PartialEq, Eq)]
pub struct Term {
    /// The term's IRI.
    pub iri: String,
    /// Its local name, for display.
    pub local: String,
    /// `rdfs:comment`, if it has one.
    pub comment: Option<String>,
    /// `rdfs:subClassOf` / `rdfs:subPropertyOf` target, if any.
    pub parent: Option<String>,
    /// `rdfs:domain`, if any.
    pub domain: Option<String>,
    /// `rdfs:range`, if any.
    pub range: Option<String>,
}

/// A term, as characters.
pub ghost struct TermView {
    /// The term's IRI.
    pub iri: Seq<char>,
    /// Its local name.
    pub local: Seq<char>,
    /// Its comment.
    pub comment: Option<Seq<char>>,
    /// What it descends from.
    pub parent: Option<Seq<char>>,
    /// Its domain.
    pub domain: Option<Seq<char>>,
    /// Its range.
    pub range: Option<Seq<char>>,
}

impl View for Term {
    type V = TermView;

    open spec fn view(&self) -> TermView {
        TermView {
            iri: self.iri@,
            local: self.local@,
            comment: arg_view(self.comment),
            parent: arg_view(self.parent),
            domain: arg_view(self.domain),
            range: arg_view(self.range),
        }
    }
}

/// One row of a SPARQL result set for the term query: each variable's bound
/// value, if it is bound.
#[derive(Debug, Clone, PartialEq, Eq)]
pub struct SparqlRow {
    /// `?term`.
    pub term: Option<String>,
    /// `?comment`.
    pub comment: Option<String>,
    /// `?parent`.
    pub parent: Option<String>,
    /// `?domain`.
    pub domain: Option<String>,
    /// `?range`.
    pub range: Option<String>,
}

/// A row, as characters.
pub ghost struct RowView {
    /// `?term`.
    pub term: Option<Seq<char>>,
    /// `?comment`.
    pub comment: Option<Seq<char>>,
    /// `?parent`.
    pub parent: Option<Seq<char>>,
    /// `?domain`.
    pub domain: Option<Seq<char>>,
    /// `?range`.
    pub range: Option<Seq<char>>,
}

impl View for SparqlRow {
    type V = RowView;

    open spec fn view(&self) -> RowView {
        RowView {
            term: arg_view(self.term),
            comment: arg_view(self.comment),
            parent: arg_view(self.parent),
            domain: arg_view(self.domain),
            range: arg_view(self.range),
        }
    }
}

/// The characters of each row.
pub open spec fn row_views(rows: Seq<SparqlRow>) -> Seq<RowView> {
    rows.map_values(|r: SparqlRow| r@)
}

/// The first of two optional values that is present.
pub open spec fn first_present(a: Option<Seq<char>>, b: Option<Seq<char>>) -> Option<Seq<char>> {
    if a is Some {
        a
    } else {
        b
    }
}

/// A term that already has what it has, and takes from `row` what it lacks.
pub open spec fn merged(t: TermView, row: RowView) -> TermView {
    TermView {
        iri: t.iri,
        local: t.local,
        comment: first_present(t.comment, row.comment),
        parent: first_present(t.parent, row.parent),
        domain: first_present(t.domain, row.domain),
        range: first_present(t.range, row.range),
    }
}

/// The term a row introduces.
pub open spec fn introduced(iri: Seq<char>, row: RowView) -> TermView {
    TermView {
        iri,
        local: local_part(iri),
        comment: row.comment,
        parent: row.parent,
        domain: row.domain,
        range: row.range,
    }
}

/// No two terms share an IRI.
pub open spec fn distinct_iris(ts: Seq<TermView>) -> bool {
    forall|i: int, j: int|
        0 <= i < ts.len() && 0 <= j < ts.len() && i != j ==> (#[trigger] ts[i]).iri != (
        #[trigger] ts[j]).iri
}

/// The terms after `row`: a row binding no term is skipped; a row for a term
/// already listed fills in what that term lacks; any other row adds a term.
/// OPTIONAL clauses multiply rows, so one term may arrive as several.
pub open spec fn absorb(ts: Seq<TermView>, row: RowView) -> Seq<TermView> {
    match row.term {
        None => ts,
        Some(iri) => if exists|k: int| 0 <= k < ts.len() && (#[trigger] ts[k]).iri == iri {
            let k = choose|k: int| 0 <= k < ts.len() && (#[trigger] ts[k]).iri == iri;
            ts.update(k, merged(ts[k], row))
        } else {
            ts.push(introduced(iri, row))
        },
    }
}

/// A later row of a term already listed fills in whatever that term lacks:
/// each of its comment, parent, domain and range is kept when present and
/// taken from the row when absent. Nothing else changes — not the term's IRI
/// or name, not its place, not any other term.
pub proof fn a_later_row_fills_what_a_term_lacks(ts: Seq<TermView>, row: RowView, k: int)
    requires
        distinct_iris(ts),
        0 <= k < ts.len(),
        row.term == Some(ts[k].iri),
    ensures
        absorb(ts, row).len() == ts.len(),
        absorb(ts, row)[k].iri == ts[k].iri,
        absorb(ts, row)[k].local == ts[k].local,
        absorb(ts, row)[k].comment == if ts[k].comment is Some {
            ts[k].comment
        } else {
            row.comment
        },
        absorb(ts, row)[k].parent == if ts[k].parent is Some {
            ts[k].parent
        } else {
            row.parent
        },
        absorb(ts, row)[k].domain == if ts[k].domain is Some {
            ts[k].domain
        } else {
            row.domain
        },
        absorb(ts, row)[k].range == if ts[k].range is Some {
            ts[k].range
        } else {
            row.range
        },
        forall|j: int| 0 <= j < ts.len() && j != k ==> #[trigger] absorb(ts, row)[j] == ts[j],
{
    let iri = ts[k].iri;
    assert(exists|c: int| 0 <= c < ts.len() && (#[trigger] ts[c]).iri == iri);
    let c = choose|c: int| 0 <= c < ts.len() && (#[trigger] ts[c]).iri == iri;
    if c != k {
        assert(ts[c].iri != ts[k].iri);
    }
}

/// The terms a result set documents, in order of first appearance.
pub open spec fn terms_of_rows(rows: Seq<RowView>) -> Seq<TermView>
    decreases rows.len(),
{
    if rows.len() == 0 {
        Seq::empty()
    } else {
        absorb(terms_of_rows(rows.drop_last()), rows.last())
    }
}

/// The characters of each term.
pub open spec fn term_views(ts: Seq<Term>) -> Seq<TermView> {
    ts.map_values(|t: Term| t@)
}

fn copy_opt(o: &Option<String>) -> (c: Option<String>)
    ensures
        c == *o,
{
    match o {
        Some(s) => Some(s.clone()),
        None => None,
    }
}

fn first_of(a: &Option<String>, b: &Option<String>) -> (c: Option<String>)
    ensures
        arg_view(c) == first_present(arg_view(*a), arg_view(*b)),
{
    match a {
        Some(s) => Some(s.clone()),
        None => copy_opt(b),
    }
}

/// Gather the terms of a result set, merging the rows of one term.
pub fn terms_from_rows(rows: &Vec<SparqlRow>) -> (terms: Vec<Term>)
    ensures
        term_views(terms@) == terms_of_rows(row_views(rows@)),
        distinct_iris(term_views(terms@)),
{
    let mut terms: Vec<Term> = Vec::new();
    let mut r: usize = 0;
    assert(row_views(rows@.take(0)) =~= Seq::<RowView>::empty());
    assert(term_views(terms@) =~= Seq::<TermView>::empty());
    while r < rows.len()
        invariant
            r <= rows@.len(),
            term_views(terms@) == terms_of_rows(row_views(rows@.take(r as int))),
            distinct_iris(term_views(terms@)),
        decreases rows@.len() - r,
    {
        let row = &rows[r];
        let ghost before = term_views(terms@);
        assert(row_views(rows@.take(r + 1)).drop_last() =~= row_views(rows@.take(r as int)));
        assert(row_views(rows@.take(r + 1)).last() == row@);
        match &row.term {
            None => {},
            Some(iri) => {
                let mut k: usize = 0;
                while k < terms.len() && !(terms[k].iri == *iri)
                    invariant
                        k <= terms@.len(),
                        before == term_views(terms@),
                        forall|j: int| 0 <= j < k ==> (#[trigger] terms@[j]).iri@ != iri@,
                    decreases terms@.len() - k,
                {
                    k = k + 1;
                }
                if k < terms.len() {
                    let t = &terms[k];
                    let updated = Term {
                        iri: t.iri.clone(),
                        local: t.local.clone(),
                        comment: first_of(&t.comment, &row.comment),
                        parent: first_of(&t.parent, &row.parent),
                        domain: first_of(&t.domain, &row.domain),
                        range: first_of(&t.range, &row.range),
                    };
                    proof {
                        assert(before[k as int].iri == iri@);
                        let c = choose|c: int| 0 <= c < before.len() && (#[trigger] before[c]).iri == iri@;
                        assert(c == k);
                        assert(updated@ == merged(before[k as int], row@));
                    }
                    terms.set(k, updated);
                    assert(term_views(terms@) =~= before.update(k as int, merged(before[k as int], row@)));
                } else {
                    let local = local_name(iri.as_str());
                    let added = Term {
                        iri: iri.clone(),
                        local,
                        comment: copy_opt(&row.comment),
                        parent: copy_opt(&row.parent),
                        domain: copy_opt(&row.domain),
                        range: copy_opt(&row.range),
                    };
                    proof {
                        assert forall|c: int| 0 <= c < before.len() implies (#[trigger] before[c]).iri != iri@ by {
                            assert(before[c] == terms@[c]@);
                        }
                    }
                    terms.push(added);
                    assert(term_views(terms@) =~= before.push(introduced(iri@, row@)));
                }
            },
        }
        r = r + 1;
    }
    assert(rows@.take(rows@.len() as int) =~= rows@);
    terms
}

// --- rendering ---------------------------------------------------------------

/// An optional field's row in a term's detail table.
pub open spec fn detail_row(label: Seq<char>, value: Option<Seq<char>>) -> Seq<char> {
    match value {
        Some(v) => "<tr><th scope=\"row\">"@ + label + "</th><td><code>"@ + escaped(local_part(v))
            + "</code></td></tr>"@,
        None => Seq::empty(),
    }
}

/// The rows of a term's detail table.
pub open spec fn detail_rows(t: TermView) -> Seq<char> {
    detail_row("Subclass/subproperty of"@, t.parent) + detail_row("Domain"@, t.domain) + detail_row(
        "Range"@,
        t.range,
    )
}

/// One term's detail — the fragment swapped into the page's detail pane.
pub open spec fn detail_text(t: TermView) -> Seq<char> {
    let head = "<div class=\"detail\" id=\"detail\" tabindex=\"-1\" aria-live=\"polite\"><h2>"@
        + escaped(t.local) + "</h2><p class=\"iri\">"@ + escaped(t.iri) + "</p>"@;
    let comment = match t.comment {
        Some(c) => "<p>"@ + escaped(c) + "</p>"@,
        None => Seq::empty(),
    };
    let rows = detail_rows(t);
    let table = if rows.len() > 0 {
        "<table>"@ + rows + "</table>"@
    } else {
        Seq::empty()
    };
    head + comment + table + "</div>"@
}

fn append_detail_row(out: &mut String, label: &str, value: &Option<String>)
    ensures
        final(out)@ == old(out)@ + detail_row(label@, arg_view(*value)),
{
    match value {
        Some(v) => {
            out.append("<tr><th scope=\"row\">");
            out.append(label);
            out.append("</th><td><code>");
            let name = local_name(v.as_str());
            let e = esc(name.as_str());
            out.append(e.as_str());
            out.append("</code></td></tr>");
            assert(final(out)@ =~= old(out)@ + detail_row(label@, arg_view(*value)));
        },
        None => {
            assert(old(out)@ + Seq::<char>::empty() =~= old(out)@);
        },
    }
}

/// One term's detail, as an htmx fragment.
pub fn detail_html(term: &Term) -> (html: String)
    ensures
        html@ == detail_text(term@),
{
    let mut out = String::from_str(
        "<div class=\"detail\" id=\"detail\" tabindex=\"-1\" aria-live=\"polite\"><h2>",
    );
    let l = esc(term.local.as_str());
    out.append(l.as_str());
    out.append("</h2><p class=\"iri\">");
    let i = esc(term.iri.as_str());
    out.append(i.as_str());
    out.append("</p>");
    let ghost head = out@;
    match &term.comment {
        Some(c) => {
            out.append("<p>");
            let e = esc(c.as_str());
            out.append(e.as_str());
            out.append("</p>");
        },
        None => {},
    }
    let ghost with_comment = out@;
    let mut rows = String::new();
    append_detail_row(&mut rows, "Subclass/subproperty of", &term.parent);
    append_detail_row(&mut rows, "Domain", &term.domain);
    append_detail_row(&mut rows, "Range", &term.range);
    assert(rows@ =~= detail_rows(term@));
    if rows.unicode_len() > 0 {
        out.append("<table>");
        out.append(rows.as_str());
        out.append("</table>");
    }
    out.append("</div>");
    assert(out@ =~= detail_text(term@));
    out
}

/// One theme choice in the chooser, selected when it is the theme in force.
pub open spec fn option_text(p: Palette, theme: Seq<char>) -> Seq<char> {
    "<option value=\""@ + p.name@ + "\""@ + (if p.name@ == theme {
        " selected"@
    } else {
        Seq::empty()
    }) + ">"@ + escaped(p.label@) + "</option>"@
}

/// The theme choices for every palette, in order.
pub open spec fn options_text(ps: Seq<Palette>, theme: Seq<char>) -> Seq<char>
    decreases ps.len(),
{
    if ps.len() == 0 {
        Seq::empty()
    } else {
        options_text(ps.drop_last(), theme) + option_text(ps.last(), theme)
    }
}

/// The theme chooser: a real form, so it works without JavaScript.
pub open spec fn chooser_text(prefix: Seq<char>, theme: Seq<char>) -> Seq<char> {
    "<form class=\"chooser\" method=\"get\" hx-get=\"/r/urn:name:docs\" hx-target=\"body\" hx-trigger=\"change from:#theme\"><input type=\"hidden\" name=\"prefix\" value=\""@
        + escaped(prefix)
        + "\"><label for=\"theme\">Theme</label><select id=\"theme\" name=\"theme\"><option value=\"auto\""@
        + (if theme == "auto"@ {
        " selected"@
    } else {
        Seq::empty()
    }) + ">Match system</option>"@ + options_text(all_palettes(), theme)
        + "</select><noscript><button type=\"submit\">Apply</button></noscript></form>"@
}

/// The theme chooser. A `<select>` inside a `<form>`, reachable by keyboard
/// and screen reader; htmx upgrades it to swap in place when available.
pub fn chooser_html(prefix: &str, theme: &str) -> (html: String)
    ensures
        html@ == chooser_text(prefix@, theme@),
{
    let all = palettes();
    let mut options = String::new();
    let mut i: usize = 0;
    assert(all@.take(0) =~= Seq::<Palette>::empty());
    while i < all.len()
        invariant
            all@ == all_palettes(),
            i <= all@.len(),
            options@ == options_text(all@.take(i as int), theme@),
        decreases all@.len() - i,
    {
        let p = all[i];
        let ghost before = options@;
        options.append("<option value=\"");
        options.append(p.name);
        options.append("\"");
        if same(p.name, theme) {
            options.append(" selected");
        }
        options.append(">");
        let label = esc(p.label);
        options.append(label.as_str());
        options.append("</option>");
        assert(all@.take(i + 1).drop_last() =~= all@.take(i as int));
        assert(all@.take(i + 1).last() == p);
        assert(options@ =~= before + option_text(p, theme@));
        i = i + 1;
    }
    assert(all@.take(all@.len() as int) =~= all@);
    let mut out = String::from_str(
        "<form class=\"chooser\" method=\"get\" hx-get=\"/r/urn:name:docs\" hx-target=\"body\" hx-trigger=\"change from:#theme\"><input type=\"hidden\" name=\"prefix\" value=\"",
    );
    let p = esc(prefix);
    out.append(p.as_str());
    out.append(
        "\"><label for=\"theme\">Theme</label><select id=\"theme\" name=\"theme\"><option value=\"auto\"",
    );
    if same(theme, "auto") {
        out.append(" selected");
    }
    out.append(">Match system</option>");
    out.append(options.as_str());
    out.append("</select><noscript><button type=\"submit\">Apply</button></noscript></form>");
    assert(out@ =~= chooser_text(prefix@, theme@));
    out
}

/// A comment as the page shows it beside a term: its first 80 characters,
/// trimmed.
pub open spec fn teaser(c: Seq<char>) -> Seq<char> {
    trimmed(c.take(if c.len() < 80 {
        c.len() as int
    } else {
        80
    }))
}

/// One term's button in the page's list.
pub open spec fn item_text(prefix: Seq<char>, t: TermView) -> Seq<char> {
    "<li><button class=\"term\" type=\"button\" hx-get=\"/r/urn:name:docs?prefix="@ + escaped(prefix)
        + "&amp;term="@ + escaped(t.local)
        + "\" hx-target=\"#detail\" hx-swap=\"outerHTML\"><strong>"@ + escaped(t.local)
        + "</strong>"@ + match t.comment {
        Some(c) => "<br><span class=\"muted\">"@ + escaped(teaser(c)) + "</span>"@,
        None => Seq::empty(),
    } + "</button></li>"@
}

/// Every term's button, in order.
pub open spec fn items_text(prefix: Seq<char>, ts: Seq<TermView>) -> Seq<char>
    decreases ts.len(),
{
    if ts.len() == 0 {
        Seq::empty()
    } else {
        items_text(prefix, ts.drop_last()) + item_text(prefix, ts.last())
    }
}

/// The whole documentation page: the stylesheet for the theme, the term
/// count (singular for one), where the vocabulary is served from, the
/// chooser, every term, and an empty detail pane htmx fills in.
pub open spec fn page_text(
    prefix: Seq<char>,
    theme: Seq<char>,
    source: Seq<char>,
    ts: Seq<TermView>,
) -> Seq<char> {
    let p = escaped(prefix);
    "<!doctype html><html lang=\"en\"><head><meta charset=\"utf-8\"><meta name=\"viewport\" content=\"width=device-width,initial-scale=1\"><title>"@
        + p + " \u{2014} namespace documentation</title><style>"@ + stylesheet_css(theme)
        + "</style><script src=\"/static/htmx.min.js\" defer></script></head><body><header><h1>"@
        + p + "</h1><p class=\"muted\">"@ + decimal(ts.len()) + " term"@ + (if ts.len() == 1 {
        Seq::empty()
    } else {
        "s"@
    }) + " \u{b7} served from <code>"@ + escaped(source) + "</code></p></header>"@ + chooser_text(
        prefix,
        theme,
    ) + "<main><h2 id=\"terms-heading\">Terms</h2><ul class=\"terms\" aria-labelledby=\"terms-heading\">"@
        + items_text(prefix, ts)
        + "</ul><div class=\"detail\" id=\"detail\" tabindex=\"-1\" aria-live=\"polite\"><p class=\"muted\">Choose a term to see its definition.</p></div></main></body></html>"@
}

fn append_item(out: &mut String, prefix: &str, t: &Term)
    ensures
        final(out)@ == old(out)@ + item_text(prefix@, t@),
{
    out.append("<li><button class=\"term\" type=\"button\" hx-get=\"/r/urn:name:docs?prefix=");
    let p = esc(prefix);
    out.append(p.as_str());
    out.append("&amp;term=");
    let l = esc(t.local.as_str());
    out.append(l.as_str());
    out.append("\" hx-target=\"#detail\" hx-swap=\"outerHTML\"><strong>");
    out.append(l.as_str());
    out.append("</strong>");
    match &t.comment {
        Some(c) => {
            let n = c.unicode_len();
            let cut: usize = if n < 80 {
                n
            } else {
                80
            };
            let head = trim(c.as_str().substring_char(0, cut));
            assert(c@.subrange(0, cut as int) =~= c@.take(cut as int));
            out.append("<br><span class=\"muted\">");
            let e = esc(head.as_str());
            out.append(e.as_str());
            out.append("</span>");
        },
        None => {},
    }
    out.append("</button></li>");
    assert(final(out)@ =~= old(out)@ + item_text(prefix@, t@));
}

/// The whole page.
pub fn page_html(prefix: &str, theme: &str, source: &str, terms: &Vec<Term>) -> (html: String)
    ensures
        html@ == page_text(prefix@, theme@, source@, term_views(terms@)),
{
    let mut items = String::new();
    let mut i: usize = 0;
    assert(term_views(terms@).take(0) =~= Seq::<TermView>::empty());
    while i < terms.len()
        invariant
            i <= terms@.len(),
            items@ == items_text(prefix@, term_views(terms@).take(i as int)),
        decreases terms@.len() - i,
    {
        let ghost before = items@;
        append_item(&mut items, prefix, &terms[i]);
        assert(term_views(terms@).take(i + 1).drop_last() =~= term_views(terms@).take(i as int));
        assert(term_views(terms@).take(i + 1).last() == terms@[i as int]@);
        i = i + 1;
    }
    assert(term_views(terms@).take(terms@.len() as int) =~= term_views(terms@));
    let p = esc(prefix);
    let mut out = String::from_str(
        "<!doctype html><html lang=\"en\"><head><meta charset=\"utf-8\"><meta name=\"viewport\" content=\"width=device-width,initial-scale=1\"><title>",
    );
    out.append(p.as_str());
    out.append(" \u{2014} namespace documentation</title><style>");
    let css = stylesheet(theme);
    out.append(css.as_str());
    out.append("</style><script src=\"/static/htmx.min.js\" defer></script></head><body><header><h1>");
    out.append(p.as_str());
    out.append("</h1><p class=\"muted\">");
    let count = decimal_text(terms.len());
    out.append(count.as_str());
    out.append(" term");
    if terms.len() != 1 {
        out.append("s");
    }
    out.append(" \u{b7} served from <code>");
    let s = esc(source);
    out.append(s.as_str());
    out.append("</code></p></header>");
    let chooser = chooser_html(prefix, theme);
    out.append(chooser.as_str());
    out.append(
        "<main><h2 id=\"terms-heading\">Terms</h2><ul class=\"terms\" aria-labelledby=\"terms-heading\">",
    );
    out.append(items.as_str());
    out.append(
        "</ul><div class=\"detail\" id=\"detail\" tabindex=\"-1\" aria-live=\"polite\"><p class=\"muted\">Choose a term to see its definition.</p></div></main></body></html>",
    );
    assert(out@ =~= page_text(prefix@, theme@, source@, term_views(terms@)));
    out
}

// --- the face's decisions -----------------------------------------------------

/// Read `prefix=`: required, trimmed.
pub fn docs_prefix(prefix: &Option<String>) -> (r: Result<String, NameError>)
    ensures
        text_outcome(r) == match arg_view(*prefix) {
            Some(p) => Ok::<Seq<char>, Refusal>(trimmed(p)),
            None => Err(Refusal::Missing("prefix"@)),
        },
{
    match prefix {
        Some(p) => Ok(trim(p.as_str())),
        None => Err(NameError::MissingArgument(String::from_str("prefix"))),
    }
}

/// Read `theme=`: trimmed, `auto` when absent.
pub fn docs_theme(theme: &Option<String>) -> (t: String)
    ensures
        t@ == match arg_view(*theme) {
            Some(x) => trimmed(x),
            None => "auto"@,
        },
{
    match theme {
        Some(x) => trim(x.as_str()),
        None => String::from_str("auto"),
    }
}

/// The refusal of a namespace served by its owner, whose documentation lives
/// there.
pub open spec fn documented_elsewhere(prefix: Seq<char>, target: Seq<char>) -> Refusal {
    Refusal::Endpoint(
        "name: "@ + debug_text(prefix) + " is served by its owner at "@ + target
            + " \u{2014} documentation lives there"@,
    )
}

/// The graph a namespace's documentation is read from: a hosted source or a
/// mirror's origin; a redirect is documented by its owner, and a retired
/// namespace reports its retirement.
pub open spec fn graph_of(prefix: Seq<char>, ns: NamespaceView) -> Result<Seq<char>, Refusal> {
    match ns.strategy {
        StrategyView::Hosted(s) => Ok(s),
        StrategyView::Mirror(o) => Ok(o),
        StrategyView::Redirect(t) => Err(documented_elsewhere(prefix, t)),
        StrategyView::Retired(r) => Err(retired_refusal(prefix, r)),
    }
}

/// The documentation face documents exactly what the document face serves:
/// a hosted namespace's source and a mirror's origin are documented — the
/// very graph a request for its Turtle reads — and only a namespace served
/// elsewhere (a redirect) or withdrawn (a retirement) has no page here.
pub proof fn docs_documents_what_the_document_face_serves(prefix: Seq<char>, ns: NamespaceView)
    ensures
        ns.strategy matches StrategyView::Hosted(source) ==> graph_of(prefix, ns) == Ok::<
            Seq<char>,
            Refusal,
        >(source),
        ns.strategy matches StrategyView::Mirror(origin) ==> graph_of(prefix, ns) == Ok::<
            Seq<char>,
            Refusal,
        >(origin),
        ns.strategy is Redirect || ns.strategy is Retired ==> graph_of(prefix, ns) is Err,
        graph_of(prefix, ns) is Ok <==> step_outcome(ns, CANONICAL@) is Ok,
        graph_of(prefix, ns) matches Ok(g) ==> step_outcome(ns, CANONICAL@) == Ok::<
            StepView,
            Refusal,
        >(StepView::Fetch(g)),
{
    lemma_turtle_is_bare();
}

/// Decide which graph documents `prefix`.
pub fn docs_graph(registry: &Registry, prefix: &str) -> (r: Result<String, NameError>)
    ensures
        (forall|i: int|
            0 <= i < registry.namespaces@.len() ==> !claims(
                #[trigger] registry.namespaces@[i].prefix@,
                prefix@,
            )) ==> text_outcome(r) == Err::<Seq<char>, Refusal>(Refusal::NotFound(unclaimed(prefix@))),
        forall|i: int| #[trigger]
            first_claiming(registry.namespaces@, prefix@, i) ==> text_outcome(r) == graph_of(
                prefix@,
                registry.namespaces@[i]@,
            ),
{
    let found = match resolve_path(registry, prefix) {
        Ok(ns) => ns,
        Err(e) => return Err(e),
    };
    proof {
        let k = choose|k: int| first_claiming(registry.namespaces@, prefix@, k) && *found == registry.namespaces@[k];
        assert forall|i: int| first_claiming(registry.namespaces@, prefix@, i) implies i == k by {
            if i < k {
                assert(!claims(registry.namespaces@[i].prefix@, prefix@));
            } else if k < i {
                assert(!claims(registry.namespaces@[k].prefix@, prefix@));
            }
        }
    }
    match &found.strategy {
        Strategy::Hosted { source } => Ok(source.clone()),
        Strategy::Mirror { origin } => Ok(origin.clone()),
        Strategy::Redirect { target } => {
            let mut m = String::from_str("name: ");
            let q = quoted(prefix);
            m.append(q.as_str());
            m.append(" is served by its owner at ");
            m.append(target.as_str());
            m.append(" \u{2014} documentation lives there");
            Err(NameError::Endpoint(m))
        },
        Strategy::Retired { reason } => Err(retired_error(prefix, reason.as_str())),
    }
}

/// A graph name cannot be spliced into a query when it holds one of these.
pub open spec fn unspliceable(graph: Seq<char>) -> bool {
    ||| has_char(graph, '<')
    ||| has_char(graph, '>')
    ||| has_char(graph, '"')
    ||| has_char(graph, '\\')
    ||| exists|i: int| 0 <= i < graph.len() && is_space(#[trigger] graph[i])
}

/// Whether `graph` may be interpolated into the term query: it must be an
/// IRI, and hold nothing that would end the IRI or the query early.
pub open spec fn graph_check(graph: Seq<char>) -> Result<(), Refusal> {
    match iri_parse_error(graph) {
        Some(why) => Err(
            Refusal::Endpoint(
                "name: "@ + debug_text(graph) + " is not a usable graph source: "@ + why,
            ),
        ),
        None => if unspliceable(graph) {
            Err(Refusal::Endpoint("name: "@ + debug_text(graph) + " cannot be used as a graph name"@))
        } else {
            Ok(())
        },
    }
}

fn has_space(s: &str) -> (r: bool)
    ensures
        r == exists|i: int| 0 <= i < s@.len() && is_space(#[trigger] s@[i]),
{
    let n = s.unicode_len();
    let mut i: usize = 0;
    while i < n
        invariant
            n == s@.len(),
            i <= n,
            forall|k: int| 0 <= k < i ==> !is_space(#[trigger] s@[k]),
        decreases n - i,
    {
        if is_space_char(s.get_char(i)) {
            return true;
        }
        i = i + 1;
    }
    false
}

/// Check a graph name before it is interpolated into a query: an operator
/// edits the registry, and operator-supplied is not safe to splice.
pub fn check_graph(graph: &str) -> (r: Result<(), NameError>)
    ensures
        unit_outcome(r) == graph_check(graph@),
{
    match iri_problem(graph) {
        Some(why) => {
            let mut m = String::from_str("name: ");
            let q = quoted(graph);
            m.append(q.as_str());
            m.append(" is not a usable graph source: ");
            m.append(why.as_str());
            return Err(NameError::Endpoint(m));
        },
        None => {},
    }
    if contains_any_forbidden(graph) || has_space(graph) {
        let mut m = String::from_str("name: ");
        let q = quoted(graph);
        m.append(q.as_str());
        m.append(" cannot be used as a graph name");
        Err(NameError::Endpoint(m))
    } else {
        Ok(())
    }
}

fn contains_any_forbidden(graph: &str) -> (r: bool)
    ensures
        r == (has_char(graph@, '<') || has_char(graph@, '>') || has_char(graph@, '"') || has_char(
            graph@,
            '\\',
        )),
{
    contains_char(graph, '<') || contains_char(graph, '>') || contains_char(graph, '"')
        || contains_char(graph, '\\')
}

/// Term `k` is the first whose local name is `wanted`.
pub open spec fn first_local(ts: Seq<TermView>, wanted: Seq<char>, k: int) -> bool {
    &&& 0 <= k < ts.len()
    &&& ts[k].local == wanted
    &&& forall|j: int| 0 <= j < k ==> (#[trigger] ts[j]).local != wanted
}

/// The refusal of a term the vocabulary does not have.
pub open spec fn no_term(wanted: Seq<char>) -> Refusal {
    Refusal::NotFound("name: no term "@ + debug_text(wanted))
}

/// What the face answers: with a non-blank `term=`, that term's fragment (or
/// not found); otherwise the whole page.
pub fn docs_body(
    prefix: &str,
    theme: &str,
    graph: &str,
    terms: &Vec<Term>,
    term: &Option<String>,
) -> (r: Result<String, NameError>)
    ensures
        match arg_view(*term) {
            Some(w) if trimmed(w).len() > 0 => {
                &&& (forall|k: int| #[trigger]
                    first_local(term_views(terms@), trimmed(w), k) ==> text_outcome(r) == Ok::<
                        Seq<char>,
                        Refusal,
                    >(detail_text(term_views(terms@)[k])))
                &&& (forall|k: int|
                    0 <= k < terms@.len() ==> (#[trigger] terms@[k])@.local != trimmed(w))
                    ==> text_outcome(r) == Err::<Seq<char>, Refusal>(no_term(trimmed(w)))
            },
            _ => text_outcome(r) == Ok::<Seq<char>, Refusal>(
                page_text(prefix@, theme@, graph@, term_views(terms@)),
            ),
        },
{
    let wanted = match term {
        Some(t) => trim(t.as_str()),
        None => String::new(),
    };
    if wanted.unicode_len() == 0 {
        return Ok(page_html(prefix, theme, graph, terms));
    }
    let mut k: usize = 0;
    while k < terms.len() && !same(terms[k].local.as_str(), wanted.as_str())
        invariant
            k <= terms@.len(),
            forall|j: int| 0 <= j < k ==> (#[trigger] terms@[j]).local@ != wanted@,
        decreases terms@.len() - k,
    {
        k = k + 1;
    }
    if k == terms.len() {
        let mut m = String::from_str("name: no term ");
        let q = quoted(wanted.as_str());
        m.append(q.as_str());
        return Err(NameError::NotFound(m));
    }
    proof {
        let ts = term_views(terms@);
        assert(first_local(ts, wanted@, k as int));
        assert forall|c: int| first_local(ts, wanted@, c) implies c == k by {
            if c > k {
                assert(ts[k as int].local == wanted@);
            }
        }
    }
    Ok(detail_html(&terms[k]))
}

} // verus!
