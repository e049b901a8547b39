use vstd::prelude::*;

use crate::text::same_text;

verus! {

/// The tags that may stand in a sanitised document.
pub open spec fn permitted_tag(t: Seq<char>) -> bool {
    t == "link"@
        || t == "html"@
        || t == "head"@
        || t == "style"@
        || t == "body"@
        || t == "a"@
        || t == "abbr"@
        || t == "acronym"@
        || t == "address"@
        || t == "area"@
        || t == "b"@
        || t == "bdo"@
        || t == "big"@
        || t == "blockquote"@
        || t == "br"@
        || t == "button"@
        || t == "caption"@
        || t == "center"@
        || t == "cite"@
        || t == "code"@
        || t == "col"@
        || t == "colgroup"@
        || t == "dd"@
        || t == "del"@
        || t == "dfn"@
        || t == "dir"@
        || t == "div"@
        || t == "dl"@
        || t == "dt"@
        || t == "em"@
        || t == "fieldset"@
        || t == "font"@
        || t == "form"@
        || t == "h1"@
        || t == "h2"@
        || t == "h3"@
        || t == "h4"@
        || t == "h5"@
        || t == "h6"@
        || t == "hr"@
        || t == "i"@
        || t == "img"@
        || t == "input"@
        || t == "ins"@
        || t == "kbd"@
        || t == "label"@
        || t == "legend"@
        || t == "li"@
        || t == "map"@
        || t == "menu"@
        || t == "ol"@
        || t == "optgroup"@
        || t == "option"@
        || t == "p"@
        || t == "pre"@
        || t == "q"@
        || t == "s"@
        || t == "samp"@
        || t == "select"@
        || t == "small"@
        || t == "span"@
        || t == "strike"@
        || t == "strong"@
        || t == "sub"@
        || t == "sup"@
        || t == "table"@
        || t == "tbody"@
        || t == "td"@
        || t == "textarea"@
        || t == "tfoot"@
        || t == "th"@
        || t == "thead"@
        || t == "u"@
        || t == "tr"@
        || t == "tt"@
        || t == "ul"@
        || t == "var"@
}

/// The attributes that may stand in a sanitised document.
pub open spec fn permitted_attr(t: Seq<char>) -> bool {
    t == "align"@
        || t == "alt"@
        || t == "aria-hidden"@
        || t == "aria-label"@
        || t == "bgcolor"@
        || t == "border"@
        || t == "cellpadding"@
        || t == "cellspacing"@
        || t == "class"@
        || t == "color"@
        || t == "colspan"@
        || t == "dir"@
        || t == "height"@
        || t == "hspace"@
        || t == "id"@
        || t == "lang"@
        || t == "rel"@
        || t == "href"@
        || t == "role"@
        || t == "src"@
        || t == "style"@
        || t == "type"@
        || t == "valign"@
        || t == "vspace"@
        || t == "width"@
        || t == "background"@
        || t == "usemap"@
        || t == "name"@
        || t == "shape"@
        || t == "coords"@
}

/// Whether a tag may stand in a sanitised document.
pub fn is_permitted_tag(t: &str) -> (r: bool)
    ensures
        r == permitted_tag(t@),
{
    same_text(t, "link")
        || same_text(t, "html")
        || same_text(t, "head")
        || same_text(t, "style")
        || same_text(t, "body")
        || same_text(t, "a")
        || same_text(t, "abbr")
        || same_text(t, "acronym")
        || same_text(t, "address")
        || same_text(t, "area")
        || same_text(t, "b")
        || same_text(t, "bdo")
        || same_text(t, "big")
        || same_text(t, "blockquote")
        || same_text(t, "br")
        || same_text(t, "button")
        || same_text(t, "caption")
        || same_text(t, "center")
        || same_text(t, "cite")
        || same_text(t, "code")
        || same_text(t, "col")
        || same_text(t, "colgroup")
        || same_text(t, "dd")
        || same_text(t, "del")
        || same_text(t, "dfn")
        || same_text(t, "dir")
        || same_text(t, "div")
        || same_text(t, "dl")
        || same_text(t, "dt")
        || same_text(t, "em")
        || same_text(t, "fieldset")
        || same_text(t, "font")
        || same_text(t, "form")
        || same_text(t, "h1")
        || same_text(t, "h2")
        || same_text(t, "h3")
        || same_text(t, "h4")
        || same_text(t, "h5")
        || same_text(t, "h6")
        || same_text(t, "hr")
        || same_text(t, "i")
        || same_text(t, "img")
        || same_text(t, "input")
        || same_text(t, "ins")
        || same_text(t, "kbd")
        || same_text(t, "label")
        || same_text(t, "legend")
        || same_text(t, "li")
        || same_text(t, "map")
        || same_text(t, "menu")
        || same_text(t, "ol")
        || same_text(t, "optgroup")
        || same_text(t, "option")
        || same_text(t, "p")
        || same_text(t, "pre")
        || same_text(t, "q")
        || same_text(t, "s")
        || same_text(t, "samp")
        || same_text(t, "select")
        || same_text(t, "small")
        || same_text(t, "span")
        || same_text(t, "strike")
        || same_text(t, "strong")
        || same_text(t, "sub")
        || same_text(t, "sup")
        || same_text(t, "table")
        || same_text(t, "tbody")
        || same_text(t, "td")
        || same_text(t, "textarea")
        || same_text(t, "tfoot")
        || same_text(t, "th")
        || same_text(t, "thead")
        || same_text(t, "u")
        || same_text(t, "tr")
        || same_text(t, "tt")
        || same_text(t, "ul")
        || same_text(t, "var")
}

/// Whether an attribute may stand in a sanitised document.
pub fn is_permitted_attr(t: &str) -> (r: bool)
    ensures
        r == permitted_attr(t@),
{
    same_text(t, "align")
        || same_text(t, "alt")
        || same_text(t, "aria-hidden")
        || same_text(t, "aria-label")
        || same_text(t, "bgcolor")
        || same_text(t, "border")
        || same_text(t, "cellpadding")
        || same_text(t, "cellspacing")
        || same_text(t, "class")
        || same_text(t, "color")
        || same_text(t, "colspan")
        || same_text(t, "dir")
        || same_text(t, "height")
        || same_text(t, "hspace")
        || same_text(t, "id")
        || same_text(t, "lang")
        || same_text(t, "rel")
        || same_text(t, "href")
        || same_text(t, "role")
        || same_text(t, "src")
        || same_text(t, "style")
        || same_text(t, "type")
        || same_text(t, "valign")
        || same_text(t, "vspace")
        || same_text(t, "width")
        || same_text(t, "background")
        || same_text(t, "usemap")
        || same_text(t, "name")
        || same_text(t, "shape")
        || same_text(t, "coords")
}

} // verus!
