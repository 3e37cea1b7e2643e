//! Open Graph / HTML meta-tag link previews.

use vstd::prelude::*;

use crate::text::{
    byte_len, byte_len_prefix, chars_of, find_chars, find_seq, index_at_byte, index_at_byte_exec,
    contains_chars, contains_seq, lines, lines_of, lowercase, opt_chars, opt_string, or_else, parse_u32,
    parse_u32_spec,
    string_from_chars, sub_chars, to_lowercase, trim, trim_chars, views,
};

verus! {

/// Parsed Open Graph / HTML meta-tag preview for a URL.
#[derive(Debug, Clone, PartialEq, Default)]
pub struct LinkPreview {
    pub url: String,
    pub title: Option<String>,
    pub description: Option<String>,
    pub image_url: Option<String>,
    pub site_name: Option<String>,
    /// OGP `og:image:width` in pixels, if present.
    pub image_width: Option<u32>,
    /// OGP `og:image:height` in pixels, if present.
    pub image_height: Option<u32>,
}

/// The image height scaled by `max_width / w`, rounded to the nearest
/// integer, halves rounded up.
pub open spec fn scaled_height(h: u32, w: u32, max_width: u32) -> int {
    (2 * h * max_width + w) / (2 * w)
}

/// Display size of a preview image of known `width` and `height`, capped at
/// `max_width` with the aspect ratio kept.
pub open spec fn display_dimensions_spec(width: Option<u32>, height: Option<u32>, max_width: u32) -> (
    u32,
    Option<u32>,
) {
    match width {
        Some(w) => match height {
            Some(h) => if w > 0 && h > 0 {
                if w <= max_width {
                    (w, Some(h))
                } else {
                    (max_width, Some(scaled_height(h, w, max_width) as u32))
                }
            } else {
                (max_width, None)
            },
            None => (if w <= max_width { w } else { max_width }, None),
        },
        None => (max_width, None),
    }
}

impl LinkPreview {
    /// Compute the display width and height for the preview image, capped at
    /// `max_width`. Returns `(display_width, display_height)` keeping the
    /// original aspect ratio. If no dimensions are known, returns
    /// `(max_width, None)`.
    pub fn display_dimensions(&self, max_width: u32) -> (r: (u32, Option<u32>))
        ensures
            r == display_dimensions_spec(self.image_width, self.image_height, max_width),
            r.0 <= max_width,
            r.1 matches Some(dh) ==> self.image_height matches Some(h) && dh <= h,
    {
        match self.image_width {
            Some(w) => match self.image_height {
                Some(h) => {
                    if w > 0 && h > 0 {
                        if w <= max_width {
                            (w, Some(h))
                        } else {
                            let h128 = h as u128;
                            let w128 = w as u128;
                            let m128 = max_width as u128;
                            proof {
                                assert(h128 * m128 <= h128 * w128) by (nonlinear_arith)
                                    requires
                                        m128 < w128,
                                ;
                                assert(h128 * w128 <= 0xffff_ffff * 0xffff_ffffu128) by (nonlinear_arith)
                                    requires
                                        h128 <= 0xffff_ffff,
                                        w128 <= 0xffff_ffff,
                                ;
                                assert(2 * h128 * m128 <= 2 * (0xffff_ffffu128 * 0xffff_ffffu128)) by (nonlinear_arith)
                                    requires
                                        h128 <= 0xffff_ffff,
                                        m128 <= 0xffff_ffff,
                                ;
                                assert((2 * h128 * m128 + w128) / (2 * w128) <= h128) by (nonlinear_arith)
                                    requires
                                        m128 < w128,
                                        w128 > 0,
                                ;
                            }
                            let scaled = (2 * h128 * m128 + w128) / (2 * w128);
                            (max_width, Some(scaled as u32))
                        }
                    } else {
                        (max_width, None)
                    }
                },
                None => (
                    if w <= max_width {
                        w
                    } else {
                        max_width
                    },
                    None,
                ),
            },
            None => (max_width, None),
        }
    }
}


/// The value that follows the first occurrence of `needle` in `src`, found
/// case-insensitively, up to the closing quote (the last character of
/// `needle`) or the end of `src`. The match position is taken as a UTF-8 byte
/// offset in the lower-cased text and applied to `src`; when it does not fall
/// on a character boundary of `src` there is no value.
pub open spec fn attr_value(src: Seq<char>, needle: Seq<char>) -> Option<Seq<char>> {
    let lower = lowercase(src);
    match find_seq(lower, needle) {
        None => None,
        Some(pos) => if needle.len() == 0 {
            None
        } else {
            match index_at_byte(src, (byte_len(lower.take(pos)) + byte_len(needle)) as int) {
                None => None,
                Some(j) => {
                    let rest = src.skip(j);
                    let end = match find_seq(rest, seq![needle.last()]) {
                        Some(e) => e,
                        None => rest.len() as int,
                    };
                    Some(rest.take(end))
                },
            }
        },
    }
}

/// The value of the `content` attribute of a tag: double-quoted first, then
/// single-quoted.
pub open spec fn content_value(tag: Seq<char>) -> Option<Seq<char>> {
    match attr_value(tag, "content=\""@) {
        Some(v) => Some(v),
        None => attr_value(tag, "content='"@),
    }
}

/// Find `needle` (case-insensitive) in `src`, then extract the value up to
/// the matching closing quote character. `lower` is the lower-cased `src`.
fn extract_attr_value(src: &Vec<char>, lower: &Vec<char>, needle: &Vec<char>) -> (r: Option<
    Vec<char>,
>)
    requires
        lower@ == lowercase(src@),
    ensures
        opt_chars(r) == attr_value(src@, needle@),
{
    let pos = match find_chars(lower, needle) {
        Some(p) => p,
        None => return None,
    };
    if needle.len() == 0 {
        return None;
    }
    let value_start = byte_len_prefix(lower, pos) + byte_len_prefix(needle, needle.len());
    proof {
        assert(needle@.take(needle.len() as int) =~= needle@);
    }
    let j = match index_at_byte_exec(src, value_start) {
        Some(j) => j,
        None => return None,
    };
    let rest = sub_chars(src, j, src.len());
    assert(rest@ =~= src@.skip(j as int));
    let quote = vec![needle[needle.len() - 1]];
    assert(quote@ =~= seq![needle@.last()]);
    let end = match find_chars(&rest, &quote) {
        Some(e) => e,
        None => rest.len(),
    };
    let value = sub_chars(&rest, 0, end);
    assert(value@ =~= rest@.take(end as int));
    Some(value)
}

/// Extract the value of the `content` attribute from a tag. Handles both
/// double-quote and single-quote delimiters.
fn extract_content(tag: &Vec<char>, lower: &Vec<char>) -> (r: Option<Vec<char>>)
    requires
        lower@ == lowercase(tag@),
    ensures
        opt_chars(r) == content_value(tag@),
{
    let double = chars_of("content=\"");
    if let Some(v) = extract_attr_value(tag, lower, &double) {
        return Some(v);
    }
    let single = chars_of("content='");
    extract_attr_value(tag, lower, &single)
}


/// The text of `line` after its first `<title>` tag. The tag is found in the
/// lower-cased line and its end, as a UTF-8 byte offset there, is applied to
/// `line`; when that offset is no character boundary of `line` there is none.
pub open spec fn title_rest(line: Seq<char>) -> Option<Seq<char>> {
    let lower = lowercase(line);
    match find_seq(lower, "<title>"@) {
        None => None,
        Some(p) => match index_at_byte(line, (byte_len(lower.take(p)) + byte_len("<title>"@)) as int) {
            None => None,
            Some(j) => Some(line.skip(j)),
        },
    }
}

/// Byte offset of the first `</title>` in the lower-cased `rest`, or the byte
/// length of `rest` when there is none.
pub open spec fn title_end_byte(rest: Seq<char>) -> int {
    let lr = lowercase(rest);
    match find_seq(lr, "</title>"@) {
        Some(k) => byte_len(lr.take(k)) as int,
        None => byte_len(rest) as int,
    }
}

/// Extracting the `<title>` text of `line` would slice `rest` at a byte
/// offset that is no character boundary of it (which panics). This happens
/// only where lower-casing changes the UTF-8 length of the text.
pub open spec fn title_tag_panics(line: Seq<char>) -> bool {
    match title_rest(line) {
        Some(rest) => index_at_byte(rest, title_end_byte(rest)) is None,
        None => false,
    }
}

/// The trimmed text between `<title>` and `</title>` within `line`, if it is
/// not empty.
pub open spec fn title_tag_value(line: Seq<char>) -> Option<Seq<char>> {
    match title_rest(line) {
        None => None,
        Some(rest) => match index_at_byte(rest, title_end_byte(rest)) {
            None => None,
            Some(m) => {
                let c = trim(rest.take(m));
                if c.len() == 0 {
                    None
                } else {
                    Some(c)
                }
            },
        },
    }
}

fn title_rest_exec(line: &Vec<char>, lower: &Vec<char>) -> (r: Option<Vec<char>>)
    requires
        lower@ == lowercase(line@),
    ensures
        opt_chars(r) == title_rest(line@),
{
    let start_tag = chars_of("<title>");
    let p = match find_chars(lower, &start_tag) {
        Some(p) => p,
        None => return None,
    };
    let start = byte_len_prefix(lower, p) + byte_len_prefix(&start_tag, start_tag.len());
    assert(start_tag@.take(start_tag.len() as int) =~= start_tag@);
    match index_at_byte_exec(line, start) {
        Some(j) => {
            let rest = sub_chars(line, j, line.len());
            assert(rest@ =~= line@.skip(j as int));
            Some(rest)
        },
        None => None,
    }
}

/// Character index in `rest` at which the title text ends, if that byte
/// offset is a character boundary of `rest`.
fn title_content_end(rest: &Vec<char>) -> (r: Option<usize>)
    ensures
        match r {
            Some(m) => index_at_byte(rest@, title_end_byte(rest@)) == Some(m as int),
            None => index_at_byte(rest@, title_end_byte(rest@)) is None,
        },
        r matches Some(m) ==> m <= rest@.len(),
{
    let lr = to_lowercase(rest);
    let end_tag = chars_of("</title>");
    let end = match find_chars(&lr, &end_tag) {
        Some(k) => byte_len_prefix(&lr, k),
        None => {
            assert(rest@.take(rest.len() as int) =~= rest@);
            byte_len_prefix(rest, rest.len())
        },
    };
    index_at_byte_exec(rest, end)
}

/// Extract text content between `<title>` and `</title>` within a single
/// line.
fn extract_title_tag(line: &Vec<char>, lower: &Vec<char>) -> (r: Option<Vec<char>>)
    requires
        lower@ == lowercase(line@),
        !title_tag_panics(line@),
    ensures
        opt_chars(r) == title_tag_value(line@),
{
    let rest = match title_rest_exec(line, lower) {
        Some(rest) => rest,
        None => return None,
    };
    let m = match title_content_end(&rest) {
        Some(m) => m,
        None => return None,
    };
    let head = sub_chars(&rest, 0, m);
    assert(head@ =~= rest@.take(m as int));
    let content = trim_chars(&head);
    if content.len() == 0 {
        None
    } else {
        Some(content)
    }
}

/// Whether extracting the `<title>` text of `line` would slice it at a byte
/// offset that is no character boundary.
fn title_tag_panics_exec(line: &Vec<char>, lower: &Vec<char>) -> (b: bool)
    requires
        lower@ == lowercase(line@),
    ensures
        b == title_tag_panics(line@),
{
    match title_rest_exec(line, lower) {
        Some(rest) => title_content_end(&rest).is_none(),
        None => false,
    }
}


/// A preview field that holds text, in the order in which the fields are
/// looked for on each line.
#[derive(Clone, Copy, PartialEq, Eq, Debug)]
pub enum TextField {
    OgTitle,
    TwitterTitle,
    HtmlTitle,
    OgDescription,
    TwitterDescription,
    MetaDescription,
    OgImage,
    TwitterImage,
    OgSiteName,
}

/// A preview field that holds a number of pixels.
#[derive(Clone, Copy, PartialEq, Eq, Debug)]
pub enum NumField {
    ImageWidth,
    ImageHeight,
}

/// The attribute texts (in the lower-cased line) that mark a `<meta>` tag as
/// carrying `f`.
pub open spec fn text_keys(f: TextField) -> Seq<Seq<char>> {
    match f {
        TextField::OgTitle => seq!["property=\"og:title\""@, "property='og:title'"@],
        TextField::TwitterTitle => seq![
            "name=\"twitter:title\""@,
            "name='twitter:title'"@,
            "property=\"twitter:title\""@,
            "property='twitter:title'"@,
        ],
        TextField::HtmlTitle => Seq::empty(),
        TextField::OgDescription => seq!["property=\"og:description\""@, "property='og:description'"@],
        TextField::TwitterDescription => seq![
            "name=\"twitter:description\""@,
            "name='twitter:description'"@,
            "property=\"twitter:description\""@,
            "property='twitter:description'"@,
        ],
        TextField::MetaDescription => seq!["name=\"description\""@, "name='description'"@],
        TextField::OgImage => seq!["property=\"og:image\""@, "property='og:image'"@],
        TextField::TwitterImage => seq![
            "name=\"twitter:image\""@,
            "name='twitter:image'"@,
            "property=\"twitter:image\""@,
            "property='twitter:image'"@,
        ],
        TextField::OgSiteName => seq!["property=\"og:site_name\""@, "property='og:site_name'"@],
    }
}

/// The attribute texts that mark a `<meta>` tag as carrying `f`.
pub open spec fn num_keys(f: NumField) -> Seq<Seq<char>> {
    match f {
        NumField::ImageWidth => seq!["property=\"og:image:width\""@, "property='og:image:width'"@],
        NumField::ImageHeight => seq!["property=\"og:image:height\""@, "property='og:image:height'"@],
    }
}

/// Some key of `keys` occurs in `lower`.
pub open spec fn any_contained(lower: Seq<char>, keys: Seq<Seq<char>>) -> bool {
    exists|i: int| 0 <= i < keys.len() && contains_seq(lower, #[trigger] keys[i])
}

/// The `content` value of `line` when it is a `<meta>` tag with one of `keys`.
pub open spec fn meta_value(line: Seq<char>, keys: Seq<Seq<char>>) -> Option<Seq<char>> {
    let lower = lowercase(line);
    if contains_seq(lower, "<meta"@) && any_contained(lower, keys) {
        content_value(line)
    } else {
        None
    }
}

/// The value that `line` gives for `f`, if any.
pub open spec fn text_hit(f: TextField, line: Seq<char>) -> Option<Seq<char>> {
    match f {
        TextField::HtmlTitle => if contains_seq(lowercase(line), "<title>"@) {
            title_tag_value(line)
        } else {
            None
        },
        _ => meta_value(line, text_keys(f)),
    }
}

/// The number that `line` gives for `f`, if any: the trimmed `content`
/// value parsed as a `u32`.
pub open spec fn num_hit(f: NumField, line: Seq<char>) -> Option<u32> {
    match meta_value(line, num_keys(f)) {
        Some(v) => parse_u32_spec(trim(v)),
        None => None,
    }
}

/// The value for `f` on the first of `ls` that gives one.
pub open spec fn first_text(ls: Seq<Seq<char>>, f: TextField) -> Option<Seq<char>>
    decreases ls.len(),
{
    if ls.len() == 0 {
        None
    } else {
        match first_text(ls.drop_last(), f) {
            Some(v) => Some(v),
            None => text_hit(f, ls.last()),
        }
    }
}

/// The number for `f` on the first of `ls` that gives one.
pub open spec fn first_num(ls: Seq<Seq<char>>, f: NumField) -> Option<u32>
    decreases ls.len(),
{
    if ls.len() == 0 {
        None
    } else {
        match first_num(ls.drop_last(), f) {
            Some(v) => Some(v),
            None => num_hit(f, ls.last()),
        }
    }
}

/// Extracting the `<title>` text of `line` would panic.
pub open spec fn line_panics(line: Seq<char>) -> bool {
    contains_seq(lowercase(line), "<title>"@) && title_tag_panics(line)
}

/// Parsing `html` would slice a line at a byte offset that is no character
/// boundary (possible only where lower-casing changes UTF-8 lengths).
pub open spec fn preview_panics(html: Seq<char>) -> bool {
    exists|i: int| 0 <= i < lines_of(html).len() && line_panics(#[trigger] lines_of(html)[i])
}

/// The abstract content of a `LinkPreview`.
pub struct LinkPreviewView {
    pub url: Seq<char>,
    pub title: Option<Seq<char>>,
    pub description: Option<Seq<char>>,
    pub image_url: Option<Seq<char>>,
    pub site_name: Option<Seq<char>>,
    pub image_width: Option<u32>,
    pub image_height: Option<u32>,
}

impl View for LinkPreview {
    type V = LinkPreviewView;

    open spec fn view(&self) -> LinkPreviewView {
        LinkPreviewView {
            url: self.url@,
            title: opt_string(self.title),
            description: opt_string(self.description),
            image_url: opt_string(self.image_url),
            site_name: opt_string(self.site_name),
            image_width: self.image_width,
            image_height: self.image_height,
        }
    }
}

/// The preview that `html` gives for `url`. Each field is taken from the
/// first line that carries it, with this priority:
///   title:       og:title > twitter:title > `<title>`
///   description: og:description > twitter:description > meta[name=description]
///   image:       og:image > twitter:image
///   site_name:   og:site_name
pub open spec fn parsed_preview(url: Seq<char>, html: Seq<char>) -> LinkPreviewView {
    let ls = lines_of(html);
    LinkPreviewView {
        url: url,
        title: or_else(
            or_else(first_text(ls, TextField::OgTitle), first_text(ls, TextField::TwitterTitle)),
            first_text(ls, TextField::HtmlTitle),
        ),
        description: or_else(
            or_else(
                first_text(ls, TextField::OgDescription),
                first_text(ls, TextField::TwitterDescription),
            ),
            first_text(ls, TextField::MetaDescription),
        ),
        image_url: or_else(first_text(ls, TextField::OgImage), first_text(ls, TextField::TwitterImage)),
        site_name: first_text(ls, TextField::OgSiteName),
        image_width: first_num(ls, NumField::ImageWidth),
        image_height: first_num(ls, NumField::ImageHeight),
    }
}

fn text_keys_exec(f: TextField) -> (v: Vec<Vec<char>>)
    ensures
        views(v@) == text_keys(f),
{
    let v = match f {
        TextField::OgTitle => vec![chars_of("property=\"og:title\""), chars_of("property='og:title'")],
        TextField::TwitterTitle => vec![
            chars_of("name=\"twitter:title\""),
            chars_of("name='twitter:title'"),
            chars_of("property=\"twitter:title\""),
            chars_of("property='twitter:title'"),
        ],
        TextField::HtmlTitle => Vec::new(),
        TextField::OgDescription => vec![
            chars_of("property=\"og:description\""),
            chars_of("property='og:description'"),
        ],
        TextField::TwitterDescription => vec![
            chars_of("name=\"twitter:description\""),
            chars_of("name='twitter:description'"),
            chars_of("property=\"twitter:description\""),
            chars_of("property='twitter:description'"),
        ],
        TextField::MetaDescription => vec![
            chars_of("name=\"description\""),
            chars_of("name='description'"),
        ],
        TextField::OgImage => vec![chars_of("property=\"og:image\""), chars_of("property='og:image'")],
        TextField::TwitterImage => vec![
            chars_of("name=\"twitter:image\""),
            chars_of("name='twitter:image'"),
            chars_of("property=\"twitter:image\""),
            chars_of("property='twitter:image'"),
        ],
        TextField::OgSiteName => vec![
            chars_of("property=\"og:site_name\""),
            chars_of("property='og:site_name'"),
        ],
    };
    assert(views(v@) =~= text_keys(f));
    v
}

fn num_keys_exec(f: NumField) -> (v: Vec<Vec<char>>)
    ensures
        views(v@) == num_keys(f),
{
    let v = match f {
        NumField::ImageWidth => vec![
            chars_of("property=\"og:image:width\""),
            chars_of("property='og:image:width'"),
        ],
        NumField::ImageHeight => vec![
            chars_of("property=\"og:image:height\""),
            chars_of("property='og:image:height'"),
        ],
    };
    assert(views(v@) =~= num_keys(f));
    v
}

fn any_contained_exec(lower: &Vec<char>, keys: &Vec<Vec<char>>) -> (b: bool)
    ensures
        b == any_contained(lower@, views(keys@)),
{
    let mut i: usize = 0;
    while i < keys.len()
        invariant
            i <= keys.len(),
            forall|j: int| 0 <= j < i ==> !contains_seq(lower@, #[trigger] views(keys@)[j]),
        decreases keys.len() - i,
    {
        if contains_chars(lower, &keys[i]) {
            assert(contains_seq(lower@, views(keys@)[i as int]));
            return true;
        }
        i = i + 1;
    }
    false
}

fn meta_value_exec(line: &Vec<char>, lower: &Vec<char>, is_meta: bool, keys: &Vec<Vec<char>>) -> (r:
    Option<Vec<char>>)
    requires
        lower@ == lowercase(line@),
        is_meta == contains_seq(lower@, "<meta"@),
    ensures
        opt_chars(r) == meta_value(line@, views(keys@)),
{
    if is_meta && any_contained_exec(lower, keys) {
        extract_content(line, lower)
    } else {
        None
    }
}

fn text_hit_exec(f: TextField, line: &Vec<char>, lower: &Vec<char>, is_meta: bool) -> (r: Option<
    Vec<char>,
>)
    requires
        lower@ == lowercase(line@),
        is_meta == contains_seq(lower@, "<meta"@),
        !line_panics(line@),
    ensures
        opt_chars(r) == text_hit(f, line@),
{
    match f {
        TextField::HtmlTitle => {
            let title_pat = chars_of("<title>");
            if contains_chars(lower, &title_pat) {
                extract_title_tag(line, lower)
            } else {
                None
            }
        },
        _ => {
            let keys = text_keys_exec(f);
            meta_value_exec(line, lower, is_meta, &keys)
        },
    }
}

fn num_hit_exec(f: NumField, line: &Vec<char>, lower: &Vec<char>, is_meta: bool) -> (r: Option<u32>)
    requires
        lower@ == lowercase(line@),
        is_meta == contains_seq(lower@, "<meta"@),
    ensures
        r == num_hit(f, line@),
{
    let keys = num_keys_exec(f);
    match meta_value_exec(line, lower, is_meta, &keys) {
        Some(v) => parse_u32(&trim_chars(&v)),
        None => None,
    }
}


/// The text field looked for in position `k` (of nine) on each line.
pub open spec fn text_field_at(k: int) -> TextField {
    if k == 0 {
        TextField::OgTitle
    } else if k == 1 {
        TextField::TwitterTitle
    } else if k == 2 {
        TextField::HtmlTitle
    } else if k == 3 {
        TextField::OgDescription
    } else if k == 4 {
        TextField::TwitterDescription
    } else if k == 5 {
        TextField::MetaDescription
    } else if k == 6 {
        TextField::OgImage
    } else if k == 7 {
        TextField::TwitterImage
    } else {
        TextField::OgSiteName
    }
}

fn text_field_at_exec(k: usize) -> (f: TextField)
    ensures
        f == text_field_at(k as int),
{
    if k == 0 {
        TextField::OgTitle
    } else if k == 1 {
        TextField::TwitterTitle
    } else if k == 2 {
        TextField::HtmlTitle
    } else if k == 3 {
        TextField::OgDescription
    } else if k == 4 {
        TextField::TwitterDescription
    } else if k == 5 {
        TextField::MetaDescription
    } else if k == 6 {
        TextField::OgImage
    } else if k == 7 {
        TextField::TwitterImage
    } else {
        TextField::OgSiteName
    }
}

proof fn lemma_first_text_step(ls: Seq<Seq<char>>, i: int, f: TextField)
    requires
        0 <= i < ls.len(),
    ensures
        first_text(ls.take(i + 1), f) == or_else(first_text(ls.take(i), f), text_hit(f, ls[i])),
{
    assert(ls.take(i + 1).drop_last() =~= ls.take(i));
}

proof fn lemma_first_num_step(ls: Seq<Seq<char>>, i: int, f: NumField)
    requires
        0 <= i < ls.len(),
    ensures
        first_num(ls.take(i + 1), f) == or_else(first_num(ls.take(i), f), num_hit(f, ls[i])),
{
    assert(ls.take(i + 1).drop_last() =~= ls.take(i));
}

fn opt_to_string(o: &Option<Vec<char>>) -> (r: Option<String>)
    ensures
        opt_string(r) == opt_chars(*o),
{
    match o {
        Some(v) => Some(string_from_chars(v)),
        None => None,
    }
}

fn or_else_string(a: Option<String>, b: Option<String>) -> (r: Option<String>)
    ensures
        opt_string(r) == or_else(opt_string(a), opt_string(b)),
{
    match a {
        Some(x) => Some(x),
        None => b,
    }
}

/// Parse Open Graph and standard `<meta>` / `<title>` tags from raw HTML.
///
/// Priority order for each field:
///   title:       og:title > twitter:title > `<title>`
///   description: og:description > twitter:description > meta[name=description]
///   image:       og:image > twitter:image
///   site_name:   og:site_name
///
/// This is a minimal line-by-line parser: it scans each line for `<meta`
/// and `<title>` tags using string matching on the lower-cased line.
pub fn parse_preview(url: &str, html: &str) -> (r: LinkPreview)
    requires
        !preview_panics(html@),
    ensures
        r@ == parsed_preview(url@, html@),
{
    let text = chars_of(html);
    let ls = lines(&text);
    let ghost all = lines_of(html@);
    let meta_pat = chars_of("<meta");
    let mut hits: Vec<Option<Vec<char>>> = Vec::new();
    let mut k: usize = 0;
    while k < 9
        invariant
            k <= 9,
            hits.len() == k,
            forall|m: int| 0 <= m < k ==> #[trigger] hits@[m] is None,
        decreases 9 - k,
    {
        hits.push(None);
        k = k + 1;
    }
    let mut width: Option<u32> = None;
    let mut height: Option<u32> = None;
    let mut i: usize = 0;
    while i < ls.len()
        invariant
            i <= ls.len(),
            views(ls@) == all,
            all == lines_of(html@),
            !preview_panics(html@),
            meta_pat@ == "<meta"@,
            hits.len() == 9,
            forall|m: int|
                0 <= m < 9 ==> opt_chars(#[trigger] hits@[m]) == first_text(
                    all.take(i as int),
                    text_field_at(m),
                ),
            width == first_num(all.take(i as int), NumField::ImageWidth),
            height == first_num(all.take(i as int), NumField::ImageHeight),
        decreases ls.len() - i,
    {
        let line = &ls[i];
        assert(line@ == all[i as int]);
        assert(!line_panics(all[i as int]));
        let lower = to_lowercase(line);
        let is_meta = contains_chars(&lower, &meta_pat);
        let mut k: usize = 0;
        while k < 9
            invariant
                k <= 9,
                i < all.len(),
                line@ == all[i as int],
                lower@ == lowercase(line@),
                is_meta == contains_seq(lower@, "<meta"@),
                !line_panics(line@),
                hits.len() == 9,
                forall|m: int|
                    0 <= m < k ==> opt_chars(#[trigger] hits@[m]) == first_text(
                        all.take(i + 1),
                        text_field_at(m),
                    ),
                forall|m: int|
                    k <= m < 9 ==> opt_chars(#[trigger] hits@[m]) == first_text(
                        all.take(i as int),
                        text_field_at(m),
                    ),
            decreases 9 - k,
        {
            let f = text_field_at_exec(k);
            proof {
                lemma_first_text_step(all, i as int, f);
            }
            if hits[k].is_none() {
                let v = text_hit_exec(f, line, &lower, is_meta);
                hits.set(k, v);
            }
            k = k + 1;
        }
        proof {
            lemma_first_num_step(all, i as int, NumField::ImageWidth);
            lemma_first_num_step(all, i as int, NumField::ImageHeight);
        }
        if width.is_none() {
            width = num_hit_exec(NumField::ImageWidth, line, &lower, is_meta);
        }
        if height.is_none() {
            height = num_hit_exec(NumField::ImageHeight, line, &lower, is_meta);
        }
        i = i + 1;
    }
    assert(all.take(ls.len() as int) =~= all);
    let og_title = opt_to_string(&hits[0]);
    let tw_title = opt_to_string(&hits[1]);
    let html_title = opt_to_string(&hits[2]);
    let og_description = opt_to_string(&hits[3]);
    let tw_description = opt_to_string(&hits[4]);
    let meta_description = opt_to_string(&hits[5]);
    let og_image = opt_to_string(&hits[6]);
    let tw_image = opt_to_string(&hits[7]);
    let og_site_name = opt_to_string(&hits[8]);
    LinkPreview {
        url: string_from_chars(&chars_of(url)),
        title: or_else_string(or_else_string(og_title, tw_title), html_title),
        description: or_else_string(or_else_string(og_description, tw_description), meta_description),
        image_url: or_else_string(og_image, tw_image),
        site_name: og_site_name,
        image_width: width,
        image_height: height,
    }
}

/// Whether parsing `html` would slice a line at a byte offset that is no
/// character boundary.
pub fn preview_would_panic(html: &str) -> (b: bool)
    ensures
        b == preview_panics(html@),
{
    let text = chars_of(html);
    let ls = lines(&text);
    let ghost all = lines_of(html@);
    let title_pat = chars_of("<title>");
    let mut i: usize = 0;
    while i < ls.len()
        invariant
            i <= ls.len(),
            views(ls@) == all,
            all == lines_of(html@),
            title_pat@ == "<title>"@,
            forall|j: int| 0 <= j < i ==> !line_panics(#[trigger] all[j]),
        decreases ls.len() - i,
    {
        let line = &ls[i];
        assert(line@ == all[i as int]);
        let lower = to_lowercase(line);
        if contains_chars(&lower, &title_pat) && title_tag_panics_exec(line, &lower) {
            assert(line_panics(all[i as int]));
            return true;
        }
        i = i + 1;
    }
    false
}

/// `parse_preview`, or `None` on the inputs on which it would panic.
pub fn try_parse_preview(url: &str, html: &str) -> (r: Option<LinkPreview>)
    ensures
        r is None <==> preview_panics(html@),
        r matches Some(p) ==> p@ == parsed_preview(url@, html@),
{
    if preview_would_panic(html) {
        None
    } else {
        Some(parse_preview(url, html))
    }
}


/// The displayed height differs from the exact `h * max_width / w` by at
/// most half a pixel: the aspect ratio is kept up to rounding.
pub proof fn lemma_display_keeps_aspect_ratio(w: u32, h: u32, max_width: u32)
    requires
        w > 0,
        h > 0,
        max_width < w,
    ensures
        ({
            let dh = display_dimensions_spec(Some(w), Some(h), max_width).1->0 as int;
            &&& display_dimensions_spec(Some(w), Some(h), max_width).0 == max_width
            &&& 2 * dh * w <= 2 * h * max_width + w
            &&& 2 * h * max_width < 2 * dh * w + w
        }),
{
    let n = 2 * h * max_width + w;
    let d = 2 * w;
    let q = n / d;
    assert(q * d <= n < q * d + d) by (nonlinear_arith)
        requires
            d > 0,
            q == n / d,
    ;
    assert(q <= h) by (nonlinear_arith)
        requires
            q == (2 * h * max_width + w) / (2 * w),
            max_width < w,
            w > 0,
    ;
    assert(2 * q * w == q * d) by (nonlinear_arith)
        requires
            d == 2 * w,
    ;
    assert(q == scaled_height(h, w, max_width));
    assert((q as u32) as int == q);
    assert(display_dimensions_spec(Some(w), Some(h), max_width).1->0 as int == q);
}

/// The title of a preview comes from `og:title` whenever some line carries
/// one, whatever `twitter:title` or `<title>` say.
pub proof fn lemma_og_title_wins(url: Seq<char>, html: Seq<char>)
    requires
        first_text(lines_of(html), TextField::OgTitle) is Some,
    ensures
        parsed_preview(url, html).title == first_text(lines_of(html), TextField::OgTitle),
{
}

/// No line gives a value for `f`: then no value is found.
proof fn lemma_first_text_none(ls: Seq<Seq<char>>, f: TextField)
    requires
        forall|j: int| 0 <= j < ls.len() ==> (#[trigger] text_hit(f, ls[j])) is None,
    ensures
        first_text(ls, f) is None,
    decreases ls.len(),
{
    if ls.len() > 0 {
        assert forall|j: int| 0 <= j < ls.drop_last().len() implies (#[trigger] text_hit(
            f,
            ls.drop_last()[j],
        )) is None by {
            assert(ls.drop_last()[j] == ls[j]);
        }
        lemma_first_text_none(ls.drop_last(), f);
        assert(text_hit(f, ls[ls.len() - 1]) is None);
    }
}

/// Line `i` is the first line that gives a value for `f`: then that value is
/// the one found.
proof fn lemma_first_text_is_first_hit(ls: Seq<Seq<char>>, f: TextField, i: int)
    requires
        0 <= i < ls.len(),
        text_hit(f, ls[i]) is Some,
        forall|j: int| 0 <= j < i ==> (#[trigger] text_hit(f, ls[j])) is None,
    ensures
        first_text(ls, f) == text_hit(f, ls[i]),
    decreases ls.len(),
{
    let init = ls.drop_last();
    if i == ls.len() - 1 {
        assert forall|j: int| 0 <= j < init.len() implies (#[trigger] text_hit(f, init[j])) is None by {
            assert(init[j] == ls[j]);
        }
        lemma_first_text_none(init, f);
    } else {
        assert(init[i] == ls[i]);
        assert forall|j: int| 0 <= j < i implies (#[trigger] text_hit(f, init[j])) is None by {
            assert(init[j] == ls[j]);
        }
        lemma_first_text_is_first_hit(init, f, i);
    }
}

/// The description of a preview is the `og:description` value of the first
/// line that carries one, whatever `twitter:description` or the plain
/// `description` meta tag say.
pub proof fn lemma_og_description_wins(url: Seq<char>, html: Seq<char>, i: int)
    requires
        0 <= i < lines_of(html).len(),
        text_hit(TextField::OgDescription, lines_of(html)[i]) is Some,
        forall|j: int|
            0 <= j < i ==> (#[trigger] text_hit(TextField::OgDescription, lines_of(html)[j])) is None,
    ensures
        parsed_preview(url, html).description == text_hit(
            TextField::OgDescription,
            lines_of(html)[i],
        ),
{
    lemma_first_text_is_first_hit(lines_of(html), TextField::OgDescription, i);
}

/// Without any `og:description`, the description is the `twitter:description`
/// value of the first line that carries one, whatever the plain `description`
/// meta tag says.
pub proof fn lemma_twitter_description_outranks_meta(url: Seq<char>, html: Seq<char>, i: int)
    requires
        forall|j: int|
            0 <= j < lines_of(html).len() ==> (#[trigger] text_hit(
                TextField::OgDescription,
                lines_of(html)[j],
            )) is None,
        0 <= i < lines_of(html).len(),
        text_hit(TextField::TwitterDescription, lines_of(html)[i]) is Some,
        forall|j: int|
            0 <= j < i ==> (#[trigger] text_hit(TextField::TwitterDescription, lines_of(html)[j]))
                is None,
    ensures
        parsed_preview(url, html).description == text_hit(
            TextField::TwitterDescription,
            lines_of(html)[i],
        ),
{
    lemma_first_text_none(lines_of(html), TextField::OgDescription);
    lemma_first_text_is_first_hit(lines_of(html), TextField::TwitterDescription, i);
}

/// The image of a preview is the `og:image` value of the first line that
/// carries one, whatever `twitter:image` says.
pub proof fn lemma_og_image_wins(url: Seq<char>, html: Seq<char>, i: int)
    requires
        0 <= i < lines_of(html).len(),
        text_hit(TextField::OgImage, lines_of(html)[i]) is Some,
        forall|j: int|
            0 <= j < i ==> (#[trigger] text_hit(TextField::OgImage, lines_of(html)[j])) is None,
    ensures
        parsed_preview(url, html).image_url == text_hit(TextField::OgImage, lines_of(html)[i]),
{
    lemma_first_text_is_first_hit(lines_of(html), TextField::OgImage, i);
}

} // verus!
