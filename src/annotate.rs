use vstd::prelude::*;

verus! {

/// ASCII letters and digits.
pub open spec fn ascii_alphanumeric(c: char) -> bool {
    ('a' <= c && c <= 'z') || ('A' <= c && c <= 'Z') || ('0' <= c && c <= '9')
}

/// ASCII punctuation: the printable ASCII characters that are neither
/// letters, digits nor the space.
pub open spec fn ascii_punctuation(c: char) -> bool {
    ('!' <= c && c <= '/') || (':' <= c && c <= '@') || ('[' <= c && c <= '`') || ('{' <= c
        && c <= '~')
}

/// Characters allowed in the payload of a `data:` image reference.
pub open spec fn uri_char(c: char) -> bool {
    &&& ascii_alphanumeric(c) || ascii_punctuation(c)
    &&& c != '"' && c != '%' && c != '<' && c != '>' && c != '['
    &&& c != '\\' && c != ']' && c != '^' && c != '`' && c != '{'
    &&& c != '|' && c != '}'
}

/// Whether `c` may appear in the payload of a `data:` image reference.
pub fn is_uri_char(c: char) -> (r: bool)
    ensures
        r == uri_char(c),
{
    let alnum = ('a' <= c && c <= 'z') || ('A' <= c && c <= 'Z') || ('0' <= c && c <= '9');
    let punct = ('!' <= c && c <= '/') || (':' <= c && c <= '@') || ('[' <= c && c <= '`') || (
    '{' <= c && c <= '~');
    (alnum || punct) && c != '"' && c != '%' && c != '<' && c != '>' && c != '[' && c != '\\'
        && c != ']' && c != '^' && c != '`' && c != '{' && c != '|' && c != '}'
}

/// Whether `pat` occurs in `s` starting at index `at`.
pub open spec fn occurs_at(s: Seq<char>, at: int, pat: Seq<char>) -> bool {
    0 <= at && at + pat.len() <= s.len() && s.subrange(at, at + pat.len()) == pat
}

/// Whether `s` ends with `suffix`.
pub open spec fn ends_with(s: Seq<char>, suffix: Seq<char>) -> bool {
    occurs_at(s, s.len() - suffix.len(), suffix)
}

/// The characters of `s`, one by one.
fn chars_of(s: &str) -> (r: Vec<char>)
    ensures
        r@ == s@,
{
    let mut r: Vec<char> = Vec::new();
    for c in it: s.chars()
        invariant
            r@ == it.seq().take(it.index() as int),
            it.seq() == s@,
    {
        r.push(c);
    }
    r
}

/// Whether `pat` occurs in `v` starting at index `at`.
fn has_at(v: &Vec<char>, at: usize, pat: &Vec<char>) -> (r: bool)
    ensures
        r == occurs_at(v@, at as int, pat@),
{
    if pat.len() > v.len() || at > v.len() - pat.len() {
        return false;
    }
    let mut i: usize = 0;
    while i < pat.len()
        invariant
            i <= pat.len(),
            at + pat.len() <= v.len(),
            forall|j: int| 0 <= j < i ==> v@[at + j] == pat@[j],
        decreases pat.len() - i,
    {
        if v[at + i] != pat[i] {
            return false;
        }
        i = i + 1;
    }
    assert(v@.subrange(at as int, at + pat.len()) =~= pat@);
    true
}

/// The prefix that every `data:` image reference starts with.
pub open spec fn data_image_prefix() -> Seq<char> {
    seq!['d', 'a', 't', 'a', ':', 'i', 'm', 'a', 'g', 'e', '/']
}

/// The marker that follows the `;` of a `data:` image reference.
pub open spec fn base64_marker() -> Seq<char> {
    seq!['b', 'a', 's', 'e', '6', '4', ',']
}

/// `p` is the index of the first `;` at or after index 10 (the slash that
/// ends `data:image/`); the media subtype lies between that slash and `p`.
pub open spec fn first_semicolon_at(s: Seq<char>, p: int) -> bool {
    &&& 10 <= p < s.len()
    &&& s[p] == ';'
    &&& forall|j: int| 10 <= j < p ==> s[j] != ';'
}

/// With its first `;` at `p`, `s` has a short enough media subtype, the
/// base64 marker right after the `;`, and only URI characters after that.
pub open spec fn data_image_at(s: Seq<char>, p: int) -> bool {
    &&& first_semicolon_at(s, p)
    &&& p - 11 <= 10
    &&& occurs_at(s, p + 1, base64_marker())
    &&& forall|i: int| p + 8 <= i < s.len() ==> uri_char(#[trigger] s[i])
}

/// `s` is a well-formed base64 `data:` image reference.
pub open spec fn is_data_image(s: Seq<char>) -> bool {
    &&& occurs_at(s, 0, data_image_prefix())
    &&& exists|p: int| data_image_at(s, p)
}

/// Whether the characters in `v` form a base64 `data:` image reference.
fn is_data_image_chars(v: &Vec<char>) -> (r: bool)
    ensures
        r == is_data_image(v@),
{
    let prefix: Vec<char> = vec!['d', 'a', 't', 'a', ':', 'i', 'm', 'a', 'g', 'e', '/'];
    assert(prefix@ =~= data_image_prefix());
    if !has_at(v, 0, &prefix) {
        return false;
    }
    let mut p: usize = 10;
    while p < v.len() && v[p] != ';'
        invariant
            10 <= p <= v.len(),
            forall|j: int| 10 <= j < p ==> v@[j] != ';',
        decreases v.len() - p,
    {
        p = p + 1;
    }
    if p >= v.len() || p > 21 {
        assert forall|q: int| !data_image_at(v@, q) by {
            if data_image_at(v@, q) {
                assert(q >= p ==> v@[q] != ';' || q == p);
            }
        }
        return false;
    }
    assert(first_semicolon_at(v@, p as int));
    assert forall|q: int| #[trigger] first_semicolon_at(v@, q) implies q == p by {
        if q < p {
            assert(v@[q] != ';');
        } else if q > p {
            assert(v@[p as int] != ';');
        }
    }
    let marker: Vec<char> = vec!['b', 'a', 's', 'e', '6', '4', ','];
    assert(marker@ =~= base64_marker());
    if !has_at(v, p + 1, &marker) {
        assert forall|q: int| !data_image_at(v@, q) by {
            if data_image_at(v@, q) {
                assert(first_semicolon_at(v@, q));
            }
        }
        return false;
    }
    let mut i: usize = p + 8;
    while i < v.len()
        invariant
            p + 8 <= i <= v.len(),
            forall|q: int| #[trigger] first_semicolon_at(v@, q) ==> q == p,
            forall|k: int| p + 8 <= k < i ==> uri_char(#[trigger] v@[k]),
        decreases v.len() - i,
    {
        if !is_uri_char(v[i]) {
            assert forall|q: int| !data_image_at(v@, q) by {
                if data_image_at(v@, q) {
                    assert(first_semicolon_at(v@, q));
                    assert(!uri_char(v@[i as int]));
                }
            }
            return false;
        }
        i = i + 1;
    }
    assert(data_image_at(v@, p as int));
    true
}

/// Whether `text` is accepted by the URI parser; depends on the text alone.
pub uninterp spec fn uri_accepts(text: Seq<char>) -> bool;

/// Whether the URI that `text` parses as has a scheme.
pub uninterp spec fn uri_has_scheme(text: Seq<char>) -> bool;

/// Whether the URI that `text` parses as has an authority.
pub uninterp spec fn uri_has_authority(text: Seq<char>) -> bool;

/// The path of the URI that `text` parses as.
pub uninterp spec fn uri_path_of(text: Seq<char>) -> Seq<char>;

/// The lower-case form of `text`, as Unicode defines it.
pub uninterp spec fn lower_of(text: Seq<char>) -> Seq<char>;

/// The parts of a parsed URI that the annotator reads.
pub struct UriParts {
    pub has_scheme: bool,
    pub has_authority: bool,
    pub path: String,
}

/// Relies on `FromStr` for `hyper::Uri` (http's URI parser) and, on the
/// parsed URI, on `Uri::scheme_part`, `Uri::authority_part` and `Uri::path`:
/// whether `s` parses, and those parts, depend on the text alone.
#[verifier::external_body]
fn parse_uri(s: &str) -> (r: Option<UriParts>)
    ensures
        r is Some == uri_accepts(s@),
        r matches Some(p) ==> p.has_scheme == uri_has_scheme(s@),
        r matches Some(p) ==> p.has_authority == uri_has_authority(s@),
        r matches Some(p) ==> p.path@ == uri_path_of(s@),
{
    <hyper::Uri as std::str::FromStr>::from_str(s).ok().map(
        |u| UriParts {
            has_scheme: u.scheme_part().is_some(),
            has_authority: u.authority_part().is_some(),
            path: u.path().to_string(),
        },
    )
}

/// Relies on `str::to_lowercase`: the result depends on the characters alone.
#[verifier::external_body]
fn lowercase(s: &str) -> (r: String)
    ensures
        r@ == lower_of(s@),
{
    s.to_lowercase()
}

/// The characters that Unicode gives the White_Space property.
pub open spec fn white_space(c: char) -> bool {
    ||| ('\u{9}' <= c && c <= '\u{d}')
    ||| c == ' ' || c == '\u{85}' || c == '\u{a0}' || c == '\u{1680}'
    ||| ('\u{2000}' <= c && c <= '\u{200a}')
    ||| c == '\u{2028}' || c == '\u{2029}' || c == '\u{202f}' || c == '\u{205f}'
    ||| c == '\u{3000}'
}

/// `text` without its leading white space.
pub open spec fn trim_start(text: Seq<char>) -> Seq<char>
    decreases text.len(),
{
    if text.len() > 0 && white_space(text[0]) {
        trim_start(text.drop_first())
    } else {
        text
    }
}

/// `text` without its trailing white space.
pub open spec fn trim_end(text: Seq<char>) -> Seq<char>
    decreases text.len(),
{
    if text.len() > 0 && white_space(text.last()) {
        trim_end(text.drop_last())
    } else {
        text
    }
}

/// `text` without leading and trailing white space.
pub open spec fn trim_of(text: Seq<char>) -> Seq<char> {
    trim_end(trim_start(text))
}

proof fn lemma_trim_start_ends_at_text(text: Seq<char>)
    ensures
        trim_start(text).len() == 0 || !white_space(trim_start(text)[0]),
    decreases text.len(),
{
    if text.len() > 0 && white_space(text[0]) {
        lemma_trim_start_ends_at_text(text.drop_first());
    }
}

proof fn lemma_trim_end_ends_at_text(text: Seq<char>)
    ensures
        trim_end(text).len() == 0 || !white_space(trim_end(text).last()),
    decreases text.len(),
{
    if text.len() > 0 && white_space(text.last()) {
        lemma_trim_end_ends_at_text(text.drop_last());
    }
}

proof fn lemma_trim_end_keeps_first(text: Seq<char>)
    requires
        text.len() > 0,
        !white_space(text[0]),
    ensures
        trim_end(text).len() > 0,
        trim_end(text)[0] == text[0],
    decreases text.len(),
{
    if white_space(text.last()) {
        lemma_trim_end_keeps_first(text.drop_last());
    }
}

/// Trimming a trimmed text changes nothing.
pub proof fn lemma_trim_twice(text: Seq<char>)
    ensures
        trim_of(trim_of(text)) == trim_of(text),
{
    let s = trim_start(text);
    let t = trim_of(text);
    lemma_trim_start_ends_at_text(text);
    if s.len() > 0 {
        lemma_trim_end_keeps_first(s);
    }
    lemma_trim_end_ends_at_text(s);
    assert(trim_start(t) == t);
    assert(trim_end(t) == t);
}

/// Relies on `str::trim`: `s` without the leading and trailing characters
/// that have Unicode's White_Space property.
#[verifier::external_body]
fn trim(s: &str) -> (r: &str)
    ensures
        r@ == trim_of(s@),
{
    s.trim()
}

/// Whether `s` ends, case-sensitively, in one of the image extensions.
pub open spec fn has_image_extension(s: Seq<char>) -> bool {
    ||| ends_with(s, seq!['.', 'j', 'p', 'g'])
    ||| ends_with(s, seq!['.', 'j', 'p', 'e', 'g'])
    ||| ends_with(s, seq!['.', 'p', 'n', 'g'])
}

/// `s` refers to an image: an absolute URI (with a scheme and an authority)
/// whose lower-cased path ends in an image extension, or a base64 `data:`
/// image.
pub open spec fn is_image_reference(s: Seq<char>) -> bool {
    ||| uri_accepts(s) && uri_has_scheme(s) && uri_has_authority(s) && has_image_extension(
        lower_of(uri_path_of(s)),
    )
    ||| is_data_image(s)
}

/// The markup that shows `src` as an inline image.
pub open spec fn image_markup(src: Seq<char>) -> Seq<char> {
    "<img src=\""@ + src + "\" alt=\"inline image\" />"@
}

/// What a raw chat text is displayed as: the trimmed text, wrapped as an
/// inline image when it refers to one.
pub open spec fn annotated(raw: Seq<char>) -> Seq<char> {
    let t = trim_of(raw);
    if is_image_reference(t) {
        image_markup(t)
    } else {
        t
    }
}

/// Whether `v` ends in `suffix`.
fn ends_in(v: &Vec<char>, suffix: &Vec<char>) -> (r: bool)
    ensures
        r == ends_with(v@, suffix@),
{
    if suffix.len() > v.len() {
        return false;
    }
    has_at(v, v.len() - suffix.len(), suffix)
}

/// Whether `msg` is a well-formed base64 `data:` image reference.
pub fn is_data_image_uri(msg: &str) -> (r: bool)
    ensures
        r == is_data_image(msg@),
{
    is_data_image_chars(&chars_of(msg))
}

/// Whether `s` ends, case-sensitively, in `.jpg`, `.jpeg` or `.png`.
pub fn ends_in_image_extension(s: &str) -> (r: bool)
    ensures
        r == has_image_extension(s@),
{
    let v = chars_of(s);
    let jpg: Vec<char> = vec!['.', 'j', 'p', 'g'];
    let jpeg: Vec<char> = vec!['.', 'j', 'p', 'e', 'g'];
    let png: Vec<char> = vec!['.', 'p', 'n', 'g'];
    assert(jpg@ =~= seq!['.', 'j', 'p', 'g']);
    assert(jpeg@ =~= seq!['.', 'j', 'p', 'e', 'g']);
    assert(png@ =~= seq!['.', 'p', 'n', 'g']);
    ends_in(&v, &jpg) || ends_in(&v, &jpeg) || ends_in(&v, &png)
}

/// Whether a parsed URI with these parts is an absolute image URI, given its
/// path in lower case.
pub fn is_absolute_image_uri(has_scheme: bool, has_authority: bool, lowered_path: &str) -> (r:
    bool)
    ensures
        r == (has_scheme && has_authority && has_image_extension(lowered_path@)),
{
    has_scheme && has_authority && ends_in_image_extension(lowered_path)
}

/// Whether `msg` refers to an image (see `is_image_reference`).
pub fn is_img_uri(msg: &str) -> (r: bool)
    ensures
        r == is_image_reference(msg@),
{
    match parse_uri(msg) {
        Some(parts) => {
            let lowered = lowercase(parts.path.as_str());
            if is_absolute_image_uri(parts.has_scheme, parts.has_authority, lowered.as_str()) {
                return true;
            }
        },
        None => {},
    }
    is_data_image_uri(msg)
}

/// The markup that shows `src` as an inline image.
pub fn wrap_image(src: &str) -> (r: String)
    ensures
        r@ == image_markup(src@),
{
    let mut r = String::from_str("<img src=\"");
    r.append(src);
    r.append("\" alt=\"inline image\" />");
    r
}

/// The display form of an already trimmed text: wrapped as an inline image
/// when it refers to one, else the text itself.
pub fn annotate_trimmed(t: &str) -> (r: String)
    ensures
        r@ == if is_image_reference(t@) {
            image_markup(t@)
        } else {
            t@
        },
{
    if is_img_uri(t) {
        wrap_image(t)
    } else {
        String::from_str(t)
    }
}

/// The display form of a raw chat text: trimmed, and wrapped as an inline
/// image when it refers to one.
pub fn annotate_message(msg: &str) -> (r: String)
    ensures
        r@ == annotated(msg@),
        is_image_reference(trim_of(msg@)) ==> r@ == image_markup(trim_of(msg@)),
        !is_image_reference(trim_of(msg@)) ==> r@ == trim_of(msg@),
{
    annotate_trimmed(trim(msg))
}

/// Text that does not refer to an image is shown as it is, only trimmed.
pub proof fn lemma_non_image_is_trimmed(raw: Seq<char>)
    requires
        !is_image_reference(trim_of(raw)),
    ensures
        annotated(raw) == trim_of(raw),
{
}

/// The annotation depends on the text alone: equal texts are annotated
/// alike, whenever and however often it is done.
pub proof fn lemma_annotation_is_deterministic(a: Seq<char>, b: Seq<char>)
    requires
        a == b,
    ensures
        annotated(a) == annotated(b),
{
}

} // verus!
