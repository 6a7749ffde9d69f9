use vstd::prelude::*;

use crate::text::{
    chars_to_string, normalize_chars, normalize_spec, split_lines, split_lines_chars, str_to_chars,
    subrange_chars, views_of,
};

verus! {

/// Whether `p` occurs in `s` starting at index `i`.
pub open spec fn matches_at(s: Seq<char>, p: Seq<char>, i: int) -> bool {
    0 <= i && i + p.len() <= s.len() && s.subrange(i, i + p.len() as int) == p
}

/// The index of the first occurrence of `p` in `s`, or `-1` if there is
/// none. The empty pattern occurs at index zero.
pub open spec fn find_sub(s: Seq<char>, p: Seq<char>) -> int
    decreases s.len(),
{
    if p.len() == 0 {
        0
    } else if s.len() < p.len() {
        -1
    } else if s.subrange(0, p.len() as int) == p {
        0
    } else {
        let r = find_sub(s.subrange(1, s.len() as int), p);
        if r < 0 {
            -1
        } else {
            1 + r
        }
    }
}

proof fn lemma_find_sub(s: Seq<char>, p: Seq<char>)
    requires
        p.len() > 0,
    ensures
        find_sub(s, p) >= 0 ==> matches_at(s, p, find_sub(s, p)),
        forall|k: int|
            0 <= k && (find_sub(s, p) < 0 || k < find_sub(s, p)) ==> !(#[trigger] matches_at(
                s,
                p,
                k,
            )),
    decreases s.len(),
{
    if s.len() < p.len() {
    } else if s.subrange(0, p.len() as int) == p {
    } else {
        let t = s.subrange(1, s.len() as int);
        lemma_find_sub(t, p);
        assert forall|k: int| 1 <= k && k + p.len() <= s.len() implies (matches_at(s, p, k)
            <==> matches_at(t, p, k - 1)) by {
            assert(s.subrange(k, k + p.len() as int) =~= t.subrange(
                k - 1,
                k - 1 + p.len() as int,
            ));
        }
        let r = find_sub(t, p);
        if r >= 0 {
            assert(matches_at(t, p, r));
            assert(matches_at(s, p, r + 1));
            assert forall|k: int| 0 <= k < r + 1 implies !matches_at(s, p, k) by {
                if k == 0 {
                    assert(s.subrange(0, p.len() as int) != p);
                } else {
                    assert(!matches_at(t, p, k - 1));
                }
            }
        } else {
            assert forall|k: int| 0 <= k implies !matches_at(s, p, k) by {
                if k == 0 {
                    assert(s.subrange(0, p.len() as int) != p);
                } else if k + p.len() <= s.len() {
                    assert(!matches_at(t, p, k - 1));
                }
            }
        }
    }
}

/// Compares `p` against `s` at offset `i`.
fn chars_match_at(s: &Vec<char>, p: &Vec<char>, i: usize) -> (r: bool)
    requires
        i + p@.len() <= s@.len(),
    ensures
        r == matches_at(s@, p@, i as int),
{
    let n = s.len();
    let m = p.len();
    let mut j: usize = 0;
    while j < m
        invariant
            i + m <= n,
            n == s@.len(),
            m == p@.len(),
            0 <= j <= m,
            forall|k: int| 0 <= k < j ==> s@[i + k] == p@[k],
        decreases m - j,
    {
        if s[i + j] != p[j] {
            proof {
                assert(s@.subrange(i as int, i as int + m as int)[j as int] != p@[j as int]);
            }
            return false;
        }
        j = j + 1;
    }
    proof {
        assert(s@.subrange(i as int, i as int + m as int) =~= p@);
    }
    true
}

/// Finds the first occurrence of `p` in `s`.
pub fn find_sub_chars(s: &Vec<char>, p: &Vec<char>) -> (r: Option<usize>)
    requires
        p@.len() > 0,
    ensures
        r is Some ==> find_sub(s@, p@) == r.unwrap() as int,
        r is None ==> find_sub(s@, p@) < 0,
{
    proof {
        lemma_find_sub(s@, p@);
    }
    let n = s.len();
    let m = p.len();
    if n < m {
        return None;
    }
    let mut i: usize = 0;
    while i <= n - m
        invariant
            1 <= m <= n,
            n == s@.len(),
            m == p@.len(),
            0 <= i <= n - m + 1,
            forall|k: int| 0 <= k < i ==> !matches_at(s@, p@, k),
        decreases n - i,
    {
        if chars_match_at(s, p, i) {
            proof {
                lemma_find_sub(s@, p@);
                let f = find_sub(s@, p@);
                if f < 0 || f > i {
                    assert(!matches_at(s@, p@, i as int));
                } else if f < i {
                    assert(!matches_at(s@, p@, f));
                }
            }
            return Some(i);
        }
        i = i + 1;
    }
    proof {
        let f = find_sub(s@, p@);
        if f >= 0 {
            assert(matches_at(s@, p@, f));
            assert(f <= n - m);
            assert(!matches_at(s@, p@, f));
        }
    }
    None
}

/// The characters of the opening title tag, `<title>`.
pub open spec fn title_open() -> Seq<char> {
    seq!['<', 't', 'i', 't', 'l', 'e', '>']
}

/// The characters of the closing title tag, `</title>`.
pub open spec fn title_close() -> Seq<char> {
    seq!['<', '/', 't', 'i', 't', 'l', 'e', '>']
}

/// The fallback title used when no well-formed title tag is found.
pub open spec fn default_title() -> Seq<char> {
    seq!['U', 'n', 'k', 'n', 'o', 'w', 'n', ' ', 'T', 'i', 't', 'l', 'e']
}

fn title_open_chars() -> (v: Vec<char>)
    ensures
        v@ == title_open(),
{
    let mut v: Vec<char> = Vec::new();
    v.push('<');
    v.push('t');
    v.push('i');
    v.push('t');
    v.push('l');
    v.push('e');
    v.push('>');
    proof {
        assert(v@ =~= title_open());
    }
    v
}

fn title_close_chars() -> (v: Vec<char>)
    ensures
        v@ == title_close(),
{
    let mut v: Vec<char> = Vec::new();
    v.push('<');
    v.push('/');
    v.push('t');
    v.push('i');
    v.push('t');
    v.push('l');
    v.push('e');
    v.push('>');
    proof {
        assert(v@ =~= title_close());
    }
    v
}

fn default_title_chars() -> (v: Vec<char>)
    ensures
        v@ == default_title(),
{
    let mut v: Vec<char> = Vec::new();
    v.push('U');
    v.push('n');
    v.push('k');
    v.push('n');
    v.push('o');
    v.push('w');
    v.push('n');
    v.push(' ');
    v.push('T');
    v.push('i');
    v.push('t');
    v.push('l');
    v.push('e');
    proof {
        assert(v@ =~= default_title());
    }
    v
}

/// Whether the line mentions an opening title tag at all.
pub open spec fn line_mentions_title(l: Seq<char>) -> bool {
    find_sub(l, title_open()) >= 0
}

/// The title a single line yields: the text between its first `<title>`
/// and the next `</title>` after it; `None` when the line lacks either
/// tag, however malformed the rest of it is.
pub open spec fn title_in_line(l: Seq<char>) -> Option<Seq<char>> {
    let o = find_sub(l, title_open());
    if o < 0 {
        None
    } else {
        let rest = l.subrange(o + title_open().len() as int, l.len() as int);
        let c = find_sub(rest, title_close());
        if c < 0 {
            None
        } else {
            Some(rest.subrange(0, c))
        }
    }
}

/// The title of a line sequence: decided by the first line that mentions
/// `<title>`; a malformed mention, or no mention anywhere, falls back to
/// the default title instead of failing.
pub open spec fn title_of_lines(lines: Seq<Seq<char>>) -> Seq<char>
    decreases lines.len(),
{
    if lines.len() == 0 {
        default_title()
    } else if line_mentions_title(lines[0]) {
        match title_in_line(lines[0]) {
            Some(t) => t,
            None => default_title(),
        }
    } else {
        title_of_lines(lines.drop_first())
    }
}

/// The title of a body of text, scanned line by line.
pub open spec fn title_of(text: Seq<char>) -> Seq<char> {
    title_of_lines(split_lines(text))
}

/// Scans `text` for a title: the first line mentioning `<title>` decides
/// it, and any malformed mention falls back to the default title.
pub fn extract_title(text: &Vec<char>) -> (r: Vec<char>)
    ensures
        r@ == title_of(text@),
{
    let open = title_open_chars();
    let close = title_close_chars();
    let lines = split_lines_chars(text);
    let n = lines.len();
    let mut i: usize = 0;
    proof {
        assert(views_of(lines@).subrange(0, n as int) =~= views_of(lines@));
    }
    while i < n
        invariant
            0 <= i <= n,
            n == lines@.len(),
            open@ == title_open(),
            close@ == title_close(),
            title_of(text@) == title_of_lines(views_of(lines@).subrange(i as int, n as int)),
        decreases n - i,
    {
        let ghost rest = views_of(lines@).subrange(i as int, n as int);
        proof {
            assert(rest[0] == lines@[i as int]@);
            assert(rest.drop_first() =~= views_of(lines@).subrange(i as int + 1, n as int));
        }
        let line = &lines[i];
        match find_sub_chars(line, &open) {
            Some(o) => {
                proof {
                    lemma_find_sub(line@, open@);
                    assert(matches_at(line@, open@, o as int));
                }
                let line_len = line.len();
                let tail = subrange_chars(line, o + 7, line_len);
                proof {
                    assert(tail@ == line@.subrange(
                        o + title_open().len() as int,
                        line@.len() as int,
                    ));
                }
                match find_sub_chars(&tail, &close) {
                    Some(c) => {
                        proof {
                            lemma_find_sub(tail@, close@);
                            assert(matches_at(tail@, close@, c as int));
                        }
                        return subrange_chars(&tail, 0, c);
                    },
                    None => {
                        return default_title_chars();
                    },
                }
            },
            None => {
                i = i + 1;
            },
        }
    }
    proof {
        assert(views_of(lines@).subrange(n as int, n as int) =~= Seq::<Seq<char>>::empty());
    }
    default_title_chars()
}

/// The conversion step declined the page: the renderer found the wrap
/// width too narrow for the page's content, or failed outright. Fatal
/// for the fetch that hit it; the prior document stays.
#[derive(Clone, Copy, PartialEq, Eq, Structural, Debug)]
pub struct ConversionError;

/// What `html2text` renders a page to at a given wrap width: the
/// wrapped plain text, or `None` where the renderer declines. Which of
/// the two, and the text itself, are a pure function of the HTML text
/// and the width; both are stated here only by name.
pub uninterp spec fn rendered(html: Seq<char>, width: int) -> Option<Seq<char>>;

/// Relies on `html2text::from_read`: reads the HTML text and either
/// returns it rendered as plain text wrapped to `width` columns, or
/// declines with an error — among others when the width is too narrow
/// for the content, which it reports instead of overflowing.
#[verifier::external_body]
fn render_html(html: &str, width: usize) -> (r: Result<String, ConversionError>)
    ensures
        r is Ok ==> rendered(html@, width as int) == Some(r.unwrap()@),
        r is Err ==> rendered(html@, width as int) is None,
{
    match html2text::from_read(html.as_bytes(), width) {
        Ok(text) => Ok(text),
        Err(_) => Err(ConversionError),
    }
}

/// A fetched page, processed for viewing: its plain-text lines and its
/// title. Immutable once built; a later fetch replaces it wholesale.
pub struct Document {
    pub lines: Vec<String>,
    pub title: String,
}

impl Document {
    /// The views of the document's lines.
    pub open spec fn lines_view(&self) -> Seq<Seq<char>> {
        self.lines@.map_values(|l: String| l@)
    }

    /// How many lines the document has.
    pub fn line_count(&self) -> (n: usize)
        ensures
            n == self.lines@.len(),
    {
        self.lines.len()
    }
}

/// The wrap width a viewport width leaves for text: three columns are
/// reserved for the border and the scrollbar, flooring at zero.
pub open spec fn wrap_width(w: int) -> int {
    if w >= 3 {
        w - 3
    } else {
        0
    }
}

/// What the renderer makes of `body` at viewport width `w`: the
/// normalized body rendered at the wrap width, or `None` where the
/// renderer declines.
pub open spec fn document_rendering(body: Seq<char>, w: int) -> Option<Seq<char>> {
    rendered(normalize_spec(body), wrap_width(w))
}

/// The line views of the document the pipeline builds from `body` at
/// viewport width `w`, when the renderer accepts it.
pub open spec fn document_lines_spec(body: Seq<char>, w: int) -> Seq<Seq<char>> {
    split_lines(document_rendering(body, w).unwrap())
}

/// The title of the document the pipeline builds from `body`.
pub open spec fn document_title_spec(body: Seq<char>) -> Seq<char> {
    title_of(normalize_spec(body))
}

/// Normalizes a fetched body: trims it, drops blank lines, trims the
/// rest, and rejoins them under newline terminators.
pub fn normalize_html(body: &str) -> (r: String)
    ensures
        r@ == normalize_spec(body@),
{
    let chars = str_to_chars(body);
    let normalized = normalize_chars(&chars);
    chars_to_string(&normalized)
}

/// The fetch pipeline past the network: normalizes the body, extracts
/// the title, renders the page at the wrap width, and splits the
/// rendering into lines. Succeeds exactly when the renderer accepts the
/// page at that width; on an error no document is produced, so the
/// prior one, if any, stays on display.
pub fn build_document(body: &str, viewport_width: usize) -> (r: Result<Document, ConversionError>)
    ensures
        r is Ok <==> document_rendering(body@, viewport_width as int) is Some,
        r is Ok ==> r.unwrap().title@ == document_title_spec(body@),
        r is Ok ==> r.unwrap().lines_view() == document_lines_spec(body@, viewport_width as int),
{
    let chars = str_to_chars(body);
    let normalized = normalize_chars(&chars);
    let title_chars = extract_title(&normalized);
    let title = chars_to_string(&title_chars);
    let html = chars_to_string(&normalized);
    let text = match render_html(&html, viewport_width.saturating_sub(3)) {
        Ok(text) => text,
        Err(e) => {
            return Err(e);
        },
    };
    let text_chars = str_to_chars(text.as_str());
    let line_vecs = split_lines_chars(&text_chars);
    let n = line_vecs.len();
    let mut lines: Vec<String> = Vec::new();
    let mut i: usize = 0;
    while i < n
        invariant
            0 <= i <= n,
            n == line_vecs@.len(),
            lines@.len() == i,
            forall|k: int| 0 <= k < i ==> lines@[k]@ == line_vecs@[k]@,
        decreases n - i,
    {
        lines.push(chars_to_string(&line_vecs[i]));
        i = i + 1;
    }
    let doc = Document { lines, title };
    proof {
        assert(doc.lines_view() =~= views_of(line_vecs@));
    }
    Ok(doc)
}

/// The pipeline is deterministic: two runs over byte-identical bodies
/// at one viewport width agree on whether the renderer accepts the
/// page, and then on the line sequence and the title, because the
/// rendering is a pure function of its input.
pub proof fn lemma_pipeline_deterministic(b1: Seq<char>, b2: Seq<char>, w: int)
    requires
        b1 == b2,
    ensures
        document_rendering(b1, w) == document_rendering(b2, w),
        document_lines_spec(b1, w) == document_lines_spec(b2, w),
        document_title_spec(b1) == document_title_spec(b2),
{
}

} // verus!
