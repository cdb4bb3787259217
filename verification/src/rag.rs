//! Documents, their chunking by words with a sliding window, and the
//! pipeline that collects chunks for a vector store.
use vstd::prelude::*;

use crate::path::{extension, extension_of, file_name, file_name_of};
use crate::react::pending::{lookup, table_of};
use crate::text::{chars_of, copy_str, decimal, decimal_string, is_whitespace, is_ws, join, join_strings, lit, push_str, string_of, views};

verus! {

/// A loaded document: its text and metadata (`source`, `file_type`, ...).
#[derive(Clone, Debug)]
pub struct Document {
    pub content: String,
    /// Key/value pairs; a later pair for a key hides an earlier one.
    pub metadata: Vec<(String, String)>,
}

/// A piece of a document with its metadata.
#[derive(Clone, Debug)]
pub struct Chunk {
    pub text: String,
    /// Key/value pairs; a later pair for a key hides an earlier one.
    pub metadata: Vec<(String, String)>,
}

/// A chunk by its text and metadata map.
pub open spec fn chunk_view(c: Chunk) -> (Seq<char>, Map<Seq<char>, Seq<char>>) {
    (c.text@, table_of(c.metadata@))
}

/// The chunks of a sequence, by their views.
pub open spec fn chunk_views(cs: Seq<Chunk>) -> Seq<(Seq<char>, Map<Seq<char>, Seq<char>>)> {
    cs.map_values(|c: Chunk| chunk_view(c))
}

/// The value of `key` in `m`, or `default`.
pub open spec fn value_or(m: Map<Seq<char>, Seq<char>>, key: Seq<char>, default: Seq<char>) -> Seq<
    char,
> {
    if m.dom().contains(key) {
        m[key]
    } else {
        default
    }
}

fn value_or_default(entries: &Vec<(String, String)>, key: &str, default: &str) -> (r: String)
    ensures
        r@ == value_or(table_of(entries@), key@, default@),
{
    match lookup(entries, key) {
        Some(v) => v,
        None => copy_str(default),
    }
}

/// The metadata of a document loaded from a file.
pub open spec fn loaded_metadata(source: Seq<char>, file_type: Seq<char>) -> Map<Seq<char>, Seq<char>> {
    Map::empty().insert(lit("source"), source).insert(lit("file_type"), file_type)
}

fn two_pairs(k1: &str, v1: String, k2: &str, v2: String) -> (r: Vec<(String, String)>)
    ensures
        table_of(r@) == Map::<Seq<char>, Seq<char>>::empty().insert(k1@, v1@).insert(k2@, v2@),
{
    let mut r: Vec<(String, String)> = Vec::new();
    r.push((copy_str(k1), v1));
    r.push((copy_str(k2), v2));
    proof {
        let s = r@;
        assert(s.drop_last().drop_last() =~= Seq::<(String, String)>::empty());
        assert(table_of(s.drop_last()) == table_of(s.drop_last().drop_last()).insert(k1@, v1@));
    }
    r
}

/// Turns a file's text into a document.
pub trait DocumentLoader {
    /// The document made of `text`, read from the file at `path`.
    fn load(&self, path: &str, text: String) -> Document;
}

/// Loader for PDF documents: the caller extracts the text.
#[derive(Clone, Copy, Debug)]
pub struct PdfLoader;

impl PdfLoader {
    /// A PDF loader.
    pub fn new() -> (r: Self) {
        PdfLoader
    }

    /// The document of a PDF file: `source` is the file's name (or
    /// `unknown`) and `file_type` is `pdf`.
    pub fn document(&self, path: &str, text: String) -> (d: Document)
        ensures
            d.content@ == text@,
            table_of(d.metadata@) == loaded_metadata(
                match file_name_of(path@) {
                    Some(n) => n,
                    None => lit("unknown"),
                },
                lit("pdf"),
            ),
    {
        let source = match file_name(path) {
            Some(n) => n,
            None => copy_str("unknown"),
        };
        Document { content: text, metadata: two_pairs("source", source, "file_type", copy_str("pdf")) }
    }
}

impl DocumentLoader for PdfLoader {
    /// The document of a PDF file, as [`PdfLoader::document`] makes it.
    fn load(&self, path: &str, text: String) -> (d: Document)
        ensures
            d.content@ == text@,
            table_of(d.metadata@) == loaded_metadata(
                match file_name_of(path@) {
                    Some(n) => n,
                    None => lit("unknown"),
                },
                lit("pdf"),
            ),
    {
        self.document(path, text)
    }
}

/// Loader for plain text and Markdown documents.
#[derive(Clone, Copy, Debug)]
pub struct TextLoader;

impl TextLoader {
    /// A text loader.
    pub fn new() -> (r: Self) {
        TextLoader
    }

    /// The document of a text file: `source` is the file's name (or
    /// `unknown`) and `file_type` its extension (or `txt`).
    pub fn document(&self, path: &str, text: String) -> (d: Document)
        ensures
            d.content@ == text@,
            table_of(d.metadata@) == loaded_metadata(
                match file_name_of(path@) {
                    Some(n) => n,
                    None => lit("unknown"),
                },
                match extension_of(path@) {
                    Some(e) => e,
                    None => lit("txt"),
                },
            ),
    {
        let source = match file_name(path) {
            Some(n) => n,
            None => copy_str("unknown"),
        };
        let file_type = match extension(path) {
            Some(e) => e,
            None => copy_str("txt"),
        };
        Document { content: text, metadata: two_pairs("source", source, "file_type", file_type) }
    }
}

impl DocumentLoader for TextLoader {
    /// The document of a text file, as [`TextLoader::document`] makes it.
    fn load(&self, path: &str, text: String) -> (d: Document)
        ensures
            d.content@ == text@,
            table_of(d.metadata@) == loaded_metadata(
                match file_name_of(path@) {
                    Some(n) => n,
                    None => lit("unknown"),
                },
                match extension_of(path@) {
                    Some(e) => e,
                    None => lit("txt"),
                },
            ),
    {
        self.document(path, text)
    }
}

// ---------------------------------------------------------------------------
// Words
// ---------------------------------------------------------------------------

/// Reading `s` from the left: the words completed so far and the word in
/// progress.
pub open spec fn scan_words(s: Seq<char>) -> (Seq<Seq<char>>, Seq<char>)
    decreases s.len(),
{
    if s.len() == 0 {
        (Seq::empty(), Seq::empty())
    } else {
        let (done, cur) = scan_words(s.drop_last());
        if is_ws(s.last()) {
            if cur.len() > 0 {
                (done.push(cur), Seq::empty())
            } else {
                (done, Seq::empty())
            }
        } else {
            (done, cur.push(s.last()))
        }
    }
}

/// The maximal runs of non-whitespace characters of `s`, in order
/// (`str::split_whitespace`).
pub open spec fn words(s: Seq<char>) -> Seq<Seq<char>> {
    let (done, cur) = scan_words(s);
    if cur.len() > 0 {
        done.push(cur)
    } else {
        done
    }
}

/// The words `ws` written one after the other.
pub open spec fn concat_words(ws: Seq<Seq<char>>) -> Seq<char>
    decreases ws.len(),
{
    if ws.len() == 0 {
        Seq::empty()
    } else {
        concat_words(ws.drop_last()) + ws.last()
    }
}

/// `s` with its whitespace characters removed.
pub open spec fn without_whitespace(s: Seq<char>) -> Seq<char>
    decreases s.len(),
{
    if s.len() == 0 {
        s
    } else if is_ws(s.last()) {
        without_whitespace(s.drop_last())
    } else {
        without_whitespace(s.drop_last()).push(s.last())
    }
}

/// A word: non-empty, with no whitespace in it.
pub open spec fn is_word(w: Seq<char>) -> bool {
    w.len() > 0 && forall|k: int| 0 <= k < w.len() ==> !is_ws(#[trigger] w[k])
}

proof fn lemma_scan_words_parts(s: Seq<char>)
    ensures
        ({
            let (done, cur) = scan_words(s);
            &&& forall|i: int| 0 <= i < done.len() ==> is_word(#[trigger] done[i])
            &&& forall|k: int| 0 <= k < cur.len() ==> !is_ws(#[trigger] cur[k])
            &&& concat_words(done) + cur == without_whitespace(s)
        }),
    decreases s.len(),
{
    if s.len() > 0 {
        lemma_scan_words_parts(s.drop_last());
        let (done, cur) = scan_words(s.drop_last());
        let c = s.last();
        if is_ws(c) {
            if cur.len() > 0 {
                let d2 = done.push(cur);
                assert(d2.drop_last() =~= done);
                assert forall|i: int| 0 <= i < d2.len() implies is_word(#[trigger] d2[i]) by {
                    if i < done.len() {
                        assert(d2[i] == done[i]);
                    }
                }
                assert(concat_words(d2) + Seq::<char>::empty() =~= concat_words(done) + cur);
            }
        } else {
            let c2 = cur.push(c);
            assert forall|k: int| 0 <= k < c2.len() implies !is_ws(#[trigger] c2[k]) by {
                if k < cur.len() {
                    assert(c2[k] == cur[k]);
                }
            }
            assert(concat_words(done) + c2 =~= (concat_words(done) + cur).push(c));
        }
    }
}

/// The words of a text are exactly its maximal runs of non-whitespace
/// characters: each is non-empty and holds no whitespace, and written one
/// after the other they give the text with its whitespace removed, so no
/// other character (a comma, say) is lost or splits a word.
pub proof fn lemma_words_are_runs(s: Seq<char>)
    ensures
        forall|i: int| 0 <= i < words(s).len() ==> is_word(#[trigger] words(s)[i]),
        concat_words(words(s)) == without_whitespace(s),
{
    lemma_scan_words_parts(s);
    let (done, cur) = scan_words(s);
    if cur.len() > 0 {
        let d2 = done.push(cur);
        assert(d2.drop_last() =~= done);
        assert forall|i: int| 0 <= i < d2.len() implies is_word(#[trigger] d2[i]) by {
            if i < done.len() {
                assert(d2[i] == done[i]);
            }
        }
    } else {
        assert(concat_words(done) + cur =~= concat_words(done));
    }
}

/// The words of `s`.
pub fn split_words(s: &str) -> (r: Vec<String>)
    ensures
        views(r@) == words(s@),
        forall|i: int| 0 <= i < r@.len() ==> is_word(#[trigger] r@[i]@),
        concat_words(views(r@)) == without_whitespace(s@),
{
    let v = chars_of(s);
    let mut done: Vec<String> = Vec::new();
    let mut cur: Vec<char> = Vec::new();
    let mut i: usize = 0;
    while i < v.len()
        invariant
            i <= v.len(),
            v@ == s@,
            (views(done@), cur@) == scan_words(v@.take(i as int)),
        decreases v.len() - i,
    {
        proof {
            assert(v@.take(i + 1).drop_last() =~= v@.take(i as int));
        }
        let c = v[i];
        if is_whitespace(c) {
            if cur.len() > 0 {
                let w = string_of(&cur);
                done.push(w);
                assert(views(done@) =~= views(done@.drop_last()).push(w@));
            }
            cur = Vec::new();
        } else {
            cur.push(c);
        }
        i = i + 1;
    }
    assert(v@.take(v.len() as int) =~= v@);
    if cur.len() > 0 {
        let w = string_of(&cur);
        done.push(w);
        assert(views(done@) =~= views(done@.drop_last()).push(w@));
    }
    proof {
        lemma_words_are_runs(s@);
        assert forall|i: int| 0 <= i < done@.len() implies is_word(#[trigger] done@[i]@) by {
            assert(views(done@)[i] == done@[i]@);
            assert(is_word(words(s@)[i]));
        }
    }
    done
}

// ---------------------------------------------------------------------------
// Chunking
// ---------------------------------------------------------------------------

/// Splits a document into chunks.
pub trait TextSplitter {
    /// The chunks of a document with this content and metadata.
    spec fn split_spec(&self, content: Seq<char>, metadata: Map<Seq<char>, Seq<char>>) -> Seq<
        (Seq<char>, Map<Seq<char>, Seq<char>>),
    >;

    /// Splits `document` into chunks.
    fn split(&self, document: &Document) -> (r: Vec<Chunk>)
        ensures
            chunk_views(r@) == self.split_spec(document.content@, table_of(document.metadata@)),
    ;
}

/// Chunks of `chunk_words` words, each starting `chunk_words -
/// chunk_overlap_words` words after the previous one.
#[derive(Clone, Copy, Debug)]
pub struct WordSplitter {
    chunk_words: usize,
    chunk_overlap_words: usize,
}

/// The first word of window `k` when windows start `step` words apart.
pub open spec fn window_start(k: int, step: int) -> int {
    k * step
}

/// The end of the window of `size` words starting at `start` among `n`.
pub open spec fn window_end(start: int, size: int, n: int) -> int {
    if start + size < n {
        start + size
    } else {
        n
    }
}

/// The metadata of the chunk at `index`.
pub open spec fn chunk_metadata(source: Seq<char>, file_type: Seq<char>, index: nat) -> Map<
    Seq<char>,
    Seq<char>,
> {
    Map::empty().insert(lit("source"), source).insert(lit("file_type"), file_type).insert(
        lit("chunk_index"),
        decimal(index),
    )
}

/// `chunks` are the windows of `size` words, `step` apart, over `ws`: the
/// last window reaches the last word and no earlier one does.
pub open spec fn windows_ok(
    chunks: Seq<(Seq<char>, Map<Seq<char>, Seq<char>>)>,
    ws: Seq<Seq<char>>,
    size: int,
    step: int,
    source: Seq<char>,
    file_type: Seq<char>,
) -> bool {
    let n = ws.len() as int;
    &&& n == 0 ==> chunks.len() == 0
    &&& n > 0 ==> chunks.len() > 0 && window_start(chunks.len() - 1, step) + size >= n
    &&& forall|k: int| 0 <= k < chunks.len() - 1 ==> #[trigger] window_start(k, step) + size < n
    &&& forall|k: int|
        0 <= k < chunks.len() ==> (#[trigger] chunks[k]).0 == join(
            ws.subrange(window_start(k, step), window_end(window_start(k, step), size, n)),
            lit(" "),
        ) && chunks[k].1 == chunk_metadata(source, file_type, k as nat)
}

impl WordSplitter {
    /// The number of words per chunk.
    pub closed spec fn size(&self) -> nat {
        self.chunk_words as nat
    }

    /// The number of words shared by consecutive chunks.
    pub closed spec fn overlap(&self) -> nat {
        self.chunk_overlap_words as nat
    }

    /// At least one word per chunk, and fewer shared words than that.
    #[verifier::type_invariant]
    spec fn inv(&self) -> bool {
        self.chunk_words >= 1 && self.chunk_overlap_words < self.chunk_words
    }

    /// A splitter of `chunk_words` words per chunk (at least one), of which
    /// `chunk_overlap_words` (at most `chunk_words - 1`) are shared.
    pub fn new(chunk_words: usize, chunk_overlap_words: usize) -> (r: Self)
        ensures
            r.size() == if chunk_words >= 1 {
                chunk_words as nat
            } else {
                1
            },
            r.overlap() == if chunk_overlap_words as int <= chunk_words - 1 {
                chunk_overlap_words as nat
            } else if chunk_words >= 1 {
                (chunk_words - 1) as nat
            } else {
                0
            },
    {
        let size = if chunk_words >= 1 {
            chunk_words
        } else {
            1
        };
        let cap = if chunk_words >= 1 {
            chunk_words - 1
        } else {
            0
        };
        let overlap = if chunk_overlap_words <= cap {
            chunk_overlap_words
        } else {
            cap
        };
        WordSplitter { chunk_words: size, chunk_overlap_words: overlap }
    }

    /// The chunks of a document with this content and metadata: the word
    /// windows joined by single spaces, each with the document's `source`
    /// (or `unknown`), `file_type` (or `txt`) and its index.
    pub open spec fn chunks_of(&self, content: Seq<char>, metadata: Map<Seq<char>, Seq<char>>) -> Seq<
        (Seq<char>, Map<Seq<char>, Seq<char>>),
    > {
        choose|cs: Seq<(Seq<char>, Map<Seq<char>, Seq<char>>)>|
            #[trigger] windows_ok(
                cs,
                words(content),
                self.size() as int,
                self.size() - self.overlap(),
                value_or(metadata, lit("source"), lit("unknown")),
                value_or(metadata, lit("file_type"), lit("txt")),
            )
    }
}

fn window_text(ws: &Vec<String>, start: usize, end: usize) -> (r: String)
    requires
        start <= end <= ws.len(),
    ensures
        r@ == join(views(ws@).subrange(start as int, end as int), lit(" ")),
{
    let mut part: Vec<String> = Vec::new();
    let mut i = start;
    while i < end
        invariant
            start <= i <= end <= ws.len(),
            views(part@) == views(ws@).subrange(start as int, i as int),
        decreases end - i,
    {
        let ghost before = part@;
        let w = ws[i].clone();
        part.push(w);
        proof {
            assert(part@ =~= before.push(ws@[i as int]));
            assert(views(part@) =~= views(before).push(ws@[i as int]@));
            assert(views(ws@)[i as int] == ws@[i as int]@);
            assert(views(part@) =~= views(ws@).subrange(start as int, i + 1));
        }
        i = i + 1;
    }
    join_strings(&part, " ")
}

fn chunk_pairs(source: &String, file_type: &String, index: usize) -> (r: Vec<(String, String)>)
    ensures
        table_of(r@) == chunk_metadata(source@, file_type@, index as nat),
{
    let mut r: Vec<(String, String)> = Vec::new();
    r.push((copy_str("source"), source.clone()));
    r.push((copy_str("file_type"), file_type.clone()));
    r.push((copy_str("chunk_index"), decimal_string(index)));
    proof {
        let s = r@;
        assert(s.drop_last().drop_last().drop_last() =~= Seq::<(String, String)>::empty());
        assert(table_of(s.drop_last().drop_last()) == table_of(
            s.drop_last().drop_last().drop_last(),
        ).insert(lit("source"), source@));
        assert(table_of(s.drop_last()) == table_of(s.drop_last().drop_last()).insert(
            lit("file_type"),
            file_type@,
        ));
    }
    r
}

proof fn lemma_windows_unique(
    a: Seq<(Seq<char>, Map<Seq<char>, Seq<char>>)>,
    b: Seq<(Seq<char>, Map<Seq<char>, Seq<char>>)>,
    ws: Seq<Seq<char>>,
    size: int,
    step: int,
    source: Seq<char>,
    file_type: Seq<char>,
)
    requires
        size >= 1,
        step >= 1,
        windows_ok(a, ws, size, step, source, file_type),
        windows_ok(b, ws, size, step, source, file_type),
    ensures
        a == b,
{
    let n = ws.len() as int;
    if a.len() < b.len() {
        let k = a.len() - 1;
        assert(k * step + size < n);
    }
    if b.len() < a.len() {
        let k = b.len() - 1;
        assert(k * step + size < n);
    }
    assert(a.len() == b.len());
    assert forall|k: int| 0 <= k < a.len() implies a[k] == b[k] by {}
    assert(a =~= b);
}

/// Every word lies in the window of some chunk: consecutive windows start
/// at most `size` words apart, and the last reaches the last word.
pub proof fn lemma_windows_cover(
    chunks: Seq<(Seq<char>, Map<Seq<char>, Seq<char>>)>,
    ws: Seq<Seq<char>>,
    size: int,
    step: int,
    source: Seq<char>,
    file_type: Seq<char>,
    w: int,
)
    requires
        1 <= step <= size,
        windows_ok(chunks, ws, size, step, source, file_type),
        0 <= w < ws.len(),
    ensures
        exists|k: int|
            0 <= k < chunks.len() && window_start(k, step) <= w < window_end(
                #[trigger] window_start(k, step),
                size,
                ws.len() as int,
            ),
{
    let n = ws.len() as int;
    let last = chunks.len() - 1;
    let q = w / step;
    assert(q * step <= w < q * step + step) by (nonlinear_arith)
        requires
            step >= 1,
            q == w / step,
            w >= 0,
    ;
    if q <= last {
        assert(window_start(q, step) == q * step);
        assert(window_start(q, step) <= w < window_end(window_start(q, step), size, n));
    } else {
        assert(window_start(last, step) <= w) by (nonlinear_arith)
            requires
                last < q,
                step >= 1,
                q * step <= w,
                window_start(last, step) == last * step,
                last >= 0,
        ;
        assert(window_start(last, step) <= w < window_end(window_start(last, step), size, n));
    }
}

impl WordSplitter {
    /// Splits `document` into chunks of words.
    pub fn split_document(&self, document: &Document) -> (r: Vec<Chunk>)
        ensures
            chunk_views(r@) == self.chunks_of(document.content@, table_of(document.metadata@)),
    {
        proof {
            use_type_invariant(self);
        }
        let ws = split_words(document.content.as_str());
        let source = value_or_default(&document.metadata, "source", "unknown");
        let file_type = value_or_default(&document.metadata, "file_type", "txt");
        let ghost wv = words(document.content@);
        let ghost size = self.chunk_words as int;
        let ghost step_i = self.chunk_words - self.chunk_overlap_words;
        let mut chunks: Vec<Chunk> = Vec::new();
        let n = ws.len();
        if n > 0 {
            let step = self.chunk_words - self.chunk_overlap_words;
            let mut start: usize = 0;
            let mut k: usize = 0;
            loop
                invariant_except_break
                    start < n,
                    k == chunks@.len(),
                    k <= start,
                    start == window_start(k as int, step as int),
                    forall|j: int| 0 <= j < chunks@.len() ==> #[trigger] window_start(j, step as int) + size < n,
                invariant
                    n == ws@.len() > 0,
                    views(ws@) == wv,
                    1 <= step <= self.chunk_words,
                    step == step_i,
                    size == self.chunk_words,
                    forall|j: int|
                        0 <= j < chunks@.len() ==> (#[trigger] chunk_views(chunks@)[j]).0 == join(
                            wv.subrange(
                                window_start(j, step as int),
                                window_end(window_start(j, step as int), size, n as int),
                            ),
                            lit(" "),
                        ) && chunk_views(chunks@)[j].1 == chunk_metadata(
                            source@,
                            file_type@,
                            j as nat,
                        ),
                    forall|j: int| 0 <= j < chunks@.len() - 1 ==> #[trigger] window_start(j, step as int) + size < n,
                ensures
                    chunks@.len() > 0,
                    window_start(chunks@.len() - 1, step as int) + size >= n,
                decreases n - start,
            {
                let end = if self.chunk_words < n - start {
                    start + self.chunk_words
                } else {
                    n
                };
                assert(end == window_end(window_start(k as int, step as int), size, n as int));
                let text = window_text(&ws, start, end);
                let metadata = chunk_pairs(&source, &file_type, k);
                let ghost old_chunks = chunks@;
                let c = Chunk { text, metadata };
                chunks.push(c);
                proof {
                    let cv = chunk_views(chunks@);
                    assert(chunks@ =~= old_chunks.push(c));
                    assert(cv =~= chunk_views(old_chunks).push(chunk_view(c)));
                    assert forall|j: int| 0 <= j < cv.len() implies (#[trigger] cv[j]).0 == join(
                        wv.subrange(
                            window_start(j, step as int),
                            window_end(window_start(j, step as int), size, n as int),
                        ),
                        lit(" "),
                    ) && cv[j].1 == chunk_metadata(source@, file_type@, j as nat) by {
                        if j < k {
                            assert(cv[j] == chunk_views(old_chunks)[j]);
                        }
                    }
                }
                if end == n {
                    break;
                }
                proof {
                    assert(window_start(k + 1, step as int) == window_start(k as int, step as int) + step) by (nonlinear_arith);
                    assert(window_start(k as int, step as int) + size < n);
                }
                start = start + step;
                k = k + 1;
            }
        }
        proof {
            let cs = chunk_views(chunks@);
            let src = value_or(table_of(document.metadata@), lit("source"), lit("unknown"));
            let ft = value_or(table_of(document.metadata@), lit("file_type"), lit("txt"));
            assert(windows_ok(cs, wv, size, step_i, src, ft));
            lemma_windows_unique(
                cs,
                self.chunks_of(document.content@, table_of(document.metadata@)),
                wv,
                size,
                step_i,
                src,
                ft,
            );
        }
        chunks
    }
}

impl TextSplitter for WordSplitter {
    open spec fn split_spec(&self, content: Seq<char>, metadata: Map<Seq<char>, Seq<char>>) -> Seq<
        (Seq<char>, Map<Seq<char>, Seq<char>>),
    > {
        self.chunks_of(content, metadata)
    }

    fn split(&self, document: &Document) -> (r: Vec<Chunk>) {
        self.split_document(document)
    }
}

impl Default for WordSplitter {
    /// Chunks of 220 words sharing 40.
    fn default() -> (r: Self)
        ensures
            r.size() == 220,
            r.overlap() == 40,
    {
        WordSplitter::new(220, 40)
    }
}

// ---------------------------------------------------------------------------
// Pipeline
// ---------------------------------------------------------------------------

/// The chunks `splitter` makes of `documents`, in order.
pub open spec fn splits_of<S: TextSplitter>(splitter: S, documents: Seq<Document>) -> Seq<
    (Seq<char>, Map<Seq<char>, Seq<char>>),
>
    decreases documents.len(),
{
    if documents.len() == 0 {
        Seq::empty()
    } else {
        splits_of(splitter, documents.drop_last()) + splitter.split_spec(
            documents.last().content@,
            table_of(documents.last().metadata@),
        )
    }
}

/// Adding documents in two batches gives the chunks of adding them at once:
/// with a splitter that is a function of the document, `add_documents` of
/// `a + b` appends what `add_documents` of `a` and then of `b` append, and so
/// what `add_document` of each, one by one, appends. No documents add nothing.
pub proof fn lemma_splits_concat<S: TextSplitter>(splitter: S, a: Seq<Document>, b: Seq<Document>)
    ensures
        splits_of(splitter, a + b) == splits_of(splitter, a) + splits_of(splitter, b),
        splits_of(splitter, Seq::<Document>::empty()) == Seq::<(Seq<char>, Map<Seq<char>, Seq<char>>)>::empty(),
    decreases b.len(),
{
    if b.len() == 0 {
        assert(a + b =~= a);
    } else {
        lemma_splits_concat(splitter, a, b.drop_last());
        assert((a + b).drop_last() =~= a + b.drop_last());
        assert((a + b).last() == b.last());
    }
}

/// The chunks of a pipeline holding `chunks` after `add_document` of each of
/// `documents`, first to last.
pub open spec fn added_one_by_one<S: TextSplitter>(
    chunks: Seq<(Seq<char>, Map<Seq<char>, Seq<char>>)>,
    splitter: S,
    documents: Seq<Document>,
) -> Seq<(Seq<char>, Map<Seq<char>, Seq<char>>)>
    decreases documents.len(),
{
    if documents.len() == 0 {
        chunks
    } else {
        added_one_by_one(
            chunks + splitter.split_spec(documents[0].content@, table_of(documents[0].metadata@)),
            splitter,
            documents.drop_first(),
        )
    }
}

/// `add_documents` is `add_document` of each document in turn: a pipeline
/// holding `chunks` gets from `add_documents(documents)` (which appends
/// `splits_of(documents)`) exactly the chunks of adding the documents one by
/// one, first to last; with no documents it keeps its chunks.
pub proof fn lemma_add_documents_one_by_one<S: TextSplitter>(
    chunks: Seq<(Seq<char>, Map<Seq<char>, Seq<char>>)>,
    splitter: S,
    documents: Seq<Document>,
)
    ensures
        chunks + splits_of(splitter, documents) == added_one_by_one(chunks, splitter, documents),
        documents.len() == 0 ==> chunks + splits_of(splitter, documents) == chunks,
    decreases documents.len(),
{
    if documents.len() == 0 {
        assert(chunks + splits_of(splitter, documents) =~= chunks);
    } else {
        let d = documents[0];
        let rest = documents.drop_first();
        let first = splitter.split_spec(d.content@, table_of(d.metadata@));
        lemma_add_documents_one_by_one(chunks + first, splitter, rest);
        lemma_splits_concat(splitter, seq![d], rest);
        lemma_splits_one(splitter, d);
        assert(seq![d] + rest =~= documents);
        assert(chunks + (first + splits_of(splitter, rest)) =~= (chunks + first) + splits_of(splitter, rest));
    }
}

/// Adding one document as a batch of one appends what `add_document` of it
/// appends.
pub proof fn lemma_splits_one<S: TextSplitter>(splitter: S, d: Document)
    ensures
        splits_of(splitter, seq![d]) == splitter.split_spec(d.content@, table_of(d.metadata@)),
{
    let one = seq![d];
    assert(one.drop_last() =~= Seq::<Document>::empty());
    assert(splits_of(splitter, one.drop_last()) == Seq::<(Seq<char>, Map<Seq<char>, Seq<char>>)>::empty());
    assert(one.last() == d);
    assert(Seq::<(Seq<char>, Map<Seq<char>, Seq<char>>)>::empty() + splitter.split_spec(
        d.content@,
        table_of(d.metadata@),
    ) =~= splitter.split_spec(d.content@, table_of(d.metadata@)));
}

/// The text stored for a chunk: a header naming its source (or `unknown`)
/// and index (or `0`), then the chunk's text.
pub open spec fn store_text(c: (Seq<char>, Map<Seq<char>, Seq<char>>)) -> Seq<char> {
    lit("[source: ") + value_or(c.1, lit("source"), lit("unknown")) + lit(" | chunk: ") + value_or(
        c.1,
        lit("chunk_index"),
        lit("0"),
    ) + lit("]\n") + c.0
}

/// The text stored for `chunk`.
pub fn format_chunk(chunk: &Chunk) -> (r: String)
    ensures
        r@ == store_text(chunk_view(*chunk)),
{
    let source = value_or_default(&chunk.metadata, "source", "unknown");
    let index = value_or_default(&chunk.metadata, "chunk_index", "0");
    let mut r = copy_str("[source: ");
    push_str(&mut r, source.as_str());
    push_str(&mut r, " | chunk: ");
    push_str(&mut r, index.as_str());
    push_str(&mut r, "]\n");
    push_str(&mut r, chunk.text.as_str());
    r
}

/// Collects chunks for a vector store.
#[derive(Clone, Debug)]
pub struct RagPipeline {
    chunks: Vec<Chunk>,
}

impl RagPipeline {
    /// The collected chunks, in order.
    pub closed spec fn view(&self) -> Seq<(Seq<char>, Map<Seq<char>, Seq<char>>)> {
        chunk_views(self.chunks@)
    }

    /// An empty pipeline.
    pub fn new() -> (r: Self)
        ensures
            r@ == Seq::<(Seq<char>, Map<Seq<char>, Seq<char>>)>::empty(),
    {
        let r = RagPipeline { chunks: Vec::new() };
        assert(r@ =~= Seq::<(Seq<char>, Map<Seq<char>, Seq<char>>)>::empty());
        r
    }

    /// Appends `chunks`.
    pub fn add_chunks(self, chunks: Vec<Chunk>) -> (r: Self)
        ensures
            r@ == self@ + chunk_views(chunks@),
    {
        let mut s = self;
        let mut more = chunks;
        let ghost before = s.chunks@;
        let ghost added = more@;
        s.chunks.append(&mut more);
        assert(s.chunks@ =~= before + added);
        assert(chunk_views(before + added) =~= chunk_views(before) + chunk_views(added));
        s
    }

    /// Appends the chunks `splitter` makes of `document`.
    pub fn add_document<S: TextSplitter>(self, document: &Document, splitter: &S) -> (r: Self)
        ensures
            r@ == self@ + splitter.split_spec(document.content@, table_of(document.metadata@)),
    {
        let doc_chunks = splitter.split(document);
        self.add_chunks(doc_chunks)
    }

    /// Appends the chunks `splitter` makes of each of `documents`, in order.
    pub fn add_documents<S: TextSplitter>(self, documents: &Vec<Document>, splitter: &S) -> (r: Self)
        ensures
            r@ == self@ + splits_of(*splitter, documents@),
    {
        let mut s = self;
        let ghost start = s@;
        let mut i: usize = 0;
        assert(documents@.take(0) =~= Seq::<Document>::empty());
        assert(start + splits_of(*splitter, documents@.take(0)) =~= start);
        while i < documents.len()
            invariant
                i <= documents.len(),
                s@ == start + splits_of(*splitter, documents@.take(i as int)),
            decreases documents.len() - i,
        {
            assert(documents@.take(i + 1).drop_last() =~= documents@.take(i as int));
            s = s.add_document(&documents[i], splitter);
            assert(s@ =~= start + splits_of(*splitter, documents@.take(i + 1)));
            i = i + 1;
        }
        assert(documents@.take(documents.len() as int) =~= documents@);
        s
    }

    /// The collected chunks.
    pub fn chunks(&self) -> (r: &Vec<Chunk>)
        ensures
            chunk_views(r@) == self@,
    {
        &self.chunks
    }

    /// The texts to embed and store, one per chunk; there must be a chunk.
    pub fn store_texts(&self) -> (r: Result<Vec<String>, String>)
        ensures
            self@.len() == 0 ==> (r matches Err(m) && m@ == lit("cannot build store with empty chunks")),
            self@.len() > 0 ==> (r matches Ok(v) && views(v@) == self@.map_values(
                |c: (Seq<char>, Map<Seq<char>, Seq<char>>)| store_text(c),
            )),
    {
        if self.chunks.len() == 0 {
            return Err(copy_str("cannot build store with empty chunks"));
        }
        let mut out: Vec<String> = Vec::new();
        let mut i: usize = 0;
        while i < self.chunks.len()
            invariant
                i <= self.chunks.len(),
                out@.len() == i,
                forall|k: int| 0 <= k < i ==> (#[trigger] out@[k])@ == store_text(chunk_view(self.chunks@[k])),
            decreases self.chunks.len() - i,
        {
            out.push(format_chunk(&self.chunks[i]));
            i = i + 1;
        }
        assert(views(out@) =~= self@.map_values(
            |c: (Seq<char>, Map<Seq<char>, Seq<char>>)| store_text(c),
        ));
        Ok(out)
    }
}

impl Default for RagPipeline {
    /// An empty pipeline.
    fn default() -> (r: Self)
        ensures
            r@ == Seq::<(Seq<char>, Map<Seq<char>, Seq<char>>)>::empty(),
    {
        RagPipeline::new()
    }
}

} // verus!
