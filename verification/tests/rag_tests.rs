use agent_rs::path::{extension, file_name, name_extension};
use agent_rs::rag::{format_chunk, split_words, Chunk, Document, PdfLoader, RagPipeline, TextLoader, TextSplitter, WordSplitter};

fn meta(doc: &Document, key: &str) -> Option<String> {
    doc.metadata.iter().rev().find(|(k, _)| k == key).map(|(_, v)| v.clone())
}

fn chunk_meta(c: &Chunk, key: &str) -> Option<String> {
    c.metadata.iter().rev().find(|(k, _)| k == key).map(|(_, v)| v.clone())
}

#[test]
fn path_file_names_and_extensions() {
    assert_eq!(file_name("docs/report.pdf"), Some("report.pdf".to_string()));
    assert_eq!(file_name("docs/dir/"), Some("dir".to_string()));
    assert_eq!(file_name("a/."), Some("a".to_string()));
    assert_eq!(file_name("a/.."), None);
    assert_eq!(file_name("/"), None);
    assert_eq!(file_name(""), None);
    assert_eq!(name_extension(".bashrc"), None);
    assert_eq!(name_extension("archive.tar.gz"), Some("gz".to_string()));
    assert_eq!(name_extension("trailing."), Some(String::new()));
    assert_eq!(extension("/x/notes.md"), Some("md".to_string()));
    assert_eq!(extension("/x/Makefile"), None);
}

#[test]
fn split_words_is_split_whitespace() {
    assert_eq!(split_words("  a\tbb \n c  "), vec!["a".to_string(), "bb".to_string(), "c".to_string()]);
    assert!(split_words(" \n ").is_empty());
}

#[test]
fn loaders_fill_metadata() {
    let t = TextLoader::new().document("notes/readme.md", "hi".to_string());
    assert_eq!(t.content, "hi");
    assert_eq!(meta(&t, "source"), Some("readme.md".to_string()));
    assert_eq!(meta(&t, "file_type"), Some("md".to_string()));
    let u = TextLoader::new().document("notes/LICENSE", String::new());
    assert_eq!(meta(&u, "file_type"), Some("txt".to_string()));
    let p = PdfLoader::new().document("/tmp/paper.pdf", "text".to_string());
    assert_eq!(meta(&p, "source"), Some("paper.pdf".to_string()));
    assert_eq!(meta(&p, "file_type"), Some("pdf".to_string()));
}

#[test]
fn word_splitter_windows_overlap() {
    let doc = Document { content: "w1 w2 w3 w4 w5 w6 w7".to_string(), metadata: vec![("source".to_string(), "s.txt".to_string())] };
    let s = WordSplitter::new(3, 1);
    let chunks = s.split(&doc);
    let texts: Vec<String> = chunks.iter().map(|c| c.text.clone()).collect();
    assert_eq!(texts, vec!["w1 w2 w3".to_string(), "w3 w4 w5".to_string(), "w5 w6 w7".to_string()]);
    assert_eq!(chunk_meta(&chunks[2], "chunk_index"), Some("2".to_string()));
    assert_eq!(chunk_meta(&chunks[0], "source"), Some("s.txt".to_string()));
    assert_eq!(chunk_meta(&chunks[0], "file_type"), Some("txt".to_string()));
}

#[test]
fn word_splitter_clamps_its_parameters() {
    let doc = Document { content: "a b c".to_string(), metadata: vec![] };
    let zero = WordSplitter::new(0, 5);
    let texts: Vec<String> = zero.split(&doc).iter().map(|c| c.text.clone()).collect();
    assert_eq!(texts, vec!["a".to_string(), "b".to_string(), "c".to_string()]);
    let over = WordSplitter::new(2, 9);
    let texts: Vec<String> = over.split(&doc).iter().map(|c| c.text.clone()).collect();
    assert_eq!(texts, vec!["a b".to_string(), "b c".to_string()]);
    let empty = Document { content: "   ".to_string(), metadata: vec![] };
    assert!(WordSplitter::default().split(&empty).is_empty());
}

#[test]
fn pipeline_collects_chunks_in_order() {
    let d1 = Document { content: "one two".to_string(), metadata: vec![("source".to_string(), "a".to_string())] };
    let d2 = Document { content: "three".to_string(), metadata: vec![("source".to_string(), "b".to_string())] };
    let s = WordSplitter::new(1, 0);
    let p = RagPipeline::new().add_document(&d1, &s).add_documents(&vec![d2], &s);
    let texts: Vec<String> = p.chunks().iter().map(|c| c.text.clone()).collect();
    assert_eq!(texts, vec!["one".to_string(), "two".to_string(), "three".to_string()]);
    let stored = p.store_texts().unwrap();
    assert_eq!(stored[2], "[source: b | chunk: 0]\nthree");
    assert_eq!(RagPipeline::new().store_texts(), Err("cannot build store with empty chunks".to_string()));
    let more = RagPipeline::default().add_chunks(vec![Chunk { text: "x".to_string(), metadata: vec![] }]);
    assert_eq!(format_chunk(&more.chunks()[0]), "[source: unknown | chunk: 0]\nx");
}

#[test]
fn adding_documents_at_once_equals_adding_them_one_by_one() {
    let d1 = Document { content: "alpha beta gamma".to_string(), metadata: vec![] };
    let d2 = Document { content: "delta".to_string(), metadata: vec![] };
    let s = WordSplitter::new(2, 1);
    let at_once = RagPipeline::new().add_documents(&vec![d1.clone(), d2.clone()], &s);
    let one_by_one = RagPipeline::new().add_document(&d1, &s).add_document(&d2, &s);
    let a: Vec<String> = at_once.chunks().iter().map(|c| c.text.clone()).collect();
    let b: Vec<String> = one_by_one.chunks().iter().map(|c| c.text.clone()).collect();
    assert_eq!(a, b);
    let none = RagPipeline::new().add_document(&d1, &s).add_documents(&vec![], &s);
    assert_eq!(none.chunks().len(), RagPipeline::new().add_document(&d1, &s).chunks().len());
}
