use std::io::Write;
use wikigraph::extractor::PipelineError;
use wikigraph::pipeline::ingest_bytes;
use wikigraph::source::{classify_input, classify_name, SourceKind};

const DOC: &str = "<mediawiki><page><title>Example</title><text>See [[Rust (programming language)|Rust]] and [[WebAssembly]].</text></page><page><title>Second</title><text>No links here.</text></page></mediawiki>";

fn bz_compress(data: &[u8]) -> Vec<u8> {
    let mut enc = bzip2::write::BzEncoder::new(Vec::new(), bzip2::Compression::default());
    enc.write_all(data).unwrap();
    enc.finish().unwrap()
}

#[test]
fn classification_is_by_case_insensitive_suffix() {
    assert_eq!(
        classify_name("enwiki-latest-pages-articles-multistream.xml.bz2"),
        SourceKind::MultiStreamBz
    );
    assert_eq!(classify_name("ENWIKI-MULTISTREAM.XML.BZ2"), SourceKind::MultiStreamBz);
    assert_eq!(classify_name("dump.xml.bz2"), SourceKind::SingleBz);
    assert_eq!(classify_name("Dump.XML.Bz2"), SourceKind::SingleBz);
    assert_eq!(classify_name("dump.xml"), SourceKind::Raw);
    assert_eq!(classify_name("notes.txt"), SourceKind::Raw);
}

#[test]
fn invalid_inputs_are_rejected_before_any_pipeline() {
    assert!(matches!(classify_input(false, Some("a.xml")), Err(PipelineError::InvalidInput)));
    assert!(matches!(classify_input(true, None), Err(PipelineError::InvalidInput)));
    assert!(matches!(classify_input(true, Some("a.xml")), Ok(SourceKind::Raw)));
}

#[test]
fn raw_document_yields_expected_edges() {
    let store = ingest_bytes("dump.xml", DOC.as_bytes().to_vec()).unwrap();
    let rows = store.rows();
    assert_eq!(rows.len(), 2);
    assert_eq!(rows[0].source, "Example");
    assert_eq!(rows[0].target, "Rust (programming language)");
    assert_eq!(rows[1].source, "Example");
    assert_eq!(rows[1].target, "WebAssembly");
}

#[test]
fn compressed_document_yields_identical_edges() {
    let raw = ingest_bytes("dump.xml", DOC.as_bytes().to_vec()).unwrap();
    let bz = ingest_bytes("dump.xml.bz2", bz_compress(DOC.as_bytes())).unwrap();
    let raw_rows = raw.rows();
    let bz_rows = bz.rows();
    assert_eq!(raw_rows.len(), bz_rows.len());
    for k in 0..raw_rows.len() {
        assert_eq!(raw_rows[k].source, bz_rows[k].source);
        assert_eq!(raw_rows[k].target, bz_rows[k].target);
    }
}

#[test]
fn multistream_document_yields_identical_edges() {
    let raw = ingest_bytes("dump.xml", DOC.as_bytes().to_vec()).unwrap();
    let multi = ingest_bytes(
        "enwiki-multistream.xml.bz2",
        bz_compress(DOC.as_bytes()),
    )
    .unwrap();
    let raw_rows = raw.rows();
    let multi_rows = multi.rows();
    assert_eq!(raw_rows.len(), multi_rows.len());
    for k in 0..raw_rows.len() {
        assert_eq!(raw_rows[k].source, multi_rows[k].source);
        assert_eq!(raw_rows[k].target, multi_rows[k].target);
    }
}

#[test]
fn empty_document_yields_empty_indexed_store() {
    let store = ingest_bytes("empty.xml", Vec::new()).unwrap();
    assert_eq!(store.len(), 0);
    assert!(store.rows().is_empty());
}

#[test]
fn malformed_compressed_stream_is_a_decode_error() {
    let err = ingest_bytes("dump.xml.bz2", b"this is not a compressed stream".to_vec())
        .unwrap_err();
    assert!(matches!(err, PipelineError::DecodeError));
}

#[test]
fn title_only_document_is_malformed() {
    let doc = "<mediawiki><page><title>Orphan</title></page></mediawiki>";
    let err = ingest_bytes("dump.xml", doc.as_bytes().to_vec()).unwrap_err();
    assert!(matches!(err, PipelineError::MalformedDocument { .. }));
}

#[test]
fn text_only_document_is_malformed() {
    let doc = "<mediawiki><page><text>stray body</text></page></mediawiki>";
    let err = ingest_bytes("dump.xml", doc.as_bytes().to_vec()).unwrap_err();
    assert!(matches!(err, PipelineError::MalformedDocument { .. }));
}

#[test]
fn entities_flow_through_the_whole_pipeline() {
    let doc = "<d><title>A&amp;B</title><text>x [[C&amp;D]] y</text></d>";
    let store = ingest_bytes("dump.xml", doc.as_bytes().to_vec()).unwrap();
    let rows = store.rows();
    assert_eq!(rows.len(), 1);
    assert_eq!(rows[0].source, "A&B");
    assert_eq!(rows[0].target, "C&D");
}
