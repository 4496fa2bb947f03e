use podium::analyzer::{analyze, extractors_for, index_in_memory, Analyzer, Extractor};
use podium::document::DocumentSchema;
use podium::indexers::{
    extract_text, CellValue, CsvIndexer, DocxIndexer, ExifIndexer, IndexerError,
    MobileNetV2Indexer, PdfIndexer, PptxIndexer, Shape, SpreadsheetIndexer, TextIndexer,
    Worksheet,
};
use podium::record::new_file_to_process;

#[test]
fn test_indexing_csv_file() {
    let contents = b"first_name,last_name,street,city,state,postal_code\nJohn,Doe,Main,Springfield,IL,62701\n".to_vec();
    let file = new_file_to_process("./test_files/data.csv".to_string(), contents);
    let indexed_document = CsvIndexer.index_file(&file).unwrap();

    assert_eq!(indexed_document.name, "./test_files/data.csv");
    assert_eq!(
        indexed_document.body,
        "first_name last_name street city state postal_code "
    );
}

#[test]
fn test_supports_csv_extension() {
    assert_eq!(true, CsvIndexer.supports_extension("csv"));
    assert_eq!(false, CsvIndexer.supports_extension("xslx"));
}

#[test]
fn test_indexing_exif_file() {
    let indexed_document =
        ExifIndexer.index_place("Pacureti", "Prahova", "Comuna Pacureti", "RO");

    assert_eq!(indexed_document.name, "");
    assert_eq!(indexed_document.body, "Pacureti Prahova Comuna Pacureti RO");
}

#[test]
fn exif_indexer_test_indexing_text_file() {
    let indexed_document =
        ExifIndexer.index_place("Pacureti", "Prahova", "Comuna Pacureti", "RO");

    assert_eq!(indexed_document.name, "");
    assert_eq!(indexed_document.body, "Pacureti Prahova Comuna Pacureti RO");
}

#[test]
fn test_supports_exif_extension() {
    assert_eq!(true, ExifIndexer.supports_extension("tif"));
    assert_eq!(true, ExifIndexer.supports_extension("tiff"));
    assert_eq!(true, ExifIndexer.supports_extension("jpg"));
    assert_eq!(true, ExifIndexer.supports_extension("jpeg"));
    assert_eq!(false, ExifIndexer.supports_extension("png"));
}

#[test]
fn exif_indexer_test_supports_text_extension() {
    assert_eq!(true, ExifIndexer.supports_extension("tif"));
    assert_eq!(true, ExifIndexer.supports_extension("tiff"));
    assert_eq!(true, ExifIndexer.supports_extension("jpg"));
    assert_eq!(true, ExifIndexer.supports_extension("jpeg"));
    assert_eq!(false, ExifIndexer.supports_extension("png"));
}

#[test]
fn mobile_net_v2_indexer_test_supports_mobile_net_v2_extension() {
    assert_eq!(true, MobileNetV2Indexer.supports_extension("tif"));
    assert_eq!(true, MobileNetV2Indexer.supports_extension("tiff"));
    assert_eq!(true, MobileNetV2Indexer.supports_extension("jpg"));
    assert_eq!(true, MobileNetV2Indexer.supports_extension("jpeg"));
    assert_eq!(true, MobileNetV2Indexer.supports_extension("png"));
    assert_eq!(true, MobileNetV2Indexer.supports_extension("bmp"));
    assert_eq!(true, MobileNetV2Indexer.supports_extension("ico"));
    assert_eq!(true, MobileNetV2Indexer.supports_extension("gif"));
    assert_eq!(false, MobileNetV2Indexer.supports_extension("webp"));
}

#[test]
fn mobile_net_v2_label_becomes_body() {
    let doc = MobileNetV2Indexer.index_label("eggnog");
    assert_eq!(doc.name, "");
    assert_eq!(doc.body, "eggnog");
}

#[test]
fn pdf_indexer_test_supports_pdf_extension() {
    assert_eq!(true, PdfIndexer.supports_extension("pdf"));
    assert_eq!(false, PdfIndexer.supports_extension("docx"))
}

#[test]
fn pdf_text_loses_soft_breaks() {
    let doc = PdfIndexer.index_text("Ca ts have pa ws.  ").unwrap();
    assert_eq!(doc.name, "");
    assert_eq!(doc.body, "Catshavepaws.  ");
}

#[test]
fn pptx_indexer_test_supports_pptgx_extension() {
    assert_eq!(true, PptxIndexer.supports_extension("pptx"));
    assert_eq!(false, PptxIndexer.supports_extension("ppt"));
}

#[test]
fn pptx_indexer_test_indexing_pptx_file() {
    let title = Shape::Text(vec!["Cats".to_string()]);
    let story = Shape::Group(vec![
        Shape::Text(vec!["A quick".to_string(), "story".to_string()]),
        Shape::Other,
        Shape::Group(vec![Shape::Text(vec!["Paws are cool".to_string()])]),
    ]);
    let slides = vec![vec![title], vec![Shape::Other, story]];
    let indexed_document = PptxIndexer.index_slides(&slides);

    assert_eq!(indexed_document.name, "");
    assert!(indexed_document.body.contains("Cats"));
    assert!(indexed_document.body.contains("quick"));
    assert!(indexed_document.body.contains("story"));
    assert!(indexed_document.body.contains("Paws"));
    assert!(indexed_document.body.contains("cool"));
    assert_eq!(
        indexed_document.body,
        "Cats A quick story  Paws are cool   "
    );
}

#[test]
fn shape_without_text_yields_nothing() {
    assert_eq!(extract_text(&Shape::Other), None);
    assert_eq!(extract_text(&Shape::Group(vec![Shape::Other])), None);
    assert_eq!(
        extract_text(&Shape::Text(vec!["a".to_string(), "b".to_string()])),
        Some("a b ".to_string())
    );
}

#[test]
fn spreadsheet_indexer_test_supports_spreadsheet_extension() {
    assert_eq!(true, SpreadsheetIndexer.supports_extension("xlsx"));
    assert_eq!(false, SpreadsheetIndexer.supports_extension("xls"));
}

#[test]
fn spreadsheet_indexer_test_indexing_spreadsheet_file() {
    let text = |s: &str| CellValue::Text(s.to_string());
    let sheets = vec![
        Worksheet {
            readable: true,
            cells: vec![
                text("this sheet is about cats"),
                CellValue::Other,
                text("cats have paws"),
                text("they're pretty cool"),
            ],
        },
        Worksheet { readable: false, cells: vec![text("never read")] },
        Worksheet {
            readable: true,
            cells: vec![
                text("Horses are also an animal"),
                text("Horses don't have paws"),
                CellValue::Other,
                text("Weird isn't it?"),
            ],
        },
    ];
    let indexed_document = SpreadsheetIndexer.index_sheets(&sheets);

    assert_eq!(indexed_document.name, "");
    assert_eq!(indexed_document.body, "this sheet is about cats cats have paws they're pretty cool Horses are also an animal Horses don't have paws Weird isn't it? ");
}

#[test]
fn text_indexer_test_indexing_text_file() {
    let file = new_file_to_process(
        "./test_files/file.txt".to_string(),
        b"this is a file with some contents in it".to_vec(),
    );
    let indexed_document = TextIndexer.index_file(&file).unwrap();

    assert_eq!(indexed_document.name, "file.txt");
    assert_eq!(
        indexed_document.body,
        "this is a file with some contents in it"
    );
}

#[test]
fn text_indexer_test_supports_text_extension() {
    assert_eq!(true, TextIndexer.supports_extension("txt"));
    assert_eq!(false, TextIndexer.supports_extension("png"));
}

#[test]
fn text_indexer_rejects_invalid_utf8() {
    let file = new_file_to_process("/tmp/t/bad.txt".to_string(), vec![0x66, 0xff, 0xfe]);
    assert_eq!(TextIndexer.index_file(&file).err(), Some(IndexerError::InvalidUtf8));
}

#[test]
fn csv_indexer_rejects_unequal_rows() {
    let file = new_file_to_process("/tmp/t/bad.csv".to_string(), vec![0xff, 0xfe, b'\n']);
    assert_eq!(CsvIndexer.index_file(&file).err(), Some(IndexerError::UnreadableCsv));
}

#[test]
fn docx_yields_empty_document() {
    let file = new_file_to_process("/tmp/t/a.docx".to_string(), vec![1, 2, 3]);
    let doc = DocxIndexer.index_file(&file).unwrap();
    assert_eq!(doc.name, "");
    assert_eq!(doc.body, "");
    assert!(DocxIndexer.supports_extension("docx"));
}

#[test]
fn registry_dispatches_by_extension() {
    assert_eq!(extractors_for("jpeg"), vec![Extractor::Exif, Extractor::MobileNetV2]);
    assert_eq!(extractors_for("png"), vec![Extractor::MobileNetV2]);
    assert_eq!(extractors_for("txt"), vec![Extractor::Text]);
    assert_eq!(extractors_for("bin"), Vec::<Extractor>::new());
}

#[test]
fn analyzer_lists_each_extension_once() {
    let analyzer = Analyzer::default();
    let mut exts = analyzer.supported_extensions.clone();
    exts.sort();
    let expected = vec![
        "bmp", "csv", "gif", "ico", "jpeg", "jpg", "pdf", "png", "pptx", "tif", "tiff", "txt",
        "xlsx",
    ];
    assert_eq!(exts, expected);
    assert!(analyzer.supports("csv"));
    assert!(!analyzer.supports("bin"));
}

#[test]
fn analyze_keeps_successes_in_order() {
    let outcomes = vec![
        Ok(DocumentSchema { name: "a".to_string(), body: "x".to_string() }),
        Err(IndexerError::InvalidUtf8),
        Ok(DocumentSchema { name: "".to_string(), body: "y".to_string() }),
    ];
    let fields = analyze(&outcomes);
    assert_eq!(fields.len(), 2);
    assert_eq!(fields[0].name, "a");
    assert_eq!(fields[1].body, "y");
}

#[test]
fn in_memory_extractors_run_on_the_record() {
    let file = new_file_to_process("/tmp/t/a.txt".to_string(), b"alpha".to_vec());
    let out = index_in_memory(Extractor::Text, &file).unwrap().unwrap();
    assert_eq!(out.body, "alpha");
    assert!(index_in_memory(Extractor::Pdf, &file).is_none());
}
