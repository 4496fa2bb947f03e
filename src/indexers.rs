//! Content extractors: each turns a file record into a name and a body of
//! searchable text, and says which file extensions it handles.
use vstd::prelude::*;
use vstd::utf8::{decode_utf8, valid_utf8};

use crate::document::DocumentSchema;
use crate::paths::{contains_str, file_name, file_name_of, same_text};
use crate::record::FileToProcess;
use crate::text::{join_spaced, spaced};

verus! {

/// Why an extractor produced nothing for a file.
#[derive(PartialEq, Eq, Structural, Debug, Clone, Copy)]
pub enum IndexerError {
    /// The contents are not valid UTF-8.
    InvalidUtf8,
    /// The header row of a CSV file could not be read.
    UnreadableCsv,
    /// The pattern that cleans extracted PDF text did not compile.
    InvalidPattern,
    /// The reader of the file's format could not take it apart.
    Unreadable,
}

#[verifier::external_type_specification]
#[verifier::external_body]
pub struct ExCsvError(csv::Error);

/// The header row that the csv crate reads from `data`, with its default
/// reader settings; `None` where it reports an error.
pub uninterp spec fn csv_header_row(data: Seq<u8>) -> Option<Seq<Seq<char>>>;

/// `text` with every match of `pattern` replaced by `replacement`, as the regex
/// crate computes it; `None` where `pattern` does not compile.
pub uninterp spec fn regex_replaced(
    pattern: Seq<char>,
    text: Seq<char>,
    replacement: Seq<char>,
) -> Option<Seq<char>>;

/// Relies on `std::str::from_utf8`, which accepts exactly the valid UTF-8
/// byte sequences.
#[verifier::external_body]
fn utf8_text(data: &[u8]) -> (r: Option<String>)
    ensures
        r is Some <==> valid_utf8(data@),
        r is Some ==> r->Some_0@ == decode_utf8(data@),
{
    std::str::from_utf8(data).ok().map(|s| s.to_string())
}

/// Relies on `csv::Reader::headers`, on a reader made by
/// `csv::Reader::from_reader` over the bytes: it reads the first record.
#[verifier::external_body]
fn csv_headers(data: &[u8]) -> (r: Result<Vec<String>, csv::Error>)
    ensures
        match r {
            Ok(v) => csv_header_row(data@) == Some(v.deep_view()),
            Err(_) => csv_header_row(data@) is None,
        },
{
    let mut reader = csv::Reader::from_reader(data);
    reader.headers().map(|h| h.iter().map(|f| f.to_string()).collect())
}

/// Relies on `regex::Regex::new` and `regex::Regex::replace_all`.
#[verifier::external_body]
fn replace_all(pattern: &str, text: &str, replacement: &str) -> (r: Option<String>)
    ensures
        match r {
            Some(s) => regex_replaced(pattern@, text@, replacement@) == Some(s@),
            None => regex_replaced(pattern@, text@, replacement@) is None,
        },
{
    match regex::Regex::new(pattern) {
        Ok(re) => Some(re.replace_all(text, replacement).to_string()),
        Err(_) => None,
    }
}

/// The extensions of plain text files.
pub open spec fn text_extensions() -> Seq<Seq<char>> {
    seq!["txt"@]
}

pub open spec fn csv_extensions() -> Seq<Seq<char>> {
    seq!["csv"@]
}

pub open spec fn pdf_extensions() -> Seq<Seq<char>> {
    seq!["pdf"@]
}

pub open spec fn spreadsheet_extensions() -> Seq<Seq<char>> {
    seq!["xlsx"@]
}

pub open spec fn slideshow_extensions() -> Seq<Seq<char>> {
    seq!["pptx"@]
}

pub open spec fn docx_extensions() -> Seq<Seq<char>> {
    seq!["docx"@]
}

pub open spec fn exif_extensions() -> Seq<Seq<char>> {
    seq!["tif"@, "tiff"@, "jpg"@, "jpeg"@]
}

pub open spec fn image_extensions() -> Seq<Seq<char>> {
    seq!["tif"@, "tiff"@, "jpg"@, "jpeg"@, "png"@, "bmp"@, "ico"@, "gif"@]
}

/// What the text extractor returns for `file`: the document named after the
/// file, with the decoded contents as its body; an error exactly when the
/// contents are not valid UTF-8.
pub open spec fn text_indexed(file: FileToProcess, r: Result<DocumentSchema, IndexerError>) -> bool {
    match r {
        Ok(d) => valid_utf8(file.contents@) && d.name@ == file_name_of(file.path@) && d.body@
            == decode_utf8(file.contents@),
        Err(e) => !valid_utf8(file.contents@) && e == IndexerError::InvalidUtf8,
    }
}

/// What the CSV extractor returns for `file`: the document named by the
/// file's path, whose body is the header fields, each followed by a space;
/// an error exactly when the header row cannot be read.
pub open spec fn csv_indexed(file: FileToProcess, r: Result<DocumentSchema, IndexerError>) -> bool {
    match r {
        Ok(d) => csv_header_row(file.contents@) is Some && d.name@ == file.path@ && d.body@
            == spaced(csv_header_row(file.contents@)->Some_0),
        Err(e) => csv_header_row(file.contents@) is None && e == IndexerError::UnreadableCsv,
    }
}

/// Extracts plain text: the whole contents, decoded as UTF-8.
pub struct TextIndexer;

impl TextIndexer {
    pub fn supports_extension(&self, extension: &str) -> (r: bool)
        ensures
            r == text_extensions().contains(extension@),
    {
        let r = same_text(extension, "txt");
        assert(r ==> text_extensions()[0] == extension@);
        r
    }

    pub fn supported_extensions(&self) -> (r: Vec<String>)
        ensures
            r.deep_view() == text_extensions(),
    {
        let r = vec![String::from_str("txt")];
        assert(r.deep_view() =~= text_extensions());
        r
    }

    /// Names the document after the file and takes the decoded contents as
    /// its body; fails exactly when the contents are not valid UTF-8.
    pub fn index_file(&self, file: &FileToProcess) -> (r: Result<DocumentSchema, IndexerError>)
        ensures
            text_indexed(*file, r),
    {
        match utf8_text(file.contents.as_slice()) {
            Some(body) => {
                let name = String::from_str(file_name(file.path.as_str()));
                Ok(DocumentSchema { name, body })
            },
            None => Err(IndexerError::InvalidUtf8),
        }
    }
}

/// Extracts the header row of a CSV file.
pub struct CsvIndexer;

impl CsvIndexer {
    pub fn supports_extension(&self, extension: &str) -> (r: bool)
        ensures
            r == csv_extensions().contains(extension@),
    {
        let r = same_text(extension, "csv");
        assert(r ==> csv_extensions()[0] == extension@);
        r
    }

    pub fn supported_extensions(&self) -> (r: Vec<String>)
        ensures
            r.deep_view() == csv_extensions(),
    {
        let r = vec![String::from_str("csv")];
        assert(r.deep_view() =~= csv_extensions());
        r
    }

    /// Names the document by the file's path; its body is the header fields,
    /// each followed by a space.
    pub fn index_file(&self, file: &FileToProcess) -> (r: Result<DocumentSchema, IndexerError>)
        ensures
            csv_indexed(*file, r),
    {
        match csv_headers(file.contents.as_slice()) {
            Ok(fields) => Ok(DocumentSchema { name: file.path(), body: join_spaced(&fields) }),
            Err(_) => Err(IndexerError::UnreadableCsv),
        }
    }
}

/// The pattern of a soft break in extracted PDF text: a space that ends a word.
pub open spec fn soft_break_pattern() -> Seq<char> {
    "\\b "@
}

/// Cleans the text that was extracted from a PDF file.
pub struct PdfIndexer;

impl PdfIndexer {
    pub fn supports_extension(&self, extension: &str) -> (r: bool)
        ensures
            r == pdf_extensions().contains(extension@),
    {
        let r = same_text(extension, "pdf");
        assert(r ==> pdf_extensions()[0] == extension@);
        r
    }

    pub fn supported_extensions(&self) -> (r: Vec<String>)
        ensures
            r.deep_view() == pdf_extensions(),
    {
        let r = vec![String::from_str("pdf")];
        assert(r.deep_view() =~= pdf_extensions());
        r
    }

    /// The document of a PDF file whose page text is `text`: no name, and the
    /// text with its soft breaks removed.
    pub fn index_text(&self, text: &str) -> (r: Result<DocumentSchema, IndexerError>)
        ensures
            match r {
                Ok(d) => d.name@.len() == 0 && regex_replaced(soft_break_pattern(), text@, ""@)
                    == Some(d.body@),
                Err(e) => regex_replaced(soft_break_pattern(), text@, ""@) is None && e
                    == IndexerError::InvalidPattern,
            },
    {
        match replace_all("\\b ", text, "") {
            Some(body) => Ok(DocumentSchema { name: String::new(), body }),
            None => Err(IndexerError::InvalidPattern),
        }
    }
}

/// Word documents are recognised but yield no text.
pub struct DocxIndexer;

impl DocxIndexer {
    pub fn supports_extension(&self, extension: &str) -> (r: bool)
        ensures
            r == docx_extensions().contains(extension@),
    {
        let r = same_text(extension, "docx");
        assert(r ==> docx_extensions()[0] == extension@);
        r
    }

    pub fn supported_extensions(&self) -> (r: Vec<String>)
        ensures
            r.deep_view() == docx_extensions(),
    {
        let r = vec![String::from_str("docx")];
        assert(r.deep_view() =~= docx_extensions());
        r
    }

    /// An empty document.
    pub fn index_file(&self, file: &FileToProcess) -> (r: Result<DocumentSchema, IndexerError>)
        ensures
            r matches Ok(d) && d.name@.len() == 0 && d.body@.len() == 0,
    {
        Ok(DocumentSchema { name: String::new(), body: String::new() })
    }
}

/// Reads the GPS position of a photograph; its body names the place.
pub struct ExifIndexer;

impl ExifIndexer {
    pub fn supports_extension(&self, extension: &str) -> (r: bool)
        ensures
            r == exif_extensions().contains(extension@),
    {
        contains_str(&self.supported_extensions(), extension)
    }

    pub fn supported_extensions(&self) -> (r: Vec<String>)
        ensures
            r.deep_view() == exif_extensions(),
    {
        let r = vec![
            String::from_str("tif"),
            String::from_str("tiff"),
            String::from_str("jpg"),
            String::from_str("jpeg"),
        ];
        assert(r.deep_view() =~= exif_extensions());
        r
    }

    /// The document of a photograph taken at the named place: no name, and
    /// the place's name, first and second administrative areas and country,
    /// separated by spaces.
    pub fn index_place(&self, name: &str, admin1: &str, admin2: &str, country: &str) -> (r:
        DocumentSchema)
        ensures
            r.name@.len() == 0,
            r.body@ == name@ + seq![' '] + admin1@ + seq![' '] + admin2@ + seq![' '] + country@,
    {
        proof {
            reveal_strlit(" ");
        }
        let mut body = String::from_str(name);
        body.append(" ");
        body.append(admin1);
        body.append(" ");
        body.append(admin2);
        body.append(" ");
        body.append(country);
        DocumentSchema { name: String::new(), body }
    }
}

/// Labels images with an image classifier.
pub struct MobileNetV2Indexer;

impl MobileNetV2Indexer {
    pub fn supports_extension(&self, extension: &str) -> (r: bool)
        ensures
            r == image_extensions().contains(extension@),
    {
        contains_str(&self.supported_extensions(), extension)
    }

    pub fn supported_extensions(&self) -> (r: Vec<String>)
        ensures
            r.deep_view() == image_extensions(),
    {
        let r = vec![
            String::from_str("tif"),
            String::from_str("tiff"),
            String::from_str("jpg"),
            String::from_str("jpeg"),
            String::from_str("png"),
            String::from_str("bmp"),
            String::from_str("ico"),
            String::from_str("gif"),
        ];
        assert(r.deep_view() =~= image_extensions());
        r
    }

    /// The document of an image whose best class is `label`.
    pub fn index_label(&self, label: &str) -> (r: DocumentSchema)
        ensures
            r.name@.len() == 0,
            r.body@ == label@,
    {
        DocumentSchema { name: String::new(), body: String::from_str(label) }
    }
}

/// A cell of a worksheet.
pub enum CellValue {
    Text(String),
    Other,
}

/// A worksheet as read from a workbook: its used cells in reading order, or
/// `readable == false` where the sheet could not be read.
pub struct Worksheet {
    pub readable: bool,
    pub cells: Vec<CellValue>,
}

pub open spec fn cell_text(c: CellValue) -> Seq<char> {
    match c {
        CellValue::Text(s) => s@ + seq![' '],
        CellValue::Other => Seq::empty(),
    }
}

pub open spec fn cells_text(cells: Seq<CellValue>) -> Seq<char>
    decreases cells.len(),
{
    if cells.len() == 0 {
        Seq::empty()
    } else {
        cells_text(cells.drop_last()) + cell_text(cells.last())
    }
}

/// The string cells of every readable sheet, each followed by a space.
pub open spec fn sheets_text(sheets: Seq<Worksheet>) -> Seq<char>
    decreases sheets.len(),
{
    if sheets.len() == 0 {
        Seq::empty()
    } else {
        sheets_text(sheets.drop_last()) + if sheets.last().readable {
            cells_text(sheets.last().cells@)
        } else {
            Seq::empty()
        }
    }
}

/// Collects the strings of a workbook.
pub struct SpreadsheetIndexer;

impl SpreadsheetIndexer {
    pub fn supports_extension(&self, extension: &str) -> (r: bool)
        ensures
            r == spreadsheet_extensions().contains(extension@),
    {
        let r = same_text(extension, "xlsx");
        assert(r ==> spreadsheet_extensions()[0] == extension@);
        r
    }

    pub fn supported_extensions(&self) -> (r: Vec<String>)
        ensures
            r.deep_view() == spreadsheet_extensions(),
    {
        let r = vec![String::from_str("xlsx")];
        assert(r.deep_view() =~= spreadsheet_extensions());
        r
    }

    /// The document of a workbook with these sheets: no name, and every
    /// string cell of every readable sheet, each followed by a space.
    pub fn index_sheets(&self, sheets: &Vec<Worksheet>) -> (r: DocumentSchema)
        ensures
            r.name@.len() == 0,
            r.body@ == sheets_text(sheets@),
    {
        let mut body = String::new();
        let mut i: usize = 0;
        while i < sheets.len()
            invariant
                i <= sheets.len(),
                body@ == sheets_text(sheets@.take(i as int)),
            decreases sheets.len() - i,
        {
            assert(sheets@.take(i + 1).drop_last() =~= sheets@.take(i as int));
            let sheet = &sheets[i];
            if sheet.readable {
                let ghost before = body@;
                let mut j: usize = 0;
                while j < sheet.cells.len()
                    invariant
                        j <= sheet.cells.len(),
                        body@ == before + cells_text(sheet.cells@.take(j as int)),
                    decreases sheet.cells.len() - j,
                {
                    proof {
                        reveal_strlit(" ");
                    }
                    assert(sheet.cells@.take(j + 1).drop_last() =~= sheet.cells@.take(j as int));
                    match &sheet.cells[j] {
                        CellValue::Text(t) => {
                            body.append(t.as_str());
                            body.append(" ");
                        },
                        CellValue::Other => {},
                    }
                    assert(body@ =~= before + cells_text(sheet.cells@.take(j + 1)));
                    j = j + 1;
                }
                assert(sheet.cells@.take(sheet.cells.len() as int) =~= sheet.cells@);
            }
            assert(body@ =~= sheets_text(sheets@.take(i + 1)));
            i = i + 1;
        }
        assert(sheets@.take(sheets.len() as int) =~= sheets@);
        DocumentSchema { name: String::new(), body }
    }
}

/// A shape of a slide.
pub enum Shape {
    /// A shape with text: its regular text runs, paragraph by paragraph.
    Text(Vec<String>),
    /// A group of shapes.
    Group(Vec<Shape>),
    Other,
}

/// The text of a shape: each run followed by a space; for a group, the
/// non-empty text of each member followed by a space.
pub open spec fn shape_text(s: Shape) -> Seq<char>
    decreases s,
{
    match s {
        Shape::Text(runs) => spaced(runs.deep_view()),
        Shape::Group(members) => members_text(members@),
        Shape::Other => Seq::empty(),
    }
}

pub open spec fn members_text(members: Seq<Shape>) -> Seq<char>
    decreases members,
{
    if members.len() == 0 {
        Seq::empty()
    } else {
        let t = shape_text(members.last());
        members_text(members.drop_last()) + if t.len() > 0 {
            t + seq![' ']
        } else {
            Seq::empty()
        }
    }
}

/// The text of every shape, without separators.
pub open spec fn shapes_text(shapes: Seq<Shape>) -> Seq<char>
    decreases shapes.len(),
{
    if shapes.len() == 0 {
        Seq::empty()
    } else {
        shapes_text(shapes.drop_last()) + shape_text(shapes.last())
    }
}

pub open spec fn slides_text(slides: Seq<Vec<Shape>>) -> Seq<char>
    decreases slides.len(),
{
    if slides.len() == 0 {
        Seq::empty()
    } else {
        slides_text(slides.drop_last()) + shapes_text(slides.last()@)
    }
}

/// The text of a shape, if it has any.
pub fn extract_text(shape: &Shape) -> (r: Option<String>)
    ensures
        match r {
            Some(t) => t@ == shape_text(*shape) && t@.len() > 0,
            None => shape_text(*shape).len() == 0,
        },
    decreases shape,
{
    let mut total = String::new();
    match shape {
        Shape::Text(runs) => {
            total = join_spaced(runs);
        },
        Shape::Group(members) => {
            let mut i: usize = 0;
            while i < members.len()
                invariant
                    i <= members.len(),
                    *shape == Shape::Group(*members),
                    total@ == members_text(members@.take(i as int)),
                decreases members.len() - i,
            {
                proof {
                    reveal_strlit(" ");
                }
                assert(members@.take(i + 1).drop_last() =~= members@.take(i as int));
                proof {
                    assert(decreases_to!(*shape => (*shape)->Group_0));
                    assert(decreases_to!(*members => members@));
                    assert(decreases_to!(members@ => members@[i as int]));
                }
                match extract_text(&members[i]) {
                    Some(t) => {
                        total.append(t.as_str());
                        total.append(" ");
                    },
                    None => {},
                }
                assert(total@ =~= members_text(members@.take(i + 1)));
                i = i + 1;
            }
            assert(members@.take(members.len() as int) =~= members@);
        },
        Shape::Other => {},
    }
    if total.as_str().unicode_len() > 0 {
        Some(total)
    } else {
        None
    }
}

/// Collects the text of a slideshow.
pub struct PptxIndexer;

impl PptxIndexer {
    pub fn supports_extension(&self, extension: &str) -> (r: bool)
        ensures
            r == slideshow_extensions().contains(extension@),
    {
        let r = same_text(extension, "pptx");
        assert(r ==> slideshow_extensions()[0] == extension@);
        r
    }

    pub fn supported_extensions(&self) -> (r: Vec<String>)
        ensures
            r.deep_view() == slideshow_extensions(),
    {
        let r = vec![String::from_str("pptx")];
        assert(r.deep_view() =~= slideshow_extensions());
        r
    }

    /// The document of a slideshow with these slides, each given as its
    /// shapes: no name, and the text of every shape.
    pub fn index_slides(&self, slides: &Vec<Vec<Shape>>) -> (r: DocumentSchema)
        ensures
            r.name@.len() == 0,
            r.body@ == slides_text(slides@),
    {
        let mut body = String::new();
        let mut i: usize = 0;
        while i < slides.len()
            invariant
                i <= slides.len(),
                body@ == slides_text(slides@.take(i as int)),
            decreases slides.len() - i,
        {
            assert(slides@.take(i + 1).drop_last() =~= slides@.take(i as int));
            let shapes = &slides[i];
            let ghost before = body@;
            let mut j: usize = 0;
            while j < shapes.len()
                invariant
                    j <= shapes.len(),
                    body@ == before + shapes_text(shapes@.take(j as int)),
                decreases shapes.len() - j,
            {
                assert(shapes@.take(j + 1).drop_last() =~= shapes@.take(j as int));
                match extract_text(&shapes[j]) {
                    Some(t) => {
                        body.append(t.as_str());
                    },
                    None => {},
                }
                assert(body@ =~= before + shapes_text(shapes@.take(j + 1)));
                j = j + 1;
            }
            assert(shapes@.take(shapes.len() as int) =~= shapes@);
            assert(body@ =~= slides_text(slides@.take(i + 1)));
            i = i + 1;
        }
        assert(slides@.take(slides.len() as int) =~= slides@);
        DocumentSchema { name: String::new(), body }
    }
}

} // verus!
