//! The registry of extractors: which of them handle an extension, and how
//! their results combine.
use vstd::prelude::*;

use crate::document::DocumentSchema;
use crate::indexers::{
    csv_extensions, exif_extensions, image_extensions, pdf_extensions, slideshow_extensions,
    spreadsheet_extensions, text_extensions, text_indexed, csv_indexed, CsvIndexer, ExifIndexer, IndexerError,
    MobileNetV2Indexer, PdfIndexer, PptxIndexer, SpreadsheetIndexer, TextIndexer,
};
use crate::maintainer::fields_view;
use crate::paths::contains_str;
use crate::record::FileToProcess;

verus! {

/// One registered extractor.
#[derive(PartialEq, Eq, Structural, Clone, Copy, Debug)]
pub enum Extractor {
    Text,
    Exif,
    MobileNetV2,
    Pptx,
    Csv,
    Spreadsheet,
    Pdf,
}

/// The registered extractors, in the order in which they run.
pub open spec fn registry() -> Seq<Extractor> {
    seq![
        Extractor::Text,
        Extractor::Exif,
        Extractor::MobileNetV2,
        Extractor::Pptx,
        Extractor::Csv,
        Extractor::Spreadsheet,
        Extractor::Pdf,
    ]
}

pub open spec fn extensions_of(e: Extractor) -> Seq<Seq<char>> {
    match e {
        Extractor::Text => text_extensions(),
        Extractor::Exif => exif_extensions(),
        Extractor::MobileNetV2 => image_extensions(),
        Extractor::Pptx => slideshow_extensions(),
        Extractor::Csv => csv_extensions(),
        Extractor::Spreadsheet => spreadsheet_extensions(),
        Extractor::Pdf => pdf_extensions(),
    }
}

/// Holds of the extractors that handle `extension`.
pub open spec fn handles(extension: Seq<char>) -> spec_fn(Extractor) -> bool {
    |e: Extractor| extensions_of(e).contains(extension)
}

/// Whether some registered extractor handles `extension`.
pub open spec fn supported(extension: Seq<char>) -> bool {
    exists|k: int| 0 <= k < registry().len() && #[trigger] extensions_of(registry()[k]).contains(extension)
}

/// The registered extractors, in order.
pub fn registered_extractors() -> (r: Vec<Extractor>)
    ensures
        r@ == registry(),
{
    let r = vec![
        Extractor::Text,
        Extractor::Exif,
        Extractor::MobileNetV2,
        Extractor::Pptx,
        Extractor::Csv,
        Extractor::Spreadsheet,
        Extractor::Pdf,
    ];
    assert(r@ =~= registry());
    r
}

/// The extensions that `e` handles.
pub fn extractor_extensions(e: Extractor) -> (r: Vec<String>)
    ensures
        r.deep_view() == extensions_of(e),
{
    match e {
        Extractor::Text => TextIndexer.supported_extensions(),
        Extractor::Exif => ExifIndexer.supported_extensions(),
        Extractor::MobileNetV2 => MobileNetV2Indexer.supported_extensions(),
        Extractor::Pptx => PptxIndexer.supported_extensions(),
        Extractor::Csv => CsvIndexer.supported_extensions(),
        Extractor::Spreadsheet => SpreadsheetIndexer.supported_extensions(),
        Extractor::Pdf => PdfIndexer.supported_extensions(),
    }
}

/// Whether `e` handles `extension`.
pub fn extractor_supports(e: Extractor, extension: &str) -> (r: bool)
    ensures
        r == extensions_of(e).contains(extension@),
{
    match e {
        Extractor::Text => TextIndexer.supports_extension(extension),
        Extractor::Exif => ExifIndexer.supports_extension(extension),
        Extractor::MobileNetV2 => MobileNetV2Indexer.supports_extension(extension),
        Extractor::Pptx => PptxIndexer.supports_extension(extension),
        Extractor::Csv => CsvIndexer.supports_extension(extension),
        Extractor::Spreadsheet => SpreadsheetIndexer.supports_extension(extension),
        Extractor::Pdf => PdfIndexer.supports_extension(extension),
    }
}

/// The registered extractors that handle `extension`, in registry order.
pub fn extractors_for(extension: &str) -> (r: Vec<Extractor>)
    ensures
        r@ == registry().filter(handles(extension@)),
{
    let all = registered_extractors();
    let ghost pred = handles(extension@);
    let mut r: Vec<Extractor> = Vec::new();
    let mut i: usize = 0;
    while i < all.len()
        invariant
            i <= all.len(),
            all@ == registry(),
            pred == handles(extension@),
            r@ == all@.take(i as int).filter(pred),
        decreases all.len() - i,
    {
        proof {
            assert(all@.take(i + 1) == all@.take(i as int).push(all@[i as int]));
            all@.take(i as int).lemma_filter_push(all@[i as int], pred);
        }
        if extractor_supports(all[i], extension) {
            r.push(all[i]);
        }
        i = i + 1;
    }
    assert(all@.take(all.len() as int) =~= all@);
    r
}

/// Container for the extensions that the registered extractors handle.
pub struct Analyzer {
    /// Every extension that some extractor handles, each once.
    pub supported_extensions: Vec<String>,
}

impl Default for Analyzer {
    fn default() -> (r: Analyzer)
        ensures
            r.wf(),
    {
        Analyzer::new()
    }
}

impl Analyzer {
    pub open spec fn wf(&self) -> bool {
        &&& self.supported_extensions.deep_view().no_duplicates()
        &&& forall|x: Seq<char>| #[trigger]
            self.supported_extensions.deep_view().contains(x) <==> supported(x)
    }

    /// The union of the extensions of every registered extractor.
    pub fn new() -> (r: Analyzer)
        ensures
            r.wf(),
    {
        let all = registered_extractors();
        let mut exts: Vec<String> = Vec::new();
        let mut i: usize = 0;
        while i < all.len()
            invariant
                i <= all.len(),
                all@ == registry(),
                exts.deep_view().no_duplicates(),
                forall|x: Seq<char>| #[trigger]
                    exts.deep_view().contains(x) <==> exists|k: int|
                        0 <= k < i && #[trigger] extensions_of(registry()[k]).contains(x),
            decreases all.len() - i,
        {
            let these = extractor_extensions(all[i]);
            let mut j: usize = 0;
            while j < these.len()
                invariant
                    i < all.len(),
                    all@ == registry(),
                    j <= these.len(),
                    these.deep_view() == extensions_of(registry()[i as int]),
                    exts.deep_view().no_duplicates(),
                    forall|x: Seq<char>| #[trigger]
                        exts.deep_view().contains(x) <==> (exists|k: int|
                            0 <= k < i && #[trigger] extensions_of(registry()[k]).contains(x))
                            || these.deep_view().take(j as int).contains(x),
                decreases these.len() - j,
            {
                let ghost old_exts = exts.deep_view();
                assert(these.deep_view().take(j + 1) =~= these.deep_view().take(j as int).push(
                    these[j as int]@,
                ));
                if !contains_str(&exts, these[j].as_str()) {
                    exts.push(these[j].clone());
                    assert(exts.deep_view() =~= old_exts.push(these[j as int]@));
                }
                assert forall|x: Seq<char>| #[trigger]
                    exts.deep_view().contains(x) <==> (exists|k: int|
                        0 <= k < i && #[trigger] extensions_of(registry()[k]).contains(x))
                        || these.deep_view().take(j + 1).contains(x) by {
                    vstd::seq_lib::lemma_seq_contains_after_push(
                        these.deep_view().take(j as int),
                        these[j as int]@,
                        x,
                    );
                    vstd::seq_lib::lemma_seq_contains_after_push(old_exts, these[j as int]@, x);
                }
                j = j + 1;
            }
            assert(these.deep_view().take(these.len() as int) =~= these.deep_view());
            assert forall|x: Seq<char>| #[trigger]
                exts.deep_view().contains(x) <==> exists|k: int|
                    0 <= k < i + 1 && #[trigger] extensions_of(registry()[k]).contains(x) by {
                if extensions_of(registry()[i as int]).contains(x) {
                    assert(0 <= i < i + 1);
                }
            }
            i = i + 1;
        }
        Analyzer { supported_extensions: exts }
    }

    /// Whether some registered extractor handles `extension`.
    pub fn supports(&self, extension: &str) -> (r: bool)
        requires
            self.wf(),
        ensures
            r == supported(extension@),
    {
        contains_str(&self.supported_extensions, extension)
    }
}

/// The fields of the results that succeeded, in order.
pub open spec fn successes(outcomes: Seq<Result<DocumentSchema, IndexerError>>) -> Seq<
    DocumentSchema,
>
    decreases outcomes.len(),
{
    if outcomes.len() == 0 {
        Seq::empty()
    } else {
        successes(outcomes.drop_last()) + match outcomes.last() {
            Ok(d) => seq![d],
            Err(_) => Seq::empty(),
        }
    }
}

/// Keeps the fields of every extractor that succeeded, in order, and drops
/// the failures.
pub fn analyze(outcomes: &Vec<Result<DocumentSchema, IndexerError>>) -> (r: Vec<DocumentSchema>)
    ensures
        fields_view(r@) == fields_view(successes(outcomes@)),
{
    let mut r: Vec<DocumentSchema> = Vec::new();
    let mut i: usize = 0;
    while i < outcomes.len()
        invariant
            i <= outcomes.len(),
            fields_view(r@) == fields_view(successes(outcomes@.take(i as int))),
        decreases outcomes.len() - i,
    {
        assert(outcomes@.take(i + 1).drop_last() =~= outcomes@.take(i as int));
        let ghost prev = successes(outcomes@.take(i as int));
        let ghost r0 = r@;
        match &outcomes[i] {
            Ok(d) => {
                let copy = DocumentSchema { name: d.name.clone(), body: d.body.clone() };
                assert(copy == *d);
                r.push(copy);
                assert(successes(outcomes@.take(i + 1)) == prev.push(*d));
                assert(fields_view(prev.push(*d)) =~= fields_view(prev).push((d.name@, d.body@)));
                assert(fields_view(r@) =~= fields_view(r0).push((d.name@, d.body@)));
            },
            Err(_) => {
                assert(successes(outcomes@.take(i + 1)) =~= prev);
            },
        }
        assert(fields_view(r@) =~= fields_view(successes(outcomes@.take(i + 1))));
        i = i + 1;
    }
    assert(outcomes@.take(outcomes.len() as int) =~= outcomes@);
    r
}

/// Runs an extractor that needs nothing but the record; `None` for the
/// extractors that need what only a reader of the file system can provide.
pub fn index_in_memory(e: Extractor, file: &FileToProcess) -> (r: Option<
    Result<DocumentSchema, IndexerError>,
>)
    ensures
        match e {
            Extractor::Text => r matches Some(o) && text_indexed(*file, o),
            Extractor::Csv => r matches Some(o) && csv_indexed(*file, o),
            _ => r is None,
        },
{
    match e {
        Extractor::Text => Some(TextIndexer.index_file(file)),
        Extractor::Csv => Some(CsvIndexer.index_file(file)),
        _ => None,
    }
}

} // verus!
