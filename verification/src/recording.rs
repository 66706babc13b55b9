//! What recording an outcome does to the butterflies: a failure changes none
//! of them, a success changes those it concerns and no other.
use vstd::prelude::*;
use crate::butterfly::ButterflyView;
use crate::butterfly_collector::{
    joined, with_document_path, with_image_path, CollectorView, WarningCauseView,
    WarningView,
};
use crate::cloud_vision::{CloudVisionError, ColorView};
use crate::csv_data::{lookup, ReferenceRowView};
use crate::errors::ButterflyErrorView;

verus! {

/// A failure leaves every butterfly as it was.
///
/// Whatever fails for the item at `index` (the download of an image, the
/// download of a document, the analysis of an image), the butterflies after
/// it are the butterflies before it; in particular a butterfly whose image
/// could not be fetched is still there, without a path to its image if it had
/// none. Where the item exists, the one thing added is a warning for it.
pub proof fn law_failure_changes_no_butterfly(
    c: CollectorView,
    index: int,
    e: ButterflyErrorView,
    v: CloudVisionError,
)
    ensures
        c.after_image(index, Err(e)).butterflies == c.butterflies,
        c.after_pdf(index, Err(e)).butterflies == c.butterflies,
        c.after_colors(index, Err(v)).butterflies == c.butterflies,
        0 <= index < c.butterflies.len() ==> c.after_image(index, Err(e)).warnings
            == c.warnings.push(
            WarningView { subject: c.butterflies[index].jp_name, cause: WarningCauseView::Image(e) },
        ),
        0 <= index < c.pdfs.len() ==> c.after_pdf(index, Err(e)).warnings == c.warnings.push(
            WarningView { subject: c.pdfs[index].0, cause: WarningCauseView::Document(e) },
        ),
        0 <= index < c.butterflies.len() ==> c.after_colors(index, Err(v)).warnings
            == c.warnings.push(
            WarningView { subject: c.butterflies[index].jp_name, cause: WarningCauseView::Colors(v) },
        ),
{
}

/// A stored image concerns one butterfly.
///
/// After the image of the butterfly at `index` was stored, that butterfly has
/// the path and is otherwise as it was, and every other butterfly is as it
/// was.
pub proof fn law_image_concerns_one_butterfly(
    c: CollectorView,
    index: int,
    path: Seq<char>,
    other: int,
)
    requires
        0 <= index < c.butterflies.len(),
        0 <= other < c.butterflies.len(),
    ensures
        c.after_image(index, Ok(path)).butterflies.len() == c.butterflies.len(),
        c.after_image(index, Ok(path)).butterflies[index] == with_image_path(
            c.butterflies[index],
            path,
        ),
        other != index ==> c.after_image(index, Ok(path)).butterflies[other] == c.butterflies[other],
        c.after_image(index, Ok(path)).warnings == c.warnings,
{
}

/// Analysed colours replace those of one butterfly.
///
/// After the image of the butterfly at `index` was analysed, that butterfly
/// has the new colours in place of its old ones, so that recording the same
/// colours again changes nothing, and every other butterfly is as it was.
pub proof fn law_colors_replace(
    c: CollectorView,
    index: int,
    colors: Seq<ColorView>,
    other: int,
)
    requires
        0 <= index < c.butterflies.len(),
        0 <= other < c.butterflies.len(),
    ensures
        c.after_colors(index, Ok(colors)).butterflies[index].dominant_colors == colors,
        other != index ==> c.after_colors(index, Ok(colors)).butterflies[other]
            == c.butterflies[other],
        c.after_colors(index, Ok(colors)).after_colors(index, Ok(colors)) == c.after_colors(
            index,
            Ok(colors),
        ),
{
    let once = c.after_colors(index, Ok(colors));
    let twice = once.after_colors(index, Ok(colors));
    assert(twice.butterflies =~= once.butterflies);
}

/// A stored document reaches every butterfly that links to it.
///
/// After the document at `index` was stored, every butterfly with the locator
/// of that document has the path of the stored file, so two butterflies that
/// share the document have the same path; a butterfly with another locator is
/// as it was. With a list of documents that holds none twice, no other entry
/// of the list is that document, so it is fetched once.
pub proof fn law_document_is_shared(c: CollectorView, index: int, path: Seq<char>, k: int)
    requires
        c.well_formed(),
        0 <= index < c.pdfs.len(),
        0 <= k < c.butterflies.len(),
    ensures
        c.after_pdf(index, Ok(path)).butterflies.len() == c.butterflies.len(),
        c.butterflies[k].pdf_src == c.pdfs[index].0 ==> c.after_pdf(
            index,
            Ok(path),
        ).butterflies[k].pdf_path == path,
        c.butterflies[k].pdf_src != c.pdfs[index].0 ==> c.after_pdf(index, Ok(path)).butterflies[k]
            == c.butterflies[k],
        c.after_pdf(index, Ok(path)).butterflies[k] == with_document_path(
            c.butterflies[k],
            c.pdfs[index].0,
            path,
        ),
        forall|j: int| 0 <= j < c.pdfs.len() && j != index ==> c.pdfs[j] != c.pdfs[index],
{
}

/// The reference table is joined by both names.
///
/// A butterfly whose two names are the key of a row takes the row's
/// distribution, open length, diet and remarks and keeps everything else; a
/// butterfly whose names are the key of no row stays as it is, with the open
/// length it had.
pub proof fn law_join_by_names(b: ButterflyView, rows: Seq<ReferenceRowView>)
    ensures
        match lookup(rows, b.jp_name, b.eng_name) {
            Some(data) => {
                &&& joined(b, rows).open_length == data.open_length
                &&& joined(b, rows).distribution == data.distribution
                &&& joined(b, rows).diet == data.diet
                &&& joined(b, rows).remarks == data.remarks
                &&& joined(b, rows).jp_name == b.jp_name
                &&& joined(b, rows).eng_name == b.eng_name
                &&& joined(b, rows).img_path == b.img_path
                &&& joined(b, rows).dominant_colors == b.dominant_colors
            },
            None => joined(b, rows) == b,
        },
{
}

/// The last row of a key is the row of the key.
///
/// Where the row at `i` has the two names and no row after it has them, the
/// table gives the data of that row for the names. Where no row has them, the
/// table gives nothing.
pub proof fn law_lookup_finds_last_row(
    rows: Seq<ReferenceRowView>,
    jp_name: Seq<char>,
    eng_name: Seq<char>,
    i: int,
)
    requires
        -1 <= i < rows.len(),
        i >= 0 ==> rows[i].jp_name == jp_name && rows[i].eng_name == eng_name,
        forall|j: int|
            i < j < rows.len() ==> !((#[trigger] rows[j]).jp_name == jp_name && rows[j].eng_name
                == eng_name),
    ensures
        i >= 0 ==> lookup(rows, jp_name, eng_name) == Some(rows[i].data),
        i < 0 ==> lookup(rows, jp_name, eng_name) is None,
    decreases rows.len(),
{
    if rows.len() > 0 && i < rows.len() - 1 {
        assert(!(rows.last().jp_name == jp_name && rows.last().eng_name == eng_name));
        let rest = rows.drop_last();
        assert forall|j: int| i < j < rest.len() implies !((#[trigger] rest[j]).jp_name == jp_name
            && rest[j].eng_name == eng_name) by {
            assert(rest[j] == rows[j]);
        }
        if i >= 0 {
            assert(rest[i] == rows[i]);
        }
        law_lookup_finds_last_row(rest, jp_name, eng_name, i);
    }
}

} // verus!
