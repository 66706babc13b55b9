//! One entry of the catalogue.
use vstd::prelude::*;
use vstd::string::StringExecFns;
use crate::cloud_vision::{color_views, duplicate_colors, Color, ColorView};
use crate::csv_data::{duplicate_optional, optional_text, CSVData, CSVDataView};
use crate::width::{eng_name_form, eng_name_of, jp_name_form, jp_name_of};

verus! {

/// Buttterfly struct
#[derive(Debug, PartialEq, Eq, Clone)]
pub struct Butterfly {
    /// Region
    pub region: String,
    /// Category
    pub category: String,
    /// Url of an image
    pub img_src: String,
    /// Url to pdf
    pub pdf_src: String,
    /// Path to image
    pub img_path: Option<String>,
    /// Path to pdf file
    pub pdf_path: String,
    /// Japanese name
    pub jp_name: String,
    /// English name
    pub eng_name: String,
    /// Background color in 6 digit Hex
    pub bgcolor: String,
    /// Where the butterfly lives
    pub distribution: String,
    /// Span of the open wings
    pub open_length: u32,
    /// What the butterfly feeds on
    pub diet: Option<String>,
    /// Notes
    pub remarks: Option<String>,
    /// List of dominant colors
    pub dominant_colors: Vec<Color>,
    /// Directory of the region's assets
    pub dir_name: String,
    /// Url of the page the butterfly was found on
    pub url: String,
}

/// A butterfly as plain values: every text as its characters, the colours
/// as their views.
#[verifier::ext_equal]
pub struct ButterflyView {
    pub region: Seq<char>,
    pub category: Seq<char>,
    pub img_src: Seq<char>,
    pub pdf_src: Seq<char>,
    pub img_path: Option<Seq<char>>,
    pub pdf_path: Seq<char>,
    pub jp_name: Seq<char>,
    pub eng_name: Seq<char>,
    pub bgcolor: Seq<char>,
    pub distribution: Seq<char>,
    pub open_length: u32,
    pub diet: Option<Seq<char>>,
    pub remarks: Option<Seq<char>>,
    pub dominant_colors: Seq<ColorView>,
    pub dir_name: Seq<char>,
    pub url: Seq<char>,
}

impl View for Butterfly {
    type V = ButterflyView;

    open spec fn view(&self) -> ButterflyView {
        ButterflyView {
            region: self.region@,
            category: self.category@,
            img_src: self.img_src@,
            pdf_src: self.pdf_src@,
            img_path: optional_text(self.img_path),
            pdf_path: self.pdf_path@,
            jp_name: self.jp_name@,
            eng_name: self.eng_name@,
            bgcolor: self.bgcolor@,
            distribution: self.distribution@,
            open_length: self.open_length,
            diet: optional_text(self.diet),
            remarks: optional_text(self.remarks),
            dominant_colors: color_views(self.dominant_colors@),
            dir_name: self.dir_name@,
            url: self.url@,
        }
    }
}

/// The views of a list of butterflies.
pub open spec fn butterfly_views(list: Seq<Butterfly>) -> Seq<ButterflyView> {
    list.map_values(|b: Butterfly| b@)
}

impl ButterflyView {
    /// A butterfly as it is found on a page: without names, paths, colours or
    /// reference data.
    pub open spec fn fresh(
        region: Seq<char>,
        img_src: Seq<char>,
        pdf_src: Seq<char>,
        bgcolor: Seq<char>,
        category: Seq<char>,
        dirname: Seq<char>,
        url: Seq<char>,
    ) -> ButterflyView {
        ButterflyView {
            region,
            category,
            img_src,
            pdf_src,
            img_path: None,
            pdf_path: Seq::empty(),
            jp_name: Seq::empty(),
            eng_name: Seq::empty(),
            bgcolor,
            distribution: Seq::empty(),
            open_length: 0,
            diet: None,
            remarks: None,
            dominant_colors: Seq::empty(),
            dir_name: dirname,
            url,
        }
    }

    /// Whether the butterfly has been given its names: one of them is set.
    pub open spec fn is_named(self) -> bool {
        self.jp_name.len() > 0 || self.eng_name.len() > 0
    }

    /// The butterfly after an attempt to name it: a butterfly without names
    /// takes the stored forms of both names, a named one stays as it is.
    pub open spec fn named(self, jp_name: Seq<char>, eng_name: Seq<char>) -> ButterflyView {
        if self.is_named() {
            self
        } else {
            ButterflyView {
                jp_name: jp_name_form(jp_name),
                eng_name: eng_name_form(eng_name),
                ..self
            }
        }
    }

    /// The butterfly with the facts of a reference row.
    pub open spec fn with_reference(self, data: CSVDataView) -> ButterflyView {
        ButterflyView {
            distribution: data.distribution,
            open_length: data.open_length,
            diet: data.diet,
            remarks: data.remarks,
            ..self
        }
    }
}

impl Butterfly {
    /// Creates an instance of `Butterfly`
    ///
    /// Initially, `jp_name` and `eng_name` is empty due to the structure of the website
    pub fn new(
        region: &str,
        img_src: &str,
        pdf_src: &str,
        bgcolor: &str,
        category: &str,
        dirname: &str,
        url: &str,
    ) -> (r: Butterfly)
        ensures
            r@ == ButterflyView::fresh(
                region@,
                img_src@,
                pdf_src@,
                bgcolor@,
                category@,
                dirname@,
                url@,
            ),
    {
        let b = Butterfly {
            region: String::from_str(region),
            category: String::from_str(category),
            img_src: String::from_str(img_src),
            pdf_src: String::from_str(pdf_src),
            img_path: None,
            pdf_path: String::new(),
            jp_name: String::new(),
            eng_name: String::new(),
            bgcolor: String::from_str(bgcolor),
            dominant_colors: Vec::new(),
            distribution: String::new(),
            dir_name: String::from_str(dirname),
            url: String::from_str(url),
            open_length: 0,
            diet: None,
            remarks: None,
        };
        assert(b@.dominant_colors =~= Seq::empty());
        b
    }

    ///Add both English and Japanese name to given `Butterfly`
    ///
    /// The names are given once: a butterfly that has a name already stays as
    /// it is, and `false` is returned.
    pub fn add_names(&mut self, jp_name: &str, eng_name: &str) -> (r: bool)
        ensures
            r == !old(self)@.is_named(),
            final(self)@ == old(self)@.named(jp_name@, eng_name@),
    {
        if self.jp_name.as_str().is_empty() && self.eng_name.as_str().is_empty() {
            self.jp_name = jp_name_of(jp_name);
            self.eng_name = eng_name_of(eng_name);
            true
        } else {
            false
        }
    }

    /// Takes over the facts of a reference row.
    pub fn add_additional_data(&mut self, csv_data: &CSVData)
        ensures
            final(self)@ == old(self)@.with_reference(csv_data@),
    {
        self.distribution = csv_data.distribution.clone();
        self.open_length = csv_data.open_length;
        self.diet = duplicate_optional(&csv_data.diet);
        self.remarks = duplicate_optional(&csv_data.remarks);
    }

    /// A copy of this butterfly.
    pub fn duplicate(&self) -> (r: Butterfly)
        ensures
            r@ == self@,
    {
        Butterfly {
            region: self.region.clone(),
            category: self.category.clone(),
            img_src: self.img_src.clone(),
            pdf_src: self.pdf_src.clone(),
            img_path: duplicate_optional(&self.img_path),
            pdf_path: self.pdf_path.clone(),
            jp_name: self.jp_name.clone(),
            eng_name: self.eng_name.clone(),
            bgcolor: self.bgcolor.clone(),
            distribution: self.distribution.clone(),
            open_length: self.open_length,
            diet: duplicate_optional(&self.diet),
            remarks: duplicate_optional(&self.remarks),
            dominant_colors: duplicate_colors(&self.dominant_colors),
            dir_name: self.dir_name.clone(),
            url: self.url.clone(),
        }
    }
}

} // verus!
