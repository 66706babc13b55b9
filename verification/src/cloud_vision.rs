//! Dominant colours of an image, read from the reply of the colour-analysis
//! service.
//!
//! The service is asked over the network by the caller. This module builds the
//! request body and turns a reply (status code and body text) into colours.
use vstd::prelude::*;
use vstd::string::StringExecFns;

verus! {

/// Declares `serde_json::Value` as a type whose inside is not looked into.
#[verifier::external_type_specification]
#[verifier::external_body]
pub struct ExJsonValue(serde_json::Value);

/// The JSON document that `serde_json` reads from a text, if it is one.
pub uninterp spec fn parsed_json(text: Seq<char>) -> Option<serde_json::Value>;

/// The member of a JSON object under a key; `None` for a missing key and for
/// a value that is no object.
pub uninterp spec fn json_member(v: serde_json::Value, key: Seq<char>) -> Option<serde_json::Value>;

/// The elements of a JSON array, in order; `None` for a value that is no
/// array.
pub uninterp spec fn json_items(v: serde_json::Value) -> Option<Seq<serde_json::Value>>;

/// Whether a JSON value is an object.
pub uninterp spec fn json_is_object(v: serde_json::Value) -> bool;

/// A JSON number that is a non-negative integer below 2^64; `None` for any
/// other value.
pub uninterp spec fn json_unsigned(v: serde_json::Value) -> Option<u64>;

/// A JSON number as the bit pattern of the nearest double; `None` for a value
/// that is no number.
pub uninterp spec fn json_number_bits(v: serde_json::Value) -> Option<u64>;

/// A text as a JSON string literal, quotes and escapes included.
pub uninterp spec fn json_quoted(text: Seq<char>) -> Option<Seq<char>>;

/// `serde_json::from_str` for `Value`: the document is a function of the
/// text, and there is none where the text is not JSON.
#[verifier::external_body]
pub(crate) fn parse_json(text: &str) -> (r: Option<serde_json::Value>)
    ensures
        r == parsed_json(text@),
{
    serde_json::from_str(text).ok()
}

/// `serde_json::Value::get` with a string index.
#[verifier::external_body]
pub(crate) fn member<'a>(v: &'a serde_json::Value, key: &str) -> (r: Option<&'a serde_json::Value>)
    ensures
        match r {
            Some(x) => json_member(*v, key@) == Some(*x),
            None => json_member(*v, key@) is None,
        },
{
    v.get(key)
}

/// `serde_json::Value::as_array`, its elements handed out by reference.
#[verifier::external_body]
pub(crate) fn items<'a>(v: &'a serde_json::Value) -> (r: Option<Vec<&'a serde_json::Value>>)
    ensures
        match r {
            Some(refs) => json_items(*v) == Some(refs@.map_values(|x: &serde_json::Value| *x)),
            None => json_items(*v) is None,
        },
{
    v.as_array().map(|a| a.iter().collect())
}

/// `serde_json::Value::is_object`.
#[verifier::external_body]
pub(crate) fn is_object(v: &serde_json::Value) -> (r: bool)
    ensures
        r == json_is_object(*v),
{
    v.is_object()
}

/// `serde_json::Value::as_u64`.
#[verifier::external_body]
pub(crate) fn as_unsigned(v: &serde_json::Value) -> (r: Option<u64>)
    ensures
        r == json_unsigned(*v),
{
    v.as_u64()
}

/// `serde_json::Value::as_f64`, the number handed out as its bit pattern.
#[verifier::external_body]
pub(crate) fn as_number_bits(v: &serde_json::Value) -> (r: Option<u64>)
    ensures
        r == json_number_bits(*v),
{
    v.as_f64().map(|x| x.to_bits())
}

/// `serde_json::to_string` for a string: the literal is a function of the
/// text.
#[verifier::external_body]
pub(crate) fn quote(text: &str) -> (r: Option<String>)
    ensures
        match r {
            Some(s) => json_quoted(text@) == Some(s@),
            None => json_quoted(text@) is None,
        },
{
    serde_json::to_string(text).ok()
}

/// The lower-case hexadecimal digit for a value below 16.
pub open spec fn hex_digit(n: int) -> char {
    if n < 10 {
        (0x30 + n) as char
    } else {
        (0x57 + n) as char
    }
}

/// Two lower-case hexadecimal digits for each byte, high digit first.
pub open spec fn hex_text(bytes: Seq<u8>) -> Seq<char> {
    Seq::new(
        2 * bytes.len(),
        |i: int|
            if i % 2 == 0 {
                hex_digit(bytes[i / 2] as int / 16)
            } else {
                hex_digit(bytes[i / 2] as int % 16)
            },
    )
}

/// `hex::encode`: two lower-case hexadecimal digits for each byte, high digit
/// first.
#[verifier::external_body]
pub(crate) fn hex_encode(bytes: &Vec<u8>) -> (r: String)
    ensures
        r@ == hex_text(bytes@),
{
    hex::encode(bytes)
}

/// One dominant colour of an image.
#[derive(Debug, PartialEq, Eq, Clone)]
pub struct Color {
    /// Share of the image's pixels that have this colour, as the bit pattern
    /// of a double.
    pub pixel_fraction: u64,
    /// Confidence of the service in this colour, as the bit pattern of a
    /// double.
    pub score: u64,
    /// The colour as `#rrggbb`.
    pub hex_color: String,
}

/// A colour as plain values.
pub struct ColorView {
    pub pixel_fraction: u64,
    pub score: u64,
    pub hex_color: Seq<char>,
}

impl View for Color {
    type V = ColorView;

    open spec fn view(&self) -> ColorView {
        ColorView {
            pixel_fraction: self.pixel_fraction,
            score: self.score,
            hex_color: self.hex_color@,
        }
    }
}

impl Color {
    /// A copy of this colour.
    pub fn duplicate(&self) -> (r: Color)
        ensures
            r@ == self@,
    {
        Color {
            pixel_fraction: self.pixel_fraction,
            score: self.score,
            hex_color: self.hex_color.clone(),
        }
    }
}

/// The views of a list of colours.
pub open spec fn color_views(colors: Seq<Color>) -> Seq<ColorView> {
    colors.map_values(|c: Color| c@)
}

/// A copy of a list of colours.
pub fn duplicate_colors(colors: &Vec<Color>) -> (r: Vec<Color>)
    ensures
        color_views(r@) == color_views(colors@),
{
    let mut out: Vec<Color> = Vec::new();
    let mut i: usize = 0;
    while i < colors.len()
        invariant
            i <= colors.len(),
            out.len() == i,
            forall|k: int| 0 <= k < i ==> (#[trigger] out@[k])@ == colors@[k]@,
        decreases colors.len() - i,
    {
        out.push(colors[i].duplicate());
        i += 1;
    }
    assert(color_views(out@) =~= color_views(colors@));
    out
}

/// What can go wrong with a reply of the colour-analysis service.
#[derive(Debug, PartialEq, Eq, Structural, Clone, Copy)]
pub enum CloudVisionError {
    /// The service answered with a status other than 200.
    BadRequest,
    /// The reply does not have the shape of a list of colours.
    UnableToParseColorData,
    /// The reply carries an error object for the image.
    FailedToParseImage,
}

impl CloudVisionError {
    /// The message that describes this error.
    pub fn message(&self) -> (r: String)
        ensures
            r@ == match *self {
                CloudVisionError::BadRequest => "Bad request"@,
                CloudVisionError::FailedToParseImage => "Cloud vision api failed to parse image"@,
                CloudVisionError::UnableToParseColorData => "Unable to parse data"@,
            },
    {
        match self {
            CloudVisionError::BadRequest => String::from_str("Bad request"),
            CloudVisionError::FailedToParseImage => String::from_str(
                "Cloud vision api failed to parse image",
            ),
            CloudVisionError::UnableToParseColorData => String::from_str("Unable to parse data"),
        }
    }
}

/// `#` followed by the six hexadecimal digits of the three channels.
pub open spec fn hex_color_text(red: u8, green: u8, blue: u8) -> Seq<char> {
    seq!['#'] + hex_text(seq![red, green, blue])
}

/// The colour `#rrggbb` of three channel values.
pub fn hex_color(red: u8, green: u8, blue: u8) -> (r: String)
    ensures
        r@ == hex_color_text(red, green, blue),
        r@.len() == 7,
        r@[0] == '#',
{
    let mut channels: Vec<u8> = Vec::new();
    channels.push(red);
    channels.push(green);
    channels.push(blue);
    assert(channels@ =~= seq![red, green, blue]);
    let digits = hex_encode(&channels);
    let mut out = String::new();
    out.push('#');
    out.append(digits.as_str());
    assert(out@ =~= seq!['#'] + digits@);
    out
}

/// The number under `key` in an object, as a bit pattern.
pub open spec fn number_at(v: serde_json::Value, key: Seq<char>) -> Option<u64> {
    match json_member(v, key) {
        Some(x) => json_number_bits(x),
        None => None,
    }
}

/// The unsigned integer under `key` in an object.
pub open spec fn unsigned_at(v: serde_json::Value, key: Seq<char>) -> Option<u64> {
    match json_member(v, key) {
        Some(x) => json_unsigned(x),
        None => None,
    }
}

/// The colour that one entry of the reply describes: it needs the numbers
/// `pixelFraction` and `score` and, under `color`, the unsigned integers
/// `red`, `green` and `blue`, of which the low eight bits count.
pub open spec fn color_of(v: serde_json::Value) -> Option<ColorView> {
    let fraction = number_at(v, "pixelFraction"@);
    let score = number_at(v, "score"@);
    match json_member(v, "color"@) {
        Some(c) => {
            let red = unsigned_at(c, "red"@);
            let green = unsigned_at(c, "green"@);
            let blue = unsigned_at(c, "blue"@);
            if fraction is Some && score is Some && red is Some && green is Some && blue is Some {
                Some(
                    ColorView {
                        pixel_fraction: fraction->0,
                        score: score->0,
                        hex_color: hex_color_text(
                            (red->0 % 256) as u8,
                            (green->0 % 256) as u8,
                            (blue->0 % 256) as u8,
                        ),
                    },
                )
            } else {
                None
            }
        },
        None => None,
    }
}

/// The number under `key` in an object, as a bit pattern.
fn number_under(v: &serde_json::Value, key: &str) -> (r: Option<u64>)
    ensures
        r == number_at(*v, key@),
{
    match member(v, key) {
        Some(x) => as_number_bits(x),
        None => None,
    }
}

/// The unsigned integer under `key` in an object.
fn unsigned_under(v: &serde_json::Value, key: &str) -> (r: Option<u64>)
    ensures
        r == unsigned_at(*v, key@),
{
    match member(v, key) {
        Some(x) => as_unsigned(x),
        None => None,
    }
}

/// Reads one entry of the reply's colour list.
pub fn to_color(value: &serde_json::Value) -> (r: Option<Color>)
    ensures
        match r {
            Some(c) => color_of(*value) == Some(c@),
            None => color_of(*value) is None,
        },
{
    let pixel_fraction = number_under(value, "pixelFraction");
    let score = number_under(value, "score");
    let color = match member(value, "color") {
        Some(c) => c,
        None => {
            return None;
        },
    };
    let red = unsigned_under(color, "red");
    let green = unsigned_under(color, "green");
    let blue = unsigned_under(color, "blue");
    match (pixel_fraction, score, red, green, blue) {
        (Some(f), Some(s), Some(r), Some(g), Some(b)) => {
            let hex_color = hex_color((r % 256) as u8, (g % 256) as u8, (b % 256) as u8);
            Some(Color { pixel_fraction: f, score: s, hex_color })
        },
        _ => None,
    }
}

/// The first element of the array under `responses`.
pub open spec fn first_response(v: serde_json::Value) -> Option<serde_json::Value> {
    match json_member(v, "responses"@) {
        Some(rs) => match json_items(rs) {
            Some(list) => if list.len() > 0 {
                Some(list[0])
            } else {
                None
            },
            None => None,
        },
        None => None,
    }
}

/// The entries of the colour list of a reply: the array at
/// `responses[0].imagePropertiesAnnotation.dominantColors.colors`.
pub open spec fn color_entries(v: serde_json::Value) -> Option<Seq<serde_json::Value>> {
    match first_response(v) {
        Some(first) => match json_member(first, "imagePropertiesAnnotation"@) {
            Some(annotation) => match json_member(annotation, "dominantColors"@) {
                Some(dominant) => match json_member(dominant, "colors"@) {
                    Some(colors) => json_items(colors),
                    None => None,
                },
                None => None,
            },
            None => None,
        },
        None => None,
    }
}

/// The colours of a reply: one for each entry of its colour list, in order,
/// if the list is there and every entry describes a colour.
pub open spec fn extracted_colors(v: serde_json::Value) -> Result<
    Seq<ColorView>,
    CloudVisionError,
> {
    match color_entries(v) {
        Some(entries) => if forall|i: int|
            0 <= i < entries.len() ==> (#[trigger] color_of(entries[i])) is Some {
            Ok(Seq::new(entries.len(), |i: int| color_of(entries[i])->0))
        } else {
            Err(CloudVisionError::UnableToParseColorData)
        },
        None => Err(CloudVisionError::UnableToParseColorData),
    }
}

/// The first element of the array under `responses`.
fn first_of<'a>(v: &'a serde_json::Value) -> (r: Option<&'a serde_json::Value>)
    ensures
        match r {
            Some(x) => first_response(*v) == Some(*x),
            None => first_response(*v) is None,
        },
{
    match member(v, "responses") {
        Some(rs) => match items(rs) {
            Some(list) => if list.len() > 0 {
                Some(list[0])
            } else {
                None
            },
            None => None,
        },
        None => None,
    }
}

/// The entries of the colour list of a reply.
fn entries_of<'a>(v: &'a serde_json::Value) -> (r: Option<Vec<&'a serde_json::Value>>)
    ensures
        match r {
            Some(refs) => color_entries(*v) == Some(
                refs@.map_values(|x: &serde_json::Value| *x),
            ),
            None => color_entries(*v) is None,
        },
{
    let first = match first_of(v) {
        Some(x) => x,
        None => {
            return None;
        },
    };
    let annotation = match member(first, "imagePropertiesAnnotation") {
        Some(x) => x,
        None => {
            return None;
        },
    };
    let dominant = match member(annotation, "dominantColors") {
        Some(x) => x,
        None => {
            return None;
        },
    };
    match member(dominant, "colors") {
        Some(colors) => items(colors),
        None => None,
    }
}

/// Reads the colours of a reply.
pub fn extract_colors(val: &serde_json::Value) -> (r: Result<Vec<Color>, CloudVisionError>)
    ensures
        match r {
            Ok(colors) => extracted_colors(*val) == Ok::<Seq<ColorView>, CloudVisionError>(
                color_views(colors@),
            ),
            Err(e) => extracted_colors(*val) == Err::<Seq<ColorView>, CloudVisionError>(e),
        },
{
    let entries = match entries_of(val) {
        Some(e) => e,
        None => {
            return Err(CloudVisionError::UnableToParseColorData);
        },
    };
    let ghost list = entries@.map_values(|x: &serde_json::Value| *x);
    let mut color_vec: Vec<Color> = Vec::new();
    let mut i: usize = 0;
    while i < entries.len()
        invariant
            i <= entries.len(),
            list == entries@.map_values(|x: &serde_json::Value| *x),
            color_entries(*val) == Some(list),
            color_vec.len() == i,
            forall|k: int| 0 <= k < i ==> color_of(list[k]) == Some((#[trigger] color_vec@[k])@),
        decreases entries.len() - i,
    {
        match to_color(entries[i]) {
            Some(color) => {
                color_vec.push(color);
            },
            None => {
                assert(color_of(list[i as int]) is None);
                return Err(CloudVisionError::UnableToParseColorData);
            },
        }
        i += 1;
    }
    proof {
        assert forall|k: int| 0 <= k < list.len() implies (#[trigger] color_of(list[k])) is Some by {
            assert(color_of(list[k]) == Some(color_vec@[k]@));
        }
        assert(color_views(color_vec@) =~= Seq::new(list.len(), |k: int| color_of(list[k])->0));
    }
    Ok(color_vec)
}

/// Whether a reply carries an error object for its first image.
pub open spec fn reply_has_error(v: serde_json::Value) -> bool {
    match first_response(v) {
        Some(first) => match json_member(first, "error"@) {
            Some(e) => json_is_object(e),
            None => false,
        },
        None => false,
    }
}

/// What a reply of the service amounts to: a status other than 200 is a bad
/// request; a body that is no JSON carries no colour data; an error object
/// for the image is a failure of the service; otherwise the colours are read
/// from the body.
pub open spec fn reply_colors(status: u16, body: Seq<char>) -> Result<
    Seq<ColorView>,
    CloudVisionError,
> {
    if status != 200 {
        Err(CloudVisionError::BadRequest)
    } else {
        match parsed_json(body) {
            None => Err(CloudVisionError::UnableToParseColorData),
            Some(v) => if reply_has_error(v) {
                Err(CloudVisionError::FailedToParseImage)
            } else {
                extracted_colors(v)
            },
        }
    }
}

/// What an exchange with the service amounts to: without an answer it is a
/// bad request, with an answer it is what the answer amounts to.
pub open spec fn answer_colors(answer: Option<(u16, String)>) -> Result<
    Seq<ColorView>,
    CloudVisionError,
> {
    match answer {
        None => Err(CloudVisionError::BadRequest),
        Some(reply) => reply_colors(reply.0, reply.1@),
    }
}

/// Whether a reply carries an error object for its first image.
fn has_error(v: &serde_json::Value) -> (r: bool)
    ensures
        r == reply_has_error(*v),
{
    match first_of(v) {
        Some(first) => match member(first, "error") {
            Some(e) => is_object(e),
            None => false,
        },
        None => false,
    }
}

/// Turns a reply of the service into the image's dominant colours.
pub fn colors_from_reply(status: u16, body: &str) -> (r: Result<Vec<Color>, CloudVisionError>)
    ensures
        match r {
            Ok(colors) => reply_colors(status, body@) == Ok::<Seq<ColorView>, CloudVisionError>(
                color_views(colors@),
            ),
            Err(e) => reply_colors(status, body@) == Err::<Seq<ColorView>, CloudVisionError>(e),
        },
{
    if status != 200 {
        return Err(CloudVisionError::BadRequest);
    }
    match parse_json(body) {
        None => Err(CloudVisionError::UnableToParseColorData),
        Some(v) => {
            if has_error(&v) {
                Err(CloudVisionError::FailedToParseImage)
            } else {
                extract_colors(&v)
            }
        },
    }
}

/// Turns the answer of the service, its status and body, or the lack of one
/// into the image's dominant colours.
pub fn colors_from_answer(answer: &Option<(u16, String)>) -> (r: Result<
    Vec<Color>,
    CloudVisionError,
>)
    ensures
        match r {
            Ok(colors) => answer_colors(*answer) == Ok::<Seq<ColorView>, CloudVisionError>(
                color_views(colors@),
            ),
            Err(e) => answer_colors(*answer) == Err::<Seq<ColorView>, CloudVisionError>(e),
        },
{
    match answer {
        None => Err(CloudVisionError::BadRequest),
        Some(reply) => colors_from_reply(reply.0, reply.1.as_str()),
    }
}

/// The body of a request for the properties of one image, at most ten
/// colours: the fixed frame around the image's address as a JSON string.
pub open spec fn request_text(image_url: Seq<char>) -> Option<Seq<char>> {
    match json_quoted(image_url) {
        Some(q) => Some(
            "{\"requests\":[{\"image\":{\"source\":{\"imageUri\":"@ + q
                + "}},\"features\":[{\"maxResults\":10,\"type\":\"IMAGE_PROPERTIES\"}]}]}"@,
        ),
        None => None,
    }
}

/// Builds the body of the request for one image.
pub fn request_body(image_url: &str) -> (r: Option<String>)
    ensures
        match r {
            Some(s) => request_text(image_url@) == Some(s@),
            None => request_text(image_url@) is None,
        },
{
    match quote(image_url) {
        Some(q) => {
            let mut out = String::from_str("{\"requests\":[{\"image\":{\"source\":{\"imageUri\":");
            out.append(q.as_str());
            out.append("}},\"features\":[{\"maxResults\":10,\"type\":\"IMAGE_PROPERTIES\"}]}]}");
            Some(out)
        },
        None => None,
    }
}

} // verus!
