//! Images for a vision model: where an image comes from, what kind of image
//! it is, how it travels inside a request (as a base64 `data:` URI), and
//! what the tools ask the model for.
use vstd::prelude::*;

use base64::Engine;

use crate::json::json_view;
use crate::json::lemma_array_view;
use crate::json::lemma_object_view;
use crate::json::members_view;
use crate::json::JsonValue;
use crate::json::JsonView;
use crate::text::decimal;
use crate::text::join2;
use crate::text::str_eq;
use crate::text::u64_to_string;

verus! {

broadcast use crate::text::group_views;

/*-- errors --------------------------------------------------------------------------*/

/// What went wrong reading an image or asking a vision model.
pub enum VlmError {
    ApiError(String),
    InvalidImage(String),
    ImageTooLarge { limit: u64 },
    Connection(String),
    RateLimited(String),
}

impl VlmError {
    /// How the error is shown.
    pub open spec fn message_spec(&self) -> Seq<char> {
        match self {
            VlmError::ApiError(m) => "API error: "@ + m@,
            VlmError::InvalidImage(m) => "Invalid image data: "@ + m@,
            VlmError::ImageTooLarge { limit } => "Image exceeds size limit: "@ + decimal(*limit as nat) + " bytes"@,
            VlmError::Connection(m) => "Connection error: "@ + m@,
            VlmError::RateLimited(m) => "Rate limited: "@ + m@,
        }
    }

    /// How the error is shown.
    pub fn message(&self) -> (s: String)
        ensures
            s@ == self.message_spec(),
    {
        match self {
            VlmError::ApiError(m) => join2("API error: ", m.as_str()),
            VlmError::InvalidImage(m) => join2("Invalid image data: ", m.as_str()),
            VlmError::ImageTooLarge { limit } => {
                let a = join2("Image exceeds size limit: ", u64_to_string(*limit).as_str());
                join2(a.as_str(), " bytes")
            },
            VlmError::Connection(m) => join2("Connection error: ", m.as_str()),
            VlmError::RateLimited(m) => join2("Rate limited: ", m.as_str()),
        }
    }
}

/*-- analysis ------------------------------------------------------------------------*/

/// What an analysis of an image looks for.
pub enum AnalysisType {
    ObjectDetection,
    TextExtraction,
    SceneDescription,
    UiAnalysis,
    Custom(String),
}

/// The system prompt of an analysis and the name it goes by.
pub open spec fn analysis_instructions(t: AnalysisType) -> (Seq<char>, Seq<char>) {
    match t {
        AnalysisType::ObjectDetection => (
            "You are an object detection assistant. List all objects in the image with their positions and descriptions."@,
            "object detection"@,
        ),
        AnalysisType::TextExtraction => (
            "You are a text extraction assistant. Transcribe all text in the image exactly as it appears."@,
            "text extraction"@,
        ),
        AnalysisType::SceneDescription => (
            "You are a scene description assistant. Describe the overall scene, layout, atmosphere, and notable elements."@,
            "scene description"@,
        ),
        AnalysisType::UiAnalysis => (
            "You are a UI analysis assistant. Identify all UI elements (buttons, text fields, icons, etc.) and describe their purpose and state."@,
            "UI analysis"@,
        ),
        AnalysisType::Custom(p) => (p@, "custom analysis"@),
    }
}

/// The prompts of an analysis: its system prompt, and the user's prompt or,
/// without one, a request to analyse the image for the analysis named.
pub open spec fn analysis_prompts(t: AnalysisType, prompt: Option<String>) -> (Seq<char>, Seq<char>) {
    let (system, name) = analysis_instructions(t);
    let user = match prompt {
        Some(p) => p@,
        None => match t {
            AnalysisType::Custom(_) => "Analyze this image according to the instructions above."@,
            _ => "Analyze this image for "@ + name + "."@,
        },
    };
    (system, user)
}

impl AnalysisType {
    /// The analysis's name on the command line.
    pub open spec fn display_spec(&self) -> Seq<char> {
        match self {
            AnalysisType::ObjectDetection => "object-detection"@,
            AnalysisType::TextExtraction => "text-extraction"@,
            AnalysisType::SceneDescription => "scene-description"@,
            AnalysisType::UiAnalysis => "ui-analysis"@,
            AnalysisType::Custom(_) => "custom"@,
        }
    }

    /// The analysis's name on the command line.
    pub fn display(&self) -> (s: String)
        ensures
            s@ == self.display_spec(),
    {
        match self {
            AnalysisType::ObjectDetection => "object-detection".to_string(),
            AnalysisType::TextExtraction => "text-extraction".to_string(),
            AnalysisType::SceneDescription => "scene-description".to_string(),
            AnalysisType::UiAnalysis => "ui-analysis".to_string(),
            AnalysisType::Custom(_) => "custom".to_string(),
        }
    }

    /// The system and user prompts of the analysis (see `analysis_prompts`).
    pub fn prompts(&self, prompt: Option<String>) -> (r: (String, String))
        ensures
            (r.0@, r.1@) == analysis_prompts(*self, prompt),
    {
        let (system, name) = match self {
            AnalysisType::ObjectDetection => (
                "You are an object detection assistant. List all objects in the image with their positions and descriptions.".to_string(),
                "object detection",
            ),
            AnalysisType::TextExtraction => (
                "You are a text extraction assistant. Transcribe all text in the image exactly as it appears.".to_string(),
                "text extraction",
            ),
            AnalysisType::SceneDescription => (
                "You are a scene description assistant. Describe the overall scene, layout, atmosphere, and notable elements.".to_string(),
                "scene description",
            ),
            AnalysisType::UiAnalysis => (
                "You are a UI analysis assistant. Identify all UI elements (buttons, text fields, icons, etc.) and describe their purpose and state.".to_string(),
                "UI analysis",
            ),
            AnalysisType::Custom(p) => (crate::text::owned(p.as_str()), "custom analysis"),
        };
        let user = match prompt {
            Some(p) => p,
            None => match self {
                AnalysisType::Custom(_) => "Analyze this image according to the instructions above.".to_string(),
                _ => {
                    let a = join2("Analyze this image for ", name);
                    join2(a.as_str(), ".")
                },
            },
        };
        (system, user)
    }
}

/// The prompt of a description: the user's, or a request for a detailed one.
pub open spec fn describe_prompt(prompt: Option<String>) -> Seq<char> {
    match prompt {
        Some(p) => p@,
        None => "Describe this image in detail. Include objects, text, colors, layout, and any notable features."@,
    }
}

/// The prompt of a description (see `describe_prompt`).
pub fn describe_prompt_text(prompt: Option<String>) -> (s: String)
    ensures
        s@ == describe_prompt(prompt),
{
    match prompt {
        Some(p) => p,
        None => "Describe this image in detail. Include objects, text, colors, layout, and any notable features.".to_string(),
    }
}

/// The label put before image `i` of `n` compared: first and second for a
/// pair, numbered from one otherwise.
pub open spec fn compare_label(i: nat, n: nat) -> Seq<char> {
    if n == 2 {
        if i == 0 {
            "First image"@
        } else {
            "Second image"@
        }
    } else {
        "Image "@ + decimal(i + 1)
    }
}

/// The labels put before the images compared; refused for fewer than two images.
pub fn compare_labels(n: usize) -> (r: Result<Vec<String>, VlmError>)
    ensures
        match r {
            Ok(labels) => n >= 2 && labels@.len() == n && forall|i: int|
                0 <= i < n ==> #[trigger] labels@[i]@ == compare_label(i as nat, n as nat),
            Err(e) => n < 2 && (e matches VlmError::ApiError(m) && m@ == "compare_images requires at least 2 images"@),
        },
{
    if n < 2 {
        return Err(VlmError::ApiError("compare_images requires at least 2 images".to_string()));
    }
    let mut labels: Vec<String> = Vec::new();
    let mut i: usize = 0;
    while i < n
        invariant
            n >= 2,
            i <= n,
            labels@.len() == i,
            forall|j: int| 0 <= j < i ==> #[trigger] labels@[j]@ == compare_label(j as nat, n as nat),
        decreases n - i,
    {
        let label = if n == 2 {
            if i == 0 {
                "First image".to_string()
            } else {
                "Second image".to_string()
            }
        } else {
            join2("Image ", u64_to_string(i as u64 + 1).as_str())
        };
        labels.push(label);
        i += 1;
    }
    Ok(labels)
}

/*-- image sources ---------------------------------------------------------------------*/

/// A parsed URL: its serialization and its path.
pub struct ImageUrl {
    pub text: String,
    pub path: String,
}

/// Where an image comes from: bytes at hand, a file, or a URL.
pub enum ImageSource {
    Bytes { data: Vec<u8>, mime: String },
    File(String),
    Url(ImageUrl),
}

/// The standard base64 text (with padding) of `data`, as the base64 crate's
/// `STANDARD` engine writes it.
pub uninterp spec fn base64_standard(data: Seq<u8>) -> Seq<char>;

/// What the base64 crate's `STANDARD` engine reads from `text`: the bytes, or
/// why it could not.
pub uninterp spec fn base64_standard_decoded(text: Seq<char>) -> Result<Seq<u8>, Seq<char>>;

/// What the url crate's `Url::parse` makes of `text`: the URL's serialization
/// and path, or why it could not.
pub uninterp spec fn url_parsed(text: Seq<char>) -> Result<(Seq<char>, Seq<char>), Seq<char>>;

/// The base64 encoding fits in memory: the base64 crate panics when its
/// length overflows `usize`.
pub open spec fn encodable(len: nat) -> bool {
    (len / 3) * 4 + 4 <= usize::MAX
}

/// The base64 crate's `STANDARD.encode`: the result is named `base64_standard`
/// of the bytes; nothing more is claimed of it.
#[verifier::external_body]
fn base64_encode(data: &Vec<u8>) -> (s: String)
    requires
        encodable(data@.len()),
    ensures
        s@ == base64_standard(data@),
{
    base64::engine::general_purpose::STANDARD.encode(data)
}

/// The base64 crate's `STANDARD.decode`: the bytes, or the error's text;
/// either is named `base64_standard_decoded` of the text.
#[verifier::external_body]
fn base64_decode(text: &str) -> (r: Result<Vec<u8>, String>)
    ensures
        match r {
            Ok(d) => base64_standard_decoded(text@) == Ok::<Seq<u8>, Seq<char>>(d@),
            Err(e) => base64_standard_decoded(text@) == Err::<Seq<u8>, Seq<char>>(e@),
        },
{
    match base64::engine::general_purpose::STANDARD.decode(text) {
        Ok(d) => Ok(d),
        Err(e) => Err(e.to_string()),
    }
}

/// The url crate's `Url::parse`: the URL's serialization and path, or the
/// error's text; either is named `url_parsed` of the text.
#[verifier::external_body]
fn parse_url(text: &str) -> (r: Result<ImageUrl, String>)
    ensures
        match r {
            Ok(u) => url_parsed(text@) == Ok::<(Seq<char>, Seq<char>), Seq<char>>((u.text@, u.path@)),
            Err(e) => url_parsed(text@) == Err::<(Seq<char>, Seq<char>), Seq<char>>(e@),
        },
{
    match url::Url::parse(text) {
        Ok(u) => Ok(ImageUrl { text: u.as_str().to_string(), path: u.path().to_string() }),
        Err(e) => Err(e.to_string()),
    }
}

/// The `data:` URI that carries image bytes `data` of type `mime`.
pub open spec fn data_uri(data: Seq<u8>, mime: Seq<char>) -> Seq<char> {
    "data:"@ + mime + ";base64,"@ + base64_standard(data)
}

/// The `data:` URI that carries image bytes `data` of type `mime`.
pub fn image_data_uri(data: &Vec<u8>, mime: &str) -> (s: String)
    requires
        encodable(data@.len()),
    ensures
        s@ == data_uri(data@, mime@),
{
    let a = join2("data:", mime);
    let b = join2(a.as_str(), ";base64,");
    join2(b.as_str(), base64_encode(data).as_str())
}

/// The `data:` URI of image bytes read from a source, refused when they are
/// more than `limit` bytes.
pub fn data_uri_within(data: &Vec<u8>, mime: &str, limit: u64) -> (r: Result<String, VlmError>)
    requires
        data@.len() <= limit ==> encodable(data@.len()),
    ensures
        match r {
            Ok(s) => data@.len() <= limit && s@ == data_uri(data@, mime@),
            Err(e) => data@.len() > limit && (e matches VlmError::ImageTooLarge { limit: l } && l == limit),
        },
{
    if data.len() as u64 > limit {
        return Err(VlmError::ImageTooLarge { limit });
    }
    Ok(image_data_uri(data, mime))
}

/// The position of the last `c` in `s`.
pub open spec fn last_index_of(s: Seq<char>, c: char) -> Option<int>
    decreases s.len(),
{
    if s.len() == 0 {
        None
    } else if s.last() == c {
        Some(s.len() - 1)
    } else {
        last_index_of(s.drop_last(), c)
    }
}

/// `s` without the `/` it ends with.
pub open spec fn without_trailing_slashes(s: Seq<char>) -> Seq<char>
    decreases s.len(),
{
    if s.len() > 0 && s.last() == '/' {
        without_trailing_slashes(s.drop_last())
    } else {
        s
    }
}

/// What follows the last `/` of `s`, or all of it.
pub open spec fn last_segment(s: Seq<char>) -> Seq<char> {
    match last_index_of(s, '/') {
        Some(i) => s.skip(i + 1),
        None => s,
    }
}

/// The extension of a file path: what follows the last `.` of its file name,
/// when that `.` is not the name's first character (and the name is not `..`).
pub open spec fn path_extension(path: Seq<char>) -> Option<Seq<char>> {
    let name = last_segment(without_trailing_slashes(path));
    if name == ".."@ {
        None
    } else {
        match last_index_of(name, '.') {
            Some(i) => if i > 0 {
                Some(name.skip(i + 1))
            } else {
                None
            },
            None => None,
        }
    }
}

/// The image type of a file by its extension; JPEG when it is not known.
pub open spec fn file_mime(ext: Option<Seq<char>>) -> Seq<char> {
    match ext {
        Some(e) => if e == "jpg"@ || e == "jpeg"@ {
            "image/jpeg"@
        } else if e == "png"@ {
            "image/png"@
        } else if e == "webp"@ {
            "image/webp"@
        } else if e == "gif"@ {
            "image/gif"@
        } else if e == "bmp"@ {
            "image/bmp"@
        } else if e == "tiff"@ || e == "tif"@ {
            "image/tiff"@
        } else {
            "image/jpeg"@
        },
        None => "image/jpeg"@,
    }
}

/// The image type of a URL by the last segment of its path taken whole;
/// JPEG when it is not known.
pub open spec fn url_mime(segment: Seq<char>) -> Seq<char> {
    if segment == "jpg"@ || segment == "jpeg"@ {
        "image/jpeg"@
    } else if segment == "png"@ {
        "image/png"@
    } else if segment == "webp"@ {
        "image/webp"@
    } else if segment == "gif"@ {
        "image/gif"@
    } else if segment == "bmp"@ {
        "image/bmp"@
    } else {
        "image/jpeg"@
    }
}

/// The image type of a source: the one given with bytes; for a file, by its
/// extension; for a URL, by the last segment of its path.
pub open spec fn source_mime(src: ImageSource) -> Seq<char> {
    match src {
        ImageSource::Bytes { mime, .. } => mime@,
        ImageSource::File(path) => file_mime(path_extension(path@)),
        ImageSource::Url(u) => url_mime(last_segment(u.path@)),
    }
}

/// A file's image type follows its extension: `jpg` and `jpeg` are JPEG,
/// `png` PNG, `webp` WebP, `gif` GIF, `bmp` BMP, `tif` and `tiff` TIFF;
/// any other extension, or none, is taken as JPEG.
pub proof fn law_file_type_by_extension(path: String)
    ensures
        ({
            let m = source_mime(ImageSource::File(path));
            let e = path_extension(path@);
            &&& (e == Some("jpg"@) || e == Some("jpeg"@)) ==> m == "image/jpeg"@
            &&& e == Some("png"@) ==> m == "image/png"@
            &&& e == Some("webp"@) ==> m == "image/webp"@
            &&& e == Some("gif"@) ==> m == "image/gif"@
            &&& e == Some("bmp"@) ==> m == "image/bmp"@
            &&& (e == Some("tif"@) || e == Some("tiff"@)) ==> m == "image/tiff"@
            &&& (e is None || !(e == Some("jpg"@) || e == Some("jpeg"@) || e == Some("png"@) || e == Some("webp"@)
                || e == Some("gif"@) || e == Some("bmp"@) || e == Some("tif"@) || e == Some("tiff"@))) ==> m
                == "image/jpeg"@
        }),
{
    reveal_strlit("jpg");
    assert("jpg"@.len() == 3);
    reveal_strlit("jpeg");
    assert("jpeg"@.len() == 4);
    reveal_strlit("png");
    assert("png"@.len() == 3);
    reveal_strlit("webp");
    assert("webp"@.len() == 4);
    reveal_strlit("gif");
    assert("gif"@.len() == 3);
    reveal_strlit("bmp");
    assert("bmp"@.len() == 3);
    reveal_strlit("tif");
    assert("tif"@.len() == 3);
    reveal_strlit("tiff");
    assert("tiff"@.len() == 4);
    assert("jpg"@ != "png"@ && "jpg"@ != "gif"@ && "jpg"@ != "bmp"@ && "png"@ != "gif"@ && "png"@ != "bmp"@
        && "gif"@ != "bmp"@) by {
        assert("jpg"@[0] != "png"@[0] && "jpg"@[0] != "gif"@[0] && "jpg"@[0] != "bmp"@[0]);
        assert("png"@[0] != "gif"@[0] && "png"@[0] != "bmp"@[0] && "gif"@[0] != "bmp"@[0]);
    }
    assert("jpeg"@ != "webp"@) by {
        assert("jpeg"@[0] != "webp"@[0]);
    }
    assert("tif"@ != "jpg"@ && "tif"@ != "png"@ && "tif"@ != "gif"@ && "tif"@ != "bmp"@) by {
        assert("tif"@[0] != "jpg"@[0] && "tif"@[0] != "png"@[0] && "tif"@[0] != "gif"@[0] && "tif"@[0] != "bmp"@[0]);
    }
    assert("tiff"@ != "jpeg"@ && "tiff"@ != "webp"@) by {
        assert("tiff"@[0] != "jpeg"@[0] && "tiff"@[0] != "webp"@[0]);
    }
}

/// A URL's image type follows the last segment of its path, taken whole:
/// `jpg` and `jpeg` are JPEG, `png` PNG, `webp` WebP, `gif` GIF, `bmp` BMP;
/// anything else is taken as JPEG.
pub proof fn law_url_type_by_last_segment(u: ImageUrl)
    ensures
        ({
            let m = source_mime(ImageSource::Url(u));
            let g = last_segment(u.path@);
            &&& (g == "jpg"@ || g == "jpeg"@) ==> m == "image/jpeg"@
            &&& g == "png"@ ==> m == "image/png"@
            &&& g == "webp"@ ==> m == "image/webp"@
            &&& g == "gif"@ ==> m == "image/gif"@
            &&& g == "bmp"@ ==> m == "image/bmp"@
            &&& !(g == "jpg"@ || g == "jpeg"@ || g == "png"@ || g == "webp"@ || g == "gif"@ || g == "bmp"@) ==> m
                == "image/jpeg"@
        }),
{
    reveal_strlit("jpg");
    assert("jpg"@.len() == 3);
    reveal_strlit("jpeg");
    assert("jpeg"@.len() == 4);
    reveal_strlit("png");
    assert("png"@.len() == 3);
    reveal_strlit("webp");
    assert("webp"@.len() == 4);
    reveal_strlit("gif");
    assert("gif"@.len() == 3);
    reveal_strlit("bmp");
    assert("bmp"@.len() == 3);
    assert("jpg"@ != "png"@ && "jpg"@ != "gif"@ && "jpg"@ != "bmp"@ && "png"@ != "gif"@ && "png"@ != "bmp"@
        && "gif"@ != "bmp"@) by {
        assert("jpg"@[0] != "png"@[0] && "jpg"@[0] != "gif"@[0] && "jpg"@[0] != "bmp"@[0]);
        assert("png"@[0] != "gif"@[0] && "png"@[0] != "bmp"@[0] && "gif"@[0] != "bmp"@[0]);
    }
    assert("jpeg"@ != "webp"@) by {
        assert("jpeg"@[0] != "webp"@[0]);
    }
}

/// Bytes keep the image type they came with.
pub proof fn law_bytes_keep_their_type(data: Vec<u8>, mime: String)
    ensures
        source_mime(ImageSource::Bytes { data, mime }) == mime@,
{
}

fn last_index_exec(v: &Vec<char>, c: char) -> (r: Option<usize>)
    ensures
        match r {
            Some(i) => last_index_of(v@, c) == Some(i as int) && i < v@.len(),
            None => last_index_of(v@, c) is None,
        },
{
    let mut i: usize = v.len();
    assert(v@.take(i as int) =~= v@);
    while i > 0
        invariant
            i <= v@.len(),
            last_index_of(v@, c) == last_index_of(v@.take(i as int), c),
        decreases i,
    {
        let ghost t = v@.take(i as int);
        assert(t.drop_last() =~= v@.take(i - 1));
        if v[i - 1] == c {
            return Some(i - 1);
        }
        i -= 1;
    }
    assert(v@.take(0) =~= Seq::<char>::empty());
    None
}

fn last_segment_exec(v: &Vec<char>) -> (r: Vec<char>)
    ensures
        r@ == last_segment(v@),
{
    match last_index_exec(v, '/') {
        Some(i) => {
            assert(i < v.len());
            let mut r: Vec<char> = Vec::new();
            let mut k: usize = i + 1;
            while k < v.len()
                invariant
                    i < v@.len(),
                    i + 1 <= k <= v@.len(),
                    r@ == v@.subrange(i + 1, k as int),
                decreases v@.len() - k,
            {
                r.push(v[k]);
                assert(r@ =~= v@.subrange(i + 1, k + 1));
                k += 1;
            }
            assert(r@ =~= v@.skip(i + 1));
            r
        },
        None => {
            let mut r: Vec<char> = Vec::new();
            let mut k: usize = 0;
            while k < v.len()
                invariant
                    k <= v@.len(),
                    r@ == v@.take(k as int),
                decreases v@.len() - k,
            {
                r.push(v[k]);
                assert(r@ =~= v@.take(k + 1));
                k += 1;
            }
            assert(r@ =~= v@);
            r
        },
    }
}

fn without_trailing_slashes_exec(v: &Vec<char>) -> (r: Vec<char>)
    ensures
        r@ == without_trailing_slashes(v@),
{
    let mut n: usize = v.len();
    assert(v@.take(n as int) =~= v@);
    while n > 0 && v[n - 1] == '/'
        invariant
            n <= v@.len(),
            without_trailing_slashes(v@) == without_trailing_slashes(v@.take(n as int)),
        decreases n,
    {
        assert(v@.take(n as int).drop_last() =~= v@.take(n - 1));
        n -= 1;
    }
    let mut r: Vec<char> = Vec::new();
    let mut k: usize = 0;
    while k < n
        invariant
            n <= v@.len(),
            k <= n,
            r@ == v@.take(k as int),
        decreases n - k,
    {
        r.push(v[k]);
        assert(r@ =~= v@.take(k + 1));
        k += 1;
    }
    assert(r@ =~= v@.take(n as int));
    r
}

fn path_extension_exec(path: &str) -> (r: Option<String>)
    ensures
        match r {
            Some(e) => path_extension(path@) == Some(e@),
            None => path_extension(path@) is None,
        },
{
    let v = crate::text::chars_of(path);
    let trimmed = without_trailing_slashes_exec(&v);
    let name = last_segment_exec(&trimmed);
    let name_text = crate::text::string_of(name.as_slice());
    if str_eq(name_text.as_str(), "..") {
        return None;
    }
    match last_index_exec(&name, '.') {
        Some(i) => {
            if i > 0 {
                assert(i < name.len());
                let e = crate::text::string_of_range(&name, i + 1, name.len());
                assert(name@.subrange(i + 1, name@.len() as int) =~= name@.skip(i + 1));
                Some(e)
            } else {
                None
            }
        },
        None => None,
    }
}

fn file_mime_exec(ext: Option<String>) -> (s: String)
    ensures
        s@ == file_mime(match ext {
            Some(e) => Some(e@),
            None => None,
        }),
{
    match ext {
        Some(e) => {
            let e = e.as_str();
            if str_eq(e, "jpg") || str_eq(e, "jpeg") {
                "image/jpeg".to_string()
            } else if str_eq(e, "png") {
                "image/png".to_string()
            } else if str_eq(e, "webp") {
                "image/webp".to_string()
            } else if str_eq(e, "gif") {
                "image/gif".to_string()
            } else if str_eq(e, "bmp") {
                "image/bmp".to_string()
            } else if str_eq(e, "tiff") || str_eq(e, "tif") {
                "image/tiff".to_string()
            } else {
                "image/jpeg".to_string()
            }
        },
        None => "image/jpeg".to_string(),
    }
}

fn url_mime_exec(segment: &str) -> (s: String)
    ensures
        s@ == url_mime(segment@),
{
    if str_eq(segment, "jpg") || str_eq(segment, "jpeg") {
        "image/jpeg".to_string()
    } else if str_eq(segment, "png") {
        "image/png".to_string()
    } else if str_eq(segment, "webp") {
        "image/webp".to_string()
    } else if str_eq(segment, "gif") {
        "image/gif".to_string()
    } else if str_eq(segment, "bmp") {
        "image/bmp".to_string()
    } else {
        "image/jpeg".to_string()
    }
}

/// The image type of a source (see `source_mime`).
pub fn image_mime(src: &ImageSource) -> (s: String)
    ensures
        s@ == source_mime(*src),
{
    match src {
        ImageSource::Bytes { mime, .. } => crate::text::owned(mime.as_str()),
        ImageSource::File(path) => file_mime_exec(path_extension_exec(path.as_str())),
        ImageSource::Url(u) => {
            let v = crate::text::chars_of(u.path.as_str());
            let seg = last_segment_exec(&v);
            url_mime_exec(crate::text::string_of(seg.as_slice()).as_str())
        },
    }
}

/// An image source as a tool call names it, by its kind and the text given:
/// a file path; base64 data, taken as JPEG bytes; or a URL. Refused for data
/// or a URL that does not read, and for an unknown kind.
pub open spec fn image_source_spec(source_type: Seq<char>, image: Seq<char>, r: Result<ImageSource, String>) -> bool {
    if source_type == "file"@ {
        r matches Ok(ImageSource::File(p)) && p@ == image
    } else if source_type == "base64"@ {
        match base64_standard_decoded(image) {
            Ok(d) => r matches Ok(ImageSource::Bytes { data, mime }) && data@ == d && mime@ == "image/jpeg"@,
            Err(why) => r matches Err(e) && e@ == "Invalid base64: "@ + why,
        }
    } else if source_type == "url"@ {
        match url_parsed(image) {
            Ok((text, path)) => r matches Ok(ImageSource::Url(u)) && u.text@ == text && u.path@ == path,
            Err(why) => r matches Err(e) && e@ == "Invalid URL: "@ + why,
        }
    } else {
        r matches Err(e) && e@ == "Unknown image source type: '"@ + source_type
            + "'. Use 'file', 'base64', or 'url'."@
    }
}

/// The image source a tool call names (see `image_source_spec`).
pub fn parse_image_source(source_type: &str, image: &str) -> (r: Result<ImageSource, String>)
    ensures
        image_source_spec(source_type@, image@, r),
{
    if str_eq(source_type, "file") {
        Ok(ImageSource::File(crate::text::owned(image)))
    } else if str_eq(source_type, "base64") {
        match base64_decode(image) {
            Ok(data) => Ok(ImageSource::Bytes { data, mime: "image/jpeg".to_string() }),
            Err(why) => Err(join2("Invalid base64: ", why.as_str())),
        }
    } else if str_eq(source_type, "url") {
        match parse_url(image) {
            Ok(u) => Ok(ImageSource::Url(u)),
            Err(why) => Err(join2("Invalid URL: ", why.as_str())),
        }
    } else {
        let a = join2("Unknown image source type: '", source_type);
        Err(join2(a.as_str(), "'. Use 'file', 'base64', or 'url'."))
    }
}

/*-- requests to an OpenAI-compatible vision model ---------------------------------------*/

/// A part of the user's message: text, or an image by its URL.
pub enum ContentPart {
    Text(String),
    ImageUrl(String),
}

/// A content part as JSON.
pub open spec fn part_json(p: ContentPart) -> JsonView {
    match p {
        ContentPart::Text(t) => JsonView::Object(seq![("type"@, JsonView::Str("text"@)), ("text"@, JsonView::Str(t@))]),
        ContentPart::ImageUrl(u) => JsonView::Object(
            seq![
                ("type"@, JsonView::Str("image_url"@)),
                ("image_url"@, JsonView::Object(seq![("url"@, JsonView::Str(u@))])),
            ],
        ),
    }
}

/// The body of a request to a vision model: the model, a system message, a
/// user message made of the parts, not streamed, at most 4096 tokens.
pub open spec fn vlm_body(model: Seq<char>, system: Seq<char>, parts: Seq<ContentPart>) -> JsonView {
    JsonView::Object(
        seq![
            ("model"@, JsonView::Str(model)),
            (
                "messages"@,
                JsonView::Array(
                    seq![
                        JsonView::Object(seq![("role"@, JsonView::Str("system"@)), ("content"@, JsonView::Str(system))]),
                        JsonView::Object(
                            seq![
                                ("role"@, JsonView::Str("user"@)),
                                ("content"@, JsonView::Array(Seq::new(parts.len(), |i: int| part_json(parts[i])))),
                            ],
                        ),
                    ],
                ),
            ),
            ("stream"@, JsonView::Bool(false)),
            ("max_tokens"@, JsonView::Number("4096"@)),
        ],
    )
}

fn str_json(s: &str) -> (v: JsonValue)
    ensures
        v@ == JsonView::Str(s@),
{
    JsonValue::Str(crate::text::owned(s))
}

fn object2(k1: &str, v1: JsonValue, k2: &str, v2: JsonValue) -> (v: JsonValue)
    ensures
        v@ == JsonView::Object(seq![(k1@, v1@), (k2@, v2@)]),
{
    let ghost (a, b) = (v1@, v2@);
    let members: Vec<(String, JsonValue)> = vec![(k1.to_string(), v1), (k2.to_string(), v2)];
    proof {
        lemma_object_view(members);
        assert(members_view(members@) =~= seq![(k1@, a), (k2@, b)]);
    }
    JsonValue::Object(members)
}

fn part_value(p: &ContentPart) -> (v: JsonValue)
    ensures
        v@ == part_json(*p),
{
    match p {
        ContentPart::Text(t) => object2("type", str_json("text"), "text", str_json(t.as_str())),
        ContentPart::ImageUrl(u) => {
            let members: Vec<(String, JsonValue)> = vec![("url".to_string(), str_json(u.as_str()))];
            proof {
                lemma_object_view(members);
                assert(members_view(members@) =~= seq![("url"@, JsonView::Str(u@))]);
            }
            object2("type", str_json("image_url"), "image_url", JsonValue::Object(members))
        },
    }
}

/// The body of a request to a vision model (see `vlm_body`).
pub fn vlm_request_body(model: &str, system: &str, parts: &Vec<ContentPart>) -> (v: JsonValue)
    ensures
        v@ == vlm_body(model@, system@, parts@),
{
    let mut items: Vec<JsonValue> = Vec::new();
    let mut i: usize = 0;
    while i < parts.len()
        invariant
            i <= parts@.len(),
            items@.len() == i,
            forall|j: int| 0 <= j < i ==> #[trigger] items@[j]@ == part_json(parts@[j]),
        decreases parts@.len() - i,
    {
        items.push(part_value(&parts[i]));
        i += 1;
    }
    proof {
        lemma_array_view(items);
        assert forall|j: int| 0 <= j < items@.len() implies json_view(#[trigger] items@[j]) == part_json(parts@[j]) by {
            assert(items@[j]@ == part_json(parts@[j]));
        }
        assert(Seq::new(items@.len(), |j: int| json_view(items@[j])) =~= Seq::new(
            parts@.len(),
            |j: int| part_json(parts@[j]),
        ));
    }
    let content = JsonValue::Array(items);
    assert(content@ == JsonView::Array(Seq::new(parts@.len(), |j: int| part_json(parts@[j]))));
    let user = object2("role", str_json("user"), "content", content);
    let sys = object2("role", str_json("system"), "content", str_json(system));
    let ghost (uv, sv) = (user@, sys@);
    let messages: Vec<JsonValue> = vec![sys, user];
    proof {
        lemma_array_view(messages);
        assert(Seq::new(messages@.len(), |j: int| json_view(messages@[j])) =~= seq![sv, uv]);
    }
    let msgs = JsonValue::Array(messages);
    assert(msgs@ == JsonView::Array(seq![sv, uv]));
    let members: Vec<(String, JsonValue)> = vec![
        ("model".to_string(), str_json(model)),
        ("messages".to_string(), msgs),
        ("stream".to_string(), JsonValue::Bool(false)),
        ("max_tokens".to_string(), JsonValue::Number("4096".to_string())),
    ];
    proof {
        lemma_object_view(members);
        assert(members_view(members@) =~= seq![
            ("model"@, JsonView::Str(model@)),
            ("messages"@, JsonView::Array(seq![sv, uv])),
            ("stream"@, JsonView::Bool(false)),
            ("max_tokens"@, JsonView::Number("4096"@)),
        ]);
    }
    JsonValue::Object(members)
}

/// The headers of a request to a vision model: JSON content, the key as a
/// bearer token when there is one, then the extra headers in order.
pub open spec fn vlm_headers(api_key: Seq<char>, extra: Seq<(Seq<char>, Seq<char>)>) -> Seq<(Seq<char>, Seq<char>)> {
    let base = seq![("Content-Type"@, "application/json"@)];
    let with_key = if api_key.len() > 0 {
        base.push(("Authorization"@, "Bearer "@ + api_key))
    } else {
        base
    };
    with_key + extra
}

/// Header pairs, by their views.
pub open spec fn header_pairs(h: Seq<(String, String)>) -> Seq<(Seq<char>, Seq<char>)> {
    Seq::new(h.len(), |i: int| (h[i].0@, h[i].1@))
}

/// Where a request to a vision model at `endpoint` is posted (its chat
/// completions, after the endpoint's trailing `/` are dropped), and with which headers.
pub fn vlm_target(endpoint: &str, api_key: &str, extra: &Vec<(String, String)>) -> (r: (String, Vec<(String, String)>))
    ensures
        r.0@ == without_trailing_slashes(endpoint@) + "/chat/completions"@,
        header_pairs(r.1@) == vlm_headers(api_key@, header_pairs(extra@)),
{
    let ev = crate::text::chars_of(endpoint);
    let base = crate::text::string_of(without_trailing_slashes_exec(&ev).as_slice());
    let mut h: Vec<(String, String)> = Vec::new();
    h.push(("Content-Type".to_string(), "application/json".to_string()));
    if crate::text::chars_of(api_key).len() > 0 {
        h.push(("Authorization".to_string(), join2("Bearer ", api_key)));
    }
    let ghost start = header_pairs(h@);
    assert(start =~= if api_key@.len() > 0 {
        seq![("Content-Type"@, "application/json"@)].push(("Authorization"@, "Bearer "@ + api_key@))
    } else {
        seq![("Content-Type"@, "application/json"@)]
    });
    let mut i: usize = 0;
    while i < extra.len()
        invariant
            i <= extra@.len(),
            header_pairs(h@) == start + header_pairs(extra@).take(i as int),
        decreases extra@.len() - i,
    {
        let ghost before = header_pairs(h@);
        h.push((crate::text::owned(extra[i].0.as_str()), crate::text::owned(extra[i].1.as_str())));
        assert(header_pairs(h@) =~= before.push(header_pairs(extra@)[i as int]));
        assert(header_pairs(extra@).take(i + 1) =~= header_pairs(extra@).take(i as int).push(header_pairs(extra@)[i as int]));
        i += 1;
    }
    assert(header_pairs(extra@).take(i as int) =~= header_pairs(extra@));
    (join2(base.as_str(), "/chat/completions"), h)
}

/// What a vision model's answer comes to: for a failed status, rate limiting
/// (429) or an API error showing the status and body; otherwise the content
/// of the first choice, refused when the body did not parse (`parsed` holds
/// why) or holds no content.
pub fn vlm_outcome(
    status: u16,
    status_text: &str,
    body: &str,
    parsed: Result<Vec<Option<String>>, String>,
) -> (r: Result<String, VlmError>)
    ensures
        !(200 <= status <= 299) && status == 429 ==> (r matches Err(VlmError::RateLimited(m)) && m@ == "Rate limited: "@
            + body@),
        !(200 <= status <= 299) && status != 429 ==> (r matches Err(VlmError::ApiError(m)) && m@ == status_text@
            + ": "@ + body@),
        200 <= status <= 299 ==> match parsed {
            Err(e) => r matches Err(VlmError::ApiError(m)) && m@ == "Failed to parse response: "@ + e@,
            Ok(cs) => if cs@.len() > 0 && cs@[0] is Some {
                r matches Ok(c) && c@ == cs@[0]->Some_0@
            } else {
                r matches Err(VlmError::ApiError(m)) && m@ == "Empty response from VLM"@
            },
        },
{
    if !(200 <= status && status <= 299) {
        if status == 429 {
            return Err(VlmError::RateLimited(join2("Rate limited: ", body)));
        }
        let a = join2(status_text, ": ");
        return Err(VlmError::ApiError(join2(a.as_str(), body)));
    }
    match parsed {
        Err(e) => Err(VlmError::ApiError(join2("Failed to parse response: ", e.as_str()))),
        Ok(cs) => {
            if cs.len() > 0 {
                match &cs[0] {
                    Some(c) => {
                        return Ok(crate::text::owned(c.as_str()));
                    },
                    None => {},
                }
            }
            Err(VlmError::ApiError("Empty response from VLM".to_string()))
        },
    }
}

} // verus!
