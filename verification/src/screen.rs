//! Screen capture: where a screenshot is saved, how it is encoded, and what is reported.
use vstd::prelude::*;
use base64::Engine;
use screenshots::image::codecs::png::PngEncoder;
use screenshots::image::{ColorType, ImageEncoder};
use crate::command::opt_view;
use crate::input::result_view;
use crate::text::{chars_of, eq_ignore_case, lemma_trim_ends, lemma_trim_fixed, trim, trim_bounds};

verus! {

broadcast use vstd::string::group_string_axioms;

/// What a screen capture reports.
#[derive(Debug, Clone)]
pub struct ScreenCaptureResult {
    pub detail: String,
    pub screenshot_path: Option<String>,
    pub screenshot_data_url: Option<String>,
}

pub struct ScreenCaptureResultView {
    pub detail: Seq<char>,
    pub screenshot_path: Option<Seq<char>>,
    pub screenshot_data_url: Option<Seq<char>>,
}

impl View for ScreenCaptureResult {
    type V = ScreenCaptureResultView;

    open spec fn view(&self) -> ScreenCaptureResultView {
        ScreenCaptureResultView {
            detail: self.detail@,
            screenshot_path: opt_view(self.screenshot_path),
            screenshot_data_url: opt_view(self.screenshot_data_url),
        }
    }
}

/// The character of the 6-bit value `v` in the standard Base64 alphabet (RFC 4648): `A`-`Z`,
/// `a`-`z`, `0`-`9`, `+`, `/`.
pub open spec fn base64_digit(v: int) -> char {
    if v < 26 {
        (65 + v) as char
    } else if v < 52 {
        (97 + (v - 26)) as char
    } else if v < 62 {
        (48 + (v - 52)) as char
    } else if v == 62 {
        '+'
    } else {
        '/'
    }
}

/// The standard Base64 encoding of `bytes` (RFC 4648 alphabet, `=` padding): each group of
/// three bytes, read as 24 bits from the most significant bit of the first, gives four
/// digits of six bits each; a last group of one or two bytes is filled with zero bits and its
/// missing digits are written `=`.
pub open spec fn base64_standard(bytes: Seq<u8>) -> Seq<char>
    decreases bytes.len(),
{
    if bytes.len() == 0 {
        Seq::empty()
    } else if bytes.len() == 1 {
        let b0 = bytes[0] as int;
        seq![base64_digit(b0 / 4), base64_digit((b0 % 4) * 16), '=', '=']
    } else if bytes.len() == 2 {
        let b0 = bytes[0] as int;
        let b1 = bytes[1] as int;
        seq![
            base64_digit(b0 / 4),
            base64_digit((b0 % 4) * 16 + b1 / 16),
            base64_digit((b1 % 16) * 4),
            '=',
        ]
    } else {
        let b0 = bytes[0] as int;
        let b1 = bytes[1] as int;
        let b2 = bytes[2] as int;
        seq![
            base64_digit(b0 / 4),
            base64_digit((b0 % 4) * 16 + b1 / 16),
            base64_digit((b1 % 16) * 4 + b2 / 64),
            base64_digit(b2 % 64),
        ] + base64_standard(bytes.skip(3))
    }
}

/// Length of the padded Base64 encoding of `n` bytes.
pub open spec fn base64_len(n: nat) -> nat {
    (n + 2) / 3 * 4
}

/// The encoding of `n` bytes has four characters for each started group of three.
pub proof fn lemma_base64_len(bytes: Seq<u8>)
    ensures
        base64_standard(bytes).len() == base64_len(bytes.len()),
    decreases bytes.len(),
{
    if bytes.len() >= 3 {
        lemma_base64_len(bytes.skip(3));
    }
}

/// Calls `base64::engine::general_purpose::STANDARD.encode`. Trusted: the result is the
/// padded standard encoding of `bytes` ([`base64_standard`]). The crate panics when the
/// encoded length overflows or cannot be allocated, which the precondition excludes.
#[verifier::external_body]
fn base64_encode(bytes: &[u8]) -> (r: String)
    requires
        base64_len(bytes@.len()) <= isize::MAX,
    ensures
        r@ == base64_standard(bytes@),
{
    base64::engine::general_purpose::STANDARD.encode(bytes)
}

/// The PNG file that the `image` crate's PNG encoder (as re-exported by `screenshots`) writes
/// for `width` x `height` RGBA pixels, or `None` when the encoder reports an error.
pub uninterp spec fn png_rgba(pixels: Seq<u8>, width: u32, height: u32) -> Option<Seq<u8>>;

/// Calls `PngEncoder::write_image` with `ColorType::Rgba8` into a new buffer. Trusted: the
/// bytes written are [`png_rgba`] of the arguments, and an error happens exactly when that is
/// `None`; the error's text (the encoder's message) is not stated. The encoder panics when the
/// buffer length is not `width * height * 4`, which the precondition excludes.
#[verifier::external_body]
fn png_encode_rgba(pixels: &[u8], width: u32, height: u32) -> (r: Result<Vec<u8>, String>)
    requires
        pixels@.len() == width * height * 4,
    ensures
        match r {
            Ok(v) => png_rgba(pixels@, width, height) == Some(v@),
            Err(_) => png_rgba(pixels@, width, height) is None,
        },
{
    let mut out: Vec<u8> = Vec::new();
    match PngEncoder::new(&mut out).write_image(pixels, width, height, ColorType::Rgba8) {
        Ok(()) => Ok(out),
        Err(e) => Err(e.to_string()),
    }
}

/// No `/`, `\\` or `:`: text that no platform reads as holding a path separator or a drive
/// or device prefix.
pub open spec fn sep_free(s: Seq<char>) -> bool {
    !s.contains('/') && !s.contains('\\') && !s.contains(':')
}

/// No `.` and no separator: text that every platform reads as part of one file name, with no
/// extension in it.
pub open spec fn plain_name(s: Seq<char>) -> bool {
    !s.contains('.') && sep_free(s)
}

/// `s` is a file name with one `.`, at `i`, after a non-empty stem: `stem.ext` with neither
/// part holding a `.`, `/`, `\\` or `:` (the extension may be empty).
pub open spec fn dotted_name(s: Seq<char>, i: int) -> bool {
    &&& 0 < i < s.len()
    &&& s[i] == '.'
    &&& plain_name(s.take(i))
    &&& plain_name(s.skip(i + 1))
}

/// The file name of `t` starts after index `j`: either `j` is `-1` and `t` holds no
/// separator, or `t[j]` is its last `/`. The directory part `t[..j + 1]` holds no `\\` or `:`
/// and `t` does not start with `//`, so that no platform reads a drive, share or device
/// prefix in it; `/` separates components on every platform.
pub open spec fn file_name_at(t: Seq<char>, j: int) -> bool {
    &&& -1 <= j < t.len()
    &&& (j >= 0 ==> t[j] == '/')
    &&& sep_free(t.skip(j + 1))
    &&& !t.take(j + 1).contains('\\')
    &&& !t.take(j + 1).contains(':')
    &&& !(t.len() >= 2 && t[0] == '/' && t[1] == '/')
}

/// `/`, `\\` or `:`: a character that some platform reads as ending a path component or a
/// drive prefix.
pub open spec fn is_path_mark(c: char) -> bool {
    c == '/' || c == '\\' || c == ':'
}

/// `t` does not start with two separators (`/` or `\\`), so that no platform reads a share,
/// device or verbatim prefix in it.
pub open spec fn no_share_prefix(t: Seq<char>) -> bool {
    !(t.len() >= 2 && (t[0] == '/' || t[0] == '\\') && (t[1] == '/' || t[1] == '\\'))
}

/// The last part of `t` starts after index `j`: `j` is `-1` or `t[j]` is a `/`, `\\` or `:`,
/// and none of these follows it; `t` has no share prefix. On every platform the file name of
/// `t` ends with that last part, and `/` is the last separator before it where `/` alone
/// separates.
pub open spec fn last_part_at(t: Seq<char>, j: int) -> bool {
    &&& -1 <= j < t.len()
    &&& (j >= 0 ==> is_path_mark(t[j]))
    &&& sep_free(t.skip(j + 1))
    &&& no_share_prefix(t)
}

/// `t[l]` is the last `/` of `t`, or `l` is `-1` when `t` holds none.
pub open spec fn last_slash_at(t: Seq<char>, l: int) -> bool {
    &&& -1 <= l < t.len()
    &&& (l >= 0 ==> t[l] == '/')
    &&& !t.skip(l + 1).contains('/')
}

/// Calls `Path::extension` (then `OsStr::to_str`). Trusted, as std documents it: the
/// extension is taken from the file name, the last component; there is none when the path
/// holds no `.` or its file name is a non-empty plain name; it is `ext` when the file name is
/// `stem.ext`; an extension holds no `.`, being what follows the last `.` of the file name.
/// Where `\\` and `:` also mark components (a drive prefix, or `\\` as a separator), a path
/// whose last part is `stem.ext` has extension `ext` all the same, and one whose last part
/// is a plain name has none when no `.` follows its last `/`.
/// Which part of other paths is their extension follows the platform's path syntax and is
/// not stated.
#[verifier::external_body]
fn path_extension(path: &str) -> (r: Option<String>)
    ensures
        r matches Some(e) ==> !e@.contains('.'),
        !path@.contains('.') ==> r is None,
        forall|j: int|
            #[trigger] file_name_at(path@, j) && path@.skip(j + 1).len() > 0 && plain_name(
                path@.skip(j + 1),
            ) ==> r is None,
        forall|j: int, i: int|
            #![trigger file_name_at(path@, j), dotted_name(path@.skip(j + 1), i)]
            file_name_at(path@, j) && dotted_name(path@.skip(j + 1), i) ==> opt_view(r) == Some(
                path@.skip(j + 1).skip(i + 1),
            ),
        forall|j: int, i: int|
            #![trigger last_part_at(path@, j), dotted_name(path@.skip(j + 1), i)]
            last_part_at(path@, j) && dotted_name(path@.skip(j + 1), i) ==> opt_view(r) == Some(
                path@.skip(j + 1).skip(i + 1),
            ),
        forall|j: int, l: int|
            #![trigger last_part_at(path@, j), last_slash_at(path@, l)]
            last_part_at(path@, j) && last_slash_at(path@, l) && path@.skip(j + 1).len() > 0
                && plain_name(path@.skip(j + 1)) && !path@.skip(l + 1).contains('.') ==> r is None,
{
    match std::path::Path::new(path).extension().and_then(|e| e.to_str()) {
        Some(e) => Some(e.to_string()),
        None => None,
    }
}

/// Calls `PathBuf::set_extension(ext)` on `path` and displays the result. Trusted, as std
/// documents it: the path is kept up to the end of its file name's stem, then `.ext` follows;
/// so a path whose file name is a non-empty plain name gets `.ext` added, and one whose file
/// name is `stem.ext` has its extension replaced; likewise for a last part after a `\\` or
/// `:` (see [`last_part_at`]). What it gives for other paths follows the
/// platform's path syntax and is not stated. `ext` is a non-empty plain name, so that it
/// holds no path separator.
#[verifier::external_body]
fn path_with_extension(path: &str, ext: &str) -> (r: String)
    requires
        ext@.len() > 0,
        plain_name(ext@),
    ensures
        forall|j: int|
            #[trigger] file_name_at(path@, j) && path@.skip(j + 1).len() > 0 && plain_name(
                path@.skip(j + 1),
            ) ==> r@ == path@ + "."@ + ext@,
        forall|j: int, i: int|
            #![trigger file_name_at(path@, j), dotted_name(path@.skip(j + 1), i)]
            file_name_at(path@, j) && dotted_name(path@.skip(j + 1), i) ==> r@ == path@.take(j + 1)
                + path@.skip(j + 1).take(i) + "."@ + ext@,
        forall|j: int, i: int|
            #![trigger last_part_at(path@, j), dotted_name(path@.skip(j + 1), i)]
            last_part_at(path@, j) && dotted_name(path@.skip(j + 1), i) ==> r@ == path@.take(j + 1)
                + path@.skip(j + 1).take(i) + "."@ + ext@,
        forall|j: int, l: int|
            #![trigger last_part_at(path@, j), last_slash_at(path@, l)]
            last_part_at(path@, j) && last_slash_at(path@, l) && path@.skip(j + 1).len() > 0
                && plain_name(path@.skip(j + 1)) && !path@.skip(l + 1).contains('.') ==> r@ == path@
                + "."@ + ext@,
{
    let mut p = std::path::PathBuf::from(path);
    p.set_extension(ext);
    p.display().to_string()
}

/// What a screenshot path's extension calls for.
#[derive(Debug, Clone, Copy, PartialEq, Eq, Structural)]
pub enum ExtensionVerdict {
    /// No extension: save as `.png`.
    AddPng,
    /// `.png` (any ASCII case): keep the path.
    Keep,
    /// Any other extension: refuse.
    Reject,
}

pub open spec fn spec_extension_verdict(ext: Option<Seq<char>>) -> ExtensionVerdict {
    match ext {
        None => ExtensionVerdict::AddPng,
        Some(e) => if e.len() == 0 {
            ExtensionVerdict::AddPng
        } else if eq_ignore_case(e, "png"@) {
            ExtensionVerdict::Keep
        } else {
            ExtensionVerdict::Reject
        },
    }
}

/// Judges a screenshot path by its extension (see [`spec_extension_verdict`]).
pub fn extension_verdict(ext: Option<&str>) -> (r: ExtensionVerdict)
    ensures
        r == spec_extension_verdict(
            match ext {
                Some(e) => Some(e@),
                None => None,
            },
        ),
{
    match ext {
        None => ExtensionVerdict::AddPng,
        Some(e) => {
            let cs = chars_of(e);
            assert(cs@.subrange(0, cs@.len() as int) =~= e@);
            if cs.len() == 0 {
                ExtensionVerdict::AddPng
            } else if crate::text::eq_ignore_case_at(&cs, 0, cs.len(), "png") {
                ExtensionVerdict::Keep
            } else {
                ExtensionVerdict::Reject
            }
        },
    }
}

/// What a screenshot path becomes, given the trimmed path, the extension found in it, and the
/// trimmed path with its extension set to `png`: the latter when there is no extension, the
/// trimmed path itself when the extension is `png` (any ASCII case), and a refusal otherwise.
pub open spec fn spec_output_path(
    trimmed: Seq<char>,
    ext: Option<Seq<char>>,
    with_png: Seq<char>,
) -> Result<Seq<char>, Seq<char>> {
    match spec_extension_verdict(ext) {
        ExtensionVerdict::AddPng => Ok(with_png),
        ExtensionVerdict::Keep => Ok(trimmed),
        ExtensionVerdict::Reject => Err("unsupported screenshot format; use .png"@),
    }
}

/// Settles a screenshot path from the trimmed path, its extension and the trimmed path with
/// `.png` set (see [`spec_output_path`]).
pub fn resolve_output_path(trimmed: &str, ext: Option<&str>, with_png: String) -> (r: Result<
    String,
    String,
>)
    ensures
        result_view(r) == spec_output_path(
            trimmed@,
            match ext {
                Some(e) => Some(e@),
                None => None,
            },
            with_png@,
        ),
{
    match extension_verdict(ext) {
        ExtensionVerdict::AddPng => Ok(with_png),
        ExtensionVerdict::Keep => Ok(String::from_str(trimmed)),
        ExtensionVerdict::Reject => Err(String::from_str("unsupported screenshot format; use .png")),
    }
}

/// What the trimmed screenshot path `t` becomes when its file name (see [`file_name_at`]) is
/// a plain name, with or without one extension (see [`plain_name`] and [`dotted_name`]),
/// whatever directory part comes before it; `None` for any other path, whose reading follows
/// the platform's path syntax.
pub open spec fn simple_output_path(t: Seq<char>) -> Option<Result<Seq<char>, Seq<char>>> {
    if exists|j: int| file_name_at(t, j) {
        let j = choose|j: int| file_name_at(t, j);
        let dir = t.take(j + 1);
        let name = t.skip(j + 1);
        if name.len() > 0 && plain_name(name) {
            Some(Ok(t + ".png"@))
        } else if exists|i: int| dotted_name(name, i) {
            let i = choose|i: int| dotted_name(name, i);
            Some(spec_output_path(t, Some(name.skip(i + 1)), dir + name.take(i) + ".png"@))
        } else {
            None
        }
    } else {
        None
    }
}

/// What the trimmed screenshot path `t` becomes when its last part (after its last `/`, `\\`
/// or `:`, see [`last_part_at`]) is `stem.ext`, or a plain name with no `.` after the last
/// `/` of `t`, whatever drive or directories come before it; `None` for any other path,
/// whose reading follows the platform's path syntax.
pub open spec fn marked_output_path(t: Seq<char>) -> Option<Result<Seq<char>, Seq<char>>> {
    if exists|j: int| last_part_at(t, j) {
        let j = choose|j: int| last_part_at(t, j);
        let name = t.skip(j + 1);
        if exists|i: int| dotted_name(name, i) {
            let i = choose|i: int| dotted_name(name, i);
            Some(spec_output_path(t, Some(name.skip(i + 1)), t.take(j + 1) + name.take(i) + ".png"@))
        } else if name.len() > 0 && plain_name(name) && exists|l: int|
            last_slash_at(t, l) && !t.skip(l + 1).contains('.') {
            Some(Ok(t + ".png"@))
        } else {
            None
        }
    } else {
        None
    }
}

/// A path's last part starts at one place only: after its last `/`, `\\` or `:`.
proof fn lemma_last_part_unique(t: Seq<char>, j: int, k: int)
    requires
        last_part_at(t, j),
        last_part_at(t, k),
    ensures
        j == k,
{
    if j < k {
        assert(t.skip(j + 1)[k - j - 1] == t[k]);
    } else if k < j {
        assert(t.skip(k + 1)[j - k - 1] == t[j]);
    }
}

/// A path has one last `/`.
proof fn lemma_last_slash_unique(t: Seq<char>, l: int, m: int)
    requires
        last_slash_at(t, l),
        last_slash_at(t, m),
    ensures
        l == m,
{
    if l < m {
        assert(t.skip(l + 1)[m - l - 1] == '/');
    } else if m < l {
        assert(t.skip(m + 1)[l - m - 1] == '/');
    }
}

/// Whatever drive, separators and directories come before it, a screenshot path whose last
/// part is `stem.ext` is settled by its extension alone: kept as it is when `ext` is `png`
/// in any ASCII case, given `.png` in place of the empty extension of `stem.`, and refused
/// with the unsupported-format error for any other extension.
pub proof fn lemma_screenshot_path_by_extension(t: Seq<char>, j: int, i: int)
    requires
        last_part_at(t, j),
        dotted_name(t.skip(j + 1), i),
    ensures
        ({
            let ext = t.skip(j + 1).skip(i + 1);
            let stem = t.skip(j + 1).take(i);
            &&& eq_ignore_case(ext, "png"@) ==> marked_output_path(t) == Some(
                Ok::<Seq<char>, Seq<char>>(t),
            )
            &&& ext.len() == 0 ==> marked_output_path(t) == Some(
                Ok::<Seq<char>, Seq<char>>(t.take(j + 1) + stem + ".png"@),
            )
            &&& ext.len() > 0 && !eq_ignore_case(ext, "png"@) ==> marked_output_path(t) == Some(
                Err::<Seq<char>, Seq<char>>("unsupported screenshot format; use .png"@),
            )
        }),
{
    reveal_strlit("png");
    assert(last_part_at(t, j));
    let k = choose|k: int| last_part_at(t, k);
    lemma_last_part_unique(t, j, k);
    let name = t.skip(j + 1);
    assert(dotted_name(name, i));
    let m = choose|m: int| dotted_name(name, m);
    lemma_dotted_name_unique(name, i, m);
    let ext = name.skip(i + 1);
    if eq_ignore_case(ext, "png"@) {
        assert(ext.len() == 3);
    }
}

/// Whatever drive, separators and directories come before it, a screenshot path whose last
/// part is a plain name, with no `.` after its last `/`, is given `.png`.
pub proof fn lemma_screenshot_path_without_extension(t: Seq<char>, j: int, l: int)
    requires
        last_part_at(t, j),
        last_slash_at(t, l),
        t.skip(j + 1).len() > 0,
        plain_name(t.skip(j + 1)),
        !t.skip(l + 1).contains('.'),
    ensures
        marked_output_path(t) == Some(Ok::<Seq<char>, Seq<char>>(t + ".png"@)),
{
    let k = choose|k: int| last_part_at(t, k);
    lemma_last_part_unique(t, j, k);
    let name = t.skip(j + 1);
    if exists|i: int| dotted_name(name, i) {
        let i = choose|i: int| dotted_name(name, i);
        assert(name.contains('.')) by {
            assert(name[i] == '.');
        }
    }
}

/// A file name has at most one place that splits it into a plain stem and extension.
proof fn lemma_dotted_name_unique(s: Seq<char>, i: int, j: int)
    requires
        dotted_name(s, i),
        dotted_name(s, j),
    ensures
        i == j,
{
    if i < j {
        assert(s.take(j)[i] == '.');
    } else if j < i {
        assert(s.take(i)[j] == '.');
    }
}

/// A path's file name starts at one place only: after its last `/`.
proof fn lemma_file_name_unique(t: Seq<char>, j: int, k: int)
    requires
        file_name_at(t, j),
        file_name_at(t, k),
    ensures
        j == k,
{
    if j < k {
        assert(t.skip(j + 1)[k - j - 1] == '/');
    } else if k < j {
        assert(t.skip(k + 1)[j - k - 1] == '/');
    }
}

/// `dir + stem + ".png"`, with `dir` ending where a file name may start and `stem` a
/// non-empty plain name, is settled: it is kept as it is.
proof fn lemma_png_name_kept(dir: Seq<char>, stem: Seq<char>)
    requires
        stem.len() > 0,
        plain_name(stem),
        file_name_at(dir + stem, dir.len() - 1),
    ensures
        simple_output_path(dir + stem + ".png"@) == Some(
            Ok::<Seq<char>, Seq<char>>(dir + stem + ".png"@),
        ),
{
    reveal_strlit(".png");
    reveal_strlit("png");
    let t = dir + stem;
    let q = dir + stem + ".png"@;
    let jd = dir.len() - 1;
    let name = stem + ".png"@;
    assert(q.skip(jd + 1) =~= name);
    assert(q.take(jd + 1) =~= t.take(jd + 1));
    assert(t.skip(jd + 1) =~= stem);
    assert(!name.contains('/')) by {
        if name.contains('/') {
            let w = choose|w: int| 0 <= w < name.len() && name[w] == '/';
            if w < stem.len() {
                assert(stem[w] == '/');
            }
        }
    }
    assert(!name.contains('\\')) by {
        if name.contains('\\') {
            let w = choose|w: int| 0 <= w < name.len() && name[w] == '\\';
            if w < stem.len() {
                assert(stem[w] == '\\');
            }
        }
    }
    assert(!name.contains(':')) by {
        if name.contains(':') {
            let w = choose|w: int| 0 <= w < name.len() && name[w] == ':';
            if w < stem.len() {
                assert(stem[w] == ':');
            }
        }
    }
    if q.len() >= 2 && q[0] == '/' && q[1] == '/' {
        assert(t[0] == q[0]);
        assert(t[1] == q[1]);
    }
    assert(file_name_at(q, jd));
    let j = choose|j: int| file_name_at(q, j);
    lemma_file_name_unique(q, j, jd);
    let k = stem.len() as int;
    assert(name.take(k) =~= stem);
    assert(name.skip(k + 1) =~= "png"@);
    assert(name[k] == '.');
    assert(plain_name("png"@)) by {
        assert(!"png"@.contains('.'));
    }
    assert(dotted_name(name, k));
    assert(name.contains('.'));
    let i = choose|i: int| dotted_name(name, i);
    lemma_dotted_name_unique(name, i, k);
    assert(eq_ignore_case("png"@, "png"@));
}

/// Saving a screenshot under the path that normalizing gave, for a path whose file name is a
/// plain name (with or without one extension), and normalizing that path again, changes
/// nothing: the path is its own trim and is kept.
pub proof fn lemma_output_path_settles(path: Seq<char>, q: Seq<char>)
    requires
        simple_output_path(trim(path)) == Some(Ok::<Seq<char>, Seq<char>>(q)),
    ensures
        trim(q) == q,
        simple_output_path(trim(q)) == Some(Ok::<Seq<char>, Seq<char>>(q)),
{
    reveal_strlit(".png");
    let t = trim(path);
    lemma_trim_ends(path);
    let j = choose|j: int| file_name_at(t, j);
    let dir = t.take(j + 1);
    let name = t.skip(j + 1);
    assert(t =~= dir + name);
    if name.len() > 0 && plain_name(name) {
        lemma_png_name_kept(dir, name);
        assert(q == t + ".png"@);
        assert(q[0] == t[0]);
        assert(q.last() == 'g');
        lemma_trim_fixed(q);
    } else {
        let i = choose|i: int| dotted_name(name, i);
        assert(dotted_name(name, i));
        match spec_extension_verdict(Some(name.skip(i + 1))) {
            ExtensionVerdict::AddPng => {
                let stem = name.take(i);
                assert(q == dir + stem + ".png"@);
                assert(q[0] == t[0]);
                assert(q.last() == 'g');
                lemma_trim_fixed(q);
                assert((dir + stem).take(j + 1) =~= dir);
                assert((dir + stem).skip(j + 1) =~= stem);
                assert(!stem.contains('/')) by {
                    if stem.contains('/') {
                        let w = choose|w: int| 0 <= w < stem.len() && stem[w] == '/';
                        assert(name[w] == '/');
                    }
                }
                assert(!stem.contains('\\')) by {
                    if stem.contains('\\') {
                        let w = choose|w: int| 0 <= w < stem.len() && stem[w] == '\\';
                        assert(name[w] == '\\');
                    }
                }
                assert(!stem.contains(':')) by {
                    if stem.contains(':') {
                        let w = choose|w: int| 0 <= w < stem.len() && stem[w] == ':';
                        assert(name[w] == ':');
                    }
                }
                if (dir + stem).len() >= 2 {
                    assert((dir + stem)[0] == t[0]);
                    assert((dir + stem)[1] == t[1]);
                }
                assert(file_name_at(dir + stem, dir.len() - 1));
                lemma_png_name_kept(dir, stem);
            },
            ExtensionVerdict::Keep => {
                assert(q == t);
                lemma_trim_fixed(q);
            },
            ExtensionVerdict::Reject => {},
        }
    }
}

/// The path a screenshot is saved to: `path` trimmed; `.png` added when it has no extension;
/// refused when it has an extension other than `.png`. For a path whose file name is a plain
/// name, with or without one extension, the result is [`simple_output_path`]; for other
/// paths, which part is the extension and what setting the extension gives follow the
/// platform's path syntax, and what is done with them is [`spec_output_path`].
pub fn normalize_output_path(path: &str) -> (r: Result<String, String>)
    ensures
        trim(path@).len() == 0 ==> result_view(r) == Err::<Seq<char>, Seq<char>>(
            "screenshot requires a path; use: screenshot <path>"@,
        ),
        simple_output_path(trim(path@)) matches Some(res) ==> result_view(r) == res,
        marked_output_path(trim(path@)) matches Some(res) ==> result_view(r) == res,
        trim(path@).len() > 0 ==> exists|ext: Option<Seq<char>>, with_png: Seq<char>|
            #![trigger spec_output_path(trim(path@), ext, with_png)]
            (ext matches Some(e) ==> !e.contains('.')) && result_view(r) == spec_output_path(
                trim(path@),
                ext,
                with_png,
            ),
{
    let cs = chars_of(path);
    let (a, b) = trim_bounds(&cs, 0, cs.len());
    assert(cs@.subrange(0, cs@.len() as int) =~= path@);
    if a == b {
        return Err(String::from_str("screenshot requires a path; use: screenshot <path>"));
    }
    let trimmed = path.substring_char(a, b);
    proof {
        reveal_strlit("png");
        reveal_strlit(".");
        reveal_strlit(".png");
        assert("."@ + "png"@ =~= ".png"@);
    }
    let ext = path_extension(trimmed);
    let with_png = path_with_extension(trimmed, "png");
    let r = match &ext {
        Some(e) => resolve_output_path(trimmed, Some(e.as_str()), with_png),
        None => resolve_output_path(trimmed, None, with_png),
    };
    let ghost ev = opt_view(ext);
    proof {
        let t = trim(path@);
        assert(t == trimmed@);
        assert(spec_output_path(t, ev, with_png@) == result_view(r));
        if exists|j: int| file_name_at(t, j) {
            let j = choose|j: int| file_name_at(t, j);
            let dir = t.take(j + 1);
            let name = t.skip(j + 1);
            if name.len() > 0 && plain_name(name) {
                assert(ev is None);
                assert(t + "."@ + "png"@ =~= t + ".png"@);
            } else if exists|i: int| dotted_name(name, i) {
                let i = choose|i: int| dotted_name(name, i);
                assert(ev == Some(name.skip(i + 1)));
                assert(dir + name.take(i) + "."@ + "png"@ =~= dir + name.take(i) + ".png"@);
                assert(with_png@ == dir + name.take(i) + ".png"@);
            }
        }
        if exists|j: int| last_part_at(t, j) {
            let j = choose|j: int| last_part_at(t, j);
            let dir = t.take(j + 1);
            let name = t.skip(j + 1);
            if exists|i: int| dotted_name(name, i) {
                let i = choose|i: int| dotted_name(name, i);
                assert(ev == Some(name.skip(i + 1)));
                assert(dir + name.take(i) + "."@ + "png"@ =~= dir + name.take(i) + ".png"@);
                assert(with_png@ == dir + name.take(i) + ".png"@);
            } else if name.len() > 0 && plain_name(name) && exists|l: int|
                last_slash_at(t, l) && !t.skip(l + 1).contains('.') {
                let l = choose|l: int| last_slash_at(t, l) && !t.skip(l + 1).contains('.');
                assert(last_slash_at(t, l));
                assert(ev is None);
                assert(t + "."@ + "png"@ =~= t + ".png"@);
            }
        }
    }
    r
}

/// Which of the machine's screens a screenshot captures, given whether each is the primary
/// screen: the first primary one; the first screen when none is marked primary; none when
/// there is no screen.
pub fn pick_screen(primary: &Vec<bool>) -> (r: Option<usize>)
    ensures
        r is None <==> primary@.len() == 0,
        r matches Some(i) ==> i < primary@.len() && (if exists|k: int|
            0 <= k < primary@.len() && #[trigger] primary@[k] {
            primary@[i as int] && forall|k: int| 0 <= k < i ==> !#[trigger] primary@[k]
        } else {
            i == 0
        }),
{
    let mut k: usize = 0;
    while k < primary.len()
        invariant
            k <= primary@.len(),
            forall|m: int| 0 <= m < k ==> !#[trigger] primary@[m],
        decreases primary@.len() - k,
    {
        if primary[k] {
            return Some(k);
        }
        k = k + 1;
    }
    if primary.len() == 0 {
        None
    } else {
        Some(0)
    }
}

/// `data:image/png;base64,` followed by the Base64 encoding of `png`.
pub open spec fn png_data_url(png: Seq<u8>) -> Seq<char> {
    "data:image/png;base64,"@ + base64_standard(png)
}

/// The screen capturer (the screen itself is read elsewhere).
#[derive(Debug, Default)]
pub struct ScreenCapture;

impl ScreenCapture {
    pub fn new() -> (r: ScreenCapture) {
        ScreenCapture
    }

    /// The capturer's status: `screen_ok`.
    pub fn peek(&self) -> (r: String)
        ensures
            r@ == "screen_ok"@,
    {
        String::from_str("screen_ok")
    }

    /// Encodes captured RGBA pixels as PNG; a refusal is reported as `encode error: ...`.
    pub fn encode_png(&self, pixels: &[u8], width: u32, height: u32) -> (r: Result<Vec<u8>, String>)
        requires
            pixels@.len() == width * height * 4,
        ensures
            match r {
                Ok(v) => png_rgba(pixels@, width, height) == Some(v@),
                Err(e) => png_rgba(pixels@, width, height) is None && e@.take(14)
                    == "encode error: "@,
            },
    {
        match png_encode_rgba(pixels, width, height) {
            Ok(v) => Ok(v),
            Err(msg) => {
                let mut e = String::from_str("encode error: ");
                proof {
                    reveal_strlit("encode error: ");
                }
                let ghost head = e@;
                e.append(msg.as_str());
                assert(e@.take(14) =~= head);
                Err(e)
            },
        }
    }

    /// The data URL of a PNG image (see [`png_data_url`]).
    pub fn data_url(&self, png: &[u8]) -> (r: String)
        requires
            base64_len(png@.len()) <= isize::MAX,
        ensures
            r@ == png_data_url(png@),
    {
        let mut r = String::from_str("data:image/png;base64,");
        let encoded = base64_encode(png);
        r.append(encoded.as_str());
        r
    }

    /// What is reported once the PNG image `png` has been saved at `output_path`.
    pub fn capture_result(&self, output_path: String, png: &[u8]) -> (r: ScreenCaptureResult)
        requires
            base64_len(png@.len()) <= isize::MAX,
        ensures
            r@ == (ScreenCaptureResultView {
                detail: "screenshot_saved: "@ + output_path@,
                screenshot_path: Some(output_path@),
                screenshot_data_url: Some(png_data_url(png@)),
            }),
    {
        let mut detail = String::from_str("screenshot_saved: ");
        detail.append(output_path.as_str());
        let url = self.data_url(png);
        ScreenCaptureResult {
            detail,
            screenshot_path: Some(output_path),
            screenshot_data_url: Some(url),
        }
    }
}

} // verus!
