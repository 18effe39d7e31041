use vstd::prelude::*;
use crate::text::{split_on, split_str};

verus! {

/// The status message that is sent: none for an empty text.
pub fn status_message_to_send(status: String) -> (r: Option<String>)
    ensures
        status@.len() == 0 ==> r is None,
        status@.len() > 0 ==> r == Some(status),
{
    if status.as_str().is_empty() {
        None
    } else {
        Some(status)
    }
}

/// What a profile text field (the username or the status message) sends when
/// the user presses Enter: the new text, when it is valid and differs from
/// the current one; nothing otherwise.
pub fn field_update_to_send(value: String, is_valid: bool, current: &String) -> (r: Option<String>)
    ensures
        is_valid && value@ != current@ ==> r == Some(value),
        !(is_valid && value@ != current@) ==> r is None,
{
    if !is_valid {
        return None;
    }
    if !value.eq(current) {
        Some(value)
    } else {
        None
    }
}

/// The online status one can choose for oneself.
#[derive(Clone, Copy, Debug, PartialEq, Eq, Structural)]
pub enum IdentityStatus {
    Online,
    Away,
    Busy,
    Offline,
}

/// The status sent when one is picked in the status selector: the status
/// that the picked option reads as, or online when it reads as none.
pub fn selected_status(parsed: Option<IdentityStatus>) -> (r: IdentityStatus)
    ensures
        match parsed {
            Some(st) => r == st,
            None => r == IdentityStatus::Online,
        },
{
    match parsed {
        Some(st) => st,
        None => IdentityStatus::Online,
    }
}

/// One's own identity as the profile page keeps it: the pictures, and
/// everything else.
pub struct OwnIdentity<R> {
    pub rest: R,
    pub profile_picture: String,
    pub profile_banner: String,
}

/// The identity kept after a profile update came back: the updated
/// identity, except that the picture and the banner stay the current ones.
pub fn merged_identity<R>(updated: OwnIdentity<R>, current: &OwnIdentity<R>) -> (r: OwnIdentity<R>)
    ensures
        r.rest == updated.rest,
        r.profile_picture@ == current.profile_picture@,
        r.profile_banner@ == current.profile_banner@,
{
    OwnIdentity {
        rest: updated.rest,
        profile_picture: current.profile_picture.clone(),
        profile_banner: current.profile_banner.clone(),
    }
}

/// Why a profile update failed.
#[derive(Clone, Copy, Debug, PartialEq, Eq, Structural)]
pub enum ProfileUpdateError {
    /// The picture or text is too large.
    InvalidLength,
    Other,
}

/// The message shown for a failed profile update.
#[derive(Clone, Copy, Debug, PartialEq, Eq, Structural)]
pub enum ProfileUpdateMessage {
    TooLarge,
    Failed,
}

/// Decides the message shown for a failed profile update.
pub fn profile_update_message(err: ProfileUpdateError) -> (r: ProfileUpdateMessage)
    ensures
        err == ProfileUpdateError::InvalidLength ==> r == ProfileUpdateMessage::TooLarge,
        err == ProfileUpdateError::Other ==> r == ProfileUpdateMessage::Failed,
{
    match err {
        ProfileUpdateError::InvalidLength => ProfileUpdateMessage::TooLarge,
        ProfileUpdateError::Other => ProfileUpdateMessage::Failed,
    }
}

/// The picture kinds that a profile picture or banner may have.
#[derive(Clone, Copy, Debug, PartialEq, Eq, Structural)]
pub enum ImageKind {
    Png,
    Jpeg,
    Svg,
}

/// The media type of an image kind, as the `mime` crate spells it.
pub open spec fn mime_essence(kind: ImageKind) -> Seq<char> {
    match kind {
        ImageKind::Png => seq!['i', 'm', 'a', 'g', 'e', '/', 'p', 'n', 'g'],
        ImageKind::Jpeg => seq!['i', 'm', 'a', 'g', 'e', '/', 'j', 'p', 'e', 'g'],
        ImageKind::Svg => seq!['i', 'm', 'a', 'g', 'e', '/', 's', 'v', 'g', '+', 'x', 'm', 'l'],
    }
}

/// The text of the `mime` crate's constant `IMAGE_PNG` (`to_string`), which
/// the crate defines as "image/png".
#[verifier::external_body]
fn mime_png_text() -> (r: String)
    ensures
        r@ == mime_essence(ImageKind::Png),
{
    mime::IMAGE_PNG.to_string()
}

/// The text of the `mime` crate's constant `IMAGE_JPEG` (`to_string`), which
/// the crate defines as "image/jpeg".
#[verifier::external_body]
fn mime_jpeg_text() -> (r: String)
    ensures
        r@ == mime_essence(ImageKind::Jpeg),
{
    mime::IMAGE_JPEG.to_string()
}

/// The text of the `mime` crate's constant `IMAGE_SVG` (`to_string`), which
/// the crate defines as "image/svg+xml".
#[verifier::external_body]
fn mime_svg_text() -> (r: String)
    ensures
        r@ == mime_essence(ImageKind::Svg),
{
    mime::IMAGE_SVG.to_string()
}

/// The media type of an image kind.
fn mime_text(kind: ImageKind) -> (r: String)
    ensures
        r@ == mime_essence(kind),
{
    match kind {
        ImageKind::Png => mime_png_text(),
        ImageKind::Jpeg => mime_jpeg_text(),
        ImageKind::Svg => mime_svg_text(),
    }
}

/// The picture kind named by a file extension: png, jpg or jpeg, svg.
pub open spec fn kind_of_extension(ext: Seq<char>) -> Option<ImageKind> {
    if ext == seq!['p', 'n', 'g'] {
        Some(ImageKind::Png)
    } else if ext == seq!['j', 'p', 'g'] || ext == seq!['j', 'p', 'e', 'g'] {
        Some(ImageKind::Jpeg)
    } else if ext == seq!['s', 'v', 'g'] {
        Some(ImageKind::Svg)
    } else {
        None
    }
}

fn eq_chars(s: &String, lit: &Vec<char>) -> (r: bool)
    ensures
        r == (s@ == lit@),
{
    let cs = crate::text::chars_of(s.as_str());
    if cs.len() != lit.len() {
        return false;
    }
    let mut i: usize = 0;
    while i < cs.len()
        invariant
            cs@ == s@,
            cs@.len() == lit@.len(),
            i <= cs@.len(),
            forall|j: int| 0 <= j < i ==> cs@[j] == lit@[j],
        decreases cs@.len() - i,
    {
        if cs[i] != lit[i] {
            return false;
        }
        i = i + 1;
    }
    assert(cs@ =~= lit@);
    true
}

/// The picture kind of a file, from what follows the last '.' of its name.
pub fn image_kind_of_file_name(file_name: &str) -> (r: Option<ImageKind>)
    ensures
        r == kind_of_extension(split_on(file_name@, '.').last()),
{
    let parts = split_str(file_name, '.');
    proof {
        crate::text::lemma_split_on_nonempty(file_name@, '.');
    }
    let last = &parts[parts.len() - 1];
    let png: Vec<char> = vec!['p', 'n', 'g'];
    let jpg: Vec<char> = vec!['j', 'p', 'g'];
    let jpeg: Vec<char> = vec!['j', 'p', 'e', 'g'];
    let svg: Vec<char> = vec!['s', 'v', 'g'];
    assert(png@ =~= seq!['p', 'n', 'g']);
    assert(jpg@ =~= seq!['j', 'p', 'g']);
    assert(jpeg@ =~= seq!['j', 'p', 'e', 'g']);
    assert(svg@ =~= seq!['s', 'v', 'g']);
    if eq_chars(last, &png) {
        Some(ImageKind::Png)
    } else if eq_chars(last, &jpg) || eq_chars(last, &jpeg) {
        Some(ImageKind::Jpeg)
    } else if eq_chars(last, &svg) {
        Some(ImageKind::Svg)
    } else {
        None
    }
}

/// The prefix that turns the base64 text of an image into a data URL:
/// nothing for an empty file, otherwise "data:" followed by the media type
/// (empty for an unknown kind) and ";base64,".
pub fn image_data_prefix(file_name: &str, file_len: usize) -> (r: String)
    ensures
        file_len == 0 ==> r@.len() == 0,
        file_len > 0 ==> r@ == seq!['d', 'a', 't', 'a', ':'] + (match kind_of_extension(
            split_on(file_name@, '.').last(),
        ) {
            Some(k) => mime_essence(k),
            None => Seq::<char>::empty(),
        }) + seq![';', 'b', 'a', 's', 'e', '6', '4', ','],
{
    if file_len == 0 {
        return String::new();
    }
    let mime = match image_kind_of_file_name(file_name) {
        Some(k) => mime_text(k),
        None => String::new(),
    };
    let head: Vec<char> = vec!['d', 'a', 't', 'a', ':'];
    let tail: Vec<char> = vec![';', 'b', 'a', 's', 'e', '6', '4', ','];
    let mut r = crate::text::string_from_chars(head.as_slice());
    r.append(mime.as_str());
    crate::text::push_chars(&mut r, tail.as_slice());
    r
}

/// A picture text that stands for "no picture": empty, or a lone NUL.
pub open spec fn is_empty_picture(image: Seq<char>) -> bool {
    image.len() == 0 || image == seq!['\0']
}

/// The user has no profile picture of their own: none is set, or the
/// default one is.
pub fn no_profile_picture(image: &str, contains_default_picture: bool) -> (r: bool)
    ensures
        r == (is_empty_picture(image@) || contains_default_picture),
{
    let cs = crate::text::chars_of(image);
    let nul = cs.len() == 1 && cs[0] == '\0';
    assert(nul ==> cs@ =~= seq!['\0']);
    assert(cs@ == seq!['\0'] ==> cs@.len() == 1 && cs@[0] == '\0');
    nul || cs.len() == 0 || contains_default_picture
}

/// The user has no banner.
pub fn no_banner_picture(banner: &str) -> (r: bool)
    ensures
        r == is_empty_picture(banner@),
{
    no_profile_picture(banner, false)
}

/// Validation rules of a text field.
#[derive(Clone, Debug, PartialEq, Eq)]
pub struct Validation {
    pub max_length: Option<i32>,
    pub min_length: Option<i32>,
    pub alpha_numeric_only: bool,
    pub no_whitespace: bool,
    pub ignore_colons: bool,
    pub special_chars_allowed: Option<Vec<char>>,
}

/// The rules of the username field: 4 to 32 letters and digits.
pub fn username_validation() -> (r: Validation)
    ensures
        r.max_length == Some(32i32),
        r.min_length == Some(4i32),
        r.alpha_numeric_only,
        r.no_whitespace,
        !r.ignore_colons,
        r.special_chars_allowed is None,
{
    Validation {
        max_length: Some(32),
        min_length: Some(4),
        alpha_numeric_only: true,
        no_whitespace: true,
        ignore_colons: false,
        special_chars_allowed: None,
    }
}

/// The rules of the status message field: at most 128 characters.
pub fn status_validation() -> (r: Validation)
    ensures
        r.max_length == Some(128i32),
        r.min_length == Some(0i32),
        !r.alpha_numeric_only,
        !r.no_whitespace,
        !r.ignore_colons,
        r.special_chars_allowed is None,
{
    Validation {
        max_length: Some(128),
        min_length: Some(0),
        alpha_numeric_only: false,
        no_whitespace: false,
        ignore_colons: false,
        special_chars_allowed: None,
    }
}

/// The rules of the "add someone" field: a short DID with its '#', 9 to 56
/// letters and digits, colons ignored.
pub fn friend_validation() -> (r: Validation)
    ensures
        r.max_length == Some(56i32),
        r.min_length == Some(9i32),
        r.alpha_numeric_only,
        r.no_whitespace,
        r.ignore_colons,
        r.special_chars_allowed matches Some(v) && v@ == seq!['#'],
{
    let hash: Vec<char> = vec!['#'];
    assert(hash@ =~= seq!['#']);
    Validation {
        max_length: Some(56),
        min_length: Some(9),
        alpha_numeric_only: true,
        no_whitespace: true,
        ignore_colons: true,
        special_chars_allowed: Some(hash),
    }
}

} // verus!
