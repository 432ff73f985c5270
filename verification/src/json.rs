//! The library's window onto serde_json: the service's envelope is parsed
//! by serde_json, and these trusted declarations name what it extracts.
//! Each name stands for the compact JSON rendering of one field of the
//! envelope's `images[0]` entry — a function of the body text alone — and
//! is `None` when the body is not JSON that serde_json accepts or the
//! field is absent.  Everything the library claims about the stored
//! metadata is proved downstream from these texts.

use vstd::prelude::*;

verus! {

/// The compact JSON rendering of `images[0].url` in the envelope text
/// `s`, or `None` when `s` does not parse or that field is absent.
pub uninterp spec fn envelope_url_text(s: Seq<char>) -> Option<Seq<char>>;

/// The compact JSON rendering of `images[0].title` in the envelope text
/// `s`, or `None` when `s` does not parse or that field is absent.
pub uninterp spec fn envelope_title_text(s: Seq<char>) -> Option<Seq<char>>;

/// The compact JSON rendering of `images[0].copyright` in the envelope
/// text `s`, or `None` when `s` does not parse or that field is absent.
pub uninterp spec fn envelope_copyright_text(s: Seq<char>) -> Option<Seq<char>>;

/// Relies on serde_json::from_str, Value::get and Value's Display: pull
/// `images[0].url` out of the envelope and render it compactly (a string
/// value prints with its delimiting quotes).  `get` never panics and the
/// rendering of a parsed value cannot fail.
#[verifier::external_body]
pub(crate) fn fetch_envelope_url_text(s: &str) -> (r: Option<String>)
    ensures
        r matches Some(t) ==> envelope_url_text(s@) == Some(t@),
        r is None ==> envelope_url_text(s@) is None,
{
    let root = serde_json::from_str::<serde_json::Value>(s).ok()?;
    Some(root.get("images")?.get(0)?.get("url")?.to_string())
}

/// Relies on serde_json::from_str, Value::get and Value's Display, as
/// `fetch_envelope_url_text` does, for `images[0].title`.
#[verifier::external_body]
pub(crate) fn fetch_envelope_title_text(s: &str) -> (r: Option<String>)
    ensures
        r matches Some(t) ==> envelope_title_text(s@) == Some(t@),
        r is None ==> envelope_title_text(s@) is None,
{
    let root = serde_json::from_str::<serde_json::Value>(s).ok()?;
    Some(root.get("images")?.get(0)?.get("title")?.to_string())
}

/// Relies on serde_json::from_str, Value::get and Value's Display, as
/// `fetch_envelope_url_text` does, for `images[0].copyright`.
#[verifier::external_body]
pub(crate) fn fetch_envelope_copyright_text(s: &str) -> (r: Option<String>)
    ensures
        r matches Some(t) ==> envelope_copyright_text(s@) == Some(t@),
        r is None ==> envelope_copyright_text(s@) is None,
{
    let root = serde_json::from_str::<serde_json::Value>(s).ok()?;
    Some(root.get("images")?.get(0)?.get("copyright")?.to_string())
}

} // verus!
