//! The image metadata record: the URL template, title and copyright string
//! of the day's featured image, extracted once per run from the service's
//! JSON envelope and then shared read-only by every task.
//!
//! The raw field texts reach this module as quoted JSON renderings; the
//! stored values have every leading and trailing quote character removed.

use vstd::prelude::*;
use crate::json::{
    envelope_copyright_text, envelope_title_text, envelope_url_text, fetch_envelope_copyright_text,
    fetch_envelope_title_text, fetch_envelope_url_text,
};

verus! {

/// The three fields a run needs from the service's JSON envelope.
pub struct ImageMetadata {
    pub url_template: String,
    pub title: String,
    pub copyright: String,
}

/// Why the single metadata fetch failed; either way the whole run aborts
/// before any task is launched.
#[derive(Debug)]
pub enum FetchError {
    /// The request for the JSON envelope did not complete.
    Network { message: String },
    /// The body was not valid JSON, or the expected fields were absent.
    Decode { message: String },
}

/// `s` without its leading quote characters.
pub open spec fn drop_leading_quotes(s: Seq<char>) -> Seq<char>
    decreases s.len(),
{
    if s.len() > 0 && s[0] == '"' {
        drop_leading_quotes(s.skip(1))
    } else {
        s
    }
}

/// `s` without its trailing quote characters.
pub open spec fn drop_trailing_quotes(s: Seq<char>) -> Seq<char>
    decreases s.len(),
{
    if s.len() > 0 && s.last() == '"' {
        drop_trailing_quotes(s.drop_last())
    } else {
        s
    }
}

/// `s` with every leading and trailing quote character removed: what
/// trimming the delimiting quotes off a JSON string rendering leaves.
pub open spec fn trim_quotes(s: Seq<char>) -> Seq<char> {
    drop_trailing_quotes(drop_leading_quotes(s))
}

/// Neither end of `s` carries a literal quote character.
pub open spec fn no_outer_quotes(s: Seq<char>) -> bool {
    s.len() > 0 ==> (s[0] != '"' && s.last() != '"')
}

proof fn lemma_drop_trailing_is_prefix(s: Seq<char>)
    ensures
        drop_trailing_quotes(s).len() <= s.len(),
        forall|i: int|
            0 <= i < drop_trailing_quotes(s).len() ==> drop_trailing_quotes(s)[i] == s[i],
    decreases s.len(),
{
    if s.len() > 0 && s.last() == '"' {
        lemma_drop_trailing_is_prefix(s.drop_last());
        let d = drop_trailing_quotes(s);
        assert forall|i: int| 0 <= i < d.len() implies d[i] == s[i] by {
            assert(d[i] == s.drop_last()[i]);
        }
    }
}

proof fn lemma_drop_leading_no_lead(s: Seq<char>)
    ensures
        drop_leading_quotes(s).len() > 0 ==> drop_leading_quotes(s)[0] != '"',
    decreases s.len(),
{
    if s.len() > 0 && s[0] == '"' {
        lemma_drop_leading_no_lead(s.skip(1));
    }
}

proof fn lemma_drop_trailing_no_trail(s: Seq<char>)
    ensures
        drop_trailing_quotes(s).len() > 0 ==> drop_trailing_quotes(s).last() != '"',
    decreases s.len(),
{
    if s.len() > 0 && s.last() == '"' {
        lemma_drop_trailing_no_trail(s.drop_last());
    }
}

/// Trimming leaves no quote character at either end.
pub proof fn lemma_trim_quotes_no_outer(s: Seq<char>)
    ensures
        no_outer_quotes(trim_quotes(s)),
{
    let t = drop_leading_quotes(s);
    lemma_drop_leading_no_lead(s);
    lemma_drop_trailing_is_prefix(t);
    lemma_drop_trailing_no_trail(t);
}

/// Remove every leading and trailing quote character from `s`.
pub fn strip_quotes(s: &str) -> (r: String)
    ensures
        r@ == trim_quotes(s@),
{
    let n = s.unicode_len();
    let mut a: usize = 0;
    proof {
        assert(s@.skip(0) =~= s@);
    }
    while a < n && s.get_char(a) == '"'
        invariant
            a <= n,
            n == s@.len(),
            drop_leading_quotes(s@) == drop_leading_quotes(s@.skip(a as int)),
        decreases n - a,
    {
        proof {
            assert(s@.skip(a as int)[0] == s@[a as int]);
            assert(s@.skip(a as int).skip(1) =~= s@.skip(a as int + 1));
        }
        a = a + 1;
    }
    let ghost t = s@.skip(a as int);
    proof {
        if a < n {
            assert(t[0] == s@[a as int]);
        } else {
            assert(t =~= Seq::<char>::empty());
        }
        assert(drop_leading_quotes(s@) == t);
    }
    let mut b: usize = n;
    proof {
        assert(t.take(n - a) =~= t);
    }
    while b > a && s.get_char(b - 1) == '"'
        invariant
            a <= b <= n,
            n == s@.len(),
            t == s@.skip(a as int),
            drop_trailing_quotes(t) == drop_trailing_quotes(t.take(b - a)),
        decreases b,
    {
        proof {
            let k = b - a;
            assert(t.take(k).len() == k);
            assert(t.take(k).last() == t[k - 1]);
            assert(t[k - 1] == s@[b - 1]);
            assert(t.take(k).drop_last() =~= t.take(k - 1));
        }
        b = b - 1;
    }
    proof {
        let k = b - a;
        if b > a {
            assert(t.take(k).last() == t[k - 1]);
            assert(t[k - 1] == s@[b - 1]);
            assert(drop_trailing_quotes(t.take(k)) == t.take(k));
        } else {
            assert(t.take(0) =~= Seq::<char>::empty());
        }
        assert(s@.subrange(a as int, b as int) =~= t.take(k));
    }
    let part = s.substring_char(a, b);
    part.to_owned()
}

/// `no_outer_quotes` holds of all three stored fields.
pub open spec fn metadata_wf(m: ImageMetadata) -> bool {
    &&& no_outer_quotes(m.url_template@)
    &&& no_outer_quotes(m.title@)
    &&& no_outer_quotes(m.copyright@)
}

/// Assemble the metadata record from the three raw field texts, stripping
/// the delimiting quote characters the JSON rendering carries.
pub fn metadata_from_texts(url_text: &str, title_text: &str, copyright_text: &str) -> (m:
    ImageMetadata)
    ensures
        m.url_template@ == trim_quotes(url_text@),
        m.title@ == trim_quotes(title_text@),
        m.copyright@ == trim_quotes(copyright_text@),
        metadata_wf(m),
{
    proof {
        lemma_trim_quotes_no_outer(url_text@);
        lemma_trim_quotes_no_outer(title_text@);
        lemma_trim_quotes_no_outer(copyright_text@);
    }
    ImageMetadata {
        url_template: strip_quotes(url_text),
        title: strip_quotes(title_text),
        copyright: strip_quotes(copyright_text),
    }
}

/// Decode the service's JSON envelope: take the first element of its
/// `images` array and store that element's `url`, `title` and `copyright`
/// renderings with their delimiting quotes stripped.  Decoding succeeds
/// exactly when all three renderings exist — that is, when the body is
/// JSON that serde_json accepts and `images[0]` carries all three fields —
/// and each stored field is then the quote-trimmed rendering.  Anything
/// else is a decode failure — the run-fatal kind, since no image URL can
/// be derived without the metadata.
pub fn decode_metadata(body: &str) -> (r: Result<ImageMetadata, FetchError>)
    ensures
        r is Ok <==> (envelope_url_text(body@) is Some && envelope_title_text(body@) is Some
            && envelope_copyright_text(body@) is Some),
        r matches Ok(m) ==> ({
            &&& envelope_url_text(body@) matches Some(u) && m.url_template@ == trim_quotes(u)
            &&& envelope_title_text(body@) matches Some(t) && m.title@ == trim_quotes(t)
            &&& envelope_copyright_text(body@) matches Some(c) && m.copyright@ == trim_quotes(c)
            &&& metadata_wf(m)
        }),
        r matches Err(e) ==> e is Decode,
{
    let url_text = match fetch_envelope_url_text(body) {
        Some(t) => t,
        None => {
            return Err(
                FetchError::Decode {
                    message: String::from_str(
                        "envelope has no images[0].url (or the body is not valid JSON)",
                    ),
                },
            );
        },
    };
    let title_text = match fetch_envelope_title_text(body) {
        Some(t) => t,
        None => {
            return Err(
                FetchError::Decode { message: String::from_str("envelope has no images[0].title") },
            );
        },
    };
    let copyright_text = match fetch_envelope_copyright_text(body) {
        Some(t) => t,
        None => {
            return Err(
                FetchError::Decode {
                    message: String::from_str("envelope has no images[0].copyright"),
                },
            );
        },
    };
    Ok(metadata_from_texts(url_text.as_str(), title_text.as_str(), copyright_text.as_str()))
}

} // verus!
