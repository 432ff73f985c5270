//! URL derivation for one image variant: substitute every occurrence of the
//! service's baseline-resolution marker `"1920x1080"` in the metadata's URL
//! template with the target resolution's canonical text, then prefix the
//! service's origin.  Substitution is literal text replacement; a template
//! without the marker passes through unchanged.

use vstd::prelude::*;
use crate::resolution::{Resolution, res_text};

verus! {

/// Every occurrence of `pat` in `s` replaced by `to`, scanning left to
/// right without overlap.  An empty pattern leaves `s` unchanged.
pub open spec fn replace_all(s: Seq<char>, pat: Seq<char>, to: Seq<char>) -> Seq<char>
    decreases s.len(),
{
    if pat.len() == 0 || s.len() < pat.len() {
        s
    } else if s.take(pat.len() as int) == pat {
        to + replace_all(s.skip(pat.len() as int), pat, to)
    } else {
        seq![s[0]] + replace_all(s.skip(1), pat, to)
    }
}

/// `pat` stands in `s` at position `i`.
pub open spec fn occurs_at(s: Seq<char>, pat: Seq<char>, i: int) -> bool {
    0 <= i && i + pat.len() <= s.len() && s.subrange(i, i + pat.len() as int) == pat
}

/// `pat` occurs somewhere in `s`.
pub open spec fn has_occurrence(s: Seq<char>, pat: Seq<char>) -> bool {
    exists|i: int| #[trigger] occurs_at(s, pat, i)
}

/// A text without any occurrence of the marker is left unchanged by the
/// substitution.
pub proof fn lemma_replace_all_absent(s: Seq<char>, pat: Seq<char>, to: Seq<char>)
    requires
        pat.len() > 0,
        !has_occurrence(s, pat),
    ensures
        replace_all(s, pat, to) == s,
    decreases s.len(),
{
    if s.len() < pat.len() {
    } else if s.take(pat.len() as int) == pat {
        assert(s.subrange(0, 0 + pat.len() as int) =~= s.take(pat.len() as int));
        assert(occurs_at(s, pat, 0));
        assert(false);
    } else {
        let s1 = s.skip(1);
        assert(!has_occurrence(s1, pat)) by {
            if has_occurrence(s1, pat) {
                let i = choose|i: int| #[trigger] occurs_at(s1, pat, i);
                assert(s.subrange(i + 1, i + 1 + pat.len() as int) =~= s1.subrange(
                    i,
                    i + pat.len() as int,
                ));
                assert(occurs_at(s, pat, i + 1));
            }
        }
        lemma_replace_all_absent(s1, pat, to);
        assert(seq![s[0]] + s1 =~= s);
    }
}

fn matches_at(s: &str, i: usize, pat: &str) -> (r: bool)
    requires
        i + pat@.len() <= s@.len(),
    ensures
        r == (s@.subrange(i as int, i as int + pat@.len() as int) == pat@),
{
    let ghost part = s@.subrange(i as int, i as int + pat@.len() as int);
    let n = s.unicode_len();
    let p = pat.unicode_len();
    let mut j: usize = 0;
    while j < p
        invariant
            j <= p,
            p == pat@.len(),
            n == s@.len(),
            i + p <= n,
            part == s@.subrange(i as int, i as int + pat@.len() as int),
            forall|k: int| 0 <= k < j ==> s@[i + k] == pat@[k],
        decreases p - j,
    {
        if s.get_char(i + j) != pat.get_char(j) {
            proof {
                assert(part[j as int] == s@[i + j]);
                assert(part[j as int] != pat@[j as int]);
            }
            return false;
        }
        j = j + 1;
    }
    proof {
        assert(part =~= pat@);
    }
    true
}

/// Every occurrence of `pat` in `s` replaced by `to`.
pub fn replace_marker(s: &str, pat: &str, to: &str) -> (r: String)
    requires
        pat@.len() > 0,
    ensures
        r@ == replace_all(s@, pat@, to@),
{
    let n = s.unicode_len();
    let p = pat.unicode_len();
    let mut out = String::new();
    let mut i: usize = 0;
    proof {
        assert(s@.skip(0) =~= s@);
        assert(out@ + replace_all(s@, pat@, to@) =~= replace_all(s@, pat@, to@));
    }
    while i < n
        invariant
            i <= n,
            n == s@.len(),
            p == pat@.len(),
            p > 0,
            replace_all(s@, pat@, to@) == out@ + replace_all(s@.skip(i as int), pat@, to@),
        decreases n - i,
    {
        let ghost rest = s@.skip(i as int);
        let ghost out0 = out@;
        if p <= n - i && matches_at(s, i, pat) {
            out.append(to);
            proof {
                let tail = replace_all(s@.skip(i as int + p as int), pat@, to@);
                assert(rest.take(p as int) =~= s@.subrange(i as int, i as int + p as int));
                assert(rest.skip(p as int) =~= s@.skip(i as int + p as int));
                assert(replace_all(rest, pat@, to@) == to@ + tail);
                assert(out0 + (to@ + tail) =~= (out0 + to@) + tail);
            }
            i = i + p;
        } else {
            let c = s.substring_char(i, i + 1);
            out.append(c);
            proof {
                let tail = replace_all(s@.skip(i as int + 1), pat@, to@);
                assert(c@ =~= seq![rest[0]]);
                assert(rest.skip(1) =~= s@.skip(i as int + 1));
                if rest.len() < p {
                    assert(replace_all(rest, pat@, to@) == rest);
                    assert(replace_all(rest.skip(1), pat@, to@) == rest.skip(1));
                    assert(rest =~= seq![rest[0]] + rest.skip(1));
                } else {
                    assert(rest.take(p as int) =~= s@.subrange(i as int, i as int + p as int));
                    assert(rest.take(p as int) != pat@);
                }
                assert(replace_all(rest, pat@, to@) == seq![rest[0]] + tail);
                assert(out0 + (seq![rest[0]] + tail) =~= (out0 + c@) + tail);
            }
            i = i + 1;
        }
    }
    proof {
        assert(s@.skip(n as int) =~= Seq::<char>::empty());
        assert(replace_all(s@.skip(n as int), pat@, to@) == Seq::<char>::empty());
        assert(out@ + Seq::<char>::empty() =~= out@);
    }
    out
}

/// The baseline-resolution marker embedded in the service's URL templates.
pub open spec fn marker_text() -> Seq<char> {
    "1920x1080"@
}

/// The service's base origin, prefixed to every derived image URL.
pub open spec fn origin_text() -> Seq<char> {
    "https://bing.com"@
}

/// The absolute URL for one image variant: the template with every marker
/// occurrence replaced by the target resolution's canonical text, behind
/// the service origin.
pub open spec fn derived_url(template: Seq<char>, r: Resolution) -> Seq<char> {
    origin_text() + replace_all(template, marker_text(), res_text(r))
}

/// Derive the concrete download URL for `r` from the metadata's URL
/// template.
pub fn derive_url(template: &str, r: &Resolution) -> (u: String)
    ensures
        u@ == derived_url(template@, *r),
{
    proof {
        reveal_strlit("1920x1080");
    }
    let res = r.to_string();
    let replaced = replace_marker(template, "1920x1080", res.as_str());
    let mut u = String::from_str("https://bing.com");
    u.append(replaced.as_str());
    u
}

/// The output file name for one image variant: `"{width}x{height}.jpg"`.
pub open spec fn image_file_name(r: Resolution) -> Seq<char> {
    res_text(r) + ".jpg"@
}

/// Build the output file name for `r`.
pub fn file_name_for(r: &Resolution) -> (f: String)
    ensures
        f@ == image_file_name(*r),
{
    let mut f = r.to_string();
    f.append(".jpg");
    f
}

/// Distinct resolutions get distinct output file names.
pub proof fn lemma_image_file_name_injective(a: Resolution, b: Resolution)
    requires
        image_file_name(a) == image_file_name(b),
    ensures
        a == b,
{
    let la = res_text(a).len() as int;
    let lb = res_text(b).len() as int;
    assert(image_file_name(a).len() == la + ".jpg"@.len());
    assert(image_file_name(b).len() == lb + ".jpg"@.len());
    assert(la == lb);
    assert(res_text(a) =~= image_file_name(a).take(la));
    assert(res_text(b) =~= image_file_name(b).take(lb));
    crate::resolution::lemma_res_text_injective(a, b);
}

} // verus!
